//! The model of a phenotype simulation definition.
//!
//! Numeric parameters stay as the literal text they were written with: the
//! library parses and checks the definition's shape, while the samplers
//! that draw from the distributions (and validate the numeric ranges) are
//! built outside the library, where floating point lives.

use vstd::prelude::*;

verus! {

broadcast use vstd::std_specs::vec::group_vec_axioms;

/// How one phenotype is simulated: an effect-size distribution, a
/// heritability, and the category of the rendered value.
#[derive(Debug)]
pub struct PhenoSim {
    pub effect_distribution: MyDistribution,
    pub heritability: String,
    pub category: Category,
}

/// Whether a phenotype renders as a number or as case/control labels.
#[derive(Debug)]
pub enum Category {
    Quantitative,
    Binary(Binary),
}

/// A case/control phenotype: a prevalence and the two labels.
#[derive(Debug)]
pub struct Binary {
    pub prevalence: String,
    pub case: String,
    pub control: String,
}

/// An effect-size distribution: a constant, a normal distribution given by
/// mean and standard deviation, or a weighted pick among distributions.
#[derive(Debug)]
pub enum MyDistribution {
    Stuck(String),
    Norm(String, String),
    Pick(Vec<PickEntry>),
}

/// One weighted alternative of a pick distribution.
#[derive(Debug)]
pub struct PickEntry {
    pub weight: String,
    pub distribution: MyDistribution,
}

impl PhenoSim {
    /// Assembles a simulation definition.
    pub fn new(effect_distribution: MyDistribution, heritability: String, category: Category) -> (sim: PhenoSim)
        ensures
            sim.effect_distribution == effect_distribution,
            sim.heritability == heritability,
            sim.category == category,
    {
        PhenoSim { effect_distribution, heritability, category }
    }
}

impl Binary {
    /// Assembles a case/control category.
    pub fn new(prevalence: String, case: String, control: String) -> (binary: Binary)
        ensures
            binary.prevalence == prevalence,
            binary.case == case,
            binary.control == control,
    {
        Binary { prevalence, case, control }
    }
}

impl MyDistribution {
    /// A distribution stuck on one constant.
    pub fn new_stuck(value: String) -> (distribution: MyDistribution)
        ensures
            distribution == MyDistribution::Stuck(value),
    {
        MyDistribution::Stuck(value)
    }

    /// A normal distribution by mean and standard deviation.
    pub fn new_normal(mean: String, std_dev: String) -> (distribution: MyDistribution)
        ensures
            distribution == MyDistribution::Norm(mean, std_dev),
    {
        MyDistribution::Norm(mean, std_dev)
    }

    /// A weighted pick among distributions.
    pub fn new_pick(entries: Vec<PickEntry>) -> (distribution: MyDistribution)
        ensures
            distribution == MyDistribution::Pick(entries),
    {
        MyDistribution::Pick(entries)
    }
}

/// The spec-level form of a distribution.
pub ghost enum DistV {
    Stuck(Seq<char>),
    Norm(Seq<char>, Seq<char>),
    Pick(Seq<(Seq<char>, DistV)>),
}

/// The spec-level form of a category.
pub ghost enum CategoryV {
    Quantitative,
    Binary(Seq<char>, Seq<char>, Seq<char>),
}

/// The spec-level form of a whole simulation definition.
pub ghost struct PhenoSimV {
    pub effect_distribution: DistV,
    pub heritability: Seq<char>,
    pub category: CategoryV,
}

/// The distribution a value models.
pub open spec fn dist_view(distribution: MyDistribution) -> DistV
    decreases distribution,
{
    match distribution {
        MyDistribution::Stuck(value) => DistV::Stuck(value@),
        MyDistribution::Norm(mean, std_dev) => DistV::Norm(mean@, std_dev@),
        MyDistribution::Pick(entries) => DistV::Pick(entries_view(entries@)),
    }
}

/// The weighted alternatives a pick models.
pub open spec fn entries_view(entries: Seq<PickEntry>) -> Seq<(Seq<char>, DistV)>
    decreases entries,
{
    if entries.len() == 0 {
        Seq::<(Seq<char>, DistV)>::empty()
    } else {
        seq![(entries.first().weight@, dist_view(entries.first().distribution))] + entries_view(
            entries.drop_first(),
        )
    }
}

/// The category a value models.
pub open spec fn category_view(category: Category) -> CategoryV {
    match category {
        Category::Quantitative => CategoryV::Quantitative,
        Category::Binary(binary) => CategoryV::Binary(
            binary.prevalence@,
            binary.case@,
            binary.control@,
        ),
    }
}

/// The definition a value models.
pub open spec fn sim_view(sim: PhenoSim) -> PhenoSimV {
    PhenoSimV {
        effect_distribution: dist_view(sim.effect_distribution),
        heritability: sim.heritability@,
        category: category_view(sim.category),
    }
}

/// Appending an entry appends its view.
proof fn lemma_entries_view_push(entries: Seq<PickEntry>, entry: PickEntry)
    ensures
        entries_view(entries.push(entry)) =~~= entries_view(entries).push(
            (entry.weight@, dist_view(entry.distribution)),
        ),
    decreases entries.len(),
{
    let pushed = entries.push(entry);
    let pair = (entry.weight@, dist_view(entry.distribution));
    if entries.len() == 0 {
        assert(pushed.first() == entry);
        assert(pushed.drop_first() =~= Seq::<PickEntry>::empty());
        assert(entries_view(pushed.drop_first()) == Seq::<(Seq<char>, DistV)>::empty());
        assert(entries_view(pushed) =~~= seq![pair]);
        assert(entries_view(entries).push(pair) =~~= seq![pair]);
    } else {
        assert(pushed.first() == entries.first());
        assert(pushed.drop_first() =~= entries.drop_first().push(entry));
        lemma_entries_view_push(entries.drop_first(), entry);
        assert(entries_view(pushed) == seq![
            (pushed.first().weight@, dist_view(pushed.first().distribution)),
        ] + entries_view(pushed.drop_first()));
        assert(entries_view(pushed) =~~= entries_view(entries).push(pair));
    }
}

impl MyDistribution {
    /// A copy that models the same distribution.
    pub fn duplicate(&self) -> (copy: MyDistribution)
        ensures
            dist_view(copy) == dist_view(*self),
        decreases *self,
    {
        match self {
            MyDistribution::Stuck(value) => MyDistribution::Stuck(value.clone()),
            MyDistribution::Norm(mean, std_dev) => MyDistribution::Norm(
                mean.clone(),
                std_dev.clone(),
            ),
            MyDistribution::Pick(entries) => {
                let mut copies: Vec<PickEntry> = Vec::new();
                let n = entries.len();
                let mut i: usize = 0;
                while i < n
                    invariant
                        i <= n == entries@.len(),
                        self == MyDistribution::Pick(*entries),
                        copies@.len() == i,
                        entries_view(copies@) =~~= entries_view(entries@.take(i as int)),
                    decreases n - i,
                {
                    let entry = &entries[i];
                    proof {
                        assert(*entry == entries@[i as int]);
                        assert(decreases_to!(*self => self->Pick_0));
                        assert(decreases_to!(*entries => entries@[i as int]));
                        assert(decreases_to!(entries@[i as int] => entries@[i as int].distribution));
                    }
                    let copy_entry = PickEntry {
                        weight: entry.weight.clone(),
                        distribution: entry.distribution.duplicate(),
                    };
                    let ghost pre_copies = copies@;
                    copies.push(copy_entry);
                    proof {
                        assert(copy_entry.weight@ == entries@[i as int].weight@);
                        assert(dist_view(copy_entry.distribution) == dist_view(
                            entries@[i as int].distribution,
                        ));
                        lemma_entries_view_push(pre_copies, copy_entry);
                        assert(copies@ =~= pre_copies.push(copy_entry));
                        lemma_entries_view_push(entries@.take(i as int), entries@[i as int]);
                        assert(entries@.take(i + 1) =~= entries@.take(i as int).push(
                            entries@[i as int],
                        ));
                        assert(entries_view(copies@) =~~= entries_view(entries@.take(i + 1)));
                    }
                    i = i + 1;
                }
                proof {
                    assert(entries@.take(n as int) =~= entries@);
                }
                MyDistribution::Pick(copies)
            },
        }
    }
}

impl Category {
    /// A copy that models the same category.
    pub fn duplicate(&self) -> (copy: Category)
        ensures
            category_view(copy) == category_view(*self),
    {
        match self {
            Category::Quantitative => Category::Quantitative,
            Category::Binary(binary) => Category::Binary(
                Binary {
                    prevalence: binary.prevalence.clone(),
                    case: binary.case.clone(),
                    control: binary.control.clone(),
                },
            ),
        }
    }
}

impl PhenoSim {
    /// A copy that models the same definition.
    pub fn duplicate(&self) -> (copy: PhenoSim)
        ensures
            sim_view(copy) == sim_view(*self),
    {
        PhenoSim {
            effect_distribution: self.effect_distribution.duplicate(),
            heritability: self.heritability.clone(),
            category: self.category.duplicate(),
        }
    }
}

} // verus!
