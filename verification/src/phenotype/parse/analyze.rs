//! The analyzer: a parsed call tree into a simulation definition.

use vstd::prelude::*;
use vstd::string::*;
use crate::error::Error;
use crate::error::ErrorKind;
use crate::num_str::u64_to_dec;
use crate::phenotype::parse::tokenize::Value;
use crate::phenotype::parse::treeize::Call;
use crate::phenotype::parse::treeize::Tree;
use crate::phenotype::pheno_sim::Binary;
use crate::phenotype::pheno_sim::Category;
use crate::phenotype::pheno_sim::MyDistribution;
use crate::phenotype::pheno_sim::PhenoSim;
use crate::phenotype::pheno_sim::PickEntry;
use crate::text::str_eq;

verus! {

/// Turns the root call into a simulation definition: the first argument
/// is the effect distribution, the second the heritability, and an
/// optional third the category (quantitative when absent).
pub fn analyze(call: Call) -> (result: Result<PhenoSim, Error>)
    ensures
        call.args@.len() < 2 ==> (result matches Err(e) && e.kind == ErrorKind::Phenics),
        result matches Ok(sim) ==> {
            &&& call.args@.len() >= 2
            &&& (call.args@[1] matches Tree::Value(Value::Num(h)) && sim.heritability == h)
            &&& (call.args@.len() == 2 ==> sim.category is Quantitative)
            &&& (call.args@[0] matches Tree::Value(Value::Num(value)) ==> sim.effect_distribution
                == MyDistribution::Stuck(value))
            &&& (call.args@.len() >= 3 ==> (call.args@[2] matches Tree::Call(bin_call)
                && bin_call.name@ == "bin"@ && sim.category is Binary && spec_bin(
                bin_call,
                Ok(sim.category),
            )))
        },
        result matches Err(e) ==> e.kind == ErrorKind::Phenics,
{
    let n_args = call.args.len();
    if n_args < 2 {
        let mut message = "Phenotype definition needs as least two arguments, but got ".to_owned();
        let count_text = u64_to_dec(n_args as u64);
        message.append(count_text.as_str());
        return Err(Error::from_message(message));
    }
    let mut args = call.args;
    let first = args.remove(0);
    let effect_distribution = match distribution(first) {
        Ok(effect_distribution) => effect_distribution,
        Err(error) => {
            return Err(error);
        },
    };
    let second = args.remove(0);
    let heritability = match number(second) {
        Ok(heritability) => heritability,
        Err(error) => {
            return Err(error);
        },
    };
    let category = if args.len() > 0 {
        let third = args.remove(0);
        match category(third) {
            Ok(category) => category,
            Err(error) => {
                return Err(error);
            },
        }
    } else {
        Category::Quantitative
    };
    Ok(PhenoSim::new(effect_distribution, heritability, category))
}

/// Turns one argument into an effect distribution: a number is a constant
/// distribution, `norm(mean, std_dev)` a normal one, `pick(w, d, ...)` a
/// weighted pick; anything else is malformed.
pub fn distribution(tree: Tree) -> (result: Result<MyDistribution, Error>)
    ensures
        result matches Err(e) ==> e.kind == ErrorKind::Phenics,
        tree matches Tree::Value(Value::Num(text)) ==> result == Result::<
            MyDistribution,
            Error,
        >::Ok(MyDistribution::Stuck(text)),
        tree matches Tree::Value(Value::Str(_)) ==> (result matches Err(e) && e.kind
            == ErrorKind::Phenics),
        tree matches Tree::Call(call) ==> {
            &&& (call.name@ != "norm"@ && call.name@ != "pick"@) ==> (result matches Err(e)
                && e.kind == ErrorKind::Phenics)
            &&& call.name@ == "norm"@ ==> spec_norm(call, result)
            &&& call.name@ == "pick"@ ==> spec_pick(call, result)
        },
    decreases tree,
{
    proof {
        reveal_strlit("norm");
        reveal_strlit("pick");
        assert("norm"@[0] != "pick"@[0]);
    }
    match tree {
        Tree::Call(call) => {
            if str_eq(call.name.as_str(), "norm") {
                norm(call)
            } else if str_eq(call.name.as_str(), "pick") {
                pick(call)
            } else {
                let mut message = "`".to_owned();
                message.append(call.name.as_str());
                message.append("` is not recognized as a distribution.");
                Err(Error::from_message(message))
            }
        },
        Tree::Value(Value::Num(number)) => Ok(MyDistribution::new_stuck(number)),
        Tree::Value(Value::Str(string)) => {
            let mut message =
                "Distribution needs to be a call or number, but got string `".to_owned();
            message.append(string.as_str());
            message.append("`.");
            Err(Error::from_message(message))
        },
    }
}

/// What `norm` yields: exactly two numeric arguments make a normal
/// distribution from mean and standard deviation.
pub open spec fn spec_norm(call: Call, result: Result<MyDistribution, Error>) -> bool {
    if call.args@.len() != 2 {
        result matches Err(e) && e.kind == ErrorKind::Phenics
    } else {
        match (call.args@[0], call.args@[1]) {
            (Tree::Value(Value::Num(mean)), Tree::Value(Value::Num(std_dev))) => result
                == Result::<MyDistribution, Error>::Ok(MyDistribution::Norm(mean, std_dev)),
            _ => (result matches Err(e) && e.kind == ErrorKind::Phenics),
        }
    }
}

/// What `pick` yields: at least four arguments, evenly many, alternating
/// a numeric weight and a distribution; each entry keeps its weight text.
pub open spec fn spec_pick(call: Call, result: Result<MyDistribution, Error>) -> bool {
    if call.args@.len() < 4 || call.args@.len() % 2 == 1 {
        result matches Err(e) && e.kind == ErrorKind::Phenics
    } else {
        result matches Ok(distribution) ==> (distribution matches MyDistribution::Pick(entries)
            && entries@.len() == call.args@.len() / 2 && (forall|i: int|
            0 <= i < entries@.len() ==> ((#[trigger] call.args@[2 * i])
                matches Tree::Value(Value::Num(weight)) && entries@[i].weight == weight)))
    }
}

/// Builds a normal distribution from a `norm` call.
fn norm(call: Call) -> (result: Result<MyDistribution, Error>)
    ensures
        spec_norm(call, result),
        result matches Err(e) ==> e.kind == ErrorKind::Phenics,
{
    if call.args.len() != 2 {
        let mut message = "`norm` takes two arguments, but got ".to_owned();
        let count_text = u64_to_dec(call.args.len() as u64);
        message.append(count_text.as_str());
        message.append(".");
        return Err(Error::from_message(message));
    }
    let mut args = call.args;
    let first = args.remove(0);
    let mean = match number(first) {
        Ok(mean) => mean,
        Err(error) => {
            return Err(error);
        },
    };
    let second = args.remove(0);
    let std_dev = match number(second) {
        Ok(std_dev) => std_dev,
        Err(error) => {
            return Err(error);
        },
    };
    Ok(MyDistribution::new_normal(mean, std_dev))
}

/// Builds a weighted pick from a `pick` call.
fn pick(call: Call) -> (result: Result<MyDistribution, Error>)
    ensures
        spec_pick(call, result),
        result matches Err(e) ==> e.kind == ErrorKind::Phenics,
    decreases call,
{
    if call.args.len() < 4 {
        let mut message = "`pick` takes at least four arguments, but got ".to_owned();
        let count_text = u64_to_dec(call.args.len() as u64);
        message.append(count_text.as_str());
        message.append(".");
        return Err(Error::from_message(message));
    }
    if call.args.len() % 2 == 1 {
        let mut message = "`pick` takes an even number of arguments, but got ".to_owned();
        let count_text = u64_to_dec(call.args.len() as u64);
        message.append(count_text.as_str());
        message.append(".");
        return Err(Error::from_message(message));
    }
    let n_args = call.args.len();
    let mut args = call.args;
    let ghost all = args@;
    let mut entries: Vec<PickEntry> = Vec::new();
    let mut taken: usize = 0;
    while taken < n_args
        invariant
            all == call.args@,
            n_args == all.len(),
            n_args % 2 == 0,
            n_args >= 4,
            taken % 2 == 0,
            taken <= n_args,
            args@ =~= all.skip(taken as int),
            entries@.len() == taken / 2,
            forall|k: int|
                0 <= k < entries@.len() ==> ((#[trigger] all[2 * k]) matches Tree::Value(
                    Value::Num(weight),
                ) && entries@[k].weight == weight),
        decreases n_args - taken,
    {
        let arg_odd = args.remove(0);
        proof {
            assert(arg_odd == all.skip(taken as int)[0]);
            assert(all.skip(taken as int)[0] == all[taken as int]);
            assert(all.skip(taken as int).remove(0) =~= all.skip(taken + 1));
        }
        let weight = match number(arg_odd) {
            Ok(weight) => weight,
            Err(error) => {
                return Err(error);
            },
        };
        let arg_even = args.remove(0);
        proof {
            assert(arg_even == all.skip(taken + 1)[0]);
            assert(all.skip(taken + 1)[0] == call.args@[taken + 1]);
            assert(all.skip(taken + 1).remove(0) =~= all.skip(taken + 2));
        }
        let distribution = match distribution(arg_even) {
            Ok(distribution) => distribution,
            Err(error) => {
                return Err(error);
            },
        };
        entries.push(PickEntry { weight, distribution });
        taken = taken + 2;
    }
    Ok(MyDistribution::new_pick(entries))
}

/// Takes a numeric argument's literal text.
pub fn number(tree: Tree) -> (result: Result<String, Error>)
    ensures
        result matches Err(e) ==> e.kind == ErrorKind::Phenics,
        tree matches Tree::Value(Value::Num(text)) ==> result == Result::<String, Error>::Ok(text),
        !(tree matches Tree::Value(Value::Num(_))) ==> (result matches Err(e) && e.kind
            == ErrorKind::Phenics),
{
    match tree {
        Tree::Value(Value::Num(number)) => Ok(number),
        _ => Err(Error::from_message("Argument needs to be a number.".to_owned())),
    }
}

/// Turns the category argument into a category: only `bin(...)` is known.
pub fn category(tree: Tree) -> (result: Result<Category, Error>)
    ensures
        result matches Ok(category) ==> (category matches Category::Binary(binary) && (
        tree matches Tree::Call(call) && call.name@ == "bin"@ && spec_bin(call, result))),
        result matches Err(e) ==> e.kind == ErrorKind::Phenics,
{
    match tree {
        Tree::Call(call) => {
            proof {
                reveal_strlit("bin");
            }
            if str_eq(call.name.as_str(), "bin") {
                bin(call)
            } else {
                Err(Error::from_message("The only category recognized is `bin`.".to_owned()))
            }
        },
        _ => Err(Error::from_message("Argument needs to be a category definition.".to_owned())),
    }
}

/// What `bin` yields: a numeric prevalence, then optional case and
/// control labels, defaulting to `case` and `control`.
pub open spec fn spec_bin(call: Call, result: Result<Category, Error>) -> bool {
    if call.args@.len() == 0 {
        result matches Err(e) && e.kind == ErrorKind::Phenics
    } else {
        match call.args@[0] {
            Tree::Value(Value::Num(prevalence)) => result matches Ok(category) ==> (
            category matches Category::Binary(binary) && binary.prevalence == prevalence
                && (call.args@.len() == 1 ==> binary.case@ == "case"@ && binary.control@
                == "control"@) && (call.args@.len() >= 2 ==> (call.args@[1] matches Tree::Value(
                case_value,
            ) && binary.case@ == crate::phenotype::parse::tokenize::value_text(case_value)))
                && (call.args@.len() == 2 ==> binary.control@ == "control"@) && (call.args@.len()
                >= 3 ==> (call.args@[2] matches Tree::Value(control_value) && binary.control@
                == crate::phenotype::parse::tokenize::value_text(control_value)))),
            _ => (result matches Err(e) && e.kind == ErrorKind::Phenics),
        }
    }
}

/// Builds a case/control category from a `bin` call.
fn bin(call: Call) -> (result: Result<Category, Error>)
    ensures
        spec_bin(call, result),
        result matches Ok(category) ==> category is Binary,
        result matches Err(e) ==> e.kind == ErrorKind::Phenics,
{
    if call.args.len() == 0 {
        return Err(Error::from_message("Bin needs as least one argument".to_owned()));
    }
    let mut args = call.args;
    let first = args.remove(0);
    let prevalence = match number(first) {
        Ok(prevalence) => prevalence,
        Err(error) => {
            return Err(error);
        },
    };
    let case = if args.len() > 0 {
        let arg = args.remove(0);
        match value(arg) {
            Ok(case_value) => value_to_text(case_value),
            Err(error) => {
                return Err(error);
            },
        }
    } else {
        "case".to_owned()
    };
    let control = if args.len() > 0 {
        let arg = args.remove(0);
        match value(arg) {
            Ok(control_value) => value_to_text(control_value),
            Err(error) => {
                return Err(error);
            },
        }
    } else {
        "control".to_owned()
    };
    Ok(Category::Binary(Binary::new(prevalence, case, control)))
}

/// Takes a bare value argument.
pub fn value(tree: Tree) -> (result: Result<Value, Error>)
    ensures
        result matches Err(e) ==> e.kind == ErrorKind::Phenics,
        tree matches Tree::Value(v) ==> result == Result::<Value, Error>::Ok(v),
        tree is Call ==> (result matches Err(e) && e.kind == ErrorKind::Phenics),
{
    match tree {
        Tree::Call(_) => Err(Error::from_message("Argument needs to be a value.".to_owned())),
        Tree::Value(value) => Ok(value),
    }
}

/// The text a value renders to.
fn value_to_text(value: Value) -> (text: String)
    ensures
        text@ == crate::phenotype::parse::tokenize::value_text(value),
{
    match value {
        Value::Str(text) => text,
        Value::Num(text) => text,
    }
}

} // verus!
