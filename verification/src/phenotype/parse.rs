//! Parsing phenotype definition lines of the form `<names>=<definition>`.

pub mod analyze;
pub mod tokenize;
pub mod treeize;

use vstd::prelude::*;
use vstd::string::*;
use crate::error::Error;
use crate::error::ErrorKind;
use crate::http::find_char_from;
use crate::http::index_of_from;
use crate::num_str::all_digits;
use crate::num_str::dec_str;
use crate::num_str::dec_value;
use crate::num_str::parse_u64;
use crate::num_str::u64_to_dec;
use crate::phenotype::Phenotype;
use crate::phenotype::pheno_sim::PhenoSim;
use crate::phenotype::pheno_sim::sim_view;

verus! {

/// The error for a malformed definition line.
pub fn cannot_parse(string: &str, problem: &str) -> (error: Error)
    ensures
        error.kind == ErrorKind::Phenics,
        error.message@ == "Cannot parse "@ + string@ + ": "@ + problem@,
{
    let mut message = "Cannot parse ".to_owned();
    message.append(string);
    message.append(": ");
    message.append(problem);
    Error::from_message(message)
}

/// What a name part expands to: `base[n]` numbers `base0` to `base(n-1)`,
/// anything else names just itself. The count must parse as a number that
/// fits the machine; a `]` without a `[` is malformed.
pub open spec fn spec_parse_names(name: Seq<char>) -> Result<Seq<Seq<char>>, ErrorKind> {
    if !(name.len() > 0 && name.last() == ']') {
        Ok(seq![name])
    } else {
        let stripped = name.drop_last();
        let bracket = index_of_from(stripped, '[', 0);
        if bracket == stripped.len() {
            Err(ErrorKind::Phenics)
        } else {
            let count_text = stripped.subrange(bracket + 1, index_of_from(stripped, '[', bracket + 1));
            if count_text.len() > 0 && all_digits(count_text) && dec_value(count_text)
                <= usize::MAX {
                Ok(
                    Seq::new(
                        dec_value(count_text) as nat,
                        |i: int| stripped.take(bracket) + dec_str(i as nat),
                    ),
                )
            } else {
                Err(ErrorKind::ParseInt)
            }
        }
    }
}

/// Expands one name part into the phenotype names it declares.
pub fn parse_names(name_string: &str) -> (result: Result<Vec<String>, Error>)
    ensures
        result matches Ok(names) ==> (spec_parse_names(name_string@) matches Ok(expected)
            && names@.map_values(|n: String| n@) == expected),
        result matches Err(e) ==> (spec_parse_names(name_string@) matches Err(kind) && e.kind
            == kind),
{
    let ghost s = name_string@;
    let len = name_string.unicode_len();
    if len == 0 || name_string.get_char(len - 1) != ']' {
        let mut names: Vec<String> = Vec::new();
        names.push(name_string.to_owned());
        proof {
            assert(names@.map_values(|n: String| n@) =~= seq![s]);
        }
        return Ok(names);
    }
    let stripped_len = len - 1;
    let ghost stripped = s.drop_last();
    proof {
        assert(stripped =~= s.take(stripped_len as int));
    }
    // Find the bracket that opens the count.
    let mut bracket: usize = 0;
    loop
        invariant
            bracket <= stripped_len < len,
            stripped_len == len - 1,
            len == s.len(),
            s == name_string@,
            stripped == s.drop_last(),
            index_of_from(stripped, '[', 0) == index_of_from(stripped, '[', bracket as int),
        ensures
            bracket <= stripped_len,
            bracket == index_of_from(stripped, '[', 0),
        decreases stripped_len - bracket,
    {
        if bracket == stripped_len {
            proof {
                assert(index_of_from(stripped, '[', bracket as int) == stripped.len());
            }
            break ;
        }
        proof {
            assert(stripped[bracket as int] == s[bracket as int]);
        }
        if name_string.get_char(bracket) == '[' {
            proof {
                assert(index_of_from(stripped, '[', bracket as int) == bracket);
            }
            break ;
        }
        bracket = bracket + 1;
    }
    if bracket == stripped_len {
        let mut message = "Malformed name definition '".to_owned();
        message.append(name_string);
        message.append("'.");
        return Err(Error::from_message(message));
    }
    // Find where the count ends: the next bracket or the end.
    let mut bracket2: usize = bracket + 1;
    loop
        invariant
            bracket + 1 <= bracket2 <= stripped_len < len,
            stripped_len == len - 1,
            len == s.len(),
            s == name_string@,
            stripped == s.drop_last(),
            index_of_from(stripped, '[', bracket + 1) == index_of_from(
                stripped,
                '[',
                bracket2 as int,
            ),
        ensures
            bracket + 1 <= bracket2 <= stripped_len,
            bracket2 == index_of_from(stripped, '[', bracket + 1),
        decreases stripped_len - bracket2,
    {
        if bracket2 == stripped_len {
            proof {
                assert(index_of_from(stripped, '[', bracket2 as int) == stripped.len());
            }
            break ;
        }
        proof {
            assert(stripped[bracket2 as int] == s[bracket2 as int]);
        }
        if name_string.get_char(bracket2) == '[' {
            proof {
                assert(index_of_from(stripped, '[', bracket2 as int) == bracket2);
            }
            break ;
        }
        bracket2 = bracket2 + 1;
    }
    let count_text = name_string.substring_char(bracket + 1, bracket2);
    proof {
        assert(count_text@ =~= stripped.subrange(bracket + 1, bracket2 as int));
    }
    let count = match parse_u64(count_text) {
        Ok(count) => count,
        Err(error) => {
            return Err(error);
        },
    };
    if count > usize::MAX as u64 {
        return Err(
            Error::new(ErrorKind::ParseInt, "number too large to fit in target type".to_owned()),
        );
    }
    let count = count as usize;
    let base = name_string.substring_char(0, bracket);
    proof {
        assert(base@ =~= stripped.take(bracket as int));
    }
    let mut names: Vec<String> = Vec::new();
    let mut i: usize = 0;
    while i < count
        invariant
            i <= count,
            names@.len() == i,
            forall|k: int| 0 <= k < i ==> (#[trigger] names@[k])@ == base@ + dec_str(k as nat),
        decreases count - i,
    {
        let mut name = base.to_owned();
        let number_text = u64_to_dec(i as u64);
        name.append(number_text.as_str());
        names.push(name);
        i = i + 1;
    }
    proof {
        let expected = spec_parse_names(s)->Ok_0;
        assert(names@.map_values(|n: String| n@) =~= expected);
    }
    Ok(names)
}

/// Parses the definition text into a simulation model: tokens, then the
/// call tree, then the analysis.
pub fn parse_sim(definition: &str) -> (result: Result<PhenoSim, Error>)
    ensures
        result matches Err(e) ==> e.kind == ErrorKind::Phenics,
        result is Ok ==> treeize::spec_treeize(tokenize::tokenize_spec(definition@)) is Some,
{
    let tokens = match tokenize::tokenize(definition) {
        Ok(tokens) => tokens,
        Err(error) => {
            return Err(error);
        },
    };
    let call = match treeize::treeize(tokens) {
        Ok(call) => call,
        Err(error) => {
            return Err(error);
        },
    };
    analyze::analyze(call)
}

/// Parses one definition line: the names left of the `=`, the simulation
/// right of it; a line needs exactly one `=`. Every declared name gets
/// the parsed simulation.
pub fn parse(string: &str) -> (result: Result<Vec<Phenotype>, Error>)
    ensures
        result matches Err(e) ==> (e.kind == ErrorKind::Phenics || e.kind == ErrorKind::ParseInt),
        index_of_from(string@, '=', 0) == string@.len() ==> (result matches Err(e) && e.kind
            == ErrorKind::Phenics),
        result matches Ok(phenotypes) ==> {
            let eq = index_of_from(string@, '=', 0);
            &&& eq < string@.len()
            &&& index_of_from(string@, '=', eq + 1) == string@.len()
            &&& spec_parse_names(string@.take(eq)) matches Ok(names) && phenotypes@.len()
                == names.len() && (forall|i: int|
                0 <= i < names.len() ==> (#[trigger] phenotypes@[i]).name@ == names[i])
            &&& (forall|i: int, j: int|
                0 <= i < phenotypes@.len() && 0 <= j < phenotypes@.len() ==> sim_view(
                    (#[trigger] phenotypes@[i]).sim,
                ) == sim_view((#[trigger] phenotypes@[j]).sim))
        },
{
    let ghost s = string@;
    let len = string.unicode_len();
    let eq = find_char_from(string, '=', 0, len);
    if eq == len {
        return Err(cannot_parse(string, "no '='"));
    }
    let eq2 = find_char_from(string, '=', eq + 1, len);
    if eq2 < len {
        return Err(cannot_parse(string, "More than one '='."));
    }
    let definition = string.substring_char(eq + 1, len);
    let sim = match parse_sim(definition) {
        Ok(sim) => sim,
        Err(error) => {
            return Err(error);
        },
    };
    let name_string = string.substring_char(0, eq);
    proof {
        assert(name_string@ =~= s.take(eq as int));
    }
    let mut names = match parse_names(name_string) {
        Ok(names) => names,
        Err(error) => {
            return Err(error);
        },
    };
    let ghost expected = names@.map_values(|n: String| n@);
    let mut phenotypes: Vec<Phenotype> = Vec::new();
    while names.len() > 0
        invariant
            expected == spec_parse_names(s.take(index_of_from(s, '=', 0))) ->Ok_0,
            phenotypes@.len() + names@.len() == expected.len(),
            forall|k: int|
                0 <= k < phenotypes@.len() ==> (#[trigger] phenotypes@[k]).name@ == expected[k],
            forall|k: int|
                0 <= k < names@.len() ==> (#[trigger] names@[k])@ == expected[
                    phenotypes@.len() + k
                ],
            forall|k: int|
                0 <= k < phenotypes@.len() ==> sim_view((#[trigger] phenotypes@[k]).sim)
                    == sim_view(sim),
        decreases names@.len(),
    {
        let name = names.remove(0);
        phenotypes.push(Phenotype::new(name, sim.duplicate()));
    }
    Ok(phenotypes)
}

} // verus!
