//! Helpers behind the command-line layer: error text for a bad
//! subcommand, and optional numeric arguments.

use vstd::prelude::*;
use vstd::string::*;
use crate::error::Error;
use crate::error::ErrorKind;
use crate::num_str::all_digits;
use crate::num_str::dec_value;
use crate::num_str::parse_u64;

verus! {

/// The message for a missing or unknown subcommand, naming the available
/// ones.
pub fn subcommand_problem(problem: &str) -> (result: Result<(), Error>)
    ensures
        result matches Err(e) && e.kind == ErrorKind::Phenics,
        result matches Err(e) ==> e.message@ == problem@
            + ". Available are 'check', 'vcf', 'merge', 'render', 'download', 'tabix' and 'sample'."@,
{
    let mut message = problem.to_owned();
    message.append(
        ". Available are 'check', 'vcf', 'merge', 'render', 'download', 'tabix' and 'sample'.",
    );
    Err(Error::from_message(message))
}

/// Parses an optional textual argument as a number: absent stays absent,
/// present must parse.
pub fn parse_unpack(text: Option<&str>) -> (result: Result<Option<u64>, Error>)
    ensures
        text is None ==> result == Result::<Option<u64>, Error>::Ok(Option::<u64>::None),
        text matches Some(t) ==> {
            &&& (result matches Ok(parsed) ==> (parsed matches Some(value) && t@.len() > 0
                && all_digits(t@) && value == dec_value(t@)))
            &&& (result matches Err(e) ==> (e.kind == ErrorKind::ParseInt && !(t@.len() > 0
                && all_digits(t@) && dec_value(t@) <= u64::MAX)))
        },
{
    match text {
        None => Ok(None),
        Some(text) => match parse_u64(text) {
            Ok(value) => Ok(Some(value)),
            Err(error) => Err(error),
        },
    }
}

} // verus!
