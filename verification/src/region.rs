//! Genomic regions and the text form `<chrom>:<start>-<end>`.

use vstd::prelude::*;
use vstd::string::*;
use crate::error::Error;
use crate::error::ErrorKind;
use crate::http::find_char_from;
use crate::http::index_of_from;
use crate::num_str::all_digits;
use crate::num_str::dec_value;
use crate::num_str::parse_u64;

verus! {

/// A chromosome name with a 1-based, inclusive coordinate interval; an
/// open-ended region has no upper bound.
#[derive(Debug)]
pub struct Region {
    pub name: String,
    pub start: u64,
    pub end: Option<u64>,
}

impl Region {
    /// Whether the region's coordinates are valid (positions are 1-based).
    pub open spec fn wf(self) -> bool {
        self.start >= 1
    }
}

/// Whether `text` parses as a `u64` (nonempty, all digits, in range).
pub open spec fn parses_as_u64(text: Seq<char>) -> bool {
    text.len() > 0 && all_digits(text) && dec_value(text) <= u64::MAX
}

/// What parsing `<chrom>:<start>-<end>` yields: the text before the first
/// `:` names the chromosome; between the first and second `:` stand the
/// limits, the texts before the second `-` and between the first and second
/// `-`; both must be positive numbers. A missing `:`, a missing `-` behind
/// it, or a zero position is a malformed region; a non-numeric limit is a
/// numeric error.
pub open spec fn spec_parse_region(s: Seq<char>) -> Result<(Seq<char>, u64, u64), ErrorKind> {
    let colon = index_of_from(s, ':', 0);
    if colon == s.len() {
        Err(ErrorKind::Phenics)
    } else {
        let part2 = s.subrange(colon + 1, index_of_from(s, ':', colon + 1));
        let dash = index_of_from(part2, '-', 0);
        let start_text = part2.take(dash);
        if !parses_as_u64(start_text) {
            Err(ErrorKind::ParseInt)
        } else if dec_value(start_text) == 0 {
            Err(ErrorKind::Phenics)
        } else if dash == part2.len() {
            Err(ErrorKind::Phenics)
        } else {
            let end_text = part2.subrange(dash + 1, index_of_from(part2, '-', dash + 1));
            if !parses_as_u64(end_text) {
                Err(ErrorKind::ParseInt)
            } else if dec_value(end_text) == 0 {
                Err(ErrorKind::Phenics)
            } else {
                Ok((s.take(colon), dec_value(start_text) as u64, dec_value(end_text) as u64))
            }
        }
    }
}

/// The error for text that is not a region.
pub fn parse_error(string: &str) -> (error: Error)
    ensures
        error.kind == ErrorKind::Phenics,
        error.message@ == "Cannot parse '"@ + string@ + "' as a region."@,
{
    let mut message = "Cannot parse '".to_owned();
    message.append(string);
    message.append("' as a region.");
    Error::from_message(message)
}

/// Parses `<chrom>:<start>-<end>` into a region with both bounds.
pub fn parse(string: &str) -> (result: Result<Region, Error>)
    ensures
        result matches Ok(region) ==> {
            &&& spec_parse_region(string@) matches Ok(fields) && region.name@ == fields.0
                && region.start == fields.1 && region.end == Some(fields.2)
            &&& region.wf()
        },
        result matches Err(e) ==> (spec_parse_region(string@) matches Err(kind) && e.kind
            == kind),
{
    let len = string.unicode_len();
    let colon = find_char_from(string, ':', 0, len);
    if colon == len {
        return Err(parse_error(string));
    }
    let colon2 = find_char_from(string, ':', colon + 1, len);
    let part2 = string.substring_char(colon + 1, colon2);
    let part2_len = part2.unicode_len();
    let dash = find_char_from(part2, '-', 0, part2_len);
    let start_text = part2.substring_char(0, dash);
    proof {
        assert(start_text@ =~= part2@.take(dash as int));
    }
    let start = match parse_u64(start_text) {
        Ok(start) => start,
        Err(error) => {
            return Err(error);
        },
    };
    if start == 0 {
        return Err(parse_error(string));
    }
    if dash == part2_len {
        return Err(parse_error(string));
    }
    let dash2 = find_char_from(part2, '-', dash + 1, part2_len);
    let end_text = part2.substring_char(dash + 1, dash2);
    let end = match parse_u64(end_text) {
        Ok(end) => end,
        Err(error) => {
            return Err(error);
        },
    };
    if end == 0 {
        return Err(parse_error(string));
    }
    let name = string.substring_char(0, colon).to_owned();
    proof {
        assert(name@ =~= string@.take(colon as int));
    }
    Ok(Region { name, start, end: Some(end) })
}

} // verus!
