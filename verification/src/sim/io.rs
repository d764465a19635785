//! Parsing helpers for the tab-separated simulation files.

use vstd::prelude::*;
use vstd::string::*;
use crate::error::Error;
use crate::error::ErrorKind;
use crate::http::index_of_from;
use crate::num_str::all_digits;
use crate::num_str::dec_value;
use crate::num_str::parse_u64;

verus! {

/// The error for a metadata field the file never declared.
pub fn missing(name: &str) -> (error: Error)
    ensures
        error.kind == ErrorKind::Phenics,
        error.message@ == "Missing `"@ + name@ + "`"@,
{
    let mut message = "Missing `".to_owned();
    message.append(name);
    message.append("`");
    Error::from_message(message)
}

/// Demands one more field on a sample line.
pub fn ensure_value<'a>(value: Option<&'a str>) -> (result: Result<&'a str, Error>)
    ensures
        value matches Some(v) ==> (result matches Ok(r) && r == v),
        value is None ==> (result matches Err(e) && e.kind == ErrorKind::Phenics && e.message@
            == "Not enough values."@),
{
    match value {
        Some(value) => Ok(value),
        None => Err(Error::from_message("Not enough values.".to_owned())),
    }
}

/// Demands one more numeric field on the sample line of `id`.
pub fn ensure_u64_at(value: Option<&str>, id: &str) -> (result: Result<u64, Error>)
    ensures
        value is None ==> (result matches Err(e) && e.kind == ErrorKind::Phenics),
        value matches Some(v) ==> {
            &&& (result matches Ok(number) ==> (v@.len() > 0 && all_digits(v@) && number
                == dec_value(v@)))
            &&& (result matches Err(e) ==> (e.kind == ErrorKind::ParseInt && !(v@.len() > 0
                && all_digits(v@) && dec_value(v@) <= u64::MAX)))
        },
{
    match value {
        None => {
            let mut message = "Missing value for ".to_owned();
            message.append(id);
            message.append(".");
            Err(Error::from_message(message))
        },
        Some(value) => {
            match parse_u64(value) {
                Ok(number) => Ok(number),
                Err(error) => Err(error),
            }
        },
    }
}

/// What splitting at every `sep` yields: the (possibly empty) runs between
/// separators; a string with no separator is one field.
pub open spec fn split_spec(s: Seq<char>, sep: char) -> Seq<Seq<char>>
    decreases s.len(),
    via split_spec_decreases
{
    let cut = index_of_from(s, sep, 0);
    if cut == s.len() {
        seq![s]
    } else {
        seq![s.take(cut)] + split_spec(s.skip(cut + 1), sep)
    }
}

#[via_fn]
proof fn split_spec_decreases(s: Seq<char>, sep: char) {
    crate::http::lemma_index_of_from(s, sep, 0);
}

/// Splits `text` at every `sep`.
pub fn split_fields(text: &str, sep: char) -> (fields: Vec<String>)
    ensures
        fields@.map_values(|f: String| f@) == split_spec(text@, sep),
{
    let ghost s = text@;
    let len = text.unicode_len();
    let mut fields: Vec<String> = Vec::new();
    let mut start: usize = 0;
    proof {
        assert(s.skip(0) =~= s);
        assert(fields@.map_values(|f: String| f@) =~= Seq::<Seq<char>>::empty());
    }
    loop
        invariant_except_break
            start <= len,
            len == s.len(),
            s == text@,
            split_spec(s, sep) =~= fields@.map_values(|f: String| f@) + split_spec(
                s.skip(start as int),
                sep,
            ),
        ensures
            split_spec(s, sep) =~= fields@.map_values(|f: String| f@),
        decreases len - start + 1,
    {
        let ghost rest = s.skip(start as int);
        let ghost views = fields@.map_values(|f: String| f@);
        // Scan for the next separator.
        let mut cut: usize = start;
        loop
            invariant
                start <= cut <= len,
                len == s.len(),
                s == text@,
                rest == s.skip(start as int),
                index_of_from(rest, sep, 0) == index_of_from(rest, sep, cut - start),
            ensures
                start <= cut <= len,
                cut - start == index_of_from(rest, sep, 0),
            decreases len - cut,
        {
            if cut == len {
                break ;
            }
            proof {
                assert(rest[cut - start] == s[cut as int]);
            }
            if text.get_char(cut) == sep {
                break ;
            }
            cut = cut + 1;
        }
        let field = text.substring_char(start, cut).to_owned();
        proof {
            assert(field@ =~= rest.take(cut - start));
        }
        fields.push(field);
        if cut == len {
            proof {
                assert(rest.take(cut - start) =~= rest);
                assert(split_spec(rest, sep) =~= seq![rest]);
                assert(fields@.map_values(|f: String| f@) =~= views.push(rest));
                assert(split_spec(s, sep) =~= fields@.map_values(|f: String| f@));
            }
            break ;
        }
        proof {
            assert(rest.skip(cut - start + 1) =~= s.skip(cut + 1));
            assert(split_spec(rest, sep) =~= seq![rest.take(cut - start)] + split_spec(
                s.skip(cut + 1),
                sep,
            ));
            assert(fields@.map_values(|f: String| f@) =~= views.push(rest.take(cut - start)));
            assert(views.push(rest.take(cut - start)) + split_spec(s.skip(cut + 1), sep) =~= views
                + (seq![rest.take(cut - start)] + split_spec(s.skip(cut + 1), sep)));
        }
        start = cut + 1;
    }
    fields
}

} // verus!
