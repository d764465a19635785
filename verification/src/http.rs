//! Byte ranges for HTTP requests and size discovery from response headers.

use vstd::prelude::*;
use vstd::string::*;
use crate::error::Error;
use crate::error::ErrorKind;
use crate::num_str::all_digits;
use crate::num_str::dec_str;
use crate::num_str::dec_value;
use crate::num_str::parse_u64;
use crate::num_str::u64_to_dec;

verus! {

/// An inclusive-from, inclusive-to byte interval; either bound may be open.
#[derive(Debug, Clone, Copy)]
pub struct Range {
    pub from: Option<u64>,
    pub to: Option<u64>,
}

impl Range {
    /// The text this range puts in a byte-range request header:
    /// `bytes=<from-or-0>-<to-or-empty>`.
    pub open spec fn header_spec(&self) -> Seq<char> {
        "bytes="@ + dec_str(
            match self.from {
                Some(from) => from as nat,
                None => 0,
            },
        ) + "-"@ + (match self.to {
            Some(to) => dec_str(to as nat),
            None => Seq::<char>::empty(),
        })
    }

    /// Creates a range from optional bounds.
    pub fn new(from: Option<u64>, to: Option<u64>) -> (range: Range)
        ensures
            range.from == from,
            range.to == to,
    {
        Range { from, to }
    }

    /// Creates a range open at the upper end.
    pub fn new_from(from: u64) -> (range: Range)
        ensures
            range.from == Some(from),
            range.to is None,
    {
        Range::new(Some(from), None)
    }

    /// Whether any bound is set, so that a request needs a range header.
    pub fn is_not_everything(&self) -> (nontrivial: bool)
        ensures
            nontrivial == (self.from is Some || self.to is Some),
    {
        self.from.is_some() || self.to.is_some()
    }

    /// Renders the byte-range request header value.
    pub fn as_header(&self) -> (header: String)
        ensures
            header@ == self.header_spec(),
    {
        let mut header = "bytes=".to_owned();
        let from = match self.from {
            Some(from) => from,
            None => 0,
        };
        let from_text = u64_to_dec(from);
        header.append(from_text.as_str());
        header.append("-");
        match self.to {
            Some(to) => {
                let to_text = u64_to_dec(to);
                header.append(to_text.as_str());
            },
            None => {},
        }
        header
    }
}

/// Whether `c` is blank space around a header field.
pub open spec fn is_space(c: char) -> bool {
    c == ' ' || c == '\t'
}

/// The index of the first `c` at or after `from`, or the length if absent.
pub open spec fn index_of_from(s: Seq<char>, c: char, from: int) -> int
    decreases s.len() - from,
{
    if from < 0 || from >= s.len() {
        s.len() as int
    } else if s[from] == c {
        from
    } else {
        index_of_from(s, c, from + 1)
    }
}

/// The length left after dropping trailing space.
pub open spec fn trim_end_len(s: Seq<char>) -> int
    decreases s.len(),
{
    if s.len() == 0 {
        0
    } else if is_space(s.last()) {
        trim_end_len(s.drop_last())
    } else {
        s.len() as int
    }
}

/// The count of leading space characters.
pub open spec fn trim_start_idx(s: Seq<char>) -> int
    decreases s.len(),
{
    if s.len() == 0 {
        0
    } else if is_space(s[0]) {
        1 + trim_start_idx(s.skip(1))
    } else {
        0
    }
}

/// `s` with leading and trailing space removed.
pub open spec fn trimmed(s: Seq<char>) -> Seq<char> {
    let kept = s.take(trim_end_len(s));
    kept.skip(trim_start_idx(kept))
}

/// The text between the first and second `/` of a `Content-Range` value,
/// where the total size stands, if the value has a `/` at all.
pub open spec fn content_range_size_field(s: Seq<char>) -> Option<Seq<char>> {
    let slash = index_of_from(s, '/', 0);
    if slash == s.len() {
        None
    } else {
        Some(s.subrange(slash + 1, index_of_from(s, '/', slash + 1)))
    }
}

/// What size discovery yields from the response headers: the total after
/// the `/` of `Content-Range` when that header is present (`*` meaning
/// unknown), else the `Content-Length` value, else unknown; a malformed
/// value is an error of the kind given.
pub open spec fn spec_header_size(content_range: Option<Seq<char>>, content_length: Option<u64>) -> Result<
    Option<u64>,
    ErrorKind,
> {
    match content_range {
        None => Ok(content_length),
        Some(value) => match content_range_size_field(value) {
            None => Err(ErrorKind::HeaderParse),
            Some(field) => {
                let size_text = trimmed(field);
                if size_text == "*"@ {
                    Ok(None)
                } else if size_text.len() > 0 && all_digits(size_text) && dec_value(size_text)
                    <= u64::MAX {
                    Ok(Some(dec_value(size_text) as u64))
                } else {
                    Err(ErrorKind::ParseInt)
                }
            },
        },
    }
}

/// The header views of an optional `Content-Range` value.
pub open spec fn header_view(content_range: Option<String>) -> Option<Seq<char>> {
    match content_range {
        None => None,
        Some(value) => Some(value@),
    }
}

/// Bounds for `index_of_from`, and that it finds `c`.
pub proof fn lemma_index_of_from(s: Seq<char>, c: char, from: int)
    requires
        0 <= from <= s.len(),
    ensures
        from <= index_of_from(s, c, from) <= s.len(),
        index_of_from(s, c, from) < s.len() ==> s[index_of_from(s, c, from)] == c,
    decreases s.len() - from,
{
    if from < s.len() && s[from] != c {
        lemma_index_of_from(s, c, from + 1);
    }
}

/// Finds the first `c` at or after `from` in `text`.
pub fn find_char_from(text: &str, c: char, from: usize, len: usize) -> (found: usize)
    requires
        from <= len,
        len == text@.len(),
    ensures
        found == index_of_from(text@, c, from as int),
        from <= found <= len,
        found < len ==> text@[found as int] == c,
{
    let mut i: usize = from;
    while i < len
        invariant
            from <= i <= len,
            len == text@.len(),
            index_of_from(text@, c, from as int) == index_of_from(text@, c, i as int),
        decreases len - i,
    {
        if text.get_char(i) == c {
            proof {
                lemma_index_of_from(text@, c, i as int);
            }
            return i;
        }
        i = i + 1;
    }
    i
}

/// Extracts the total object size from a `Content-Range` header value.
///
/// The size is the field after the `/`. A value with no `/` is a
/// `HeaderParse` error; a size of `*` means the size is unknown; anything
/// else must be a decimal number, else the error is `ParseInt`.
pub fn content_range_size(value: &str) -> (result: Result<Option<u64>, Error>)
    ensures
        result matches Ok(size) ==> spec_header_size(Some(value@), None) == Result::<
            Option<u64>,
            ErrorKind,
        >::Ok(size),
        result matches Err(e) ==> (spec_header_size(Some(value@), None) matches Err(kind)
            && e.kind == kind),
{
    let len = value.unicode_len();
    let slash = find_char_from(value, '/', 0, len);
    if slash == len {
        let mut message = "Could not parse Content-Range header value '".to_owned();
        message.append(value);
        message.append("'.");
        return Err(Error::new(ErrorKind::HeaderParse, message));
    }
    let field_start = slash + 1;
    let field_end = find_char_from(value, '/', field_start, len);
    let ghost field = value@.subrange(field_start as int, field_end as int);

    // Trim blank space off the field.
    let mut b: usize = field_end;
    loop
        invariant
            field_start <= b <= field_end <= len,
            len == value@.len(),
            field == value@.subrange(field_start as int, field_end as int),
            trim_end_len(field) == trim_end_len(value@.subrange(field_start as int, b as int)),
        ensures
            b == field_start || !is_space(value@[b - 1]),
        decreases b,
    {
        if b == field_start {
            break ;
        }
        let c = value.get_char(b - 1);
        if !(c == ' ' || c == '\t') {
            break ;
        }
        proof {
            let shorter = value@.subrange(field_start as int, b - 1);
            assert(value@.subrange(field_start as int, b as int).drop_last() =~= shorter);
        }
        b = b - 1;
    }
    proof {
        let kept = value@.subrange(field_start as int, b as int);
        if b > field_start {
            assert(!is_space(kept.last()));
            assert(trim_end_len(kept) == kept.len());
        }
        assert(trim_end_len(field) == b - field_start);
        assert(field.take(trim_end_len(field)) =~= kept);
    }
    let mut a: usize = field_start;
    loop
        invariant
            field_start <= a <= b <= len,
            len == value@.len(),
            trim_start_idx(value@.subrange(field_start as int, b as int)) == a - field_start
                + trim_start_idx(value@.subrange(a as int, b as int)),
        ensures
            a == b || !is_space(value@[a as int]),
        decreases b - a,
    {
        if a == b {
            break ;
        }
        let c = value.get_char(a);
        if !(c == ' ' || c == '\t') {
            break ;
        }
        proof {
            let rest = value@.subrange(a as int, b as int);
            assert(rest[0] == value@[a as int]);
            assert(rest.skip(1) =~= value@.subrange(a + 1, b as int));
        }
        a = a + 1;
    }
    proof {
        let rest = value@.subrange(a as int, b as int);
        if a < b {
            assert(!is_space(rest[0]));
        }
        assert(trim_start_idx(value@.subrange(field_start as int, b as int)) == a - field_start);
        assert(trimmed(field) =~= value@.subrange(a as int, b as int));
    }
    let size_text = value.substring_char(a, b);
    proof {
        reveal_strlit("*");
    }
    if size_text.unicode_len() == 1 && size_text.get_char(0) == '*' {
        proof {
            assert(size_text@ =~= "*"@);
        }
        Ok(None)
    } else {
        proof {
            assert(size_text@ != "*"@) by {
                if size_text@ =~= "*"@ {
                    assert(size_text@.len() == 1 && size_text@[0] == '*');
                }
            }
        }
        match parse_u64(size_text) {
            Ok(size) => Ok(Some(size)),
            Err(error) => Err(error),
        }
    }
}

/// Resolves the declared total size of the object from response headers:
/// the `Content-Range` total when that header is present, else the
/// `Content-Length` value, else unknown.
pub fn size_from_headers(content_range: &Option<String>, content_length: Option<u64>) -> (result:
    Result<Option<u64>, Error>)
    ensures
        result matches Ok(size) ==> spec_header_size(header_view(*content_range), content_length)
            == Result::<Option<u64>, ErrorKind>::Ok(size),
        result matches Err(e) ==> (spec_header_size(header_view(*content_range), content_length)
            matches Err(kind) && e.kind == kind),
{
    match content_range {
        None => Ok(content_length),
        Some(value) => content_range_size(value.as_str()),
    }
}

} // verus!
