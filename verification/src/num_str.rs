//! Decimal text: rendering unsigned integers and parsing them back.

use vstd::prelude::*;
use vstd::string::*;
use crate::error::Error;
use crate::error::ErrorKind;

verus! {

/// The character for one decimal digit value.
pub open spec fn digit_char(d: nat) -> char {
    if d == 0 {
        '0'
    } else if d == 1 {
        '1'
    } else if d == 2 {
        '2'
    } else if d == 3 {
        '3'
    } else if d == 4 {
        '4'
    } else if d == 5 {
        '5'
    } else if d == 6 {
        '6'
    } else if d == 7 {
        '7'
    } else if d == 8 {
        '8'
    } else {
        '9'
    }
}

/// The usual decimal rendering of `n`, without leading zeros (except for 0).
pub open spec fn dec_str(n: nat) -> Seq<char>
    decreases n,
{
    if n < 10 {
        seq![digit_char(n)]
    } else {
        dec_str(n / 10).push(digit_char(n % 10))
    }
}

/// Whether `c` is a decimal digit.
pub open spec fn is_digit(c: char) -> bool {
    '0' <= c && c <= '9'
}

/// The value of one decimal digit character.
pub open spec fn digit_value(c: char) -> int {
    c as int - '0' as int
}

/// Whether every character of `s` is a decimal digit.
pub open spec fn all_digits(s: Seq<char>) -> bool {
    forall|i: int| 0 <= i < s.len() ==> is_digit(#[trigger] s[i])
}

/// The numeric value of a digit string, most significant digit first.
pub open spec fn dec_value(s: Seq<char>) -> int
    decreases s.len(),
{
    if s.len() == 0 {
        0
    } else {
        dec_value(s.drop_last()) * 10 + digit_value(s.last())
    }
}

/// One exec digit character as a string slice.
fn digit_label(d: u64) -> (label: &'static str)
    requires
        d < 10,
    ensures
        label@ == seq![digit_char(d as nat)],
{
    proof {
        reveal_strlit("0");
        reveal_strlit("1");
        reveal_strlit("2");
        reveal_strlit("3");
        reveal_strlit("4");
        reveal_strlit("5");
        reveal_strlit("6");
        reveal_strlit("7");
        reveal_strlit("8");
        reveal_strlit("9");
    }
    let label = if d == 0 {
        "0"
    } else if d == 1 {
        "1"
    } else if d == 2 {
        "2"
    } else if d == 3 {
        "3"
    } else if d == 4 {
        "4"
    } else if d == 5 {
        "5"
    } else if d == 6 {
        "6"
    } else if d == 7 {
        "7"
    } else if d == 8 {
        "8"
    } else {
        "9"
    };
    proof {
        assert(label@ =~= seq![digit_char(d as nat)]);
    }
    label
}

/// The digit characters of `digits`, least significant first.
spec fn mapped_digits(digits: Seq<u64>) -> Seq<char> {
    digits.map_values(|d: u64| digit_char(d as nat))
}

/// Reversing after a push puts the pushed element in front.
proof fn lemma_reverse_push<A>(s: Seq<A>, x: A)
    ensures
        s.push(x).reverse() =~= seq![x] + s.reverse(),
{
}

/// Renders `n` in decimal.
#[verifier::rlimit(50)]
pub fn u64_to_dec(n: u64) -> (text: String)
    ensures
        text@ == dec_str(n as nat),
{
    let mut digits: Vec<u64> = Vec::new();
    let mut m: u64 = n;
    let d0: u64 = m % 10;
    digits.push(d0);
    m = m / 10;
    proof {
        assert(mapped_digits(digits@) =~= seq![digit_char(d0 as nat)]);
        if n < 10 {
            assert(mapped_digits(digits@).reverse() =~= seq![digit_char(n as nat)]);
        } else {
            assert(dec_str(n as nat) =~= dec_str((n / 10) as nat) + mapped_digits(
                digits@,
            ).reverse());
        }
    }
    while m > 0
        invariant
            digits@.len() >= 1,
            forall|i: int| 0 <= i < digits@.len() ==> #[trigger] digits@[i] < 10,
            dec_str(n as nat) =~= if m == 0 {
                mapped_digits(digits@).reverse()
            } else {
                dec_str(m as nat) + mapped_digits(digits@).reverse()
            },
        decreases m,
    {
        let ghost pre = mapped_digits(digits@).reverse();
        let ghost m_old = m;
        let d: u64 = m % 10;
        digits.push(d);
        m = m / 10;
        proof {
            assert(mapped_digits(digits@) =~= mapped_digits(digits@.drop_last()).push(
                digit_char(d as nat),
            ));
            lemma_reverse_push(mapped_digits(digits@.drop_last()), digit_char(d as nat));
            assert(mapped_digits(digits@).reverse() =~= seq![digit_char(d as nat)] + pre);
            if m_old < 10 {
                assert(dec_str(m_old as nat) =~= seq![digit_char(d as nat)]);
                assert(dec_str(n as nat) =~= mapped_digits(digits@).reverse());
            } else {
                assert(dec_str(m_old as nat) =~= dec_str(m as nat) + seq![digit_char(d as nat)]);
                assert(dec_str(n as nat) =~= dec_str(m as nat) + mapped_digits(
                    digits@,
                ).reverse());
            }
        }
    }
    let ghost all = mapped_digits(digits@).reverse();
    let mut text = String::new();
    let mut i: usize = digits.len();
    while i > 0
        invariant
            i <= digits@.len(),
            forall|k: int| 0 <= k < digits@.len() ==> #[trigger] digits@[k] < 10,
            all == mapped_digits(digits@).reverse(),
            dec_str(n as nat) =~= all,
            text@ =~= all.take(digits@.len() - i),
        decreases i,
    {
        i = i - 1;
        let label = digit_label(digits[i]);
        text.append(label);
        proof {
            let len = digits@.len() as int;
            assert(all[len - 1 - i] == mapped_digits(digits@)[i as int]);
            assert(text@ =~= all.take(len - i));
        }
    }
    proof {
        assert(all.take(digits@.len() as int) =~= all);
    }
    text
}

/// A digit string's value is not negative.
proof fn lemma_dec_value_nonneg(s: Seq<char>)
    requires
        all_digits(s),
    ensures
        dec_value(s) >= 0,
    decreases s.len(),
{
    if s.len() > 0 {
        assert(all_digits(s.drop_last()));
        lemma_dec_value_nonneg(s.drop_last());
        assert(is_digit(s.last()));
    }
}

/// The value of a longer digit string is at least the value of its prefix.
proof fn lemma_dec_value_prefix_le(s: Seq<char>, i: int)
    requires
        0 <= i <= s.len(),
        all_digits(s),
    ensures
        dec_value(s.take(i)) <= dec_value(s),
    decreases s.len() - i,
{
    if i < s.len() {
        assert(all_digits(s.take(i)));
        lemma_dec_value_nonneg(s.take(i));
        assert(s.take(i + 1).drop_last() =~= s.take(i));
        assert(is_digit(s[i]));
        assert(dec_value(s.take(i + 1)) == dec_value(s.take(i)) * 10 + digit_value(
            s.take(i + 1).last(),
        ));
        lemma_dec_value_prefix_le(s, i + 1);
    } else {
        assert(s.take(i) =~= s);
    }
}

/// If the next digit overflows the accumulator, the whole string's value
/// cannot fit in a `u64` (or some later character is not a digit).
proof fn overflow_means_too_big(s: Seq<char>, i: int)
    requires
        0 <= i < s.len(),
        all_digits(s.take(i)),
        is_digit(s[i]),
        dec_value(s.take(i)) * 10 + digit_value(s[i]) > u64::MAX,
    ensures
        !(all_digits(s) && dec_value(s) <= u64::MAX),
{
    if all_digits(s) {
        assert(s.take(i + 1).drop_last() =~= s.take(i));
        assert(s.take(i + 1).last() == s[i]);
        assert(dec_value(s.take(i + 1)) == dec_value(s.take(i)) * 10 + digit_value(s[i]));
        lemma_dec_value_prefix_le(s, i + 1);
    }
}

/// Parses `text` as a decimal `u64`.
///
/// Succeeds exactly on nonempty all-digit strings whose value fits in a
/// `u64`; anything else is a `ParseInt` error, as a malformed numeric field
/// is in the library's error model.
pub fn parse_u64(text: &str) -> (result: Result<u64, Error>)
    ensures
        result matches Ok(value) ==> text@.len() > 0 && all_digits(text@) && value == dec_value(
            text@,
        ),
        result is Err ==> !(text@.len() > 0 && all_digits(text@) && dec_value(text@) <= u64::MAX),
        result matches Err(e) ==> e.kind == ErrorKind::ParseInt,
{
    let len = text.unicode_len();
    if len == 0 {
        return Err(
            Error::new(ErrorKind::ParseInt, "cannot parse empty text as a number".to_owned()),
        );
    }
    let mut value: u64 = 0;
    let mut i: usize = 0;
    while i < len
        invariant
            0 < len == text@.len(),
            0 <= i <= len,
            all_digits(text@.take(i as int)),
            value == dec_value(text@.take(i as int)),
        decreases len - i,
    {
        let c = text.get_char(i);
        let cu: u32 = c as u32;
        if cu < 48 || cu > 57 {
            return Err(Error::new(ErrorKind::ParseInt, "invalid digit found in text".to_owned()));
        }
        let d: u64 = (cu - 48) as u64;
        let shifted = match value.checked_mul(10) {
            Some(s) => s,
            None => {
                proof {
                    overflow_means_too_big(text@, i as int);
                }
                return Err(
                    Error::new(
                        ErrorKind::ParseInt,
                        "number too large to fit in target type".to_owned(),
                    ),
                );
            },
        };
        let next = match shifted.checked_add(d) {
            Some(s) => s,
            None => {
                proof {
                    overflow_means_too_big(text@, i as int);
                }
                return Err(
                    Error::new(
                        ErrorKind::ParseInt,
                        "number too large to fit in target type".to_owned(),
                    ),
                );
            },
        };
        proof {
            assert(text@.take(i + 1).drop_last() =~= text@.take(i as int));
            assert(text@.take(i + 1).last() == text@[i as int]);
        }
        value = next;
        i = i + 1;
    }
    proof {
        assert(text@.take(len as int) =~= text@);
    }
    Ok(value)
}

} // verus!
