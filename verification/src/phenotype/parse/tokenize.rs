//! The tokenizer of phenotype definitions.
//!
//! A definition is a string of calls, numbers and names: `(`, `)` and `,`
//! each stand alone, and every maximal run of other characters is one
//! value — a number when it reads as a floating-point literal, a name
//! otherwise.

use vstd::prelude::*;
use vstd::string::*;
use crate::error::Error;
use crate::http::index_of_from;
use crate::num_str::all_digits;

verus! {

/// One value: a name or a numeric literal, kept as its text.
#[derive(Debug, Clone)]
pub enum Value {
    Str(String),
    Num(String),
}

/// One token of a phenotype definition.
#[derive(Debug, Clone)]
pub enum Token {
    OpenParens,
    CloseParen,
    Comma,
    Value(Value),
}

/// The spec-level form of a token.
pub ghost enum TokenV {
    Open,
    Close,
    Comma,
    Str(Seq<char>),
    Num(Seq<char>),
}

/// The text a value carries.
pub open spec fn value_text(value: Value) -> Seq<char> {
    match value {
        Value::Str(text) => text@,
        Value::Num(text) => text@,
    }
}

impl View for Token {
    type V = TokenV;

    open spec fn view(&self) -> TokenV {
        match self {
            Token::OpenParens => TokenV::Open,
            Token::CloseParen => TokenV::Close,
            Token::Comma => TokenV::Comma,
            Token::Value(Value::Str(text)) => TokenV::Str(text@),
            Token::Value(Value::Num(text)) => TokenV::Num(text@),
        }
    }
}

/// Whether `c` is a sign character.
pub open spec fn is_sign(c: char) -> bool {
    c == '+' || c == '-'
}

/// `s` without one leading sign character.
pub open spec fn strip_sign(s: Seq<char>) -> Seq<char> {
    if s.len() > 0 && is_sign(s[0]) {
        s.skip(1)
    } else {
        s
    }
}

/// The character's code, with ASCII capitals folded to lower case.
pub open spec fn lower_code(c: char) -> int {
    if 65 <= c as int && c as int <= 90 {
        c as int + 32
    } else {
        c as int
    }
}

/// Whether two texts agree up to ASCII case.
pub open spec fn eq_ignore_ascii_case(s: Seq<char>, word: Seq<char>) -> bool {
    s.len() == word.len() && forall|i: int|
        0 <= i < s.len() ==> lower_code(#[trigger] s[i]) == lower_code(word[i])
}

/// Whether `s` is one of the special floating-point words.
pub open spec fn is_special_number_word(s: Seq<char>) -> bool {
    ||| eq_ignore_ascii_case(s, "inf"@)
    ||| eq_ignore_ascii_case(s, "infinity"@)
    ||| eq_ignore_ascii_case(s, "nan"@)
}

/// Whether `c` marks an exponent.
pub open spec fn is_exp_marker(c: char) -> bool {
    c == 'e' || c == 'E'
}

/// The index of the first exponent marker at or after `from`, or the
/// length if there is none.
pub open spec fn first_exp_idx(s: Seq<char>, from: int) -> int
    decreases s.len() - from,
{
    if from < 0 || from >= s.len() {
        s.len() as int
    } else if is_exp_marker(s[from]) {
        from
    } else {
        first_exp_idx(s, from + 1)
    }
}

/// Whether `m` is a well-formed mantissa: digits, with at most one dot and
/// at least one digit.
pub open spec fn mantissa_ok(m: Seq<char>) -> bool {
    let dot = index_of_from(m, '.', 0);
    if dot == m.len() {
        m.len() >= 1 && all_digits(m)
    } else {
        all_digits(m.take(dot)) && all_digits(m.skip(dot + 1)) && m.len() >= 2
    }
}

/// Whether `x` is a well-formed exponent: an optional sign, then digits.
pub open spec fn exponent_ok(x: Seq<char>) -> bool {
    let y = strip_sign(x);
    y.len() >= 1 && all_digits(y)
}

/// Whether `s` is a floating-point literal: an optional sign, then one of
/// the special words (up to ASCII case) or a mantissa with an optional
/// exponent. This is the grammar `str::parse` accepts for floating-point
/// numbers.
pub open spec fn is_number_literal(s: Seq<char>) -> bool {
    let b = strip_sign(s);
    is_special_number_word(b) || {
        let e = first_exp_idx(b, 0);
        mantissa_ok(b.take(e)) && (e == b.len() || exponent_ok(b.skip(e + 1)))
    }
}

/// Compares the tail of `text` from `start` against `word`, folding ASCII
/// case.
fn eq_ci_from(text: &str, start: usize, len: usize, word: &str) -> (equal: bool)
    requires
        start <= len,
        len == text@.len(),
    ensures
        equal == eq_ignore_ascii_case(text@.skip(start as int), word@),
{
    let word_len = word.unicode_len();
    if len - start != word_len {
        return false;
    }
    let ghost tail = text@.skip(start as int);
    let mut i: usize = 0;
    while i < word_len
        invariant
            i <= word_len,
            start + word_len <= len,
            len == text@.len(),
            word_len == word@.len(),
            tail == text@.skip(start as int),
            tail.len() == word_len,
            forall|k: int| 0 <= k < i ==> lower_code(#[trigger] tail[k]) == lower_code(word@[k]),
        decreases word_len - i,
    {
        let code_s: u32 = text.get_char(start + i) as u32;
        let folded_s: u32 = if 65 <= code_s && code_s <= 90 {
            code_s + 32
        } else {
            code_s
        };
        let code_w: u32 = word.get_char(i) as u32;
        let folded_w: u32 = if 65 <= code_w && code_w <= 90 {
            code_w + 32
        } else {
            code_w
        };
        if folded_s != folded_w {
            assert(lower_code(tail[i as int]) != lower_code(word@[i as int]));
            return false;
        }
        i = i + 1;
    }
    true
}

/// Whether every character of `text` in `[from, to)` is a decimal digit.
fn all_digits_range(text: &str, from: usize, to: usize) -> (ok: bool)
    requires
        from <= to <= text@.len(),
    ensures
        ok == all_digits(text@.subrange(from as int, to as int)),
{
    let ghost part = text@.subrange(from as int, to as int);
    let mut i: usize = from;
    while i < to
        invariant
            from <= i <= to <= text@.len(),
            part == text@.subrange(from as int, to as int),
            forall|k: int| 0 <= k < i - from ==> crate::num_str::is_digit(#[trigger] part[k]),
        decreases to - i,
    {
        let c = text.get_char(i);
        let code = c as u32;
        if code < 48 || code > 57 {
            assert(!crate::num_str::is_digit(part[i - from]));
            return false;
        }
        i = i + 1;
    }
    true
}

/// Decides whether `text` is a floating-point literal.
pub fn is_number_text(text: &str) -> (ok: bool)
    ensures
        ok == is_number_literal(text@),
{
    let ghost s = text@;
    let len = text.unicode_len();
    let start: usize = if len > 0 {
        let c0 = text.get_char(0);
        if c0 == '+' || c0 == '-' {
            1
        } else {
            0
        }
    } else {
        0
    };
    let ghost b = s.skip(start as int);
    proof {
        assert(b =~= strip_sign(s));
    }
    if eq_ci_from(text, start, len, "inf") || eq_ci_from(text, start, len, "infinity")
        || eq_ci_from(text, start, len, "nan") {
        return true;
    }
    // Find the exponent marker, if any.
    let mut exp_at: usize = start;
    loop
        invariant
            start <= exp_at <= len,
            len == s.len(),
            s == text@,
            b == s.skip(start as int),
            first_exp_idx(b, 0) == first_exp_idx(b, exp_at - start),
        ensures
            start <= exp_at <= len,
            exp_at - start == first_exp_idx(b, 0),
            exp_at < len ==> is_exp_marker(s[exp_at as int]),
        decreases len - exp_at,
    {
        if exp_at == len {
            break ;
        }
        let c = text.get_char(exp_at);
        if c == 'e' || c == 'E' {
            proof {
                assert(b[exp_at - start] == s[exp_at as int]);
            }
            break ;
        }
        proof {
            assert(b[exp_at - start] == s[exp_at as int]);
        }
        exp_at = exp_at + 1;
    }
    let ghost m = b.take(exp_at - start);
    proof {
        assert(m =~= s.subrange(start as int, exp_at as int));
    }
    // Find the dot of the mantissa, if any.
    let mut dot_at: usize = start;
    loop
        invariant
            start <= dot_at <= exp_at <= len,
            len == s.len(),
            s == text@,
            m == s.subrange(start as int, exp_at as int),
            index_of_from(m, '.', 0) == index_of_from(m, '.', dot_at - start),
        ensures
            start <= dot_at <= exp_at,
            dot_at - start == index_of_from(m, '.', 0),
        decreases exp_at - dot_at,
    {
        if dot_at == exp_at {
            break ;
        }
        let c = text.get_char(dot_at);
        proof {
            assert(m[dot_at - start] == s[dot_at as int]);
        }
        if c == '.' {
            break ;
        }
        dot_at = dot_at + 1;
    }
    let mantissa_good: bool = if dot_at == exp_at {
        let nonempty = exp_at > start;
        let digits = all_digits_range(text, start, exp_at);
        proof {
            assert(m =~= s.subrange(start as int, exp_at as int));
        }
        nonempty && digits
    } else {
        let before = all_digits_range(text, start, dot_at);
        let after = all_digits_range(text, dot_at + 1, exp_at);
        proof {
            assert(m.take(dot_at - start) =~= s.subrange(start as int, dot_at as int));
            assert(m.skip(dot_at - start + 1) =~= s.subrange(dot_at + 1, exp_at as int));
        }
        before && after && exp_at - start >= 2
    };
    if exp_at == len {
        return mantissa_good;
    }
    // Check the exponent.
    let ghost x = b.skip(exp_at - start + 1);
    proof {
        assert(x =~= s.subrange(exp_at + 1, len as int));
    }
    let exp_digits_from: usize = if exp_at + 1 < len {
        let c = text.get_char(exp_at + 1);
        if c == '+' || c == '-' {
            exp_at + 2
        } else {
            exp_at + 1
        }
    } else {
        exp_at + 1
    };
    let ghost y = strip_sign(x);
    proof {
        assert(y =~= s.subrange(exp_digits_from as int, len as int));
    }
    let exponent_good = exp_digits_from < len && all_digits_range(text, exp_digits_from, len);
    mantissa_good && exponent_good
}

/// Whether `c` ends a value: a parenthesis or a comma.
pub open spec fn is_delim(c: char) -> bool {
    c == '(' || c == ')' || c == ','
}

/// The index of the first delimiter at or after `from`, or the length.
pub open spec fn next_delim(s: Seq<char>, from: int) -> int
    decreases s.len() - from,
{
    if from < 0 || from >= s.len() {
        s.len() as int
    } else if is_delim(s[from]) {
        from
    } else {
        next_delim(s, from + 1)
    }
}

/// Bounds for `next_delim`.
proof fn lemma_next_delim(s: Seq<char>, from: int)
    requires
        0 <= from <= s.len(),
    ensures
        from <= next_delim(s, from) <= s.len(),
        next_delim(s, from) < s.len() ==> is_delim(s[next_delim(s, from)]),
        from < s.len() && !is_delim(s[from]) ==> next_delim(s, from) >= from + 1,
    decreases s.len() - from,
{
    if from < s.len() && !is_delim(s[from]) {
        lemma_next_delim(s, from + 1);
    }
}

/// The token one maximal value text forms.
pub open spec fn value_token(text: Seq<char>) -> TokenV {
    if is_number_literal(text) {
        TokenV::Num(text)
    } else {
        TokenV::Str(text)
    }
}

/// The token sequence of a definition: each delimiter is one token, each
/// maximal run up to the next delimiter is one value.
pub open spec fn tokenize_spec(s: Seq<char>) -> Seq<TokenV>
    decreases s.len(),
    via tokenize_spec_decreases
{
    if s.len() == 0 {
        Seq::<TokenV>::empty()
    } else if s[0] == '(' {
        seq![TokenV::Open] + tokenize_spec(s.skip(1))
    } else if s[0] == ',' {
        seq![TokenV::Comma] + tokenize_spec(s.skip(1))
    } else if s[0] == ')' {
        seq![TokenV::Close] + tokenize_spec(s.skip(1))
    } else {
        seq![value_token(s.take(next_delim(s, 0)))] + tokenize_spec(s.skip(next_delim(s, 0)))
    }
}

#[via_fn]
proof fn tokenize_spec_decreases(s: Seq<char>) {
    if s.len() > 0 && !is_delim(s[0]) {
        lemma_next_delim(s, 0);
    }
}

/// Splits a definition into its tokens. Every string tokenizes.
pub fn tokenize(string: &str) -> (result: Result<Vec<Token>, Error>)
    ensures
        result is Ok,
        result matches Ok(tokens) ==> tokens@.map_values(|t: Token| t@) == tokenize_spec(string@),
{
    let ghost s = string@;
    let len = string.unicode_len();
    let mut tokens: Vec<Token> = Vec::new();
    let mut i: usize = 0;
    proof {
        assert(s.skip(0) =~= s);
        assert(tokens@.map_values(|t: Token| t@) =~= Seq::<TokenV>::empty());
    }
    while i < len
        invariant
            i <= len,
            len == s.len(),
            s == string@,
            tokenize_spec(s) =~= tokens@.map_values(|t: Token| t@) + tokenize_spec(
                s.skip(i as int),
            ),
        decreases len - i,
    {
        let ghost rest = s.skip(i as int);
        let ghost views = tokens@.map_values(|t: Token| t@);
        let c = string.get_char(i);
        proof {
            assert(rest[0] == s[i as int]);
        }
        if c == '(' {
            tokens.push(Token::OpenParens);
            proof {
                assert(tokens@.map_values(|t: Token| t@) =~= views.push(TokenV::Open));
                assert(rest.skip(1) =~= s.skip(i + 1));
                assert(tokenize_spec(rest) =~= seq![TokenV::Open] + tokenize_spec(s.skip(i + 1)));
                assert(views.push(TokenV::Open) + tokenize_spec(s.skip(i + 1)) =~= views + (seq![
                    TokenV::Open,
                ] + tokenize_spec(s.skip(i + 1))));
            }
            i = i + 1;
        } else if c == ',' {
            tokens.push(Token::Comma);
            proof {
                assert(tokens@.map_values(|t: Token| t@) =~= views.push(TokenV::Comma));
                assert(rest.skip(1) =~= s.skip(i + 1));
                assert(tokenize_spec(rest) =~= seq![TokenV::Comma] + tokenize_spec(s.skip(i + 1)));
                assert(views.push(TokenV::Comma) + tokenize_spec(s.skip(i + 1)) =~= views + (seq![
                    TokenV::Comma,
                ] + tokenize_spec(s.skip(i + 1))));
            }
            i = i + 1;
        } else if c == ')' {
            tokens.push(Token::CloseParen);
            proof {
                assert(tokens@.map_values(|t: Token| t@) =~= views.push(TokenV::Close));
                assert(rest.skip(1) =~= s.skip(i + 1));
                assert(tokenize_spec(rest) =~= seq![TokenV::Close] + tokenize_spec(s.skip(i + 1)));
                assert(views.push(TokenV::Close) + tokenize_spec(s.skip(i + 1)) =~= views + (seq![
                    TokenV::Close,
                ] + tokenize_spec(s.skip(i + 1))));
            }
            i = i + 1;
        } else {
            // Scan to the next delimiter; the run is one value.
            let mut d: usize = i;
            loop
                invariant
                    i <= d <= len,
                    len == s.len(),
                    s == string@,
                    rest == s.skip(i as int),
                    next_delim(rest, 0) == next_delim(rest, d - i),
                ensures
                    i <= d <= len,
                    d - i == next_delim(rest, 0),
                decreases len - d,
            {
                if d == len {
                    break ;
                }
                let cd = string.get_char(d);
                proof {
                    assert(rest[d - i] == s[d as int]);
                }
                if cd == '(' || cd == ',' || cd == ')' {
                    break ;
                }
                d = d + 1;
            }
            proof {
                lemma_next_delim(rest, 0);
            }
            let text = string.substring_char(i, d).to_owned();
            proof {
                assert(text@ =~= rest.take(d - i));
            }
            let token = if is_number_text(text.as_str()) {
                Token::Value(Value::Num(text))
            } else {
                Token::Value(Value::Str(text))
            };
            tokens.push(token);
            proof {
                let tv = value_token(rest.take(d - i));
                assert(tokens@.map_values(|t: Token| t@) =~= views.push(tv));
                assert(rest.skip(d - i) =~= s.skip(d as int));
                assert(tokenize_spec(rest) =~= seq![tv] + tokenize_spec(s.skip(d as int)));
                assert(views.push(tv) + tokenize_spec(s.skip(d as int)) =~= views + (seq![tv]
                    + tokenize_spec(s.skip(d as int))));
            }
            i = d;
        }
    }
    proof {
        assert(s.skip(len as int) =~= Seq::<char>::empty());
        assert(tokenize_spec(s) =~= tokens@.map_values(|t: Token| t@));
    }
    Ok(tokens)
}

} // verus!
