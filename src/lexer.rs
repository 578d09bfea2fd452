//! The lexer: SQL text to tokens, in one left-to-right pass.
//!
//! Whitespace separates tokens. A quoted text that is never closed runs to
//! the end of the input.

use vstd::prelude::*;
use crate::error::{SqlError, SqlResult};
use crate::text::{char_text, chars_of, decimal, decimal_text};
use crate::token::{Token, TokenView, tokens_view};
use crate::types::{is_digit, is_letter, is_name_char};

verus! {

/// Whitespace: space, tab, carriage return, line feed.
pub open spec fn is_space(c: char) -> bool {
    c == ' ' || c == '\t' || c == '\n' || c == '\r'
}

/// A character that is a token of its own.
pub open spec fn is_symbol(c: char) -> bool {
    c == '(' || c == ')' || c == ',' || c == ';' || c == '*'
}

/// The end of the run of digits that starts at `i`.
pub open spec fn digits_end(s: Seq<char>, i: int) -> int
    decreases s.len() - i,
{
    if i < 0 || i >= s.len() || !is_digit(s[i]) {
        i
    } else {
        digits_end(s, i + 1)
    }
}

/// The end of the run of name characters that starts at `i`.
pub open spec fn name_end(s: Seq<char>, i: int) -> int
    decreases s.len() - i,
{
    if i < 0 || i >= s.len() || !is_name_char(s[i]) {
        i
    } else {
        name_end(s, i + 1)
    }
}

/// The position of the first quote at or after `i`, or the end of `s`.
pub open spec fn quote_end(s: Seq<char>, i: int) -> int
    decreases s.len() - i,
{
    if i < 0 || i >= s.len() || s[i] == '\'' {
        i
    } else {
        quote_end(s, i + 1)
    }
}

/// The value of a run of decimal digits.
pub open spec fn digits_value(d: Seq<char>) -> int
    decreases d.len(),
{
    if d.len() == 0 {
        0
    } else {
        digits_value(d.drop_last()) * 10 + (d.last() as int - '0' as int)
    }
}

/// A lower-case ASCII letter in upper case; any other character unchanged.
pub open spec fn upper_char(c: char) -> char {
    if 'a' <= c && c <= 'z' {
        ((c as u8) - 32) as u8 as char
    } else {
        c
    }
}

/// A word with its ASCII letters in upper case.
pub open spec fn ascii_upper(w: Seq<char>) -> Seq<char> {
    w.map_values(|c: char| upper_char(c))
}

/// The words that are keywords, in upper case.
pub open spec fn is_keyword(w: Seq<char>) -> bool {
    w == "SELECT"@ || w == "INSERT"@ || w == "UPDATE"@ || w == "DELETE"@ || w == "CREATE"@ || w
        == "TABLE"@ || w == "VALUES"@
}

/// The message for a character that starts no token.
pub open spec fn unexpected_message(c: char, pos: nat) -> Seq<char> {
    "Unexpected character '"@ + seq![c] + "' at position "@ + decimal(pos)
}

/// The message for a run of digits beyond the 64-bit range.
pub open spec fn invalid_number_message(pos: nat) -> Seq<char> {
    "Invalid number at position "@ + decimal(pos)
}

/// The tokens `ts` followed by what a lexing result holds, or its error.
pub open spec fn prepend(ts: Seq<TokenView>, r: Result<Seq<TokenView>, Seq<char>>) -> Result<
    Seq<TokenView>,
    Seq<char>,
> {
    match r {
        Ok(v) => Ok(ts + v),
        Err(e) => Err(e),
    }
}

/// A run's end is not before its start.
pub proof fn lemma_run_ends(s: Seq<char>, i: int)
    requires
        0 <= i <= s.len(),
    ensures
        i <= digits_end(s, i) <= s.len(),
        i <= name_end(s, i) <= s.len(),
        i <= quote_end(s, i) <= s.len(),
    decreases s.len() - i,
{
    if i < s.len() {
        lemma_run_ends(s, i + 1);
    }
}

/// Lexing `s` from position `i` on: the tokens, or the first error.
pub open spec fn lex_from(s: Seq<char>, i: int) -> Result<Seq<TokenView>, Seq<char>>
    decreases s.len() - i,
{
    if i < 0 || i >= s.len() {
        Ok(Seq::empty())
    } else {
        let c = s[i];
        proof {
            lemma_run_ends(s, i + 1);
        }
        if is_space(c) {
            lex_from(s, i + 1)
        } else if is_symbol(c) {
            prepend(seq![TokenView::Symbol { value: c, pos: Some(i as usize) }], lex_from(s, i + 1))
        } else if is_digit(c) {
            let e = digits_end(s, i + 1);
            let v = digits_value(s.subrange(i, e));
            if v > i64::MAX {
                Err(invalid_number_message(i as nat))
            } else {
                prepend(
                    seq![TokenView::Number { value: v as i64, pos: Some(i as usize) }],
                    lex_from(s, e),
                )
            }
        } else if c == '\'' {
            let q = quote_end(s, i + 1);
            let next = if q < s.len() {
                q + 1
            } else {
                q
            };
            prepend(
                seq![TokenView::String { value: s.subrange(i + 1, q), pos: Some(i as usize) }],
                lex_from(s, next),
            )
        } else if is_letter(c) {
            let e = name_end(s, i + 1);
            let w = s.subrange(i, e);
            if is_keyword(ascii_upper(w)) {
                prepend(
                    seq![TokenView::Keyword { value: ascii_upper(w), pos: Some(i as usize) }],
                    lex_from(s, e),
                )
            } else {
                prepend(seq![TokenView::Identifier { value: w, pos: Some(i as usize) }], lex_from(s, e))
            }
        } else {
            Err(unexpected_message(c, i as nat))
        }
    }
}

/// The tokens of `s`, or the first error.
pub open spec fn lex(s: Seq<char>) -> Result<Seq<TokenView>, Seq<char>> {
    lex_from(s, 0)
}

/// Prepending twice is prepending the concatenation.
proof fn lemma_prepend_twice(
    a: Seq<TokenView>,
    b: Seq<TokenView>,
    r: Result<Seq<TokenView>, Seq<char>>,
)
    ensures
        prepend(a, prepend(b, r)) == prepend(a + b, r),
{
    if let Ok(v) = r {
        assert(a + (b + v) =~= (a + b) + v);
    }
}

/// Every character of a run of digits is a digit.
proof fn lemma_digit_run(s: Seq<char>, i: int)
    requires
        0 <= i <= s.len(),
    ensures
        forall|k: int| i <= k < digits_end(s, i) ==> is_digit(#[trigger] s[k]),
    decreases s.len() - i,
{
    if i < s.len() && is_digit(s[i]) {
        lemma_digit_run(s, i + 1);
    }
}

/// Appending digits does not make a value smaller.
proof fn lemma_digits_value_grows(s: Seq<char>, a: int, b: int, c: int)
    requires
        0 <= a <= b <= c <= s.len(),
        forall|k: int| a <= k < c ==> is_digit(#[trigger] s[k]),
    ensures
        digits_value(s.subrange(a, b)) <= digits_value(s.subrange(a, c)),
    decreases c - b,
{
    if c > b {
        lemma_digits_value_grows(s, a, b, c - 1);
        assert(s.subrange(a, c).drop_last() =~= s.subrange(a, c - 1));
        assert(is_digit(s[c - 1]));
        lemma_digits_value_nonneg(s.subrange(a, c - 1));
    }
}

/// A run of digits has a value of at least zero.
proof fn lemma_digits_value_nonneg(d: Seq<char>)
    requires
        forall|k: int| 0 <= k < d.len() ==> is_digit(#[trigger] d[k]),
    ensures
        digits_value(d) >= 0,
    decreases d.len(),
{
    if d.len() > 0 {
        let p = d.drop_last();
        assert forall|k: int| 0 <= k < p.len() implies is_digit(#[trigger] p[k]) by {
            assert(p[k] == d[k]);
        }
        lemma_digits_value_nonneg(p);
    }
}

/// Whether an upper-case word is a keyword.
fn is_keyword_text(w: &String) -> (r: bool)
    ensures
        r == is_keyword(w@),
{
    *w == String::from_str("SELECT") || *w == String::from_str("INSERT") || *w == String::from_str(
        "UPDATE",
    ) || *w == String::from_str("DELETE") || *w == String::from_str("CREATE") || *w
        == String::from_str("TABLE") || *w == String::from_str("VALUES")
}

/// What a lexing result is seen as.
pub open spec fn lex_result_view(r: SqlResult<Vec<Token>>) -> Result<Seq<TokenView>, Seq<char>> {
    match r {
        Ok(ts) => Ok(tokens_view(ts@)),
        Err(e) => Err(e@),
    }
}

/// Splits SQL text into tokens; fails on the first character that starts no
/// token, or on a run of digits beyond the 64-bit range.
pub fn lexer(input: &str) -> (r: SqlResult<Vec<Token>>)
    ensures
        lex_result_view(r) == lex(input@),
{
    let chars = chars_of(input);
    let ghost s = input@;
    let n = chars.len();
    let mut tokens: Vec<Token> = Vec::new();
    let mut i: usize = 0;
    proof {
        assert(tokens_view(tokens@) =~= Seq::<TokenView>::empty());
        if let Ok(v) = lex_from(s, 0) {
            assert(Seq::<TokenView>::empty() + v =~= v);
        }
    }
    while i < n
        invariant
            s == input@,
            chars@ == s,
            n == s.len(),
            i <= n,
            lex(s) == prepend(tokens_view(tokens@), lex_from(s, i as int)),
        decreases n - i,
    {
        let c = chars[i];
        let ghost before = tokens_view(tokens@);
        proof {
            lemma_run_ends(s, i + 1);
        }
        if c == ' ' || c == '\t' || c == '\n' || c == '\r' {
            i = i + 1;
        } else if c == '(' || c == ')' || c == ',' || c == ';' || c == '*' {
            let tok = Token::Symbol { value: c, pos: Some(i) };
            proof {
                lemma_prepend_twice(before, seq![tok@], lex_from(s, i + 1));
            }
            tokens.push(tok);
            proof {
                assert(tokens_view(tokens@) =~= before + seq![tok@]);
            }
            i = i + 1;
        } else if '0' <= c && c <= '9' {
            let start = i;
            let mut value: i64 = (c as u32 - 48) as i64;
            let mut j: usize = i + 1;
            proof {
                assert(s.subrange(start as int, j as int).drop_last() =~= Seq::<char>::empty());
                assert(s.subrange(start as int, j as int).last() == c);
                assert(digits_value(Seq::<char>::empty()) == 0);
                lemma_digit_run(s, start + 1);
            }
            while j < n && '0' <= chars[j] && chars[j] <= '9'
                invariant
                    s == input@,
                    chars@ == s,
                    n == s.len(),
                    start < j <= n,
                    start + 1 <= digits_end(s, start + 1) <= n,
                    lex(s) == prepend(tokens_view(tokens@), lex_from(s, start as int)),
                    digits_end(s, start + 1) == digits_end(s, j as int),
                    value as int == digits_value(s.subrange(start as int, j as int)),
                    is_digit(s[start as int]),
                    forall|k: int| start <= k < digits_end(s, start + 1) ==> is_digit(#[trigger] s[k]),
                decreases n - j,
            {
                let d = (chars[j] as u32 - 48) as i64;
                proof {
                    assert(s.subrange(start as int, j + 1).drop_last() =~= s.subrange(
                        start as int,
                        j as int,
                    ));
                    lemma_run_ends(s, j + 1);
                    assert(digits_end(s, j as int) == digits_end(s, j + 1));
                }
                let next = match value.checked_mul(10) {
                    Some(m) => m.checked_add(d),
                    None => None,
                };
                match next {
                    Some(v) => {
                        value = v;
                    },
                    None => {
                        proof {
                            let e = digits_end(s, start + 1);
                            lemma_digits_value_nonneg(s.subrange(start as int, j as int));
                            lemma_digits_value_grows(s, start as int, j + 1, e);
                            assert(lex_from(s, start as int) == Err::<Seq<TokenView>, Seq<char>>(
                                invalid_number_message(start as nat),
                            ));
                        }
                        let mut message = String::from_str("Invalid number at position ");
                        message.append(decimal_text(start).as_str());
                        return Err(SqlError::from_message(message));
                    },
                }
                j = j + 1;
            }
            let tok = Token::Number { value, pos: Some(start) };
            proof {
                lemma_prepend_twice(before, seq![tok@], lex_from(s, j as int));
            }
            tokens.push(tok);
            proof {
                assert(tokens_view(tokens@) =~= before + seq![tok@]);
            }
            i = j;
        } else if c == '\'' {
            let start = i;
            let mut content = String::new();
            let mut j: usize = i + 1;
            proof {
                assert(content@ =~= s.subrange(start + 1, j as int));
            }
            while j < n && chars[j] != '\''
                invariant
                    chars@ == s,
                    n == s.len(),
                    start < j <= n,
                    quote_end(s, start + 1) == quote_end(s, j as int),
                    content@ == s.subrange(start + 1, j as int),
                decreases n - j,
            {
                content.push(chars[j]);
                proof {
                    assert(content@ =~= s.subrange(start + 1, j + 1));
                }
                j = j + 1;
            }
            let next = if j < n {
                j + 1
            } else {
                j
            };
            let tok = Token::String { value: content, pos: Some(start) };
            proof {
                lemma_prepend_twice(before, seq![tok@], lex_from(s, next as int));
            }
            tokens.push(tok);
            proof {
                assert(tokens_view(tokens@) =~= before + seq![tok@]);
            }
            i = next;
        } else if ('a' <= c && c <= 'z') || ('A' <= c && c <= 'Z') {
            let start = i;
            let mut word = String::new();
            let mut upper = String::new();
            word.push(c);
            upper.push(upper_ascii(c));
            let mut j: usize = i + 1;
            proof {
                assert(word@ =~= s.subrange(start as int, j as int));
                assert(upper@ =~= ascii_upper(word@));
            }
            while j < n && is_name_character(chars[j])
                invariant
                    chars@ == s,
                    n == s.len(),
                    start < j <= n,
                    name_end(s, start + 1) == name_end(s, j as int),
                    word@ == s.subrange(start as int, j as int),
                    upper@ == ascii_upper(word@),
                decreases n - j,
            {
                let d = chars[j];
                word.push(d);
                upper.push(upper_ascii(d));
                proof {
                    assert(word@ =~= s.subrange(start as int, j + 1));
                    assert(upper@ =~= ascii_upper(word@));
                }
                j = j + 1;
            }
            let tok = if is_keyword_text(&upper) {
                Token::Keyword { value: upper, pos: Some(start) }
            } else {
                Token::Identifier { value: word, pos: Some(start) }
            };
            proof {
                lemma_prepend_twice(before, seq![tok@], lex_from(s, j as int));
            }
            tokens.push(tok);
            proof {
                assert(tokens_view(tokens@) =~= before + seq![tok@]);
            }
            i = j;
        } else {
            proof {
                assert(lex_from(s, i as int) == Err::<Seq<TokenView>, Seq<char>>(
                    unexpected_message(c, i as nat),
                ));
            }
            let mut message = String::from_str("Unexpected character '");
            message.append(char_text(c).as_str());
            message.append("' at position ");
            message.append(decimal_text(i).as_str());
            return Err(SqlError::from_message(message));
        }
    }
    proof {
        assert(tokens_view(tokens@) + Seq::<TokenView>::empty() =~= tokens_view(tokens@));
    }
    Ok(tokens)
}

/// A lower-case ASCII letter in upper case; any other character unchanged.
fn upper_ascii(c: char) -> (r: char)
    ensures
        r == upper_char(c),
{
    if 'a' <= c && c <= 'z' {
        ((c as u8) - 32) as char
    } else {
        c
    }
}

/// Whether `c` may follow the first character of a name.
fn is_name_character(c: char) -> (r: bool)
    ensures
        r == is_name_char(c),
{
    ('a' <= c && c <= 'z') || ('A' <= c && c <= 'Z') || ('0' <= c && c <= '9') || c == '_'
}

/// The text `s` with its ASCII letters in upper case.
pub fn upper_text(s: &str) -> (r: String)
    ensures
        r@ == ascii_upper(s@),
{
    let chars = chars_of(s);
    let mut out = String::new();
    let mut i: usize = 0;
    while i < chars.len()
        invariant
            chars@ == s@,
            i <= chars.len(),
            out@ == ascii_upper(s@.take(i as int)),
        decreases chars.len() - i,
    {
        out.push(upper_ascii(chars[i]));
        proof {
            assert(ascii_upper(s@.take(i + 1)) =~= ascii_upper(s@.take(i as int)).push(
                upper_char(s@[i as int]),
            ));
        }
        i = i + 1;
    }
    proof {
        assert(s@.take(i as int) =~= s@);
    }
    out
}

} // verus!
