use vstd::prelude::*;
use vstd::string::StrSliceExecFns;

use crate::errors::CalcError;
use crate::token::Rat;
use crate::token::Token;
use crate::token::tokens_wf;

verus! {

/// `c` is an ASCII decimal digit.
pub open spec fn spec_is_digit(c: char) -> bool {
    48 <= c as u32 <= 57
}

/// The numeric value of an ASCII decimal digit.
pub open spec fn spec_digit_val(c: char) -> int {
    c as u32 - 48
}

/// `c` may be part of a number literal: a digit or a decimal point.
pub open spec fn spec_is_fpd(c: char) -> bool {
    spec_is_digit(c) || c == '.'
}

/// Runtime test for `spec_is_fpd`: `c` is a digit or a decimal point.
pub fn is_floating_point_digit(c: char) -> (b: bool)
    ensures
        b == spec_is_fpd(c),
{
    let u = c as u32;
    (48 <= u && u <= 57) || c == '.'
}

/// Scan of the sign-stripped part of a number literal, one character at a
/// time from position `j`, carrying the digits read so far (`acc`), the
/// scale of the fractional digits read so far (`den`), and whether a
/// decimal point (`seen_dot`) or a digit (`seen_digit`) has appeared.
/// The result is the literal's magnitude as the pair `acc / den`; a second
/// decimal point, a foreign character or a literal without digits is
/// rejected, and a magnitude or scale beyond the 64-bit range is an
/// overflow.
pub open spec fn spec_scan_literal(
    body: Seq<char>,
    j: int,
    acc: int,
    den: int,
    seen_dot: bool,
    seen_digit: bool,
) -> Result<(int, int), CalcError>
    decreases body.len() - j,
{
    if j >= body.len() {
        if seen_digit {
            Ok((acc, den))
        } else {
            Err(CalcError::InvalidNumber)
        }
    } else {
        let c = body[j];
        if spec_is_digit(c) {
            let a2 = acc * 10 + spec_digit_val(c);
            if a2 > i64::MAX {
                Err(CalcError::Overflow)
            } else if seen_dot {
                let d2 = den * 10;
                if d2 > i64::MAX {
                    Err(CalcError::Overflow)
                } else {
                    spec_scan_literal(body, j + 1, a2, d2, seen_dot, true)
                }
            } else {
                spec_scan_literal(body, j + 1, a2, den, seen_dot, true)
            }
        } else if c == '.' {
            if seen_dot {
                Err(CalcError::InvalidNumber)
            } else {
                spec_scan_literal(body, j + 1, acc, den, true, seen_digit)
            }
        } else {
            Err(CalcError::InvalidNumber)
        }
    }
}

/// The rational denoted by a whole number-literal buffer: an optional
/// leading minus sign, then digits with at most one decimal point.
pub open spec fn spec_parse_literal(buf: Seq<char>) -> Result<Rat, CalcError> {
    if buf.len() == 0 {
        Err(CalcError::InvalidNumber)
    } else {
        let neg = buf[0] == '-';
        let body = if neg {
            buf.skip(1)
        } else {
            buf
        };
        match spec_scan_literal(body, 0, 0, 1, false, false) {
            Err(e) => Err(e),
            Ok((m, dn)) => Ok(
                Rat {
                    n: (if neg {
                        -m
                    } else {
                        m
                    }) as i64,
                    d: dn as i64,
                },
            ),
        }
    }
}

/// Runtime literal parser; follows `spec_parse_literal` step for step.
#[verifier::loop_isolation(false)]
pub fn parse_literal(buf: &Vec<char>) -> (r: Result<Rat, CalcError>)
    ensures
        r == spec_parse_literal(buf@),
        r matches Ok(v) ==> v.wf(),
{
    if buf.len() == 0 {
        return Err(CalcError::InvalidNumber);
    }
    let neg = buf[0] == '-';
    let start: usize = if neg {
        1
    } else {
        0
    };
    let ghost body = if neg {
        buf@.skip(1)
    } else {
        buf@
    };
    proof {
        assert(body.len() == buf@.len() - start);
        assert(forall|t: int| 0 <= t < body.len() ==> body[t] == buf@[t + start]);
    }
    let mut acc: i64 = 0;
    let mut den: i64 = 1;
    let mut seen_dot = false;
    let mut seen_digit = false;
    let mut i: usize = start;
    while i < buf.len()
        invariant
            start <= i <= buf.len(),
            start == (if neg {
                1int
            } else {
                0int
            }),
            body == (if neg {
                buf@.skip(1)
            } else {
                buf@
            }),
            body.len() == buf@.len() - start,
            forall|t: int| 0 <= t < body.len() ==> body[t] == buf@[t + start],
            0 <= acc <= i64::MAX,
            1 <= den <= i64::MAX,
            spec_scan_literal(body, 0, 0, 1, false, false) == spec_scan_literal(
                body,
                i - start,
                acc as int,
                den as int,
                seen_dot,
                seen_digit,
            ),
        decreases buf.len() - i,
    {
        let c = buf[i];
        proof {
            assert(body[i - start] == c);
        }
        let u = c as u32;
        if 48 <= u && u <= 57 {
            let dv = (u - 48) as i64;
            let a1 = match acc.checked_mul(10) {
                Some(x) => x,
                None => {
                    proof {
                        assert(acc * 10 + spec_digit_val(c) > i64::MAX);
                    }
                    return Err(CalcError::Overflow);
                },
            };
            let a2 = match a1.checked_add(dv) {
                Some(x) => x,
                None => {
                    proof {
                        assert(acc * 10 + spec_digit_val(c) > i64::MAX);
                    }
                    return Err(CalcError::Overflow);
                },
            };
            acc = a2;
            if seen_dot {
                den = match den.checked_mul(10) {
                    Some(x) => x,
                    None => {
                        return Err(CalcError::Overflow);
                    },
                };
            }
            seen_digit = true;
        } else if c == '.' {
            if seen_dot {
                return Err(CalcError::InvalidNumber);
            }
            seen_dot = true;
        } else {
            return Err(CalcError::InvalidNumber);
        }
        i = i + 1;
    }
    if !seen_digit {
        return Err(CalcError::InvalidNumber);
    }
    let n: i64 = if neg {
        -acc
    } else {
        acc
    };
    Ok(Rat { n, d: den })
}

/// A minus sign read here is binary subtraction (rather than the sign of a
/// literal): the token just before it is a number or a close parenthesis.
pub open spec fn spec_minus_is_sub(toks: Seq<Token>) -> bool {
    toks.len() > 0 && (toks.last() is Number || toks.last() is CloseParen)
}

/// Flush the pending literal buffer: an empty buffer adds nothing, a
/// non-empty one must parse and becomes one `Number` token.
pub open spec fn spec_flush(buf: Seq<char>, toks: Seq<Token>) -> Result<Seq<Token>, CalcError> {
    if buf.len() == 0 {
        Ok(toks)
    } else {
        match spec_parse_literal(buf) {
            Ok(r) => Ok(toks.push(Token::Number(r))),
            Err(e) => Err(e),
        }
    }
}

/// The tokenizer's scan from position `i`, with the pending literal buffer
/// `buf` and the tokens emitted so far. Digits and decimal points grow the
/// buffer; any other character first flushes it, then is classified: the
/// operators and parentheses each yield their token, a minus sign becomes
/// subtraction or the sign of the next literal (`spec_minus_is_sub`), and
/// every remaining character, whitespace included, is ignored.
pub open spec fn spec_tokenize_from(
    s: Seq<char>,
    i: int,
    buf: Seq<char>,
    toks: Seq<Token>,
) -> Result<Seq<Token>, CalcError>
    decreases s.len() - i,
{
    if i >= s.len() {
        spec_flush(buf, toks)
    } else {
        let c = s[i];
        let flushing = buf.len() > 0 && !spec_is_fpd(c);
        match (if flushing {
            spec_flush(buf, toks)
        } else {
            Ok(toks)
        }) {
            Err(e) => Err(e),
            Ok(toks1) => {
                let buf1 = if flushing {
                    Seq::<char>::empty()
                } else {
                    buf
                };
                if spec_is_fpd(c) {
                    spec_tokenize_from(s, i + 1, buf1.push(c), toks1)
                } else if c == '+' {
                    spec_tokenize_from(s, i + 1, buf1, toks1.push(Token::AddOp))
                } else if c == '-' {
                    if spec_minus_is_sub(toks1) {
                        spec_tokenize_from(s, i + 1, buf1, toks1.push(Token::SubOp))
                    } else {
                        spec_tokenize_from(s, i + 1, buf1.push('-'), toks1)
                    }
                } else if c == '*' {
                    spec_tokenize_from(s, i + 1, buf1, toks1.push(Token::MulOp))
                } else if c == '/' {
                    spec_tokenize_from(s, i + 1, buf1, toks1.push(Token::DivOp))
                } else if c == '(' {
                    spec_tokenize_from(s, i + 1, buf1, toks1.push(Token::OpenParen))
                } else if c == ')' {
                    spec_tokenize_from(s, i + 1, buf1, toks1.push(Token::CloseParen))
                } else if c == '^' {
                    spec_tokenize_from(s, i + 1, buf1, toks1.push(Token::Power))
                } else {
                    spec_tokenize_from(s, i + 1, buf1, toks1)
                }
            },
        }
    }
}

/// The token sequence of a whole input.
pub open spec fn spec_tokenize(s: Seq<char>) -> Result<Seq<Token>, CalcError> {
    spec_tokenize_from(s, 0, Seq::<char>::empty(), Seq::<Token>::empty())
}

/// The characters of `s`, in order.
#[verifier::loop_isolation(false)]
fn str_chars(s: &str) -> (v: Vec<char>)
    ensures
        v@ == s@,
{
    let n = s.unicode_len();
    let mut v: Vec<char> = Vec::new();
    let mut i: usize = 0;
    while i < n
        invariant
            0 <= i <= n,
            n == s@.len(),
            v@ == s@.take(i as int),
        decreases n - i,
    {
        let c = s.get_char(i);
        v.push(c);
        proof {
            assert(v@ =~= s@.take(i + 1 as int));
        }
        i = i + 1;
    }
    proof {
        assert(s@.take(n as int) =~= s@);
    }
    v
}

/// Scan `input` left to right into tokens; follows `spec_tokenize` step for
/// step. The unary-versus-binary reading of a minus sign is settled during
/// the scan, from the token emitted last.
#[verifier::loop_isolation(false)]
pub fn tokenize(input: &str) -> (r: Result<Vec<Token>, CalcError>)
    ensures
        r matches Ok(v) ==> spec_tokenize(input@) == Ok::<Seq<Token>, CalcError>(v@) && tokens_wf(
            v@,
        ),
        r matches Err(e) ==> spec_tokenize(input@) == Err::<Seq<Token>, CalcError>(e),
{
    let chars = str_chars(input);
    let mut buf: Vec<char> = Vec::new();
    let mut tokens: Vec<Token> = Vec::new();
    let mut i: usize = 0;
    while i < chars.len()
        invariant
            0 <= i <= chars.len(),
            chars@ == input@,
            spec_tokenize(input@) == spec_tokenize_from(input@, i as int, buf@, tokens@),
            tokens_wf(tokens@),
        decreases chars.len() - i,
    {
        let c = chars[i];
        if buf.len() > 0 && !is_floating_point_digit(c) {
            match parse_literal(&buf) {
                Ok(num) => {
                    tokens.push(Token::Number(num));
                    buf.clear();
                },
                Err(e) => {
                    return Err(e);
                },
            }
        }
        if is_floating_point_digit(c) {
            buf.push(c);
        } else if c == '+' {
            tokens.push(Token::AddOp);
        } else if c == '-' {
            let sub = if tokens.len() > 0 {
                match tokens[tokens.len() - 1] {
                    Token::Number(_) | Token::CloseParen => true,
                    _ => false,
                }
            } else {
                false
            };
            if sub {
                tokens.push(Token::SubOp);
            } else {
                buf.push('-');
            }
        } else if c == '*' {
            tokens.push(Token::MulOp);
        } else if c == '/' {
            tokens.push(Token::DivOp);
        } else if c == '(' {
            tokens.push(Token::OpenParen);
        } else if c == ')' {
            tokens.push(Token::CloseParen);
        } else if c == '^' {
            tokens.push(Token::Power);
        }
        i = i + 1;
    }
    if buf.len() > 0 {
        match parse_literal(&buf) {
            Ok(num) => {
                tokens.push(Token::Number(num));
            },
            Err(e) => {
                return Err(e);
            },
        }
    }
    Ok(tokens)
}

} // verus!
