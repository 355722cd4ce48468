use vstd::prelude::*;
use crate::ast::SpecExpr;
use crate::ast::SpecExprKind;
use crate::ast::SpecLiteral;
use crate::chars::is_digit;
use crate::chars::spec_is_digit;
use crate::errors::ParseError;
use crate::errors::ParseErrorKind;
use crate::token::LitKind;
use crate::token::Token;
use crate::token::TokenKind;

verus! {

/// The numeric value of a decimal digit character; zero for any other
/// character.
pub open spec fn char_digit(c: char) -> nat {
    if spec_is_digit(c) {
        ((c as u32) - ('0' as u32)) as nat
    } else {
        0
    }
}

/// The value of a digit string read left to right.
pub open spec fn digits_val(t: Seq<char>) -> nat
    decreases t.len(),
{
    if t.len() == 0 {
        0
    } else {
        digits_val(t.drop_last()) * 10 + char_digit(t.last())
    }
}

/// Whether every character of `t` is a decimal digit.
pub open spec fn all_digits(t: Seq<char>) -> bool {
    forall|i: int| 0 <= i < t.len() ==> spec_is_digit(t[i])
}

/// The unsigned 128-bit integer that `t` denotes, when `t` is a non-empty
/// run of decimal digits whose value fits; nothing otherwise.
pub open spec fn spec_parse_u128(t: Seq<char>) -> Option<u128> {
    if t.len() >= 1 && all_digits(t) && digits_val(t) <= u128::MAX {
        Some(digits_val(t) as u128)
    } else {
        None
    }
}

/// The value of a prefix of a digit string never exceeds the value of the
/// whole string.
pub proof fn lemma_digits_val_prefix(t: Seq<char>, i: int)
    requires
        0 <= i <= t.len(),
    ensures
        digits_val(t.subrange(0, i)) <= digits_val(t),
    decreases t.len() - i,
{
    if i == t.len() {
        assert(t.subrange(0, i) =~= t);
    } else {
        lemma_digits_val_prefix(t, i + 1);
        let a = t.subrange(0, i);
        let b = t.subrange(0, i + 1);
        assert(b.drop_last() =~= a);
        assert(digits_val(b) == digits_val(a) * 10 + char_digit(b.last()));
    }
}

/// Reads a non-empty run of decimal digits as an unsigned 128-bit integer;
/// nothing when the text is empty, holds a non-digit, or overflows.
pub fn parse_u128_digits(text: &str) -> (r: Option<u128>)
    ensures
        r == spec_parse_u128(text@),
{
    let n = text.unicode_len();
    if n == 0 {
        return None;
    }
    let mut acc: u128 = 0;
    let mut i: usize = 0;
    while i < n
        invariant
            i <= n,
            n == text@.len(),
            all_digits(text@.subrange(0, i as int)),
            acc == digits_val(text@.subrange(0, i as int)),
        decreases n - i,
    {
        let c = text.get_char(i);
        if !is_digit(c) {
            proof {
                assert(!spec_is_digit(text@[i as int]));
            }
            return None;
        }
        let d = (c as u32 - 48) as u128;
        proof {
            assert(text@.subrange(0, i + 1).drop_last() =~= text@.subrange(0, i as int));
            assert(text@.subrange(0, i + 1).last() == text@[i as int]);
            assert(char_digit(text@[i as int]) == d);
            // The value of one more digit, with its ten-fold carry, still
            // relates linearly to the bound below.
            assert(u128::MAX as int == 10 * 34028236692093846346337460743176821145 + 5);
        }
        if acc > u128::MAX / 10 || (acc == u128::MAX / 10 && d > u128::MAX % 10) {
            proof {
                assert(u128::MAX / 10 == 34028236692093846346337460743176821145u128);
                assert(u128::MAX % 10 == 5u128);
                assert(digits_val(text@.subrange(0, i + 1)) > u128::MAX);
                lemma_digits_val_prefix(text@, i + 1);
            }
            return None;
        }
        proof {
            assert(u128::MAX / 10 == 34028236692093846346337460743176821145u128);
            assert(u128::MAX % 10 == 5u128);
            assert(acc * 10 + d <= u128::MAX);
        }
        acc = acc * 10 + d;
        i = i + 1;
    }
    proof {
        assert(text@.subrange(0, n as int) =~= text@);
    }
    Some(acc)
}

/// Relies on String::push: appends exactly one character at the end.
#[verifier::external_body]
fn push_char(out: &mut String, c: char)
    ensures
        final(out)@ == old(out)@.push(c),
{
    out.push(c);
}

/// Escape substitution over the body of a quoted literal, left to right and
/// non-overlapping: `\n` and `\r` become the control characters, `\"` and
/// `\'` drop the backslash, `\t` is kept as the two characters backslash
/// and `t`, and a backslash that does not begin one of these pairs passes
/// through unchanged.
pub open spec fn spec_unescape(t: Seq<char>) -> Seq<char>
    decreases t.len(),
{
    if t.len() == 0 {
        Seq::empty()
    } else if t[0] == '\\' && t.len() >= 2 {
        let c = t[1];
        if c == 'n' {
            seq!['\n'] + spec_unescape(t.subrange(2, t.len() as int))
        } else if c == 'r' {
            seq!['\r'] + spec_unescape(t.subrange(2, t.len() as int))
        } else if c == 't' {
            seq!['\\', 't'] + spec_unescape(t.subrange(2, t.len() as int))
        } else if c == '"' {
            seq!['"'] + spec_unescape(t.subrange(2, t.len() as int))
        } else if c == '\'' {
            seq!['\''] + spec_unescape(t.subrange(2, t.len() as int))
        } else {
            seq!['\\'] + spec_unescape(t.subrange(1, t.len() as int))
        }
    } else {
        seq![t[0]] + spec_unescape(t.subrange(1, t.len() as int))
    }
}

/// Applies escape substitution to `s`, left to right, non-overlapping.
#[verifier::loop_isolation(false)]
pub fn unescape(s: &str) -> (r: String)
    ensures
        r@ == spec_unescape(s@),
{
    let n = s.unicode_len();
    let mut out = String::new();
    let mut i: usize = 0;
    proof {
        assert(s@.subrange(0, n as int) =~= s@);
        assert(Seq::<char>::empty() + spec_unescape(s@) =~= spec_unescape(s@));
    }
    while i < n
        invariant
            i <= n,
            spec_unescape(s@) == out@ + spec_unescape(s@.subrange(i as int, n as int)),
        decreases n - i,
    {
        let ghost cur = s@.subrange(i as int, n as int);
        let ghost out0 = out@;
        let c = s.get_char(i);
        if c == '\\' && i + 1 < n {
            let c2 = s.get_char(i + 1);
            proof {
                assert(cur[0] == '\\' && cur.len() >= 2 && cur[1] == c2);
                assert(cur.subrange(2, cur.len() as int) =~= s@.subrange(i + 2, n as int));
                assert(cur.subrange(1, cur.len() as int) =~= s@.subrange(i + 1, n as int));
            }
            if c2 == 'n' {
                push_char(&mut out, '\n');
                i = i + 2;
                proof {
                    assert(out@ =~= out0 + seq!['\n']);
                }
            } else if c2 == 'r' {
                push_char(&mut out, '\r');
                i = i + 2;
                proof {
                    assert(out@ =~= out0 + seq!['\r']);
                }
            } else if c2 == 't' {
                push_char(&mut out, '\\');
                push_char(&mut out, 't');
                i = i + 2;
                proof {
                    assert(out@ =~= out0 + seq!['\\', 't']);
                }
            } else if c2 == '"' {
                push_char(&mut out, '"');
                i = i + 2;
                proof {
                    assert(out@ =~= out0 + seq!['"']);
                }
            } else if c2 == '\'' {
                push_char(&mut out, '\'');
                i = i + 2;
                proof {
                    assert(out@ =~= out0 + seq!['\'']);
                }
            } else {
                push_char(&mut out, '\\');
                i = i + 1;
                proof {
                    assert(out@ =~= out0 + seq!['\\']);
                }
            }
        } else {
            push_char(&mut out, c);
            i = i + 1;
            proof {
                assert(cur[0] == c);
                assert(!(cur[0] == '\\' && cur.len() >= 2));
                assert(cur.subrange(1, cur.len() as int) =~= s@.subrange(i as int, n as int));
                assert(out@ =~= out0 + seq![c]);
            }
        }
        proof {
            assert(spec_unescape(s@) == out@ + spec_unescape(s@.subrange(i as int, n as int)));
        }
    }
    proof {
        assert(s@.subrange(i as int, n as int).len() == 0);
        assert(out@ + spec_unescape(s@.subrange(i as int, n as int)) =~= out@);
    }
    out
}

/// The expression denoted by a literal token `t` of the source `s`, or the
/// fatal parse error it raises: an integer literal is read as an unsigned
/// 128-bit value, a float literal keeps its text, quoted literals are
/// unescaped (a character literal must unescape to exactly one character),
/// an unterminated literal is an error, and any other token is an error
/// because only a literal can begin a primary expression.
pub open spec fn spec_literal_expr(s: Seq<char>, t: Token) -> Result<SpecExpr, ParseError>
    recommends
        t.span.start_pos + t.span.len <= s.len(),
{
    let start = t.span.start_pos as int;
    let end = t.span.start_pos + t.span.len;
    match t.kind {
        TokenKind::Literal { kind: LitKind::Int } => {
            match spec_parse_u128(s.subrange(start, end)) {
                Some(v) => Ok(
                    SpecExpr { kind: SpecExprKind::Literal(SpecLiteral::Int(v)), span: t.span },
                ),
                None => Err(ParseError { kind: ParseErrorKind::IntOutOfRange, span: t.span }),
            }
        },
        TokenKind::Literal { kind: LitKind::Float } => Ok(
            SpecExpr {
                kind: SpecExprKind::Literal(SpecLiteral::Float(s.subrange(start, end))),
                span: t.span,
            },
        ),
        TokenKind::Literal { kind: LitKind::Char { terminated } } => {
            if !terminated {
                Err(ParseError { kind: ParseErrorKind::UnterminatedLiteral, span: t.span })
            } else {
                let u = spec_unescape(s.subrange(start + 1, end - 1));
                if u.len() == 1 {
                    Ok(
                        SpecExpr {
                            kind: SpecExprKind::Literal(SpecLiteral::Char(u[0])),
                            span: t.span,
                        },
                    )
                } else {
                    Err(ParseError { kind: ParseErrorKind::CharNotSingle, span: t.span })
                }
            }
        },
        TokenKind::Literal { kind: LitKind::Str { terminated } } => {
            if !terminated {
                Err(ParseError { kind: ParseErrorKind::UnterminatedLiteral, span: t.span })
            } else {
                Ok(
                    SpecExpr {
                        kind: SpecExprKind::Literal(
                            SpecLiteral::Str(spec_unescape(s.subrange(start + 1, end - 1))),
                        ),
                        span: t.span,
                    },
                )
            }
        },
        _ => Err(ParseError { kind: ParseErrorKind::ExpectedOperand, span: t.span }),
    }
}

} // verus!
