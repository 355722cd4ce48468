use vstd::prelude::*;
use crate::ast::BinOp;
use crate::ast::SpecExpr;
use crate::ast::SpecExprKind;
use crate::errors::ParseError;
use crate::errors::ParseErrorKind;
use crate::lit::spec_literal_expr;
use crate::reader::lemma_next_token_bounds;
use crate::reader::lemma_next_token_props;
use crate::reader::spec_next_token;
use crate::span::span_end;
use crate::span::spec_append;
use crate::token::TokenKind;

verus! {

/// The binary node combining two sides, spanning both.
pub open spec fn spec_binary(op: BinOp, lhs: SpecExpr, rhs: SpecExpr) -> SpecExpr {
    SpecExpr {
        kind: SpecExprKind::Binary(op, Box::new(lhs), Box::new(rhs)),
        span: spec_append(lhs.span, rhs.span),
    }
}

/// The equality-level operator at position `p`, with the position after
/// it: two adjacent `=` tokens form `==` and a `!` adjacent to a `=` forms
/// `!=`; the single-character tokens never count alone at this level.
pub open spec fn spec_eq_op(s: Seq<char>, p: nat) -> Option<(BinOp, nat)> {
    let r1 = spec_next_token(s, p);
    let t1 = r1.0;
    let p1 = p + r1.1;
    let r2 = spec_next_token(s, p1);
    let t2 = r2.0;
    let adjacent = t2.span.start_pos == t1.span.start_pos + t1.span.len;
    if t1.kind == TokenKind::Eq && t2.kind == TokenKind::Eq && adjacent {
        Some((BinOp::Eq, p1 + r2.1))
    } else if t1.kind == TokenKind::Bang && t2.kind == TokenKind::Eq && adjacent {
        Some((BinOp::Ne, p1 + r2.1))
    } else {
        None
    }
}

/// The relational-level operator at position `p`, with the position after
/// it: `<` and `>`, or `<=` and `>=` when a `=` token immediately adjoins.
pub open spec fn spec_rel_op(s: Seq<char>, p: nat) -> Option<(BinOp, nat)> {
    let r1 = spec_next_token(s, p);
    let t1 = r1.0;
    let p1 = p + r1.1;
    let r2 = spec_next_token(s, p1);
    let t2 = r2.0;
    let adjacent = t2.span.start_pos == t1.span.start_pos + t1.span.len;
    if t1.kind == TokenKind::Lt {
        if t2.kind == TokenKind::Eq && adjacent {
            Some((BinOp::Le, p1 + r2.1))
        } else {
            Some((BinOp::Lt, p1))
        }
    } else if t1.kind == TokenKind::Gt {
        if t2.kind == TokenKind::Eq && adjacent {
            Some((BinOp::Ge, p1 + r2.1))
        } else {
            Some((BinOp::Gt, p1))
        }
    } else {
        None
    }
}

/// The additive-level operator at position `p`, with the position after it.
pub open spec fn spec_add_op(s: Seq<char>, p: nat) -> Option<(BinOp, nat)> {
    let r1 = spec_next_token(s, p);
    let t1 = r1.0;
    let p1 = p + r1.1;
    if t1.kind == TokenKind::Plus {
        Some((BinOp::Add, p1))
    } else if t1.kind == TokenKind::Minus {
        Some((BinOp::Sub, p1))
    } else {
        None
    }
}

/// The multiplicative-level operator at position `p`, with the position
/// after it.
pub open spec fn spec_mul_op(s: Seq<char>, p: nat) -> Option<(BinOp, nat)> {
    let r1 = spec_next_token(s, p);
    let t1 = r1.0;
    let p1 = p + r1.1;
    if t1.kind == TokenKind::Star {
        Some((BinOp::Mul, p1))
    } else if t1.kind == TokenKind::Slash {
        Some((BinOp::Div, p1))
    } else {
        None
    }
}

/// An equality-level operator lies strictly inside the text and ends after
/// where it starts.
pub proof fn lemma_spec_eq_op_bounds(s: Seq<char>, p: nat)
    ensures
        spec_eq_op(s, p) matches Some(v) ==> p < v.1 && v.1 <= s.len(),
{
    lemma_next_token_bounds(s, p);
    lemma_next_token_bounds(s, (p + spec_next_token(s, p).1) as nat);
}

/// A relational-level operator lies strictly inside the text and ends
/// after where it starts.
pub proof fn lemma_spec_rel_op_bounds(s: Seq<char>, p: nat)
    ensures
        spec_rel_op(s, p) matches Some(v) ==> p < v.1 && v.1 <= s.len(),
{
    lemma_next_token_bounds(s, p);
    lemma_next_token_bounds(s, (p + spec_next_token(s, p).1) as nat);
}

/// An additive-level operator lies strictly inside the text and ends after
/// where it starts.
pub proof fn lemma_spec_add_op_bounds(s: Seq<char>, p: nat)
    ensures
        spec_add_op(s, p) matches Some(v) ==> p < v.1 && v.1 <= s.len(),
{
    lemma_next_token_bounds(s, p);
}

/// A multiplicative-level operator lies strictly inside the text and ends
/// after where it starts.
pub proof fn lemma_spec_mul_op_bounds(s: Seq<char>, p: nat)
    ensures
        spec_mul_op(s, p) matches Some(v) ==> p < v.1 && v.1 <= s.len(),
{
    lemma_next_token_bounds(s, p);
}

/// A primary expression: exactly one literal token, converted to a literal
/// node; any other token where an operand is expected is a fatal error.
pub open spec fn sp_primary(s: Seq<char>, p: nat) -> Result<(SpecExpr, nat), ParseError> {
    let r = spec_next_token(s, p);
    let t = r.0;
    match t.kind {
        TokenKind::Literal { kind: _ } => match spec_literal_expr(s, t) {
            Ok(e) => Ok((e, p + r.1)),
            Err(er) => Err(er),
        },
        _ => Err(ParseError { kind: ParseErrorKind::ExpectedOperand, span: t.span }),
    }
}

/// A unary-level expression: a prefix `+` is consumed and discarded; the
/// prefix operators `-` and `!` are recognized by the token grammar but
/// not yet wired into the expression grammar, a fatal error; anything else
/// is the primary expression itself.
pub open spec fn sp_unary(s: Seq<char>, p: nat) -> Result<(SpecExpr, nat), ParseError> {
    let r = spec_next_token(s, p);
    let t = r.0;
    if t.kind == TokenKind::Plus {
        sp_primary(s, (p + r.1) as nat)
    } else if t.kind == TokenKind::Minus || t.kind == TokenKind::Bang {
        Err(ParseError { kind: ParseErrorKind::UnsupportedUnary, span: t.span })
    } else {
        sp_primary(s, p)
    }
}

/// A parsed primary expression lies strictly inside the text, and its span
/// does too.
pub proof fn lemma_sp_primary_bounds(s: Seq<char>, p: nat)
    ensures
        sp_primary(s, p) matches Ok(v) ==> p < v.1 && v.1 <= s.len(),
        s.len() <= usize::MAX ==> (sp_primary(s, p) matches Ok(v) ==> span_end(v.0.span)
            <= s.len()),
{
    lemma_next_token_bounds(s, p);
    let t = spec_next_token(s, p).0;
    if t.kind != TokenKind::Eof && s.len() <= usize::MAX {
        lemma_next_token_props(s, p);
    }
}

/// A parsed unary-level expression lies strictly inside the text, and its
/// span does too.
pub proof fn lemma_sp_unary_bounds(s: Seq<char>, p: nat)
    ensures
        sp_unary(s, p) matches Ok(v) ==> p < v.1 && v.1 <= s.len(),
        s.len() <= usize::MAX ==> (sp_unary(s, p) matches Ok(v) ==> span_end(v.0.span)
            <= s.len()),
{
    lemma_next_token_bounds(s, p);
    lemma_sp_primary_bounds(s, p);
    lemma_sp_primary_bounds(s, (p + spec_next_token(s, p).1) as nat);
}

/// Folds multiplicative operators left-associatively onto `lhs`: while a
/// `*` or `/` follows, the next unary-level operand is parsed and the two
/// sides combine into a binary node whose span covers both.
pub open spec fn sp_mul_fold(s: Seq<char>, lhs: SpecExpr, p: nat) -> Result<
    (SpecExpr, nat),
    ParseError,
>
    decreases s.len() - p,
{
    match spec_mul_op(s, p) {
        None => Ok((lhs, p)),
        Some((op, q)) => match sp_unary(s, q) {
            Ok((rhs, q2)) => {
                proof {
                    lemma_spec_mul_op_bounds(s, p);
                    lemma_sp_unary_bounds(s, q);
                }
                sp_mul_fold(s, spec_binary(op, lhs, rhs), q2)
            },
            Err(er) => Err(er),
        },
    }
}

/// The multiplicative fold only moves forward and stays inside the text;
/// the combined span stays inside the text when the left side's does.
pub proof fn lemma_sp_mul_fold_bounds(s: Seq<char>, lhs: SpecExpr, p: nat)
    ensures
        sp_mul_fold(s, lhs, p) matches Ok(v) ==> p <= v.1,
        p <= s.len() ==> (sp_mul_fold(s, lhs, p) matches Ok(v) ==> v.1 <= s.len()),
        s.len() <= usize::MAX && span_end(lhs.span) <= s.len() ==> (sp_mul_fold(s, lhs, p) matches
            Ok(v) ==> span_end(v.0.span) <= s.len()),
    decreases s.len() - p,
{
    match spec_mul_op(s, p) {
        None => {},
        Some((op, q)) => match sp_unary(s, q) {
            Ok((rhs, q2)) => {
                lemma_spec_mul_op_bounds(s, p);
                lemma_sp_unary_bounds(s, q);
                lemma_sp_mul_fold_bounds(s, spec_binary(op, lhs, rhs), q2);
            },
            Err(_) => {},
        },
    }
}

/// A multiplicative-level expression: one unary-level operand, then a
/// left-associative fold of `*` and `/`.
pub open spec fn sp_mul(s: Seq<char>, p: nat) -> Result<(SpecExpr, nat), ParseError> {
    match sp_unary(s, p) {
        Ok((e, q)) => sp_mul_fold(s, e, q),
        Err(er) => Err(er),
    }
}

/// A parsed multiplicative-level expression lies strictly inside the text,
/// and its span does too.
pub proof fn lemma_sp_mul_bounds(s: Seq<char>, p: nat)
    ensures
        sp_mul(s, p) matches Ok(v) ==> p < v.1 && v.1 <= s.len(),
        s.len() <= usize::MAX ==> (sp_mul(s, p) matches Ok(v) ==> span_end(v.0.span) <= s.len()),
{
    lemma_sp_unary_bounds(s, p);
    match sp_unary(s, p) {
        Ok((e, q)) => {
            lemma_sp_mul_fold_bounds(s, e, q);
        },
        Err(_) => {},
    }
}

/// Folds additive operators left-associatively onto `lhs`: while a `+` or
/// `-` follows, the next multiplicative-level operand is parsed and the
/// two sides combine into a binary node whose span covers both.
pub open spec fn sp_add_fold(s: Seq<char>, lhs: SpecExpr, p: nat) -> Result<
    (SpecExpr, nat),
    ParseError,
>
    decreases s.len() - p,
{
    match spec_add_op(s, p) {
        None => Ok((lhs, p)),
        Some((op, q)) => match sp_mul(s, q) {
            Ok((rhs, q2)) => {
                proof {
                    lemma_spec_add_op_bounds(s, p);
                    lemma_sp_mul_bounds(s, q);
                }
                sp_add_fold(s, spec_binary(op, lhs, rhs), q2)
            },
            Err(er) => Err(er),
        },
    }
}

/// The additive fold only moves forward and stays inside the text; the
/// combined span stays inside the text when the left side's does.
pub proof fn lemma_sp_add_fold_bounds(s: Seq<char>, lhs: SpecExpr, p: nat)
    ensures
        sp_add_fold(s, lhs, p) matches Ok(v) ==> p <= v.1,
        p <= s.len() ==> (sp_add_fold(s, lhs, p) matches Ok(v) ==> v.1 <= s.len()),
        s.len() <= usize::MAX && span_end(lhs.span) <= s.len() ==> (sp_add_fold(s, lhs, p) matches
            Ok(v) ==> span_end(v.0.span) <= s.len()),
    decreases s.len() - p,
{
    match spec_add_op(s, p) {
        None => {},
        Some((op, q)) => match sp_mul(s, q) {
            Ok((rhs, q2)) => {
                lemma_spec_add_op_bounds(s, p);
                lemma_sp_mul_bounds(s, q);
                lemma_sp_add_fold_bounds(s, spec_binary(op, lhs, rhs), q2);
            },
            Err(_) => {},
        },
    }
}

/// An additive-level expression: one multiplicative-level operand, then a
/// left-associative fold of `+` and `-`.
pub open spec fn sp_add(s: Seq<char>, p: nat) -> Result<(SpecExpr, nat), ParseError> {
    match sp_mul(s, p) {
        Ok((e, q)) => sp_add_fold(s, e, q),
        Err(er) => Err(er),
    }
}

/// A parsed additive-level expression lies strictly inside the text, and
/// its span does too.
pub proof fn lemma_sp_add_bounds(s: Seq<char>, p: nat)
    ensures
        sp_add(s, p) matches Ok(v) ==> p < v.1 && v.1 <= s.len(),
        s.len() <= usize::MAX ==> (sp_add(s, p) matches Ok(v) ==> span_end(v.0.span) <= s.len()),
{
    lemma_sp_mul_bounds(s, p);
    match sp_mul(s, p) {
        Ok((e, q)) => {
            lemma_sp_add_fold_bounds(s, e, q);
        },
        Err(_) => {},
    }
}

/// Folds relational operators left-associatively onto `lhs`: while a `<`,
/// `>`, `<=` or `>=` follows, the next additive-level operand is parsed
/// and the two sides combine into a binary node whose span covers both.
pub open spec fn sp_rel_fold(s: Seq<char>, lhs: SpecExpr, p: nat) -> Result<
    (SpecExpr, nat),
    ParseError,
>
    decreases s.len() - p,
{
    match spec_rel_op(s, p) {
        None => Ok((lhs, p)),
        Some((op, q)) => match sp_add(s, q) {
            Ok((rhs, q2)) => {
                proof {
                    lemma_spec_rel_op_bounds(s, p);
                    lemma_sp_add_bounds(s, q);
                }
                sp_rel_fold(s, spec_binary(op, lhs, rhs), q2)
            },
            Err(er) => Err(er),
        },
    }
}

/// The relational fold only moves forward and stays inside the text; the
/// combined span stays inside the text when the left side's does.
pub proof fn lemma_sp_rel_fold_bounds(s: Seq<char>, lhs: SpecExpr, p: nat)
    ensures
        sp_rel_fold(s, lhs, p) matches Ok(v) ==> p <= v.1,
        p <= s.len() ==> (sp_rel_fold(s, lhs, p) matches Ok(v) ==> v.1 <= s.len()),
        s.len() <= usize::MAX && span_end(lhs.span) <= s.len() ==> (sp_rel_fold(s, lhs, p) matches
            Ok(v) ==> span_end(v.0.span) <= s.len()),
    decreases s.len() - p,
{
    match spec_rel_op(s, p) {
        None => {},
        Some((op, q)) => match sp_add(s, q) {
            Ok((rhs, q2)) => {
                lemma_spec_rel_op_bounds(s, p);
                lemma_sp_add_bounds(s, q);
                lemma_sp_rel_fold_bounds(s, spec_binary(op, lhs, rhs), q2);
            },
            Err(_) => {},
        },
    }
}

/// A relational-level expression: one additive-level operand, then a
/// left-associative fold of `<`, `>`, `<=` and `>=`.
pub open spec fn sp_relational(s: Seq<char>, p: nat) -> Result<(SpecExpr, nat), ParseError> {
    match sp_add(s, p) {
        Ok((e, q)) => sp_rel_fold(s, e, q),
        Err(er) => Err(er),
    }
}

/// A parsed relational-level expression lies strictly inside the text, and
/// its span does too.
pub proof fn lemma_sp_relational_bounds(s: Seq<char>, p: nat)
    ensures
        sp_relational(s, p) matches Ok(v) ==> p < v.1 && v.1 <= s.len(),
        s.len() <= usize::MAX ==> (sp_relational(s, p) matches Ok(v) ==> span_end(v.0.span)
            <= s.len()),
{
    lemma_sp_add_bounds(s, p);
    match sp_add(s, p) {
        Ok((e, q)) => {
            lemma_sp_rel_fold_bounds(s, e, q);
        },
        Err(_) => {},
    }
}

/// Folds equality operators left-associatively onto `lhs`: while a `==` or
/// `!=` follows, the next relational-level operand is parsed and the two
/// sides combine into a binary node whose span covers both.
pub open spec fn sp_eq_fold(s: Seq<char>, lhs: SpecExpr, p: nat) -> Result<
    (SpecExpr, nat),
    ParseError,
>
    decreases s.len() - p,
{
    match spec_eq_op(s, p) {
        None => Ok((lhs, p)),
        Some((op, q)) => match sp_relational(s, q) {
            Ok((rhs, q2)) => {
                proof {
                    lemma_spec_eq_op_bounds(s, p);
                    lemma_sp_relational_bounds(s, q);
                }
                sp_eq_fold(s, spec_binary(op, lhs, rhs), q2)
            },
            Err(er) => Err(er),
        },
    }
}

/// The equality fold only moves forward and stays inside the text; the
/// combined span stays inside the text when the left side's does.
pub proof fn lemma_sp_eq_fold_bounds(s: Seq<char>, lhs: SpecExpr, p: nat)
    ensures
        sp_eq_fold(s, lhs, p) matches Ok(v) ==> p <= v.1,
        p <= s.len() ==> (sp_eq_fold(s, lhs, p) matches Ok(v) ==> v.1 <= s.len()),
        s.len() <= usize::MAX && span_end(lhs.span) <= s.len() ==> (sp_eq_fold(s, lhs, p) matches
            Ok(v) ==> span_end(v.0.span) <= s.len()),
    decreases s.len() - p,
{
    match spec_eq_op(s, p) {
        None => {},
        Some((op, q)) => match sp_relational(s, q) {
            Ok((rhs, q2)) => {
                lemma_spec_eq_op_bounds(s, p);
                lemma_sp_relational_bounds(s, q);
                lemma_sp_eq_fold_bounds(s, spec_binary(op, lhs, rhs), q2);
            },
            Err(_) => {},
        },
    }
}

/// An equality-level expression: one relational-level operand, then a
/// left-associative fold of `==` and `!=`. This is the loosest level of
/// the precedence ladder, so it parses a whole operator expression.
pub open spec fn sp_equality(s: Seq<char>, p: nat) -> Result<(SpecExpr, nat), ParseError> {
    match sp_relational(s, p) {
        Ok((e, q)) => sp_eq_fold(s, e, q),
        Err(er) => Err(er),
    }
}

/// A parsed equality-level expression lies strictly inside the text, and
/// its span does too.
pub proof fn lemma_sp_equality_bounds(s: Seq<char>, p: nat)
    ensures
        sp_equality(s, p) matches Ok(v) ==> p < v.1 && v.1 <= s.len(),
        s.len() <= usize::MAX ==> (sp_equality(s, p) matches Ok(v) ==> span_end(v.0.span)
            <= s.len()),
{
    lemma_sp_relational_bounds(s, p);
    match sp_relational(s, p) {
        Ok((e, q)) => {
            lemma_sp_eq_fold_bounds(s, e, q);
        },
        Err(_) => {},
    }
}

/// One whole expression: the loosest level of the ladder.
pub open spec fn sp_expression(s: Seq<char>, p: nat) -> Result<(SpecExpr, nat), ParseError> {
    sp_equality(s, p)
}

/// What parsing one expression from the start of the source yields: the
/// tree, or the first fatal error.
pub open spec fn spec_parse(s: Seq<char>) -> Result<SpecExpr, ParseError> {
    match sp_expression(s, 0) {
        Ok((e, q)) => Ok(e),
        Err(er) => Err(er),
    }
}

} // verus!
