use vstd::prelude::*;
use crate::ast::BinOp;
use crate::ast::Expr;
use crate::ast::ExprKind;
use crate::ast::LiteralKind;
use crate::errors::ParseError;
use crate::errors::ParseErrorKind;
use crate::lit::parse_u128_digits;
use crate::lit::spec_literal_expr;
use crate::lit::unescape;
use crate::parse_spec::lemma_sp_add_bounds;
use crate::parse_spec::lemma_sp_mul_bounds;
use crate::parse_spec::lemma_sp_relational_bounds;
use crate::parse_spec::lemma_sp_unary_bounds;
use crate::parse_spec::sp_add;
use crate::parse_spec::sp_add_fold;
use crate::parse_spec::sp_eq_fold;
use crate::parse_spec::sp_equality;
use crate::parse_spec::sp_expression;
use crate::parse_spec::sp_mul;
use crate::parse_spec::sp_mul_fold;
use crate::parse_spec::sp_primary;
use crate::parse_spec::sp_rel_fold;
use crate::parse_spec::sp_relational;
use crate::parse_spec::sp_unary;
use crate::parse_spec::spec_add_op;
use crate::parse_spec::spec_binary;
use crate::parse_spec::spec_eq_op;
use crate::parse_spec::spec_mul_op;
use crate::parse_spec::spec_parse;
use crate::parse_spec::spec_rel_op;
use crate::span::span_end;
use crate::reader::StringReader;
use crate::reader::lemma_next_token_bounds;
use crate::reader::lemma_next_token_props;
use crate::reader::spec_next_token;
use crate::token::LitKind;
use crate::token::Token;
use crate::token::TokenKind;

verus! {

/// The expression parser: a precedence-climbing consumer of the token
/// stream, with two tokens of lookahead because the operators `==`, `!=`,
/// `<=` and `>=` are two adjacent single-character tokens.
pub struct Parser<'a> {
    /// The current token.
    token: Token,
    /// The token after the current one.
    ahead: Token,
    reader: StringReader<'a>,
    /// The absolute character position where the current token's scan
    /// started.
    gp: Ghost<nat>,
}

impl<'a> Parser<'a> {
    /// The characters of the source this session parses.
    pub closed spec fn src(&self) -> Seq<char> {
        self.reader.spec_src()
    }

    /// The absolute character position where the scan of the current token
    /// started.
    pub closed spec fn pos(&self) -> nat {
        self.gp@
    }

    /// The parser is a faithful window onto the token stream: the current
    /// and following tokens are what the next-token relation yields at the
    /// tracked position, and the reader stands after both.
    pub closed spec fn wf(&self) -> bool {
        let s = self.reader.spec_src();
        let d0 = spec_next_token(s, self.gp@).1;
        let d1 = spec_next_token(s, (self.gp@ + d0) as nat).1;
        &&& self.reader.wf()
        &&& s.len() <= usize::MAX
        &&& self.gp@ <= s.len()
        &&& self.token == spec_next_token(s, self.gp@).0
        &&& self.ahead == spec_next_token(s, (self.gp@ + d0) as nat).0
        &&& self.reader.spec_pos() == self.gp@ + d0 + d1
    }

    /// Starts a parse session over `s`: a reader is created and the
    /// two-token lookahead window is filled.
    pub fn new(s: &'a str) -> (p: Parser<'a>)
        ensures
            p.wf(),
            p.src() == s@,
            p.pos() == 0,
    {
        let mut reader = StringReader::new(s);
        proof {
            lemma_next_token_bounds(s@, 0);
        }
        let token = reader.next_token();
        proof {
            lemma_next_token_bounds(s@, spec_next_token(s@, 0).1);
        }
        let ahead = reader.next_token();
        Parser { token, ahead, reader, gp: Ghost(0nat) }
    }

    /// Advances the window one token: the current token is dropped, the
    /// lookahead becomes current, and one more token is read.
    fn bump(&mut self)
        requires
            old(self).wf(),
        ensures
            final(self).wf(),
            final(self).src() == old(self).src(),
            final(self).pos() == old(self).pos() + spec_next_token(
                old(self).src(),
                old(self).pos(),
            ).1,
    {
        let ghost s = self.reader.spec_src();
        let ghost d0 = spec_next_token(s, self.gp@).1;
        let ghost d1 = spec_next_token(s, (self.gp@ + d0) as nat).1;
        proof {
            lemma_next_token_bounds(s, self.gp@);
            lemma_next_token_bounds(s, (self.gp@ + d0) as nat);
            lemma_next_token_bounds(s, (self.gp@ + d0 + d1) as nat);
        }
        self.token = self.ahead;
        self.ahead = self.reader.next_token();
        self.gp = Ghost((self.gp@ + d0) as nat);
    }

    /// Converts the current literal token into a literal expression node,
    /// or reports the fatal error it raises: an out-of-range integer, an
    /// unterminated literal, or a character literal that does not unescape
    /// to exactly one character.
    fn to_ast_literal(&self, t: Token) -> (r: Result<Expr, ParseError>)
        requires
            self.wf(),
            t == spec_next_token(self.src(), self.pos()).0,
            t.kind matches TokenKind::Literal { .. },
        ensures
            match spec_literal_expr(self.src(), t) {
                Ok(se) => r matches Ok(e) && e@ == se,
                Err(er) => r == Err::<Expr, ParseError>(er),
            },
    {
        proof {
            lemma_next_token_props(self.reader.spec_src(), self.gp@);
        }
        match t.kind {
            TokenKind::Literal { kind: LitKind::Int } => {
                let text = self.reader.span_to_str(&t.span);
                match parse_u128_digits(text) {
                    Some(v) => Ok(
                        Expr { kind: ExprKind::Literal(LiteralKind::Int(v)), span: t.span },
                    ),
                    None => Err(ParseError { kind: ParseErrorKind::IntOutOfRange, span: t.span }),
                }
            },
            TokenKind::Literal { kind: LitKind::Float } => {
                let text = self.reader.span_to_str(&t.span);
                Ok(
                    Expr {
                        kind: ExprKind::Literal(LiteralKind::Float(String::from_str(text))),
                        span: t.span,
                    },
                )
            },
            TokenKind::Literal { kind: LitKind::Char { terminated } } => {
                if !terminated {
                    Err(ParseError { kind: ParseErrorKind::UnterminatedLiteral, span: t.span })
                } else {
                    let quoted = self.reader.quoted_to_str(&t.span);
                    let unescaped = unescape(quoted);
                    if unescaped.as_str().unicode_len() == 1 {
                        let c = unescaped.as_str().get_char(0);
                        Ok(Expr { kind: ExprKind::Literal(LiteralKind::Char(c)), span: t.span })
                    } else {
                        Err(ParseError { kind: ParseErrorKind::CharNotSingle, span: t.span })
                    }
                }
            },
            TokenKind::Literal { kind: LitKind::Str { terminated } } => {
                if !terminated {
                    Err(ParseError { kind: ParseErrorKind::UnterminatedLiteral, span: t.span })
                } else {
                    let quoted = self.reader.quoted_to_str(&t.span);
                    Ok(
                        Expr {
                            kind: ExprKind::Literal(LiteralKind::Str(unescape(quoted))),
                            span: t.span,
                        },
                    )
                }
            },
            _ => {
                proof {
                    assert(false);
                }
                Err(ParseError { kind: ParseErrorKind::ExpectedOperand, span: t.span })
            },
        }
    }

    /// A primary expression: the current token must be a literal, which is
    /// converted and consumed; any other token here is a fatal error.
    fn parse_primary(&mut self) -> (r: Result<Expr, ParseError>)
        requires
            old(self).wf(),
        ensures
            final(self).wf(),
            final(self).src() == old(self).src(),
            match sp_primary(old(self).src(), old(self).pos()) {
                Ok(v) => r matches Ok(e) && e@ == v.0 && final(self).pos() == v.1,
                Err(er) => r matches Err(e2) && e2 == er,
            },
    {
        match self.token.kind {
            TokenKind::Literal { kind: _ } => {
                let converted = self.to_ast_literal(self.token);
                match converted {
                    Ok(e) => {
                        self.bump();
                        Ok(e)
                    },
                    Err(er) => Err(er),
                }
            },
            _ => Err(ParseError { kind: ParseErrorKind::ExpectedOperand, span: self.token.span }),
        }
    }

    /// A unary-level expression: a prefix `+` is consumed and discarded;
    /// the prefix operators `-` and `!` are not yet wired into the
    /// expression grammar and raise a fatal error; anything else falls
    /// through to the primary expression.
    fn parse_unary(&mut self) -> (r: Result<Expr, ParseError>)
        requires
            old(self).wf(),
        ensures
            final(self).wf(),
            final(self).src() == old(self).src(),
            match sp_unary(old(self).src(), old(self).pos()) {
                Ok(v) => r matches Ok(e) && e@ == v.0 && final(self).pos() == v.1,
                Err(er) => r matches Err(e2) && e2 == er,
            },
    {
        match self.token.kind {
            TokenKind::Plus => {
                self.bump();
                self.parse_primary()
            },
            TokenKind::Minus => Err(
                ParseError { kind: ParseErrorKind::UnsupportedUnary, span: self.token.span },
            ),
            TokenKind::Bang => Err(
                ParseError { kind: ParseErrorKind::UnsupportedUnary, span: self.token.span },
            ),
            _ => self.parse_primary(),
        }
    }

    /// A multiplicative-level expression: one unary-level operand, then a
    /// left-associative fold of `*` and `/`.
    #[verifier::loop_isolation(false)]
    fn parse_mul(&mut self) -> (r: Result<Expr, ParseError>)
        requires
            old(self).wf(),
        ensures
            final(self).wf(),
            final(self).src() == old(self).src(),
            match sp_mul(old(self).src(), old(self).pos()) {
                Ok(v) => r matches Ok(e) && e@ == v.0 && final(self).pos() == v.1,
                Err(er) => r matches Err(e2) && e2 == er,
            },
    {
        let ghost s = self.reader.spec_src();
        let ghost p0 = self.gp@;
        let mut expr = match self.parse_unary() {
            Ok(e) => e,
            Err(er) => {
                return Err(er);
            },
        };
        proof {
            lemma_sp_unary_bounds(s, p0);
        }
        loop
            invariant
                self.wf(),
                self.reader.spec_src() == s,
                sp_mul(s, p0) == sp_mul_fold(s, expr@, self.gp@),
                span_end(expr.span) <= s.len(),
            decreases s.len() - self.gp@,
        {
            let binop = match self.token.kind {
                TokenKind::Star => BinOp::Mul,
                TokenKind::Slash => BinOp::Div,
                _ => {
                    proof {
                        assert(spec_mul_op(s, self.gp@) is None);
                    }
                    return Ok(expr);
                },
            };
            let ghost p_before = self.gp@;
            proof {
                lemma_next_token_bounds(s, self.gp@);
            }
            self.bump();
            proof {
                assert(spec_mul_op(s, p_before) == Some((binop, self.gp@)));
            }
            let ghost q = self.gp@;
            let rhs = match self.parse_unary() {
                Ok(e) => e,
                Err(er) => {
                    return Err(er);
                },
            };
            proof {
                lemma_sp_unary_bounds(s, q);
            }
            let span = expr.span.append(rhs.span);
            let ghost old_expr = expr@;
            expr = Expr::new(ExprKind::Binary(binop, Box::new(expr), Box::new(rhs)), span);
            proof {
                assert(expr@ == spec_binary(binop, old_expr, rhs@));
            }
        }
    }

    /// An additive-level expression: one multiplicative-level operand,
    /// then a left-associative fold of `+` and `-`.
    #[verifier::loop_isolation(false)]
    fn parse_add(&mut self) -> (r: Result<Expr, ParseError>)
        requires
            old(self).wf(),
        ensures
            final(self).wf(),
            final(self).src() == old(self).src(),
            match sp_add(old(self).src(), old(self).pos()) {
                Ok(v) => r matches Ok(e) && e@ == v.0 && final(self).pos() == v.1,
                Err(er) => r matches Err(e2) && e2 == er,
            },
    {
        let ghost s = self.reader.spec_src();
        let ghost p0 = self.gp@;
        let mut expr = match self.parse_mul() {
            Ok(e) => e,
            Err(er) => {
                return Err(er);
            },
        };
        proof {
            lemma_sp_mul_bounds(s, p0);
        }
        loop
            invariant
                self.wf(),
                self.reader.spec_src() == s,
                sp_add(s, p0) == sp_add_fold(s, expr@, self.gp@),
                span_end(expr.span) <= s.len(),
            decreases s.len() - self.gp@,
        {
            let binop = match self.token.kind {
                TokenKind::Plus => BinOp::Add,
                TokenKind::Minus => BinOp::Sub,
                _ => {
                    proof {
                        assert(spec_add_op(s, self.gp@) is None);
                    }
                    return Ok(expr);
                },
            };
            let ghost p_before = self.gp@;
            proof {
                lemma_next_token_bounds(s, self.gp@);
            }
            self.bump();
            proof {
                assert(spec_add_op(s, p_before) == Some((binop, self.gp@)));
            }
            let ghost q = self.gp@;
            let rhs = match self.parse_mul() {
                Ok(e) => e,
                Err(er) => {
                    return Err(er);
                },
            };
            proof {
                lemma_sp_mul_bounds(s, q);
            }
            let span = expr.span.append(rhs.span);
            let ghost old_expr = expr@;
            expr = Expr::new(ExprKind::Binary(binop, Box::new(expr), Box::new(rhs)), span);
            proof {
                assert(expr@ == spec_binary(binop, old_expr, rhs@));
            }
        }
    }

    /// A relational-level expression: one additive-level operand, then a
    /// left-associative fold of `<`, `>`, `<=` and `>=`. The two-character
    /// operators are a `<` or `>` token with a `=` token immediately
    /// adjacent to it.
    #[verifier::loop_isolation(false)]
    fn parse_relational(&mut self) -> (r: Result<Expr, ParseError>)
        requires
            old(self).wf(),
        ensures
            final(self).wf(),
            final(self).src() == old(self).src(),
            match sp_relational(old(self).src(), old(self).pos()) {
                Ok(v) => r matches Ok(e) && e@ == v.0 && final(self).pos() == v.1,
                Err(er) => r matches Err(e2) && e2 == er,
            },
    {
        let ghost s = self.reader.spec_src();
        let ghost p0 = self.gp@;
        let mut expr = match self.parse_add() {
            Ok(e) => e,
            Err(er) => {
                return Err(er);
            },
        };
        proof {
            lemma_sp_add_bounds(s, p0);
        }
        loop
            invariant
                self.wf(),
                self.reader.spec_src() == s,
                sp_relational(s, p0) == sp_rel_fold(s, expr@, self.gp@),
                span_end(expr.span) <= s.len(),
            decreases s.len() - self.gp@,
        {
            let is_lt = matches!(self.token.kind, TokenKind::Lt);
            let is_gt = matches!(self.token.kind, TokenKind::Gt);
            if !is_lt && !is_gt {
                proof {
                    assert(spec_rel_op(s, self.gp@) is None);
                }
                return Ok(expr);
            }
            proof {
                lemma_next_token_props(s, self.gp@);
                lemma_next_token_bounds(s, self.gp@);
            }
            let adjacent = self.ahead.span.start_pos == self.token.span.start_pos
                + self.token.span.len;
            let two = adjacent && matches!(self.ahead.kind, TokenKind::Eq);
            let binop = if is_lt {
                if two {
                    BinOp::Le
                } else {
                    BinOp::Lt
                }
            } else {
                if two {
                    BinOp::Ge
                } else {
                    BinOp::Gt
                }
            };
            let ghost p_before = self.gp@;
            self.bump();
            if two {
                self.bump();
            }
            proof {
                assert(spec_rel_op(s, p_before) == Some((binop, self.gp@)));
            }
            let ghost q = self.gp@;
            let rhs = match self.parse_add() {
                Ok(e) => e,
                Err(er) => {
                    return Err(er);
                },
            };
            proof {
                lemma_sp_add_bounds(s, q);
            }
            let span = expr.span.append(rhs.span);
            let ghost old_expr = expr@;
            expr = Expr::new(ExprKind::Binary(binop, Box::new(expr), Box::new(rhs)), span);
            proof {
                assert(expr@ == spec_binary(binop, old_expr, rhs@));
            }
        }
    }

    /// An equality-level expression: one relational-level operand, then a
    /// left-associative fold of `==` and `!=`, each two adjacent
    /// single-character tokens. This is the loosest level of the ladder.
    #[verifier::loop_isolation(false)]
    fn parse_equality(&mut self) -> (r: Result<Expr, ParseError>)
        requires
            old(self).wf(),
        ensures
            final(self).wf(),
            final(self).src() == old(self).src(),
            match sp_equality(old(self).src(), old(self).pos()) {
                Ok(v) => r matches Ok(e) && e@ == v.0 && final(self).pos() == v.1,
                Err(er) => r matches Err(e2) && e2 == er,
            },
    {
        let ghost s = self.reader.spec_src();
        let ghost p0 = self.gp@;
        let mut expr = match self.parse_relational() {
            Ok(e) => e,
            Err(er) => {
                return Err(er);
            },
        };
        proof {
            lemma_sp_relational_bounds(s, p0);
        }
        loop
            invariant
                self.wf(),
                self.reader.spec_src() == s,
                sp_equality(s, p0) == sp_eq_fold(s, expr@, self.gp@),
                span_end(expr.span) <= s.len(),
            decreases s.len() - self.gp@,
        {
            let is_eq = matches!(self.token.kind, TokenKind::Eq);
            let is_bang = matches!(self.token.kind, TokenKind::Bang);
            if !is_eq && !is_bang {
                proof {
                    assert(spec_eq_op(s, self.gp@) is None);
                }
                return Ok(expr);
            }
            proof {
                lemma_next_token_props(s, self.gp@);
                lemma_next_token_bounds(s, self.gp@);
            }
            let adjacent = self.ahead.span.start_pos == self.token.span.start_pos
                + self.token.span.len;
            let two = adjacent && matches!(self.ahead.kind, TokenKind::Eq);
            if !two {
                proof {
                    assert(spec_eq_op(s, self.gp@) is None);
                }
                return Ok(expr);
            }
            let binop = if is_eq {
                BinOp::Eq
            } else {
                BinOp::Ne
            };
            let ghost p_before = self.gp@;
            self.bump();
            self.bump();
            proof {
                assert(spec_eq_op(s, p_before) == Some((binop, self.gp@)));
            }
            let ghost q = self.gp@;
            let rhs = match self.parse_relational() {
                Ok(e) => e,
                Err(er) => {
                    return Err(er);
                },
            };
            proof {
                lemma_sp_relational_bounds(s, q);
            }
            let span = expr.span.append(rhs.span);
            let ghost old_expr = expr@;
            expr = Expr::new(ExprKind::Binary(binop, Box::new(expr), Box::new(rhs)), span);
            proof {
                assert(expr@ == spec_binary(binop, old_expr, rhs@));
            }
        }
    }

    /// An operator expression: the precedence ladder from its loosest
    /// level.
    fn parse_operator_expression(&mut self) -> (r: Result<Expr, ParseError>)
        requires
            old(self).wf(),
        ensures
            final(self).wf(),
            final(self).src() == old(self).src(),
            match sp_expression(old(self).src(), old(self).pos()) {
                Ok(v) => r matches Ok(e) && e@ == v.0 && final(self).pos() == v.1,
                Err(er) => r matches Err(e2) && e2 == er,
            },
    {
        self.parse_equality()
    }

    /// Parses one whole expression from the parser's current position.
    pub fn parse_expression(&mut self) -> (r: Result<Expr, ParseError>)
        requires
            old(self).wf(),
        ensures
            final(self).wf(),
            final(self).src() == old(self).src(),
            match sp_expression(old(self).src(), old(self).pos()) {
                Ok(v) => r matches Ok(e) && e@ == v.0 && final(self).pos() == v.1,
                Err(er) => r matches Err(e2) && e2 == er,
            },
    {
        self.parse_operator_expression()
    }
}

/// Parses one expression from the start of `src`: the completed tree, or
/// the first fatal error with its failing span and cause.
pub fn parse(src: &str) -> (r: Result<Expr, ParseError>)
    ensures
        match spec_parse(src@) {
            Ok(se) => r matches Ok(e) && e@ == se,
            Err(er) => r matches Err(e2) && e2 == er,
        },
{
    let mut parser = Parser::new(src);
    parser.parse_expression()
}

} // verus!
