use ceylon::BinOp;
use ceylon::Expr;
use ceylon::ExprKind;
use ceylon::LiteralKind;
use ceylon::ParseError;
use ceylon::ParseErrorKind;
use ceylon::parse;
use ceylon::parse_u128_digits;
use ceylon::unescape;

fn as_binary(e: &Expr) -> (BinOp, &Expr, &Expr) {
    match &e.kind {
        ExprKind::Binary(op, l, r) => (*op, l, r),
        other => panic!("expected a binary node, got {:?}", other),
    }
}

fn as_int(e: &Expr) -> u128 {
    match &e.kind {
        ExprKind::Literal(LiteralKind::Int(v)) => *v,
        other => panic!("expected an integer literal, got {:?}", other),
    }
}

fn expect_span(e: &Expr, start: usize, len: usize) {
    assert_eq!(e.span.start_pos, start);
    assert_eq!(e.span.len, len);
}

#[test]
fn test_parse_integer() {
    let e = parse("123456").unwrap();
    assert_eq!(as_int(&e), 123456);
    expect_span(&e, 0, 6);
}

#[test]
fn test_parse_float() {
    let e = parse("3.141592").unwrap();
    match &e.kind {
        ExprKind::Literal(LiteralKind::Float(text)) => {
            assert_eq!(text, "3.141592");
            assert_eq!(text.parse::<f64>().unwrap(), 3.141592_f64);
        }
        other => panic!("expected a float literal, got {:?}", other),
    }
    expect_span(&e, 0, 8);
}

#[test]
fn test_parse_equality() {
    // 1 + 2 * 3 == 6  parses as  ((1 + (2 * 3)) == 6).
    let e = parse("1 + 2 * 3 == 6").unwrap();
    expect_span(&e, 0, 14);
    let (op, lhs, rhs) = as_binary(&e);
    assert_eq!(op, BinOp::Eq);
    assert_eq!(as_int(rhs), 6);
    expect_span(rhs, 13, 1);
    expect_span(lhs, 0, 9);
    let (op2, one, mul) = as_binary(lhs);
    assert_eq!(op2, BinOp::Add);
    assert_eq!(as_int(one), 1);
    expect_span(one, 0, 1);
    expect_span(mul, 4, 5);
    let (op3, two, three) = as_binary(mul);
    assert_eq!(op3, BinOp::Mul);
    assert_eq!(as_int(two), 2);
    expect_span(two, 4, 1);
    assert_eq!(as_int(three), 3);
    expect_span(three, 8, 1);
}

#[test]
fn multiplication_is_left_associative() {
    // 1 * 2 * 3  parses as  ((1 * 2) * 3).
    let e = parse("1 * 2 * 3").unwrap();
    expect_span(&e, 0, 9);
    let (op, lhs, rhs) = as_binary(&e);
    assert_eq!(op, BinOp::Mul);
    assert_eq!(as_int(rhs), 3);
    let (op2, one, two) = as_binary(lhs);
    assert_eq!(op2, BinOp::Mul);
    assert_eq!(as_int(one), 1);
    assert_eq!(as_int(two), 2);
    expect_span(lhs, 0, 5);
}

#[test]
fn relational_operators_parse() {
    let e = parse("1 < 2").unwrap();
    let (op, _, _) = as_binary(&e);
    assert_eq!(op, BinOp::Lt);

    let e = parse("1 <= 2").unwrap();
    let (op, _, _) = as_binary(&e);
    assert_eq!(op, BinOp::Le);

    let e = parse("1 > 2").unwrap();
    let (op, _, _) = as_binary(&e);
    assert_eq!(op, BinOp::Gt);

    let e = parse("1 >= 2").unwrap();
    let (op, _, _) = as_binary(&e);
    assert_eq!(op, BinOp::Ge);

    let e = parse("1 != 2").unwrap();
    let (op, _, _) = as_binary(&e);
    assert_eq!(op, BinOp::Ne);

    let e = parse("1 - 2").unwrap();
    let (op, _, _) = as_binary(&e);
    assert_eq!(op, BinOp::Sub);

    let e = parse("1 / 2").unwrap();
    let (op, _, _) = as_binary(&e);
    assert_eq!(op, BinOp::Div);
}

#[test]
fn separated_equals_do_not_form_an_operator() {
    // `= =` with a space between is not `==`: the fold stops after `1`.
    let e = parse("1 = = 2").unwrap();
    assert_eq!(as_int(&e), 1);
}

#[test]
fn prefix_plus_is_discarded() {
    let e = parse("+5").unwrap();
    assert_eq!(as_int(&e), 5);
    expect_span(&e, 1, 1);
}

#[test]
fn string_literal_unescapes_newline() {
    let e = parse("\"Hello\\n\"").unwrap();
    match &e.kind {
        ExprKind::Literal(LiteralKind::Str(text)) => {
            assert_eq!(text, "Hello\n");
        }
        other => panic!("expected a string literal, got {:?}", other),
    }
}

#[test]
fn string_literal_keeps_backslash_t() {
    let e = parse("\"a\\tb\"").unwrap();
    match &e.kind {
        ExprKind::Literal(LiteralKind::Str(text)) => {
            assert_eq!(text, "a\\tb");
        }
        other => panic!("expected a string literal, got {:?}", other),
    }
}

#[test]
fn char_literal_unescapes_quote() {
    let e = parse("'\\''").unwrap();
    match &e.kind {
        ExprKind::Literal(LiteralKind::Char(c)) => {
            assert_eq!(*c, '\'');
        }
        other => panic!("expected a character literal, got {:?}", other),
    }
}

#[test]
fn unterminated_string_is_a_parse_error() {
    let err = parse("\"abc").unwrap_err();
    assert_eq!(err.kind, ParseErrorKind::UnterminatedLiteral);
    assert_eq!(err.span.start_pos, 0);
    assert_eq!(err.span.len, 4);
}

#[test]
fn unterminated_char_is_a_parse_error() {
    let err = parse("'a").unwrap_err();
    assert_eq!(err.kind, ParseErrorKind::UnterminatedLiteral);
}

#[test]
fn wide_char_literal_is_a_parse_error() {
    let err = parse("'ab'").unwrap_err();
    assert_eq!(err.kind, ParseErrorKind::CharNotSingle);
}

#[test]
fn oversized_integer_is_a_parse_error() {
    // One more than the largest unsigned 128-bit value.
    let err = parse("340282366920938463463374607431768211456").unwrap_err();
    assert_eq!(err.kind, ParseErrorKind::IntOutOfRange);
    assert_eq!(err.span.start_pos, 0);
    assert_eq!(err.span.len, 39);
}

#[test]
fn largest_integer_parses() {
    let e = parse("340282366920938463463374607431768211455").unwrap();
    assert_eq!(as_int(&e), u128::MAX);
}

#[test]
fn prefix_minus_is_unsupported() {
    let err = parse("-1").unwrap_err();
    assert_eq!(err.kind, ParseErrorKind::UnsupportedUnary);
    assert_eq!(err.span.start_pos, 0);
    assert_eq!(err.span.len, 1);
}

#[test]
fn prefix_bang_is_unsupported() {
    let err = parse("!1").unwrap_err();
    assert_eq!(err.kind, ParseErrorKind::UnsupportedUnary);
}

#[test]
fn non_literal_operand_is_a_parse_error() {
    let err = parse("(1)").unwrap_err();
    assert_eq!(err.kind, ParseErrorKind::ExpectedOperand);
}

#[test]
fn empty_input_is_a_parse_error() {
    let err = parse("").unwrap_err();
    assert_eq!(err.kind, ParseErrorKind::ExpectedOperand);
    assert_eq!(err.span.start_pos, 0);
    assert_eq!(err.span.len, 0);
}

#[test]
fn missing_right_operand_is_a_parse_error() {
    let err = parse("1 +").unwrap_err();
    assert_eq!(err.kind, ParseErrorKind::ExpectedOperand);
}

#[test]
fn error_messages_name_the_cause() {
    let err = |kind: ParseErrorKind| ParseError {
        kind,
        span: ceylon::Span { start_pos: 0, len: 0 },
    };
    assert_eq!(
        err(ParseErrorKind::UnterminatedLiteral).message(),
        "unterminated literal"
    );
    assert_eq!(
        err(ParseErrorKind::IntOutOfRange).message(),
        "integer literal out of range"
    );
    assert_eq!(
        err(ParseErrorKind::CharNotSingle).message(),
        "character literal is not a single character"
    );
    assert_eq!(
        err(ParseErrorKind::UnsupportedUnary).message(),
        "unsupported unary operator"
    );
    assert_eq!(
        err(ParseErrorKind::ExpectedOperand).message(),
        "expected a literal operand"
    );
}

#[test]
fn parse_u128_digits_reads_decimal() {
    assert_eq!(parse_u128_digits("0"), Some(0));
    assert_eq!(parse_u128_digits("123"), Some(123));
    assert_eq!(
        parse_u128_digits("340282366920938463463374607431768211455"),
        Some(u128::MAX)
    );
    assert_eq!(parse_u128_digits("340282366920938463463374607431768211456"), None);
    assert_eq!(parse_u128_digits("12a"), None);
    assert_eq!(parse_u128_digits(""), None);
}

#[test]
fn unescape_substitutes_pairs() {
    assert_eq!(unescape("Hello\\n"), "Hello\n");
    assert_eq!(unescape("a\\rb"), "a\rb");
    assert_eq!(unescape("\\t"), "\\t");
    assert_eq!(unescape("\\\""), "\"");
    assert_eq!(unescape("\\'"), "'");
    assert_eq!(unescape("a\\"), "a\\");
    assert_eq!(unescape("\\x"), "\\x");
    assert_eq!(unescape(""), "");
}
