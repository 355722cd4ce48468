use ceylon::KwKind;
use ceylon::LitKind;
use ceylon::StringReader;
use ceylon::Token;
use ceylon::TokenKind;
use ceylon::first_token;
use ceylon::tokenize;

fn expect_kinds_and_lens(src: &str, expected: &[(TokenKind, usize)]) {
    let tokens = tokenize(src);
    assert_eq!(
        tokens.len(),
        expected.len(),
        "token count for {:?}: got {:?}",
        src,
        tokens
    );
    for (tok, (kind, len)) in tokens.iter().zip(expected.iter()) {
        assert_eq!(tok.kind, *kind, "kind in {:?}", src);
        assert_eq!(tok.span.start_pos, 0);
        assert_eq!(tok.span.len, *len, "length in {:?}", src);
    }
}

fn reader_tokens(src: &str) -> Vec<Token> {
    let mut tokens = Vec::new();
    let mut reader = StringReader::new(src);
    let mut token = reader.next_token();
    while token.kind != TokenKind::Eof {
        tokens.push(token);
        token = reader.next_token();
    }
    tokens.push(token);
    tokens
}

#[test]
fn test_all_tokens() {
    expect_kinds_and_lens(
        "// comment\n ;,.(){}[]@#~?:$=!<>-&|+*/^%",
        &[
            (TokenKind::LineComment, 10),
            (TokenKind::Whitespace, 2),
            (TokenKind::Semi, 1),
            (TokenKind::Comma, 1),
            (TokenKind::Dot, 1),
            (TokenKind::OpenParen, 1),
            (TokenKind::CloseParen, 1),
            (TokenKind::OpenBrace, 1),
            (TokenKind::CloseBrace, 1),
            (TokenKind::OpenBracket, 1),
            (TokenKind::CloseBracket, 1),
            (TokenKind::At, 1),
            (TokenKind::Pound, 1),
            (TokenKind::Tilde, 1),
            (TokenKind::Question, 1),
            (TokenKind::Colon, 1),
            (TokenKind::Dollar, 1),
            (TokenKind::Eq, 1),
            (TokenKind::Bang, 1),
            (TokenKind::Lt, 1),
            (TokenKind::Gt, 1),
            (TokenKind::Minus, 1),
            (TokenKind::And, 1),
            (TokenKind::Or, 1),
            (TokenKind::Plus, 1),
            (TokenKind::Star, 1),
            (TokenKind::Slash, 1),
            (TokenKind::Caret, 1),
            (TokenKind::Percent, 1),
        ],
    );
}

#[test]
fn test_textual_literal() {
    expect_kinds_and_lens(
        "'a''b''\\n''\\t''\\r'\"Hello\"\"//\"",
        &[
            (TokenKind::Literal { kind: LitKind::Char { terminated: true } }, 3),
            (TokenKind::Literal { kind: LitKind::Char { terminated: true } }, 3),
            (TokenKind::Literal { kind: LitKind::Char { terminated: true } }, 4),
            (TokenKind::Literal { kind: LitKind::Char { terminated: true } }, 4),
            (TokenKind::Literal { kind: LitKind::Char { terminated: true } }, 4),
            (TokenKind::Literal { kind: LitKind::Str { terminated: true } }, 7),
            (TokenKind::Literal { kind: LitKind::Str { terminated: true } }, 4),
        ],
    );
}

#[test]
fn test_unterminated_string_literal() {
    expect_kinds_and_lens(
        "\"",
        &[(TokenKind::Literal { kind: LitKind::Str { terminated: false } }, 1)],
    );
}

#[test]
fn test_unterminated_char_literal() {
    expect_kinds_and_lens(
        "'",
        &[(TokenKind::Literal { kind: LitKind::Char { terminated: false } }, 1)],
    );
}

#[test]
fn test_numerical_literal() {
    expect_kinds_and_lens(
        "0 1 638462071 3.141592",
        &[
            (TokenKind::Literal { kind: LitKind::Int }, 1),
            (TokenKind::Whitespace, 1),
            (TokenKind::Literal { kind: LitKind::Int }, 1),
            (TokenKind::Whitespace, 1),
            (TokenKind::Literal { kind: LitKind::Int }, 9),
            (TokenKind::Whitespace, 1),
            (TokenKind::Literal { kind: LitKind::Float }, 8),
        ],
    );
}

#[test]
fn test_method_access() {
    expect_kinds_and_lens(
        "10.foo() 2.72.foo()",
        &[
            (TokenKind::Literal { kind: LitKind::Int }, 2),
            (TokenKind::Dot, 1),
            (TokenKind::Ident, 3),
            (TokenKind::OpenParen, 1),
            (TokenKind::CloseParen, 1),
            (TokenKind::Whitespace, 1),
            (TokenKind::Literal { kind: LitKind::Float }, 4),
            (TokenKind::Dot, 1),
            (TokenKind::Ident, 3),
            (TokenKind::OpenParen, 1),
            (TokenKind::CloseParen, 1),
        ],
    );
}

#[test]
fn smoke_test() {
    expect_kinds_and_lens(
        "// my source file\nfunc main() -> void { println(\"Hello.\"); }\n",
        &[
            (TokenKind::LineComment, 17),
            (TokenKind::Whitespace, 1),
            (TokenKind::Ident, 4),
            (TokenKind::Whitespace, 1),
            (TokenKind::Ident, 4),
            (TokenKind::OpenParen, 1),
            (TokenKind::CloseParen, 1),
            (TokenKind::Whitespace, 1),
            (TokenKind::Minus, 1),
            (TokenKind::Gt, 1),
            (TokenKind::Whitespace, 1),
            (TokenKind::Ident, 4),
            (TokenKind::Whitespace, 1),
            (TokenKind::OpenBrace, 1),
            (TokenKind::Whitespace, 1),
            (TokenKind::Ident, 7),
            (TokenKind::OpenParen, 1),
            (TokenKind::Literal { kind: LitKind::Str { terminated: true } }, 8),
            (TokenKind::CloseParen, 1),
            (TokenKind::Semi, 1),
            (TokenKind::Whitespace, 1),
            (TokenKind::CloseBrace, 1),
            (TokenKind::Whitespace, 1),
        ],
    );
}

#[test]
fn test_string_reader() {
    let tokens = reader_tokens("// my source file\nfunc main() -> void { println(\"Hello.\"); }\n");
    let expected: Vec<(TokenKind, usize, usize)> = vec![
        (TokenKind::Ident, 18, 4),
        (TokenKind::Ident, 23, 4),
        (TokenKind::OpenParen, 27, 1),
        (TokenKind::CloseParen, 28, 1),
        (TokenKind::Minus, 30, 1),
        (TokenKind::Gt, 31, 1),
        (TokenKind::Keyword { kind: KwKind::Void }, 33, 4),
        (TokenKind::OpenBrace, 38, 1),
        (TokenKind::Ident, 40, 7),
        (TokenKind::OpenParen, 47, 1),
        (TokenKind::Literal { kind: LitKind::Str { terminated: true } }, 48, 8),
        (TokenKind::CloseParen, 56, 1),
        (TokenKind::Semi, 57, 1),
        (TokenKind::CloseBrace, 59, 1),
        (TokenKind::Eof, 61, 0),
    ];
    assert_eq!(tokens.len(), expected.len(), "got {:?}", tokens);
    for (tok, (kind, start, len)) in tokens.iter().zip(expected.iter()) {
        assert_eq!(tok.kind, *kind);
        assert_eq!(tok.span.start_pos, *start);
        assert_eq!(tok.span.len, *len);
    }
}

#[test]
fn test_keyword() {
    let tokens = reader_tokens("i64 u64 char str bool void if main");
    let expected: Vec<(TokenKind, usize, usize)> = vec![
        (TokenKind::Keyword { kind: KwKind::I64 }, 0, 3),
        (TokenKind::Keyword { kind: KwKind::U64 }, 4, 3),
        (TokenKind::Keyword { kind: KwKind::Char }, 8, 4),
        (TokenKind::Keyword { kind: KwKind::Str }, 13, 3),
        (TokenKind::Keyword { kind: KwKind::Bool }, 17, 4),
        (TokenKind::Keyword { kind: KwKind::Void }, 22, 4),
        (TokenKind::Keyword { kind: KwKind::If }, 27, 2),
        (TokenKind::Ident, 30, 4),
        (TokenKind::Eof, 34, 0),
    ];
    assert_eq!(tokens.len(), expected.len(), "got {:?}", tokens);
    for (tok, (kind, start, len)) in tokens.iter().zip(expected.iter()) {
        assert_eq!(tok.kind, *kind);
        assert_eq!(tok.span.start_pos, *start);
        assert_eq!(tok.span.len, *len);
    }
}

#[test]
fn keyword_prefix_stays_ident() {
    let tokens = reader_tokens("iff");
    assert_eq!(tokens.len(), 2);
    assert_eq!(tokens[0].kind, TokenKind::Ident);
    assert_eq!(tokens[0].span.len, 3);
    assert_eq!(tokens[1].kind, TokenKind::Eof);
}

#[test]
fn reader_skips_comments_and_whitespace() {
    let tokens = reader_tokens("// c\n  x");
    assert_eq!(tokens.len(), 2, "got {:?}", tokens);
    assert_eq!(tokens[0].kind, TokenKind::Ident);
    assert_eq!(tokens[0].span.start_pos, 7);
    assert_eq!(tokens[0].span.len, 1);
    assert_eq!(tokens[1].kind, TokenKind::Eof);
    assert_eq!(tokens[1].span.start_pos, 8);
    assert_eq!(tokens[1].span.len, 0);
}

#[test]
fn reader_eof_is_idempotent() {
    let mut reader = StringReader::new("x  ");
    let first = reader.next_token();
    assert_eq!(first.kind, TokenKind::Ident);
    let eof1 = reader.next_token();
    let eof2 = reader.next_token();
    let eof3 = reader.next_token();
    assert_eq!(eof1.kind, TokenKind::Eof);
    assert_eq!(eof1, eof2);
    assert_eq!(eof2, eof3);
    assert_eq!(eof1.span.start_pos, 3);
    assert_eq!(eof1.span.len, 0);
}

#[test]
fn tokens_tile_the_source() {
    let src = "// my source file\nfunc main() -> void { println(\"Hello.\"); }\n";
    let total: usize = tokenize(src).iter().map(|t| t.span.len).sum();
    assert_eq!(total, src.chars().count());

    let src2 = "'a'\"unterminated";
    let total2: usize = tokenize(src2).iter().map(|t| t.span.len).sum();
    assert_eq!(total2, src2.chars().count());
}

#[test]
fn trailing_dot_without_digits_is_float() {
    let tokens = tokenize("10.");
    assert_eq!(tokens.len(), 1);
    assert_eq!(tokens[0].kind, TokenKind::Literal { kind: LitKind::Float });
    assert_eq!(tokens[0].span.len, 3);
}

#[test]
fn char_literal_stops_before_comment() {
    // An unterminated character literal does not swallow a trailing comment.
    let tokens = tokenize("'x //");
    assert_eq!(
        tokens[0].kind,
        TokenKind::Literal { kind: LitKind::Char { terminated: false } }
    );
    assert_eq!(tokens[0].span.len, 3);
    assert_eq!(tokens[1].kind, TokenKind::LineComment);
}

#[test]
fn span_to_str_extracts_text() {
    let src = "num + 12";
    let mut reader = StringReader::new(src);
    let t1 = reader.next_token();
    assert_eq!(reader.span_to_str(&t1.span), "num");
    let t2 = reader.next_token();
    assert_eq!(reader.span_to_str(&t2.span), "+");
    let t3 = reader.next_token();
    assert_eq!(reader.span_to_str(&t3.span), "12");
}

#[test]
fn quoted_to_str_strips_delimiters() {
    let src = "\"Hello\"";
    let mut reader = StringReader::new(src);
    let t = reader.next_token();
    assert_eq!(
        t.kind,
        TokenKind::Literal { kind: LitKind::Str { terminated: true } }
    );
    assert_eq!(reader.quoted_to_str(&t.span), "Hello");
}

#[test]
fn first_token_reports_length_only() {
    let t = first_token("ident rest");
    assert_eq!(t.kind, TokenKind::Ident);
    assert_eq!(t.span.start_pos, 0);
    assert_eq!(t.span.len, 5);
}

#[test]
fn unknown_character_is_one_token() {
    let tokens = tokenize("`");
    assert_eq!(tokens.len(), 1);
    assert_eq!(tokens[0].kind, TokenKind::Unknown);
    assert_eq!(tokens[0].span.len, 1);
}
