use ceylon::Span;
use ceylon::Token;
use ceylon::TokenKind;

#[test]
fn append_covers_both_spans() {
    let a = Span { start_pos: 4, len: 5 };
    let b = Span { start_pos: 13, len: 1 };
    let merged = a.append(b);
    assert_eq!(merged.start_pos, 4);
    assert_eq!(merged.len, 10);
}

#[test]
fn append_is_commutative() {
    let a = Span { start_pos: 2, len: 3 };
    let b = Span { start_pos: 0, len: 1 };
    assert_eq!(a.append(b), b.append(a));
}

#[test]
fn append_of_nested_spans_keeps_the_outer() {
    let outer = Span { start_pos: 0, len: 10 };
    let inner = Span { start_pos: 3, len: 2 };
    assert_eq!(outer.append(inner), outer);
}

#[test]
fn token_new_carries_kind_and_span() {
    let span = Span { start_pos: 7, len: 2 };
    let t = Token::new(TokenKind::Ident, span);
    assert_eq!(t.kind, TokenKind::Ident);
    assert_eq!(t.span, span);
}
