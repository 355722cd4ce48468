use vstd::prelude::*;
use crate::chars::CharClass;
use crate::chars::char_at;
use crate::chars::lemma_run_len_le;
use crate::chars::run_len;
use crate::chars::spec_is_digit;
use crate::chars::spec_is_id_start;
use crate::chars::spec_is_whitespace;
use crate::chars::is_digit;
use crate::chars::is_id_start;
use crate::chars::is_whitespace;
use crate::cursor::Cursor;
use crate::span::Span;
use crate::token::LitKind;
use crate::token::Token;
use crate::token::TokenKind;

verus! {

/// The structural token produced by one punctuation character, or `Unknown`
/// for a character outside the token grammar.
pub open spec fn punct_kind(c: char) -> TokenKind {
    if c == ';' {
        TokenKind::Semi
    } else if c == ',' {
        TokenKind::Comma
    } else if c == '.' {
        TokenKind::Dot
    } else if c == '(' {
        TokenKind::OpenParen
    } else if c == ')' {
        TokenKind::CloseParen
    } else if c == '{' {
        TokenKind::OpenBrace
    } else if c == '}' {
        TokenKind::CloseBrace
    } else if c == '[' {
        TokenKind::OpenBracket
    } else if c == ']' {
        TokenKind::CloseBracket
    } else if c == '@' {
        TokenKind::At
    } else if c == '#' {
        TokenKind::Pound
    } else if c == '~' {
        TokenKind::Tilde
    } else if c == '?' {
        TokenKind::Question
    } else if c == ':' {
        TokenKind::Colon
    } else if c == '$' {
        TokenKind::Dollar
    } else if c == '=' {
        TokenKind::Eq
    } else if c == '!' {
        TokenKind::Bang
    } else if c == '<' {
        TokenKind::Lt
    } else if c == '>' {
        TokenKind::Gt
    } else if c == '-' {
        TokenKind::Minus
    } else if c == '&' {
        TokenKind::And
    } else if c == '|' {
        TokenKind::Or
    } else if c == '+' {
        TokenKind::Plus
    } else if c == '*' {
        TokenKind::Star
    } else if c == '^' {
        TokenKind::Caret
    } else if c == '%' {
        TokenKind::Percent
    } else {
        TokenKind::Unknown
    }
}

/// What scanning the body of a character literal does, starting just after
/// the opening quote: whether a closing quote terminates it, and how many
/// characters are consumed. A `/` (a presumed trailing comment), a bare line
/// feed not followed by a quote, and the end of the text all stop the scan
/// unterminated; a backslash always consumes the following character as an
/// escape pair.
pub open spec fn scan_char_rest(r: Seq<char>) -> (bool, nat)
    decreases r.len(),
{
    if r.len() == 0 {
        (false, 0nat)
    } else if r[0] == '\'' {
        (true, 1nat)
    } else if r[0] == '/' {
        (false, 0nat)
    } else if r[0] == '\n' && !(r.len() >= 2 && r[1] == '\'') {
        (false, 0nat)
    } else if r[0] == '\\' {
        if r.len() == 1 {
            (false, 1nat)
        } else {
            let t = scan_char_rest(r.subrange(2, r.len() as int));
            (t.0, 2 + t.1)
        }
    } else {
        let t = scan_char_rest(r.subrange(1, r.len() as int));
        (t.0, 1 + t.1)
    }
}

/// What scanning the body of a string literal does, starting just after the
/// opening quote: a `"` terminates it; a backslash followed by `\` or `"`
/// consumes both as an escape pair; reaching the end of the text leaves it
/// unterminated.
pub open spec fn scan_str_rest(r: Seq<char>) -> (bool, nat)
    decreases r.len(),
{
    if r.len() == 0 {
        (false, 0nat)
    } else if r[0] == '"' {
        (true, 1nat)
    } else if r[0] == '\\' && r.len() >= 2 && (r[1] == '\\' || r[1] == '"') {
        let t = scan_str_rest(r.subrange(2, r.len() as int));
        (t.0, 2 + t.1)
    } else {
        let t = scan_str_rest(r.subrange(1, r.len() as int));
        (t.0, 1 + t.1)
    }
}

/// The numeric-literal case of the scanner: a maximal digit run, then a
/// fractional part only when a dot follows that is not itself followed by an
/// identifier-start character (so `10.foo` stays an integer and a dot).
pub open spec fn spec_scan_number(s: Seq<char>) -> (TokenKind, nat)
    recommends
        s.len() >= 1,
{
    let n: nat = 1 + run_len(s.subrange(1, s.len() as int), CharClass::Digit);
    if char_at(s, n) == '.' && !spec_is_id_start(char_at(s, n + 1)) {
        let frac = run_len(s.subrange(n + 1 as int, s.len() as int), CharClass::Digit);
        (TokenKind::Literal { kind: LitKind::Float }, n + 1 + frac)
    } else {
        (TokenKind::Literal { kind: LitKind::Int }, n)
    }
}

/// What the scanner recognizes at the head of the non-empty text `s`: the
/// kind of exactly one token and its character length.
pub open spec fn spec_scan(s: Seq<char>) -> (TokenKind, nat)
    recommends
        s.len() >= 1,
{
    let c = s[0];
    if c == '/' {
        if s.len() >= 2 && s[1] == '/' {
            (TokenKind::LineComment, 2 + run_len(s.subrange(2, s.len() as int),
            CharClass::NonNewline))
        } else {
            (TokenKind::Slash, 1nat)
        }
    } else if spec_is_whitespace(c) {
        (TokenKind::Whitespace, 1 + run_len(s.subrange(1, s.len() as int), CharClass::Whitespace))
    } else if spec_is_id_start(c) {
        (TokenKind::Ident, 1 + run_len(s.subrange(1, s.len() as int), CharClass::IdContinue))
    } else if spec_is_digit(c) {
        spec_scan_number(s)
    } else if c == '\'' {
        if s.len() >= 3 && s[2] == '\'' && s[1] != '\\' {
            (TokenKind::Literal { kind: LitKind::Char { terminated: true } }, 3nat)
        } else {
            let t = scan_char_rest(s.subrange(1, s.len() as int));
            (TokenKind::Literal { kind: LitKind::Char { terminated: t.0 } }, 1 + t.1)
        }
    } else if c == '"' {
        let t = scan_str_rest(s.subrange(1, s.len() as int));
        (TokenKind::Literal { kind: LitKind::Str { terminated: t.0 } }, 1 + t.1)
    } else {
        (punct_kind(c), 1nat)
    }
}

/// The character-literal scan stays within the text, and a terminated scan
/// consumed at least the closing quote.
pub proof fn lemma_scan_char_rest_le(r: Seq<char>)
    ensures
        scan_char_rest(r).1 <= r.len(),
        scan_char_rest(r).0 ==> scan_char_rest(r).1 >= 1,
    decreases r.len(),
{
    if r.len() == 0 {
    } else if r[0] == '\'' {
    } else if r[0] == '/' {
    } else if r[0] == '\n' && !(r.len() >= 2 && r[1] == '\'') {
    } else if r[0] == '\\' {
        if r.len() > 1 {
            lemma_scan_char_rest_le(r.subrange(2, r.len() as int));
        }
    } else {
        lemma_scan_char_rest_le(r.subrange(1, r.len() as int));
    }
}

/// The string-literal scan stays within the text, and a terminated scan
/// consumed at least the closing quote.
pub proof fn lemma_scan_str_rest_le(r: Seq<char>)
    ensures
        scan_str_rest(r).1 <= r.len(),
        scan_str_rest(r).0 ==> scan_str_rest(r).1 >= 1,
    decreases r.len(),
{
    if r.len() == 0 {
    } else if r[0] == '"' {
    } else if r[0] == '\\' && r.len() >= 2 && (r[1] == '\\' || r[1] == '"') {
        lemma_scan_str_rest_le(r.subrange(2, r.len() as int));
    } else {
        lemma_scan_str_rest_le(r.subrange(1, r.len() as int));
    }
}

/// One scanned token consumes at least one character and never more than the
/// whole text; a terminated quoted literal spans at least its two quotes.
pub proof fn lemma_spec_scan(s: Seq<char>)
    requires
        s.len() >= 1,
    ensures
        1 <= spec_scan(s).1 <= s.len(),
        spec_scan(s).0 == (TokenKind::Literal { kind: LitKind::Char { terminated: true } })
            ==> spec_scan(s).1 >= 2,
        spec_scan(s).0 == (TokenKind::Literal { kind: LitKind::Str { terminated: true } })
            ==> spec_scan(s).1 >= 2,
{
    let c = s[0];
    if c == '/' {
        if s.len() >= 2 && s[1] == '/' {
            lemma_run_len_le(s.subrange(2, s.len() as int), CharClass::NonNewline);
        }
    } else if spec_is_whitespace(c) {
        lemma_run_len_le(s.subrange(1, s.len() as int), CharClass::Whitespace);
    } else if spec_is_id_start(c) {
        lemma_run_len_le(s.subrange(1, s.len() as int), CharClass::IdContinue);
    } else if spec_is_digit(c) {
        lemma_run_len_le(s.subrange(1, s.len() as int), CharClass::Digit);
        let n: nat = 1 + run_len(s.subrange(1, s.len() as int), CharClass::Digit);
        if char_at(s, n) == '.' && !spec_is_id_start(char_at(s, n + 1)) {
            lemma_run_len_le(s.subrange(n + 1 as int, s.len() as int), CharClass::Digit);
        }
    } else if c == '\'' {
        if !(s.len() >= 3 && s[2] == '\'' && s[1] != '\\') {
            lemma_scan_char_rest_le(s.subrange(1, s.len() as int));
        }
    } else if c == '"' {
        lemma_scan_str_rest_le(s.subrange(1, s.len() as int));
    } else {
    }
}

/// The structural token produced by one punctuation character.
fn punct_token(c: char) -> (k: TokenKind)
    ensures
        k == punct_kind(c),
{
    match c {
        ';' => TokenKind::Semi,
        ',' => TokenKind::Comma,
        '.' => TokenKind::Dot,
        '(' => TokenKind::OpenParen,
        ')' => TokenKind::CloseParen,
        '{' => TokenKind::OpenBrace,
        '}' => TokenKind::CloseBrace,
        '[' => TokenKind::OpenBracket,
        ']' => TokenKind::CloseBracket,
        '@' => TokenKind::At,
        '#' => TokenKind::Pound,
        '~' => TokenKind::Tilde,
        '?' => TokenKind::Question,
        ':' => TokenKind::Colon,
        '$' => TokenKind::Dollar,
        '=' => TokenKind::Eq,
        '!' => TokenKind::Bang,
        '<' => TokenKind::Lt,
        '>' => TokenKind::Gt,
        '-' => TokenKind::Minus,
        '&' => TokenKind::And,
        '|' => TokenKind::Or,
        '+' => TokenKind::Plus,
        '*' => TokenKind::Star,
        '^' => TokenKind::Caret,
        '%' => TokenKind::Percent,
        _ => TokenKind::Unknown,
    }
}

impl<'a> Cursor<'a> {
    /// Consumes the body of a line comment: the second slash and everything
    /// up to, but not including, the next line feed.
    fn line_comment(&mut self) -> (k: TokenKind)
        requires
            old(self).wf(),
            old(self).pos == 1,
            old(self).src@.len() >= 2,
            old(self).src@[1] == '/',
        ensures
            final(self).wf(),
            final(self).src@ == old(self).src@,
            k == TokenKind::LineComment,
            final(self).pos == 2 + run_len(
                old(self).src@.subrange(2, old(self).src@.len() as int),
                CharClass::NonNewline,
            ),
    {
        self.bump();
        self.eat_while(CharClass::NonNewline);
        TokenKind::LineComment
    }

    /// Consumes the rest of a maximal whitespace run.
    fn whitespace(&mut self) -> (k: TokenKind)
        requires
            old(self).wf(),
            old(self).pos == 1,
        ensures
            final(self).wf(),
            final(self).src@ == old(self).src@,
            k == TokenKind::Whitespace,
            final(self).pos == 1 + run_len(
                old(self).src@.subrange(1, old(self).src@.len() as int),
                CharClass::Whitespace,
            ),
    {
        self.eat_while(CharClass::Whitespace);
        TokenKind::Whitespace
    }

    /// Consumes the rest of a maximal identifier run.
    fn ident(&mut self) -> (k: TokenKind)
        requires
            old(self).wf(),
            old(self).pos == 1,
        ensures
            final(self).wf(),
            final(self).src@ == old(self).src@,
            k == TokenKind::Ident,
            final(self).pos == 1 + run_len(
                old(self).src@.subrange(1, old(self).src@.len() as int),
                CharClass::IdContinue,
            ),
    {
        self.eat_while(CharClass::IdContinue);
        TokenKind::Ident
    }

    /// Consumes the rest of a numeric literal after its first digit and
    /// reports whether it is an integer or a float.
    fn number(&mut self) -> (k: LitKind)
        requires
            old(self).wf(),
            old(self).pos == 1,
            old(self).src@.len() >= 1,
        ensures
            final(self).wf(),
            final(self).src@ == old(self).src@,
            (TokenKind::Literal { kind: k }) == spec_scan_number(old(self).src@).0,
            final(self).pos == spec_scan_number(old(self).src@).1,
    {
        self.eat_while(CharClass::Digit);
        if self.first() == '.' && !is_id_start(self.second()) {
            self.bump();
            self.eat_while(CharClass::Digit);
            LitKind::Float
        } else {
            LitKind::Int
        }
    }

    /// Scans the body of a character literal after its opening quote and
    /// reports whether a closing quote terminated it.
    #[verifier::loop_isolation(false)]
    fn single_quoted_string(&mut self) -> (terminated: bool)
        requires
            old(self).wf(),
            old(self).pos == 1,
            old(self).src@.len() >= 1,
        ensures
            final(self).wf(),
            final(self).src@ == old(self).src@,
            (old(self).src@.len() >= 3 && old(self).src@[2] == '\'' && old(self).src@[1] != '\\')
                ==> (terminated && final(self).pos == 3),
            !(old(self).src@.len() >= 3 && old(self).src@[2] == '\'' && old(self).src@[1] != '\\')
                ==> (terminated == scan_char_rest(
                old(self).src@.subrange(1, old(self).src@.len() as int),
            ).0 && final(self).pos == 1 + scan_char_rest(
                old(self).src@.subrange(1, old(self).src@.len() as int),
            ).1),
    {
        let ghost s = self.src@;
        let ghost tail0 = s.subrange(1, s.len() as int);
        // A one-character literal: the closing quote is already in sight.
        if self.second() == '\'' && self.first() != '\\' {
            self.bump();
            self.bump();
            return true;
        }
        loop
            invariant
                self.wf(),
                self.src@ == s,
                1 <= self.pos <= self.len,
                scan_char_rest(tail0).0 == scan_char_rest(
                    s.subrange(self.pos as int, s.len() as int),
                ).0,
                scan_char_rest(tail0).1 == (self.pos - 1) + scan_char_rest(
                    s.subrange(self.pos as int, s.len() as int),
                ).1,
            decreases self.len - self.pos,
        {
            let ghost p = self.pos as int;
            let ghost cur = s.subrange(p, s.len() as int);
            let c = self.first();
            if c == '\'' {
                // The closing quote: the scan is terminated.
                self.bump();
                proof {
                    assert(cur[0] == '\'');
                    assert(scan_char_rest(cur) == (true, 1nat));
                }
                return true;
            } else if c == '/' {
                // A presumed trailing comment: stop without consuming it.
                proof {
                    assert(cur[0] == '/');
                    assert(scan_char_rest(cur) == (false, 0nat));
                }
                return false;
            } else if c == '\n' && self.second() != '\'' {
                // A bare line feed means the quote was never closed.
                proof {
                    assert(cur[0] == '\n' && !(cur.len() >= 2 && cur[1] == '\''));
                    assert(scan_char_rest(cur) == (false, 0nat));
                }
                return false;
            } else if self.is_eof() {
                proof {
                    assert(cur.len() == 0);
                }
                return false;
            } else if c == '\\' {
                // An escape pair: the next character cannot end the scan.
                self.bump();
                self.bump();
                proof {
                    assert(cur[0] == '\\');
                    if p + 1 < s.len() {
                        assert(cur.subrange(2, cur.len() as int) =~= s.subrange(
                            p + 2,
                            s.len() as int,
                        ));
                    } else {
                        assert(cur.len() == 1);
                        assert(s.subrange(p + 1, s.len() as int).len() == 0);
                    }
                }
            } else {
                self.bump();
                proof {
                    assert(cur[0] == c);
                    assert(cur.subrange(1, cur.len() as int) =~= s.subrange(
                        p + 1,
                        s.len() as int,
                    ));
                }
            }
        }
    }

    /// Scans the body of a string literal after its opening quote and
    /// reports whether a closing quote terminated it.
    #[verifier::loop_isolation(false)]
    fn double_quoted_string(&mut self) -> (terminated: bool)
        requires
            old(self).wf(),
            old(self).pos == 1,
            old(self).src@.len() >= 1,
        ensures
            final(self).wf(),
            final(self).src@ == old(self).src@,
            terminated == scan_str_rest(old(self).src@.subrange(1, old(self).src@.len() as int)).0,
            final(self).pos == 1 + scan_str_rest(
                old(self).src@.subrange(1, old(self).src@.len() as int),
            ).1,
    {
        let ghost s = self.src@;
        let ghost tail0 = s.subrange(1, s.len() as int);
        loop
            invariant
                self.wf(),
                self.src@ == s,
                1 <= self.pos <= self.len,
                scan_str_rest(tail0).0 == scan_str_rest(
                    s.subrange(self.pos as int, s.len() as int),
                ).0,
                scan_str_rest(tail0).1 == (self.pos - 1) + scan_str_rest(
                    s.subrange(self.pos as int, s.len() as int),
                ).1,
            decreases self.len - self.pos,
        {
            let ghost p = self.pos as int;
            let ghost cur = s.subrange(p, s.len() as int);
            match self.bump() {
                None => {
                    proof {
                        assert(cur.len() == 0);
                    }
                    return false;
                },
                Some(c) => {
                    if c == '"' {
                        proof {
                            assert(cur[0] == '"');
                            assert(scan_str_rest(cur) == (true, 1nat));
                        }
                        return true;
                    } else if c == '\\' && (self.first() == '\\' || self.first() == '"') {
                        // An escape pair: consume the escaped character too.
                        self.bump();
                        proof {
                            assert(cur[0] == '\\' && cur.len() >= 2 && (cur[1] == '\\' || cur[1]
                                == '"'));
                            assert(cur.subrange(2, cur.len() as int) =~= s.subrange(
                                p + 2,
                                s.len() as int,
                            ));
                        }
                    } else {
                        proof {
                            assert(cur[0] == c);
                            assert(!(cur[0] == '\\' && cur.len() >= 2 && (cur[1] == '\\' || cur[1]
                                == '"')));
                            assert(cur.subrange(1, cur.len() as int) =~= s.subrange(
                                p + 1,
                                s.len() as int,
                            ));
                        }
                    }
                },
            }
        }
    }

    /// Recognizes exactly one token at the head of the non-empty text the
    /// cursor was created over, by first-character dispatch.
    pub(crate) fn advance_token(&mut self) -> (t: Token)
        requires
            old(self).wf(),
            old(self).pos == 0,
            old(self).src@.len() >= 1,
        ensures
            final(self).wf(),
            final(self).src@ == old(self).src@,
            t.kind == spec_scan(old(self).src@).0,
            t.span.start_pos == 0,
            t.span.len == spec_scan(old(self).src@).1,
    {
        let first_char = match self.bump() {
            Some(c) => c,
            None => {
                // The text is non-empty, so the first bump always succeeds.
                proof {
                    assert(false);
                }
                ' '
            },
        };
        let token_kind = if first_char == '/' {
            if self.first() == '/' {
                self.line_comment()
            } else {
                TokenKind::Slash
            }
        } else if is_whitespace(first_char) {
            self.whitespace()
        } else if is_id_start(first_char) {
            self.ident()
        } else if is_digit(first_char) {
            let kind = self.number();
            TokenKind::Literal { kind }
        } else if first_char == '\'' {
            let terminated = self.single_quoted_string();
            TokenKind::Literal { kind: LitKind::Char { terminated } }
        } else if first_char == '"' {
            let terminated = self.double_quoted_string();
            TokenKind::Literal { kind: LitKind::Str { terminated } }
        } else {
            punct_token(first_char)
        };
        let span = Span { start_pos: 0, len: self.len_consumed() };
        Token::new(token_kind, span)
    }
}

/// Scans the first token of the non-empty `input`: its kind and character
/// length. The span's start position is reported as zero; the caller stamps
/// the absolute offset.
pub fn first_token(input: &str) -> (t: Token)
    requires
        input@.len() >= 1,
    ensures
        t.kind == spec_scan(input@).0,
        t.span.start_pos == 0,
        t.span.len == spec_scan(input@).1,
{
    let mut cursor = Cursor::new(input);
    cursor.advance_token()
}

/// The token sequence that scanning all of `s` produces: each token is
/// scanned at the head of what the previous tokens left. Spans keep start
/// position zero, exactly as the scanner reports them.
pub open spec fn spec_tokenize(s: Seq<char>) -> Seq<Token>
    decreases s.len(),
{
    if s.len() == 0 {
        Seq::empty()
    } else {
        let r = spec_scan(s);
        let n: nat = if r.1 <= s.len() {
            r.1
        } else {
            s.len()
        };
        seq![Token { kind: r.0, span: Span { start_pos: 0, len: n as usize } }] + spec_tokenize(
            s.subrange(n as int, s.len() as int),
        )
    }
}

/// Scans the whole of `input` into its token sequence.
pub fn tokenize(input: &str) -> (toks: Vec<Token>)
    ensures
        toks@ == spec_tokenize(input@),
{
    let total = input.unicode_len();
    let mut toks: Vec<Token> = Vec::new();
    let mut pos: usize = 0;
    proof {
        assert(input@.subrange(0, total as int) =~= input@);
        assert(Seq::<Token>::empty() + spec_tokenize(input@) =~= spec_tokenize(input@));
    }
    while pos < total
        invariant
            total == input@.len(),
            pos <= total,
            spec_tokenize(input@) == toks@ + spec_tokenize(
                input@.subrange(pos as int, total as int),
            ),
        decreases total - pos,
    {
        let rest = input.substring_char(pos, total);
        let t = first_token(rest);
        proof {
            lemma_spec_scan(rest@);
        }
        let ghost old_toks = toks@;
        let ghost old_pos = pos as int;
        toks.push(t);
        pos = pos + t.span.len;
        proof {
            let s = input@;
            let sub = s.subrange(old_pos, total as int);
            let r = spec_scan(sub);
            assert(sub.subrange(r.1 as int, sub.len() as int) =~= s.subrange(
                old_pos + r.1,
                total as int,
            ));
            assert(spec_tokenize(sub) == seq![t] + spec_tokenize(
                s.subrange(pos as int, total as int),
            ));
            assert(toks@ =~= old_toks + seq![t]);
            assert(old_toks + spec_tokenize(sub) =~= toks@ + spec_tokenize(
                s.subrange(pos as int, total as int),
            ));
        }
    }
    proof {
        assert(input@.subrange(pos as int, total as int).len() == 0);
        assert(toks@ =~= toks@ + spec_tokenize(input@.subrange(pos as int, total as int)));
    }
    toks
}

/// The sum of the token span lengths of `toks`.
pub open spec fn token_lens_sum(toks: Seq<Token>) -> nat
    decreases toks.len(),
{
    if toks.len() == 0 {
        0nat
    } else {
        (toks[0].span.len + token_lens_sum(toks.subrange(1, toks.len() as int))) as nat
    }
}

/// Round-trip length: the tokens that scanning yields consume the input
/// exactly — their lengths sum to the length of the text, so the token
/// spans tile the source with no character skipped or double-counted.
pub proof fn lemma_tokenize_round_trip(s: Seq<char>)
    requires
        s.len() <= usize::MAX,
    ensures
        token_lens_sum(spec_tokenize(s)) == s.len(),
    decreases s.len(),
{
    if s.len() == 0 {
        assert(spec_tokenize(s).len() == 0);
    } else {
        lemma_spec_scan(s);
        let r = spec_scan(s);
        let rest = s.subrange(r.1 as int, s.len() as int);
        lemma_tokenize_round_trip(rest);
        let all = spec_tokenize(s);
        assert(all[0].span.len == r.1);
        assert(all.subrange(1, all.len() as int) =~= spec_tokenize(rest));
    }
}

} // verus!
