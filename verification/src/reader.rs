use vstd::prelude::*;
use crate::scanner::first_token;
use crate::scanner::lemma_spec_scan;
use crate::scanner::spec_scan;
use crate::span::Span;
use crate::token::KwKind;
use crate::token::LitKind;
use crate::token::Token;
use crate::token::TokenKind;

verus! {

/// The keyword that an identifier spelling resolves to, if any. Any other
/// spelling stays an identifier.
pub open spec fn keyword_of(text: Seq<char>) -> Option<KwKind> {
    if text == seq!['i', '6', '4'] {
        Some(KwKind::I64)
    } else if text == seq!['u', '6', '4'] {
        Some(KwKind::U64)
    } else if text == seq!['b', 'o', 'o', 'l'] {
        Some(KwKind::Bool)
    } else if text == seq!['c', 'h', 'a', 'r'] {
        Some(KwKind::Char)
    } else if text == seq!['s', 't', 'r'] {
        Some(KwKind::Str)
    } else if text == seq!['v', 'o', 'i', 'd'] {
        Some(KwKind::Void)
    } else if text == seq!['i', 'f'] {
        Some(KwKind::If)
    } else {
        None
    }
}

/// The next significant token of `s` from position `p`, and the number of
/// characters consumed producing it: whitespace and comments are scanned
/// and discarded, an identifier is keyword-resolved, every span is stamped
/// with its absolute position, and at the end of the text a zero-length
/// `Eof` token is produced without consuming anything.
pub open spec fn spec_next_token(s: Seq<char>, p: nat) -> (Token, nat)
    recommends
        p <= s.len(),
    decreases s.len() - p,
{
    if p >= s.len() {
        (Token { kind: TokenKind::Eof, span: Span { start_pos: p as usize, len: 0 } }, 0nat)
    } else {
        let r = spec_scan(s.subrange(p as int, s.len() as int));
        let n: nat = if r.1 <= s.len() - p {
            r.1
        } else {
            (s.len() - p) as nat
        };
        if r.0 == TokenKind::Whitespace || r.0 == TokenKind::LineComment {
            let t = spec_next_token(s, p + n);
            (t.0, n + t.1)
        } else if r.0 == TokenKind::Ident {
            let span = Span { start_pos: p as usize, len: n as usize };
            match keyword_of(s.subrange(p as int, (p + n) as int)) {
                Some(k) => (Token { kind: TokenKind::Keyword { kind: k }, span }, n),
                None => (Token { kind: TokenKind::Ident, span }, n),
            }
        } else {
            (Token { kind: r.0, span: Span { start_pos: p as usize, len: n as usize } }, n)
        }
    }
}

/// Position facts of the next-token relation: the consumed characters stay
/// within the text; a non-Eof token is at least one character long, starts
/// at or after `p` and ends exactly where consumption stops; an Eof token
/// is the zero-length token at the very end of the text; a terminated
/// quoted literal spans at least its two quotes.
pub proof fn lemma_next_token_props(s: Seq<char>, p: nat)
    requires
        p <= s.len(),
        s.len() <= usize::MAX,
    ensures
        p + spec_next_token(s, p).1 <= s.len(),
        spec_next_token(s, p).0.kind != TokenKind::Eof ==> spec_next_token(s, p).0.span.len >= 1
            && spec_next_token(s, p).0.span.start_pos >= p && spec_next_token(s, p).0.span.start_pos
            + spec_next_token(s, p).0.span.len == p + spec_next_token(s, p).1,
        spec_next_token(s, p).0.kind == TokenKind::Eof ==> spec_next_token(s, p).0 == (Token {
            kind: TokenKind::Eof,
            span: Span { start_pos: s.len() as usize, len: 0 },
        }) && p + spec_next_token(s, p).1 == s.len(),
        spec_next_token(s, p).0.kind == (TokenKind::Literal {
            kind: LitKind::Char { terminated: true },
        }) ==> spec_next_token(s, p).0.span.len >= 2,
        spec_next_token(s, p).0.kind == (TokenKind::Literal {
            kind: LitKind::Str { terminated: true },
        }) ==> spec_next_token(s, p).0.span.len >= 2,
    decreases s.len() - p,
{
    if p >= s.len() {
    } else {
        let sub = s.subrange(p as int, s.len() as int);
        lemma_spec_scan(sub);
        let r = spec_scan(sub);
        if r.0 == TokenKind::Whitespace || r.0 == TokenKind::LineComment {
            lemma_next_token_props(s, p + r.1);
        }
    }
}

/// The next-token relation never consumes past the end of the text, and a
/// non-Eof token is only produced strictly inside it, consuming at least
/// one character.
pub proof fn lemma_next_token_bounds(s: Seq<char>, p: nat)
    ensures
        p <= s.len() ==> p + spec_next_token(s, p).1 <= s.len(),
        spec_next_token(s, p).0.kind != TokenKind::Eof ==> p < s.len() && spec_next_token(s, p).1
            >= 1,
    decreases s.len() - p,
{
    if p >= s.len() {
    } else {
        let sub = s.subrange(p as int, s.len() as int);
        lemma_spec_scan(sub);
        let r = spec_scan(sub);
        if r.0 == TokenKind::Whitespace || r.0 == TokenKind::LineComment {
            lemma_next_token_bounds(s, p + r.1);
        }
    }
}

/// Whitespace and comment transparency: the next-token relation never
/// yields a whitespace or comment token. Both are scanned, counted and
/// discarded before a significant token or `Eof` comes out.
pub proof fn lemma_next_token_no_trivia(s: Seq<char>, p: nat)
    ensures
        spec_next_token(s, p).0.kind != TokenKind::Whitespace,
        spec_next_token(s, p).0.kind != TokenKind::LineComment,
    decreases s.len() - p,
{
    if p < s.len() {
        let sub = s.subrange(p as int, s.len() as int);
        lemma_spec_scan(sub);
        let r = spec_scan(sub);
        if r.0 == TokenKind::Whitespace || r.0 == TokenKind::LineComment {
            lemma_next_token_no_trivia(s, p + r.1);
        }
    }
}

/// Idempotent Eof: once the next-token relation yields `Eof`, a further
/// step from the position it leaves yields the same `Eof` token again and
/// consumes nothing.
pub proof fn lemma_eof_idempotent(s: Seq<char>, p: nat)
    requires
        p <= s.len(),
        s.len() <= usize::MAX,
        spec_next_token(s, p).0.kind == TokenKind::Eof,
    ensures
        spec_next_token(s, (p + spec_next_token(s, p).1) as nat).0 == spec_next_token(s, p).0,
        spec_next_token(s, (p + spec_next_token(s, p).1) as nat).1 == 0,
{
    lemma_next_token_props(s, p);
}

/// Tokens come in strictly increasing, non-overlapping span order: a token
/// produced at the position the previous one left behind starts at or
/// after the previous token's end.
pub proof fn lemma_token_order(s: Seq<char>, p: nat)
    requires
        p <= s.len(),
        s.len() <= usize::MAX,
    ensures
        spec_next_token(s, p).0.kind != TokenKind::Eof && spec_next_token(
            s,
            (p + spec_next_token(s, p).1) as nat,
        ).0.kind != TokenKind::Eof ==> spec_next_token(s, p).0.span.start_pos + spec_next_token(
            s,
            p,
        ).0.span.len <= spec_next_token(s, (p + spec_next_token(s, p).1) as nat).0.span.start_pos,
{
    lemma_next_token_props(s, p);
    lemma_next_token_props(s, (p + spec_next_token(s, p).1) as nat);
}

/// Whether two string slices hold the same characters.
fn str_eq_text(a: &str, b: &str) -> (r: bool)
    ensures
        r == (a@ == b@),
{
    let n = a.unicode_len();
    if n != b.unicode_len() {
        return false;
    }
    let mut i: usize = 0;
    while i < n
        invariant
            i <= n,
            n == a@.len(),
            n == b@.len(),
            forall|j: int| 0 <= j < i ==> a@[j] == b@[j],
        decreases n - i,
    {
        if a.get_char(i) != b.get_char(i) {
            return false;
        }
        i = i + 1;
    }
    proof {
        assert(a@ =~= b@);
    }
    true
}

/// A stateful session over one source buffer: it repeatedly scans the text,
/// stamps each token with its absolute position, discards whitespace and
/// comments, resolves keywords, and yields `Eof` once the buffer is
/// exhausted.
pub struct StringReader<'a> {
    pub src: &'a str,
    pos: usize,
    end_index: usize,
}

impl<'a> StringReader<'a> {
    /// `end_index` caches the character length of the source and `pos` is
    /// the absolute offset where the next scan starts.
    pub closed spec fn wf(&self) -> bool {
        self.end_index == self.src@.len() && self.pos <= self.end_index
    }

    /// The absolute offset where the next scan starts.
    pub closed spec fn spec_pos(&self) -> nat {
        self.pos as nat
    }

    /// The characters of the source buffer this session reads.
    pub closed spec fn spec_src(&self) -> Seq<char> {
        self.src@
    }

    /// Starts a session over `src`, positioned at offset zero.
    pub fn new(src: &'a str) -> (r: StringReader<'a>)
        ensures
            r.wf(),
            r.spec_src() == src@,
            r.spec_pos() == 0,
            src@.len() <= usize::MAX,
    {
        let end_index = src.unicode_len();
        StringReader { src, pos: 0, end_index }
    }

    /// Yields the next significant token, stamped with its absolute
    /// position, advancing past it; at the end of the buffer it yields the
    /// zero-length `Eof` token forever.
    #[verifier::loop_isolation(false)]
    pub fn next_token(&mut self) -> (t: Token)
        requires
            old(self).wf(),
        ensures
            final(self).wf(),
            final(self).spec_src() == old(self).spec_src(),
            t == spec_next_token(old(self).spec_src(), old(self).spec_pos()).0,
            final(self).spec_pos() == old(self).spec_pos() + spec_next_token(
                old(self).spec_src(),
                old(self).spec_pos(),
            ).1,
    {
        let ghost s = self.src@;
        let ghost p0 = self.pos as nat;
        loop
            invariant
                self.wf(),
                self.src@ == s,
                p0 <= self.pos,
                spec_next_token(s, p0).0 == spec_next_token(s, self.pos as nat).0,
                p0 + spec_next_token(s, p0).1 == self.pos + spec_next_token(s, self.pos as nat).1,
            decreases s.len() - self.pos,
        {
            let ghost p = self.pos as nat;
            if self.pos >= self.end_index {
                let span = Span { start_pos: self.pos, len: 0 };
                return Token::new(TokenKind::Eof, span);
            }
            let text = self.src.substring_char(self.pos, self.end_index);
            let scanned = first_token(text);
            proof {
                lemma_spec_scan(text@);
            }
            let token = Token {
                kind: scanned.kind,
                span: Span { start_pos: self.pos, len: scanned.span.len },
            };
            self.pos = self.pos + token.span.len;
            match token.kind {
                TokenKind::Whitespace | TokenKind::LineComment => {},
                TokenKind::Ident => {
                    return self.ident_to_keyword(token);
                },
                _ => {
                    return token;
                },
            }
        }
    }

    /// Reclassifies an identifier token whose text is a keyword spelling;
    /// any other identifier is handed back unchanged.
    fn ident_to_keyword(&self, t: Token) -> (r: Token)
        requires
            self.wf(),
            t.kind == TokenKind::Ident,
            t.span.start_pos + t.span.len <= self.src@.len(),
        ensures
            r == (match keyword_of(
                self.src@.subrange(
                    t.span.start_pos as int,
                    t.span.start_pos + t.span.len,
                ),
            ) {
                Some(k) => Token { kind: TokenKind::Keyword { kind: k }, span: t.span },
                None => t,
            }),
    {
        let text = self.span_to_str(&t.span);
        proof {
            reveal_strlit("i64");
            reveal_strlit("u64");
            reveal_strlit("bool");
            reveal_strlit("char");
            reveal_strlit("str");
            reveal_strlit("void");
            reveal_strlit("if");
            assert("i64"@ =~= seq!['i', '6', '4']);
            assert("u64"@ =~= seq!['u', '6', '4']);
            assert("bool"@ =~= seq!['b', 'o', 'o', 'l']);
            assert("char"@ =~= seq!['c', 'h', 'a', 'r']);
            assert("str"@ =~= seq!['s', 't', 'r']);
            assert("void"@ =~= seq!['v', 'o', 'i', 'd']);
            assert("if"@ =~= seq!['i', 'f']);
        }
        let kind = if str_eq_text(text, "i64") {
            TokenKind::Keyword { kind: KwKind::I64 }
        } else if str_eq_text(text, "u64") {
            TokenKind::Keyword { kind: KwKind::U64 }
        } else if str_eq_text(text, "bool") {
            TokenKind::Keyword { kind: KwKind::Bool }
        } else if str_eq_text(text, "char") {
            TokenKind::Keyword { kind: KwKind::Char }
        } else if str_eq_text(text, "str") {
            TokenKind::Keyword { kind: KwKind::Str }
        } else if str_eq_text(text, "void") {
            TokenKind::Keyword { kind: KwKind::Void }
        } else if str_eq_text(text, "if") {
            TokenKind::Keyword { kind: KwKind::If }
        } else {
            TokenKind::Ident
        };
        Token { kind, span: t.span }
    }

    /// The exact source text covered by `span`.
    pub fn span_to_str(&self, span: &Span) -> (r: &str)
        requires
            self.wf(),
            span.start_pos + span.len <= self.spec_src().len(),
        ensures
            r@ == self.spec_src().subrange(span.start_pos as int, span.start_pos + span.len),
    {
        self.src.substring_char(span.start_pos, span.start_pos + span.len)
    }

    /// The text strictly between a quoted literal's opening and closing
    /// delimiter characters.
    pub fn quoted_to_str(&self, span: &Span) -> (r: &str)
        requires
            self.wf(),
            span.len >= 2,
            span.start_pos + span.len <= self.spec_src().len(),
        ensures
            r@ == self.spec_src().subrange(
                span.start_pos + 1,
                span.start_pos + span.len - 1,
            ),
    {
        self.src.substring_char(span.start_pos + 1, span.start_pos + span.len - 1)
    }
}

} // verus!
