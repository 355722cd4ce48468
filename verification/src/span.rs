use vstd::prelude::*;

verus! {

/// A half-open character range locating a token or expression within the
/// source buffer: the characters at indices `start_pos .. start_pos + len`.
#[derive(Clone, Copy, Debug, PartialEq, Eq, Structural)]
pub struct Span {
    pub start_pos: usize,
    pub len: usize,
}

/// The exclusive end position of a span, as a mathematical integer.
pub open spec fn span_end(s: Span) -> int {
    s.start_pos + s.len
}

/// The smallest span covering both `a` and `b`: it starts at the smaller
/// start position and ends at the larger end position.
pub open spec fn spec_append(a: Span, b: Span) -> Span
    recommends
        span_end(a) <= usize::MAX,
        span_end(b) <= usize::MAX,
{
    let start = if a.start_pos <= b.start_pos {
        a.start_pos
    } else {
        b.start_pos
    };
    let end = if span_end(a) >= span_end(b) {
        span_end(a)
    } else {
        span_end(b)
    };
    Span { start_pos: start, len: (end - start) as usize }
}

impl Span {
    /// Merges two spans into the smallest span covering both, used when a
    /// parent expression combines the spans of its two children.
    pub fn append(&self, s: Span) -> (r: Span)
        requires
            self.start_pos + self.len <= usize::MAX,
            s.start_pos + s.len <= usize::MAX,
        ensures
            r == spec_append(*self, s),
    {
        let start_pos = if self.start_pos <= s.start_pos {
            self.start_pos
        } else {
            s.start_pos
        };
        let end_a = self.start_pos + self.len;
        let end_b = s.start_pos + s.len;
        let end_pos = if end_a >= end_b {
            end_a
        } else {
            end_b
        };
        Span { start_pos, len: end_pos - start_pos }
    }
}

/// Merging spans is commutative: covering `a` and `b` is the same as
/// covering `b` and `a`.
pub proof fn lemma_append_commutative(a: Span, b: Span)
    ensures
        spec_append(a, b) == spec_append(b, a),
{
}

/// Merging spans is associative over the covering operation.
pub proof fn lemma_append_associative(a: Span, b: Span, c: Span)
    requires
        span_end(a) <= usize::MAX,
        span_end(b) <= usize::MAX,
        span_end(c) <= usize::MAX,
    ensures
        spec_append(spec_append(a, b), c) == spec_append(a, spec_append(b, c)),
{
}

} // verus!
