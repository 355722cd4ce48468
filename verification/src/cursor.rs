use vstd::prelude::*;
use crate::chars::CharClass;
use crate::chars::EOF_CHAR;
use crate::chars::char_at;
use crate::chars::char_in_class;
use crate::chars::check_class;
use crate::chars::lemma_run_len_of;
use crate::chars::run_len;

verus! {

/// The minimal forward-only character scanner: one- and two-character
/// lookahead over the remaining slice handed to it at creation, counting the
/// characters consumed.
pub(crate) struct Cursor<'a> {
    pub(crate) src: &'a str,
    pub(crate) pos: usize,
    pub(crate) len: usize,
}

impl<'a> Cursor<'a> {
    /// `len` caches the character length of the text and `pos` counts the
    /// characters consumed so far.
    pub(crate) open spec fn wf(&self) -> bool {
        self.len == self.src@.len() && self.pos <= self.len
    }

    pub(crate) fn new(input: &'a str) -> (c: Cursor<'a>)
        ensures
            c.wf(),
            c.src@ == input@,
            c.pos == 0,
    {
        let len = input.unicode_len();
        Cursor { src: input, pos: 0, len }
    }

    /// The next character, or the end-of-text sentinel if none remain.
    pub(crate) fn first(&self) -> (c: char)
        requires
            self.wf(),
        ensures
            c == char_at(self.src@, self.pos as nat),
    {
        if self.pos < self.len {
            self.src.get_char(self.pos)
        } else {
            EOF_CHAR
        }
    }

    /// The character after `first()`, or the end-of-text sentinel.
    pub(crate) fn second(&self) -> (c: char)
        requires
            self.wf(),
        ensures
            c == char_at(self.src@, (self.pos + 1) as nat),
    {
        if self.pos < self.len {
            if self.pos + 1 < self.len {
                self.src.get_char(self.pos + 1)
            } else {
                EOF_CHAR
            }
        } else {
            EOF_CHAR
        }
    }

    /// Consumes and returns the next character, or `None` if the text is
    /// exhausted.
    pub(crate) fn bump(&mut self) -> (r: Option<char>)
        requires
            old(self).wf(),
        ensures
            final(self).wf(),
            final(self).src@ == old(self).src@,
            old(self).pos < old(self).len ==> r == Some(old(self).src@[old(self).pos as int])
                && final(self).pos == old(self).pos + 1,
            old(self).pos >= old(self).len ==> r == None::<char> && final(self).pos == old(
                self,
            ).pos,
    {
        if self.pos < self.len {
            let c = self.src.get_char(self.pos);
            self.pos = self.pos + 1;
            Some(c)
        } else {
            None
        }
    }

    /// True exactly when no characters remain.
    pub(crate) fn is_eof(&self) -> (r: bool)
        requires
            self.wf(),
        ensures
            r == (self.pos == self.len),
    {
        self.pos >= self.len
    }

    /// The number of characters consumed since the cursor was created.
    pub(crate) fn len_consumed(&self) -> (n: usize)
        ensures
            n == self.pos,
    {
        self.pos
    }

    /// Consumes the maximal run of characters of class `cls`.
    pub(crate) fn eat_while(&mut self, cls: CharClass)
        requires
            old(self).wf(),
        ensures
            final(self).wf(),
            final(self).src@ == old(self).src@,
            final(self).pos == old(self).pos + run_len(
                old(self).src@.subrange(old(self).pos as int, old(self).src@.len() as int),
                cls,
            ),
    {
        let ghost s = self.src@;
        let ghost p0 = self.pos as nat;
        loop
            invariant
                self.wf(),
                self.src@ == s,
                p0 <= self.pos,
                forall|i: int| p0 <= i < self.pos ==> char_in_class(cls, s[i]),
            ensures
                self.wf(),
                self.src@ == s,
                p0 <= self.pos,
                forall|i: int| p0 <= i < self.pos ==> char_in_class(cls, s[i]),
                self.pos == self.len || !char_in_class(cls, s[self.pos as int]),
            decreases self.len - self.pos,
        {
            if self.pos >= self.len {
                break ;
            }
            let c = self.src.get_char(self.pos);
            if !check_class(cls, c) {
                break ;
            }
            self.pos = self.pos + 1;
        }
        proof {
            let sub = s.subrange(p0 as int, s.len() as int);
            let n = (self.pos - p0) as nat;
            assert(forall|i: int| 0 <= i < n ==> sub[i] == s[p0 + i]);
            lemma_run_len_of(sub, cls, n);
        }
    }
}

} // verus!
