use vstd::prelude::*;

verus! {

/// The sentinel character that lookahead returns past the end of the text.
pub const EOF_CHAR: char = '\0';

/// The classes of characters over which the scanner consumes maximal runs.
#[derive(Clone, Copy, Debug, PartialEq, Eq, Structural)]
pub enum CharClass {
    /// Tab, line feed, carriage return or space.
    Whitespace,
    /// An ASCII letter, digit or underscore.
    IdContinue,
    /// An ASCII decimal digit.
    Digit,
    /// Anything but a line feed: the body of a line comment.
    NonNewline,
}

/// Tab, line feed, carriage return or space.
pub open spec fn spec_is_whitespace(c: char) -> bool {
    c == '\t' || c == '\n' || c == '\r' || c == ' '
}

/// An ASCII letter or underscore: the characters that may begin an identifier.
pub open spec fn spec_is_id_start(c: char) -> bool {
    (('a' as u32) <= (c as u32) && (c as u32) <= ('z' as u32)) || (('A' as u32) <= (c as u32)
        && (c as u32) <= ('Z' as u32)) || c == '_'
}

/// An ASCII letter, digit or underscore: the characters that may continue an
/// identifier.
pub open spec fn spec_is_id_continue(c: char) -> bool {
    spec_is_id_start(c) || spec_is_digit(c)
}

/// An ASCII decimal digit.
pub open spec fn spec_is_digit(c: char) -> bool {
    ('0' as u32) <= (c as u32) && (c as u32) <= ('9' as u32)
}

/// Whether `c` belongs to the class `cls`.
pub open spec fn char_in_class(cls: CharClass, c: char) -> bool {
    match cls {
        CharClass::Whitespace => spec_is_whitespace(c),
        CharClass::IdContinue => spec_is_id_continue(c),
        CharClass::Digit => spec_is_digit(c),
        CharClass::NonNewline => c != '\n',
    }
}

/// The character at offset `i` of `s`, or the end-of-text sentinel when `i`
/// is past the end.
pub open spec fn char_at(s: Seq<char>, i: nat) -> char {
    if i < s.len() {
        s[i as int]
    } else {
        EOF_CHAR
    }
}

/// The length of the maximal prefix of `s` whose characters all belong to
/// class `cls`.
pub open spec fn run_len(s: Seq<char>, cls: CharClass) -> nat
    decreases s.len(),
{
    if s.len() == 0 || !char_in_class(cls, s[0]) {
        0
    } else {
        1 + run_len(s.subrange(1, s.len() as int), cls)
    }
}

/// A run never extends past the end of the text.
pub proof fn lemma_run_len_le(s: Seq<char>, cls: CharClass)
    ensures
        run_len(s, cls) <= s.len(),
    decreases s.len(),
{
    if s.len() > 0 && char_in_class(cls, s[0]) {
        lemma_run_len_le(s.subrange(1, s.len() as int), cls);
    }
}

/// If the first `n` characters of `s` belong to `cls` and the run stops
/// there, then `n` is exactly the run length.
pub proof fn lemma_run_len_of(s: Seq<char>, cls: CharClass, n: nat)
    requires
        n <= s.len(),
        forall|i: int| 0 <= i < n ==> char_in_class(cls, s[i]),
        n == s.len() || !char_in_class(cls, s[n as int]),
    ensures
        run_len(s, cls) == n,
    decreases n,
{
    if n == 0 {
    } else {
        assert(char_in_class(cls, s[0]));
        let sub = s.subrange(1, s.len() as int);
        assert(forall|i: int| 0 <= i < n - 1 ==> sub[i] == s[i + 1]);
        lemma_run_len_of(sub, cls, (n - 1) as nat);
    }
}

/// Whether `c` is tab, line feed, carriage return or space.
pub fn is_whitespace(c: char) -> (b: bool)
    ensures
        b == spec_is_whitespace(c),
{
    c == '\t' || c == '\n' || c == '\r' || c == ' '
}

/// Whether `c` may begin an identifier.
pub fn is_id_start(c: char) -> (b: bool)
    ensures
        b == spec_is_id_start(c),
{
    let u = c as u32;
    (97 <= u && u <= 122) || (65 <= u && u <= 90) || c == '_'
}

/// Whether `c` may continue an identifier.
pub fn is_id_continue(c: char) -> (b: bool)
    ensures
        b == spec_is_id_continue(c),
{
    is_id_start(c) || is_digit(c)
}

/// Whether `c` is an ASCII decimal digit.
pub fn is_digit(c: char) -> (b: bool)
    ensures
        b == spec_is_digit(c),
{
    let u = c as u32;
    48 <= u && u <= 57
}

/// Whether `c` belongs to the class `cls`.
pub fn check_class(cls: CharClass, c: char) -> (b: bool)
    ensures
        b == char_in_class(cls, c),
{
    match cls {
        CharClass::Whitespace => is_whitespace(c),
        CharClass::IdContinue => is_id_continue(c),
        CharClass::Digit => is_digit(c),
        CharClass::NonNewline => c != '\n',
    }
}

} // verus!
