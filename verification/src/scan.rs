//! Character classes and the scanning steps every rule is built from.

use vstd::prelude::*;

verus! {

/// The character classes the lexical rules scan runs of.
#[derive(Clone, Copy, Debug, PartialEq, Eq, Structural)]
pub enum CharClass {
    /// Space, tab, carriage return and line feed.
    Blank,
    /// The decimal digits `0` to `9`.
    Digit,
    /// The characters a floating-point numeral is made of: digits, the signs
    /// `+` and `-`, the point, and the exponent marks `e` and `E`.
    Numeral,
    /// ASCII letters, decimal digits and the underscore.
    Word,
}

/// Whether `c` is a decimal digit.
pub open spec fn is_digit(c: char) -> bool {
    '0' <= c <= '9'
}

/// Whether `c` is an ASCII letter.
pub open spec fn is_letter(c: char) -> bool {
    'a' <= c <= 'z' || 'A' <= c <= 'Z'
}

/// Whether `c` may begin an identifier: a letter or the underscore.
pub open spec fn is_word_start(c: char) -> bool {
    is_letter(c) || c == '_'
}

impl CharClass {
    /// Whether `c` belongs to the class.
    pub open spec fn holds(self, c: char) -> bool {
        match self {
            CharClass::Blank => c == ' ' || c == '\t' || c == '\r' || c == '\n',
            CharClass::Digit => is_digit(c),
            CharClass::Numeral => is_digit(c) || c == '+' || c == '-' || c == '.' || c == 'e' || c
                == 'E',
            CharClass::Word => is_letter(c) || is_digit(c) || c == '_',
        }
    }

    /// Tests whether `c` belongs to the class.
    pub fn has(self, c: char) -> (r: bool)
        ensures
            r == self.holds(c),
    {
        match self {
            CharClass::Blank => c == ' ' || c == '\t' || c == '\r' || c == '\n',
            CharClass::Digit => '0' <= c && c <= '9',
            CharClass::Numeral => ('0' <= c && c <= '9') || c == '+' || c == '-' || c == '.' || c
                == 'e' || c == 'E',
            CharClass::Word => ('a' <= c && c <= 'z') || ('A' <= c && c <= 'Z') || ('0' <= c && c
                <= '9') || c == '_',
        }
    }
}

/// Tests whether `c` may begin an identifier.
pub fn word_start(c: char) -> (r: bool)
    ensures
        r == is_word_start(c),
{
    ('a' <= c && c <= 'z') || ('A' <= c && c <= 'Z') || c == '_'
}

/// The character of `s` at `pos`, if `pos` lies inside `s`.
pub open spec fn char_at(s: Seq<char>, pos: int) -> Option<char> {
    if 0 <= pos < s.len() {
        Some(s[pos])
    } else {
        None
    }
}

/// The position behind the longest run of characters of `class` that begins at
/// `pos`; `pos` itself where the run is empty or `pos` lies outside `s`.
pub open spec fn run_end(s: Seq<char>, pos: int, class: CharClass) -> int
    decreases s.len() - pos,
{
    if 0 <= pos < s.len() && class.holds(s[pos]) {
        run_end(s, pos + 1, class)
    } else {
        pos
    }
}

/// The position behind the blanks that begin at `pos`.
pub open spec fn skip_blank(s: Seq<char>, pos: int) -> int {
    run_end(s, pos, CharClass::Blank)
}

/// A run ends at or behind its start and inside the text; it holds only
/// characters of its class and cannot be extended.
pub proof fn lemma_run_end(s: Seq<char>, pos: int, class: CharClass)
    requires
        0 <= pos,
    ensures
        pos <= run_end(s, pos, class),
        pos <= s.len() ==> run_end(s, pos, class) <= s.len(),
        forall|i: int| pos <= i < run_end(s, pos, class) ==> class.holds(#[trigger] s[i]),
        run_end(s, pos, class) < s.len() ==> !class.holds(s[run_end(s, pos, class)]),
    decreases s.len() - pos,
{
    if pos < s.len() && class.holds(s[pos]) {
        lemma_run_end(s, pos + 1, class);
    }
}

/// A position up to which every character belongs to `class`, and behind which
/// the next one does not, is where the run from `pos` ends.
pub proof fn lemma_run_end_is(s: Seq<char>, pos: int, end: int, class: CharClass)
    requires
        0 <= pos <= end <= s.len(),
        forall|i: int| pos <= i < end ==> class.holds(#[trigger] s[i]),
        end < s.len() ==> !class.holds(s[end]),
    ensures
        run_end(s, pos, class) == end,
    decreases end - pos,
{
    if pos < end {
        lemma_run_end_is(s, pos + 1, end, class);
    }
}

/// Scanning again from the end of a run, or from anywhere inside it, ends at the
/// same place.
pub proof fn lemma_run_end_again(s: Seq<char>, pos: int, mid: int, class: CharClass)
    requires
        0 <= pos <= mid <= run_end(s, pos, class),
    ensures
        run_end(s, mid, class) == run_end(s, pos, class),
    decreases mid - pos,
{
    if pos < mid {
        lemma_run_end_again(s, pos + 1, mid, class);
    }
}

/// Finds the end of the run of characters of `class` that begins at `pos`.
pub fn scan_run(s: &[char], pos: usize, class: CharClass) -> (end: usize)
    ensures
        end == run_end(s@, pos as int, class),
        pos <= end,
        pos <= s.len() ==> end <= s.len(),
{
    let mut i: usize = pos;
    while i < s.len() && class.has(s[i])
        invariant
            pos <= i,
            pos <= s.len() ==> i <= s.len(),
            run_end(s@, pos as int, class) == run_end(s@, i as int, class),
        decreases s.len() - i,
    {
        i += 1;
    }
    i
}

/// Skips the blanks that begin at `pos`.
pub fn skip_blanks(s: &[char], pos: usize) -> (end: usize)
    ensures
        end == skip_blank(s@, pos as int),
        pos <= end,
        pos <= s.len() ==> end <= s.len(),
{
    scan_run(s, pos, CharClass::Blank)
}

/// Whether the word `word`, which is not empty, stands in `s` from `pos` on.
pub open spec fn has_tag(s: Seq<char>, pos: int, word: Seq<char>) -> bool {
    &&& 0 <= pos
    &&& 0 < word.len()
    &&& pos + word.len() <= s.len()
    &&& s.subrange(pos, pos + word.len()) == word
}

/// The position behind the word `word` where it stands at `pos`.
pub open spec fn tag_end(s: Seq<char>, pos: int, word: Seq<char>) -> Option<int> {
    if has_tag(s, pos, word) {
        Some(pos + word.len())
    } else {
        None
    }
}

/// The position behind whichever of the two words stands at `pos`, the first
/// one tried first.
pub open spec fn either_tag_end(s: Seq<char>, pos: int, first: Seq<char>, second: Seq<char>) -> Option<int> {
    if has_tag(s, pos, first) {
        Some(pos + first.len())
    } else {
        tag_end(s, pos, second)
    }
}

/// Tests whether `word` stands in `s` from `pos` on, and yields the position
/// behind it.
pub fn tag(s: &[char], pos: usize, word: &str) -> (r: Option<usize>)
    ensures
        match r {
            Some(next) => tag_end(s@, pos as int, word@) == Some(next as int) && pos < next
                <= s.len(),
            None => tag_end(s@, pos as int, word@) is None,
        },
{
    let n: usize = word.unicode_len();
    if n == 0 || pos > s.len() || n > s.len() - pos {
        return None;
    }
    let mut i: usize = 0;
    while i < n
        invariant
            i <= n,
            n == word@.len(),
            pos + n <= s.len(),
            s@.subrange(pos as int, pos + i) == word@.subrange(0, i as int),
        decreases n - i,
    {
        if s[pos + i] != word.get_char(i) {
            assert(s@.subrange(pos as int, pos + n)[i as int] != word@[i as int]);
            return None;
        }
        proof {
            assert(s@.subrange(pos as int, pos + i + 1) == s@.subrange(pos as int, pos + i).push(
                s@[pos + i],
            ));
            assert(word@.subrange(0, i + 1) == word@.subrange(0, i as int).push(word@[i as int]));
        }
        i += 1;
    }
    assert(word@.subrange(0, n as int) == word@);
    Some(pos + n)
}

/// Tests whether one of two words stands in `s` from `pos` on, the first one
/// tried first, and yields the position behind it.
pub fn either_tag(s: &[char], pos: usize, first: &str, second: &str) -> (r: Option<usize>)
    ensures
        match r {
            Some(next) => either_tag_end(s@, pos as int, first@, second@) == Some(next as int)
                && pos < next <= s.len(),
            None => either_tag_end(s@, pos as int, first@, second@) is None,
        },
{
    match tag(s, pos, first) {
        Some(next) => Some(next),
        None => tag(s, pos, second),
    }
}

/// The given stretch of `s` as a string.
pub(crate) fn text_of(s: &[char], from: usize, to: usize) -> (r: String)
    requires
        from <= to <= s.len(),
    ensures
        r@ == s@.subrange(from as int, to as int),
{
    let mut r = String::new();
    let mut i: usize = from;
    while i < to
        invariant
            from <= i <= to <= s.len(),
            r@ == s@.subrange(from as int, i as int),
        decreases to - i,
    {
        r.push(s[i]);
        i += 1;
        assert(s@.subrange(from as int, i as int) == s@.subrange(from as int, i - 1).push(
            s@[i - 1],
        ));
    }
    r
}

/// The characters of `text`, one element each.
pub fn chars_of(text: &str) -> (r: Vec<char>)
    ensures
        r@ == text@,
{
    let mut r: Vec<char> = Vec::new();
    for c in it: text.chars()
        invariant
            it.seq() == text@,
            r@ =~= it.seq().take(it.index() as int),
    {
        r.push(c);
    }
    assert(r@ =~= text@);
    r
}

/// `String::push` appends one character to the text.
pub assume_specification[ String::push ](text: &mut String, c: char)
    ensures
        final(text)@ == old(text)@.push(c),
;

} // verus!
