//! Whitespace, words and trimming on lines of text.
//!
//! A line is read as a sequence of characters. Words are the maximal runs of
//! characters that are not whitespace, numbered from the left.

use vstd::prelude::*;
use vstd::std_specs::iter::IteratorSpec;

verus! {

/// The characters that separate words: those with the Unicode property
/// `White_Space`.
pub open spec fn is_whitespace(c: char) -> bool {
    let n = c as u32;
    ||| 0x09 <= n <= 0x0d
    ||| n == 0x20
    ||| n == 0x85
    ||| n == 0xa0
    ||| n == 0x1680
    ||| 0x2000 <= n <= 0x200a
    ||| n == 0x2028
    ||| n == 0x2029
    ||| n == 0x202f
    ||| n == 0x205f
    ||| n == 0x3000
}

/// The first position at or after `from` that holds no whitespace; the length
/// of `s` where there is none.
pub open spec fn skip_spaces(s: Seq<char>, from: int) -> int
    decreases s.len() - from,
{
    if 0 <= from < s.len() && is_whitespace(s[from]) {
        skip_spaces(s, from + 1)
    } else {
        from
    }
}

/// The first position at or after `from` that holds whitespace; the length of
/// `s` where there is none.
pub open spec fn skip_word(s: Seq<char>, from: int) -> int
    decreases s.len() - from,
{
    if 0 <= from < s.len() && !is_whitespace(s[from]) {
        skip_word(s, from + 1)
    } else {
        from
    }
}

/// The position behind the first word that starts at or after `from`.
pub open spec fn after_word(s: Seq<char>, from: int) -> int {
    skip_word(s, skip_spaces(s, from))
}

/// The first word that starts at or after `from`, if there is one.
pub open spec fn word_at(s: Seq<char>, from: int) -> Option<Seq<char>> {
    let start = skip_spaces(s, from);
    if 0 <= start < s.len() {
        Some(s.subrange(start, skip_word(s, start)))
    } else {
        None
    }
}

/// The position from which word number `n` of `s` is looked for.
pub open spec fn word_pos(s: Seq<char>, n: nat) -> int
    decreases n,
{
    if n == 0 {
        0
    } else {
        after_word(s, word_pos(s, (n - 1) as nat))
    }
}

/// Word number `n` of `s`, counted from zero; `None` where `s` has at most
/// `n` words.
pub open spec fn word(s: Seq<char>, n: nat) -> Option<Seq<char>> {
    word_at(s, word_pos(s, n))
}

/// The position behind the last character of `s[..to]` that is no whitespace.
pub open spec fn drop_spaces(s: Seq<char>, to: int) -> int
    decreases to,
{
    if 0 < to <= s.len() && is_whitespace(s[to - 1]) {
        drop_spaces(s, to - 1)
    } else {
        to
    }
}

/// `s` without the whitespace at its two ends.
pub open spec fn trimmed(s: Seq<char>) -> Seq<char> {
    let start = skip_spaces(s, 0);
    let end = drop_spaces(s, s.len() as int);
    if start < end {
        s.subrange(start, end)
    } else {
        Seq::empty()
    }
}

pub proof fn lemma_skip_spaces_bounds(s: Seq<char>, from: int)
    requires
        0 <= from <= s.len(),
    ensures
        from <= skip_spaces(s, from) <= s.len(),
    decreases s.len() - from,
{
    if from < s.len() && is_whitespace(s[from]) {
        lemma_skip_spaces_bounds(s, from + 1);
    }
}

pub proof fn lemma_skip_word_bounds(s: Seq<char>, from: int)
    requires
        0 <= from <= s.len(),
    ensures
        from <= skip_word(s, from) <= s.len(),
    decreases s.len() - from,
{
    if from < s.len() && !is_whitespace(s[from]) {
        lemma_skip_word_bounds(s, from + 1);
    }
}

pub proof fn lemma_word_pos_bounds(s: Seq<char>, n: nat)
    ensures
        0 <= word_pos(s, n) <= s.len(),
    decreases n,
{
    if n > 0 {
        let p = word_pos(s, (n - 1) as nat);
        lemma_word_pos_bounds(s, (n - 1) as nat);
        lemma_skip_spaces_bounds(s, p);
        lemma_skip_word_bounds(s, skip_spaces(s, p));
    }
}

pub fn char_is_whitespace(c: char) -> (b: bool)
    ensures
        b == is_whitespace(c),
{
    let n: u32 = c as u32;
    (0x09 <= n && n <= 0x0d) || n == 0x20 || n == 0x85 || n == 0xa0 || n == 0x1680 || (0x2000 <= n
        && n <= 0x200a) || n == 0x2028 || n == 0x2029 || n == 0x202f || n == 0x205f || n == 0x3000
}

/// The characters of `s`, one by one.
pub fn chars_of(s: &str) -> (cs: Vec<char>)
    ensures
        cs@ == s@,
{
    let mut cs: Vec<char> = Vec::new();
    let it = s.chars();
    for c in iter: it
        invariant
            iter.seq() == s@,
            cs@ == s@.take(iter.index()),
    {
        cs.push(c);
        assert(s@.take(iter.index() + 1) =~= s@.take(iter.index()).push(c));
    }
    assert(s@.take(s@.len() as int) =~= s@);
    cs
}

/// Whether two pieces of text hold the same characters.
pub fn same_text(a: &str, b: &str) -> (same: bool)
    ensures
        same == (a@ == b@),
{
    let x = a.to_owned();
    let y = b.to_owned();
    x == y
}

pub fn skip_spaces_in(cs: &Vec<char>, from: usize) -> (to: usize)
    requires
        from <= cs.len(),
    ensures
        to == skip_spaces(cs@, from as int),
        from <= to <= cs.len(),
{
    let mut i: usize = from;
    while i < cs.len() && char_is_whitespace(cs[i])
        invariant
            from <= i <= cs.len(),
            skip_spaces(cs@, i as int) == skip_spaces(cs@, from as int),
        decreases cs.len() - i,
    {
        i += 1;
    }
    i
}

pub fn skip_word_in(cs: &Vec<char>, from: usize) -> (to: usize)
    requires
        from <= cs.len(),
    ensures
        to == skip_word(cs@, from as int),
        from <= to <= cs.len(),
{
    let mut i: usize = from;
    while i < cs.len() && !char_is_whitespace(cs[i])
        invariant
            from <= i <= cs.len(),
            skip_word(cs@, i as int) == skip_word(cs@, from as int),
        decreases cs.len() - i,
    {
        i += 1;
    }
    i
}

pub fn drop_spaces_in(cs: &Vec<char>, to: usize) -> (end: usize)
    requires
        to <= cs.len(),
    ensures
        end == drop_spaces(cs@, to as int),
        end <= to,
{
    let mut i: usize = to;
    while i > 0 && char_is_whitespace(cs[i - 1])
        invariant
            i <= to <= cs.len(),
            drop_spaces(cs@, i as int) == drop_spaces(cs@, to as int),
        decreases i,
    {
        i -= 1;
    }
    i
}

/// The first word of `line` at or after position `from`, with the position
/// behind it. `cs` holds the characters of `line`.
pub fn next_word<'a>(line: &'a str, cs: &Vec<char>, from: usize) -> (r: (Option<&'a str>, usize))
    requires
        cs@ == line@,
        from <= cs.len(),
    ensures
        r.1 == after_word(line@, from as int),
        from <= r.1 <= cs.len(),
        match r.0 {
            Some(w) => word_at(line@, from as int) == Some(w@),
            None => word_at(line@, from as int) is None,
        },
{
    let start = skip_spaces_in(cs, from);
    let end = skip_word_in(cs, start);
    if start < cs.len() {
        (Some(line.substring_char(start, end)), end)
    } else {
        (None, end)
    }
}

/// `s` without the whitespace at its two ends.
pub fn trim<'a>(s: &'a str) -> (t: &'a str)
    ensures
        t@ == trimmed(s@),
{
    let cs = chars_of(s);
    let start = skip_spaces_in(&cs, 0);
    let end = drop_spaces_in(&cs, cs.len());
    if start < end {
        s.substring_char(start, end)
    } else {
        s.substring_char(0, 0)
    }
}

} // verus!
