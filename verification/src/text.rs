//! Searching in text, stated over sequences of characters.

use vstd::prelude::*;
use vstd::std_specs::iter::IteratorSpec;

verus! {

/// `pattern` stands in `text` at position `at`.
pub open spec fn occurs_at(text: Seq<char>, pattern: Seq<char>, at: int) -> bool {
    &&& 0 <= at
    &&& at + pattern.len() <= text.len()
    &&& text.subrange(at, at + pattern.len()) == pattern
}

/// `pattern` stands somewhere in `text`.
pub open spec fn occurs_in(text: Seq<char>, pattern: Seq<char>) -> bool {
    exists|at: int| occurs_at(text, pattern, at)
}

/// `text` ends with `suffix`.
pub open spec fn ends_with(text: Seq<char>, suffix: Seq<char>) -> bool {
    occurs_at(text, suffix, text.len() - suffix.len())
}

/// The position of the first `c` in `s`, or the length of `s` if it holds none.
pub open spec fn first_index_of(s: Seq<char>, c: char) -> int
    decreases s.len(),
{
    if s.len() == 0 || s[0] == c {
        0
    } else {
        1 + first_index_of(s.skip(1), c)
    }
}

/// The position of the first character of `s` that is not `c`, or the length of `s` if it holds
/// nothing else.
pub open spec fn first_index_not(s: Seq<char>, c: char) -> int
    decreases s.len(),
{
    if s.len() == 0 || s[0] != c {
        0
    } else {
        1 + first_index_not(s.skip(1), c)
    }
}

/// A position before which `s` holds no `c`, and which is the end of `s` or holds `c`, is
/// `first_index_of`.
pub proof fn lemma_first_index_of_is(s: Seq<char>, c: char, k: int)
    requires
        0 <= k <= s.len(),
        forall|j: int| 0 <= j < k ==> s[j] != c,
        k < s.len() ==> s[k] == c,
    ensures
        first_index_of(s, c) == k,
    decreases s.len(),
{
    if k > 0 {
        lemma_first_index_of_is(s.skip(1), c, k - 1);
    }
}

/// A position before which `s` holds `c` only, and which is the end of `s` or holds something
/// else, is `first_index_not`.
pub proof fn lemma_first_index_not_is(s: Seq<char>, c: char, k: int)
    requires
        0 <= k <= s.len(),
        forall|j: int| 0 <= j < k ==> s[j] == c,
        k < s.len() ==> s[k] != c,
    ensures
        first_index_not(s, c) == k,
    decreases s.len(),
{
    if k > 0 {
        lemma_first_index_not_is(s.skip(1), c, k - 1);
    }
}

/// The characters of a string, in a vector.
pub fn chars_of(s: &str) -> (v: Vec<char>)
    ensures
        v@ == s@,
{
    let mut v: Vec<char> = Vec::new();
    for c in it: s.chars()
        invariant
            it.seq() == s@,
            v@ == it.seq().take(it.index() as int),
    {
        v.push(c);
    }
    v
}

/// Whether `pattern` stands in `text` at position `at`.
pub fn matches_at(text: &Vec<char>, pattern: &Vec<char>, at: usize) -> (r: bool)
    ensures
        r == occurs_at(text@, pattern@, at as int),
{
    if at > text.len() || pattern.len() > text.len() - at {
        return false;
    }
    let mut k: usize = 0;
    while k < pattern.len()
        invariant
            at + pattern.len() <= text.len(),
            k <= pattern.len(),
            forall|j: int| 0 <= j < k ==> text@[at + j] == pattern@[j],
        decreases pattern.len() - k,
    {
        if text[at + k] != pattern[k] {
            return false;
        }
        k = k + 1;
    }
    assert(text@.subrange(at as int, at + pattern.len()) =~= pattern@);
    true
}

/// Whether `pattern` stands somewhere in `text`.
pub fn contains(text: &Vec<char>, pattern: &Vec<char>) -> (r: bool)
    ensures
        r == occurs_in(text@, pattern@),
{
    if pattern.len() > text.len() {
        return false;
    }
    let last: usize = text.len() - pattern.len();
    let mut at: usize = 0;
    while at < last
        invariant
            last == text.len() - pattern.len(),
            at <= last,
            forall|j: int| 0 <= j < at ==> !occurs_at(text@, pattern@, j),
        decreases last - at,
    {
        if matches_at(text, pattern, at) {
            return true;
        }
        at = at + 1;
    }
    matches_at(text, pattern, last)
}

/// Whether the string `text` contains the string `pattern`.
pub fn str_contains(text: &str, pattern: &str) -> (r: bool)
    ensures
        r == occurs_in(text@, pattern@),
{
    let t = chars_of(text);
    let p = chars_of(pattern);
    contains(&t, &p)
}

/// Whether the string `text` ends with the string `suffix`.
pub fn str_ends_with(text: &str, suffix: &str) -> (r: bool)
    ensures
        r == ends_with(text@, suffix@),
{
    let t = chars_of(text);
    let s = chars_of(suffix);
    if s.len() > t.len() {
        return false;
    }
    matches_at(&t, &s, t.len() - s.len())
}

/// The position of the first `c` in `s`, or the length of `s` if it holds none.
pub fn position_of(s: &str, c: char) -> (at: usize)
    ensures
        at == first_index_of(s@, c),
{
    let len: usize = s.unicode_len();
    let mut at: usize = 0;
    for x in it: s.chars()
        invariant
            it.seq() == s@,
            len == s@.len(),
            at == it.index(),
            forall|j: int| 0 <= j < at ==> s@[j] != c,
    {
        if x == c {
            proof {
                lemma_first_index_of_is(s@, c, at as int);
            }
            return at;
        }
        at = at + 1;
    }
    proof {
        lemma_first_index_of_is(s@, c, at as int);
    }
    at
}

/// The position of the first character of `s` that is not `c`, or the length of `s` if it holds
/// nothing else.
pub fn position_of_other(s: &str, c: char) -> (at: usize)
    ensures
        at == first_index_not(s@, c),
{
    let len: usize = s.unicode_len();
    let mut at: usize = 0;
    for x in it: s.chars()
        invariant
            it.seq() == s@,
            len == s@.len(),
            at == it.index(),
            forall|j: int| 0 <= j < at ==> s@[j] == c,
    {
        if x != c {
            proof {
                lemma_first_index_not_is(s@, c, at as int);
            }
            return at;
        }
        at = at + 1;
    }
    proof {
        lemma_first_index_not_is(s@, c, at as int);
    }
    at
}

} // verus!
