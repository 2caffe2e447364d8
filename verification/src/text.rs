//! Byte strings.
//!
//! Paths, content-type names and command lines are all handled as plain byte
//! strings (`Vec<u8>`, viewed as `Seq<u8>`), which is what they are on a Unix
//! system. This module holds the handful of string operations the rest of the
//! crate is built from, each with its mathematical definition.

use vstd::prelude::*;

verus! {

/// The five ASCII blanks that separate the words of a command line:
/// space, tab, line feed, form feed and carriage return.
pub open spec fn is_blank(b: u8) -> bool {
    b == 32 || b == 9 || b == 10 || b == 12 || b == 13
}

/// `s` ends with `suffix`.
pub open spec fn finishes_with(s: Seq<u8>, suffix: Seq<u8>) -> bool {
    suffix.len() <= s.len() && s.subrange(s.len() - suffix.len(), s.len() as int) == suffix
}

/// `pattern` occurs in `s` at offset `at`.
pub open spec fn occurs_at(s: Seq<u8>, at: int, pattern: Seq<u8>) -> bool {
    0 <= at && at + pattern.len() <= s.len() && s.subrange(at, at + pattern.len()) == pattern
}

/// `s` with every occurrence of `pattern` replaced by `with`. Occurrences are
/// found from left to right and do not overlap; an empty pattern occurs
/// nowhere.
pub open spec fn replaced(s: Seq<u8>, pattern: Seq<u8>, with: Seq<u8>) -> Seq<u8>
    decreases s.len(),
{
    if pattern.len() == 0 || s.len() < pattern.len() {
        s
    } else if occurs_at(s, 0, pattern) {
        with + replaced(s.skip(pattern.len() as int), pattern, with)
    } else {
        seq![s[0]] + replaced(s.skip(1), pattern, with)
    }
}

/// The words of `s` that follow once the word `current` has been started:
/// a blank ends the word in progress, the end of the text ends the last one,
/// and runs of blanks produce no empty words.
pub open spec fn words_after(s: Seq<u8>, current: Seq<u8>) -> Seq<Seq<u8>>
    decreases s.len(),
{
    if s.len() == 0 {
        if current.len() == 0 {
            seq![]
        } else {
            seq![current]
        }
    } else if is_blank(s[0]) {
        if current.len() == 0 {
            words_after(s.skip(1), current)
        } else {
            seq![current] + words_after(s.skip(1), seq![])
        }
    } else {
        words_after(s.skip(1), current.push(s[0]))
    }
}

/// The maximal runs of non-blank bytes of `s`, in order.
pub open spec fn words(s: Seq<u8>) -> Seq<Seq<u8>> {
    words_after(s, seq![])
}

/// The byte strings held by a vector of byte vectors.
pub open spec fn lines(v: Seq<Vec<u8>>) -> Seq<Seq<u8>> {
    Seq::new(v.len(), |i: int| v[i]@)
}

/// Whether `b` is a blank.
pub fn blank(b: u8) -> (r: bool)
    ensures
        r == is_blank(b),
{
    b == 32 || b == 9 || b == 10 || b == 12 || b == 13
}

/// A copy of the bytes `from..to` of `s`.
pub fn slice(s: &Vec<u8>, from: usize, to: usize) -> (r: Vec<u8>)
    requires
        from <= to <= s.len(),
    ensures
        r@ == s@.subrange(from as int, to as int),
{
    let mut r: Vec<u8> = Vec::new();
    let mut i: usize = from;
    while i < to
        invariant
            from <= i <= to <= s.len(),
            r@ == s@.subrange(from as int, i as int),
        decreases to - i,
    {
        r.push(s[i]);
        i += 1;
    }
    r
}

/// A copy of `s`.
pub fn copy(s: &Vec<u8>) -> (r: Vec<u8>)
    ensures
        r@ == s@,
{
    let r = slice(s, 0, s.len());
    assert(s@.subrange(0, s.len() as int) == s@);
    r
}

/// Appends `tail` to `head`.
pub fn append(head: &mut Vec<u8>, tail: &Vec<u8>)
    ensures
        final(head)@ == old(head)@ + tail@,
{
    let mut i: usize = 0;
    while i < tail.len()
        invariant
            i <= tail.len(),
            head@ == old(head)@ + tail@.subrange(0, i as int),
        decreases tail.len() - i,
    {
        head.push(tail[i]);
        i += 1;
    }
    assert(tail@.subrange(0, tail.len() as int) == tail@);
}

/// Whether the two byte strings are the same.
pub fn same(a: &Vec<u8>, b: &Vec<u8>) -> (r: bool)
    ensures
        r == (a@ == b@),
{
    if a.len() != b.len() {
        return false;
    }
    let mut i: usize = 0;
    while i < a.len()
        invariant
            i <= a.len(),
            a.len() == b.len(),
            a@.subrange(0, i as int) == b@.subrange(0, i as int),
        decreases a.len() - i,
    {
        if a[i] != b[i] {
            return false;
        }
        assert(a@.subrange(0, i + 1) == a@.subrange(0, i as int).push(a@[i as int]));
        assert(b@.subrange(0, i + 1) == b@.subrange(0, i as int).push(b@[i as int]));
        i += 1;
    }
    assert(a@.subrange(0, a.len() as int) == a@);
    assert(b@.subrange(0, b.len() as int) == b@);
    true
}

/// Whether `pattern` occurs in `s` at offset `at`.
pub fn matches_at(s: &Vec<u8>, at: usize, pattern: &Vec<u8>) -> (r: bool)
    ensures
        r == occurs_at(s@, at as int, pattern@),
{
    if at > s.len() || pattern.len() > s.len() - at {
        return false;
    }
    let mut i: usize = 0;
    while i < pattern.len()
        invariant
            i <= pattern.len(),
            at + pattern.len() <= s.len(),
            s@.subrange(at as int, at + i) == pattern@.subrange(0, i as int),
        decreases pattern.len() - i,
    {
        if s[at + i] != pattern[i] {
            assert(s@.subrange(at as int, at + pattern.len())[i as int] != pattern@[i as int]);
            return false;
        }
        assert(s@.subrange(at as int, at + i + 1) == s@.subrange(at as int, at + i).push(
            s@[at + i],
        ));
        assert(pattern@.subrange(0, i + 1) == pattern@.subrange(0, i as int).push(
            pattern@[i as int],
        ));
        i += 1;
    }
    assert(pattern@.subrange(0, pattern.len() as int) == pattern@);
    true
}

/// Whether `s` ends with `suffix`.
pub fn ends_with(s: &Vec<u8>, suffix: &Vec<u8>) -> (r: bool)
    ensures
        r == finishes_with(s@, suffix@),
{
    if suffix.len() > s.len() {
        return false;
    }
    matches_at(s, s.len() - suffix.len(), suffix)
}

/// Whether the byte `b` occurs in `s`.
pub fn contains(s: &Vec<u8>, b: u8) -> (r: bool)
    ensures
        r == s@.contains(b),
{
    let mut i: usize = 0;
    while i < s.len()
        invariant
            i <= s.len(),
            forall|j: int| 0 <= j < i ==> s@[j] != b,
        decreases s.len() - i,
    {
        if s[i] == b {
            return true;
        }
        i += 1;
    }
    false
}

/// Replaces every occurrence of `pattern` in `s` by `with`.
pub fn replace(s: &Vec<u8>, pattern: &Vec<u8>, with: &Vec<u8>) -> (r: Vec<u8>)
    ensures
        r@ == replaced(s@, pattern@, with@),
{
    if pattern.len() == 0 {
        return copy(s);
    }
    let mut out: Vec<u8> = Vec::new();
    let mut i: usize = 0;
    assert(s@.skip(0) == s@);
    while i < s.len()
        invariant
            i <= s.len(),
            pattern.len() > 0,
            replaced(s@, pattern@, with@) == out@ + replaced(s@.skip(i as int), pattern@, with@),
        decreases s.len() - i,
    {
        let ghost rest = s@.skip(i as int);
        if matches_at(s, i, pattern) {
            assert(rest.subrange(0, pattern.len() as int) == s@.subrange(
                i as int,
                i + pattern.len(),
            ));
            assert(rest.skip(pattern.len() as int) == s@.skip(i + pattern.len()));
            append(&mut out, with);
            i += pattern.len();
        } else {
            proof {
                if rest.len() >= pattern.len() {
                    assert(rest.subrange(0, pattern.len() as int) == s@.subrange(
                        i as int,
                        i + pattern.len(),
                    ));
                } else {
                    lemma_short_is_kept(rest.skip(1), pattern@, with@);
                    assert(rest == seq![rest[0]] + rest.skip(1));
                }
                assert(rest.skip(1) == s@.skip(i + 1));
            }
            out.push(s[i]);
            i += 1;
        }
    }
    assert(s@.skip(s.len() as int) == Seq::<u8>::empty());
    assert(out@ + Seq::<u8>::empty() == out@);
    out
}

/// Splits `s` into its words.
pub fn split_words(s: &Vec<u8>) -> (r: Vec<Vec<u8>>)
    ensures
        lines(r@) == words(s@),
{
    let mut out: Vec<Vec<u8>> = Vec::new();
    let mut current: Vec<u8> = Vec::new();
    let mut i: usize = 0;
    assert(s@.skip(0) == s@);
    assert(lines(out@) + words_after(s@, current@) == words(s@));
    while i < s.len()
        invariant
            i <= s.len(),
            lines(out@) + words_after(s@.skip(i as int), current@) == words(s@),
        decreases s.len() - i,
    {
        let ghost rest = s@.skip(i as int);
        let ghost before = lines(out@);
        assert(rest.skip(1) == s@.skip(i + 1));
        if blank(s[i]) {
            if current.len() > 0 {
                let ghost word = current@;
                out.push(current);
                current = Vec::new();
                assert(lines(out@) == before + seq![word]);
                assert(before + (seq![word] + words_after(rest.skip(1), seq![])) == (before
                    + seq![word]) + words_after(rest.skip(1), seq![]));
            }
        } else {
            current.push(s[i]);
        }
        i += 1;
    }
    assert(s@.skip(s.len() as int).len() == 0);
    if current.len() > 0 {
        let ghost word = current@;
        let ghost before = lines(out@);
        out.push(current);
        assert(lines(out@) == before + seq![word]);
    } else {
        assert(lines(out@) + Seq::<Seq<u8>>::empty() == lines(out@));
    }
    out
}

/// A text shorter than the pattern holds no occurrence of it.
proof fn lemma_short_is_kept(s: Seq<u8>, pattern: Seq<u8>, with: Seq<u8>)
    requires
        s.len() < pattern.len(),
    ensures
        replaced(s, pattern, with) == s,
{
}

} // verus!
