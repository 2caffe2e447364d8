//! Paths as byte strings: resolving a virtual path under a root directory,
//! and taking a path apart into directory, file name, stem and extension.

use vstd::prelude::*;
use crate::text::{append, copy, slice};

verus! {

/// The byte that separates the components of a path, `/`.
pub const SEPARATOR: u8 = 47;

/// The byte that separates a file's stem from its extension, `.`.
pub const DOT: u8 = 46;

/// A path is absolute when it begins with a separator.
pub open spec fn is_absolute(p: Seq<u8>) -> bool {
    p.len() > 0 && p[0] == SEPARATOR
}

/// The index of the last occurrence of `b` in `s`, or -1 where there is none.
pub open spec fn last_index_of(s: Seq<u8>, b: u8) -> int
    decreases s.len(),
{
    if s.len() == 0 {
        -1
    } else if s.last() == b {
        s.len() - 1
    } else {
        last_index_of(s.drop_last(), b)
    }
}

/// The number of separators that `p` begins with.
pub open spec fn root_len(p: Seq<u8>) -> int
    decreases p.len(),
{
    if p.len() > 0 && p[0] == SEPARATOR {
        1 + root_len(p.skip(1))
    } else {
        0
    }
}

/// `p` without the separators it begins with.
pub open spec fn without_root(p: Seq<u8>) -> Seq<u8> {
    p.skip(root_len(p))
}

/// `rel` placed under `base`: an absolute `rel` stands for itself, otherwise
/// the two are put together with exactly one separator between them, unless
/// `base` is empty or already ends with one.
pub open spec fn joined(base: Seq<u8>, rel: Seq<u8>) -> Seq<u8> {
    if is_absolute(rel) {
        rel
    } else if base.len() == 0 || base.last() == SEPARATOR {
        base + rel
    } else {
        base + seq![SEPARATOR] + rel
    }
}

/// The real path that the virtual path `partial` stands for under `target`.
pub open spec fn resolved(target: Seq<u8>, partial: Seq<u8>) -> Seq<u8> {
    joined(target, without_root(partial))
}

/// The offset at which the last component of `p` starts: just behind the
/// last separator, or 0 where `p` holds none.
pub open spec fn name_start(p: Seq<u8>) -> int {
    last_index_of(p, SEPARATOR) + 1
}

/// The last component of `p`: what follows its last separator.
pub open spec fn file_name(p: Seq<u8>) -> Seq<u8> {
    p.skip(name_start(p))
}

/// A last component that names a file: not empty, and neither `.` nor `..`.
pub open spec fn names_file(name: Seq<u8>) -> bool {
    name.len() > 0 && name != seq![DOT] && name != seq![DOT, DOT]
}

/// A file name without its extension. The extension is what follows the last
/// dot; a name that has no dot, or only the one it begins with, has none.
pub open spec fn stem(name: Seq<u8>) -> Seq<u8> {
    if last_index_of(name, DOT) <= 0 {
        name
    } else {
        name.subrange(0, last_index_of(name, DOT))
    }
}

/// `p` with the extension of its file name set to `extension`: the old
/// extension, if any, is dropped, and a dot and `extension` are added unless
/// `extension` is empty. A path whose last component names no file is kept
/// as it is.
pub open spec fn with_extension(p: Seq<u8>, extension: Seq<u8>) -> Seq<u8> {
    if !names_file(file_name(p)) {
        p
    } else if extension.len() == 0 {
        p.subrange(0, name_start(p)) + stem(file_name(p))
    } else {
        p.subrange(0, name_start(p)) + stem(file_name(p)) + seq![DOT] + extension
    }
}

/// `p` without the separators it ends with; a path made of separators only
/// keeps its first.
pub open spec fn trimmed(p: Seq<u8>) -> Seq<u8>
    decreases p.len(),
{
    if p.len() > 1 && p.last() == SEPARATOR {
        trimmed(p.drop_last())
    } else {
        p
    }
}

/// The directory that holds the last component of `p`.
pub open spec fn parent(p: Seq<u8>) -> Seq<u8> {
    trimmed(p.subrange(0, name_start(p)))
}

/// Where the last `b` stands in `s`, and that none follows it.
pub proof fn lemma_last_index_of(s: Seq<u8>, b: u8)
    ensures
        -1 <= last_index_of(s, b) < s.len(),
        last_index_of(s, b) >= 0 ==> s[last_index_of(s, b)] == b,
        forall|j: int| last_index_of(s, b) < j < s.len() ==> s[j] != b,
    decreases s.len(),
{
    if s.len() > 0 && s.last() != b {
        lemma_last_index_of(s.drop_last(), b);
        assert forall|j: int| last_index_of(s, b) < j < s.len() implies s[j] != b by {
            if j < s.len() - 1 {
                assert(s.drop_last()[j] == s[j]);
            }
        }
    }
}

/// The file name of a path holds no separator, and together with what stands
/// before it makes up the path.
pub proof fn lemma_file_name(p: Seq<u8>)
    ensures
        0 <= name_start(p) <= p.len(),
        !file_name(p).contains(SEPARATOR),
        p.subrange(0, name_start(p)) + file_name(p) == p,
        name_start(p) > 0 ==> p[name_start(p) - 1] == SEPARATOR,
{
    lemma_last_index_of(p, SEPARATOR);
}

/// The index of the last `b` in `s`, if there is one.
pub fn rfind(s: &Vec<u8>, b: u8) -> (r: Option<usize>)
    ensures
        match r {
            Some(i) => i == last_index_of(s@, b) && i < s.len(),
            None => last_index_of(s@, b) == -1,
        },
{
    let mut k: usize = s.len();
    assert(s@.subrange(0, k as int) == s@);
    while k > 0
        invariant
            k <= s.len(),
            last_index_of(s@, b) == last_index_of(s@.subrange(0, k as int), b),
        decreases k,
    {
        if s[k - 1] == b {
            return Some(k - 1);
        }
        assert(s@.subrange(0, k as int).drop_last() == s@.subrange(0, k - 1));
        k -= 1;
    }
    None
}

/// Whether `p` begins with a separator.
pub fn absolute(p: &Vec<u8>) -> (r: bool)
    ensures
        r == is_absolute(p@),
{
    p.len() > 0 && p[0] == SEPARATOR
}

/// The offset at which the last component of `p` starts.
pub fn name_offset(p: &Vec<u8>) -> (k: usize)
    ensures
        k == name_start(p@),
        k <= p.len(),
{
    proof {
        lemma_last_index_of(p@, SEPARATOR);
    }
    match rfind(p, SEPARATOR) {
        Some(i) => i + 1,
        None => 0,
    }
}

/// The last component of `p`.
pub fn base_name(p: &Vec<u8>) -> (r: Vec<u8>)
    ensures
        r@ == file_name(p@),
{
    let k = name_offset(p);
    slice(p, k, p.len())
}

/// Puts `rel` under `base`.
pub fn join(base: &Vec<u8>, rel: &Vec<u8>) -> (r: Vec<u8>)
    ensures
        r@ == joined(base@, rel@),
{
    if absolute(rel) {
        return copy(rel);
    }
    let mut r = copy(base);
    if base.len() > 0 && base[base.len() - 1] != SEPARATOR {
        r.push(SEPARATOR);
    }
    append(&mut r, rel);
    r
}

/// Resolves the virtual path `partial` under the directory `target`: the
/// separators that `partial` begins with are dropped, and the rest is joined
/// onto `target`.
pub fn real_path(target: &Vec<u8>, partial: &Vec<u8>) -> (r: Vec<u8>)
    requires
        is_absolute(partial@),
    ensures
        r@ == resolved(target@, partial@),
{
    let mut k: usize = 0;
    assert(partial@.skip(0) == partial@);
    while k < partial.len() && partial[k] == SEPARATOR
        invariant
            k <= partial.len(),
            root_len(partial@) == k + root_len(partial@.skip(k as int)),
        decreases partial.len() - k,
    {
        assert(partial@.skip(k as int).skip(1) == partial@.skip(k + 1));
        k += 1;
    }
    let rest = slice(partial, k, partial.len());
    join(target, &rest)
}

/// Sets the extension of the file that `p` names.
pub fn set_extension(p: &Vec<u8>, extension: &Vec<u8>) -> (r: Vec<u8>)
    ensures
        r@ == with_extension(p@, extension@),
{
    let start = name_offset(p);
    let name = slice(p, start, p.len());
    let n = name.len();
    if n == 0 || (n == 1 && name[0] == DOT) || (n == 2 && name[0] == DOT && name[1] == DOT) {
        assert(!names_file(name@)) by {
            if n == 1 {
                assert(name@ =~= seq![DOT]);
            }
            if n == 2 {
                assert(name@ =~= seq![DOT, DOT]);
            }
        }
        return copy(p);
    }
    assert(names_file(name@)) by {
        if name@ == seq![DOT] {
            assert(seq![DOT].len() == 1 && seq![DOT][0] == DOT);
        }
        if name@ == seq![DOT, DOT] {
            assert(seq![DOT, DOT].len() == 2 && seq![DOT, DOT][0] == DOT && seq![DOT, DOT][1]
                == DOT);
        }
    }
    let keep = match rfind(&name, DOT) {
        Some(d) => if d == 0 {
            n
        } else {
            d
        },
        None => n,
    };
    proof {
        lemma_last_index_of(name@, DOT);
        assert(name@.subrange(0, n as int) == name@);
        assert(stem(name@) == name@.subrange(0, keep as int));
        assert(p@.subrange(0, start as int) + name@.subrange(0, keep as int) == p@.subrange(
            0,
            start + keep,
        ));
    }
    let mut r = slice(p, 0, start + keep);
    if extension.len() > 0 {
        r.push(DOT);
        append(&mut r, extension);
    }
    r
}

/// The directory that holds the last component of `p`.
pub fn parent_dir(p: &Vec<u8>) -> (r: Vec<u8>)
    ensures
        r@ == parent(p@),
{
    let start = name_offset(p);
    let mut k: usize = start;
    assert(p@.subrange(0, start as int).subrange(0, k as int) == p@.subrange(0, start as int));
    while k > 1 && p[k - 1] == SEPARATOR
        invariant
            k <= start <= p.len(),
            trimmed(p@.subrange(0, start as int)) == trimmed(p@.subrange(0, k as int)),
        decreases k,
    {
        assert(p@.subrange(0, k as int).drop_last() == p@.subrange(0, k - 1));
        k -= 1;
    }
    slice(p, 0, k)
}

/// The separators that a path begins with are exactly its first `root_len`
/// bytes.
pub proof fn lemma_root_len(p: Seq<u8>)
    ensures
        0 <= root_len(p) <= p.len(),
        forall|i: int| 0 <= i < root_len(p) ==> p[i] == SEPARATOR,
        root_len(p) < p.len() ==> p[root_len(p)] != SEPARATOR,
        !is_absolute(without_root(p)),
    decreases p.len(),
{
    if p.len() > 0 && p[0] == SEPARATOR {
        let rest = p.skip(1);
        lemma_root_len(rest);
        assert forall|i: int| 0 <= i < root_len(p) implies p[i] == SEPARATOR by {
            if i > 0 {
                assert(rest[i - 1] == p[i]);
            }
        }
        if root_len(p) < p.len() {
            assert(rest[root_len(rest)] == p[root_len(p)]);
        }
    }
}

/// Where a name without separators follows a directory part, the name is
/// the file name of the whole.
pub proof fn lemma_name_of_concat(directory: Seq<u8>, name: Seq<u8>)
    requires
        directory.len() == 0 || directory.last() == SEPARATOR,
        !name.contains(SEPARATOR),
    ensures
        name_start(directory + name) == directory.len(),
        file_name(directory + name) == name,
    decreases name.len(),
{
    let whole = directory + name;
    if name.len() == 0 {
        assert(whole == directory);
    } else {
        assert(name.last() != SEPARATOR) by {
            assert(name[name.len() - 1] == name.last());
        }
        assert(whole.last() == name.last());
        assert(whole.drop_last() == directory + name.drop_last());
        assert(!name.drop_last().contains(SEPARATOR)) by {
            if name.drop_last().contains(SEPARATOR) {
                let i = choose|i: int|
                    0 <= i < name.drop_last().len() && name.drop_last()[i] == SEPARATOR;
                assert(name[i] == SEPARATOR);
            }
        }
        lemma_name_of_concat(directory, name.drop_last());
    }
    assert(whole.skip(directory.len() as int) == name);
}

/// Resolving a path under a root keeps its file name.
pub proof fn lemma_resolved_keeps_name(target: Seq<u8>, partial: Seq<u8>)
    requires
        is_absolute(partial),
    ensures
        file_name(resolved(target, partial)) == file_name(partial),
{
    lemma_file_name(partial);
    lemma_root_len(partial);
    let name = file_name(partial);
    let directory = partial.subrange(0, name_start(partial));
    let k = root_len(partial);
    if k > directory.len() {
        assert(name[0] == partial[directory.len() as int]);
        assert(name.contains(SEPARATOR));
    }
    let rest = directory.skip(k);
    assert(without_root(partial) == rest + name);
    if rest.len() > 0 {
        assert(rest.last() == directory.last());
    }
    let front = if target.len() == 0 || target.last() == SEPARATOR {
        target
    } else {
        target.push(SEPARATOR)
    };
    assert(resolved(target, partial) == (front + rest) + name);
    lemma_name_of_concat(front + rest, name);
}

/// A name without separators that is put into an absolute directory and then
/// resolved under a root is still the file name of what comes out.
pub proof fn lemma_resolved_entry_name(target: Seq<u8>, directory: Seq<u8>, name: Seq<u8>)
    requires
        is_absolute(directory),
        !name.contains(SEPARATOR),
    ensures
        is_absolute(joined(directory, name)),
        file_name(joined(directory, name)) == name,
        file_name(resolved(target, joined(directory, name))) == name,
{
    if name.len() > 0 {
        assert(name[0] != SEPARATOR);
    }
    let front = if directory.last() == SEPARATOR {
        directory
    } else {
        directory.push(SEPARATOR)
    };
    assert(joined(directory, name) == front + name);
    lemma_name_of_concat(front, name);
    lemma_resolved_keeps_name(target, joined(directory, name));
}

/// Setting the extension changes the file name only, and changes it as it
/// would change the name standing alone.
pub proof fn lemma_extension_of_name(p: Seq<u8>, extension: Seq<u8>)
    requires
        !extension.contains(SEPARATOR),
    ensures
        file_name(with_extension(p, extension)) == with_extension(file_name(p), extension),
        is_absolute(p) ==> is_absolute(with_extension(p, extension)),
{
    lemma_file_name(p);
    let name = file_name(p);
    let directory = p.subrange(0, name_start(p));
    lemma_name_of_concat(Seq::empty(), name);
    assert(Seq::<u8>::empty() + name == name);
    assert(name.subrange(0, 0) == Seq::<u8>::empty());
    if names_file(name) {
        lemma_last_index_of(name, DOT);
        let tail = if extension.len() == 0 {
            stem(name)
        } else {
            stem(name) + seq![DOT] + extension
        };
        assert(!tail.contains(SEPARATOR)) by {
            if tail.contains(SEPARATOR) {
                let i = choose|i: int| 0 <= i < tail.len() && tail[i] == SEPARATOR;
                if i < stem(name).len() {
                    assert(name[i] == SEPARATOR);
                    assert(name.contains(SEPARATOR));
                } else if i > stem(name).len() {
                    assert(extension[i - stem(name).len() - 1] == SEPARATOR);
                    assert(extension.contains(SEPARATOR));
                }
            }
        }
        assert(with_extension(p, extension) == directory + tail);
        assert(with_extension(name, extension) == Seq::<u8>::empty() + tail);
        assert(Seq::<u8>::empty() + tail == tail);
        lemma_name_of_concat(directory, tail);
        if is_absolute(p) {
            lemma_last_index_of(p, SEPARATOR);
            assert(directory.len() > 0);
            assert(directory[0] == p[0]);
            assert((directory + tail)[0] == directory[0]);
        }
    }
}

} // verus!
