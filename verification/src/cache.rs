//! The cache directory that goes with a source directory.

use vstd::prelude::*;
use crate::path::{join, joined};

verus! {

/// The SeaHash of `bytes`, as the `seahash` crate computes it with its
/// built-in seed.
pub uninterp spec fn sea_hash(bytes: Seq<u8>) -> u64;

/// `seahash::hash`: the hash of a buffer, a function of its bytes alone.
#[verifier::external_body]
fn hash(bytes: &Vec<u8>) -> (r: u64)
    ensures
        r == sea_hash(bytes@),
{
    seahash::hash(bytes)
}

/// The character for the hexadecimal digit `d`: `0` to `9`, then `a` to `f`.
pub open spec fn hex_digit(d: u64) -> u8 {
    if d < 10 {
        (48 + d) as u8
    } else {
        (87 + d) as u8
    }
}

/// The number `n` written in hexadecimal, lower case, without leading zeros.
pub open spec fn hex(n: u64) -> Seq<u8>
    decreases n,
{
    if n < 16 {
        seq![hex_digit(n)]
    } else {
        hex(n / 16).push(hex_digit(n % 16))
    }
}

/// The name of the directory that holds all caches.
pub open spec fn namespace() -> Seq<u8> {
    seq![112u8, 114u8, 111u8, 106u8, 102u8, 115u8]
}

/// The name that stands for the directory `path`: its hash in hexadecimal.
pub open spec fn repr(path: Seq<u8>) -> Seq<u8> {
    hex(sea_hash(path))
}

/// The cache directory for the source directory `source_dir`, under the
/// user's cache directory `cache_root`: `projfs`, then the name that stands
/// for the source directory.
pub open spec fn derived_cache_dir(cache_root: Seq<u8>, source_dir: Seq<u8>) -> Seq<u8> {
    joined(joined(cache_root, namespace()), repr(source_dir))
}

fn push_hex(n: u64, out: &mut Vec<u8>)
    ensures
        final(out)@ == old(out)@ + hex(n),
    decreases n,
{
    if n >= 16 {
        push_hex(n / 16, out);
    }
    let d = n % 16;
    let c: u8 = if d < 10 {
        (48 + d) as u8
    } else {
        (87 + d) as u8
    };
    out.push(c);
    assert(final(out)@ =~= old(out)@ + hex(n));
}

/// Writes `n` in hexadecimal.
pub fn to_hex(n: u64) -> (r: Vec<u8>)
    ensures
        r@ == hex(n),
{
    let mut r: Vec<u8> = Vec::new();
    push_hex(n, &mut r);
    assert(Seq::<u8>::empty() + hex(n) =~= hex(n));
    r
}

/// The name that stands for the directory `path`.
pub fn repr_of_path(path: &Vec<u8>) -> (r: Vec<u8>)
    ensures
        r@ == repr(path@),
{
    to_hex(hash(path))
}

/// The cache directory for the source directory `source_dir`.
pub fn cache_dir_for(cache_root: &Vec<u8>, source_dir: &Vec<u8>) -> (r: Vec<u8>)
    ensures
        r@ == derived_cache_dir(cache_root@, source_dir@),
{
    let namespace: Vec<u8> = vec![112u8, 114u8, 111u8, 106u8, 102u8, 115u8];
    let all = join(cache_root, &namespace);
    let name = repr_of_path(source_dir);
    join(&all, &name)
}

} // verus!
