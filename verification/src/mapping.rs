//! The two-way map between source paths and cached paths.
//!
//! The map itself is a `BiHashMap` of the `bimap` crate. This module says what
//! such a map holds, as a mathematical map from left values to right values,
//! and what each of the operations used here does to it. Verus takes these
//! statements on trust; everything built on them is proved.

use vstd::prelude::*;
use bimap::BiHashMap;

verus! {

#[verifier::external_type_specification]
#[verifier::external_body]
#[verifier::reject_recursive_types(L)]
#[verifier::reject_recursive_types(R)]
#[verifier::reject_recursive_types(LS)]
#[verifier::reject_recursive_types(RS)]
pub struct ExBiHashMap<L, R, LS, RS>(bimap::BiHashMap<L, R, LS, RS>);

/// The pairs that a bimap holds: each left value with its right value.
pub uninterp spec fn pairs(m: BiHashMap<Vec<u8>, Vec<u8>>) -> Map<Seq<u8>, Seq<u8>>;

/// No two left values share a right value.
pub open spec fn one_to_one(m: Map<Seq<u8>, Seq<u8>>) -> bool {
    forall|a: Seq<u8>, b: Seq<u8>|
        m.contains_key(a) && m.contains_key(b) && #[trigger] m[a] == #[trigger] m[b] ==> a == b
}

/// Some left value has the right value `right`.
pub open spec fn has_right(m: Map<Seq<u8>, Seq<u8>>, right: Seq<u8>) -> bool {
    exists|left: Seq<u8>| m.contains_key(left) && #[trigger] m[left] == right
}

/// A left value that has the right value `right`.
pub open spec fn left_of(m: Map<Seq<u8>, Seq<u8>>, right: Seq<u8>) -> Seq<u8> {
    choose|left: Seq<u8>| m.contains_key(left) && #[trigger] m[left] == right
}

/// The map that holds no pair.
pub open spec fn no_pairs() -> Map<Seq<u8>, Seq<u8>> {
    Map::empty()
}

/// The map after the pair `left`, `right` has been put in: any pair that held
/// `left` or `right` before is gone.
pub open spec fn with_pair(m: Map<Seq<u8>, Seq<u8>>, left: Seq<u8>, right: Seq<u8>) -> Map<
    Seq<u8>,
    Seq<u8>,
> {
    Map::new(
        |k: Seq<u8>| k == left || (m.contains_key(k) && m[k] != right),
        |k: Seq<u8>|
            if k == left {
                right
            } else {
                m[k]
            },
    )
}

/// `BiHashMap::new`: a map that holds no pair.
#[verifier::external_body]
pub(crate) fn bimap_new() -> (m: BiHashMap<Vec<u8>, Vec<u8>>)
    ensures
        pairs(m) == no_pairs(),
{
    BiHashMap::new()
}

/// `BiHashMap::insert`: puts the pair in, removing the pair that held `left`
/// and the pair that held `right`, if there were such.
#[verifier::external_body]
pub(crate) fn bimap_insert(m: &mut BiHashMap<Vec<u8>, Vec<u8>>, left: Vec<u8>, right: Vec<u8>)
    ensures
        pairs(*final(m)) == with_pair(pairs(*old(m)), left@, right@),
{
    m.insert(left, right);
}

/// `BiHashMap::get_by_left`: a copy of the right value that `left` has, if it
/// has one.
#[verifier::external_body]
pub(crate) fn bimap_get_by_left(m: &BiHashMap<Vec<u8>, Vec<u8>>, left: &Vec<u8>) -> (r: Option<
    Vec<u8>,
>)
    ensures
        r.is_some() == pairs(*m).contains_key(left@),
        r.is_some() ==> r.unwrap()@ == pairs(*m)[left@],
{
    m.get_by_left(left).cloned()
}

/// `BiHashMap::get_by_right`: a copy of the left value that has `right`, if
/// one has.
#[verifier::external_body]
pub(crate) fn bimap_get_by_right(m: &BiHashMap<Vec<u8>, Vec<u8>>, right: &Vec<u8>) -> (r: Option<
    Vec<u8>,
>)
    ensures
        r.is_some() == has_right(pairs(*m), right@),
        r.is_some() ==> pairs(*m).contains_key(r.unwrap()@) && pairs(*m)[r.unwrap()@] == right@,
{
    m.get_by_right(right).cloned()
}

/// `BiHashMap::remove_by_left`: takes out the pair that holds `left`, if
/// there is one.
#[verifier::external_body]
pub(crate) fn bimap_remove_by_left(m: &mut BiHashMap<Vec<u8>, Vec<u8>>, left: &Vec<u8>)
    ensures
        pairs(*final(m)) == pairs(*old(m)).remove(left@),
{
    m.remove_by_left(left);
}

/// In a one-to-one map the left value of a right value is the only one.
pub proof fn lemma_left_of(m: Map<Seq<u8>, Seq<u8>>, left: Seq<u8>)
    requires
        one_to_one(m),
        m.contains_key(left),
    ensures
        has_right(m, m[left]),
        left_of(m, m[left]) == left,
{
    let found = left_of(m, m[left]);
    assert(m.contains_key(found) && m[found] == m[left]);
}

/// Putting a pair into a one-to-one map leaves it one-to-one. Where neither
/// value was held before, nothing else changes.
pub proof fn lemma_with_pair(m: Map<Seq<u8>, Seq<u8>>, left: Seq<u8>, right: Seq<u8>)
    requires
        one_to_one(m),
    ensures
        one_to_one(with_pair(m, left, right)),
        !m.contains_key(left) && !has_right(m, right) ==> with_pair(m, left, right) == m.insert(
            left,
            right,
        ),
{
    let n = with_pair(m, left, right);
    assert forall|a: Seq<u8>, b: Seq<u8>|
        n.contains_key(a) && n.contains_key(b) && #[trigger] n[a] == #[trigger] n[b] implies a
        == b by {
        if a != left && b != left {
            assert(m[a] == m[b]);
        }
    }
    if !m.contains_key(left) && !has_right(m, right) {
        assert forall|k: Seq<u8>| m.contains_key(k) implies m[k] != right by {
            if m[k] == right {
                assert(has_right(m, right));
            }
        }
        assert(n =~= m.insert(left, right));
    }
}

} // verus!
