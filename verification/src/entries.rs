//! The concurrent map that holds the latches, and what is taken on trust
//! of it.
//!
//! Every function here takes the map by a reference that the borrow rules
//! make the only one in use, or by a shared one while nothing can change the
//! map, so each call sees the map as a plain sequential one.

use dashmap::DashMap;
use vstd::prelude::*;

use crate::rwlatch::RwLatch;

verus! {

#[verifier::external_type_specification]
#[verifier::external_body]
#[verifier::reject_recursive_types(K)]
#[verifier::reject_recursive_types(V)]
#[verifier::reject_recursive_types(S)]
pub struct ExDashMap<K, V, S>(DashMap<K, V, S>);

/// The entries of the map: each key that it holds, by its bytes, with the
/// latch stored under it.
pub uninterp spec fn contents(map: DashMap<Vec<u8>, RwLatch>) -> Map<Seq<u8>, RwLatch>;

/// `DashMap::new`: a map made by it holds no entry.
#[verifier::external_body]
pub(crate) fn empty_map() -> (fresh: DashMap<Vec<u8>, RwLatch>)
    ensures
        contents(fresh).dom() == Set::<Seq<u8>>::empty(),
{
    DashMap::new()
}

/// `DashMap::get`: the latch stored under `key`, copied out of the guard that
/// the call returns, or `None` where the map has no such key.
#[verifier::external_body]
pub(crate) fn lookup(map: &DashMap<Vec<u8>, RwLatch>, key: &[u8]) -> (found: Option<RwLatch>)
    ensures
        found == contents(*map).get(key@),
{
    map.get(key).map(|entry| *entry.value())
}

/// `DashMap::insert`: afterwards `key` holds `latch`, whether or not the map
/// had the key before, and every other entry is as it was.
#[verifier::external_body]
pub(crate) fn store(map: &mut DashMap<Vec<u8>, RwLatch>, key: Vec<u8>, latch: RwLatch)
    ensures
        contents(*final(map)) == contents(*old(map)).insert(key@, latch),
{
    map.insert(key, latch);
}

/// `DashMap::remove`: afterwards the map has no entry under `key`, and every
/// other entry is as it was.
#[verifier::external_body]
pub(crate) fn discard(map: &mut DashMap<Vec<u8>, RwLatch>, key: &[u8])
    ensures
        contents(*final(map)) == contents(*old(map)).remove(key@),
{
    map.remove(key);
}

/// `DashMap::is_empty`: true exactly when the map holds no entry.
#[verifier::external_body]
pub(crate) fn holds_nothing(map: &DashMap<Vec<u8>, RwLatch>) -> (nothing: bool)
    ensures
        nothing == (contents(*map).dom() == Set::<Seq<u8>>::empty()),
{
    map.is_empty()
}

/// `DashMap::iter`: every entry of the map comes out once, in an order that
/// the map does not fix; each is copied out as the key with its latch.
#[verifier::external_body]
pub(crate) fn listing(map: &DashMap<Vec<u8>, RwLatch>) -> (list: Vec<(Vec<u8>, RwLatch)>)
    ensures
        forall|i: int|
            0 <= i < list@.len() ==> contents(*map).get((#[trigger] list@[i]).0@) == Some(
                list@[i].1,
            ),
        forall|key: Seq<u8>| #[trigger]
            contents(*map).contains_key(key) ==> exists|i: int|
                0 <= i < list@.len() && (#[trigger] list@[i]).0@ == key,
        forall|i: int, j: int|
            0 <= i < j < list@.len() ==> (#[trigger] list@[i]).0@ != (#[trigger] list@[j]).0@,
{
    map.iter().map(|entry| (entry.key().clone(), *entry.value())).collect()
}

} // verus!
