//! The engine's hash map (`bevy::platform::collections::HashMap`, a
//! deterministic-hasher map over `hashbrown`), holding the blocks of a chunk
//! and the index of loaded chunks.
use vstd::prelude::*;

use bevy::platform::collections::HashMap;
use bevy::platform::hash::FixedHasher;

use crate::block::Block;

verus! {

#[verifier::external_type_specification]
#[verifier::external_body]
#[verifier::reject_recursive_types(K)]
#[verifier::reject_recursive_types(V)]
#[verifier::reject_recursive_types(S)]
pub struct ExHashMap<K, V, S>(HashMap<K, V, S>);

#[verifier::external_type_specification]
#[verifier::external_body]
pub struct ExFixedHasher(FixedHasher);

/// The entries of a map from block keys to blocks.
pub uninterp spec fn cell_entries(m: HashMap<u32, Block, FixedHasher>) -> Map<u32, Block>;

/// The entries of a map from chunk keys to entity bits.
pub uninterp spec fn index_entries(m: HashMap<u128, u64, FixedHasher>) -> Map<u128, u64>;

/// `HashMap::new`: an empty map.
#[verifier::external_body]
pub(crate) fn cells_new() -> (r: HashMap<u32, Block, FixedHasher>)
    ensures
        cell_entries(r).dom().is_empty(),
{
    HashMap::new()
}

/// `HashMap::get`: the block stored under `k`, if any.
#[verifier::external_body]
pub(crate) fn cells_get(m: &HashMap<u32, Block, FixedHasher>, k: u32) -> (r: Option<Block>)
    ensures
        r == (if cell_entries(*m).contains_key(k) {
            Some(cell_entries(*m)[k])
        } else {
            None
        }),
{
    m.get(&k).copied()
}

/// `HashMap::insert`: stores `v` under `k`, replacing any block there.
#[verifier::external_body]
pub(crate) fn cells_insert(m: &mut HashMap<u32, Block, FixedHasher>, k: u32, v: Block)
    ensures
        cell_entries(*final(m)) == cell_entries(*old(m)).insert(k, v),
{
    m.insert(k, v);
}

/// `HashMap::remove`: removes the entry under `k`, if any.
#[verifier::external_body]
pub(crate) fn cells_remove(m: &mut HashMap<u32, Block, FixedHasher>, k: u32)
    ensures
        cell_entries(*final(m)) == cell_entries(*old(m)).remove(k),
{
    m.remove(&k);
}

/// `HashMap::new`: an empty map.
#[verifier::external_body]
pub(crate) fn index_new() -> (r: HashMap<u128, u64, FixedHasher>)
    ensures
        index_entries(r).dom().is_empty(),
{
    HashMap::new()
}

/// `HashMap::get`: the entity stored under `k`, if any.
#[verifier::external_body]
pub(crate) fn index_get(m: &HashMap<u128, u64, FixedHasher>, k: u128) -> (r: Option<u64>)
    ensures
        r == (if index_entries(*m).contains_key(k) {
            Some(index_entries(*m)[k])
        } else {
            None
        }),
{
    m.get(&k).copied()
}

/// `HashMap::insert`: stores `v` under `k`, replacing any entity there.
#[verifier::external_body]
pub(crate) fn index_insert(m: &mut HashMap<u128, u64, FixedHasher>, k: u128, v: u64)
    ensures
        index_entries(*final(m)) == index_entries(*old(m)).insert(k, v),
{
    m.insert(k, v);
}

} // verus!
