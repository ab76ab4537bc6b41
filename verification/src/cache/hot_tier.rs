//! The in-memory tier: a concurrent map from cache key to entry.

use dashmap::DashMap;
use vstd::prelude::*;
use crate::cache::entry::{CacheEntry, CacheEntryView};

verus! {

#[verifier::external_type_specification]
#[verifier::external_body]
#[verifier::reject_recursive_types(K)]
#[verifier::reject_recursive_types(V)]
#[verifier::reject_recursive_types(S)]
pub struct ExDashMap<K, V, S>(DashMap<K, V, S>);

/// The in-memory tier of a cache.
pub type HotTier = DashMap<String, CacheEntry>;

/// What the tier holds: the value of the entry under each key.
pub uninterp spec fn hot_entries(tier: HotTier) -> Map<Seq<char>, CacheEntryView>;

/// The contents of a tier that holds nothing.
pub open spec fn nothing() -> Map<Seq<char>, CacheEntryView> {
    Map::empty()
}

/// `DashMap::new`: a map that holds nothing.
#[verifier::external_body]
pub(crate) fn hot_new() -> (tier: HotTier)
    ensures
        hot_entries(tier) == nothing(),
{
    DashMap::new()
}

/// `DashMap::get`, with the entry copied out: the entry under `key`, if the
/// map holds one. The map is left as it is.
#[verifier::external_body]
pub(crate) fn hot_get(tier: &HotTier, key: &String) -> (found: Option<CacheEntry>)
    ensures
        match found {
            Some(entry) => hot_entries(*tier).contains_key(key@) && hot_entries(*tier)[key@]
                == entry@,
            None => !hot_entries(*tier).contains_key(key@),
        },
{
    tier.get(key).map(|held| held.value().clone())
}

/// `DashMap::insert`: afterwards the map holds `entry` under `key`, in
/// place of what it held there, and everything else as before.
#[verifier::external_body]
pub(crate) fn hot_insert(tier: &mut HotTier, key: String, entry: CacheEntry)
    ensures
        hot_entries(*final(tier)) == hot_entries(*old(tier)).insert(key@, entry@),
{
    tier.insert(key, entry);
}

/// `DashMap::remove`: afterwards the map holds nothing under `key`, and
/// everything else as before.
#[verifier::external_body]
pub(crate) fn hot_remove(tier: &mut HotTier, key: &String)
    ensures
        hot_entries(*final(tier)) == hot_entries(*old(tier)).remove(key@),
{
    tier.remove(key);
}

/// `DashMap::clear`: afterwards the map holds nothing.
#[verifier::external_body]
pub(crate) fn hot_clear(tier: &mut HotTier)
    ensures
        hot_entries(*final(tier)) == nothing(),
{
    tier.clear();
}

/// `DashMap::len`: the number of keys that the map holds.
#[verifier::external_body]
pub(crate) fn hot_len(tier: &HotTier) -> (count: usize)
    ensures
        count == hot_entries(*tier).len(),
{
    tier.len()
}

} // verus!
