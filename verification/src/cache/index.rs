//! The catalog of what is cached: which path has which key, what is
//! recorded about each key, and the running totals.

use vstd::prelude::*;
use crate::cache::entry::{CACHE_VERSION, CacheMetadata, CacheMetadataView, CacheStats};
use crate::cache::keyed::{
    KeyedList, bound_at, distinct_keys, has_key, lemma_position_unique, position_of, value_of,
    with_binding, without_key,
};
use crate::text::string_views;

verus! {

/// What the index records about one key.
#[derive(Debug)]
pub struct IndexRecord {
    /// When the entry was made, in seconds since the epoch.
    pub created_at: u64,
    /// Number of bytes that were added to the size of the store for the
    /// key: those that the entry takes in the disk tier, and those of the
    /// entries that it took the place of.
    pub stored_len: u64,
    pub metadata: CacheMetadata,
}

/// The mathematical value of an [`IndexRecord`].
pub ghost struct IndexRecordView {
    pub created_at: u64,
    pub stored_len: u64,
    pub metadata: CacheMetadataView,
}

impl View for IndexRecord {
    type V = IndexRecordView;

    open spec fn view(&self) -> IndexRecordView {
        IndexRecordView {
            created_at: self.created_at,
            stored_len: self.stored_len,
            metadata: self.metadata@,
        }
    }
}

impl Clone for IndexRecord {
    fn clone(&self) -> (copy: Self)
        ensures
            copy@ == self@,
    {
        IndexRecord {
            created_at: self.created_at,
            stored_len: self.stored_len,
            metadata: self.metadata.clone(),
        }
    }
}

/// The persistent catalog of a cache.
#[derive(Debug)]
pub struct CacheIndex {
    /// The key of each path that was stored, by the path as it was given.
    pub file_to_key: KeyedList<String>,
    /// What is recorded about each key.
    pub entries: KeyedList<IndexRecord>,
    pub stats: CacheStats,
    /// Schema version of this index.
    pub version: u32,
}

/// Bindings of paths to keys.
pub type PathBindings = Seq<(Seq<char>, Seq<char>)>;

/// Bindings of keys to records.
pub type RecordBindings = Seq<(Seq<char>, IndexRecordView)>;

/// The mathematical value of a [`CacheIndex`].
pub ghost struct CacheIndexView {
    pub file_to_key: PathBindings,
    pub entries: RecordBindings,
    pub stats: CacheStats,
    pub version: u32,
}

impl View for CacheIndex {
    type V = CacheIndexView;

    open spec fn view(&self) -> CacheIndexView {
        CacheIndexView {
            file_to_key: self.file_to_key.entries(),
            entries: self.entries.entries(),
            stats: self.stats,
            version: self.version,
        }
    }
}

/// The bindings of `paths` whose key is not `key`, in order.
pub open spec fn without_value(paths: PathBindings, key: Seq<char>) -> PathBindings
    decreases paths.len(),
{
    if paths.len() == 0 {
        Seq::empty()
    } else {
        let earlier = without_value(paths.drop_last(), key);
        if paths.last().1 == key {
            earlier
        } else {
            earlier.push(paths.last())
        }
    }
}

/// Position of the oldest record: the least creation time, and among equal
/// times the first position.
pub open spec fn oldest_position(entries: RecordBindings) -> int
    decreases entries.len(),
{
    if entries.len() <= 1 {
        0
    } else {
        let earlier = oldest_position(entries.drop_last());
        if entries.last().1.created_at < entries[earlier].1.created_at {
            entries.len() - 1
        } else {
            earlier
        }
    }
}

/// What is recorded about a key when `record` is recorded for it: `record`
/// itself, with the bytes that were added for the key before, if any, added
/// to its own, up to the greatest number.
pub open spec fn merged(record: IndexRecordView, replaced: Option<IndexRecordView>) -> IndexRecordView {
    match replaced {
        Some(earlier) => IndexRecordView {
            stored_len: if earlier.stored_len + record.stored_len > u64::MAX {
                u64::MAX
            } else {
                (earlier.stored_len + record.stored_len) as u64
            },
            ..record
        },
        None => record,
    }
}

/// The totals after an entry left the store for which `bytes` bytes are
/// taken off: size and count go down, not below zero.
pub open spec fn reduced(stats: CacheStats, bytes: u64) -> CacheStats {
    CacheStats {
        hits: stats.hits,
        misses: stats.misses,
        size_bytes: if stats.size_bytes >= bytes {
            (stats.size_bytes - bytes) as u64
        } else {
            0
        },
        entry_count: if stats.entry_count >= 1 {
            (stats.entry_count - 1) as u64
        } else {
            0
        },
    }
}

impl CacheIndexView {
    /// No path and no key is bound twice.
    pub open spec fn wf(self) -> bool {
        distinct_keys(self.file_to_key) && distinct_keys(self.entries)
    }

    /// An index of the current version that records nothing.
    pub open spec fn empty() -> CacheIndexView {
        CacheIndexView {
            file_to_key: Seq::empty(),
            entries: Seq::empty(),
            stats: CacheStats::zero(),
            version: CACHE_VERSION,
        }
    }

    /// The totals can take one more stored entry of `stored_len` bytes.
    pub open spec fn has_room(self, stored_len: u64) -> bool {
        &&& self.stats.misses < u64::MAX
        &&& self.stats.entry_count < u64::MAX
        &&& self.stats.size_bytes + stored_len <= u64::MAX
    }

    /// The index after an entry was stored for `file_path` under `key`,
    /// with `record` as what is recorded about it: both bindings are made,
    /// and a miss, the bytes of the entry and one entry are added to the
    /// totals, also where the key was bound before. The record of a key that
    /// was bound before keeps count of the bytes that were added for the
    /// entries before it.
    pub open spec fn recorded(
        self,
        file_path: Seq<char>,
        key: Seq<char>,
        record: IndexRecordView,
    ) -> CacheIndexView {
        CacheIndexView {
            file_to_key: with_binding(self.file_to_key, file_path, key),
            entries: with_binding(self.entries, key, merged(record, value_of(self.entries, key))),
            stats: CacheStats {
                hits: self.stats.hits,
                misses: (self.stats.misses + 1) as u64,
                size_bytes: (self.stats.size_bytes + record.stored_len) as u64,
                entry_count: (self.stats.entry_count + 1) as u64,
            },
            version: self.version,
        }
    }

    /// The index after the entry of `file_path` under `key` was
    /// invalidated: both bindings are gone, and where the key was bound the
    /// totals are reduced by the size of the source file that its metadata
    /// records and by one entry, not below zero.
    pub open spec fn forgotten(self, file_path: Seq<char>, key: Seq<char>) -> CacheIndexView {
        CacheIndexView {
            file_to_key: without_key(self.file_to_key, file_path),
            entries: without_key(self.entries, key),
            stats: match value_of(self.entries, key) {
                Some(record) => reduced(self.stats, record.metadata.file_size),
                None => self.stats,
            },
            version: self.version,
        }
    }

    /// The index after everything was cleared: no bindings, totals at zero.
    pub open spec fn cleared(self) -> CacheIndexView {
        CacheIndexView {
            file_to_key: Seq::empty(),
            entries: Seq::empty(),
            stats: CacheStats::zero(),
            version: self.version,
        }
    }

    /// The index after the record at position `at` was evicted: the record
    /// and every path bound to its key are gone, and the totals are reduced
    /// by the bytes that were added to the size for its key and by one
    /// entry, not below zero.
    pub open spec fn evicted_at(self, at: int) -> CacheIndexView {
        CacheIndexView {
            file_to_key: without_value(self.file_to_key, self.entries[at].0),
            entries: self.entries.remove(at),
            stats: reduced(self.stats, self.entries[at].1.stored_len),
            version: self.version,
        }
    }

    /// There is a ceiling and the recorded size is over it.
    pub open spec fn over_ceiling(self, ceiling: u64) -> bool {
        ceiling > 0 && self.stats.size_bytes > ceiling
    }

    /// The index with the size and count of a store that holds nothing.
    pub open spec fn emptied(self) -> CacheIndexView {
        CacheIndexView {
            stats: CacheStats { size_bytes: 0, entry_count: 0, ..self.stats },
            ..self
        }
    }

    /// The index after cleanup: while the recorded size is over the ceiling,
    /// the oldest record is evicted. Where the size is still over the
    /// ceiling when no record is left, size and count become those of the
    /// empty store. So the size ends within the ceiling.
    pub open spec fn trimmed(self, ceiling: u64) -> CacheIndexView
        decreases self.entries.len(),
    {
        let at = oldest_position(self.entries);
        if !self.over_ceiling(ceiling) {
            self
        } else if 0 <= at < self.entries.len() {
            self.evicted_at(at).trimmed(ceiling)
        } else {
            self.emptied()
        }
    }

    /// The keys that cleanup evicts, oldest first.
    pub open spec fn victims(self, ceiling: u64) -> Seq<Seq<char>>
        decreases self.entries.len(),
    {
        let at = oldest_position(self.entries);
        if self.over_ceiling(ceiling) && 0 <= at < self.entries.len() {
            seq![self.entries[at].0] + self.evicted_at(at).victims(ceiling)
        } else {
            Seq::empty()
        }
    }
}

/// After cleanup the recorded size is within the ceiling, if there is one.
pub proof fn lemma_trim_within_ceiling(index: CacheIndexView, ceiling: u64)
    ensures
        ceiling > 0 ==> index.trimmed(ceiling).stats.size_bytes <= ceiling,
    decreases index.entries.len(),
{
    let at = oldest_position(index.entries);
    if index.over_ceiling(ceiling) && 0 <= at < index.entries.len() {
        lemma_trim_within_ceiling(index.evicted_at(at), ceiling);
    }
}

/// The oldest position is a position, no record is older than the one
/// there, and every record before it is younger.
pub proof fn lemma_oldest_position(entries: RecordBindings)
    requires
        entries.len() > 0,
    ensures
        0 <= oldest_position(entries) < entries.len(),
        forall|i: int|
            0 <= i < entries.len() ==> entries[oldest_position(entries)].1.created_at <= (
            #[trigger] entries[i]).1.created_at,
        forall|i: int|
            0 <= i < oldest_position(entries) ==> entries[oldest_position(entries)].1.created_at < (
            #[trigger] entries[i]).1.created_at,
    decreases entries.len(),
{
    if entries.len() > 1 {
        lemma_oldest_position(entries.drop_last());
        let earlier = oldest_position(entries.drop_last());
        assert forall|i: int| 0 <= i < entries.len() - 1 implies (#[trigger] entries[i])
            == entries.drop_last()[i] by {}
        assert(entries[earlier] == entries.drop_last()[earlier]);
    }
}

/// When the record of `key` was made.
pub open spec fn created(entries: RecordBindings, key: Seq<char>) -> u64 {
    entries[position_of(entries, key)].1.created_at
}

/// A key that is bound after a record was taken out was bound before, to
/// the same record, and is not the key of the record that was taken out.
pub proof fn lemma_bound_after_removal(entries: RecordBindings, at: int, key: Seq<char>)
    requires
        distinct_keys(entries),
        0 <= at < entries.len(),
        has_key(entries.remove(at), key),
    ensures
        has_key(entries, key),
        key != entries[at].0,
        entries[position_of(entries, key)] == entries.remove(at)[position_of(
            entries.remove(at),
            key,
        )],
{
    let rest = entries.remove(at);
    let p = position_of(rest, key);
    assert(bound_at(rest, key, p));
    let q = if p < at { p } else { p + 1 };
    assert(rest[p] == entries[q]);
    assert(bound_at(entries, key, q));
    lemma_position_unique(entries, key, q);
    if q < at {
        assert(entries[q].0 != entries[at].0);
    } else {
        assert(entries[at].0 != entries[q].0);
    }
}

/// Taking a record out leaves the keys distinct.
pub proof fn lemma_removal_keeps_distinct(entries: RecordBindings, at: int)
    requires
        distinct_keys(entries),
        0 <= at < entries.len(),
    ensures
        distinct_keys(entries.remove(at)),
{
    let rest = entries.remove(at);
    assert forall|i: int, j: int| 0 <= i < j < rest.len() implies (#[trigger] rest[i]).0 != (
    #[trigger] rest[j]).0 by {
        let a = if i < at { i } else { i + 1 };
        let b = if j < at { j } else { j + 1 };
        assert(entries[a].0 != entries[b].0);
    }
}

/// Cleanup evicts oldest first. It only takes records away; every evicted
/// key was recorded and is recorded no longer; no evicted record is younger
/// than a record that is kept; and the evicted records come in ascending
/// order of their creation times.
pub proof fn lemma_evicts_oldest_first(index: CacheIndexView, ceiling: u64)
    requires
        distinct_keys(index.entries),
    ensures
        distinct_keys(index.trimmed(ceiling).entries),
        forall|k: int|
            0 <= k < index.trimmed(ceiling).entries.len() ==> index.entries.contains(
                #[trigger] index.trimmed(ceiling).entries[k],
            ),
        forall|v: int|
            0 <= v < index.victims(ceiling).len() ==> has_key(
                index.entries,
                #[trigger] index.victims(ceiling)[v],
            ) && !has_key(index.trimmed(ceiling).entries, index.victims(ceiling)[v]),
        forall|v: int, k: int|
            0 <= v < index.victims(ceiling).len() && 0 <= k < index.trimmed(ceiling).entries.len()
                ==> created(index.entries, #[trigger] index.victims(ceiling)[v]) <= (
            #[trigger] index.trimmed(ceiling).entries[k]).1.created_at,
        forall|v: int, w: int|
            0 <= v < w < index.victims(ceiling).len() ==> created(
                index.entries,
                #[trigger] index.victims(ceiling)[v],
            ) <= created(index.entries, #[trigger] index.victims(ceiling)[w]),
    decreases index.entries.len(),
{
    let entries = index.entries;
    let at = oldest_position(entries);
    let kept = index.trimmed(ceiling).entries;
    let victims = index.victims(ceiling);
    if index.over_ceiling(ceiling) && 0 <= at < entries.len() {
        let next = index.evicted_at(at);
        let rest = next.entries;
        let first = entries[at].0;
        lemma_removal_keeps_distinct(entries, at);
        lemma_evicts_oldest_first(next, ceiling);
        lemma_oldest_position(entries);
        lemma_position_unique(entries, first, at);
        let later = next.victims(ceiling);
        assert(victims =~= seq![first] + later);
        assert(kept == next.trimmed(ceiling).entries);
        // What is kept was recorded, and is no older than the first victim.
        assert forall|k: int| 0 <= k < kept.len() implies entries.contains(#[trigger] kept[k])
            && kept[k].0 != first && entries[at].1.created_at <= kept[k].1.created_at by {
            assert(rest.contains(kept[k]));
            let p = choose|p: int| 0 <= p < rest.len() && rest[p] == kept[k];
            let q = if p < at { p } else { p + 1 };
            assert(entries[q] == kept[k]);
            if q < at {
                assert(entries[q].0 != entries[at].0);
            } else {
                assert(entries[at].0 != entries[q].0);
            }
        }
        assert(!has_key(kept, first)) by {
            if has_key(kept, first) {
                let p = position_of(kept, first);
                assert(bound_at(kept, first, p));
                assert(kept[p].0 != first);
            }
        }
        // The later victims were recorded before the first left.
        assert forall|v: int| 0 <= v < later.len() implies has_key(entries, #[trigger] later[v])
            && created(entries, later[v]) == created(rest, later[v]) && entries[at].1.created_at
            <= created(entries, later[v]) by {
            lemma_bound_after_removal(entries, at, later[v]);
        }
        assert forall|v: int| 0 <= v < victims.len() implies has_key(
            entries,
            #[trigger] victims[v],
        ) && !has_key(kept, victims[v]) by {
            if v > 0 {
                assert(victims[v] == later[v - 1]);
            }
        }
        assert forall|v: int, k: int| 0 <= v < victims.len() && 0 <= k < kept.len() implies created(
            entries,
            #[trigger] victims[v],
        ) <= (#[trigger] kept[k]).1.created_at by {
            if v > 0 {
                assert(victims[v] == later[v - 1]);
            }
        }
        assert forall|v: int, w: int| 0 <= v < w < victims.len() implies created(
            entries,
            #[trigger] victims[v],
        ) <= created(entries, #[trigger] victims[w]) by {
            assert(victims[w] == later[w - 1]);
            if v > 0 {
                assert(victims[v] == later[v - 1]);
            }
        }
    } else {
        assert forall|k: int| 0 <= k < kept.len() implies entries.contains(#[trigger] kept[k]) by {
            assert(entries[k] == kept[k]);
        }
    }
}

/// Cleanup changes neither the hits nor the misses.
pub proof fn lemma_trim_keeps_counters(index: CacheIndexView, ceiling: u64)
    ensures
        index.trimmed(ceiling).stats.hits == index.stats.hits,
        index.trimmed(ceiling).stats.misses == index.stats.misses,
        index.trimmed(ceiling).version == index.version,
    decreases index.entries.len(),
{
    let at = oldest_position(index.entries);
    if index.over_ceiling(ceiling) && 0 <= at < index.entries.len() {
        lemma_trim_keeps_counters(index.evicted_at(at), ceiling);
    }
}

/// Copies the bindings of paths.
fn clone_paths(list: &KeyedList<String>) -> (copy: KeyedList<String>)
    ensures
        copy.entries() == list.entries(),
{
    let mut copy: KeyedList<String> = KeyedList::new();
    let mut i: usize = 0;
    while i < list.len()
        invariant
            i <= list.entries().len(),
            copy.entries() == list.entries().take(i as int),
        decreases list.entries().len() - i,
    {
        let ghost before = copy.entries();
        copy.pairs.push((list.key_at(i).clone(), list.value_at(i).clone()));
        assert(copy.entries() =~= before.push(list.entries()[i as int]));
        assert(list.entries().take(i + 1) =~= list.entries().take(i as int).push(
            list.entries()[i as int],
        ));
        i += 1;
    }
    assert(list.entries().take(list.entries().len() as int) =~= list.entries());
    copy
}

/// Copies the bindings of keys.
fn clone_records(list: &KeyedList<IndexRecord>) -> (copy: KeyedList<IndexRecord>)
    ensures
        copy.entries() == list.entries(),
{
    let mut copy: KeyedList<IndexRecord> = KeyedList::new();
    let mut i: usize = 0;
    while i < list.len()
        invariant
            i <= list.entries().len(),
            copy.entries() == list.entries().take(i as int),
        decreases list.entries().len() - i,
    {
        let ghost before = copy.entries();
        copy.pairs.push((list.key_at(i).clone(), list.value_at(i).clone()));
        assert(copy.entries() =~= before.push(list.entries()[i as int]));
        assert(list.entries().take(i + 1) =~= list.entries().take(i as int).push(
            list.entries()[i as int],
        ));
        i += 1;
    }
    assert(list.entries().take(list.entries().len() as int) =~= list.entries());
    copy
}

impl Clone for CacheIndex {
    fn clone(&self) -> (copy: Self)
        ensures
            copy@ == self@,
    {
        CacheIndex {
            file_to_key: clone_paths(&self.file_to_key),
            entries: clone_records(&self.entries),
            stats: self.stats,
            version: self.version,
        }
    }
}

impl CacheIndex {
    /// No path and no key is bound twice.
    pub open spec fn wf(&self) -> bool {
        self@.wf()
    }

    /// An index of the current version that records nothing.
    pub fn new() -> (index: Self)
        ensures
            index.wf(),
            index@ == CacheIndexView::empty(),
    {
        CacheIndex {
            file_to_key: KeyedList::new(),
            entries: KeyedList::new(),
            stats: CacheStats::default(),
            version: CACHE_VERSION,
        }
    }

    /// Tells whether no path and no key is bound twice.
    pub fn is_well_formed(&self) -> (yes: bool)
        ensures
            yes == self.wf(),
    {
        self.file_to_key.is_well_formed() && self.entries.is_well_formed()
    }

    /// Records that an entry was stored for `file_path` under `key`, with
    /// `record` as what is recorded about it.
    pub fn record(&mut self, file_path: String, key: String, record: IndexRecord)
        requires
            old(self).wf(),
            old(self)@.has_room(record.stored_len),
        ensures
            final(self).wf(),
            final(self)@ == old(self)@.recorded(file_path@, key@, record@),
    {
        let stored_len = record.stored_len;
        let recorded = match self.entries.get(&key) {
            Some(earlier) => IndexRecord {
                created_at: record.created_at,
                stored_len: earlier.stored_len.saturating_add(stored_len),
                metadata: record.metadata,
            },
            None => record,
        };
        let bound = key.clone();
        self.file_to_key.insert(file_path, bound);
        self.entries.insert(key, recorded);
        self.stats.misses = self.stats.misses + 1;
        self.stats.size_bytes = self.stats.size_bytes + stored_len;
        self.stats.entry_count = self.stats.entry_count + 1;
    }

    /// Takes down the totals by one entry and by `bytes` bytes.
    fn reduce(&mut self, bytes: u64)
        ensures
            final(self).stats == reduced(old(self).stats, bytes),
            final(self).file_to_key == old(self).file_to_key,
            final(self).entries == old(self).entries,
            final(self).version == old(self).version,
    {
        self.stats.size_bytes = self.stats.size_bytes.saturating_sub(bytes);
        self.stats.entry_count = self.stats.entry_count.saturating_sub(1);
    }

    /// Forgets the entry of `file_path` under `key`.
    pub fn forget(&mut self, file_path: &String, key: &String)
        requires
            old(self).wf(),
        ensures
            final(self).wf(),
            final(self)@ == old(self)@.forgotten(file_path@, key@),
    {
        let _ = self.file_to_key.remove(file_path);
        match self.entries.remove(key) {
            Some(record) => {
                self.reduce(record.metadata.file_size);
            },
            None => {},
        }
    }

    /// Forgets everything and sets the totals to zero.
    pub fn clear(&mut self)
        ensures
            final(self).wf(),
            final(self)@ == old(self)@.cleared(),
    {
        self.file_to_key.clear();
        self.entries.clear();
        self.stats = CacheStats::default();
    }

    /// Finds the oldest record.
    pub fn find_oldest(&self) -> (at: usize)
        requires
            self.entries.entries().len() > 0,
        ensures
            at == oldest_position(self@.entries),
            at < self@.entries.len(),
    {
        let ghost all = self.entries.entries();
        let mut best: usize = 0;
        let mut i: usize = 1;
        assert(all.take(1).len() == 1);
        while i < self.entries.len()
            invariant
                1 <= i <= all.len(),
                all == self.entries.entries(),
                best < i,
                best == oldest_position(all.take(i as int)),
            decreases all.len() - i,
        {
            proof {
                assert(all.take(i + 1).drop_last() =~= all.take(i as int));
                assert(all.take(i + 1).last() == all[i as int]);
                assert(all.take(i + 1)[best as int] == all[best as int]);
            }
            if self.entries.value_at(i).created_at < self.entries.value_at(best).created_at {
                best = i;
            }
            i += 1;
        }
        proof {
            assert(all.take(all.len() as int) =~= all);
        }
        best
    }

    /// Drops every path that is bound to `key`.
    fn unbind_key(&mut self, key: &String)
        requires
            old(self).file_to_key.wf(),
        ensures
            final(self).file_to_key.wf(),
            final(self)@.file_to_key == without_value(old(self)@.file_to_key, key@),
            final(self).entries == old(self).entries,
            final(self).stats == old(self).stats,
            final(self).version == old(self).version,
    {
        let ghost all = self.file_to_key.entries();
        let mut kept: KeyedList<String> = KeyedList::new();
        let mut i: usize = 0;
        while i < self.file_to_key.len()
            invariant
                i <= all.len(),
                all == self.file_to_key.entries(),
                distinct_keys(all),
                kept.entries() == without_value(all.take(i as int), key@),
                distinct_keys(kept.entries()),
                forall|a: int, k: int|
                    0 <= a < kept.entries().len() && i <= k < all.len() ==> (
                    #[trigger] kept.entries()[a]).0 != (#[trigger] all[k]).0,
            decreases all.len() - i,
        {
            proof {
                assert(all.take(i + 1).drop_last() =~= all.take(i as int));
                assert(all.take(i + 1).last() == all[i as int]);
            }
            if *self.file_to_key.value_at(i) != *key {
                let path = self.file_to_key.key_at(i).clone();
                let bound = self.file_to_key.value_at(i).clone();
                let ghost before = kept.entries();
                kept.pairs.push((path, bound));
                proof {
                    assert(kept.entries() =~= before.push(all[i as int]));
                    assert forall|a: int, b: int| 0 <= a < b < kept.entries().len() implies (
                    #[trigger] kept.entries()[a]).0 != (#[trigger] kept.entries()[b]).0 by {
                        if b == before.len() {
                            assert(before[a].0 != all[i as int].0);
                        } else {
                            assert(before[a].0 != before[b].0);
                        }
                    }
                }
            }
            i += 1;
        }
        proof {
            assert(all.take(all.len() as int) =~= all);
        }
        self.file_to_key = kept;
    }

    /// Evicts the record at position `at` and hands out its key.
    pub fn evict_at(&mut self, at: usize) -> (key: String)
        requires
            old(self).wf(),
            at < old(self)@.entries.len(),
        ensures
            final(self).wf(),
            final(self)@ == old(self)@.evicted_at(at as int),
            key@ == old(self)@.entries[at as int].0,
    {
        let (key, record) = self.entries.remove_at(at);
        self.unbind_key(&key);
        self.reduce(record.stored_len);
        key
    }

    /// Evicts the oldest records until the recorded size is within
    /// `ceiling`, and hands out the evicted keys, oldest first. Where the
    /// size is still over the ceiling when no record is left, size and
    /// count become those of the empty store. A ceiling of zero is no
    /// ceiling.
    pub fn trim(&mut self, ceiling: u64) -> (evicted: Vec<String>)
        requires
            old(self).wf(),
        ensures
            final(self).wf(),
            final(self)@ == old(self)@.trimmed(ceiling),
            string_views(evicted@) == old(self)@.victims(ceiling),
            evicted@.len() == old(self)@.victims(ceiling).len(),
            ceiling > 0 ==> final(self)@.stats.size_bytes <= ceiling,
    {
        let mut evicted: Vec<String> = Vec::new();
        assert(string_views(evicted@) =~= Seq::empty());
        while ceiling > 0 && self.stats.size_bytes > ceiling && self.entries.len() > 0
            invariant
                self.wf(),
                old(self)@.trimmed(ceiling) == self@.trimmed(ceiling),
                old(self)@.victims(ceiling) == string_views(evicted@)
                    + self@.victims(ceiling),
            decreases self@.entries.len(),
        {
            let at = self.find_oldest();
            let ghost before = string_views(evicted@);
            let key = self.evict_at(at);
            evicted.push(key);
            proof {
                assert(string_views(evicted@) =~= before.push(key@));
            }
        }
        proof {
            if self@.entries.len() > 0 {
                lemma_oldest_position(self@.entries);
            }
        }
        if ceiling > 0 && self.stats.size_bytes > ceiling {
            self.stats.size_bytes = 0;
            self.stats.entry_count = 0;
        }
        evicted
    }
}

} // verus!
