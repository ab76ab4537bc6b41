//! The cache itself: the index and the in-memory tier under one
//! configuration, with lookup, storing, invalidation and cleanup.

use vstd::prelude::*;
use vstd::string::StringExecFns;
use crate::cache::compress::{
    COMPRESSION_LEVEL, compress_payload, compressible, open_payload, zstd_content, zstd_frame,
};
use crate::cache::entry::{
    CACHE_VERSION, CacheEntry, CacheEntryView, CacheError, CacheMetadata, CacheOptions, CacheStats,
};
use crate::cache::hot_tier::{
    HotTier, hot_clear, hot_entries, hot_get, hot_insert, hot_len, hot_new, hot_remove,
};
use crate::cache::index::{
    CacheIndex, CacheIndexView, IndexRecord, IndexRecordView, lemma_trim_keeps_counters,
};
use crate::cache::key::{
    KEY_WIDTH, cache_key, calculate_hash, content_fingerprint, get_cache_key,
};
use crate::cache::validity::{SourceProbe, SourceProbeView, entry_validity, is_entry_valid};
use crate::text::{code_points, ends_with, string_views};

verus! {

/// What the disk tier holds under a key.
#[derive(Debug)]
pub enum StoredEntry {
    /// There is no file for the key.
    Absent,
    /// There is a file, and it does not decode to an entry.
    Corrupt,
    /// There is a file, and it decodes to `entry`.
    Decoded { entry: CacheEntry },
}

/// The mathematical value of a [`StoredEntry`].
pub ghost enum StoredEntryView {
    Absent,
    Corrupt,
    Decoded { entry: CacheEntryView },
}

impl View for StoredEntry {
    type V = StoredEntryView;

    open spec fn view(&self) -> StoredEntryView {
        match *self {
            StoredEntry::Absent => StoredEntryView::Absent,
            StoredEntry::Corrupt => StoredEntryView::Corrupt,
            StoredEntry::Decoded { entry } => StoredEntryView::Decoded { entry: entry@ },
        }
    }
}

/// What a lookup gives.
#[derive(Debug)]
pub struct GetOutcome {
    /// The entry that is served, if any.
    pub entry: Option<CacheEntry>,
    /// Whether what the disk tier holds under the key is stale or corrupt
    /// and is to be removed.
    pub remove_artifact: bool,
}

/// The mathematical value of a [`GetOutcome`].
pub ghost struct GetOutcomeView {
    pub entry: Option<CacheEntryView>,
    pub remove_artifact: bool,
}

impl View for GetOutcome {
    type V = GetOutcomeView;

    open spec fn view(&self) -> GetOutcomeView {
        GetOutcomeView {
            entry: match self.entry {
                Some(entry) => Some(entry@),
                None => None,
            },
            remove_artifact: self.remove_artifact,
        }
    }
}

/// The value of the result of a lookup.
pub open spec fn outcome_view(outcome: Result<GetOutcome, CacheError>) -> Result<
    GetOutcomeView,
    CacheError,
> {
    match outcome {
        Ok(found) => Ok(found@),
        Err(error) => Err(error),
    }
}

/// How the removal of the file of a key went.
#[derive(Debug, Clone, Copy, PartialEq, Eq, Structural)]
pub enum ArtifactRemoval {
    /// There was no file.
    Absent,
    /// The file was removed.
    Removed,
    /// The file is there and could not be removed.
    Failed,
}

/// The mathematical value of a cache.
pub ghost struct CacheState {
    pub options: CacheOptions,
    pub index: CacheIndexView,
    /// What the in-memory tier holds.
    pub hot: Map<Seq<char>, CacheEntryView>,
}

/// What the index records about an entry that takes `stored_len` bytes in
/// the disk tier.
pub open spec fn record_of(entry: CacheEntryView, stored_len: u64) -> IndexRecordView {
    IndexRecordView { created_at: entry.created_at, stored_len, metadata: entry.metadata }
}

/// The index that a cache starts from, given the index that was persisted:
/// the persisted one if it has the current version and binds nothing twice,
/// an empty one otherwise.
pub open spec fn loaded(persisted: Option<CacheIndexView>) -> CacheIndexView {
    match persisted {
        Some(index) => if index.version == CACHE_VERSION && index.wf() {
            index
        } else {
            CacheIndexView::empty()
        },
        None => CacheIndexView::empty(),
    }
}

impl CacheState {
    /// The index binds nothing twice and the in-memory tier is finite.
    pub open spec fn wf(self) -> bool {
        self.index.wf() && self.hot.dom().finite()
    }

    /// The state of a new cache.
    pub open spec fn initial(options: CacheOptions, persisted: Option<CacheIndexView>) -> CacheState {
        CacheState { options, index: loaded(persisted), hot: Map::empty() }
    }

    /// Memory holds an entry for `key`, and the in-memory tier is in use.
    pub open spec fn serves_hot(self, key: Seq<char>) -> bool {
        self.options.use_hot_tier && self.hot.contains_key(key)
    }

    /// The entry that a lookup of `key` finds, before it is examined: the
    /// one in memory if there is one, else the one that the disk tier
    /// holds, if it holds one.
    pub open spec fn candidate(self, key: Seq<char>, stored: StoredEntryView) -> Option<
        CacheEntryView,
    > {
        if self.serves_hot(key) {
            Some(self.hot[key])
        } else {
            match stored {
                StoredEntryView::Decoded { entry } => Some(entry),
                _ => None,
            }
        }
    }

    /// What a lookup of `key` at `now` returns, given what the disk tier
    /// holds under the key and the present state of the source. The entry
    /// that the lookup finds, in memory or on disk, is returned if it is
    /// valid; if it is not, nothing is returned and what the disk tier
    /// holds is to be removed. Where the lookup finds no entry it returns
    /// nothing, and a corrupt file is to be removed.
    pub open spec fn get_result(
        self,
        key: Seq<char>,
        stored: StoredEntryView,
        source: SourceProbeView,
        now: u64,
    ) -> Result<GetOutcomeView, CacheError> {
        match self.candidate(key, stored) {
            Some(entry) => match entry_validity(self.options, entry, source, now) {
                Ok(valid) => if valid {
                    Ok(GetOutcomeView { entry: Some(entry), remove_artifact: false })
                } else {
                    Ok(GetOutcomeView { entry: None, remove_artifact: true })
                },
                Err(error) => Err(error),
            },
            None => Ok(
                GetOutcomeView { entry: None, remove_artifact: stored == StoredEntryView::Corrupt },
            ),
        }
    }

    /// A lookup of `key` at `now` finds an entry and serves it.
    pub open spec fn serves_entry(
        self,
        key: Seq<char>,
        stored: StoredEntryView,
        source: SourceProbeView,
        now: u64,
    ) -> bool {
        self.candidate(key, stored) matches Some(entry) && entry_validity(
            self.options,
            entry,
            source,
            now,
        ) == Ok::<bool, CacheError>(true)
    }

    /// The state after a lookup of `key` at `now`. A lookup that serves an
    /// entry counts as a hit, and an entry that came from the disk tier is
    /// put into memory where that tier is in use and below its ceiling. A
    /// lookup that finds an entry that is no longer valid takes it out of
    /// memory. Any other lookup changes nothing.
    pub open spec fn after_get(
        self,
        key: Seq<char>,
        stored: StoredEntryView,
        source: SourceProbeView,
        now: u64,
    ) -> CacheState {
        match self.candidate(key, stored) {
            Some(entry) => match entry_validity(self.options, entry, source, now) {
                Ok(valid) => if valid {
                    CacheState {
                        options: self.options,
                        index: CacheIndexView {
                            stats: CacheStats {
                                hits: (self.index.stats.hits + 1) as u64,
                                ..self.index.stats
                            },
                            ..self.index
                        },
                        hot: if !self.serves_hot(key) && self.options.use_hot_tier
                            && self.hot.len() < self.options.max_memory_entries {
                            self.hot.insert(key, entry)
                        } else {
                            self.hot
                        },
                    }
                } else {
                    CacheState { hot: self.hot.remove(key), ..self }
                },
                Err(error) => self,
            },
            None => self,
        }
    }

    /// The index after `entry` was stored for `file_path` under `key`,
    /// before cleanup.
    pub open spec fn recorded(
        self,
        file_path: Seq<char>,
        key: Seq<char>,
        entry: CacheEntryView,
        stored_len: u64,
    ) -> CacheIndexView {
        self.index.recorded(file_path, key, record_of(entry, stored_len))
    }

    /// The keys that the cleanup after storing `entry` evicts, oldest first.
    pub open spec fn evicted_by_put(
        self,
        file_path: Seq<char>,
        key: Seq<char>,
        entry: CacheEntryView,
        stored_len: u64,
    ) -> Seq<Seq<char>> {
        self.recorded(file_path, key, entry, stored_len).victims(self.options.max_size_bytes)
    }

    /// The state after `entry`, written as `stored_len` bytes, was stored
    /// for `file_path` under `key`: the index records it, the in-memory
    /// tier holds it where that tier is in use, and then cleanup evicts the
    /// oldest records, from the index and from memory, until the recorded
    /// size is within the ceiling.
    pub open spec fn after_put(
        self,
        file_path: Seq<char>,
        key: Seq<char>,
        entry: CacheEntryView,
        stored_len: u64,
    ) -> CacheState {
        let recorded = self.recorded(file_path, key, entry, stored_len);
        let held = if self.options.use_hot_tier {
            self.hot.insert(key, entry)
        } else {
            self.hot
        };
        CacheState {
            options: self.options,
            index: recorded.trimmed(self.options.max_size_bytes),
            hot: held.remove_keys(recorded.victims(self.options.max_size_bytes).to_set()),
        }
    }

    /// The state after the entry of `file_path` under `key` was
    /// invalidated: memory no longer holds the key, and the index forgets
    /// it unless the file could not be removed.
    pub open spec fn after_invalidate(
        self,
        file_path: Seq<char>,
        key: Seq<char>,
        removal: ArtifactRemoval,
    ) -> CacheState {
        CacheState {
            options: self.options,
            index: if removal == ArtifactRemoval::Failed {
                self.index
            } else {
                self.index.forgotten(file_path, key)
            },
            hot: self.hot.remove(key),
        }
    }

    /// The state after memory was emptied.
    pub open spec fn after_clear_memory(self) -> CacheState {
        CacheState { hot: Map::empty(), ..self }
    }

    /// The state after everything was cleared.
    pub open spec fn after_clear(self) -> CacheState {
        CacheState { options: self.options, index: self.index.cleared(), hot: Map::empty() }
    }
}

/// The entry that is made for a file content and two payloads.
pub open spec fn prepared(
    content: Seq<u8>,
    hir_data: Seq<u8>,
    mir_data: Seq<u8>,
    metadata: crate::cache::entry::CacheMetadataView,
    now: u64,
) -> CacheEntryView {
    CacheEntryView {
        file_hash: content_fingerprint(content),
        created_at: now,
        hir_data,
        mir_data,
        metadata,
    }
}

/// Puts an entry together from the fingerprint of the content, the time
/// and what became of the two payloads: the first error among the
/// payloads, else the entry.
pub fn assemble_entry(
    file_hash: u64,
    now: u64,
    hir_data: Result<Vec<u8>, CacheError>,
    mir_data: Result<Vec<u8>, CacheError>,
    metadata: CacheMetadata,
) -> (entry: Result<CacheEntry, CacheError>)
    ensures
        match (hir_data, mir_data) {
            (Ok(first), Ok(second)) => entry.is_ok() && entry.unwrap()@ == (CacheEntryView {
                file_hash,
                created_at: now,
                hir_data: first@,
                mir_data: second@,
                metadata: metadata@,
            }),
            (Err(error), _) => entry == Err::<CacheEntry, CacheError>(error),
            (Ok(_), Err(error)) => entry == Err::<CacheEntry, CacheError>(error),
        },
{
    match hir_data {
        Err(error) => Err(error),
        Ok(first) => match mir_data {
            Err(error) => Err(error),
            Ok(second) => Ok(
                CacheEntry {
                    file_hash,
                    created_at: now,
                    hir_data: first,
                    mir_data: second,
                    metadata,
                },
            ),
        },
    }
}

/// Name of the directory, below the root of a workspace, that holds the
/// files of its cache.
pub const CACHE_DIR: &'static str = ".rusty-cache";

/// The name of the file that holds the entry of `key`.
pub open spec fn entry_file_name(key: Seq<char>) -> Seq<char> {
    key + ".cache"@
}

/// The name of the file that holds the index.
pub open spec fn index_file_name() -> Seq<char> {
    "index.bin"@
}

/// A file of this name in the cache directory belongs to the cache: it is
/// the index or holds an entry.
pub open spec fn cache_artifact(file_name: Seq<char>) -> bool {
    ".cache"@.is_suffix_of(file_name) || file_name == index_file_name()
}

/// A cache of analysis results.
pub struct IncrementalCache {
    index: CacheIndex,
    memory_cache: HotTier,
    fs_options: CacheOptions,
}

impl View for IncrementalCache {
    type V = CacheState;

    closed spec fn view(&self) -> CacheState {
        CacheState {
            options: self.fs_options,
            index: self.index@,
            hot: hot_entries(self.memory_cache),
        }
    }
}

impl IncrementalCache {
    /// The index binds nothing twice and the in-memory tier is finite.
    pub open spec fn wf(&self) -> bool {
        self@.wf()
    }

    /// A cache with the default configuration that starts from the
    /// persisted index, if there is one.
    pub fn new(persisted: Option<CacheIndex>) -> (cache: Self)
        ensures
            cache.wf(),
            cache@ == CacheState::initial(
                CacheOptions::standard(),
                match persisted {
                    Some(index) => Some(index@),
                    None => None,
                },
            ),
    {
        Self::with_options(CacheOptions::default(), persisted)
    }

    /// A cache with the given configuration that starts from the persisted
    /// index, if there is one.
    pub fn with_options(options: CacheOptions, persisted: Option<CacheIndex>) -> (cache: Self)
        ensures
            cache.wf(),
            cache@ == CacheState::initial(
                options,
                match persisted {
                    Some(index) => Some(index@),
                    None => None,
                },
            ),
    {
        let index = match persisted {
            Some(index) => Self::load_index(index),
            None => CacheIndex::new(),
        };
        IncrementalCache { index, memory_cache: hot_new(), fs_options: options }
    }

    /// Takes over a persisted index if it has the current version and binds
    /// nothing twice, and starts from an empty one otherwise.
    pub fn load_index(persisted: CacheIndex) -> (index: CacheIndex)
        ensures
            index.wf(),
            index@ == loaded(Some(persisted@)),
    {
        if persisted.version != CACHE_VERSION {
            return CacheIndex::new();
        }
        if !persisted.is_well_formed() {
            return CacheIndex::new();
        }
        persisted
    }

    /// The configuration of the cache.
    pub fn options(&self) -> (options: CacheOptions)
        ensures
            options == self@.options,
    {
        self.fs_options
    }

    /// The cache key of a canonical path.
    pub fn get_cache_key(canonical_path: &str) -> (key: String)
        ensures
            key@ == cache_key(canonical_path@),
            key@.len() == KEY_WIDTH,
    {
        get_cache_key(canonical_path)
    }

    /// The fingerprint of a file content.
    pub fn calculate_hash(data: &[u8]) -> (fingerprint: u64)
        ensures
            fingerprint == content_fingerprint(data@),
    {
        calculate_hash(data)
    }

    /// The name of the file that holds the entry of `key`.
    pub fn entry_file_name(key: &str) -> (name: String)
        ensures
            name@ == entry_file_name(key@),
    {
        let mut name = key.to_string();
        name.append(".cache");
        name
    }

    /// The name of the file that holds the index.
    pub fn index_file_name() -> (name: String)
        ensures
            name@ == index_file_name(),
    {
        "index.bin".to_string()
    }

    /// Tells whether a file of this name in the cache directory belongs to
    /// the cache.
    pub fn is_cache_artifact(file_name: &str) -> (yes: bool)
        ensures
            yes == cache_artifact(file_name@),
    {
        let name = code_points(file_name);
        let suffix = code_points(".cache");
        let index = code_points("index.bin");
        if ends_with(&name, &suffix) {
            return true;
        }
        if name.len() == index.len() && ends_with(&name, &index) {
            assert(name@ =~= index@);
            return true;
        }
        false
    }

    /// Decides whether `entry` may be served at `now`.
    pub fn is_entry_valid(&self, entry: &CacheEntry, source: &SourceProbe, now: u64) -> (valid:
        Result<bool, CacheError>)
        ensures
            valid == entry_validity(self@.options, entry@, source@, now),
    {
        is_entry_valid(&self.fs_options, entry, source, now)
    }

    /// The entry of a canonical path that memory holds, if the in-memory
    /// tier is in use and holds one. This is the entry that `get` examines
    /// in place of what the disk tier holds; it is handed out here as it
    /// is, so that the caller can tell which dependencies to look at.
    pub fn lookup_memory(&self, canonical_path: &str) -> (found: Option<CacheEntry>)
        ensures
            match found {
                Some(entry) => self@.serves_hot(cache_key(canonical_path@)) && entry@
                    == self@.hot[cache_key(canonical_path@)],
                None => !self@.serves_hot(cache_key(canonical_path@)),
            },
    {
        if !self.fs_options.use_hot_tier {
            return None;
        }
        let key = get_cache_key(canonical_path);
        hot_get(&self.memory_cache, &key)
    }

    /// Looks up the entry of a canonical path at `now`, given what the disk
    /// tier holds under its key and the present state of the file that the
    /// entry is about. The state of the source is looked at only where the
    /// lookup finds an entry, in memory or on disk.
    pub fn get(
        &mut self,
        canonical_path: &str,
        stored: StoredEntry,
        source: &SourceProbe,
        now: u64,
    ) -> (outcome: Result<GetOutcome, CacheError>)
        requires
            old(self).wf(),
            old(self)@.serves_entry(cache_key(canonical_path@), stored@, source@, now)
                ==> old(self)@.index.stats.hits < u64::MAX,
        ensures
            final(self).wf(),
            outcome_view(outcome) == old(self)@.get_result(
                cache_key(canonical_path@),
                stored@,
                source@,
                now,
            ),
            final(self)@ == old(self)@.after_get(cache_key(canonical_path@), stored@, source@, now),
            !old(self)@.serves_entry(cache_key(canonical_path@), stored@, source@, now)
                ==> final(self)@.index == old(self)@.index,
            old(self)@.candidate(cache_key(canonical_path@), stored@).is_none() ==> final(self)@
                == old(self)@,
    {
        let key = get_cache_key(canonical_path);
        let held = if self.fs_options.use_hot_tier {
            hot_get(&self.memory_cache, &key)
        } else {
            None
        };
        let from_memory = held.is_some();
        let entry = match held {
            Some(entry) => entry,
            None => match stored {
                StoredEntry::Absent => {
                    return Ok(GetOutcome { entry: None, remove_artifact: false });
                },
                StoredEntry::Corrupt => {
                    return Ok(GetOutcome { entry: None, remove_artifact: true });
                },
                StoredEntry::Decoded { entry } => entry,
            },
        };
        match is_entry_valid(&self.fs_options, &entry, source, now) {
            Err(error) => Err(error),
            Ok(false) => {
                hot_remove(&mut self.memory_cache, &key);
                Ok(GetOutcome { entry: None, remove_artifact: true })
            },
            Ok(true) => {
                if !from_memory && self.fs_options.use_hot_tier && hot_len(&self.memory_cache)
                    < self.fs_options.max_memory_entries {
                    hot_insert(&mut self.memory_cache, key, entry.clone());
                }
                self.index.stats.hits = self.index.stats.hits + 1;
                Ok(GetOutcome { entry: Some(entry), remove_artifact: false })
            },
        }
    }

    /// Makes the entry for a file with the given content and payloads at
    /// `now`, compressing the payloads where the configuration says so.
    pub fn prepare_entry(
        &self,
        content: &[u8],
        hir_data: &[u8],
        mir_data: &[u8],
        metadata: CacheMetadata,
        now: u64,
    ) -> (entry: Result<CacheEntry, CacheError>)
        ensures
            match entry {
                Ok(made) => made@ == prepared(
                    content@,
                    if self@.options.compress_data {
                        zstd_frame(hir_data@, COMPRESSION_LEVEL)
                    } else {
                        hir_data@
                    },
                    if self@.options.compress_data {
                        zstd_frame(mir_data@, COMPRESSION_LEVEL)
                    } else {
                        mir_data@
                    },
                    metadata@,
                    now,
                ),
                Err(error) => self@.options.compress_data && error == CacheError::Compression,
            },
            !self@.options.compress_data ==> entry.is_ok(),
            self@.options.compress_data && (!compressible(hir_data@.len()) || !compressible(
                mir_data@.len(),
            )) ==> entry.is_err(),
    {
        let file_hash = calculate_hash(content);
        let first = compress_payload(hir_data, self.fs_options.compress_data);
        let second = match first {
            Ok(_) => compress_payload(mir_data, self.fs_options.compress_data),
            Err(error) => Err(error),
        };
        assemble_entry(file_hash, now, first, second, metadata)
    }

    /// The payload that was stored as `stored` by a cache of this
    /// configuration, as it was before it was stored.
    pub fn open_payload(&self, stored: &[u8]) -> (payload: Result<Vec<u8>, CacheError>)
        ensures
            match payload {
                Ok(bytes) => bytes@ == (if self@.options.compress_data {
                    zstd_content(stored@)
                } else {
                    stored@
                }),
                Err(error) => self@.options.compress_data && error == CacheError::Decompression,
            },
    {
        open_payload(stored, self.fs_options.compress_data)
    }

    /// Records that `entry` was written to the disk tier as `stored_len`
    /// bytes for `file_path`, whose canonical form is `canonical_path`, and
    /// cleans up. Returns the keys that cleanup evicted, oldest first; their
    /// files are to be removed.
    pub fn put(&mut self, file_path: &str, canonical_path: &str, entry: CacheEntry, stored_len: u64) -> (evicted:
        Vec<String>)
        requires
            old(self).wf(),
            old(self)@.index.has_room(stored_len),
        ensures
            final(self).wf(),
            final(self)@ == old(self)@.after_put(
                file_path@,
                cache_key(canonical_path@),
                entry@,
                stored_len,
            ),
            string_views(evicted@) == old(self)@.evicted_by_put(
                file_path@,
                cache_key(canonical_path@),
                entry@,
                stored_len,
            ),
            evicted@.len() == old(self)@.evicted_by_put(
                file_path@,
                cache_key(canonical_path@),
                entry@,
                stored_len,
            ).len(),
            final(self)@.index.stats.misses == old(self)@.index.stats.misses + 1,
            final(self)@.index.stats.hits == old(self)@.index.stats.hits,
            old(self)@.options.max_size_bytes > 0 ==> final(self)@.index.stats.size_bytes <= old(
                self,
            )@.options.max_size_bytes,
    {
        let key = get_cache_key(canonical_path);
        let record = IndexRecord {
            created_at: entry.created_at,
            stored_len,
            metadata: entry.metadata.clone(),
        };
        proof {
            lemma_trim_keeps_counters(
                self@.recorded(file_path@, key@, entry@, stored_len),
                self@.options.max_size_bytes,
            );
        }
        self.index.record(file_path.to_string(), key.clone(), record);
        if self.fs_options.use_hot_tier {
            hot_insert(&mut self.memory_cache, key, entry);
        }
        self.cleanup_old_entries()
    }

    /// Evicts the oldest records, from the index and from memory, until the
    /// recorded size is within the configured ceiling. Returns the evicted
    /// keys, oldest first; their files are to be removed.
    pub fn cleanup_old_entries(&mut self) -> (evicted: Vec<String>)
        requires
            old(self).wf(),
        ensures
            final(self).wf(),
            final(self)@ == (CacheState {
                options: old(self)@.options,
                index: old(self)@.index.trimmed(old(self)@.options.max_size_bytes),
                hot: old(self)@.hot.remove_keys(
                    old(self)@.index.victims(old(self)@.options.max_size_bytes).to_set(),
                ),
            }),
            string_views(evicted@) == old(self)@.index.victims(old(self)@.options.max_size_bytes),
            evicted@.len() == old(self)@.index.victims(old(self)@.options.max_size_bytes).len(),
            old(self)@.options.max_size_bytes > 0 ==> final(self)@.index.stats.size_bytes <= old(
                self,
            )@.options.max_size_bytes,
    {
        let evicted = self.index.trim(self.fs_options.max_size_bytes);
        let ghost held = hot_entries(self.memory_cache);
        let ghost keys = string_views(evicted@);
        let mut i: usize = 0;
        assert(held.remove_keys(keys.take(0).to_set()) =~= held);
        while i < evicted.len()
            invariant
                i <= evicted@.len(),
                keys == string_views(evicted@),
                held.dom().finite(),
                self.index@ == old(self)@.index.trimmed(old(self)@.options.max_size_bytes),
                self.index.wf(),
                self.fs_options == old(self).fs_options,
                hot_entries(self.memory_cache) == held.remove_keys(keys.take(i as int).to_set()),
            decreases evicted@.len() - i,
        {
            hot_remove(&mut self.memory_cache, &evicted[i]);
            proof {
                assert(keys.take(i + 1) =~= keys.take(i as int).push(keys[i as int]));
                keys.take(i as int).lemma_push_to_set_commute(keys[i as int]);
                assert(hot_entries(self.memory_cache) =~= held.remove_keys(
                    keys.take(i + 1).to_set(),
                ));
            }
            i += 1;
        }
        proof {
            assert(keys.take(evicted@.len() as int) =~= keys);
            vstd::set_lib::lemma_set_subset_finite(
                held.dom(),
                held.remove_keys(keys.to_set()).dom(),
            );
        }
        evicted
    }

    /// Invalidates the entry of `file_path`, whose canonical form is
    /// `canonical_path`, given how the removal of its file went.
    pub fn invalidate(&mut self, file_path: &str, canonical_path: &str, removal: ArtifactRemoval) -> (done:
        Result<(), CacheError>)
        requires
            old(self).wf(),
        ensures
            final(self).wf(),
            final(self)@ == old(self)@.after_invalidate(
                file_path@,
                cache_key(canonical_path@),
                removal,
            ),
            done.is_err() <==> removal == ArtifactRemoval::Failed,
            done.is_err() ==> done == Err::<(), CacheError>(CacheError::Io),
    {
        let key = get_cache_key(canonical_path);
        hot_remove(&mut self.memory_cache, &key);
        if removal == ArtifactRemoval::Failed {
            return Err(CacheError::Io);
        }
        let path = file_path.to_string();
        self.index.forget(&path, &key);
        Ok(())
    }

    /// Empties the in-memory tier and leaves the index as it is.
    pub fn clear_memory(&mut self)
        requires
            old(self).wf(),
        ensures
            final(self).wf(),
            final(self)@ == old(self)@.after_clear_memory(),
    {
        hot_clear(&mut self.memory_cache);
    }

    /// Empties the in-memory tier and the index and sets the totals to
    /// zero.
    pub fn clear(&mut self)
        ensures
            final(self).wf(),
            final(self)@ == old(self)@.after_clear(),
    {
        hot_clear(&mut self.memory_cache);
        self.index.clear();
    }

    /// The running totals.
    pub fn stats(&self) -> (stats: CacheStats)
        ensures
            stats == self@.index.stats,
    {
        self.index.stats
    }

    /// A copy of the index, to be persisted.
    pub fn save_index(&self) -> (snapshot: CacheIndex)
        requires
            self.wf(),
        ensures
            snapshot.wf(),
            snapshot@ == self@.index,
    {
        self.index.clone()
    }
}

} // verus!
