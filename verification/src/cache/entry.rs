//! Cache entries, their metadata, statistics and configuration.

use vstd::prelude::*;
use crate::text::string_views;

verus! {

/// Schema version of the persisted index; an index of another version is
/// discarded on load.
pub const CACHE_VERSION: u32 = 1;

/// What can go wrong inside a cache operation.
#[derive(Debug, Clone, Copy, PartialEq, Eq, Structural)]
pub enum CacheError {
    /// The file system refused an operation that the cache depends on.
    Io,
    /// A payload could not be compressed.
    Compression,
    /// A stored payload is not what the compressor makes.
    Decompression,
}

/// Copies a list of strings.
pub fn clone_strings(strings: &Vec<String>) -> (copy: Vec<String>)
    ensures
        string_views(copy@) == string_views(strings@),
{
    let mut copy: Vec<String> = Vec::new();
    let mut i: usize = 0;
    while i < strings.len()
        invariant
            i <= strings@.len(),
            copy@.len() == i,
            forall|k: int| 0 <= k < i ==> copy@[k]@ == strings@[k]@,
        decreases strings@.len() - i,
    {
        copy.push(strings[i].clone());
        i += 1;
    }
    assert(string_views(copy@) =~= string_views(strings@));
    copy
}

/// Copies a byte buffer.
pub fn clone_bytes(bytes: &Vec<u8>) -> (copy: Vec<u8>)
    ensures
        copy@ == bytes@,
{
    let mut copy: Vec<u8> = Vec::new();
    let mut i: usize = 0;
    while i < bytes.len()
        invariant
            i <= bytes@.len(),
            copy@ == bytes@.take(i as int),
        decreases bytes@.len() - i,
    {
        copy.push(bytes[i]);
        assert(bytes@.take(i + 1) =~= bytes@.take(i as int).push(bytes@[i as int]));
        i += 1;
    }
    assert(bytes@.take(bytes@.len() as int) =~= bytes@);
    copy
}

/// What is recorded about an analysed file beside the analysis itself.
#[derive(Debug)]
pub struct CacheMetadata {
    /// Version of the toolchain that produced the analysis.
    pub rustc_version: String,
    /// Paths of the files that the analysed file depends on, in order.
    pub dependencies: Vec<String>,
    /// Modification time of the analysed file, in seconds since the epoch.
    pub file_mtime: u64,
    /// How long the analysis took.
    pub analysis_duration_ms: u64,
    /// Size of the analysed file in bytes.
    pub file_size: u64,
}

/// The mathematical value of a [`CacheMetadata`].
pub ghost struct CacheMetadataView {
    pub rustc_version: Seq<char>,
    pub dependencies: Seq<Seq<char>>,
    pub file_mtime: u64,
    pub analysis_duration_ms: u64,
    pub file_size: u64,
}

impl View for CacheMetadata {
    type V = CacheMetadataView;

    open spec fn view(&self) -> CacheMetadataView {
        CacheMetadataView {
            rustc_version: self.rustc_version@,
            dependencies: string_views(self.dependencies@),
            file_mtime: self.file_mtime,
            analysis_duration_ms: self.analysis_duration_ms,
            file_size: self.file_size,
        }
    }
}

impl Clone for CacheMetadata {
    fn clone(&self) -> (copy: Self)
        ensures
            copy@ == self@,
    {
        CacheMetadata {
            rustc_version: self.rustc_version.clone(),
            dependencies: clone_strings(&self.dependencies),
            file_mtime: self.file_mtime,
            analysis_duration_ms: self.analysis_duration_ms,
            file_size: self.file_size,
        }
    }
}

/// One cached analysis: two opaque payloads with the fingerprint of the
/// file content they were computed from.
#[derive(Debug)]
pub struct CacheEntry {
    /// Fingerprint of the content of the analysed file.
    pub file_hash: u64,
    /// When the entry was made, in seconds since the epoch.
    pub created_at: u64,
    /// First payload.
    pub hir_data: Vec<u8>,
    /// Second payload.
    pub mir_data: Vec<u8>,
    pub metadata: CacheMetadata,
}

/// The mathematical value of a [`CacheEntry`].
pub ghost struct CacheEntryView {
    pub file_hash: u64,
    pub created_at: u64,
    pub hir_data: Seq<u8>,
    pub mir_data: Seq<u8>,
    pub metadata: CacheMetadataView,
}

impl View for CacheEntry {
    type V = CacheEntryView;

    open spec fn view(&self) -> CacheEntryView {
        CacheEntryView {
            file_hash: self.file_hash,
            created_at: self.created_at,
            hir_data: self.hir_data@,
            mir_data: self.mir_data@,
            metadata: self.metadata@,
        }
    }
}

impl Clone for CacheEntry {
    fn clone(&self) -> (copy: Self)
        ensures
            copy@ == self@,
    {
        CacheEntry {
            file_hash: self.file_hash,
            created_at: self.created_at,
            hir_data: clone_bytes(&self.hir_data),
            mir_data: clone_bytes(&self.mir_data),
            metadata: self.metadata.clone(),
        }
    }
}

/// A ratio of two counts; the denominator is never zero.
#[derive(Debug, Clone, Copy, PartialEq, Eq, Structural)]
pub struct Ratio {
    pub numer: u64,
    pub denom: u128,
}

/// Running totals of a cache.
#[derive(Debug, Clone, Copy, PartialEq, Eq, Structural)]
pub struct CacheStats {
    /// Lookups that served an entry.
    pub hits: u64,
    /// Entries stored: a miss is counted when an entry is stored, not when
    /// a lookup finds none.
    pub misses: u64,
    /// Bytes that the entries of the store take in the disk tier.
    pub size_bytes: u64,
    /// Number of entries in the store.
    pub entry_count: u64,
}

impl CacheStats {
    /// The statistics of a cache that has done nothing yet.
    pub open spec fn zero() -> CacheStats {
        CacheStats { hits: 0, misses: 0, size_bytes: 0, entry_count: 0 }
    }

    /// Share of hits among hits and misses as a fraction, `0 / 1` when
    /// there were neither.
    pub open spec fn rate(self) -> Ratio {
        if self.hits + self.misses == 0 {
            Ratio { numer: 0, denom: 1 }
        } else {
            Ratio { numer: self.hits, denom: (self.hits + self.misses) as u128 }
        }
    }

    /// Share of hits among hits and misses.
    pub fn hit_rate(&self) -> (rate: Ratio)
        ensures
            rate == self.rate(),
            rate.denom > 0,
            rate.numer <= rate.denom,
    {
        let total: u128 = self.hits as u128 + self.misses as u128;
        if total == 0 {
            Ratio { numer: 0, denom: 1 }
        } else {
            Ratio { numer: self.hits, denom: total }
        }
    }
}

impl Default for CacheStats {
    fn default() -> (stats: Self)
        ensures
            stats == CacheStats::zero(),
    {
        CacheStats { hits: 0, misses: 0, size_bytes: 0, entry_count: 0 }
    }
}

/// Configuration of a cache.
#[derive(Debug, Clone, Copy, PartialEq, Eq, Structural)]
pub struct CacheOptions {
    /// Ceiling on the recorded size of the stored entries; 0 for none.
    pub max_size_bytes: u64,
    /// Greatest age at which an entry is still served; 0 for no limit.
    pub max_age_secs: u64,
    /// Whether payloads are compressed before they are stored.
    pub compress_data: bool,
    /// Whether entries are also kept in memory.
    pub use_hot_tier: bool,
    /// Ceiling on the number of entries that lookups add to memory.
    pub max_memory_entries: usize,
}

impl CacheOptions {
    /// The default configuration: 500 MiB, one day, compression and the
    /// in-memory tier on, 100 entries in memory.
    pub open spec fn standard() -> CacheOptions {
        CacheOptions {
            max_size_bytes: 524_288_000,
            max_age_secs: 86_400,
            compress_data: true,
            use_hot_tier: true,
            max_memory_entries: 100,
        }
    }
}

impl Default for CacheOptions {
    fn default() -> (options: Self)
        ensures
            options == CacheOptions::standard(),
    {
        CacheOptions {
            max_size_bytes: 500 * 1024 * 1024,
            max_age_secs: 24 * 60 * 60,
            compress_data: true,
            use_hot_tier: true,
            max_memory_entries: 100,
        }
    }
}

} // verus!
