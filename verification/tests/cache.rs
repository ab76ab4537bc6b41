use refactor_backend::cache::compress::{compress_payload, open_payload};
use refactor_backend::cache::key::{calculate_hash, get_cache_key, render_key};
use refactor_backend::cache::validity::{check_dependencies, is_entry_valid};
use refactor_backend::{
    ArtifactRemoval, CacheEntry, CacheError, CacheIndex, CacheMetadata, CacheOptions, CacheStats,
    DependencyStatus, IncrementalCache, IndexRecord, NameResolutionResult, NameResolver, Ratio,
    SourceProbe, StoredEntry, Verdict,
};

const SOURCE: &[u8] = b"fn main() {}";

fn metadata(file_size: u64) -> CacheMetadata {
    CacheMetadata {
        rustc_version: "1.70.0".to_string(),
        dependencies: vec![],
        file_mtime: 1_000,
        analysis_duration_ms: 100,
        file_size,
    }
}

fn plain_options() -> CacheOptions {
    CacheOptions {
        max_size_bytes: 0,
        max_age_secs: 0,
        compress_data: false,
        use_hot_tier: false,
        max_memory_entries: 100,
    }
}

fn memory_options() -> CacheOptions {
    CacheOptions { use_hot_tier: true, ..plain_options() }
}

fn probe(content: &[u8], dependencies: Vec<DependencyStatus>) -> SourceProbe {
    SourceProbe { content: content.to_vec(), dependencies }
}

fn unchanged() -> SourceProbe {
    probe(SOURCE, vec![])
}

fn decoded(entry: &CacheEntry) -> StoredEntry {
    StoredEntry::Decoded { entry: entry.clone() }
}

fn record(created_at: u64, stored_len: u64) -> IndexRecord {
    IndexRecord { created_at, stored_len, metadata: metadata(5) }
}

fn as_float(rate: Ratio) -> f64 {
    rate.numer as f64 / rate.denom as f64
}

#[test]
fn test_cache_basic_operations() {
    let mut cache = IncrementalCache::new(None);

    // The file holds b"fn main() {}".
    let source = unchanged();

    // Test initial miss
    assert!(cache.get("/tmp/test.rs", StoredEntry::Absent, &source, 5_000).unwrap().entry.is_none());

    // Put an entry
    let metadata = CacheMetadata {
        rustc_version: "1.70.0".to_string(),
        dependencies: vec![],
        file_mtime: 4_000,
        analysis_duration_ms: 100,
        file_size: 12,
    };
    let entry = cache.prepare_entry(SOURCE, b"hir_data", b"mir_data", metadata, 5_000).unwrap();
    cache.put("/tmp/test.rs", "/tmp/test.rs", entry.clone(), 120);

    // Test hit
    let found = cache.get("/tmp/test.rs", decoded(&entry), &source, 5_000).unwrap();
    let entry = found.entry.unwrap();
    assert_eq!(entry.file_hash, IncrementalCache::calculate_hash(b"fn main() {}"));

    // Test statistics
    let stats = cache.stats();
    assert_eq!(stats.hits, 1);
    assert_eq!(stats.misses, 1);
}

#[test]
fn stats_accounting_of_miss_put_and_hit() {
    for options in [plain_options(), memory_options(), CacheOptions::default()] {
        let mut cache = IncrementalCache::with_options(options, None);

        let first = cache.get("/work/test.rs", StoredEntry::Absent, &unchanged(), 5_000).unwrap();
        assert!(first.entry.is_none());
        assert!(!first.remove_artifact);
        assert_eq!(cache.stats(), CacheStats::default());

        let entry =
            cache.prepare_entry(SOURCE, b"hir_data", b"mir_data", metadata(12), 5_000).unwrap();
        let evicted = cache.put("test.rs", "/work/test.rs", entry.clone(), 90);
        assert!(evicted.is_empty());
        assert_eq!(cache.stats(), CacheStats { hits: 0, misses: 1, size_bytes: 90, entry_count: 1 });

        let found = cache.get("/work/test.rs", decoded(&entry), &unchanged(), 5_001).unwrap();
        let served = found.entry.unwrap();
        assert_eq!(served.file_hash, IncrementalCache::calculate_hash(SOURCE));
        assert!(!found.remove_artifact);

        let stats = cache.stats();
        assert_eq!(stats, CacheStats { hits: 1, misses: 1, size_bytes: 90, entry_count: 1 });
        assert_eq!(stats.hit_rate(), Ratio { numer: 1, denom: 2 });
        assert_eq!(as_float(stats.hit_rate()), 0.5);
    }
}

#[test]
fn hit_rate_is_zero_without_lookups() {
    let stats = CacheStats::default();
    assert_eq!(stats.hit_rate(), Ratio { numer: 0, denom: 1 });
    assert_eq!(as_float(stats.hit_rate()), 0.0);
    let full = CacheStats { hits: u64::MAX, misses: u64::MAX, size_bytes: 0, entry_count: 0 };
    assert_eq!(full.hit_rate(), Ratio { numer: u64::MAX, denom: 2 * (u64::MAX as u128) });
    let some = CacheStats { hits: 3, misses: 1, size_bytes: 0, entry_count: 0 };
    assert_eq!(as_float(some.hit_rate()), 0.75);
}

#[test]
fn round_trip_through_memory() {
    let mut cache = IncrementalCache::new(None);
    assert_eq!(cache.options(), CacheOptions::default());
    let given = CacheMetadata { dependencies: vec!["/work/dep.rs".to_string()], ..metadata(12) };
    let entry = cache.prepare_entry(SOURCE, b"first", b"second", given, 5_000).unwrap();
    cache.put("test.rs", "/work/test.rs", entry, 90);

    // Memory answers, whatever the disk holds.
    assert_eq!(cache.lookup_memory("/work/test.rs").unwrap().created_at, 5_000);
    assert!(cache.lookup_memory("/work/other.rs").is_none());
    let source = probe(SOURCE, vec![DependencyStatus::ModifiedAt { mtime: 4_000 }]);
    let found = cache.get("/work/test.rs", StoredEntry::Absent, &source, 5_000).unwrap();
    let served = found.entry.unwrap();
    assert_eq!(served.file_hash, calculate_hash(SOURCE));
    assert_eq!(served.created_at, 5_000);
    assert_eq!(served.metadata.rustc_version, "1.70.0");
    assert_eq!(served.metadata.dependencies, vec!["/work/dep.rs".to_string()]);
    assert_eq!(served.metadata.file_mtime, 1_000);
    assert_eq!(served.metadata.analysis_duration_ms, 100);
    assert_eq!(served.metadata.file_size, 12);
    assert!(!found.remove_artifact);
    assert_eq!(cache.stats().hits, 1);
    assert_eq!(cache.stats().misses, 1);
}

#[test]
fn round_trip_through_the_disk_tier() {
    let mut cache = IncrementalCache::with_options(plain_options(), None);
    let entry = cache.prepare_entry(SOURCE, b"first", b"second", metadata(12), 5_000).unwrap();
    assert_eq!(entry.hir_data, b"first".to_vec());
    assert_eq!(entry.mir_data, b"second".to_vec());
    cache.put("test.rs", "/work/test.rs", entry.clone(), 90);
    assert!(cache.lookup_memory("/work/test.rs").is_none());
    let found = cache.get("/work/test.rs", decoded(&entry), &unchanged(), 5_000).unwrap();
    let served = found.entry.unwrap();
    assert_eq!(served.file_hash, calculate_hash(SOURCE));
    assert_eq!(served.metadata.rustc_version, "1.70.0");
    assert_eq!(served.metadata.file_size, 12);
    assert_eq!(served.hir_data, b"first".to_vec());
}

#[test]
fn changed_content_invalidates_the_entry_in_memory() {
    let mut cache = IncrementalCache::new(None);
    let entry = cache.prepare_entry(SOURCE, b"a", b"b", metadata(12), 5_000).unwrap();
    cache.put("test.rs", "/work/test.rs", entry.clone(), 90);
    let changed = probe(b"fn main() { changed }", vec![]);
    let found = cache.get("/work/test.rs", decoded(&entry), &changed, 5_000).unwrap();
    assert!(found.entry.is_none());
    assert!(found.remove_artifact);
    assert_eq!(cache.stats().hits, 0);
    // The stale entry has left memory.
    assert!(cache.lookup_memory("/work/test.rs").is_none());
    let again = cache.get("/work/test.rs", StoredEntry::Absent, &changed, 5_001).unwrap();
    assert!(again.entry.is_none());
    assert!(!again.remove_artifact);
}

#[test]
fn changed_content_invalidates_the_stored_entry() {
    for options in [plain_options(), memory_options()] {
        let mut cache = IncrementalCache::with_options(options, None);
        let entry = cache.prepare_entry(SOURCE, b"a", b"b", metadata(12), 5_000).unwrap();
        cache.put("test.rs", "/work/test.rs", entry.clone(), 90);
        let changed: &[u8] = b"fn main() { println!(); }";
        let found =
            cache.get("/work/test.rs", decoded(&entry), &probe(changed, vec![]), 5_000).unwrap();
        assert!(found.entry.is_none());
        assert!(found.remove_artifact);
        assert_eq!(cache.stats().hits, 0);

        // Storing again succeeds, and the next lookup reflects the new content.
        let renewed = cache.prepare_entry(changed, b"a2", b"b2", metadata(25), 5_010).unwrap();
        cache.put("test.rs", "/work/test.rs", renewed.clone(), 95);
        let found =
            cache.get("/work/test.rs", decoded(&renewed), &probe(changed, vec![]), 5_011).unwrap();
        let served = found.entry.unwrap();
        assert_eq!(served.file_hash, calculate_hash(changed));
        assert_eq!(served.hir_data, b"a2".to_vec());
        // Storing under a key again counts the entry and its bytes again;
        // the record keeps count of all the bytes that were added for the key.
        assert_eq!(cache.stats(), CacheStats { hits: 1, misses: 2, size_bytes: 185, entry_count: 2 });
        let index = cache.save_index();
        assert_eq!(index.entries.pairs.len(), 1);
        assert_eq!(index.entries.pairs[0].1.stored_len, 185);
        assert_eq!(index.entries.pairs[0].1.created_at, 5_010);
    }
}

#[test]
fn entry_expires_after_the_age_limit() {
    for tier in [false, true] {
        let options = CacheOptions { max_age_secs: 60, use_hot_tier: tier, ..plain_options() };
        let mut cache = IncrementalCache::with_options(options, None);
        let entry = cache.prepare_entry(SOURCE, b"a", b"b", metadata(12), 10_000).unwrap();
        cache.put("test.rs", "/work/test.rs", entry.clone(), 90);

        let early = cache.get("/work/test.rs", decoded(&entry), &unchanged(), 10_059).unwrap();
        assert!(early.entry.is_some());
        let at_limit = cache.get("/work/test.rs", decoded(&entry), &unchanged(), 10_060).unwrap();
        assert!(at_limit.entry.is_some());
        let late = cache.get("/work/test.rs", decoded(&entry), &unchanged(), 10_061).unwrap();
        assert!(late.entry.is_none());
        assert!(late.remove_artifact);
        assert_eq!(cache.stats().hits, 2);
    }
}

#[test]
fn entry_is_valid_when_the_clock_went_back() {
    let options = CacheOptions { max_age_secs: 60, ..plain_options() };
    let entry = CacheEntry {
        file_hash: calculate_hash(SOURCE),
        created_at: 10_000,
        hir_data: vec![],
        mir_data: vec![],
        metadata: metadata(12),
    };
    assert_eq!(is_entry_valid(&options, &entry, &unchanged(), 9_000), Ok(true));
}

#[test]
fn age_limit_of_zero_is_no_limit() {
    let mut cache = IncrementalCache::with_options(plain_options(), None);
    let entry = cache.prepare_entry(SOURCE, b"a", b"b", metadata(12), 0).unwrap();
    cache.put("test.rs", "/work/test.rs", entry.clone(), 90);
    let found = cache.get("/work/test.rs", decoded(&entry), &unchanged(), u64::MAX).unwrap();
    assert!(found.entry.is_some());
    assert!(cache.is_entry_valid(&entry, &unchanged(), u64::MAX).unwrap());
}

#[test]
fn newer_dependency_invalidates_the_entry() {
    for options in [plain_options(), memory_options()] {
        let mut cache = IncrementalCache::with_options(options, None);
        let given = CacheMetadata {
            dependencies: vec!["/work/a.rs".to_string(), "/work/b.rs".to_string()],
            ..metadata(12)
        };
        let entry = cache.prepare_entry(SOURCE, b"a", b"b", given, 5_000).unwrap();
        cache.put("test.rs", "/work/test.rs", entry.clone(), 90);

        let fresh = vec![
            DependencyStatus::ModifiedAt { mtime: 4_000 },
            DependencyStatus::ModifiedAt { mtime: 5_000 },
        ];
        let found =
            cache.get("/work/test.rs", decoded(&entry), &probe(SOURCE, fresh), 5_001).unwrap();
        assert!(found.entry.is_some());

        let newer = vec![
            DependencyStatus::ModifiedAt { mtime: 4_000 },
            DependencyStatus::ModifiedAt { mtime: 5_001 },
        ];
        let found =
            cache.get("/work/test.rs", decoded(&entry), &probe(SOURCE, newer), 5_002).unwrap();
        assert!(found.entry.is_none());
        assert!(found.remove_artifact);
        assert!(cache.lookup_memory("/work/test.rs").is_none());
    }
}

#[test]
fn missing_dependency_invalidates_the_stored_entry() {
    let mut cache = IncrementalCache::with_options(plain_options(), None);
    let entry = cache.prepare_entry(SOURCE, b"a", b"b", metadata(12), 5_000).unwrap();
    let source = probe(SOURCE, vec![DependencyStatus::Missing]);
    let found = cache.get("/work/test.rs", decoded(&entry), &source, 5_001).unwrap();
    assert!(found.entry.is_none());
    assert!(found.remove_artifact);
}

#[test]
fn unreadable_dependency_is_an_error_where_the_checks_reach_it() {
    let mut cache = IncrementalCache::with_options(memory_options(), None);
    let entry = cache.prepare_entry(SOURCE, b"a", b"b", metadata(12), 5_000).unwrap();
    cache.put("test.rs", "/work/test.rs", entry.clone(), 90);

    let statuses = vec![DependencyStatus::ModifiedAt { mtime: 1 }, DependencyStatus::Unreadable];
    let source = probe(SOURCE, statuses);
    assert_eq!(
        cache.get("/work/test.rs", decoded(&entry), &source, 5_001).unwrap_err(),
        CacheError::Io
    );
    assert_eq!(cache.stats().hits, 0);
    // The entry stays where it was.
    assert!(cache.lookup_memory("/work/test.rs").is_some());

    // A failure before it decides first.
    let statuses = vec![DependencyStatus::Missing, DependencyStatus::Unreadable];
    let source = probe(SOURCE, statuses);
    assert!(cache.get("/work/test.rs", decoded(&entry), &source, 5_001).unwrap().entry.is_none());

    // So does a changed content.
    let source = probe(b"other", vec![DependencyStatus::Unreadable]);
    assert!(cache.get("/work/test.rs", decoded(&entry), &source, 5_001).unwrap().entry.is_none());
}

#[test]
fn dependency_verdicts() {
    assert_eq!(check_dependencies(&vec![], 10), Verdict::Fresh);
    assert_eq!(check_dependencies(&vec![DependencyStatus::ModifiedAt { mtime: 10 }], 10), Verdict::Fresh);
    assert_eq!(check_dependencies(&vec![DependencyStatus::ModifiedAt { mtime: 11 }], 10), Verdict::Stale);
    assert_eq!(check_dependencies(&vec![DependencyStatus::Missing], 10), Verdict::Stale);
    assert_eq!(check_dependencies(&vec![DependencyStatus::Unreadable], 10), Verdict::Failed);
    assert_eq!(
        check_dependencies(
            &vec![DependencyStatus::ModifiedAt { mtime: 11 }, DependencyStatus::Unreadable],
            10
        ),
        Verdict::Stale
    );
}

#[test]
fn absent_and_corrupt_files_are_misses() {
    let mut cache = IncrementalCache::new(None);
    let absent = cache.get("/work/test.rs", StoredEntry::Absent, &unchanged(), 1).unwrap();
    assert!(absent.entry.is_none());
    assert!(!absent.remove_artifact);
    let corrupt = cache.get("/work/test.rs", StoredEntry::Corrupt, &unchanged(), 1).unwrap();
    assert!(corrupt.entry.is_none());
    assert!(corrupt.remove_artifact);
    assert_eq!(cache.stats(), CacheStats::default());
}

#[test]
fn lookup_from_disk_fills_memory_below_the_ceiling() {
    let options = CacheOptions { max_memory_entries: 1, ..memory_options() };
    let mut cache = IncrementalCache::with_options(options, None);
    let first = cache.prepare_entry(b"one", b"a", b"b", metadata(3), 5_000).unwrap();
    let second = cache.prepare_entry(b"two", b"c", b"d", metadata(3), 5_000).unwrap();
    let one = probe(b"one", vec![]);
    let two = probe(b"two", vec![]);

    // First lookup: served from disk, put into memory.
    let found = cache.get("/work/one.rs", decoded(&first), &one, 5_001).unwrap();
    assert!(found.entry.is_some());
    assert_eq!(cache.stats().hits, 1);
    // Now memory answers even if the disk has nothing.
    let found = cache.get("/work/one.rs", StoredEntry::Absent, &one, 5_002).unwrap();
    assert_eq!(found.entry.unwrap().file_hash, calculate_hash(b"one"));
    assert_eq!(cache.stats().hits, 2);

    // Memory is at its ceiling: the second entry is served but not kept.
    let found = cache.get("/work/two.rs", decoded(&second), &two, 5_003).unwrap();
    assert!(found.entry.is_some());
    assert_eq!(cache.stats().hits, 3);
    let found = cache.get("/work/two.rs", StoredEntry::Absent, &two, 5_004).unwrap();
    assert!(found.entry.is_none());
    assert_eq!(cache.stats().hits, 3);
}

#[test]
fn invalidate_forgets_the_entry() {
    let mut cache = IncrementalCache::new(None);
    let entry = cache.prepare_entry(SOURCE, b"a", b"b", metadata(12), 5_000).unwrap();
    cache.put("test.rs", "/work/test.rs", entry, 90);
    let other = cache.prepare_entry(b"x", b"a", b"b", metadata(1), 5_000).unwrap();
    cache.put("other.rs", "/work/other.rs", other, 40);
    assert_eq!(cache.stats().size_bytes, 130);

    assert_eq!(cache.invalidate("test.rs", "/work/test.rs", ArtifactRemoval::Removed), Ok(()));
    let found = cache.get("/work/test.rs", StoredEntry::Absent, &unchanged(), 5_001).unwrap();
    assert!(found.entry.is_none());
    // The size goes down by the recorded size of the source file.
    assert_eq!(cache.stats(), CacheStats { hits: 0, misses: 2, size_bytes: 118, entry_count: 1 });
    let index = cache.save_index();
    assert_eq!(index.entries.pairs.len(), 1);
    assert_eq!(index.file_to_key.pairs.len(), 1);
    assert_eq!(index.file_to_key.pairs[0].0, "other.rs");
}

#[test]
fn invalidate_saturates_and_ignores_what_is_not_there() {
    let mut cache = IncrementalCache::new(None);
    let entry = cache.prepare_entry(SOURCE, b"a", b"b", metadata(1_000), 5_000).unwrap();
    cache.put("test.rs", "/work/test.rs", entry, 90);
    assert_eq!(cache.invalidate("test.rs", "/work/test.rs", ArtifactRemoval::Absent), Ok(()));
    assert_eq!(cache.stats(), CacheStats { hits: 0, misses: 1, size_bytes: 0, entry_count: 0 });
    assert_eq!(cache.invalidate("test.rs", "/work/test.rs", ArtifactRemoval::Absent), Ok(()));
    assert_eq!(cache.stats(), CacheStats { hits: 0, misses: 1, size_bytes: 0, entry_count: 0 });
}

#[test]
fn invalidate_reports_a_failed_removal() {
    let mut cache = IncrementalCache::new(None);
    let entry = cache.prepare_entry(SOURCE, b"a", b"b", metadata(12), 5_000).unwrap();
    cache.put("test.rs", "/work/test.rs", entry, 90);
    assert_eq!(
        cache.invalidate("test.rs", "/work/test.rs", ArtifactRemoval::Failed),
        Err(CacheError::Io)
    );
    // Memory has let go of the entry; the index still records it.
    assert!(cache.lookup_memory("/work/test.rs").is_none());
    assert_eq!(cache.stats().entry_count, 1);
    assert_eq!(cache.save_index().entries.pairs.len(), 1);
}

#[test]
fn clear_resets_everything() {
    let mut cache = IncrementalCache::new(None);
    let entry = cache.prepare_entry(SOURCE, b"a", b"b", metadata(12), 5_000).unwrap();
    cache.put("test.rs", "/work/test.rs", entry, 90);
    cache.clear();
    assert_eq!(cache.stats(), CacheStats::default());
    assert!(cache.lookup_memory("/work/test.rs").is_none());
    let index = cache.save_index();
    assert!(index.entries.pairs.is_empty());
    assert!(index.file_to_key.pairs.is_empty());
    assert_eq!(index.version, 1);
}

#[test]
fn clear_memory_leaves_the_index() {
    let mut cache = IncrementalCache::new(None);
    let entry = cache.prepare_entry(SOURCE, b"a", b"b", metadata(12), 5_000).unwrap();
    cache.put("test.rs", "/work/test.rs", entry, 90);
    cache.clear_memory();
    assert!(cache.lookup_memory("/work/test.rs").is_none());
    assert_eq!(cache.stats(), CacheStats { hits: 0, misses: 1, size_bytes: 90, entry_count: 1 });
    assert_eq!(cache.save_index().entries.pairs.len(), 1);
}

#[test]
fn cache_artifacts_are_told_by_name() {
    assert!(IncrementalCache::is_cache_artifact("0123456789abcdef.cache"));
    assert!(IncrementalCache::is_cache_artifact(".cache"));
    assert!(IncrementalCache::is_cache_artifact("index.bin"));
    assert!(!IncrementalCache::is_cache_artifact("index.bin.bak"));
    assert!(!IncrementalCache::is_cache_artifact("old-index.bin"));
    assert!(!IncrementalCache::is_cache_artifact("notes.txt"));
    assert!(!IncrementalCache::is_cache_artifact(""));
    assert_eq!(IncrementalCache::entry_file_name("00ff"), "00ff.cache");
    assert_eq!(IncrementalCache::index_file_name(), "index.bin");
    assert!(IncrementalCache::is_cache_artifact(&IncrementalCache::index_file_name()));
    assert!(IncrementalCache::is_cache_artifact(&IncrementalCache::entry_file_name("00ff")));
}

#[test]
fn cleanup_evicts_oldest_first_until_within_the_ceiling() {
    let options = CacheOptions { max_size_bytes: 250, ..memory_options() };
    let mut cache = IncrementalCache::with_options(options, None);
    let old = cache.prepare_entry(b"one", b"a", b"b", metadata(100), 1_000).unwrap();
    let mid = cache.prepare_entry(b"two", b"a", b"b", metadata(100), 2_000).unwrap();
    let new = cache.prepare_entry(b"three", b"a", b"b", metadata(100), 3_000).unwrap();
    // Stored out of order of age.
    assert!(cache.put("two.rs", "/work/two.rs", mid, 100).is_empty());
    assert!(cache.put("one.rs", "/work/one.rs", old, 100).is_empty());
    assert_eq!(cache.stats().size_bytes, 200);

    let evicted = cache.put("three.rs", "/work/three.rs", new, 100);
    assert_eq!(evicted, vec![get_cache_key("/work/one.rs")]);
    assert_eq!(cache.stats(), CacheStats { hits: 0, misses: 3, size_bytes: 200, entry_count: 2 });

    // The evicted entry is gone from memory and index, the others stay.
    assert!(cache.lookup_memory("/work/one.rs").is_none());
    assert!(cache.lookup_memory("/work/two.rs").is_some());
    assert!(cache.lookup_memory("/work/three.rs").is_some());
    let index = cache.save_index();
    let keys: Vec<&str> = index.entries.pairs.iter().map(|pair| pair.0.as_str()).collect();
    assert_eq!(keys, vec![get_cache_key("/work/two.rs"), get_cache_key("/work/three.rs")]);
    let paths: Vec<&str> = index.file_to_key.pairs.iter().map(|pair| pair.0.as_str()).collect();
    assert_eq!(paths, vec!["two.rs", "three.rs"]);
}

#[test]
fn cleanup_evicts_no_more_than_needed_and_breaks_ties_by_arrival() {
    let options = CacheOptions { max_size_bytes: 100, ..plain_options() };
    let mut cache = IncrementalCache::with_options(options, None);
    for name in ["a", "b", "c"] {
        let entry = cache.prepare_entry(name.as_bytes(), b"", b"", metadata(10), 7).unwrap();
        let evicted = cache.put(name, name, entry, 30);
        assert!(evicted.is_empty());
    }
    let entry = cache.prepare_entry(b"d", b"", b"", metadata(10), 7).unwrap();
    let evicted = cache.put("d", "d", entry, 40);
    // 130 bytes recorded; the eviction of one entry of 30 bytes is enough.
    assert_eq!(evicted, vec![get_cache_key("a")]);
    assert_eq!(cache.stats(), CacheStats { hits: 0, misses: 4, size_bytes: 100, entry_count: 3 });

    let entry = cache.prepare_entry(b"e", b"", b"", metadata(10), 7).unwrap();
    let evicted = cache.put("e", "e", entry, 70);
    assert_eq!(evicted, vec![get_cache_key("b"), get_cache_key("c"), get_cache_key("d")]);
    assert_eq!(cache.stats(), CacheStats { hits: 0, misses: 5, size_bytes: 70, entry_count: 1 });
}

#[test]
fn cleanup_evicts_an_entry_larger_than_the_ceiling() {
    let options = CacheOptions { max_size_bytes: 10, ..memory_options() };
    let mut cache = IncrementalCache::with_options(options, None);
    let entry = cache.prepare_entry(SOURCE, b"a", b"b", metadata(0), 5_000).unwrap();
    let evicted = cache.put("test.rs", "/work/test.rs", entry, 500);
    assert_eq!(evicted, vec![get_cache_key("/work/test.rs")]);
    assert_eq!(cache.stats(), CacheStats { hits: 0, misses: 1, size_bytes: 0, entry_count: 0 });
    assert!(cache.lookup_memory("/work/test.rs").is_none());
    assert!(cache.cleanup_old_entries().is_empty());
}

#[test]
fn ceiling_of_zero_is_no_ceiling() {
    let mut cache = IncrementalCache::with_options(plain_options(), None);
    let entry = cache.prepare_entry(SOURCE, b"a", b"b", metadata(12), 5_000).unwrap();
    assert!(cache.put("test.rs", "/work/test.rs", entry, u64::MAX).is_empty());
    assert_eq!(cache.stats().size_bytes, u64::MAX);
}

#[test]
fn eviction_drops_every_path_of_the_key() {
    let mut index = CacheIndex::new();
    index.record("./a.rs".to_string(), "k1".to_string(), record(10, 50));
    index.record("a.rs".to_string(), "k1".to_string(), record(10, 60));
    index.record("b.rs".to_string(), "k2".to_string(), record(20, 50));
    assert_eq!(index.stats, CacheStats { hits: 0, misses: 3, size_bytes: 160, entry_count: 3 });
    assert_eq!(index.entries.pairs.len(), 2);
    assert_eq!(index.entries.pairs[0].1.stored_len, 110);
    assert!(index.is_well_formed());
    assert_eq!(index.find_oldest(), 0);
    let evicted = index.trim(50);
    // All 110 bytes that were added for the key leave with it.
    assert_eq!(evicted, vec!["k1".to_string()]);
    let paths: Vec<&str> = index.file_to_key.pairs.iter().map(|pair| pair.0.as_str()).collect();
    assert_eq!(paths, vec!["b.rs"]);
    assert_eq!(index.stats, CacheStats { hits: 0, misses: 3, size_bytes: 50, entry_count: 2 });
    assert!(index.is_well_formed());
}

#[test]
fn persisted_index_is_taken_over() {
    let mut cache = IncrementalCache::new(None);
    let entry = cache.prepare_entry(SOURCE, b"a", b"b", metadata(12), 5_000).unwrap();
    cache.put("test.rs", "/work/test.rs", entry.clone(), 90);
    let saved = cache.save_index();
    assert_eq!(saved.version, 1);
    assert_eq!(saved.stats.misses, 1);
    assert_eq!(saved.file_to_key.pairs[0].0, "test.rs");
    assert_eq!(saved.file_to_key.pairs[0].1, get_cache_key("/work/test.rs"));
    assert_eq!(saved.entries.pairs[0].0, get_cache_key("/work/test.rs"));
    assert_eq!(saved.entries.pairs[0].1.created_at, 5_000);
    assert_eq!(saved.entries.pairs[0].1.stored_len, 90);
    assert_eq!(saved.entries.pairs[0].1.metadata.file_size, 12);

    // A new cache starts from the saved index; the disk answers the lookup.
    let mut restarted = IncrementalCache::new(Some(saved));
    assert!(restarted.lookup_memory("/work/test.rs").is_none());
    let found = restarted.get("/work/test.rs", decoded(&entry), &unchanged(), 5_001).unwrap();
    assert!(found.entry.is_some());
    assert_eq!(
        restarted.stats(),
        CacheStats { hits: 1, misses: 1, size_bytes: 90, entry_count: 1 }
    );
    assert_eq!(as_float(restarted.stats().hit_rate()), 0.5);
}

#[test]
fn persisted_index_of_another_version_is_discarded() {
    let mut index = CacheIndex::new();
    index.record("a.rs".to_string(), "k1".to_string(), record(1, 50));
    index.version = 2;
    let cache = IncrementalCache::new(Some(index));
    assert_eq!(cache.stats(), CacheStats::default());
    let loaded = cache.save_index();
    assert_eq!(loaded.version, 1);
    assert!(loaded.entries.pairs.is_empty());
    assert!(loaded.file_to_key.pairs.is_empty());
}

#[test]
fn persisted_index_with_a_repeated_key_is_discarded() {
    let mut index = CacheIndex::new();
    index.entries.pairs.push(("k1".to_string(), record(1, 10)));
    index.entries.pairs.push(("k1".to_string(), record(1, 10)));
    index.stats.entry_count = 2;
    index.stats.size_bytes = 20;
    assert!(!index.is_well_formed());
    let loaded = IncrementalCache::load_index(index);
    assert!(loaded.is_well_formed());
    assert!(loaded.entries.pairs.is_empty());
    assert_eq!(loaded.stats, CacheStats::default());
}

#[test]
fn cleanup_of_an_empty_store_over_the_ceiling_sets_the_totals_to_zero() {
    let options = CacheOptions { max_size_bytes: 50, ..plain_options() };
    let mut cache = IncrementalCache::with_options(options, None);
    let entry = cache.prepare_entry(SOURCE, b"a", b"b", metadata(12), 5_000).unwrap();
    assert!(cache.put("test.rs", "/work/test.rs", entry, 40).is_empty());
    assert_eq!(cache.invalidate("test.rs", "/work/test.rs", ArtifactRemoval::Removed), Ok(()));
    // Nothing is stored, and 28 bytes are still recorded.
    assert_eq!(cache.stats(), CacheStats { hits: 0, misses: 1, size_bytes: 28, entry_count: 0 });
    assert!(cache.cleanup_old_entries().is_empty());
    assert_eq!(cache.stats().size_bytes, 28);

    let entry = cache.prepare_entry(SOURCE, b"a", b"b", metadata(12), 5_001).unwrap();
    let evicted = cache.put("test.rs", "/work/test.rs", entry, 40);
    // 68 bytes recorded: the one entry goes, and the store is empty.
    assert_eq!(evicted, vec![get_cache_key("/work/test.rs")]);
    assert_eq!(cache.stats(), CacheStats { hits: 0, misses: 2, size_bytes: 28, entry_count: 0 });

    let mut index = CacheIndex::new();
    index.stats.size_bytes = 80;
    index.stats.entry_count = 3;
    assert!(index.trim(50).is_empty());
    assert_eq!(index.stats, CacheStats::default());
}

#[test]
fn cache_keys_are_sixteen_hex_digits() {
    let key = get_cache_key("/work/test.rs");
    assert_eq!(key.len(), 16);
    assert!(key.chars().all(|c| c.is_ascii_digit() || ('a'..='f').contains(&c)));
    assert_eq!(key, get_cache_key("/work/test.rs"));
    assert_eq!(key, IncrementalCache::get_cache_key("/work/test.rs"));
    assert_ne!(key, get_cache_key("/work/other.rs"));
}

#[test]
fn keys_render_with_leading_zeros() {
    assert_eq!(render_key(0), "0000000000000000");
    assert_eq!(render_key(0xdead_beef), "00000000deadbeef");
    assert_eq!(render_key(u64::MAX), "ffffffffffffffff");
    assert_eq!(render_key(0x0123_4567_89ab_cdef), "0123456789abcdef");
    assert_eq!(render_key(255), format!("{:016x}", 255));
}

#[test]
fn fingerprints_tell_contents_apart() {
    assert_eq!(calculate_hash(SOURCE), calculate_hash(b"fn main() {}"));
    assert_ne!(calculate_hash(SOURCE), calculate_hash(b"fn main() { }"));
    assert_ne!(calculate_hash(b""), calculate_hash(b"\0"));
}

#[test]
fn compression_makes_a_zstd_frame() {
    let data = vec![7u8; 4_096];
    let frame = compress_payload(&data, true).unwrap();
    assert_ne!(frame, data);
    assert!(frame.len() < data.len());
    assert_eq!(&frame[..4], &[0x28, 0xb5, 0x2f, 0xfd]);
    assert_eq!(compress_payload(&data, true).unwrap(), frame);
    assert_eq!(compress_payload(&data, false).unwrap(), data);
}

#[test]
fn stored_payloads_open_to_what_was_stored() {
    let data: Vec<u8> = (0..5_000u32).map(|i| (i % 251) as u8).collect();
    let frame = compress_payload(&data, true).unwrap();
    assert_eq!(open_payload(&frame, true).unwrap(), data);
    assert_eq!(open_payload(&frame, false).unwrap(), frame);
    let nothing = compress_payload(b"", true).unwrap();
    assert_eq!(open_payload(&nothing, true).unwrap(), Vec::<u8>::new());
    assert_eq!(open_payload(b"not a frame", true), Err(CacheError::Decompression));
    let cache = IncrementalCache::new(None);
    assert_eq!(cache.open_payload(&frame).unwrap(), data);
    let plain = IncrementalCache::with_options(plain_options(), None);
    assert_eq!(plain.open_payload(&frame).unwrap(), frame);
}

#[test]
fn compressed_resolution_opens_to_what_was_stored() {
    let mut resolver = NameResolver::with_cache(IncrementalCache::new(None));
    let entry = resolver.prepare_resolution(b"snapshot", "rustc".to_string(), 10);
    let entry = entry.unwrap().unwrap();
    assert_ne!(entry.hir_data, b"snapshot".to_vec());
    assert!(resolver.store_resolution("/work", entry.clone(), 64).is_empty());
    let found = resolver.cached_resolution("/work", StoredEntry::Absent, 11).unwrap();
    let served = found.entry.unwrap();
    assert_eq!(resolver.resolution_payload(&served), Some(b"snapshot".to_vec()));
    let broken = CacheEntry { hir_data: b"junk".to_vec(), ..served };
    assert_eq!(resolver.resolution_payload(&broken), None);
    assert_eq!(NameResolver::new().resolution_payload(&broken), None);
}

#[test]
fn prepared_entry_holds_compressed_payloads() {
    let cache = IncrementalCache::new(None);
    let first = vec![1u8; 1_000];
    let second: Vec<u8> = Vec::new();
    let entry = cache.prepare_entry(SOURCE, &first, &second, metadata(12), 42).unwrap();
    assert_eq!(entry.file_hash, calculate_hash(SOURCE));
    assert_eq!(entry.created_at, 42);
    assert_eq!(entry.hir_data, compress_payload(&first, true).unwrap());
    assert_eq!(&entry.hir_data[..4], &[0x28, 0xb5, 0x2f, 0xfd]);
    assert_eq!(&entry.mir_data[..4], &[0x28, 0xb5, 0x2f, 0xfd]);
    assert_eq!(entry.metadata.file_size, 12);
}

#[test]
fn resolver_with_cache_stores_and_finds_a_resolution() {
    let cache = IncrementalCache::with_options(plain_options(), None);
    let mut resolver = NameResolver::with_cache(cache);
    assert!(resolver.has_cache());

    let path = NameResolver::resolution_cache_path("/work");
    assert_eq!(path, "name_resolution:/work");
    let missed = resolver.cached_resolution("/work", StoredEntry::Absent, 10).unwrap();
    assert!(missed.entry.is_none());

    let resolution = resolver.resolve_project(None, vec![]);
    assert!(resolution.store);
    assert_eq!(resolution.result.items.len(), 32);

    let recorded = NameResolver::resolution_cache_metadata("rustc 1.70.0".to_string(), 10, 77);
    assert_eq!(recorded.rustc_version, "rustc 1.70.0");
    assert!(recorded.dependencies.is_empty());
    assert_eq!(recorded.file_mtime, 10);
    assert_eq!(recorded.analysis_duration_ms, 1000);
    assert_eq!(recorded.file_size, 77);

    let entry = resolver.prepare_resolution(b"snapshot", "rustc 1.70.0".to_string(), 10);
    let entry = entry.unwrap().unwrap();
    assert_eq!(entry.file_hash, calculate_hash(b""));
    assert_eq!(entry.hir_data, b"snapshot".to_vec());
    assert!(entry.mir_data.is_empty());
    assert_eq!(entry.metadata.file_size, 8);
    assert!(resolver.store_resolution("/work", entry.clone(), 120).is_empty());
    let found = resolver.cached_resolution("/work", decoded(&entry), 11).unwrap();
    assert_eq!(found.entry.unwrap().hir_data, b"snapshot".to_vec());

    let cached = resolver.resolve_project(
        Some(NameResolutionResult {
            items: vec![],
            in_scope_at_pos: vec![],
            matches: vec![],
            suggestions: vec![],
        }),
        vec![],
    );
    assert!(!cached.store);
    assert!(cached.result.items.is_empty());

    assert_eq!(resolver.cache_stats().unwrap().hits, 1);
    let cache = resolver.into_cache().unwrap();
    assert_eq!(cache.stats().hits, 1);
    assert_eq!(cache.stats().misses, 1);
    assert_eq!(cache.save_index().file_to_key.pairs[0].0, "name_resolution:/work");
}

#[test]
fn resolver_without_cache_finds_and_stores_nothing() {
    let mut resolver = NameResolver::new();
    let entry = CacheEntry {
        file_hash: calculate_hash(b""),
        created_at: 10,
        hir_data: vec![],
        mir_data: vec![],
        metadata: metadata(0),
    };
    let found = resolver.cached_resolution("/work", decoded(&entry), 11).unwrap();
    assert!(found.entry.is_none());
    assert!(!found.remove_artifact);
    assert!(resolver.store_resolution("/work", entry, 5).is_empty());
    assert!(resolver.prepare_resolution(b"x", "rustc".to_string(), 1).unwrap().is_none());
    assert!(resolver.cache_stats().is_none());
    assert!(resolver.into_cache().is_none());
}
