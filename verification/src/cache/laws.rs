//! What holds of every cache: laws that relate storing, lookup and the
//! rules of validity.

use vstd::prelude::*;
use crate::cache::entry::{CacheEntryView, CacheError, CacheMetadataView, CacheOptions, Ratio};
use crate::cache::index::lemma_trim_keeps_counters;
use crate::cache::key::content_fingerprint;
use crate::cache::store::{CacheState, GetOutcomeView, StoredEntryView, prepared};
use crate::cache::validity::{
    DependencyStatus, SourceProbeView, Verdict, dependencies_verdict, entry_validity,
    lemma_age_expiry, lemma_newer_dependency, within_age,
};

verus! {

/// The next lookup of a key finds the entry that was just stored under it:
/// cleanup has not evicted it, and where the in-memory tier is not in use
/// the disk tier hands back what was written.
pub open spec fn finds_what_was_put(
    state: CacheState,
    file_path: Seq<char>,
    key: Seq<char>,
    entry: CacheEntryView,
    stored_len: u64,
    stored: StoredEntryView,
) -> bool {
    &&& !state.evicted_by_put(file_path, key, entry, stored_len).contains(key)
    &&& !state.options.use_hot_tier ==> stored == (StoredEntryView::Decoded { entry })
}

/// An entry that was stored and not evicted at once is the entry that the
/// next lookup of its key finds, in memory where the in-memory tier is in
/// use and on disk where it is not.
pub proof fn lemma_put_is_found(
    state: CacheState,
    file_path: Seq<char>,
    key: Seq<char>,
    entry: CacheEntryView,
    stored_len: u64,
    stored: StoredEntryView,
)
    requires
        finds_what_was_put(state, file_path, key, entry, stored_len, stored),
    ensures
        state.after_put(file_path, key, entry, stored_len).candidate(key, stored) == Some(entry),
{
    let after = state.after_put(file_path, key, entry, stored_len);
    let victims = state.evicted_by_put(file_path, key, entry, stored_len);
    if state.options.use_hot_tier {
        assert(!victims.to_set().contains(key));
        assert(after.hot.contains_key(key));
        assert(after.hot[key] == entry);
    } else {
        assert(!after.serves_hot(key));
    }
}

/// Round trip. An entry that was made from a content and a metadata and
/// then stored is what the next lookup of its key returns, with the
/// fingerprint of that content and with that metadata, provided that the
/// file is unchanged, the entry is in date, every dependency is present
/// and no newer than it, and cleanup did not evict the entry at once.
pub proof fn lemma_round_trip(
    state: CacheState,
    file_path: Seq<char>,
    key: Seq<char>,
    content: Seq<u8>,
    hir_data: Seq<u8>,
    mir_data: Seq<u8>,
    metadata: CacheMetadataView,
    made_at: u64,
    stored_len: u64,
    stored: StoredEntryView,
    source: SourceProbeView,
    now: u64,
)
    requires
        finds_what_was_put(
            state,
            file_path,
            key,
            prepared(content, hir_data, mir_data, metadata, made_at),
            stored_len,
            stored,
        ),
        source.content == content,
        within_age(state.options.max_age_secs, made_at, now),
        dependencies_verdict(source.dependencies, made_at) == Verdict::Fresh,
    ensures
        state.after_put(
            file_path,
            key,
            prepared(content, hir_data, mir_data, metadata, made_at),
            stored_len,
        ).get_result(key, stored, source, now) matches Ok(outcome) && outcome.entry matches Some(
            entry,
        ) && entry == prepared(content, hir_data, mir_data, metadata, made_at) && entry.file_hash
            == content_fingerprint(content) && entry.metadata == metadata
            && !outcome.remove_artifact,
{
    let entry = prepared(content, hir_data, mir_data, metadata, made_at);
    lemma_put_is_found(state, file_path, key, entry, stored_len, stored);
}

/// Invalidation on content change. After an entry was stored for a file,
/// and the file has changed to a content with another fingerprint, the
/// next lookup returns nothing, asks for the stale file to be removed, and
/// leaves the entry in memory no longer.
pub proof fn lemma_content_change(
    state: CacheState,
    file_path: Seq<char>,
    key: Seq<char>,
    entry: CacheEntryView,
    stored_len: u64,
    stored: StoredEntryView,
    source: SourceProbeView,
    now: u64,
)
    requires
        finds_what_was_put(state, file_path, key, entry, stored_len, stored),
        content_fingerprint(source.content) != entry.file_hash,
    ensures
        state.after_put(file_path, key, entry, stored_len).get_result(key, stored, source, now)
            == Ok::<GetOutcomeView, CacheError>(
            GetOutcomeView { entry: None, remove_artifact: true },
        ),
        !state.after_put(file_path, key, entry, stored_len).after_get(
            key,
            stored,
            source,
            now,
        ).hot.contains_key(key),
{
    lemma_put_is_found(state, file_path, key, entry, stored_len, stored);
}

/// Age expiry. With an age limit of `limit` seconds, an entry that was
/// stored, and whose source is unchanged, is served one second before the
/// limit is reached; one second after it the lookup returns nothing and
/// asks for the file to be removed.
pub proof fn lemma_age_expiry_on_get(
    state: CacheState,
    file_path: Seq<char>,
    key: Seq<char>,
    entry: CacheEntryView,
    stored_len: u64,
    stored: StoredEntryView,
    source: SourceProbeView,
    limit: u64,
)
    requires
        finds_what_was_put(state, file_path, key, entry, stored_len, stored),
        limit > 0,
        state.options.max_age_secs == limit,
        entry.created_at + limit + 1 <= u64::MAX,
        content_fingerprint(source.content) == entry.file_hash,
        dependencies_verdict(source.dependencies, entry.created_at) == Verdict::Fresh,
    ensures
        state.after_put(file_path, key, entry, stored_len).get_result(
            key,
            stored,
            source,
            (entry.created_at + limit - 1) as u64,
        ) == Ok::<GetOutcomeView, CacheError>(
            GetOutcomeView { entry: Some(entry), remove_artifact: false },
        ),
        state.after_put(file_path, key, entry, stored_len).get_result(
            key,
            stored,
            source,
            (entry.created_at + limit + 1) as u64,
        ) == Ok::<GetOutcomeView, CacheError>(
            GetOutcomeView { entry: None, remove_artifact: true },
        ),
{
    lemma_put_is_found(state, file_path, key, entry, stored_len, stored);
    lemma_age_expiry(state.options, entry, source, limit);
}

/// Dependency freshness. After an entry was stored, a dependency that was
/// modified after the entry was made makes the next lookup return nothing
/// and ask for the file to be removed, provided that every dependency
/// before that one could be examined.
pub proof fn lemma_newer_dependency_on_get(
    state: CacheState,
    file_path: Seq<char>,
    key: Seq<char>,
    entry: CacheEntryView,
    stored_len: u64,
    stored: StoredEntryView,
    source: SourceProbeView,
    now: u64,
    at: int,
)
    requires
        finds_what_was_put(state, file_path, key, entry, stored_len, stored),
        0 <= at < source.dependencies.len(),
        source.dependencies[at] matches DependencyStatus::ModifiedAt { mtime } && mtime
            > entry.created_at,
        forall|i: int| 0 <= i < at ==> source.dependencies[i] != DependencyStatus::Unreadable,
    ensures
        state.after_put(file_path, key, entry, stored_len).get_result(key, stored, source, now)
            == Ok::<GetOutcomeView, CacheError>(
            GetOutcomeView { entry: None, remove_artifact: true },
        ),
{
    lemma_put_is_found(state, file_path, key, entry, stored_len, stored);
    lemma_newer_dependency(state.options, entry, source, now, at);
}

/// A lookup that finds no entry returns none and changes nothing: the
/// totals are as they were.
pub proof fn lemma_miss_counts_nothing(
    state: CacheState,
    key: Seq<char>,
    stored: StoredEntryView,
    source: SourceProbeView,
    now: u64,
)
    requires
        state.candidate(key, stored).is_none(),
    ensures
        state.get_result(key, stored, source, now) matches Ok(outcome) && outcome.entry.is_none(),
        state.after_get(key, stored, source, now) == state,
{
}

/// A lookup that serves an entry adds one hit and leaves the misses, the
/// size and the count as they were.
pub proof fn lemma_hit_counts_once(
    state: CacheState,
    key: Seq<char>,
    stored: StoredEntryView,
    source: SourceProbeView,
    now: u64,
)
    requires
        state.serves_entry(key, stored, source, now),
        state.index.stats.hits < u64::MAX,
    ensures
        state.get_result(key, stored, source, now) matches Ok(outcome) && outcome.entry.is_some(),
        state.after_get(key, stored, source, now).index.stats.hits == state.index.stats.hits + 1,
        state.after_get(key, stored, source, now).index.stats.misses == state.index.stats.misses,
        state.after_get(key, stored, source, now).index.stats.size_bytes
            == state.index.stats.size_bytes,
        state.after_get(key, stored, source, now).index.stats.entry_count
            == state.index.stats.entry_count,
{
}

/// Storing an entry adds one miss and leaves the hits as they were,
/// whatever cleanup evicts.
pub proof fn lemma_put_counts_one_miss(
    state: CacheState,
    file_path: Seq<char>,
    key: Seq<char>,
    entry: CacheEntryView,
    stored_len: u64,
)
    requires
        state.index.has_room(stored_len),
    ensures
        state.after_put(file_path, key, entry, stored_len).index.stats.misses
            == state.index.stats.misses + 1,
        state.after_put(file_path, key, entry, stored_len).index.stats.hits
            == state.index.stats.hits,
{
    lemma_trim_keeps_counters(
        state.recorded(file_path, key, entry, stored_len),
        state.options.max_size_bytes,
    );
}

/// Statistics. In a cache that starts empty, a lookup that finds nothing,
/// the storing of an entry and a lookup that serves it leave one hit and
/// one miss, a hit rate of one half.
pub proof fn lemma_stats_accounting(
    options: CacheOptions,
    file_path: Seq<char>,
    key: Seq<char>,
    entry: CacheEntryView,
    stored_len: u64,
    stored: StoredEntryView,
    source: SourceProbeView,
    now: u64,
)
    requires
        finds_what_was_put(
            CacheState::initial(options, None),
            file_path,
            key,
            entry,
            stored_len,
            stored,
        ),
        entry_validity(options, entry, source, now) == Ok::<bool, CacheError>(true),
    ensures
        ({
            let fresh = CacheState::initial(options, None);
            let missed = fresh.after_get(key, StoredEntryView::Absent, source, now);
            let put = missed.after_put(file_path, key, entry, stored_len);
            let served = put.after_get(key, stored, source, now);
            &&& fresh.get_result(key, StoredEntryView::Absent, source, now) == Ok::<
                GetOutcomeView,
                CacheError,
            >(GetOutcomeView { entry: None, remove_artifact: false })
            &&& missed == fresh
            &&& put.get_result(key, stored, source, now) == Ok::<GetOutcomeView, CacheError>(
                GetOutcomeView { entry: Some(entry), remove_artifact: false },
            )
            &&& served.index.stats.hits == 1
            &&& served.index.stats.misses == 1
            &&& served.index.stats.rate() == (Ratio { numer: 1, denom: 2 })
        }),
{
    let fresh = CacheState::initial(options, None);
    lemma_put_is_found(fresh, file_path, key, entry, stored_len, stored);
    lemma_put_counts_one_miss(fresh, file_path, key, entry, stored_len);
}

} // verus!
