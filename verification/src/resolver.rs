//! The name resolver: the catalog of a project, optionally remembered in a
//! cache, and the ranking of its items against unresolved names.

use vstd::prelude::*;
use vstd::string::StringExecFns;
use crate::cache::entry::{CacheEntry, CacheError, CacheMetadata, CacheMetadataView, CacheStats};
use crate::cache::compress::{COMPRESSION_LEVEL, compressible, zstd_content, zstd_frame};
use crate::cache::key::cache_key;
use crate::cache::validity::{SourceProbe, SourceProbeView};
use crate::cache::store::{
    CacheState, GetOutcome, GetOutcomeView, IncrementalCache, StoredEntry, outcome_view, prepared,
};
use crate::catalog::{
    ImportableItem, ImportableItemView, catalog, catalog_items, common_external_items,
    external_catalog, item_views,
};
use crate::confidence::Confidence;
use crate::name_resolution::{
    ImportMatch, ImportMatchView, MatchType, match_score, match_views, score_item,
};
use crate::ranking::{all_relevant, candidates, is_top_of_ranking, rank_matches};
use crate::text::string_views;

verus! {

/// Number of suggestions that a new resolver returns at most.
pub const DEFAULT_MAX_SUGGESTIONS: usize = 50;

/// Analysis time that is recorded for a resolution, in milliseconds.
pub const RESOLUTION_DURATION_MS: u64 = 1000;

/// What can go wrong while a project is resolved.
#[derive(Debug, Clone, Copy, PartialEq, Eq, Structural)]
pub enum ResolveError {
    /// The build tool could not describe the project.
    MetadataUnavailable,
}

/// A snapshot of what can be imported in a project.
#[derive(Debug)]
pub struct NameResolutionResult {
    /// Every importable item of the project and of its dependencies.
    pub items: Vec<ImportableItem>,
    /// The items in scope at a position.
    pub in_scope_at_pos: Vec<ImportableItem>,
    /// Matches for unresolved names.
    pub matches: Vec<ImportMatch>,
    /// Items that usage suggests.
    pub suggestions: Vec<ImportableItem>,
}

/// The mathematical value of a [`NameResolutionResult`].
pub ghost struct NameResolutionResultView {
    pub items: Seq<ImportableItemView>,
    pub in_scope_at_pos: Seq<ImportableItemView>,
    pub matches: Seq<ImportMatchView>,
    pub suggestions: Seq<ImportableItemView>,
}

impl View for NameResolutionResult {
    type V = NameResolutionResultView;

    open spec fn view(&self) -> NameResolutionResultView {
        NameResolutionResultView {
            items: item_views(self.items@),
            in_scope_at_pos: item_views(self.in_scope_at_pos@),
            matches: match_views(self.matches@),
            suggestions: item_views(self.suggestions@),
        }
    }
}

/// The snapshot of a project with the given catalog switch and local items:
/// the catalog followed by the local items, and nothing else.
pub open spec fn fresh_resolution(
    include_externals: bool,
    local_items: Seq<ImportableItemView>,
) -> NameResolutionResultView {
    NameResolutionResultView {
        items: catalog(include_externals) + local_items,
        in_scope_at_pos: Seq::empty(),
        matches: Seq::empty(),
        suggestions: Seq::empty(),
    }
}

/// The outcome of resolving a project.
#[derive(Debug)]
pub struct Resolution {
    pub result: NameResolutionResult,
    /// Whether the result was computed afresh for a resolver with a cache,
    /// and is therefore to be stored.
    pub store: bool,
}

/// The path under which the resolution of a workspace is cached. It begins
/// with a prefix that no canonical file path begins with, so that the key
/// of a resolution never is the key of a file.
pub open spec fn resolution_path(workspace_root: Seq<char>) -> Seq<char> {
    "name_resolution:"@ + workspace_root
}

/// The metadata that is recorded with a cached resolution: no
/// dependencies, the time of the resolution as modification time, a fixed
/// duration, and the length of the serialised result as size.
pub open spec fn resolution_metadata(
    toolchain: Seq<char>,
    now: u64,
    serialized_len: u64,
) -> CacheMetadataView {
    CacheMetadataView {
        rustc_version: toolchain,
        dependencies: Seq::empty(),
        file_mtime: now,
        analysis_duration_ms: RESOLUTION_DURATION_MS,
        file_size: serialized_len,
    }
}

/// The state of the source of a resolution, which is about no file: the
/// empty content and no dependencies.
pub open spec fn no_source() -> SourceProbeView {
    SourceProbeView { content: Seq::empty(), dependencies: Seq::empty() }
}

/// The mathematical value of a resolver.
pub ghost struct ResolverState {
    /// The state of the cache, if the resolver has one.
    pub cache: Option<CacheState>,
    pub include_externals: bool,
    pub include_builtins: bool,
    pub max_suggestions: usize,
}

impl ResolverState {
    /// The cache, if there is one, is well formed.
    pub open spec fn wf(self) -> bool {
        self.cache matches Some(cache) ==> cache.wf()
    }
}

/// Resolves names against the catalog of importable items.
pub struct NameResolver {
    cache: Option<IncrementalCache>,
    include_externals: bool,
    include_builtins: bool,
    max_suggestions: usize,
}

impl View for NameResolver {
    type V = ResolverState;

    closed spec fn view(&self) -> ResolverState {
        ResolverState {
            cache: match self.cache {
                Some(cache) => Some(cache@),
                None => None,
            },
            include_externals: self.include_externals,
            include_builtins: self.include_builtins,
            max_suggestions: self.max_suggestions,
        }
    }
}

impl NameResolver {
    /// The cache, if there is one, is well formed.
    pub open spec fn wf(&self) -> bool {
        self@.wf()
    }

    /// A resolver without a cache that includes third-party items and
    /// built-ins and returns at most fifty suggestions.
    pub fn new() -> (resolver: Self)
        ensures
            resolver.wf(),
            resolver@ == (ResolverState {
                cache: None,
                include_externals: true,
                include_builtins: true,
                max_suggestions: DEFAULT_MAX_SUGGESTIONS,
            }),
    {
        NameResolver {
            cache: None,
            include_externals: true,
            include_builtins: true,
            max_suggestions: DEFAULT_MAX_SUGGESTIONS,
        }
    }

    /// A resolver like a new one that remembers resolutions in `cache`.
    pub fn with_cache(cache: IncrementalCache) -> (resolver: Self)
        ensures
            resolver@ == (ResolverState {
                cache: Some(cache@),
                include_externals: true,
                include_builtins: true,
                max_suggestions: DEFAULT_MAX_SUGGESTIONS,
            }),
    {
        let mut resolver = Self::new();
        resolver.cache = Some(cache);
        resolver
    }

    /// Sets whether the catalog includes third-party items.
    pub fn with_externals(self, enabled: bool) -> (resolver: Self)
        ensures
            resolver@ == (ResolverState { include_externals: enabled, ..self@ }),
    {
        let mut resolver = self;
        resolver.include_externals = enabled;
        resolver
    }

    /// Sets whether built-ins are included.
    pub fn with_builtins(self, enabled: bool) -> (resolver: Self)
        ensures
            resolver@ == (ResolverState { include_builtins: enabled, ..self@ }),
    {
        let mut resolver = self;
        resolver.include_builtins = enabled;
        resolver
    }

    /// Sets the greatest number of suggestions that are returned.
    pub fn max_suggestions(self, max: usize) -> (resolver: Self)
        ensures
            resolver@ == (ResolverState { max_suggestions: max, ..self@ }),
    {
        let mut resolver = self;
        resolver.max_suggestions = max;
        resolver
    }

    /// Tells whether the resolver has a cache.
    pub fn has_cache(&self) -> (yes: bool)
        ensures
            yes == self@.cache.is_some(),
    {
        self.cache.is_some()
    }

    /// The running totals of the cache, if the resolver has one.
    pub fn cache_stats(&self) -> (stats: Option<CacheStats>)
        ensures
            match self@.cache {
                Some(cache) => stats == Some(cache.index.stats),
                None => stats.is_none(),
            },
    {
        match &self.cache {
            Some(cache) => Some(cache.stats()),
            None => None,
        }
    }

    /// Gives up the resolver for its cache.
    pub fn into_cache(self) -> (cache: Option<IncrementalCache>)
        ensures
            match cache {
                Some(held) => self@.cache == Some(held@),
                None => self@.cache.is_none(),
            },
    {
        self.cache
    }

    /// The catalog of standard symbols, followed by the third-party ones
    /// where the resolver includes them. This never fails.
    pub fn get_std_items(&self) -> (items: Result<Vec<ImportableItem>, ResolveError>)
        ensures
            items.is_ok(),
            item_views(items.unwrap()@) == catalog(self@.include_externals),
    {
        Ok(catalog_items(self.include_externals))
    }

    /// The symbols of widely used third-party crates.
    pub fn get_common_external_items(&self) -> (items: Vec<ImportableItem>)
        ensures
            item_views(items@) == external_catalog(),
    {
        common_external_items()
    }

    /// The items that the project itself defines. Finding them in the
    /// sources is left to an integration with a parser: until there is one,
    /// a project that the build tool can describe has no items of its own,
    /// and one that it cannot describe is an error.
    pub fn get_local_project_items(&self, metadata_available: bool) -> (items: Result<
        Vec<ImportableItem>,
        ResolveError,
    >)
        ensures
            match items {
                Ok(found) => metadata_available && found@.len() == 0,
                Err(error) => !metadata_available && error == ResolveError::MetadataUnavailable,
            },
    {
        if metadata_available {
            Ok(Vec::new())
        } else {
            Err(ResolveError::MetadataUnavailable)
        }
    }

    /// Computes the snapshot of a project from the catalog and the items
    /// that the project defines.
    pub fn resolve_project_impl(&self, local_items: Vec<ImportableItem>) -> (result:
        NameResolutionResult)
        ensures
            result@ == fresh_resolution(self@.include_externals, item_views(local_items@)),
    {
        let mut items = catalog_items(self.include_externals);
        let mut local = local_items;
        let ghost before = items@;
        items.append(&mut local);
        let result = NameResolutionResult {
            items,
            in_scope_at_pos: Vec::new(),
            matches: Vec::new(),
            suggestions: Vec::new(),
        };
        proof {
            assert(item_views(result.items@) =~= item_views(before) + item_views(local_items@));
            assert(item_views(result.in_scope_at_pos@) =~= Seq::empty());
            assert(match_views(result.matches@) =~= Seq::empty());
            assert(item_views(result.suggestions@) =~= Seq::empty());
        }
        result
    }

    /// Resolves a project, given the snapshot that the cache held, if any,
    /// and the items that the project defines. A resolver with a cache
    /// returns the cached snapshot as it is; otherwise the snapshot is
    /// computed, and is to be stored where the resolver has a cache.
    pub fn resolve_project(
        &self,
        cached: Option<NameResolutionResult>,
        local_items: Vec<ImportableItem>,
    ) -> (resolution: Resolution)
        ensures
            match cached {
                Some(snapshot) if self@.cache.is_some() => resolution.result@ == snapshot@
                    && !resolution.store,
                _ => resolution.result@ == fresh_resolution(
                    self@.include_externals,
                    item_views(local_items@),
                ) && resolution.store == self@.cache.is_some(),
            },
    {
        if self.cache.is_some() {
            match cached {
                Some(snapshot) => {
                    return Resolution { result: snapshot, store: false };
                },
                None => {},
            }
        }
        Resolution { result: self.resolve_project_impl(local_items), store: self.cache.is_some() }
    }

    /// The path under which the resolution of a workspace is cached.
    pub fn resolution_cache_path(workspace_root: &str) -> (path: String)
        ensures
            path@ == resolution_path(workspace_root@),
    {
        let mut path = "name_resolution:".to_string();
        path.append(workspace_root);
        path
    }

    /// The metadata that is recorded with a cached resolution.
    pub fn resolution_cache_metadata(toolchain: String, now: u64, serialized_len: u64) -> (metadata:
        CacheMetadata)
        ensures
            metadata@ == resolution_metadata(toolchain@, now, serialized_len),
    {
        let metadata = CacheMetadata {
            rustc_version: toolchain,
            dependencies: Vec::new(),
            file_mtime: now,
            analysis_duration_ms: RESOLUTION_DURATION_MS,
            file_size: serialized_len,
        };
        assert(string_views(metadata.dependencies@) =~= Seq::empty());
        metadata
    }

    /// Makes the cache entry for a serialised resolution at `now`: the
    /// resolution is the first payload, the second is empty, and the entry
    /// is about no file, so its fingerprint is that of the empty content. A
    /// resolver without a cache makes none.
    pub fn prepare_resolution(&self, serialized: &[u8], toolchain: String, now: u64) -> (entry:
        Result<Option<CacheEntry>, CacheError>)
        ensures
            match self@.cache {
                None => entry == Ok::<Option<CacheEntry>, CacheError>(None),
                Some(cache) => match entry {
                    Ok(made) => made.is_some() && made.unwrap()@ == prepared(
                        Seq::empty(),
                        if cache.options.compress_data {
                            zstd_frame(serialized@, COMPRESSION_LEVEL)
                        } else {
                            serialized@
                        },
                        if cache.options.compress_data {
                            zstd_frame(Seq::empty(), COMPRESSION_LEVEL)
                        } else {
                            Seq::empty()
                        },
                        resolution_metadata(toolchain@, now, serialized@.len() as u64),
                        now,
                    ),
                    Err(error) => cache.options.compress_data && error == CacheError::Compression,
                },
            },
            self@.cache matches Some(cache) && cache.options.compress_data && !compressible(
                serialized@.len(),
            ) ==> entry.is_err(),
    {
        match &self.cache {
            None => Ok(None),
            Some(cache) => {
                let nothing: Vec<u8> = Vec::new();
                let metadata = Self::resolution_cache_metadata(
                    toolchain,
                    now,
                    serialized.len() as u64,
                );
                match cache.prepare_entry(
                    nothing.as_slice(),
                    serialized,
                    nothing.as_slice(),
                    metadata,
                    now,
                ) {
                    Ok(made) => Ok(Some(made)),
                    Err(error) => Err(error),
                }
            },
        }
    }

    /// Looks up the cached resolution of a workspace at `now`, given what
    /// the disk tier holds under its key. A resolution is about no file: it
    /// is examined against the empty content and no dependencies. A
    /// resolver without a cache finds nothing.
    pub fn cached_resolution(&mut self, workspace_root: &str, stored: StoredEntry, now: u64) -> (outcome:
        Result<GetOutcome, CacheError>)
        requires
            old(self).wf(),
            old(self)@.cache matches Some(cache) ==> (cache.serves_entry(
                cache_key(resolution_path(workspace_root@)),
                stored@,
                no_source(),
                now,
            ) ==> cache.index.stats.hits < u64::MAX),
        ensures
            final(self).wf(),
            match old(self)@.cache {
                Some(cache) => outcome_view(outcome) == cache.get_result(
                    cache_key(resolution_path(workspace_root@)),
                    stored@,
                    no_source(),
                    now,
                ) && final(self)@ == (ResolverState {
                    cache: Some(
                        cache.after_get(
                            cache_key(resolution_path(workspace_root@)),
                            stored@,
                            no_source(),
                            now,
                        ),
                    ),
                    ..old(self)@
                }),
                None => outcome_view(outcome) == Ok::<GetOutcomeView, CacheError>(
                    GetOutcomeView { entry: None, remove_artifact: false },
                ) && final(self)@ == old(self)@,
            },
    {
        let path = Self::resolution_cache_path(workspace_root);
        let source = SourceProbe { content: Vec::new(), dependencies: Vec::new() };
        assert(source@ == no_source());
        match &mut self.cache {
            Some(cache) => cache.get(path.as_str(), stored, &source, now),
            None => Ok(GetOutcome { entry: None, remove_artifact: false }),
        }
    }

    /// The serialised resolution that a cache entry holds, as it was before
    /// it was stored: the first payload, decoded where the cache compresses.
    /// There is none for a resolver without a cache, nor where the payload
    /// does not decode.
    pub fn resolution_payload(&self, entry: &CacheEntry) -> (payload: Option<Vec<u8>>)
        ensures
            match self@.cache {
                None => payload.is_none(),
                Some(cache) => match payload {
                    Some(bytes) => bytes@ == (if cache.options.compress_data {
                        zstd_content(entry@.hir_data)
                    } else {
                        entry@.hir_data
                    }),
                    None => cache.options.compress_data,
                },
            },
    {
        match &self.cache {
            None => None,
            Some(cache) => match cache.open_payload(entry.hir_data.as_slice()) {
                Ok(bytes) => Some(bytes),
                Err(_) => None,
            },
        }
    }

    /// Records that the resolution of a workspace was written to the disk
    /// tier as `entry`, in `stored_len` bytes. Returns the keys whose files
    /// are to be removed. A resolver without a cache records nothing.
    pub fn store_resolution(&mut self, workspace_root: &str, entry: CacheEntry, stored_len: u64) -> (evicted:
        Vec<String>)
        requires
            old(self).wf(),
            old(self)@.cache matches Some(cache) ==> cache.index.has_room(stored_len),
        ensures
            final(self).wf(),
            match old(self)@.cache {
                Some(cache) => string_views(evicted@) == cache.evicted_by_put(
                    resolution_path(workspace_root@),
                    cache_key(resolution_path(workspace_root@)),
                    entry@,
                    stored_len,
                ) && final(self)@ == (ResolverState {
                    cache: Some(
                        cache.after_put(
                            resolution_path(workspace_root@),
                            cache_key(resolution_path(workspace_root@)),
                            entry@,
                            stored_len,
                        ),
                    ),
                    ..old(self)@
                }),
                None => evicted@.len() == 0 && final(self)@ == old(self)@,
            },
    {
        let path = Self::resolution_cache_path(workspace_root);
        match &mut self.cache {
            Some(cache) => cache.put(path.as_str(), path.as_str(), entry, stored_len),
            None => Vec::new(),
        }
    }

    /// Scores `item` against the name `search`.
    pub fn calculate_match_score(&self, search: &str, item: &ImportableItem) -> (score: (
        Confidence,
        MatchType,
    ))
        ensures
            score == match_score(search@, item@),
            score.0.wf(),
    {
        score_item(search, item)
    }

    /// Finds the items of a resolved project that may be meant by the
    /// unresolved names: every match with a confidence above three tenths,
    /// in ascending order of confidence, cut off after the greatest number
    /// of suggestions. The matches of lowest confidence come first, and
    /// they are the ones that the cut keeps.
    pub fn find_matches_for_types(
        &self,
        unresolved_types: &[String],
        resolution: &NameResolutionResult,
    ) -> (matches: Vec<ImportMatch>)
        ensures
            is_top_of_ranking(
                match_views(matches@),
                candidates(string_views(unresolved_types@), resolution@.items),
                self@.max_suggestions as int,
            ),
            matches@.len() <= self@.max_suggestions,
            all_relevant(match_views(matches@)),
    {
        rank_matches(unresolved_types, &resolution.items, self.max_suggestions)
    }
}

} // verus!
