//! When a stored entry may still be served.

use vstd::prelude::*;
use crate::cache::entry::{CacheEntry, CacheEntryView, CacheError, CacheOptions};
use crate::cache::key::{calculate_hash, content_fingerprint};

verus! {

/// What the file system says about one dependency of an entry.
#[derive(Debug, Clone, Copy, PartialEq, Eq, Structural)]
pub enum DependencyStatus {
    /// The path does not exist.
    Missing,
    /// The path exists but its modification time could not be read.
    Unreadable,
    /// The path exists and was last modified at `mtime`, in seconds since
    /// the epoch.
    ModifiedAt { mtime: u64 },
}

/// The present state of an analysed file and of its dependencies.
#[derive(Debug)]
pub struct SourceProbe {
    /// The bytes of the analysed file.
    pub content: Vec<u8>,
    /// The state of each dependency of the entry, in the order in which the
    /// entry lists them.
    pub dependencies: Vec<DependencyStatus>,
}

/// The mathematical value of a [`SourceProbe`].
pub ghost struct SourceProbeView {
    pub content: Seq<u8>,
    pub dependencies: Seq<DependencyStatus>,
}

impl View for SourceProbe {
    type V = SourceProbeView;

    open spec fn view(&self) -> SourceProbeView {
        SourceProbeView { content: self.content@, dependencies: self.dependencies@ }
    }
}

/// Outcome of going through the dependencies of an entry.
#[derive(Debug, Clone, Copy, PartialEq, Eq, Structural)]
pub enum Verdict {
    /// Every dependency exists and is no newer than the entry.
    Fresh,
    /// A dependency is missing or newer than the entry.
    Stale,
    /// A dependency could not be examined.
    Failed,
}

/// Goes through the dependencies in order and stops at the first that is
/// missing, newer than `created_at`, or unreadable.
pub open spec fn dependencies_verdict(statuses: Seq<DependencyStatus>, created_at: u64) -> Verdict
    decreases statuses.len(),
{
    if statuses.len() == 0 {
        Verdict::Fresh
    } else {
        match statuses.first() {
            DependencyStatus::Missing => Verdict::Stale,
            DependencyStatus::Unreadable => Verdict::Failed,
            DependencyStatus::ModifiedAt { mtime } => if mtime > created_at {
                Verdict::Stale
            } else {
                dependencies_verdict(statuses.drop_first(), created_at)
            },
        }
    }
}

/// An entry made at `created_at` is within the age limit at `now`: there is
/// no limit, or no more than `max_age_secs` seconds have passed.
pub open spec fn within_age(max_age_secs: u64, created_at: u64, now: u64) -> bool {
    max_age_secs == 0 || now - created_at <= max_age_secs
}

/// Whether `entry` may be served at `now`, given the present state of its
/// source: the content has the fingerprint that the entry was made from,
/// the entry is within the age limit, and every dependency exists and is no
/// newer than the entry. The checks are made in this order; a dependency
/// that cannot be examined is an error where the checks get to it.
pub open spec fn entry_validity(
    options: CacheOptions,
    entry: CacheEntryView,
    probe: SourceProbeView,
    now: u64,
) -> Result<bool, CacheError> {
    if content_fingerprint(probe.content) != entry.file_hash {
        Ok(false)
    } else if !within_age(options.max_age_secs, entry.created_at, now) {
        Ok(false)
    } else {
        match dependencies_verdict(probe.dependencies, entry.created_at) {
            Verdict::Fresh => Ok(true),
            Verdict::Stale => Ok(false),
            Verdict::Failed => Err(CacheError::Io),
        }
    }
}

/// Goes through the dependencies of an entry made at `created_at`.
pub fn check_dependencies(statuses: &Vec<DependencyStatus>, created_at: u64) -> (verdict: Verdict)
    ensures
        verdict == dependencies_verdict(statuses@, created_at),
{
    let mut i: usize = 0;
    assert(statuses@.skip(0) =~= statuses@);
    while i < statuses.len()
        invariant
            i <= statuses@.len(),
            dependencies_verdict(statuses@, created_at) == dependencies_verdict(
                statuses@.skip(i as int),
                created_at,
            ),
        decreases statuses@.len() - i,
    {
        proof {
            assert(statuses@.skip(i as int).first() == statuses@[i as int]);
            assert(statuses@.skip(i as int).drop_first() =~= statuses@.skip(i + 1));
        }
        match statuses[i] {
            DependencyStatus::Missing => {
                return Verdict::Stale;
            },
            DependencyStatus::Unreadable => {
                return Verdict::Failed;
            },
            DependencyStatus::ModifiedAt { mtime } => {
                if mtime > created_at {
                    return Verdict::Stale;
                }
            },
        }
        i += 1;
    }
    Verdict::Fresh
}

/// Decides whether `entry` may be served at `now`.
pub fn is_entry_valid(options: &CacheOptions, entry: &CacheEntry, probe: &SourceProbe, now: u64) -> (valid:
    Result<bool, CacheError>)
    ensures
        valid == entry_validity(*options, entry@, probe@, now),
{
    if calculate_hash(probe.content.as_slice()) != entry.file_hash {
        return Ok(false);
    }
    if options.max_age_secs > 0 && now > entry.created_at && now - entry.created_at
        > options.max_age_secs {
        return Ok(false);
    }
    match check_dependencies(&probe.dependencies, entry.created_at) {
        Verdict::Fresh => Ok(true),
        Verdict::Stale => Ok(false),
        Verdict::Failed => Err(CacheError::Io),
    }
}

/// With an age limit of `limit` seconds, an entry whose source is unchanged
/// is served one second before the limit is reached and refused one second
/// after.
pub proof fn lemma_age_expiry(
    options: CacheOptions,
    entry: CacheEntryView,
    probe: SourceProbeView,
    limit: u64,
)
    requires
        limit > 0,
        options.max_age_secs == limit,
        entry.created_at + limit + 1 <= u64::MAX,
        content_fingerprint(probe.content) == entry.file_hash,
        dependencies_verdict(probe.dependencies, entry.created_at) == Verdict::Fresh,
    ensures
        entry_validity(options, entry, probe, (entry.created_at + limit - 1) as u64) == Ok::<
            bool,
            CacheError,
        >(true),
        entry_validity(options, entry, probe, (entry.created_at + limit + 1) as u64) == Ok::<
            bool,
            CacheError,
        >(false),
{
}

/// A dependency that was modified after the entry was made, with every
/// dependency before it readable, makes the entry invalid.
pub proof fn lemma_newer_dependency(
    options: CacheOptions,
    entry: CacheEntryView,
    probe: SourceProbeView,
    now: u64,
    at: int,
)
    requires
        0 <= at < probe.dependencies.len(),
        probe.dependencies[at] matches DependencyStatus::ModifiedAt { mtime } && mtime
            > entry.created_at,
        forall|i: int| 0 <= i < at ==> probe.dependencies[i] != DependencyStatus::Unreadable,
    ensures
        entry_validity(options, entry, probe, now) == Ok::<bool, CacheError>(false),
{
    lemma_stale_dependency(probe.dependencies, entry.created_at, at);
}

/// A dependency newer than the entry makes the verdict stale, unless one
/// before it could not be examined.
pub proof fn lemma_stale_dependency(statuses: Seq<DependencyStatus>, created_at: u64, at: int)
    requires
        0 <= at < statuses.len(),
        statuses[at] matches DependencyStatus::ModifiedAt { mtime } && mtime > created_at,
        forall|i: int| 0 <= i < at ==> statuses[i] != DependencyStatus::Unreadable,
    ensures
        dependencies_verdict(statuses, created_at) == Verdict::Stale,
    decreases statuses.len(),
{
    if at > 0 {
        let rest = statuses.drop_first();
        assert(rest[at - 1] == statuses[at]);
        assert forall|i: int| 0 <= i < at - 1 implies rest[i] != DependencyStatus::Unreadable by {
            assert(rest[i] == statuses[i + 1]);
        }
        assert(statuses.first() == statuses[0]);
        lemma_stale_dependency(rest, created_at, at - 1);
    }
}

} // verus!
