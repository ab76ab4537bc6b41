//! Analysis backbone of a code-refactoring tool: a tiered, content-addressed
//! cache for per-file analysis results and a name-resolution engine that
//! ranks importable symbols against unresolved names.
//!
//! Every function here is pure with respect to the file system: callers read
//! and write files and hand the library plain values.

pub mod cache;
pub mod catalog;
pub mod confidence;
pub mod edit_distance;
pub mod models;
pub mod name_resolution;
pub mod ranking;
pub mod resolver;
pub mod text;

pub use cache::entry::{CacheEntry, CacheError, CacheMetadata, CacheOptions, CacheStats, Ratio};
pub use cache::index::{CacheIndex, IndexRecord};
pub use cache::keyed::KeyedList;
pub use cache::store::{ArtifactRemoval, GetOutcome, IncrementalCache, StoredEntry};
pub use cache::validity::{DependencyStatus, SourceProbe, Verdict};
pub use catalog::{ImportableItem, ItemKind, ItemSource};
pub use confidence::Confidence;
pub use edit_distance::edit_distance;
pub use models::User;
pub use name_resolution::{ImportMatch, MatchType};
pub use resolver::{NameResolutionResult, NameResolver, Resolution, ResolveError};
