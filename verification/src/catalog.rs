//! Importable symbols and the curated catalog of well-known ones.

use vstd::prelude::*;

verus! {

/// What kind of item a symbol names.
#[derive(Debug, Clone, Copy, PartialEq, Eq, Structural)]
pub enum ItemKind {
    Struct,
    Enum,
    Trait,
    Function,
    Module,
    Constant,
    Static,
    TypeAlias,
    Union,
    Macro,
    Unknown,
}

/// Where a symbol is defined.
#[derive(Debug)]
pub enum ItemSource {
    /// Standard library.
    Std,
    /// Core library.
    Core,
    /// A third-party crate.
    External { crate_name: String },
    /// A module of the project itself.
    Local { module: String },
    /// Built into the compiler.
    Compiler,
}

/// The mathematical value of an [`ItemSource`].
pub ghost enum ItemSourceView {
    Std,
    Core,
    External { crate_name: Seq<char> },
    Local { module: Seq<char> },
    Compiler,
}

impl View for ItemSource {
    type V = ItemSourceView;

    open spec fn view(&self) -> ItemSourceView {
        match *self {
            ItemSource::Std => ItemSourceView::Std,
            ItemSource::Core => ItemSourceView::Core,
            ItemSource::External { crate_name } => ItemSourceView::External {
                crate_name: crate_name@,
            },
            ItemSource::Local { module } => ItemSourceView::Local {
                module: module@,
            },
            ItemSource::Compiler => ItemSourceView::Compiler,
        }
    }
}

impl Clone for ItemSource {
    fn clone(&self) -> (copy: Self)
        ensures
            copy@ == self@,
    {
        match self {
            ItemSource::Std => ItemSource::Std,
            ItemSource::Core => ItemSource::Core,
            ItemSource::External { crate_name } => ItemSource::External {
                crate_name: crate_name.clone(),
            },
            ItemSource::Local { module } => ItemSource::Local {
                module: module.clone(),
            },
            ItemSource::Compiler => ItemSource::Compiler,
        }
    }
}

/// A named symbol that can be brought into scope with an import.
#[derive(Debug)]
pub struct ImportableItem {
    /// Fully qualified path, such as `std::collections::HashMap`.
    pub full_path: String,
    /// Last segment of the path, such as `HashMap`.
    pub name: String,
    pub kind: ItemKind,
    pub source: ItemSource,
    pub is_public: bool,
    pub docs: Option<String>,
    pub is_macro: bool,
}

/// The mathematical value of an [`ImportableItem`].
pub ghost struct ImportableItemView {
    pub full_path: Seq<char>,
    pub name: Seq<char>,
    pub kind: ItemKind,
    pub source: ItemSourceView,
    pub is_public: bool,
    pub docs: Option<Seq<char>>,
    pub is_macro: bool,
}

impl View for ImportableItem {
    type V = ImportableItemView;

    open spec fn view(&self) -> ImportableItemView {
        ImportableItemView {
            full_path: self.full_path@,
            name: self.name@,
            kind: self.kind,
            source: self.source@,
            is_public: self.is_public,
            docs: match self.docs {
                Some(text) => Some(text@),
                None => None,
            },
            is_macro: self.is_macro,
        }
    }
}

impl Clone for ImportableItem {
    fn clone(&self) -> (copy: Self)
        ensures
            copy@ == self@,
    {
        ImportableItem {
            full_path: self.full_path.clone(),
            name: self.name.clone(),
            kind: self.kind,
            source: self.source.clone(),
            is_public: self.is_public,
            docs: match &self.docs {
                Some(text) => Some(text.clone()),
                None => None,
            },
            is_macro: self.is_macro,
        }
    }
}

/// The values of a sequence of items, position by position.
pub open spec fn item_views(items: Seq<ImportableItem>) -> Seq<ImportableItemView> {
    items.map_values(|item: ImportableItem| item@)
}

/// Appends `item`; the values of the items already there stay as they are.
pub fn push_item(items: &mut Vec<ImportableItem>, item: ImportableItem)
    ensures
        item_views(final(items)@) == item_views(old(items)@).push(item@),
{
    items.push(item);
    assert(item_views(items@) =~= item_views(old(items)@).push(item@));
}

/// A public, documented catalog entry.
pub open spec fn catalog_entry(
    full_path: Seq<char>,
    name: Seq<char>,
    kind: ItemKind,
    source: ItemSourceView,
    docs: Seq<char>,
) -> ImportableItemView {
    ImportableItemView {
        full_path,
        name,
        kind,
        source,
        is_public: true,
        docs: Some(docs),
        is_macro: kind == ItemKind::Macro,
    }
}

/// The source of an item that the crate `name` exports.
pub open spec fn external(name: Seq<char>) -> ItemSourceView {
    ItemSourceView::External { crate_name: name }
}

/// Builds a public, documented catalog entry.
pub fn make_entry(full_path: &str, name: &str, kind: ItemKind, source: ItemSource, docs: &str) -> (item:
    ImportableItem)
    ensures
        item@ == catalog_entry(full_path@, name@, kind, source@, docs@),
{
    ImportableItem {
        full_path: full_path.to_string(),
        name: name.to_string(),
        kind,
        source,
        is_public: true,
        docs: Some(docs.to_string()),
        is_macro: kind == ItemKind::Macro,
    }
}

/// Builds the source of an item that the crate `name` exports.
pub fn external_source(name: &str) -> (source: ItemSource)
    ensures
        source@ == external(name@),
{
    ItemSource::External { crate_name: name.to_string() }
}

/// The standard-library and core-library symbols of the catalog, in catalog
/// order: collections, synchronisation primitives, common traits, I/O and
/// path types, then the core types and marker traits.
pub open spec fn std_catalog() -> Seq<ImportableItemView> {
    seq![
        catalog_entry("std::collections::HashMap"@, "HashMap"@, ItemKind::Struct, ItemSourceView::Std, "A hash map implemented with quadratic probing and SIMD lookup"@),
        catalog_entry("std::collections::HashSet"@, "HashSet"@, ItemKind::Struct, ItemSourceView::Std, "A hash set implemented as a HashMap where the value is ()"@),
        catalog_entry("std::collections::BTreeMap"@, "BTreeMap"@, ItemKind::Struct, ItemSourceView::Std, "A map based on a B-Tree"@),
        catalog_entry("std::collections::BTreeSet"@, "BTreeSet"@, ItemKind::Struct, ItemSourceView::Std, "A set based on a B-Tree"@),
        catalog_entry("std::collections::VecDeque"@, "VecDeque"@, ItemKind::Struct, ItemSourceView::Std, "A double-ended queue implemented with a growable ring buffer"@),
        catalog_entry("std::collections::LinkedList"@, "LinkedList"@, ItemKind::Struct, ItemSourceView::Std, "A doubly-linked list with owned nodes"@),
        catalog_entry("std::collections::BinaryHeap"@, "BinaryHeap"@, ItemKind::Struct, ItemSourceView::Std, "A priority queue implemented with a binary heap"@),
        catalog_entry("std::sync::Arc"@, "Arc"@, ItemKind::Struct, ItemSourceView::Std, "Atomically Reference Counted pointer"@),
        catalog_entry("std::sync::Mutex"@, "Mutex"@, ItemKind::Struct, ItemSourceView::Std, "A mutual exclusion primitive useful for protecting shared data"@),
        catalog_entry("std::sync::RwLock"@, "RwLock"@, ItemKind::Struct, ItemSourceView::Std, "A reader-writer lock"@),
        catalog_entry("std::clone::Clone"@, "Clone"@, ItemKind::Trait, ItemSourceView::Std, "A common trait for the ability to explicitly duplicate an object"@),
        catalog_entry("std::fmt::Display"@, "Display"@, ItemKind::Trait, ItemSourceView::Std, "Format trait for an empty format, {}"@),
        catalog_entry("std::fmt::Debug"@, "Debug"@, ItemKind::Trait, ItemSourceView::Std, "Format trait for the ? format"@),
        catalog_entry("std::io::Result"@, "Result"@, ItemKind::TypeAlias, ItemSourceView::Std, "A specialized Result type for I/O operations"@),
        catalog_entry("std::fs::File"@, "File"@, ItemKind::Struct, ItemSourceView::Std, "A reference to an open file on the filesystem"@),
        catalog_entry("std::path::Path"@, "Path"@, ItemKind::Struct, ItemSourceView::Std, "A slice of a path"@),
        catalog_entry("std::path::PathBuf"@, "PathBuf"@, ItemKind::Struct, ItemSourceView::Std, "An owned, mutable path"@),
        catalog_entry("core::option::Option"@, "Option"@, ItemKind::Enum, ItemSourceView::Core, "The Option type"@),
        catalog_entry("core::result::Result"@, "Result"@, ItemKind::Enum, ItemSourceView::Core, "The Result type"@),
        catalog_entry("core::marker::Copy"@, "Copy"@, ItemKind::Trait, ItemSourceView::Core, "Types whose values can be duplicated simply by copying bits"@),
        catalog_entry("core::marker::Send"@, "Send"@, ItemKind::Trait, ItemSourceView::Core, "Types that can be transferred across thread boundaries"@),
        catalog_entry("core::marker::Sync"@, "Sync"@, ItemKind::Trait, ItemSourceView::Core, "Types for which it is safe to share references between threads"@),
    ]
}

/// The symbols of widely used third-party crates: serialisation traits, async
/// runtime primitives, command-line parsing, tracing macros, and the usual
/// identifier, date and pattern types.
pub open spec fn external_catalog() -> Seq<ImportableItemView> {
    seq![
        catalog_entry("serde::Serialize"@, "Serialize"@, ItemKind::Trait, external("serde"@), "A data structure that can be serialized into any data format supported by Serde"@),
        catalog_entry("serde::Deserialize"@, "Deserialize"@, ItemKind::Trait, external("serde"@), "A data structure that can be deserialized from any data format supported by Serde"@),
        catalog_entry("tokio::join"@, "join"@, ItemKind::Macro, external("tokio"@), "Poll multiple futures concurrently"@),
        catalog_entry("tokio::spawn"@, "spawn"@, ItemKind::Function, external("tokio"@), "Spawn a task onto the Tokio runtime"@),
        catalog_entry("clap::Parser"@, "Parser"@, ItemKind::Trait, external("clap"@), "Parse command-line arguments by parsing a struct"@),
        catalog_entry("tracing::info"@, "info"@, ItemKind::Macro, external("tracing"@), "Create an INFO level event"@),
        catalog_entry("tracing::debug"@, "debug"@, ItemKind::Macro, external("tracing"@), "Create a DEBUG level event"@),
        catalog_entry("uuid::Uuid"@, "Uuid"@, ItemKind::Struct, external("uuid"@), "Universally Unique Identifiers (UUIDs)"@),
        catalog_entry("chrono::DateTime"@, "DateTime"@, ItemKind::Struct, external("chrono"@), "ISO 8601 combined date and time with time zone"@),
        catalog_entry("regex::Regex"@, "Regex"@, ItemKind::Struct, external("regex"@), "A compiled regular expression"@),
    ]
}

/// The whole catalog: the standard symbols, followed by the third-party ones
/// when `include_externals` is set.
pub open spec fn catalog(include_externals: bool) -> Seq<ImportableItemView> {
    if include_externals {
        std_catalog() + external_catalog()
    } else {
        std_catalog()
    }
}

/// Builds the standard-library and core-library part of the catalog.
pub fn std_items() -> (items: Vec<ImportableItem>)
    ensures
        item_views(items@) == std_catalog(),
{
    let mut items: Vec<ImportableItem> = Vec::new();
    assert(item_views(items@) =~= Seq::empty());
    push_item(&mut items, make_entry("std::collections::HashMap", "HashMap", ItemKind::Struct, ItemSource::Std, "A hash map implemented with quadratic probing and SIMD lookup"));
    push_item(&mut items, make_entry("std::collections::HashSet", "HashSet", ItemKind::Struct, ItemSource::Std, "A hash set implemented as a HashMap where the value is ()"));
    push_item(&mut items, make_entry("std::collections::BTreeMap", "BTreeMap", ItemKind::Struct, ItemSource::Std, "A map based on a B-Tree"));
    push_item(&mut items, make_entry("std::collections::BTreeSet", "BTreeSet", ItemKind::Struct, ItemSource::Std, "A set based on a B-Tree"));
    push_item(&mut items, make_entry("std::collections::VecDeque", "VecDeque", ItemKind::Struct, ItemSource::Std, "A double-ended queue implemented with a growable ring buffer"));
    push_item(&mut items, make_entry("std::collections::LinkedList", "LinkedList", ItemKind::Struct, ItemSource::Std, "A doubly-linked list with owned nodes"));
    push_item(&mut items, make_entry("std::collections::BinaryHeap", "BinaryHeap", ItemKind::Struct, ItemSource::Std, "A priority queue implemented with a binary heap"));
    push_item(&mut items, make_entry("std::sync::Arc", "Arc", ItemKind::Struct, ItemSource::Std, "Atomically Reference Counted pointer"));
    push_item(&mut items, make_entry("std::sync::Mutex", "Mutex", ItemKind::Struct, ItemSource::Std, "A mutual exclusion primitive useful for protecting shared data"));
    push_item(&mut items, make_entry("std::sync::RwLock", "RwLock", ItemKind::Struct, ItemSource::Std, "A reader-writer lock"));
    push_item(&mut items, make_entry("std::clone::Clone", "Clone", ItemKind::Trait, ItemSource::Std, "A common trait for the ability to explicitly duplicate an object"));
    push_item(&mut items, make_entry("std::fmt::Display", "Display", ItemKind::Trait, ItemSource::Std, "Format trait for an empty format, {}"));
    push_item(&mut items, make_entry("std::fmt::Debug", "Debug", ItemKind::Trait, ItemSource::Std, "Format trait for the ? format"));
    push_item(&mut items, make_entry("std::io::Result", "Result", ItemKind::TypeAlias, ItemSource::Std, "A specialized Result type for I/O operations"));
    push_item(&mut items, make_entry("std::fs::File", "File", ItemKind::Struct, ItemSource::Std, "A reference to an open file on the filesystem"));
    push_item(&mut items, make_entry("std::path::Path", "Path", ItemKind::Struct, ItemSource::Std, "A slice of a path"));
    push_item(&mut items, make_entry("std::path::PathBuf", "PathBuf", ItemKind::Struct, ItemSource::Std, "An owned, mutable path"));
    push_item(&mut items, make_entry("core::option::Option", "Option", ItemKind::Enum, ItemSource::Core, "The Option type"));
    push_item(&mut items, make_entry("core::result::Result", "Result", ItemKind::Enum, ItemSource::Core, "The Result type"));
    push_item(&mut items, make_entry("core::marker::Copy", "Copy", ItemKind::Trait, ItemSource::Core, "Types whose values can be duplicated simply by copying bits"));
    push_item(&mut items, make_entry("core::marker::Send", "Send", ItemKind::Trait, ItemSource::Core, "Types that can be transferred across thread boundaries"));
    push_item(&mut items, make_entry("core::marker::Sync", "Sync", ItemKind::Trait, ItemSource::Core, "Types for which it is safe to share references between threads"));
    items
}

/// Builds the third-party part of the catalog.
pub fn common_external_items() -> (items: Vec<ImportableItem>)
    ensures
        item_views(items@) == external_catalog(),
{
    let mut items: Vec<ImportableItem> = Vec::new();
    assert(item_views(items@) =~= Seq::empty());
    push_item(&mut items, make_entry("serde::Serialize", "Serialize", ItemKind::Trait, external_source("serde"), "A data structure that can be serialized into any data format supported by Serde"));
    push_item(&mut items, make_entry("serde::Deserialize", "Deserialize", ItemKind::Trait, external_source("serde"), "A data structure that can be deserialized from any data format supported by Serde"));
    push_item(&mut items, make_entry("tokio::join", "join", ItemKind::Macro, external_source("tokio"), "Poll multiple futures concurrently"));
    push_item(&mut items, make_entry("tokio::spawn", "spawn", ItemKind::Function, external_source("tokio"), "Spawn a task onto the Tokio runtime"));
    push_item(&mut items, make_entry("clap::Parser", "Parser", ItemKind::Trait, external_source("clap"), "Parse command-line arguments by parsing a struct"));
    push_item(&mut items, make_entry("tracing::info", "info", ItemKind::Macro, external_source("tracing"), "Create an INFO level event"));
    push_item(&mut items, make_entry("tracing::debug", "debug", ItemKind::Macro, external_source("tracing"), "Create a DEBUG level event"));
    push_item(&mut items, make_entry("uuid::Uuid", "Uuid", ItemKind::Struct, external_source("uuid"), "Universally Unique Identifiers (UUIDs)"));
    push_item(&mut items, make_entry("chrono::DateTime", "DateTime", ItemKind::Struct, external_source("chrono"), "ISO 8601 combined date and time with time zone"));
    push_item(&mut items, make_entry("regex::Regex", "Regex", ItemKind::Struct, external_source("regex"), "A compiled regular expression"));
    items
}

/// Builds the catalog: the standard symbols, followed by the third-party ones
/// when `include_externals` is set.
pub fn catalog_items(include_externals: bool) -> (items: Vec<ImportableItem>)
    ensures
        item_views(items@) == catalog(include_externals),
{
    let mut items = std_items();
    if include_externals {
        let mut externals = common_external_items();
        let ghost before = items@;
        items.append(&mut externals);
        assert(item_views(items@) =~= item_views(before) + external_catalog());
    }
    items
}

} // verus!
