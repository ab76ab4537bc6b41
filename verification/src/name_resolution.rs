//! Scoring of catalog items against unresolved names, and the resolver that
//! ranks them.

use vstd::prelude::*;
use vstd::utf8::encode_utf8;
use crate::catalog::{ImportableItem, ImportableItemView};
use crate::confidence::Confidence;
use crate::edit_distance::{distance_between, levenshtein};
use crate::text::{code_points, contains, contains_run, ends_with, lowercase, starts_with, to_lowercase};

verus! {

/// Why an item matches a name.
#[derive(Debug, Clone, Copy, PartialEq, Eq, Structural)]
pub enum MatchType {
    ExactName,
    EditDistance { distance: usize },
    TypeMatches,
    UsageBased,
}

/// A candidate import for an unresolved name.
#[derive(Debug)]
pub struct ImportMatch {
    pub item: ImportableItem,
    pub confidence: Confidence,
    pub match_type: MatchType,
}

/// The mathematical value of an [`ImportMatch`].
pub ghost struct ImportMatchView {
    pub item: ImportableItemView,
    pub confidence: Confidence,
    pub match_type: MatchType,
}

impl View for ImportMatch {
    type V = ImportMatchView;

    open spec fn view(&self) -> ImportMatchView {
        ImportMatchView {
            item: self.item@,
            confidence: self.confidence,
            match_type: self.match_type,
        }
    }
}

impl Clone for ImportMatch {
    fn clone(&self) -> (copy: Self)
        ensures
            copy@ == self@,
    {
        ImportMatch {
            item: self.item.clone(),
            confidence: self.confidence,
            match_type: self.match_type,
        }
    }
}

/// The values of a sequence of matches, position by position.
pub open spec fn match_views(matches: Seq<ImportMatch>) -> Seq<ImportMatchView> {
    matches.map_values(|m: ImportMatch| m@)
}

/// Length in bytes of the UTF-8 form of `name`.
pub open spec fn byte_length(name: Seq<char>) -> usize {
    encode_utf8(name).len() as usize
}

/// The score that the name of an item gives for the name `search`, by the
/// first rule that applies, if one does:
///
/// 1. the name is `search`: 1, an exact match;
/// 2. the name begins with `search`: 8/10;
/// 3. the name ends with `search`: 7/10;
/// 4. the name is non-empty and within two edits of `search`: 6/10 of the
///    share of the name's `length` bytes that the edits leave.
pub open spec fn name_score(search: Seq<char>, name: Seq<char>, length: usize) -> Option<
    (Confidence, MatchType),
> {
    let distance = levenshtein(search, name);
    if search == name {
        Some((Confidence::Fixed { tenths: 10 }, MatchType::ExactName))
    } else if search.is_prefix_of(name) {
        Some((Confidence::Fixed { tenths: 8 }, MatchType::EditDistance { distance: 0 }))
    } else if search.is_suffix_of(name) {
        Some((Confidence::Fixed { tenths: 7 }, MatchType::EditDistance { distance: 0 }))
    } else if distance <= 2 && length > 0 {
        Some(
            (
                Confidence::Scaled { distance: distance as usize, length },
                MatchType::EditDistance { distance: distance as usize },
            ),
        )
    } else {
        None
    }
}

/// The score that the path of an item gives where its name gives none:
/// 4/10 if the path contains the search term, both in lower case, and 0
/// otherwise.
pub open spec fn path_score(lower_path: Seq<char>, lower_search: Seq<char>) -> (
    Confidence,
    MatchType,
) {
    if contains_run(lower_path, lower_search) {
        (Confidence::Fixed { tenths: 4 }, MatchType::TypeMatches)
    } else {
        (Confidence::Fixed { tenths: 0 }, MatchType::TypeMatches)
    }
}

/// The score of `item` for the name `search`: the score that its name
/// gives, and where that gives none, the score that its path gives.
pub open spec fn match_score(search: Seq<char>, item: ImportableItemView) -> (Confidence, MatchType) {
    match name_score(search, item.name, byte_length(item.name)) {
        Some(score) => score,
        None => path_score(lowercase(item.full_path), lowercase(search)),
    }
}

/// Scores a name of `length` bytes against the name `search`.
pub fn score_name(search: &Vec<char>, name: &Vec<char>, length: usize) -> (score: Option<
    (Confidence, MatchType),
>)
    ensures
        score == name_score(search@, name@, length),
        score matches Some(found) ==> found.0.wf(),
{
    if starts_with(name, search) {
        if search.len() == name.len() {
            assert(search@ =~= name@);
            return Some((Confidence::Fixed { tenths: 10 }, MatchType::ExactName));
        }
        return Some((Confidence::Fixed { tenths: 8 }, MatchType::EditDistance { distance: 0 }));
    }
    if ends_with(name, search) {
        return Some((Confidence::Fixed { tenths: 7 }, MatchType::EditDistance { distance: 0 }));
    }
    let distance = distance_between(search, name);
    if distance <= 2 && length > 0 {
        return Some(
            (Confidence::Scaled { distance, length }, MatchType::EditDistance { distance }),
        );
    }
    None
}

/// Scores a path against a search term, both in lower case.
pub fn score_path(lower_path: &Vec<char>, lower_search: &Vec<char>) -> (score: (
    Confidence,
    MatchType,
))
    ensures
        score == path_score(lower_path@, lower_search@),
        score.0.wf(),
{
    if contains(lower_path, lower_search) {
        (Confidence::Fixed { tenths: 4 }, MatchType::TypeMatches)
    } else {
        (Confidence::Fixed { tenths: 0 }, MatchType::TypeMatches)
    }
}

/// Scores `item` against the name `search`.
pub fn score_item(search: &str, item: &ImportableItem) -> (score: (Confidence, MatchType))
    ensures
        score == match_score(search@, item@),
        score.0.wf(),
{
    let term = code_points(search);
    let name = code_points(item.name.as_str());
    match score_name(&term, &name, item.name.as_str().len()) {
        Some(score) => score,
        None => {
            let path = to_lowercase(item.full_path.as_str());
            let wanted = to_lowercase(search);
            score_path(&code_points(path.as_str()), &code_points(wanted.as_str()))
        },
    }
}

} // verus!
