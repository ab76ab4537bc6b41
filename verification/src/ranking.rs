//! Ranking of scored matches: relevant candidates in ascending order of
//! confidence, candidates of equal confidence in the order in which they
//! were found.

use vstd::prelude::*;
use crate::catalog::{ImportableItem, ImportableItemView, item_views};
use crate::confidence::lemma_below_then_not_above;
use crate::name_resolution::{ImportMatch, ImportMatchView, match_score, match_views, score_item};
use crate::text::string_views;

verus! {

/// The match that scoring `item` against `search` gives.
pub open spec fn scored(search: Seq<char>, item: ImportableItemView) -> ImportMatchView {
    ImportMatchView {
        item,
        confidence: match_score(search, item).0,
        match_type: match_score(search, item).1,
    }
}

/// The relevant matches of one name among `items`, in the order of `items`.
pub open spec fn candidates_for(search: Seq<char>, items: Seq<ImportableItemView>) -> Seq<
    ImportMatchView,
>
    decreases items.len(),
{
    if items.len() == 0 {
        Seq::empty()
    } else {
        let earlier = candidates_for(search, items.drop_last());
        let found = scored(search, items.last());
        if found.confidence.relevant() {
            earlier.push(found)
        } else {
            earlier
        }
    }
}

/// The relevant matches of all `names` among `items`: name by name, and
/// within one name in the order of `items`.
pub open spec fn candidates(names: Seq<Seq<char>>, items: Seq<ImportableItemView>) -> Seq<
    ImportMatchView,
>
    decreases names.len(),
{
    if names.len() == 0 {
        Seq::empty()
    } else {
        candidates(names.drop_last(), items) + candidates_for(names.last(), items)
    }
}

/// Every candidate is relevant and has a well-formed score.
pub open spec fn all_relevant(found: Seq<ImportMatchView>) -> bool {
    forall|i: int|
        0 <= i < found.len() ==> (#[trigger] found[i]).confidence.relevant()
            && found[i].confidence.wf()
}

/// The candidate at position `p` is ranked before the one at position `q`:
/// its confidence is lower, or the same and it was found earlier.
pub open spec fn ranks_before(found: Seq<ImportMatchView>, p: int, q: int) -> bool {
    found[p].confidence.below(found[q].confidence) || (found[p].confidence.same_value(
        found[q].confidence,
    ) && p < q)
}

/// Position `p` occurs in `order`.
pub open spec fn lists(order: Seq<int>, p: int) -> bool {
    exists|i: int| 0 <= i < order.len() && order[i] == p
}

/// `order` lists the positions of `found`, each once, and each ranked
/// before all that follow it.
pub open spec fn is_ranking_order(order: Seq<int>, found: Seq<ImportMatchView>) -> bool {
    &&& order.len() == found.len()
    &&& forall|i: int| 0 <= i < order.len() ==> 0 <= #[trigger] order[i] < found.len()
    &&& forall|p: int| 0 <= p < found.len() ==> lists(order, p)
    &&& forall|i: int, j: int|
        0 <= i < j < order.len() ==> ranks_before(found, #[trigger] order[i], #[trigger] order[j])
}

/// Two ranking orders agree on their first `upto` places.
proof fn lemma_ranking_orders_agree(
    found: Seq<ImportMatchView>,
    first: Seq<int>,
    second: Seq<int>,
    upto: int,
)
    requires
        is_ranking_order(first, found),
        is_ranking_order(second, found),
        0 <= upto <= found.len(),
    ensures
        forall|i: int| 0 <= i < upto ==> first[i] == second[i],
    decreases upto,
{
    if upto > 0 {
        lemma_ranking_orders_agree(found, first, second, upto - 1);
        let i = upto - 1;
        let p = first[i];
        let q = second[i];
        assert(lists(second, p));
        assert(lists(first, q));
        let j = choose|j: int| 0 <= j < second.len() && second[j] == p;
        let k = choose|k: int| 0 <= k < first.len() && first[k] == q;
        // A position that stands earlier in one order stands at the same
        // place in the other, and nothing is ranked before itself.
        if j < i {
            assert(ranks_before(found, first[j], first[i]));
        }
        if k < i {
            assert(ranks_before(found, second[k], second[i]));
        }
        // Were both later, each would be ranked before the other.
        if j > i && k > i {
            assert(ranks_before(found, second[i], second[j]));
            assert(ranks_before(found, first[i], first[k]));
        }
    }
}

/// There is one ranking order only.
pub proof fn lemma_ranking_order_unique(
    found: Seq<ImportMatchView>,
    first: Seq<int>,
    second: Seq<int>,
)
    requires
        is_ranking_order(first, found),
        is_ranking_order(second, found),
    ensures
        first == second,
{
    lemma_ranking_orders_agree(found, first, second, found.len() as int);
    assert(first =~= second);
}

/// A sequence of candidates has one ranking only.
pub proof fn lemma_ranking_unique(
    found: Seq<ImportMatchView>,
    first: Seq<ImportMatchView>,
    second: Seq<ImportMatchView>,
)
    requires
        is_ranking_of(first, found),
        is_ranking_of(second, found),
    ensures
        first == second,
{
    let a = choose|order: Seq<int>| is_ranking_order(order, found) && first == arranged(found, order);
    let b = choose|order: Seq<int>|
        is_ranking_order(order, found) && second == arranged(found, order);
    lemma_ranking_order_unique(found, a, b);
}

/// The candidates of `found` in the order that `order` gives.
pub open spec fn arranged(found: Seq<ImportMatchView>, order: Seq<int>) -> Seq<ImportMatchView> {
    order.map_values(|p: int| found[p])
}

/// `ranking` holds the candidates of `found` in ascending order of
/// confidence, those of equal confidence in the order of `found`.
pub open spec fn is_ranking_of(ranking: Seq<ImportMatchView>, found: Seq<ImportMatchView>) -> bool {
    exists|order: Seq<int>| is_ranking_order(order, found) && ranking == arranged(found, order)
}

/// The first `limit` elements of `ranking`, or all of it if it has fewer.
pub open spec fn truncated(ranking: Seq<ImportMatchView>, limit: int) -> Seq<ImportMatchView> {
    if limit < ranking.len() {
        ranking.take(limit)
    } else {
        ranking
    }
}

/// `matches` holds the first `limit` candidates of the ranking of `found`,
/// or the whole ranking if it has fewer.
pub open spec fn is_top_of_ranking(
    matches: Seq<ImportMatchView>,
    found: Seq<ImportMatchView>,
    limit: int,
) -> bool {
    exists|ranking: Seq<ImportMatchView>|
        is_ranking_of(ranking, found) && matches == truncated(ranking, limit)
}

/// Puts `found` into `ranking` behind every match that it does not precede.
fn insert_ranked(
    ranking: &mut Vec<ImportMatch>,
    found: ImportMatch,
    Ghost(earlier): Ghost<Seq<ImportMatchView>>,
    Ghost(order): Ghost<Seq<int>>,
) -> (next: Ghost<Seq<int>>)
    requires
        is_ranking_order(order, earlier),
        match_views(old(ranking)@) == arranged(earlier, order),
        all_relevant(earlier),
        found.confidence.wf(),
    ensures
        is_ranking_order(next@, earlier.push(found@)),
        match_views(final(ranking)@) == arranged(earlier.push(found@), next@),
{
    let ghost value = found@;
    let ghost later = earlier.push(value);
    proof {
        assert(match_views(ranking@).len() == ranking@.len());
        assert(arranged(earlier, order).len() == order.len());
    }
    let mut at: usize = 0;
    while at < ranking.len() && !found.confidence.is_below(&ranking[at].confidence)
        invariant
            at <= ranking@.len(),
            ranking@ == old(ranking)@,
            ranking@.len() == order.len(),
            forall|i: int| 0 <= i < at ==> !found.confidence.below(#[trigger] ranking@[i].confidence),
        decreases ranking@.len() - at,
    {
        at += 1;
    }
    let ghost next = order.insert(at as int, earlier.len() as int);
    proof {
        assert forall|i: int| 0 <= i < ranking@.len() implies (#[trigger] ranking@[i])@
            == earlier[order[i]] by {
            assert(match_views(ranking@)[i] == ranking@[i]@);
            assert(arranged(earlier, order)[i] == earlier[order[i]]);
        }
        assert forall|p: int| 0 <= p < later.len() implies lists(next, p) by {
            if p == earlier.len() {
                assert(next[at as int] == p);
            } else {
                assert(lists(order, p));
                let i = choose|i: int| 0 <= i < order.len() && order[i] == p;
                let moved = if i < at { i } else { i + 1 };
                assert(next[moved] == p);
            }
        }
        assert forall|i: int, j: int| 0 <= i < j < next.len() implies ranks_before(
            later,
            #[trigger] next[i],
            #[trigger] next[j],
        ) by {
            if j == at {
                assert(next[i] == order[i]);
                assert(!found.confidence.below(ranking@[i].confidence));
            } else if i == at {
                assert(next[j] == order[j - 1]);
                let first = ranking@[at as int].confidence;
                let other = ranking@[j - 1].confidence;
                assert(found.confidence.below(first));
                if j - 1 > at {
                    assert(ranks_before(earlier, order[at as int], order[j - 1]));
                    lemma_below_then_not_above(found.confidence, first, other);
                }
            } else {
                let a = if i < at { i } else { i - 1 };
                let b = if j < at { j } else { j - 1 };
                assert(next[i] == order[a]);
                assert(next[j] == order[b]);
                assert(ranks_before(earlier, order[a], order[b]));
            }
        }
    }
    let ghost before = ranking@;
    ranking.insert(at, found);
    proof {
        assert(ranking@ == before.insert(at as int, found));
        assert forall|i: int| 0 <= i < ranking@.len() implies match_views(ranking@)[i]
            == arranged(later, next)[i] by {
            if i < at {
                assert(ranking@[i] == before[i]);
                assert(next[i] == order[i]);
            } else if i > at {
                assert(ranking@[i] == before[i - 1]);
                assert(next[i] == order[i - 1]);
            }
        }
        assert(match_views(ranking@) =~= arranged(later, next));
    }
    Ghost(next)
}

/// Ranks the relevant matches of `names` among `items` and keeps the first
/// `limit` of the ranking: those of lowest confidence.
pub fn rank_matches(names: &[String], items: &Vec<ImportableItem>, limit: usize) -> (matches: Vec<
    ImportMatch,
>)
    ensures
        is_top_of_ranking(
            match_views(matches@),
            candidates(string_views(names@), item_views(items@)),
            limit as int,
        ),
        matches@.len() <= limit,
        all_relevant(match_views(matches@)),
{
    let ghost wanted = string_views(names@);
    let ghost catalog = item_views(items@);
    let mut ranking: Vec<ImportMatch> = Vec::new();
    let ghost mut found: Seq<ImportMatchView> = Seq::empty();
    let ghost mut order: Seq<int> = Seq::empty();
    let mut n: usize = 0;
    proof {
        assert(match_views(ranking@) =~= arranged(found, order));
    }
    while n < names.len()
        invariant
            n <= names@.len(),
            wanted == string_views(names@),
            catalog == item_views(items@),
            found == candidates(wanted.take(n as int), catalog),
            all_relevant(found),
            is_ranking_order(order, found),
            match_views(ranking@) == arranged(found, order),
        decreases names@.len() - n,
    {
        let ghost before = found;
        let mut k: usize = 0;
        while k < items.len()
            invariant
                k <= items@.len(),
                n < names@.len(),
                wanted == string_views(names@),
                catalog == item_views(items@),
                found == before + candidates_for(wanted[n as int], catalog.take(k as int)),
                all_relevant(found),
                is_ranking_order(order, found),
                match_views(ranking@) == arranged(found, order),
            decreases items@.len() - k,
        {
            let (confidence, match_type) = score_item(names[n].as_str(), &items[k]);
            proof {
                assert(catalog.take(k + 1).drop_last() =~= catalog.take(k as int));
                assert(catalog.take(k + 1).last() == items@[k as int]@);
            }
            if confidence.is_relevant() {
                let candidate = ImportMatch { item: items[k].clone(), confidence, match_type };
                let ghost value = candidate@;
                let next = insert_ranked(&mut ranking, candidate, Ghost(found), Ghost(order));
                proof {
                    order = next@;
                    found = found.push(value);
                    assert(found =~= before + candidates_for(
                        wanted[n as int],
                        catalog.take(k + 1),
                    ));
                }
            }
            k += 1;
        }
        proof {
            assert(catalog.take(items@.len() as int) =~= catalog);
            assert(wanted.take(n + 1).drop_last() =~= wanted.take(n as int));
            assert(wanted.take(n + 1).last() == wanted[n as int]);
        }
        n += 1;
    }
    proof {
        assert(wanted.take(names@.len() as int) =~= wanted);
    }
    let ghost whole = match_views(ranking@);
    ranking.truncate(limit);
    proof {
        assert(match_views(ranking@) =~= truncated(whole, limit as int));
        assert(is_ranking_of(whole, found));
        assert forall|i: int| 0 <= i < ranking@.len() implies (#[trigger] match_views(
            ranking@,
        )[i]).confidence.relevant() && match_views(ranking@)[i].confidence.wf() by {
            assert(match_views(ranking@)[i] == whole[i]);
            assert(whole[i] == found[order[i]]);
        }
    }
    ranking
}

} // verus!
