//! Levenshtein edit distance on code-point sequences.

use vstd::prelude::*;
use crate::text::code_points;

verus! {

/// The least of three numbers.
pub open spec fn min3(x: nat, y: nat, z: nat) -> nat {
    if x <= y && x <= z {
        x
    } else if y <= z {
        y
    } else {
        z
    }
}

/// The Levenshtein distance between `a` and `b`: the least number of
/// single-element insertions, deletions and substitutions that turn `a`
/// into `b`, each at cost one.
pub open spec fn levenshtein(a: Seq<char>, b: Seq<char>) -> nat
    decreases a.len() + b.len(),
{
    if a.len() == 0 {
        b.len()
    } else if b.len() == 0 {
        a.len()
    } else {
        let substitution: nat = if a.last() == b.last() { 0 } else { 1 };
        min3(
            levenshtein(a.drop_last(), b) + 1,
            levenshtein(a, b.drop_last()) + 1,
            levenshtein(a.drop_last(), b.drop_last()) + substitution,
        )
    }
}

/// Dropping the last element of the first sequence costs at most one edit.
pub proof fn lemma_delete_last(a: Seq<char>, b: Seq<char>)
    requires
        a.len() > 0,
    ensures
        levenshtein(a, b) <= levenshtein(a.drop_last(), b) + 1,
{
}

/// Dropping the last element of the second sequence costs at most one edit.
pub proof fn lemma_insert_last(a: Seq<char>, b: Seq<char>)
    requires
        b.len() > 0,
    ensures
        levenshtein(a, b) <= levenshtein(a, b.drop_last()) + 1,
{
}

/// The distance shrinks by at most one when the second sequence loses its
/// last element.
pub proof fn lemma_shorter_second(a: Seq<char>, b: Seq<char>)
    requires
        b.len() > 0,
    ensures
        levenshtein(a, b.drop_last()) <= levenshtein(a, b) + 1,
    decreases a.len() + b.len(),
{
    if a.len() > 0 {
        lemma_shorter_second(a.drop_last(), b);
        lemma_delete_last(a, b.drop_last());
    }
}

/// The distance shrinks by at most one when the first sequence loses its
/// last element.
pub proof fn lemma_shorter_first(a: Seq<char>, b: Seq<char>)
    requires
        a.len() > 0,
    ensures
        levenshtein(a.drop_last(), b) <= levenshtein(a, b) + 1,
    decreases a.len() + b.len(),
{
    if b.len() > 0 {
        lemma_shorter_first(a, b.drop_last());
        lemma_insert_last(a.drop_last(), b);
    }
}

/// Two sequences that end in the same element are as far apart as they are
/// without it.
pub proof fn lemma_equal_last(a: Seq<char>, b: Seq<char>)
    requires
        a.len() > 0,
        b.len() > 0,
        a.last() == b.last(),
    ensures
        levenshtein(a, b) == levenshtein(a.drop_last(), b.drop_last()),
{
    lemma_shorter_second(a.drop_last(), b);
    lemma_shorter_first(a, b.drop_last());
}

/// The distance never exceeds the longer of the two lengths.
pub proof fn lemma_distance_bound(a: Seq<char>, b: Seq<char>)
    ensures
        levenshtein(a, b) <= a.len() || levenshtein(a, b) <= b.len(),
        levenshtein(a, b) <= a.len() + b.len(),
    decreases a.len() + b.len(),
{
    if a.len() > 0 && b.len() > 0 {
        lemma_distance_bound(a.drop_last(), b.drop_last());
    }
}

/// The distance between the first `i` elements of `a` and the first `j`
/// elements of `b`.
pub open spec fn prefix_distance(a: Seq<char>, b: Seq<char>, i: int, j: int) -> nat {
    levenshtein(a.take(i), b.take(j))
}

proof fn lemma_prefix_step(a: Seq<char>, b: Seq<char>, i: int, j: int)
    requires
        0 < i <= a.len(),
        0 < j <= b.len(),
    ensures
        a[i - 1] == b[j - 1] ==> prefix_distance(a, b, i, j) == prefix_distance(a, b, i - 1, j - 1),
        a[i - 1] != b[j - 1] ==> prefix_distance(a, b, i, j) == 1 + min3(
            prefix_distance(a, b, i - 1, j),
            prefix_distance(a, b, i, j - 1),
            prefix_distance(a, b, i - 1, j - 1),
        ),
        prefix_distance(a, b, i, j) <= i || prefix_distance(a, b, i, j) <= j,
{
    let x = a.take(i);
    let y = b.take(j);
    assert(x.drop_last() =~= a.take(i - 1));
    assert(y.drop_last() =~= b.take(j - 1));
    assert(x.last() == a[i - 1]);
    assert(y.last() == b[j - 1]);
    if a[i - 1] == b[j - 1] {
        lemma_equal_last(x, y);
    }
    lemma_distance_bound(x, y);
}

/// Computes the Levenshtein distance between the code points of `a` and
/// those of `b`.
pub fn edit_distance(a: &str, b: &str) -> (distance: usize)
    ensures
        distance == levenshtein(a@, b@),
{
    let a = code_points(a);
    let b = code_points(b);
    distance_between(&a, &b)
}

/// Computes the Levenshtein distance between `a` and `b` by dynamic
/// programming over one row of the distance table at a time.
pub fn distance_between(a: &Vec<char>, b: &Vec<char>) -> (distance: usize)
    ensures
        distance == levenshtein(a@, b@),
{
    let m = a.len();
    let n = b.len();
    if m == 0 {
        return n;
    }
    if n == 0 {
        return m;
    }
    // `row[k]` is the distance between the first `i` code points of `a` and
    // the first `k + 1` of `b`.
    let mut row: Vec<usize> = Vec::new();
    let mut k: usize = 0;
    while k < n
        invariant
            k <= n,
            n == b@.len(),
            row@.len() == k,
            forall|t: int| 0 <= t < k ==> row@[t] == prefix_distance(a@, b@, 0, t + 1),
        decreases n - k,
    {
        assert(a@.take(0).len() == 0);
        row.push(k + 1);
        k += 1;
    }
    let mut i: usize = 0;
    while i < m
        invariant
            i <= m,
            m == a@.len(),
            n == b@.len(),
            n > 0,
            row@.len() == n,
            forall|t: int| 0 <= t < n ==> row@[t] == prefix_distance(a@, b@, i as int, t + 1),
        decreases m - i,
    {
        let mut next: Vec<usize> = Vec::new();
        let mut k: usize = 0;
        while k < n
            invariant
                k <= n,
                i < m,
                m == a@.len(),
                n == b@.len(),
                row@.len() == n,
                next@.len() == k,
                forall|t: int| 0 <= t < n ==> row@[t] == prefix_distance(a@, b@, i as int, t + 1),
                forall|t: int| 0 <= t < k ==> next@[t] == prefix_distance(a@, b@, i + 1, t + 1),
            decreases n - k,
        {
            let diagonal: usize = if k == 0 { i } else { row[k - 1] };
            let left: usize = if k == 0 { i + 1 } else { next[k - 1] };
            let up: usize = row[k];
            proof {
                assert(b@.take(0).len() == 0);
                assert(a@.take(i as int).len() == i);
                assert(a@.take(i + 1).len() == i + 1);
                lemma_prefix_step(a@, b@, i + 1, k + 1);
            }
            let value: usize = if a[i] == b[k] {
                diagonal
            } else {
                let least: usize = if up <= left && up <= diagonal {
                    up
                } else if left <= diagonal {
                    left
                } else {
                    diagonal
                };
                1 + least
            };
            next.push(value);
            k += 1;
        }
        row = next;
        i += 1;
    }
    proof {
        assert(a@.take(m as int) =~= a@);
        assert(b@.take(n as int) =~= b@);
    }
    row[n - 1]
}

} // verus!
