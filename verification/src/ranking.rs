//! The lines with the largest gaps before them.

use crate::annotate::AnnotatedLine;
use lazysort::Sorted;
use vstd::prelude::*;
use vstd::relations::{sorted_by, total_ordering};

verus! {

/// The key that a line is ranked by: its elapsed time, negated so that the
/// largest comes first, and then its number.
pub open spec fn rank_key(line: AnnotatedLine) -> (i64, usize) {
    ((-line.elapsed_millis) as i64, line.line_number)
}

/// The order of keys: by the first part, and by the second where the first
/// parts are equal. It is the order that std gives tuples.
pub open spec fn key_le(a: (i64, usize), b: (i64, usize)) -> bool {
    a.0 < b.0 || (a.0 == b.0 && a.1 <= b.1)
}

/// `a` ranks before `b`: the time before it is longer, or as long and it
/// comes earlier in the log.
pub open spec fn precedes(a: AnnotatedLine, b: AnnotatedLine) -> bool {
    a.elapsed_millis > b.elapsed_millis || (a.elapsed_millis == b.elapsed_millis && a.line_number
        < b.line_number)
}

/// Each line carries its own index as its number, and an elapsed time that
/// can be negated.
pub open spec fn numbered(lines: Seq<AnnotatedLine>) -> bool {
    forall|i: int|
        0 <= i < lines.len() ==> (#[trigger] lines[i]).line_number == i && lines[i].elapsed_millis
            > i64::MIN
}

/// Line `i` of the log is among `ranking`.
pub open spec fn ranked(ranking: Seq<AnnotatedLine>, i: int) -> bool {
    exists|j: int| 0 <= j < ranking.len() && (#[trigger] ranking[j]).line_number == i
}

/// `ranking` holds the `k` lines of `lines` that rank first, in their order
/// of rank, or all of them if there are fewer.
pub open spec fn is_ranking(ranking: Seq<AnnotatedLine>, lines: Seq<AnnotatedLine>, k: nat) -> bool {
    &&& ranking.len() == if k <= lines.len() {
        k
    } else {
        lines.len()
    }
    &&& forall|j: int|
        0 <= j < ranking.len() ==> 0 <= (#[trigger] ranking[j]).line_number < lines.len()
            && ranking[j] == lines[ranking[j].line_number as int]
    &&& forall|i: int, j: int|
        0 <= i < j < ranking.len() ==> precedes(#[trigger] ranking[i], #[trigger] ranking[j])
    &&& forall|i: int, j: int|
        0 <= i < lines.len() && !ranked(ranking, i) && 0 <= j < ranking.len() ==> precedes(
            #[trigger] ranking[j],
            #[trigger] lines[i],
        )
}

/// The order `key_le` as a relation.
pub open spec fn key_order() -> spec_fn((i64, usize), (i64, usize)) -> bool {
    |a: (i64, usize), b: (i64, usize)| key_le(a, b)
}

/// The first `k` of `keys` in ascending order, or all of them where there
/// are fewer.
pub open spec fn smallest(keys: Seq<(i64, usize)>, k: nat) -> Seq<(i64, usize)> {
    keys.sort_by(key_order()).take(
        if k <= keys.len() {
            k as int
        } else {
            keys.len() as int
        },
    )
}

/// Sorts by `Sorted::sorted` of the lazysort crate and takes the first `k`
/// of what its iterator yields. The crate yields the items in ascending
/// order, each once; for tuples of integers that is the order `key_le`, and
/// in that order only one arrangement of the items is sorted.
#[verifier::external_body]
fn smallest_sorted(keys: Vec<(i64, usize)>, k: usize) -> (smallest: Vec<(i64, usize)>)
    ensures
        smallest@ == self::smallest(keys@, k as nat),
{
    keys.into_iter().sorted().take(k).collect()
}

/// The keys of all lines, in the order of the lines.
pub open spec fn keys_of(lines: Seq<AnnotatedLine>) -> Seq<(i64, usize)> {
    Seq::new(lines.len(), |i: int| rank_key(lines[i]))
}

/// What the first `k` keys in sorted order are to the lines they stand for.
proof fn lemma_smallest_keys(lines: Seq<AnnotatedLine>, k: nat)
    requires
        numbered(lines),
    ensures
        ({
            let m: int = if k <= lines.len() {
                k as int
            } else {
                lines.len() as int
            };
            let top = smallest(keys_of(lines), k);
            &&& top.len() == m
            &&& forall|j: int|
                0 <= j < m ==> 0 <= (#[trigger] top[j]).1 < lines.len() && top[j] == rank_key(
                    lines[top[j].1 as int],
                )
            &&& forall|i: int, j: int|
                0 <= i < j < m ==> key_le(#[trigger] top[i], #[trigger] top[j]) && top[i] != top[j]
            &&& forall|i: int, j: int|
                0 <= i < lines.len() && 0 <= j < m && (forall|p: int|
                    0 <= p < m ==> (#[trigger] top[p]).1 != i) ==> key_le(
                    #[trigger] top[j],
                    #[trigger] keys_of(lines)[i],
                ) && top[j] != keys_of(lines)[i]
        }),
{
    let keys = keys_of(lines);
    let leq = key_order();
    let m: int = if k <= lines.len() {
        k as int
    } else {
        lines.len() as int
    };
    assert(total_ordering(leq));
    keys.lemma_sort_by_ensures(leq);
    let sorted = keys.sort_by(leq);
    let top = sorted.take(m);
    keys.to_multiset_ensures();
    sorted.to_multiset_ensures();
    assert(sorted.len() == keys.len());
    assert(keys.no_duplicates());
    keys.lemma_multiset_has_no_duplicates();
    sorted.lemma_multiset_has_no_duplicates_conv();
    assert forall|j: int| 0 <= j < m implies 0 <= (#[trigger] top[j]).1 < lines.len() && top[j]
        == rank_key(lines[top[j].1 as int]) by {
        assert(sorted.contains(sorted[j]));
        assert(keys.contains(sorted[j]));
        let i = choose|i: int| 0 <= i < keys.len() && keys[i] == sorted[j];
        assert(keys[i] == rank_key(lines[i]));
    }
    assert forall|i: int, j: int| 0 <= i < j < m implies key_le(
        #[trigger] top[i],
        #[trigger] top[j],
    ) && top[i] != top[j] by {
        assert(leq(sorted[i], sorted[j]));
    }
    assert forall|i: int, j: int|
        0 <= i < lines.len() && 0 <= j < m && (forall|p: int|
            0 <= p < m ==> (#[trigger] top[p]).1 != i) implies key_le(
        #[trigger] top[j],
        #[trigger] keys[i],
    ) && top[j] != keys[i] by {
        assert(keys.contains(keys[i]));
        assert(sorted.to_multiset().count(keys[i]) > 0);
        assert(sorted.contains(keys[i]));
        let p = choose|p: int| 0 <= p < sorted.len() && sorted[p] == keys[i];
        if p < m {
            assert(top[p].1 == i);
        }
        assert(leq(sorted[j], sorted[p]));
    }
}

/// The `k` lines with the longest times before them, longest first, and
/// among equal times the earlier line first.
pub fn rank<'a>(lines: &Vec<AnnotatedLine<'a>>, k: usize) -> (ranking: Vec<AnnotatedLine<'a>>)
    requires
        numbered(lines@),
    ensures
        is_ranking(ranking@, lines@, k as nat),
{
    let mut keys: Vec<(i64, usize)> = Vec::with_capacity(lines.len());
    for i in 0..lines.len()
        invariant
            numbered(lines@),
            keys.len() == i,
            forall|j: int| 0 <= j < i ==> #[trigger] keys@[j] == rank_key(lines@[j]),
    {
        keys.push((-lines[i].elapsed_millis, i));
    }
    assert(keys@ =~= keys_of(lines@));
    let top = smallest_sorted(keys, k);
    proof {
        lemma_smallest_keys(lines@, k as nat);
    }
    let mut ranking: Vec<AnnotatedLine<'a>> = Vec::with_capacity(top.len());
    for j in 0..top.len()
        invariant
            ranking.len() == j,
            forall|p: int|
                0 <= p < top.len() ==> 0 <= (#[trigger] top@[p]).1 < lines.len() && top@[p]
                    == rank_key(lines@[top@[p].1 as int]),
            forall|p: int| 0 <= p < j ==> #[trigger] ranking@[p] == lines@[top@[p].1 as int],
    {
        ranking.push(lines[top[j].1].duplicate());
    }
    proof {
        assert forall|j: int| 0 <= j < ranking.len() implies (#[trigger] ranking@[j]).line_number
            == top@[j].1 by {
            assert(ranking@[j] == lines@[top@[j].1 as int]);
        }
        assert forall|i: int, j: int|
            0 <= i < lines.len() && !ranked(ranking@, i) && 0 <= j < ranking.len() implies precedes(
            #[trigger] ranking@[j],
            #[trigger] lines@[i],
        ) by {
            assert forall|p: int| 0 <= p < top.len() implies (#[trigger] top@[p]).1 != i by {
                if top@[p].1 == i {
                    assert(ranking@[p].line_number == i);
                }
            }
            assert(key_le(top@[j], keys_of(lines@)[i]) && top@[j] != keys_of(lines@)[i]);
        }
    }
    ranking
}

} // verus!
