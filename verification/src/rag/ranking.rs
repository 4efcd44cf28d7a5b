//! Ranking records by score: the best first, earlier records first among
//! equals.

use vstd::prelude::*;

verus! {

/// The score of record `i`: the one listed for it, and 0 for a record that
/// `scores` does not reach.
pub open spec fn score_at(scores: Seq<i32>, i: int) -> int {
    if 0 <= i < scores.len() {
        scores[i] as int
    } else {
        0
    }
}

/// Whether record `i` comes before record `j`: it has the greater score,
/// or the same score and the earlier place.
pub open spec fn outranks(scores: Seq<i32>, i: int, j: int) -> bool {
    score_at(scores, i) > score_at(scores, j) || (score_at(scores, i) == score_at(scores, j) && i
        < j)
}

/// Whether `order` lists the best `limit` of the records `0..count`, best
/// first: as many as there are if fewer than `limit`, each before every
/// record it outranks, and no record left out that outranks a listed one.
pub open spec fn is_ranking(scores: Seq<i32>, count: nat, limit: nat, order: Seq<usize>) -> bool {
    &&& order.len() == if limit <= count {
        limit
    } else {
        count
    }
    &&& forall|a: int| 0 <= a < order.len() ==> (#[trigger] order[a]) < count
    &&& forall|a: int, b: int|
        0 <= a < b < order.len() ==> outranks(scores, #[trigger] order[a] as int, #[trigger] order[b] as int)
    &&& forall|j: usize, a: int|
        j < count && 0 <= a < order.len() && !order.contains(j) ==> #[trigger] outranks(
            scores,
            order[a] as int,
            j as int,
        )
}

/// Of two different records, one outranks the other, never both.
pub proof fn lemma_outranks_total(scores: Seq<i32>, i: int, j: int)
    ensures
        !outranks(scores, i, i),
        i != j ==> (outranks(scores, i, j) <==> !outranks(scores, j, i)),
{
}

/// A ranking lists its records by score, never rising, and records of
/// equal score in the order of their places.
pub proof fn lemma_ranking_sorted(scores: Seq<i32>, count: nat, limit: nat, order: Seq<usize>)
    requires
        is_ranking(scores, count, limit, order),
    ensures
        forall|a: int, b: int|
            0 <= a < b < order.len() ==> score_at(scores, #[trigger] order[a] as int) >= score_at(
                scores,
                #[trigger] order[b] as int,
            ),
        forall|a: int, b: int|
            0 <= a < b < order.len() && score_at(scores, #[trigger] order[a] as int) == score_at(
                scores,
                #[trigger] order[b] as int,
            ) ==> order[a] < order[b],
{
    assert forall|a: int, b: int| 0 <= a < b < order.len() implies score_at(
        scores,
        #[trigger] order[a] as int,
    ) >= score_at(scores, #[trigger] order[b] as int) by {
        assert(outranks(scores, order[a] as int, order[b] as int));
    }
    assert forall|a: int, b: int|
        0 <= a < b < order.len() && score_at(scores, #[trigger] order[a] as int) == score_at(
            scores,
            #[trigger] order[b] as int,
        ) implies order[a] < order[b] by {
        assert(outranks(scores, order[a] as int, order[b] as int));
    }
}

/// Two rankings of the same records agree up to place `upto`.
proof fn lemma_rankings_agree(
    scores: Seq<i32>,
    count: nat,
    limit: nat,
    first: Seq<usize>,
    second: Seq<usize>,
    upto: int,
)
    requires
        is_ranking(scores, count, limit, first),
        is_ranking(scores, count, limit, second),
        0 <= upto <= first.len(),
    ensures
        forall|p: int| 0 <= p < upto ==> first[p] == second[p],
    decreases upto,
{
    if upto > 0 {
        lemma_rankings_agree(scores, count, limit, first, second, upto - 1);
        let p = upto - 1;
        let x = first[p];
        let y = second[p];
        if x != y {
            assert(outranks(scores, y as int, x as int)) by {
                if second.contains(x) {
                    let b = choose|b: int| 0 <= b < second.len() && second[b] == x;
                    if b < p {
                        assert(first[b] == x);
                        assert(outranks(scores, first[b] as int, first[p] as int));
                    } else {
                        assert(outranks(scores, second[p] as int, second[b] as int));
                    }
                }
            }
            assert(outranks(scores, x as int, y as int)) by {
                if first.contains(y) {
                    let b = choose|b: int| 0 <= b < first.len() && first[b] == y;
                    if b < p {
                        assert(second[b] == y);
                        assert(outranks(scores, second[b] as int, second[p] as int));
                    } else {
                        assert(outranks(scores, first[p] as int, first[b] as int));
                    }
                }
            }
        }
    }
}

/// The ranking of a list of scores is unique: `is_ranking` holds of one
/// order only.
pub proof fn lemma_ranking_unique(
    scores: Seq<i32>,
    count: nat,
    limit: nat,
    first: Seq<usize>,
    second: Seq<usize>,
)
    requires
        is_ranking(scores, count, limit, first),
        is_ranking(scores, count, limit, second),
    ensures
        first == second,
{
    lemma_rankings_agree(scores, count, limit, first, second, first.len() as int);
    assert(first =~= second);
}

/// The score of record `i`, 0 where `scores` does not reach it.
fn score_of(scores: &Vec<i32>, i: usize) -> (score: i32)
    ensures
        score == score_at(scores@, i as int),
{
    if i < scores.len() {
        scores[i]
    } else {
        0
    }
}

/// The places of the best `limit` records among `0..count`, best first.
pub fn rank(scores: &Vec<i32>, count: usize, limit: usize) -> (order: Vec<usize>)
    ensures
        is_ranking(scores@, count as nat, limit as nat, order@),
{
    let mut order: Vec<usize> = Vec::new();
    let mut i: usize = 0;
    while i < count
        invariant
            i <= count,
            order@.len() == if limit <= i {
                limit
            } else {
                i
            },
            forall|a: int| 0 <= a < order@.len() ==> (#[trigger] order@[a]) < i,
            forall|a: int, b: int|
                0 <= a < b < order@.len() ==> outranks(
                    scores@,
                    #[trigger] order@[a] as int,
                    #[trigger] order@[b] as int,
                ),
            forall|j: usize|
                j < i ==> #[trigger] order@.contains(j) || (order@.len() == limit && forall|a: int|
                    0 <= a < order@.len() ==> outranks(
                        scores@,
                        #[trigger] order@[a] as int,
                        j as int,
                    )),
        decreases count - i,
    {
        let score = score_of(scores, i);
        let mut at: usize = order.len();
        while at > 0 && score_of(scores, order[at - 1]) < score
            invariant
                at <= order@.len(),
                score == score_at(scores@, i as int),
                forall|a: int|
                    at <= a < order@.len() ==> score_at(scores@, #[trigger] order@[a] as int)
                        < score,
            decreases at,
        {
            at = at - 1;
        }
        let ghost before = order@;
        proof {
            assert forall|a: int| 0 <= a < at implies outranks(
                scores@,
                #[trigger] before[a] as int,
                i as int,
            ) by {
                if a < at - 1 {
                    assert(outranks(scores@, before[a] as int, before[at - 1] as int));
                }
            }
            assert forall|a: int| at <= a < before.len() implies outranks(
                scores@,
                i as int,
                #[trigger] before[a] as int,
            ) by {}
        }
        if at < limit {
            order.insert(at, i);
            let ghost grown = order@;
            proof {
                assert forall|j: usize| before.contains(j) implies #[trigger] grown.contains(
                    j,
                ) by {
                    let a = choose|a: int| 0 <= a < before.len() && before[a] == j;
                    if a < at {
                        assert(grown[a] == j);
                    } else {
                        assert(grown[a + 1] == j);
                    }
                }
                assert(grown[at as int] == i);
                assert(grown.contains(i));
            }
            if order.len() > limit {
                let dropped = order.pop();
                proof {
                    let last = grown.len() - 1;
                    assert(order@ =~= grown.take(last));
                    assert(dropped == Some(grown[last]));
                    assert forall|j: usize| j < i + 1 implies #[trigger] order@.contains(j) || (
                    order@.len() == limit && forall|a: int|
                        0 <= a < order@.len() ==> outranks(
                            scores@,
                            #[trigger] order@[a] as int,
                            j as int,
                        )) by {
                        if grown.contains(j) {
                            let a = choose|a: int| 0 <= a < grown.len() && grown[a] == j;
                            if a < last {
                                assert(order@[a] == j);
                            } else {
                                assert forall|b: int| 0 <= b < order@.len() implies outranks(
                                    scores@,
                                    #[trigger] order@[b] as int,
                                    j as int,
                                ) by {
                                    assert(outranks(scores@, grown[b] as int, grown[last] as int));
                                }
                            }
                        } else {
                            assert(!before.contains(j));
                            assert forall|b: int| 0 <= b < order@.len() implies outranks(
                                scores@,
                                #[trigger] order@[b] as int,
                                j as int,
                            ) by {
                                if b < at {
                                    assert(order@[b] == before[b]);
                                } else if b == at {
                                    assert(outranks(scores@, i as int, before[at as int] as int));
                                    assert(outranks(scores@, before[at as int] as int, j as int));
                                } else {
                                    assert(order@[b] == before[b - 1]);
                                }
                            }
                        }
                    }
                }
            } else {
                proof {
                    assert forall|j: usize| j < i + 1 implies #[trigger] order@.contains(j) || (
                    order@.len() == limit && forall|a: int|
                        0 <= a < order@.len() ==> outranks(
                            scores@,
                            #[trigger] order@[a] as int,
                            j as int,
                        )) by {
                        if j < i {
                            assert(before.contains(j));
                        }
                    }
                }
            }
        } else {
            proof {
                assert(before.len() == limit);
                assert forall|j: usize| j < i + 1 implies #[trigger] order@.contains(j) || (
                order@.len() == limit && forall|a: int|
                    0 <= a < order@.len() ==> outranks(
                        scores@,
                        #[trigger] order@[a] as int,
                        j as int,
                    )) by {}
            }
        }
        i = i + 1;
    }
    order
}

} // verus!
