use vstd::prelude::*;

use crate::evaluator::HandVal;

verus! {

/// The highest score value in a sequence (zero for an empty one; scores are
/// never negative).
pub open spec fn max_score(scores: Seq<HandVal>) -> int
    decreases scores.len(),
{
    if scores.len() == 0 {
        0
    } else {
        let m = max_score(scores.drop_last());
        if scores.last().0 > m {
            scores.last().0 as int
        } else {
            m
        }
    }
}

/// A non-empty sequence attains its maximum somewhere.
pub proof fn lemma_max_score_attained(scores: Seq<HandVal>) -> (i: int)
    requires
        scores.len() >= 1,
    ensures
        0 <= i < scores.len(),
        scores[i].0 == max_score(scores),
    decreases scores.len(),
{
    if scores.len() == 1 {
        assert(max_score(scores.drop_last()) == 0);
        0
    } else {
        if scores.last().0 > max_score(scores.drop_last()) {
            scores.len() - 1
        } else {
            lemma_max_score_attained(scores.drop_last())
        }
    }
}

/// How many of the first `upto` scores equal `m`.
pub open spec fn win_count(scores: Seq<HandVal>, m: int, upto: int) -> int
    decreases upto,
{
    if upto <= 0 {
        0
    } else {
        win_count(scores, m, upto - 1) + if scores[upto - 1].0 == m {
            1int
        } else {
            0int
        }
    }
}

pub proof fn lemma_win_count_bounds(scores: Seq<HandVal>, m: int, upto: int)
    requires
        upto >= 0,
    ensures
        0 <= win_count(scores, m, upto) <= upto,
    decreases upto,
{
    if upto > 0 {
        lemma_win_count_bounds(scores, m, upto - 1);
    }
}

/// Every index that holds `m` before the cut has been counted: the count up
/// to any later cut is positive.
pub proof fn lemma_win_count_pos(scores: Seq<HandVal>, m: int, i: int, upto: int)
    requires
        0 <= i < upto,
        scores[i].0 == m,
    ensures
        win_count(scores, m, upto) >= 1,
    decreases upto,
{
    if i < upto - 1 {
        lemma_win_count_pos(scores, m, i, upto - 1);
        lemma_win_count_bounds(scores, m, upto - 1);
    } else {
        lemma_win_count_bounds(scores, m, upto - 1);
    }
}

} // verus!
