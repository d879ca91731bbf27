//! Score encoding for mate distances.
use vstd::prelude::*;
use crate::arith::tdiv;

verus! {

/// The score of a mate delivered at the root.
pub const MATE_SCORE: i32 = 30_000;

/// Score of being mated (from the winner's side) `ply` plies from the root.
pub open spec fn mate_score_spec(ply: u8) -> int {
    MATE_SCORE - ply
}

/// A score is a mate score when it lies within 255 plies of either mate bound.
pub open spec fn is_mate_score_spec(score: int) -> bool {
    score >= MATE_SCORE - 255 || score <= -MATE_SCORE + 255
}

/// Number of moves to mate (positive: the side to move mates; negative: it gets mated).
pub open spec fn mate_in_spec(score: int) -> Option<int> {
    if !is_mate_score_spec(score) {
        None
    } else {
        let abs = if score >= 0 { score } else { -score };
        let moves = tdiv(MATE_SCORE - abs + 1, 2);
        Some(if score > 0 { moves } else { -moves })
    }
}

/// Score for a mate found `ply` plies from the root.
pub fn mate_score(ply: u8) -> (r: i32)
    ensures
        r == mate_score_spec(ply),
{
    MATE_SCORE - ply as i32
}

/// Whether `score` encodes a forced mate.
pub fn is_mate_score(score: i32) -> (r: bool)
    ensures
        r == is_mate_score_spec(score as int),
{
    score >= MATE_SCORE - 255 || score <= -MATE_SCORE + 255
}

/// Converts a mate score into a signed move count, `None` for ordinary scores.
pub fn mate_in(score: i32) -> (r: Option<i32>)
    requires
        score != i32::MIN,
    ensures
        r matches Some(m) ==> mate_in_spec(score as int) == Some(m as int),
        r is None <==> mate_in_spec(score as int) is None,
{
    if !is_mate_score(score) {
        return None;
    }
    let abs: i32 = if score >= 0 { score } else { -score };
    let plies: i32 = MATE_SCORE - abs;
    let moves: i32 = (plies + 1) / 2;
    Some(if score > 0 { moves } else { -moves })
}

/// A mate found `ply` plies from the root is reported as mate in
/// `(ply + 1) / 2` moves: positive for the side that mates, negative for the
/// side that is mated.
pub proof fn lemma_mate_in_of_mate_score(ply: u8)
    ensures
        is_mate_score_spec(mate_score_spec(ply)),
        mate_in_spec(mate_score_spec(ply)) == Some((ply + 1) / 2),
        mate_in_spec(-mate_score_spec(ply)) == Some(-((ply + 1) / 2)),
{
    assert(tdiv(ply + 1, 2) == (ply + 1) / 2);
}

} // verus!
