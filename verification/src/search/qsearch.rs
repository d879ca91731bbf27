//! Move classification and pruning in the quiescence search.
use vstd::prelude::*;
use crate::chess::{Move, Piece, move_kind, piece_index, KIND_EN_PASSANT};
use crate::search::tune::{
    scale_eval, EVAL_SCORE_SCALE, QSEARCH_CAPTURE_BASE, QSEARCH_DELTA_MARGIN, QSEARCH_PROMOTION_BASE,
};
use crate::search::types::{is_mate_score, is_mate_score_spec};

verus! {

/// Marks a static evaluation that was not computed.
pub const NO_STATIC_EVAL: i16 = -32768;

/// Values of pawn, knight, bishop, rook, queen and king used to order and prune captures.
pub open spec fn qsearch_piece_value(index: int) -> int {
    if index == 0 { 100 } else if index == 1 { 320 } else if index == 2 { 330 } else if index == 3 { 500 }
    else if index == 4 { 900 } else { 0 }
}

fn piece_value_at(index: usize) -> (v: i32)
    requires
        index < 6,
    ensures
        v == qsearch_piece_value(index as int),
{
    let values: [i32; 6] = [100, 320, 330, 500, 900, 0];
    values[index]
}

/// The kind code has its promotion bit set.
pub open spec fn is_promotion_kind(kind: int) -> bool {
    kind >= 8
}

/// The kind code has its capture bit set.
pub open spec fn is_capture_kind(kind: int) -> bool {
    (kind / 4) % 2 == 1
}

/// Captures, promotions and en-passant captures.
pub fn is_tactical_move(mv: Move) -> (r: bool)
    ensures
        r == (is_capture_kind(move_kind(mv)) || is_promotion_kind(move_kind(mv)) || move_kind(mv) == KIND_EN_PASSANT),
{
    let kind = mv.kind();
    (kind / 4) % 2 == 1 || kind >= 8 || kind == KIND_EN_PASSANT
}

/// Kind codes 0 to 4 and 8 to 15 are in use.
pub fn is_valid_encoded_move(mv: Move) -> (r: bool)
    ensures
        r == (move_kind(mv) <= 4 || move_kind(mv) >= 8),
{
    let kind = mv.kind();
    kind <= 4 || kind >= 8
}

/// Stores an evaluation that fits in 16 bits.
pub fn pack_static_eval(score: i32) -> (r: i16)
    requires
        i16::MIN <= score <= i16::MAX,
    ensures
        r == score,
{
    score as i16
}

/// The value of a captured piece in evaluation units.
pub fn delta_piece_value(piece: Piece) -> (r: i32)
    ensures
        r == qsearch_piece_value(piece_index(piece)) * EVAL_SCORE_SCALE,
{
    scale_eval(piece_value_at(piece.index()))
}

/// A capture is skipped when even winning `captured` plus a margin cannot
/// reach `alpha`; promotions and positions near mate are never skipped.
pub fn delta_prune_move(mv: Move, captured: Piece, static_eval: i32, alpha: i32) -> (r: bool)
    requires
        i32::MIN <= static_eval + (900 + QSEARCH_DELTA_MARGIN) * EVAL_SCORE_SCALE <= i32::MAX,
    ensures
        r == (!is_mate_score_spec(alpha as int) && !is_promotion_kind(move_kind(mv))
            && static_eval + qsearch_piece_value(piece_index(captured)) * EVAL_SCORE_SCALE
                + QSEARCH_DELTA_MARGIN * EVAL_SCORE_SCALE <= alpha),
{
    if is_mate_score(alpha) || mv.kind() >= 8 {
        return false;
    }
    static_eval + delta_piece_value(captured) + scale_eval(QSEARCH_DELTA_MARGIN) <= alpha
}

/// Ordering score of a quiescence move: promotions by the promoted piece,
/// captures by most valuable victim first, then least valuable attacker.
pub open spec fn qmove_score_spec(kind: int, attacker: Piece, captured: Piece) -> int {
    let promo = if kind >= 8 { QSEARCH_PROMOTION_BASE + qsearch_piece_value(kind % 4 + 1) } else { 0 };
    let capture = if is_capture_kind(kind) || kind == KIND_EN_PASSANT {
        QSEARCH_CAPTURE_BASE + qsearch_piece_value(piece_index(captured)) * 16 - qsearch_piece_value(piece_index(attacker))
    } else {
        0
    };
    promo + capture
}

/// Whether the ordering score of a quiescence move fits in 16 bits (a
/// promotion that also takes a piece of a knight's value or more does not).
pub fn qmove_score_fits(mv: Move, attacker: Piece, captured: Piece) -> (r: bool)
    ensures
        r == (i16::MIN <= qmove_score_spec(move_kind(mv), attacker, captured) <= i16::MAX),
{
    let score = qmove_score_wide(mv, attacker, captured);
    i16::MIN as i32 <= score && score <= i16::MAX as i32
}

fn qmove_score_wide(mv: Move, attacker: Piece, captured: Piece) -> (r: i32)
    ensures
        r == qmove_score_spec(move_kind(mv), attacker, captured),
{
    let kind = mv.kind();
    let mut score: i32 = 0;
    if kind >= 8 {
        score = score + QSEARCH_PROMOTION_BASE + piece_value_at((kind % 4) as usize + 1);
    }
    if (kind / 4) % 2 == 1 || kind == KIND_EN_PASSANT {
        score = score + QSEARCH_CAPTURE_BASE + piece_value_at(captured.index()) * 16 - piece_value_at(attacker.index());
    }
    score
}

/// Scores a quiescence move given the moving piece and the piece it takes.
pub fn score_qmove(mv: Move, attacker: Piece, captured: Piece) -> (r: i16)
    requires
        i16::MIN <= qmove_score_spec(move_kind(mv), attacker, captured) <= i16::MAX,
    ensures
        r == qmove_score_spec(move_kind(mv), attacker, captured),
{
    qmove_score_wide(mv, attacker, captured) as i16
}

} // verus!
