//! Pruning and reduction decisions of the main search.
use vstd::prelude::*;
use crate::chess::{Move, move_kind, KIND_QUIET, KIND_DOUBLE_PUSH, KIND_CASTLE};
use crate::search::tune::{
    FUTILITY_MARGIN_1, FUTILITY_MARGIN_2, FUTILITY_MARGIN_3, FUTILITY_MARGIN_4, FUTILITY_MARGIN_5,
    FUTILITY_MARGIN_6, FUTILITY_MARGIN_7, FUTILITY_MAX_DEPTH, IIR_CUT_MIN_DEPTH, IIR_PV_MIN_DEPTH,
    LATE_QUIET_PRUNE_MAX_DEPTH, LATE_QUIET_PRUNE_MIN_DEPTH, LATE_QUIET_PRUNE_MOVE_MULT,
    LATE_QUIET_PRUNE_MOVE_OFFSET, LMR_FULL_DEPTH_MOVES, LMR_HISTORY_BAD, LMR_HISTORY_GOOD,
    LMR_MIN_DEPTH, NULL_MOVE_MIN_DEPTH, PROBCUT_MARGIN, PROBCUT_MIN_DEPTH, PROBCUT_REDUCTION,
    RAZOR_MARGIN_1, RAZOR_MARGIN_2, RAZOR_MARGIN_3, RAZOR_MAX_DEPTH, RFP_MARGIN_1, RFP_MARGIN_2,
    RFP_MARGIN_3, RFP_MARGIN_4, RFP_MARGIN_5, RFP_MARGIN_6, RFP_MARGIN_7, RFP_MAX_DEPTH,
};
use crate::search::types::{is_mate_score, is_mate_score_spec};

verus! {

/// Where a node sits in the tree: its ply, whether it is on the principal
/// variation, and whether it is searched with a null window.
#[derive(Clone, Copy)]
pub struct NodeState {
    pub ply: u8,
    pub pv_node: bool,
    pub cut_node: bool,
}

impl NodeState {
    pub fn new(ply: u8, pv_node: bool, alpha: i32, beta: i32) -> (r: Self)
        requires
            alpha < i32::MAX,
        ensures
            r.ply == ply && r.pv_node == pv_node && r.cut_node == (beta == alpha + 1),
    {
        NodeState { ply, pv_node, cut_node: beta == alpha + 1 }
    }

    /// The state of a child one ply deeper.
    pub fn child(self, pv_node: bool, alpha: i32, beta: i32) -> (r: Self)
        requires
            self.ply < 255,
            alpha < i32::MAX,
        ensures
            r.ply == self.ply + 1 && r.pv_node == pv_node && r.cut_node == (beta == alpha + 1),
    {
        Self::new(self.ply + 1, pv_node, alpha, beta)
    }
}

/// Whether the side to move has a piece other than pawns and its king.
pub fn has_non_pawn_material(side_bb: u64, pawn_bb: u64, king_bb: u64) -> (r: bool)
    ensures
        r == (side_bb & !(pawn_bb | king_bb) != 0),
{
    side_bb & !(pawn_bb | king_bb) != 0
}

/// Selective pruning is allowed at null-window nodes out of check, away from
/// mate scores, when the side to move has non-pawn material.
pub fn can_use_selective_pruning(node: NodeState, alpha: i32, beta: i32, in_check: bool, non_pawn_material: bool) -> (r: bool)
    ensures
        r == (node.cut_node && !in_check && !is_mate_score_spec(alpha as int) && !is_mate_score_spec(beta as int) && non_pawn_material),
{
    node.cut_node && !in_check && !is_mate_score(alpha) && !is_mate_score(beta) && non_pawn_material
}

pub fn needs_static_eval(depth: u8, can_selectively_prune: bool) -> (r: bool)
    ensures
        r == (can_selectively_prune && (depth >= NULL_MOVE_MIN_DEPTH || depth <= FUTILITY_MAX_DEPTH
            || depth <= RFP_MAX_DEPTH || depth <= RAZOR_MAX_DEPTH)),
{
    can_selectively_prune && (depth >= NULL_MOVE_MIN_DEPTH || depth <= FUTILITY_MAX_DEPTH
        || depth <= RFP_MAX_DEPTH || depth <= RAZOR_MAX_DEPTH)
}

pub open spec fn razor_margin_spec(depth: u8) -> i32 {
    if depth == 1 { RAZOR_MARGIN_1 } else if depth == 2 { RAZOR_MARGIN_2 } else { RAZOR_MARGIN_3 }
}

pub fn razor_margin(depth: u8) -> (r: i32)
    ensures
        r == razor_margin_spec(depth),
{
    match depth {
        1 => RAZOR_MARGIN_1,
        2 => RAZOR_MARGIN_2,
        _ => RAZOR_MARGIN_3,
    }
}

pub fn should_try_razoring(depth: u8, static_eval: i32, alpha: i32, can_selectively_prune: bool) -> (r: bool)
    requires
        static_eval + RAZOR_MARGIN_3 <= i32::MAX,
    ensures
        r == (can_selectively_prune && depth <= RAZOR_MAX_DEPTH && static_eval + razor_margin_spec(depth) < alpha),
{
    can_selectively_prune && depth <= RAZOR_MAX_DEPTH && static_eval + razor_margin(depth) < alpha
}

pub open spec fn rfp_margin_spec(depth: u8) -> i32 {
    if depth == 1 { RFP_MARGIN_1 } else if depth == 2 { RFP_MARGIN_2 } else if depth == 3 { RFP_MARGIN_3 }
    else if depth == 4 { RFP_MARGIN_4 } else if depth == 5 { RFP_MARGIN_5 } else if depth == 6 { RFP_MARGIN_6 }
    else { RFP_MARGIN_7 }
}

pub fn rfp_margin(depth: u8) -> (r: i32)
    ensures
        r == rfp_margin_spec(depth),
{
    match depth {
        1 => RFP_MARGIN_1,
        2 => RFP_MARGIN_2,
        3 => RFP_MARGIN_3,
        4 => RFP_MARGIN_4,
        5 => RFP_MARGIN_5,
        6 => RFP_MARGIN_6,
        _ => RFP_MARGIN_7,
    }
}

pub fn should_prune_reverse_futility(depth: u8, static_eval: i32, beta: i32, can_selectively_prune: bool) -> (r: bool)
    requires
        static_eval - RFP_MARGIN_7 >= i32::MIN,
    ensures
        r == (can_selectively_prune && depth <= RFP_MAX_DEPTH && static_eval - rfp_margin_spec(depth) >= beta),
{
    can_selectively_prune && depth <= RFP_MAX_DEPTH && static_eval - rfp_margin(depth) >= beta
}

pub fn should_try_null_move(depth: u8, static_eval: i32, beta: i32, can_selectively_prune: bool) -> (r: bool)
    ensures
        r == (can_selectively_prune && depth >= NULL_MOVE_MIN_DEPTH && static_eval >= beta),
{
    can_selectively_prune && depth >= NULL_MOVE_MIN_DEPTH && static_eval >= beta
}

/// Internal iterative reduction applies when no hash move is known at deep enough PV or cut nodes.
pub fn should_apply_iir(depth: u8, node: NodeState, tt_move: Move) -> (r: bool)
    ensures
        r == (tt_move.bits == 0 && ((node.pv_node && depth >= IIR_PV_MIN_DEPTH) || (node.cut_node && depth >= IIR_CUT_MIN_DEPTH))),
{
    tt_move.bits == 0 && ((node.pv_node && depth >= IIR_PV_MIN_DEPTH) || (node.cut_node && depth >= IIR_CUT_MIN_DEPTH))
}

pub fn should_try_probcut(depth: u8, node: NodeState, beta: i32, in_check: bool, static_eval: i32) -> (r: bool)
    ensures
        r == (!node.pv_node && !in_check && !is_mate_score_spec(beta as int) && depth >= PROBCUT_MIN_DEPTH
            && static_eval >= beta - PROBCUT_MARGIN),
{
    !node.pv_node && !in_check && !is_mate_score(beta) && depth >= PROBCUT_MIN_DEPTH
        && static_eval >= beta - PROBCUT_MARGIN
}

pub fn probcut_beta(beta: i32) -> (r: i32)
    requires
        beta + PROBCUT_MARGIN <= i32::MAX,
    ensures
        r == beta + PROBCUT_MARGIN,
{
    beta + PROBCUT_MARGIN
}

pub fn probcut_depth(depth: u8) -> (r: u8)
    ensures
        r == if depth >= PROBCUT_REDUCTION { depth - PROBCUT_REDUCTION } else { 0 },
{
    if depth >= PROBCUT_REDUCTION { depth - PROBCUT_REDUCTION } else { 0 }
}

/// The depth searched after a null move: reduced by `depth / 3 + 3`, plus one
/// per 200 of static-eval excess over beta (at most four), never below zero.
pub open spec fn null_move_depth_spec(depth: u8, static_eval: i32, beta: i32) -> int {
    let excess = if static_eval - beta > 0 { static_eval - beta } else { 0 };
    let bonus = if excess / 200 > 4 { 4 } else { excess / 200 };
    let reduction = depth / 3 + 3 + bonus;
    if depth >= reduction { depth - reduction } else { 0 }
}

pub fn null_move_depth(depth: u8, static_eval: i32, beta: i32) -> (r: u8)
    ensures
        r == null_move_depth_spec(depth, static_eval, beta),
{
    let excess_wide: i64 = static_eval as i64 - beta as i64;
    let excess: i32 = if excess_wide > 0 { if excess_wide > i32::MAX as i64 { i32::MAX } else { excess_wide as i32 } } else { 0 };
    let quarter = excess / 200;
    let bonus: u8 = if quarter > 4 { 4 } else { quarter as u8 };
    let reduction: u8 = depth / 3 + 3 + bonus;
    if depth >= reduction { depth - reduction } else { 0 }
}

pub open spec fn futility_margin_spec(depth: u8) -> i32 {
    if depth == 1 { FUTILITY_MARGIN_1 } else if depth == 2 { FUTILITY_MARGIN_2 } else if depth == 3 { FUTILITY_MARGIN_3 }
    else if depth == 4 { FUTILITY_MARGIN_4 } else if depth == 5 { FUTILITY_MARGIN_5 } else if depth == 6 { FUTILITY_MARGIN_6 }
    else { FUTILITY_MARGIN_7 }
}

pub fn futility_margin(depth: u8) -> (r: i32)
    ensures
        r == futility_margin_spec(depth),
{
    match depth {
        1 => FUTILITY_MARGIN_1,
        2 => FUTILITY_MARGIN_2,
        3 => FUTILITY_MARGIN_3,
        4 => FUTILITY_MARGIN_4,
        5 => FUTILITY_MARGIN_5,
        6 => FUTILITY_MARGIN_6,
        _ => FUTILITY_MARGIN_7,
    }
}

/// Futility pruning: a quiet move other than the table's, giving no check,
/// at a shallow depth where even the margin cannot lift the static
/// evaluation to `alpha`.
pub open spec fn futility_prunes_spec(
    mv: Move, tt_move: Move, quiet: bool, maybe_check: bool, depth: u8, alpha: i32, static_eval: i32, can_selectively_prune: bool,
) -> bool {
    can_selectively_prune && depth <= FUTILITY_MAX_DEPTH && mv.bits != tt_move.bits && quiet
        && static_eval + futility_margin_spec(depth) <= alpha && !maybe_check
}

/// Late quiet-move pruning: a quiet move other than the table's, giving no
/// check, once enough moves were searched at a moderate depth.
pub open spec fn late_quiet_prunes_spec(
    mv: Move, tt_move: Move, quiet: bool, maybe_check: bool, depth: u8, searched_moves: usize, can_selectively_prune: bool,
) -> bool {
    can_selectively_prune && depth >= LATE_QUIET_PRUNE_MIN_DEPTH && depth <= LATE_QUIET_PRUNE_MAX_DEPTH
        && searched_moves >= late_quiet_prune_moves_spec(depth) && mv.bits != tt_move.bits && quiet && !maybe_check
}

/// A move that is neither a capture nor a promotion.
pub open spec fn is_quiet_spec(mv: Move) -> bool {
    move_kind(mv) == KIND_QUIET || move_kind(mv) == KIND_DOUBLE_PUSH || move_kind(mv) == KIND_CASTLE
}

pub fn should_prune_futility(
    mv: Move,
    tt_move: Move,
    quiet: bool,
    maybe_check: bool,
    depth: u8,
    alpha: i32,
    static_eval: i32,
    can_selectively_prune: bool,
) -> (r: bool)
    requires
        static_eval + FUTILITY_MARGIN_7 <= i32::MAX,
    ensures
        r == futility_prunes_spec(mv, tt_move, quiet, maybe_check, depth, alpha, static_eval, can_selectively_prune),
{
    can_selectively_prune && depth <= FUTILITY_MAX_DEPTH && mv.bits != tt_move.bits && quiet
        && static_eval + futility_margin(depth) <= alpha && !maybe_check
}

pub open spec fn late_quiet_prune_moves_spec(depth: u8) -> int {
    depth * LATE_QUIET_PRUNE_MOVE_MULT - LATE_QUIET_PRUNE_MOVE_OFFSET
}

/// Moves searched before late quiet moves are pruned at `depth`.
pub fn late_quiet_prune_moves(depth: u8) -> (r: usize)
    requires
        depth >= 1,
    ensures
        r == late_quiet_prune_moves_spec(depth),
{
    depth as usize * LATE_QUIET_PRUNE_MOVE_MULT - LATE_QUIET_PRUNE_MOVE_OFFSET
}

pub fn should_prune_late_quiet(
    mv: Move,
    tt_move: Move,
    quiet: bool,
    maybe_check: bool,
    depth: u8,
    searched_moves: usize,
    can_selectively_prune: bool,
) -> (r: bool)
    ensures
        r == late_quiet_prunes_spec(mv, tt_move, quiet, maybe_check, depth, searched_moves, can_selectively_prune),
{
    can_selectively_prune && depth >= LATE_QUIET_PRUNE_MIN_DEPTH && depth <= LATE_QUIET_PRUNE_MAX_DEPTH
        && searched_moves >= late_quiet_prune_moves(depth) && mv.bits != tt_move.bits && quiet && !maybe_check
}

pub fn should_reduce_lmr(
    mv: Move,
    tt_move: Move,
    quiet: bool,
    in_check: bool,
    depth: u8,
    history_score: i16,
    searched_moves: usize,
    try_null_window: bool,
) -> (r: bool)
    ensures
        r == (try_null_window && !in_check && depth >= LMR_MIN_DEPTH && searched_moves >= LMR_FULL_DEPTH_MOVES
            && mv.bits != tt_move.bits && quiet),
{
    try_null_window && !in_check && depth >= LMR_MIN_DEPTH && searched_moves >= LMR_FULL_DEPTH_MOVES
        && mv.bits != tt_move.bits && quiet
}

/// The late-move reduction: a base of 1 to 4 by depth and move number, one
/// less for a good history (never below 1), one more for a bad history, one
/// less at PV nodes (never below 1), and always less than `depth`.
pub open spec fn lmr_reduction_spec(depth: u8, searched_moves: usize, pv_node: bool, history_score: i16) -> int {
    let base: int = if depth >= 12 && searched_moves >= 16 { 4 } else if depth >= 8 && searched_moves >= 8 { 3 }
        else if depth >= 5 && searched_moves >= 4 { 2 } else { 1 };
    let r1 = if history_score >= LMR_HISTORY_GOOD && base > 1 { base - 1 } else { base };
    let r2 = if history_score <= LMR_HISTORY_BAD { r1 + 1 } else { r1 };
    let r3 = if pv_node && r2 > 1 { r2 - 1 } else { r2 };
    if r3 >= depth { depth - 1 } else { r3 }
}

pub fn lmr_reduction(depth: u8, searched_moves: usize, node: NodeState, history_score: i16) -> (r: u8)
    requires
        depth >= 1,
    ensures
        r == lmr_reduction_spec(depth, searched_moves, node.pv_node, history_score),
        r < depth,
{
    let mut reduction: u8 = if depth >= 12 && searched_moves >= 16 {
        4
    } else if depth >= 8 && searched_moves >= 8 {
        3
    } else if depth >= 5 && searched_moves >= 4 {
        2
    } else {
        1
    };
    if history_score >= LMR_HISTORY_GOOD && reduction > 1 {
        reduction = reduction - 1;
    }
    if history_score <= LMR_HISTORY_BAD {
        reduction = reduction + 1;
    }
    if node.pv_node && reduction > 1 {
        reduction = reduction - 1;
    }
    if reduction >= depth { depth - 1 } else { reduction }
}

/// The late-move reduction grows with depth and move number in tiers. At a
/// non-PV node with a neutral history it is at least 2 exactly when four or
/// more moves were searched at depth 5 or more, at least 3 exactly from eight
/// moves at depth 8, and 4 exactly from sixteen moves at depth 12; it never
/// exceeds 4 there. A PV node reduces at most as much, and at most one less;
/// a good history never reduces more, a bad one never less.
pub proof fn lemma_lmr_tiers(depth: u8, searched_moves: usize, history_score: i16)
    requires
        depth >= 1,
    ensures
        LMR_HISTORY_BAD < history_score < LMR_HISTORY_GOOD ==> {
            let r = lmr_reduction_spec(depth, searched_moves, false, history_score);
            &&& r >= 2 <==> (depth >= 5 && searched_moves >= 4)
            &&& r >= 3 <==> (depth >= 8 && searched_moves >= 8)
            &&& r == 4 <==> (depth >= 12 && searched_moves >= 16)
            &&& r <= 4
        },
        lmr_reduction_spec(depth, searched_moves, true, history_score)
            <= lmr_reduction_spec(depth, searched_moves, false, history_score),
        lmr_reduction_spec(depth, searched_moves, true, history_score)
            >= lmr_reduction_spec(depth, searched_moves, false, history_score) - 1,
        forall|pv: bool| lmr_reduction_spec(depth, searched_moves, pv, LMR_HISTORY_GOOD)
            <= #[trigger] lmr_reduction_spec(depth, searched_moves, pv, 0),
        forall|pv: bool| lmr_reduction_spec(depth, searched_moves, pv, LMR_HISTORY_BAD)
            >= #[trigger] lmr_reduction_spec(depth, searched_moves, pv, 0),
{
}

/// Away from shallow depths (6 or more, where the cap below `depth` never
/// binds) the adjustments are exact: a good history takes one off the
/// neutral reduction and a PV node one more, neither going below 1; a bad
/// history adds one.
pub proof fn lemma_lmr_adjustments(depth: u8, searched_moves: usize, history_score: i16)
    requires
        depth >= 6,
        LMR_HISTORY_BAD < history_score < LMR_HISTORY_GOOD,
    ensures
        ({
            let neutral = lmr_reduction_spec(depth, searched_moves, false, history_score);
            &&& 1 <= neutral <= 4
            &&& lmr_reduction_spec(depth, searched_moves, false, LMR_HISTORY_GOOD)
                == if neutral > 1 { neutral - 1 } else { 1 }
            &&& lmr_reduction_spec(depth, searched_moves, false, LMR_HISTORY_BAD) == neutral + 1
            &&& lmr_reduction_spec(depth, searched_moves, true, history_score) == if neutral > 1 { neutral - 1 } else { 1 }
            &&& lmr_reduction_spec(depth, searched_moves, true, LMR_HISTORY_BAD) == neutral
        }),
{
}

/// Quiet moves: plain moves, double pawn pushes and castling.
pub fn is_quiet_move(mv: Move) -> (r: bool)
    ensures
        r == is_quiet_spec(mv),
{
    let kind = mv.kind();
    kind == KIND_QUIET || kind == KIND_DOUBLE_PUSH || kind == KIND_CASTLE
}

} // verus!
