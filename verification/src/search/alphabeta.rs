//! The decisions of the alpha-beta and quiescence searches: when a table
//! entry ends a node, how a move loop keeps its best score and window, which
//! windows a child is searched with, and when a capture is worth a probe.
//! The searches themselves run elsewhere and report what they find here.
use vstd::prelude::*;
use crate::chess::{Move, Piece, move_kind, piece_index, KIND_EN_PASSANT};
use crate::search::qsearch::{NO_STATIC_EVAL, is_capture_kind, is_promotion_kind};
use crate::search::selectivity::NodeState;
use crate::search::tune::{scale_eval, EVAL_SCORE_SCALE, PROBCUT_MIN_DEPTH};
use crate::search::types::{is_mate_score, is_mate_score_spec, mate_score, mate_score_spec};

verus! {

/// How a stored score relates to the true one.
#[derive(Clone, Copy, Debug, PartialEq, Eq, Structural)]
pub enum Bound {
    Exact,
    Lower,
    Upper,
}

/// What the transposition table holds for a position.
#[derive(Clone, Copy, Debug)]
pub struct TtHit {
    pub best_move: Move,
    pub static_eval: i16,
    pub depth: u8,
    pub bound: Bound,
    pub score: i32,
}

/// The stored score settles the window: exact, a lower bound at or above
/// `beta`, or an upper bound at or below `alpha`.
pub open spec fn bound_settles(bound: Bound, score: int, alpha: int, beta: int) -> bool {
    match bound {
        Bound::Exact => true,
        Bound::Lower => score >= beta,
        Bound::Upper => score <= alpha,
    }
}

/// A table hit searched at least as deep as `depth` whose bound settles the
/// window ends the node with its score.
pub fn tt_cutoff(hit: TtHit, depth: u8, alpha: i32, beta: i32) -> (r: Option<i32>)
    ensures
        r == if hit.depth >= depth && bound_settles(hit.bound, hit.score as int, alpha as int, beta as int) {
            Some(hit.score)
        } else {
            None
        },
{
    if hit.depth < depth {
        return None;
    }
    qsearch_tt_cutoff(hit, alpha, beta)
}

/// In the quiescence search any hit whose bound settles the window ends the node.
pub fn qsearch_tt_cutoff(hit: TtHit, alpha: i32, beta: i32) -> (r: Option<i32>)
    ensures
        r == if bound_settles(hit.bound, hit.score as int, alpha as int, beta as int) { Some(hit.score) } else { None },
{
    match hit.bound {
        Bound::Exact => Some(hit.score),
        Bound::Lower => if hit.score >= beta { Some(hit.score) } else { None },
        Bound::Upper => if hit.score <= alpha { Some(hit.score) } else { None },
    }
}

/// The stored static evaluation, when the table has one.
pub fn stored_static_eval(stored: i16) -> (r: Option<i32>)
    ensures
        r == if stored == NO_STATIC_EVAL { None } else { Some(stored as i32) },
{
    if stored == NO_STATIC_EVAL { None } else { Some(stored as i32) }
}

/// ProbCut needs a static evaluation at non-PV nodes out of check, deep
/// enough, with `beta` away from mate scores.
pub fn needs_probcut_eval(node: NodeState, in_check: bool, depth: u8, beta: i32) -> (r: bool)
    ensures
        r == (!node.pv_node && !in_check && depth >= PROBCUT_MIN_DEPTH && !is_mate_score_spec(beta as int)),
{
    !node.pv_node && !in_check && depth >= PROBCUT_MIN_DEPTH && !is_mate_score(beta)
}

/// The score of a position without legal moves: mated in check, drawn otherwise.
pub fn no_moves_score(in_check: bool, ply: u8) -> (r: i32)
    ensures
        r == if in_check { -mate_score_spec(ply) } else { 0 },
{
    if in_check { -mate_score(ply) } else { 0 }
}

/// The bookkeeping of a fail-soft move loop: the best score and move so far
/// and the window, whose lower end rises with every better score.
#[derive(Clone, Copy, Debug)]
pub struct MoveLoop {
    pub alpha_orig: i32,
    pub alpha: i32,
    pub beta: i32,
    pub best_score: i32,
    pub best_move: Move,
    pub searched: usize,
}

/// The loop's state is consistent: the window's lower end is the initial one
/// or the best score, which never exceeds it, and it stays below `beta`.
pub open spec fn move_loop_ok(l: MoveLoop) -> bool {
    &&& l.alpha_orig <= l.alpha < l.beta
    &&& l.best_score <= l.alpha
    &&& l.alpha == l.alpha_orig || l.alpha == l.best_score
}

impl MoveLoop {
    /// A loop for the window `(alpha, beta)` whose best score starts at `floor`.
    pub fn new(alpha: i32, beta: i32, floor: i32) -> (r: Self)
        requires
            alpha < beta,
            floor <= alpha,
        ensures
            r.alpha_orig == alpha && r.alpha == alpha && r.beta == beta,
            r.best_score == floor,
            r.best_move.bits == 0,
            r.searched == 0,
            move_loop_ok(r),
    {
        MoveLoop { alpha_orig: alpha, alpha, beta, best_score: floor, best_move: Move::null(), searched: 0 }
    }

    /// Reports the score of a searched move; `true` when it reaches `beta`,
    /// which ends the loop with a lower bound.
    pub fn offer(&mut self, mv: Move, score: i32) -> (cutoff: bool)
        requires
            move_loop_ok(*old(self)),
            old(self).searched < usize::MAX,
        ensures
            cutoff == (score >= old(self).beta),
            final(self).alpha_orig == old(self).alpha_orig,
            final(self).beta == old(self).beta,
            final(self).searched == old(self).searched + 1,
            final(self).best_score == if score > old(self).best_score { score } else { old(self).best_score },
            final(self).best_move == if score > old(self).best_score { mv } else { old(self).best_move },
            !cutoff ==> final(self).alpha == if score > old(self).alpha { score } else { old(self).alpha },
            !cutoff ==> move_loop_ok(*final(self)),
    {
        self.searched = self.searched + 1;
        if score > self.best_score {
            self.best_score = score;
            self.best_move = mv;
        }
        if score >= self.beta {
            return true;
        }
        if score > self.alpha {
            self.alpha = score;
        }
        false
    }

    /// Reports the first move's score, which becomes the best whatever it is;
    /// `true` when it reaches `beta`.
    pub fn take_first(&mut self, mv: Move, score: i32) -> (cutoff: bool)
        requires
            move_loop_ok(*old(self)),
            old(self).alpha == old(self).alpha_orig,
            old(self).searched < usize::MAX,
        ensures
            cutoff == (score >= old(self).beta),
            final(self).alpha_orig == old(self).alpha_orig,
            final(self).beta == old(self).beta,
            final(self).searched == old(self).searched + 1,
            final(self).best_score == score,
            final(self).best_move == mv,
            !cutoff ==> final(self).alpha == if score > old(self).alpha { score } else { old(self).alpha },
            !cutoff ==> move_loop_ok(*final(self)),
    {
        self.searched = self.searched + 1;
        self.best_score = score;
        self.best_move = mv;
        if score >= self.beta {
            return true;
        }
        if score > self.alpha {
            self.alpha = score;
        }
        false
    }

    /// Raises the best score to `score` without a move, as a pruned move's
    /// optimistic value does.
    pub fn raise_floor(&mut self, score: i32)
        requires
            move_loop_ok(*old(self)),
            score <= old(self).alpha,
        ensures
            final(self).best_score == if score > old(self).best_score { score } else { old(self).best_score },
            final(self).alpha == old(self).alpha,
            final(self).alpha_orig == old(self).alpha_orig,
            final(self).beta == old(self).beta,
            final(self).best_move == old(self).best_move,
            final(self).searched == old(self).searched,
            move_loop_ok(*final(self)),
    {
        if score > self.best_score {
            self.best_score = score;
        }
    }

    /// The bound stored for the loop's result: an upper bound when nothing
    /// beat the initial `alpha`, exact otherwise.
    pub fn bound(&self) -> (b: Bound)
        ensures
            b == if self.best_score <= self.alpha_orig { Bound::Upper } else { Bound::Exact },
    {
        if self.best_score <= self.alpha_orig { Bound::Upper } else { Bound::Exact }
    }
}

/// The stand-pat step of the quiescence search: the static evaluation alone
/// may already reach `beta`; otherwise it opens the loop as its best score.
pub fn stand_pat(static_eval: i32, alpha: i32, beta: i32) -> (r: Result<MoveLoop, i32>)
    requires
        alpha < beta,
    ensures
        static_eval >= beta ==> r == Err::<MoveLoop, i32>(static_eval),
        static_eval < beta ==> (r matches Ok(l) && move_loop_ok(l) && l.alpha_orig == alpha && l.beta == beta
            && l.best_score == static_eval && l.best_move.bits == 0 && l.searched == 0
            && l.alpha == if static_eval > alpha { static_eval } else { alpha }),
{
    if static_eval >= beta {
        return Err(static_eval);
    }
    let floor = if static_eval < alpha { static_eval } else { alpha };
    let mut l = MoveLoop::new(alpha, beta, floor);
    l.best_score = static_eval;
    if static_eval > alpha {
        l.alpha = static_eval;
    }
    Ok(l)
}

/// The windows a move's child is searched with, one after another.
#[derive(Clone, Copy, Debug, PartialEq, Eq, Structural)]
pub enum ChildStage {
    Reduced,
    NullWindow,
    FullWindow,
}

/// A search to run on a child, from the child's point of view.
#[derive(Clone, Copy, Debug)]
pub struct ChildRequest {
    pub depth: u8,
    pub pv_node: bool,
    pub alpha: i32,
    pub beta: i32,
}

/// Principal-variation search of one child: a reduced null-window search
/// first when late-move reduction applies, then a null-window search at full
/// depth when the window may be narrowed, then a full-window search.
#[derive(Clone, Copy, Debug)]
pub struct ChildSearch {
    pub stage: ChildStage,
    pub child_depth: u8,
    pub pv_node: bool,
    pub try_null_window: bool,
    pub alpha: i32,
    pub beta: i32,
}

/// The null-window request around `alpha` at `depth`.
pub open spec fn null_window_request(depth: u8, alpha: i32) -> ChildRequest {
    ChildRequest { depth, pv_node: false, alpha: (-alpha - 1) as i32, beta: (-alpha) as i32 }
}

/// The full-window request at `depth`.
pub open spec fn full_window_request(depth: u8, pv_node: bool, alpha: i32, beta: i32) -> ChildRequest {
    ChildRequest { depth, pv_node, alpha: (-beta) as i32, beta: (-alpha) as i32 }
}

impl ChildSearch {
    /// Plans the child's searches: `reduction` is `Some` when late-move
    /// reduction applies, `try_null_window` when the move is not the first.
    pub fn start(depth: u8, pv_node: bool, alpha: i32, beta: i32, try_null_window: bool, reduction: Option<u8>) -> (r: (Self, ChildRequest))
        requires
            depth >= 1,
            i32::MIN + 1 < alpha < beta,
            beta < i32::MAX,
        ensures
            r.0.child_depth == depth - 1,
            r.0.pv_node == pv_node,
            r.0.try_null_window == try_null_window,
            r.0.alpha == alpha && r.0.beta == beta,
            match reduction {
                Some(red) => r.0.stage == ChildStage::Reduced
                    && r.1 == null_window_request(if red <= depth - 1 { (depth - 1 - red) as u8 } else { 0 }, alpha),
                None => if try_null_window {
                    r.0.stage == ChildStage::NullWindow && r.1 == null_window_request((depth - 1) as u8, alpha)
                } else {
                    r.0.stage == ChildStage::FullWindow && r.1 == full_window_request((depth - 1) as u8, pv_node, alpha, beta)
                },
            },
    {
        let child_depth = depth - 1;
        let plan = ChildSearch { stage: ChildStage::FullWindow, child_depth, pv_node, try_null_window, alpha, beta };
        match reduction {
            Some(red) => {
                let reduced = if red <= child_depth { child_depth - red } else { 0 };
                (ChildSearch { stage: ChildStage::Reduced, ..plan }, ChildRequest { depth: reduced, pv_node: false, alpha: -alpha - 1, beta: -alpha })
            },
            None => if try_null_window {
                (ChildSearch { stage: ChildStage::NullWindow, ..plan }, ChildRequest { depth: child_depth, pv_node: false, alpha: -alpha - 1, beta: -alpha })
            } else {
                (plan, ChildRequest { depth: child_depth, pv_node, alpha: -beta, beta: -alpha })
            },
        }
    }

    /// Takes the score of the last search (from this node's point of view):
    /// `None` when it is the child's score, else the next search to run. A
    /// reduced search that fails low, or a null-window search that fails
    /// outside the window, is final.
    pub fn on_score(&mut self, score: i32) -> (next: Option<ChildRequest>)
        requires
            i32::MIN + 1 < old(self).alpha < old(self).beta,
            old(self).beta < i32::MAX,
        ensures
            final(self).child_depth == old(self).child_depth,
            final(self).alpha == old(self).alpha && final(self).beta == old(self).beta,
            final(self).pv_node == old(self).pv_node,
            final(self).try_null_window == old(self).try_null_window,
            next is None <==> match old(self).stage {
                ChildStage::Reduced => score <= old(self).alpha,
                ChildStage::NullWindow => score <= old(self).alpha || score >= old(self).beta,
                ChildStage::FullWindow => true,
            },
            next matches Some(req) ==> {
                if old(self).stage == ChildStage::Reduced && old(self).try_null_window {
                    final(self).stage == ChildStage::NullWindow && req == null_window_request(old(self).child_depth, old(self).alpha)
                } else {
                    final(self).stage == ChildStage::FullWindow
                        && req == full_window_request(old(self).child_depth, old(self).pv_node, old(self).alpha, old(self).beta)
                }
            },
    {
        match self.stage {
            ChildStage::Reduced => {
                if score <= self.alpha {
                    return None;
                }
                if self.try_null_window {
                    self.stage = ChildStage::NullWindow;
                    Some(ChildRequest { depth: self.child_depth, pv_node: false, alpha: -self.alpha - 1, beta: -self.alpha })
                } else {
                    self.stage = ChildStage::FullWindow;
                    Some(ChildRequest { depth: self.child_depth, pv_node: self.pv_node, alpha: -self.beta, beta: -self.alpha })
                }
            },
            ChildStage::NullWindow => {
                if score <= self.alpha || score >= self.beta {
                    return None;
                }
                self.stage = ChildStage::FullWindow;
                Some(ChildRequest { depth: self.child_depth, pv_node: self.pv_node, alpha: -self.beta, beta: -self.alpha })
            },
            ChildStage::FullWindow => None,
        }
    }
}

/// ProbCut looks at promotions and at captures that do not lose material.
pub fn probcut_candidate(mv: Move, see_not_losing: bool) -> (r: bool)
    ensures
        r == (is_promotion_kind(move_kind(mv))
            || ((is_capture_kind(move_kind(mv)) || move_kind(mv) == KIND_EN_PASSANT) && see_not_losing)),
{
    let kind = mv.kind();
    kind >= 8 || (((kind / 4) % 2 == 1 || kind == KIND_EN_PASSANT) && see_not_losing)
}

/// After a capture's quiescence score: verify it with a reduced search when it
/// clears the raised bound and depth remains.
pub fn probcut_needs_verification(qscore: i32, prob_beta: i32, reduced_depth: u8) -> (r: bool)
    ensures
        r == (qscore >= prob_beta && reduced_depth > 0),
{
    qscore >= prob_beta && reduced_depth > 0
}

/// A capture whose (verified) score clears the raised bound cuts the node off with `beta`.
pub fn probcut_result(score: i32, prob_beta: i32, mv: Move, beta: i32) -> (r: Option<(Move, i32)>)
    ensures
        r == if score >= prob_beta { Some((mv, beta)) } else { None },
{
    if score >= prob_beta { Some((mv, beta)) } else { None }
}

/// A capture is skipped in the quiescence search when the exchange loses material.
pub fn see_prune_move(mv: Move, see_not_losing: bool) -> (r: bool)
    ensures
        r == (is_capture_kind(move_kind(mv)) && !is_promotion_kind(move_kind(mv))
            && move_kind(mv) != KIND_EN_PASSANT && !see_not_losing),
{
    let kind = mv.kind();
    (kind / 4) % 2 == 1 && kind < 8 && kind != KIND_EN_PASSANT && !see_not_losing
}

/// The correction history learns from exact results out of check where
/// neither the score nor the stored evaluation is a mate score.
pub fn should_update_correction(bound: Bound, in_check: bool, score: i32, raw_static_eval: i16) -> (r: bool)
    ensures
        r == (bound == Bound::Exact && !in_check && raw_static_eval != NO_STATIC_EVAL
            && !is_mate_score_spec(score as int) && !is_mate_score_spec(raw_static_eval as int)),
{
    let exact = match bound {
        Bound::Exact => true,
        _ => false,
    };
    exact && !in_check && raw_static_eval != NO_STATIC_EVAL && !is_mate_score(score) && !is_mate_score(raw_static_eval as i32)
}

pub const LATE_BAD_CAPTURE_MIN_DEPTH: u8 = 3;
pub const LATE_BAD_CAPTURE_MAX_DEPTH: u8 = 8;
pub const LATE_BAD_CAPTURE_MIN_SEARCHED: usize = 4;
pub const LATE_BAD_CAPTURE_MAX_GAIN: i32 = 330;

/// Material values used to bound what a capture can gain.
pub open spec fn capture_value_spec(piece: Piece) -> int {
    match piece {
        Piece::Pawn => 100,
        Piece::Knight => 320,
        Piece::Bishop => 330,
        Piece::Rook => 500,
        Piece::Queen => 900,
        Piece::King => 0,
    }
}

pub fn piece_value(piece: Piece) -> (r: i32)
    ensures
        r == capture_value_spec(piece),
{
    match piece {
        Piece::Pawn => 100,
        Piece::Knight => 320,
        Piece::Bishop => 330,
        Piece::Rook => 500,
        Piece::Queen => 900,
        Piece::King => 0,
    }
}

/// Late losing-capture pruning: a plain capture other than the table's,
/// giving no check and losing the exchange, once enough moves were searched at
/// a moderate depth, when even the bounded gain of the captured piece cannot
/// lift the static evaluation to `alpha` (not a mate score).
pub open spec fn late_bad_capture_prunes_spec(
    mv: Move,
    tt_move: Move,
    maybe_check: bool,
    depth: u8,
    searched_moves: usize,
    alpha: i32,
    static_eval: i32,
    can_selectively_prune: bool,
    see_not_losing: bool,
    captured: Piece,
) -> bool {
    can_selectively_prune && LATE_BAD_CAPTURE_MIN_DEPTH <= depth <= LATE_BAD_CAPTURE_MAX_DEPTH
        && searched_moves >= LATE_BAD_CAPTURE_MIN_SEARCHED && mv.bits != tt_move.bits && !maybe_check
        && move_kind(mv) != KIND_EN_PASSANT && !is_promotion_kind(move_kind(mv))
        && is_capture_kind(move_kind(mv)) && !is_mate_score_spec(alpha as int) && !see_not_losing
        && static_eval + (if capture_value_spec(captured) < LATE_BAD_CAPTURE_MAX_GAIN { capture_value_spec(captured) }
            else { LATE_BAD_CAPTURE_MAX_GAIN as int }) * EVAL_SCORE_SCALE <= alpha
}

/// Late losing captures are skipped at moderate depths when even the bounded
/// gain of the captured piece cannot lift the static evaluation to `alpha`.
pub fn should_prune_late_bad_capture(
    mv: Move,
    tt_move: Move,
    maybe_check: bool,
    depth: u8,
    searched_moves: usize,
    alpha: i32,
    static_eval: i32,
    can_selectively_prune: bool,
    see_not_losing: bool,
    captured: Piece,
) -> (r: bool)
    requires
        static_eval + LATE_BAD_CAPTURE_MAX_GAIN * EVAL_SCORE_SCALE <= i32::MAX,
    ensures
        r == late_bad_capture_prunes_spec(mv, tt_move, maybe_check, depth, searched_moves, alpha, static_eval,
            can_selectively_prune, see_not_losing, captured),
{
    let kind = mv.kind();
    if !can_selectively_prune || depth < LATE_BAD_CAPTURE_MIN_DEPTH || depth > LATE_BAD_CAPTURE_MAX_DEPTH
        || searched_moves < LATE_BAD_CAPTURE_MIN_SEARCHED || mv.bits == tt_move.bits || maybe_check
        || kind == KIND_EN_PASSANT || kind >= 8 || (kind / 4) % 2 != 1 || is_mate_score(alpha) || see_not_losing {
        return false;
    }
    let value = piece_value(captured);
    let gain = if value < LATE_BAD_CAPTURE_MAX_GAIN { value } else { LATE_BAD_CAPTURE_MAX_GAIN };
    static_eval + scale_eval(gain) <= alpha
}

/// What the capture history is keyed by: the moving piece, its destination
/// and the piece it takes.
#[derive(Clone, Copy, Debug, PartialEq, Eq, Structural)]
pub struct CaptureHistoryRecord {
    pub moved: Piece,
    pub to: usize,
    pub captured: Piece,
}

/// The record of a capture that is not a promotion; `moved` is the piece on the
/// origin and `on_target` the one on the destination (a pawn for en passant).
pub fn capture_history_record(mv: Move, moved: Piece, on_target: Piece) -> (r: Option<CaptureHistoryRecord>)
    ensures
        r == if is_promotion_kind(move_kind(mv)) || !(is_capture_kind(move_kind(mv)) || move_kind(mv) == KIND_EN_PASSANT) {
            None
        } else {
            Some(CaptureHistoryRecord {
                moved,
                to: ((mv.bits / 64) % 64) as usize,
                captured: if move_kind(mv) == KIND_EN_PASSANT { Piece::Pawn } else { on_target },
            })
        },
{
    let kind = mv.kind();
    if kind >= 8 || !((kind / 4) % 2 == 1 || kind == KIND_EN_PASSANT) {
        return None;
    }
    let captured = if kind == KIND_EN_PASSANT { Piece::Pawn } else { on_target };
    Some(CaptureHistoryRecord { moved, to: mv.to_square() as usize, captured })
}

} // verus!
