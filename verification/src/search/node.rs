//! One node of the alpha-beta search as a state machine: table probe,
//! static evaluation, razoring, reverse futility, null move, internal
//! iterative reduction, ProbCut, then the move loop with its pruning,
//! principal-variation search and late-move reductions. The caller performs
//! what each action asks (board changes, searches of children, table and
//! history updates) and resumes the node with what came of it.
use vstd::prelude::*;
use crate::chess::{Move, Piece, move_kind, KIND_EN_PASSANT};
use crate::search::alphabeta::{
    Bound, CaptureHistoryRecord, ChildRequest, ChildSearch, MoveLoop, TtHit, capture_history_record,
    move_loop_ok, no_moves_score, probcut_candidate, probcut_needs_verification, should_prune_late_bad_capture,
    should_update_correction, stored_static_eval, tt_cutoff, bound_settles,
};
use crate::search::picker::{MovePicker, Phase, PickerAction, TtMode, picker_next, picker_ok};
use crate::search::qsearch::{NO_STATIC_EVAL, is_capture_kind, is_promotion_kind, pack_static_eval};
use crate::search::selectivity::{
    NodeState, can_use_selective_pruning, futility_margin, is_quiet_move, lmr_reduction, needs_static_eval,
    null_move_depth, probcut_beta, probcut_depth, razor_margin, rfp_margin, should_apply_iir, should_prune_futility,
    should_prune_late_quiet, should_prune_reverse_futility, should_reduce_lmr, should_try_null_move,
    should_try_probcut, should_try_razoring,
};
use crate::search::tune::{
    FUTILITY_MAX_DEPTH, IIR_CUT_MIN_DEPTH, IIR_PV_MIN_DEPTH, NULL_MOVE_MIN_DEPTH, PROBCUT_MARGIN, PROBCUT_MIN_DEPTH, PVS_FULL_WINDOW_MOVES,
    RAZOR_MAX_DEPTH, RFP_MAX_DEPTH,
};
use crate::search::selectivity::{
    futility_margin_spec, futility_prunes_spec, is_quiet_spec, null_move_depth_spec, late_quiet_prunes_spec, lmr_reduction_spec, razor_margin_spec,
    rfp_margin_spec,
};
use crate::search::alphabeta::late_bad_capture_prunes_spec;
use crate::search::alphabeta::{ChildStage, full_window_request, null_window_request};
use crate::search::tune::{LMR_FULL_DEPTH_MOVES, LMR_MIN_DEPTH};
use crate::search::types::is_mate_score_spec;
use crate::search::alphabeta::needs_probcut_eval;

verus! {

/// Scores and window ends stay within this bound, so that negating them is safe.
pub const SCORE_LIMIT: i32 = 0x4000_0000;

/// A raw static evaluation or correction stays within this bound.
pub const EVAL_LIMIT: i32 = 0x10_0000;

/// What the caller reports back to the node.
pub enum NodeEvent {
    /// The node was counted; `draw` when the fifty-move rule or a repetition ends it.
    Entered { draw: bool },
    /// The table's entry for the position, if any.
    Tt(Option<TtHit>),
    /// Whether the side to move is in check and has pieces besides pawns and king.
    Analysis { in_check: bool, non_pawn_material: bool },
    /// The raw static evaluation (the stored one when it was offered) and the correction.
    Eval { raw: i32, correction: i32 },
    /// The score of the requested search, from the searched position's side.
    Score(i32),
    /// The requested change or update is done.
    Done,
    /// The captures and promotions of the position, each with whether its exchange does not lose.
    ProbcutMoves(Vec<(Move, bool)>),
    /// The generated and scored moves of the requested stage.
    StageMoves(Vec<(Move, i16)>),
    /// Whether the quiet moves include the table's move.
    QuietsContain(bool),
    /// What the search needs to know of the move being described.
    Facts(MoveFacts),
    /// The node could not be counted (the search must stop), or the
    /// requested search was interrupted.
    Interrupted,
}

/// What the search needs to know of a move before searching it.
#[derive(Clone, Copy, Debug)]
pub struct MoveFacts {
    pub maybe_check: bool,
    pub history_score: i16,
    pub moved: Piece,
    pub on_target: Piece,
    pub see_not_losing: bool,
}

/// What the node asks of the caller.
pub enum NodeAction {
    /// Count the node and check for a draw; answer `Entered`.
    Enter,
    /// Run the quiescence search at `ply` with this window; answer `Score`.
    Qsearch { ply: u8, alpha: i32, beta: i32 },
    /// Probe the table; answer `Tt`.
    ProbeTt,
    /// Analyse the position; answer `Analysis`.
    Analyze,
    /// Evaluate the position unless `stored` already holds the raw value; answer `Eval`.
    Evaluate { stored: Option<i32> },
    /// Board changes; answer `Done`.
    MakeNull,
    UnmakeNull,
    Make(Move),
    Unmake(Move),
    /// Search the current position as a child; answer `Score`.
    Search { depth: u8, node: NodeState, alpha: i32, beta: i32 },
    /// Generate the captures and promotions with their exchange results; answer `ProbcutMoves`.
    ProbcutCaptures,
    /// Generate and score a stage for the picker; answer `StageMoves`.
    LoadStage(Phase),
    /// Check the table's move among the quiet moves; answer `QuietsContain`.
    CheckQuiets(Move),
    /// Gather the facts of a move; answer `Facts`.
    Describe(Move),
    /// Reward the move that cut off and penalise the ones searched before it; answer `Done`.
    CutoffHistory { mv: Move, quiet: bool, record: Option<CaptureHistoryRecord>, failed_quiets: Vec<Move>, failed_captures: Vec<CaptureHistoryRecord>, depth: u8 },
    /// Update the correction history by `delta`; answer `Done`.
    UpdateCorrection { delta: i32, depth: u8 },
    /// Store a result in the table; answer `Done`.
    Store { mv: Move, score: i32, static_eval: i16, depth: u8, bound: Bound },
    /// The node's score.
    Return(i32),
    /// The search was interrupted; the node leaves the board as it found it.
    Abort,
}

/// Where the node waits.
#[derive(Clone, Copy, Debug, PartialEq, Eq, Structural)]
pub enum NodeStage {
    Quiescence,
    Entering,
    Probing,
    Analysing,
    Evaluating,
    Razoring,
    NullMaking,
    NullSearching,
    NullUnmaking,
    ProbcutListing,
    ProbcutMaking,
    ProbcutQuiescence,
    ProbcutVerifying,
    ProbcutUnmaking,
    Picking,
    PickerLoading,
    PickerChecking,
    Describing,
    Making,
    Searching,
    Unmaking,
    Rewarding,
    Correcting,
    Storing,
    /// A move (or the null move) is being taken back before the node gives up.
    Abandoning,
    Finished,
}

pub struct NodeMachine {
    pub stage: NodeStage,
    pub depth: u8,
    pub node: NodeState,
    pub alpha: i32,
    pub beta: i32,
    pub tt_move: Move,
    pub stored_eval: i16,
    pub static_eval: i32,
    pub in_check: bool,
    pub can_prune: bool,
    pub window_alpha: i32,
    pub pending: i32,
    pub stored_score: i32,
    pub stored_bound: Bound,
    pub null_score: i32,
    pub prob_beta: i32,
    pub reduced_depth: u8,
    pub candidates: Vec<(Move, bool)>,
    pub candidate: usize,
    pub probe_score: i32,
    pub picker: MovePicker,
    pub moves: MoveLoop,
    pub saw_legal_move: bool,
    pub current: Move,
    pub quiet: bool,
    pub history_score: i16,
    pub record: Option<CaptureHistoryRecord>,
    pub child: ChildSearch,
    pub child_score: i32,
    pub searched_quiets: Vec<Move>,
    pub searched_captures: Vec<CaptureHistoryRecord>,
}

/// A score that may be negated and passed on.
pub open spec fn score_ok(s: i32) -> bool {
    -SCORE_LIMIT <= s <= SCORE_LIMIT
}

/// The node's invariant: its window, and in the move loop the loop's state.
pub open spec fn node_ok(m: &NodeMachine) -> bool {
    &&& -SCORE_LIMIT <= m.alpha < m.beta <= SCORE_LIMIT
    &&& m.node.ply < 254
    &&& -2 * EVAL_LIMIT <= m.static_eval <= 2 * EVAL_LIMIT
    &&& score_ok(m.pending)
    &&& m.stage == NodeStage::Storing ==> score_ok(m.stored_score) && m.stored_score == m.pending
    &&& m.stage == NodeStage::Storing ==> match m.stored_bound {
        Bound::Lower => m.stored_score >= m.beta,
        Bound::Upper => m.stored_score <= m.alpha,
        Bound::Exact => m.stored_score > m.alpha || !m.saw_legal_move,
    }
    &&& m.stage == NodeStage::Razoring ==> m.window_alpha < m.alpha && -SCORE_LIMIT <= m.window_alpha
    &&& (m.stage == NodeStage::ProbcutListing || m.stage == NodeStage::ProbcutMaking || m.stage == NodeStage::ProbcutQuiescence
        || m.stage == NodeStage::ProbcutVerifying || m.stage == NodeStage::ProbcutUnmaking) ==> {
        &&& m.prob_beta == m.beta + 200
        &&& !crate::search::types::is_mate_score_spec(m.beta as int)
        &&& m.candidate < m.candidates@.len() || m.stage == NodeStage::ProbcutListing
        &&& score_ok(m.probe_score)
    }
    &&& m.stage == NodeStage::NullUnmaking ==> score_ok(m.null_score)
    &&& in_loop(m.stage) ==> {
        &&& move_loop_ok(m.moves)
        &&& m.moves.alpha_orig == m.alpha
        &&& m.moves.beta == m.beta
        &&& score_ok(m.moves.best_score)
        &&& picker_ok(&m.picker)
        &&& m.depth >= 1
        &&& m.moves.searched <= 100_000
        &&& m.searched_quiets@.len() <= m.moves.searched
        &&& m.searched_captures@.len() <= m.moves.searched
    }
    &&& (m.stage == NodeStage::Searching || m.stage == NodeStage::Making) ==> {
        &&& m.child.alpha == m.moves.alpha && m.child.beta == m.moves.beta
        &&& -SCORE_LIMIT <= m.child.alpha < m.child.beta <= SCORE_LIMIT
    }
    &&& m.stage == NodeStage::Unmaking ==> score_ok(m.child_score)
    &&& (m.stage == NodeStage::Making || m.stage == NodeStage::Searching || m.stage == NodeStage::Unmaking) ==> m.moves.searched < 100_000
    &&& m.stage == NodeStage::Rewarding ==> score_ok(m.child_score) && m.child_score >= m.beta
    &&& m.stage == NodeStage::Correcting ==> m.saw_legal_move
    &&& m.stage != NodeStage::Quiescence && m.stage != NodeStage::Finished ==> m.depth >= 1
    &&& m.stage == NodeStage::PickerLoading ==> m.picker.phase != Phase::Tt
    &&& (m.stage == NodeStage::Describing || m.stage == NodeStage::PickerLoading || m.stage == NodeStage::PickerChecking)
        ==> m.picker.phase != Phase::Done
    &&& m.stage == NodeStage::PickerChecking ==> m.picker.phase != Phase::Tt && m.picker.tt_move.bits != 0
        && !m.picker.tt_yielded && !m.picker.validating
}

/// The stages of the move loop.
pub open spec fn in_loop(s: NodeStage) -> bool {
    s == NodeStage::Picking || s == NodeStage::PickerLoading || s == NodeStage::PickerChecking || s == NodeStage::Describing || s == NodeStage::Making || s == NodeStage::Searching
        || s == NodeStage::Unmaking || s == NodeStage::Correcting
}

/// The event the node waits for in `stage`.
pub open spec fn event_fits(m: &NodeMachine, e: NodeEvent) -> bool {
    match m.stage {
        NodeStage::Entering => e is Entered || e is Interrupted,
        NodeStage::Probing => e matches NodeEvent::Tt(h) && (h matches Some(hit) ==> score_ok(hit.score)),
        NodeStage::Analysing => e is Analysis,
        NodeStage::Evaluating => e matches NodeEvent::Eval { raw, correction }
            && -EVAL_LIMIT <= raw <= EVAL_LIMIT && -EVAL_LIMIT <= correction <= EVAL_LIMIT
            && (m.stored_eval == NO_STATIC_EVAL ==> i16::MIN <= raw <= i16::MAX),
        NodeStage::Quiescence | NodeStage::Razoring | NodeStage::NullSearching | NodeStage::ProbcutQuiescence
            | NodeStage::ProbcutVerifying | NodeStage::Searching => (e matches NodeEvent::Score(s) && score_ok(s))
            || e is Interrupted,
        NodeStage::ProbcutListing => e is ProbcutMoves,
        NodeStage::PickerLoading => e is StageMoves,
        NodeStage::PickerChecking => e is QuietsContain,
        NodeStage::Picking => false,
        NodeStage::Describing => e is Facts && m.moves.searched < 100_000,
        NodeStage::Finished => false,
        _ => e is Done,
    }
}

impl NodeMachine {
    /// A node searched to `depth` at `node` with window `(alpha, beta)`, and its first request.
    pub fn new(depth: u8, node: NodeState, alpha: i32, beta: i32) -> (r: (Self, NodeAction))
        requires
            -SCORE_LIMIT <= alpha < beta <= SCORE_LIMIT,
            node.ply < 254,
        ensures
            node_ok(&r.0),
            depth == 0 ==> r.1 == (NodeAction::Qsearch { ply: node.ply, alpha, beta }) && r.0.stage == NodeStage::Quiescence,
            depth > 0 ==> r.1 is Enter && r.0.stage == NodeStage::Entering,
    {
        let m = NodeMachine {
            stage: if depth == 0 { NodeStage::Quiescence } else { NodeStage::Entering },
            depth,
            node,
            alpha,
            beta,
            tt_move: Move::null(),
            stored_eval: NO_STATIC_EVAL,
            static_eval: 0,
            in_check: false,
            can_prune: false,
            window_alpha: alpha,
            pending: 0,
            stored_score: 0,
            stored_bound: Bound::Exact,
            null_score: 0,
            prob_beta: 0,
            reduced_depth: 0,
            candidates: Vec::new(),
            candidate: 0,
            probe_score: 0,
            picker: MovePicker::new(Move::null(), TtMode::BlindTrust, false),
            moves: MoveLoop::new(alpha, beta, alpha),
            saw_legal_move: false,
            current: Move::null(),
            quiet: false,
            history_score: 0,
            record: None,
            child: ChildSearch {
                stage: crate::search::alphabeta::ChildStage::FullWindow,
                child_depth: 0,
                pv_node: false,
                try_null_window: false,
                alpha,
                beta,
            },
            child_score: 0,
            searched_quiets: Vec::new(),
            searched_captures: Vec::new(),
        };
        if depth == 0 {
            (m, NodeAction::Qsearch { ply: node.ply, alpha, beta })
        } else {
            (m, NodeAction::Enter)
        }
    }

    /// Stores `score` with `bound` and then returns it.
    fn store(&mut self, mv: Move, score: i32, bound: Bound) -> (r: NodeAction)
        requires
            score_ok(score),
            -SCORE_LIMIT <= old(self).alpha < old(self).beta <= SCORE_LIMIT,
            match bound {
                Bound::Lower => score >= old(self).beta,
                Bound::Upper => score <= old(self).alpha,
                Bound::Exact => score > old(self).alpha || !old(self).saw_legal_move,
            },
        ensures
            !(r is Abort),
            !(r is Unmake || r is UnmakeNull),
            move_made(final(self).stage) <==> (r is Make || r is MakeNull),
            final(self).picker == old(self).picker,
            stage_follows(r, final(self).stage),
            final(self).stage == NodeStage::Storing,
            final(self).pending == score,
            final(self).stored_score == score,
            final(self).stored_bound == bound,
            r == (NodeAction::Store { mv, score, static_eval: old(self).stored_eval, depth: old(self).depth, bound }),
            prelude_of(final(self)) == prelude_of(old(self)),
            final(self).alpha == old(self).alpha && final(self).beta == old(self).beta,
            final(self).node == old(self).node && final(self).static_eval == old(self).static_eval,
            final(self).saw_legal_move == old(self).saw_legal_move,
            final(self).moves == old(self).moves,
            final(self).candidates == old(self).candidates,
            final(self).tt_move == old(self).tt_move,
            final(self).depth == old(self).depth,
            final(self).searched_quiets == old(self).searched_quiets,
            final(self).searched_captures == old(self).searched_captures,
    {
        self.stage = NodeStage::Storing;
        self.pending = score;
        self.stored_score = score;
        self.stored_bound = bound;
        NodeAction::Store { mv, score, static_eval: self.stored_eval, depth: self.depth, bound }
    }
}

/// What a node request asks of a child is within the bounds every node accepts.
pub open spec fn request_ok(a: NodeAction) -> bool {
    match a {
        NodeAction::Search { depth, node, alpha, beta } => -SCORE_LIMIT <= alpha < beta <= SCORE_LIMIT,
        NodeAction::Qsearch { ply, alpha, beta } => -SCORE_LIMIT <= alpha < beta <= SCORE_LIMIT,
        NodeAction::Return(s) => score_ok(s),
        _ => true,
    }
}

/// A store is right about the window (a lower bound at or above `beta`, an
/// upper bound at or below `alpha`, an exact score inside it or the score of
/// a position without moves), carries the node's depth and stored
/// evaluation, and at the end of the move loop stores the loop's result: the
/// best move and score with its bound, or with no legal move the mate or
/// stalemate score.
pub open spec fn store_ok(a: NodeAction, m: &NodeMachine) -> bool {
    a matches NodeAction::Store { mv, score, static_eval, depth, bound } ==> {
        &&& score_ok(score)
        &&& match bound {
            Bound::Lower => score >= m.beta,
            Bound::Upper => score <= m.alpha,
            Bound::Exact => score > m.alpha || !m.saw_legal_move,
        }
        &&& static_eval == m.stored_eval && depth == m.depth
        &&& bound != Bound::Lower ==> if m.saw_legal_move {
            &&& mv == m.moves.best_move
            &&& score == m.moves.best_score
            &&& bound == (if m.moves.best_score <= m.moves.alpha_orig { Bound::Upper } else { Bound::Exact })
        } else {
            &&& mv.bits == 0
            &&& score == (if m.in_check { -crate::search::types::mate_score_spec(m.node.ply) } else { 0 })
            &&& bound == Bound::Exact
        }
    }
}

impl NodeMachine {
    /// The basic facts every handler relies on.
    pub open spec fn basics(&self) -> bool {
        &&& -SCORE_LIMIT <= self.alpha < self.beta <= SCORE_LIMIT
        &&& self.node.ply < 254
        &&& -2 * EVAL_LIMIT <= self.static_eval <= 2 * EVAL_LIMIT
        &&& score_ok(self.pending)
    }

    /// Requests the child search of `req` from the node's side.
    fn child_request(&self, req: ChildRequest) -> (r: NodeAction)
        requires
            self.basics(),
            -SCORE_LIMIT <= req.alpha < req.beta <= SCORE_LIMIT,
        ensures
            request_ok(r),
            requests(r, req, self.node.ply),
    {
        NodeAction::Search {
            depth: req.depth,
            node: self.node.child(req.pv_node, req.alpha, req.beta),
            alpha: req.alpha,
            beta: req.beta,
        }
    }

    /// After the static evaluation: razoring first.
    fn after_eval(&mut self) -> (r: NodeAction)
        requires
            old(self).basics(),
            old(self).depth >= 1,
        ensures
            !(r is Abort),
            r matches NodeAction::Store { score, .. } ==> final(self).pending == score,
            r matches NodeAction::Describe(m) ==> final(self).current == m,
            !(r is Unmake || r is UnmakeNull),
            move_made(final(self).stage) <==> (r is Make || r is MakeNull),
            stage_follows(r, final(self).stage),
            pre_loop_action(prelude_of(old(self))) matches Some(a) ==> r == a,
            pre_loop_action(prelude_of(old(self))) is None ==> final(self).depth == iir_depth(prelude_of(old(self))),
            pre_loop_action(prelude_of(old(self))) is None ==> loop_opens(old(self).alpha, old(self).beta,
                iir_depth(prelude_of(old(self))), old(self).tt_move, old(self).in_check, final(self), r),
            final(self).stored_eval == old(self).stored_eval && final(self).in_check == old(self).in_check,
            final(self).node == old(self).node && final(self).static_eval == old(self).static_eval,
            final(self).can_prune == old(self).can_prune && final(self).tt_move == old(self).tt_move,
            node_ok(final(self)),
            request_ok(r),
            !(r is Return),
            store_ok(r, final(self)),
            correction_ok(r, final(self)),
            final(self).alpha == old(self).alpha && final(self).beta == old(self).beta,
    {
        if should_try_razoring(self.depth, self.static_eval, self.alpha, self.can_prune) {
            let margin = razor_margin(self.depth);
            self.window_alpha = self.alpha - margin;
            self.stage = NodeStage::Razoring;
            return NodeAction::Qsearch { ply: self.node.ply, alpha: self.window_alpha, beta: self.window_alpha + 1 };
        }
        self.after_razor()
    }

    /// Reverse futility pruning, then the null move.
    fn after_razor(&mut self) -> (r: NodeAction)
        requires
            old(self).basics(),
            old(self).depth >= 1,
        ensures
            !(r is Abort),
            r matches NodeAction::Store { score, .. } ==> final(self).pending == score,
            r matches NodeAction::Describe(m) ==> final(self).current == m,
            !(r is Unmake || r is UnmakeNull),
            move_made(final(self).stage) <==> (r is Make || r is MakeNull),
            stage_follows(r, final(self).stage),
            after_razor_action(prelude_of(old(self))) matches Some(a) ==> r == a,
            after_razor_action(prelude_of(old(self))) is None ==> final(self).depth == iir_depth(prelude_of(old(self))),
            after_razor_action(prelude_of(old(self))) is None ==> loop_opens(old(self).alpha, old(self).beta,
                iir_depth(prelude_of(old(self))), old(self).tt_move, old(self).in_check, final(self), r),
            final(self).stored_eval == old(self).stored_eval && final(self).in_check == old(self).in_check,
            final(self).node == old(self).node && final(self).static_eval == old(self).static_eval,
            final(self).can_prune == old(self).can_prune && final(self).tt_move == old(self).tt_move,
            node_ok(final(self)),
            request_ok(r),
            !(r is Return),
            store_ok(r, final(self)),
            correction_ok(r, final(self)),
            final(self).alpha == old(self).alpha && final(self).beta == old(self).beta,
    {
        if should_prune_reverse_futility(self.depth, self.static_eval, self.beta, self.can_prune) {
            let score = self.static_eval - rfp_margin(self.depth);
            return self.store(Move::null(), score, Bound::Lower);
        }
        if should_try_null_move(self.depth, self.static_eval, self.beta, self.can_prune) {
            self.stage = NodeStage::NullMaking;
            return NodeAction::MakeNull;
        }
        self.after_null()
    }

    /// Internal iterative reduction, then ProbCut, then the move loop.
    fn after_null(&mut self) -> (r: NodeAction)
        requires
            old(self).basics(),
            old(self).depth >= 1,
        ensures
            !(r is Abort),
            r matches NodeAction::Store { score, .. } ==> final(self).pending == score,
            r matches NodeAction::Describe(m) ==> final(self).current == m,
            !(r is Unmake || r is UnmakeNull),
            move_made(final(self).stage) <==> (r is Make || r is MakeNull),
            stage_follows(r, final(self).stage),
            tries_probcut(prelude_of(old(self))) ==> r == NodeAction::ProbcutCaptures,
            !tries_probcut(prelude_of(old(self))) ==> loop_opens(old(self).alpha, old(self).beta,
                iir_depth(prelude_of(old(self))), old(self).tt_move, old(self).in_check, final(self), r),
            final(self).depth == iir_depth(prelude_of(old(self))),
            final(self).stored_eval == old(self).stored_eval && final(self).in_check == old(self).in_check,
            final(self).node == old(self).node && final(self).static_eval == old(self).static_eval,
            final(self).can_prune == old(self).can_prune && final(self).tt_move == old(self).tt_move,
            node_ok(final(self)),
            request_ok(r),
            !(r is Return),
            store_ok(r, final(self)),
            correction_ok(r, final(self)),
            final(self).alpha == old(self).alpha && final(self).beta == old(self).beta,
    {
        if should_apply_iir(self.depth, self.node, self.tt_move) {
            self.depth = self.depth - 1;
        }
        if should_try_probcut(self.depth, self.node, self.beta, self.in_check, self.static_eval) {
            self.prob_beta = probcut_beta(self.beta);
            self.reduced_depth = probcut_depth(self.depth);
            self.probe_score = 0;
            self.stage = NodeStage::ProbcutListing;
            return NodeAction::ProbcutCaptures;
        }
        self.start_moves()
    }

    /// The next ProbCut candidate from `candidate` on, or the move loop when none is left.
    fn next_candidate(&mut self) -> (r: NodeAction)
        requires
            old(self).basics(),
            old(self).depth >= 1,
            old(self).prob_beta == old(self).beta + 200,
            score_ok(old(self).probe_score),
            !crate::search::types::is_mate_score_spec(old(self).beta as int),
        ensures
            !(r is Abort),
            r matches NodeAction::Store { score, .. } ==> final(self).pending == score,
            r matches NodeAction::Describe(m) ==> final(self).current == m,
            !(r is Unmake || r is UnmakeNull),
            move_made(final(self).stage) <==> (r is Make || r is MakeNull),
            stage_follows(r, final(self).stage),
            node_ok(final(self)),
            request_ok(r),
            !(r is Return),
            store_ok(r, final(self)),
            correction_ok(r, final(self)),
            final(self).alpha == old(self).alpha && final(self).beta == old(self).beta,
            final(self).candidates == old(self).candidates,
            next_try_ok(old(self), old(self).candidate as int, final(self), r),
    {
        let mut i = self.candidate;
        while i < self.candidates.len()
            invariant
                self.basics(),
                self.depth >= 1,
                self.prob_beta == self.beta + 200,
                score_ok(self.probe_score),
                !crate::search::types::is_mate_score_spec(self.beta as int),
                self.alpha == old(self).alpha && self.beta == old(self).beta,
                self.depth == old(self).depth && self.tt_move == old(self).tt_move && self.in_check == old(self).in_check,
                self.candidates == old(self).candidates,
                old(self).candidate <= i,
                forall|j: int| old(self).candidate <= j < i ==> !probcut_try(#[trigger] self.candidates@[j]),
            decreases self.candidates@.len() - i,
        {
            let (mv, see_ok) = self.candidates[i];
            if probcut_candidate(mv, see_ok) {
                self.candidate = i;
                self.current = mv;
                self.stage = NodeStage::ProbcutMaking;
                return NodeAction::Make(mv);
            }
            i = i + 1;
        }
        self.start_moves()
    }

    /// Opens the move loop.
    fn start_moves(&mut self) -> (r: NodeAction)
        requires
            old(self).basics(),
            old(self).depth >= 1,
        ensures
            !(r is Abort),
            r matches NodeAction::Store { score, .. } ==> final(self).pending == score,
            r matches NodeAction::Describe(m) ==> final(self).current == m,
            !(r is Unmake || r is UnmakeNull),
            move_made(final(self).stage) <==> (r is Make || r is MakeNull),
            stage_follows(r, final(self).stage),
            !(r is Make),
            final(self).candidates == old(self).candidates,
            prelude_of(final(self)) == prelude_of(old(self)),
            node_ok(final(self)),
            request_ok(r),
            !(r is Return),
            store_ok(r, final(self)),
            correction_ok(r, final(self)),
            final(self).alpha == old(self).alpha && final(self).beta == old(self).beta,
            loop_opens(old(self).alpha, old(self).beta, old(self).depth, old(self).tt_move, old(self).in_check, final(self), r),
    {
        let mode = if self.in_check { TtMode::ValidateInStage } else { TtMode::BlindTrust };
        self.picker = MovePicker::new(self.tt_move, mode, self.in_check);
        let ghost q = self.picker;
        self.moves = MoveLoop::new(self.alpha, self.beta, -SCORE_LIMIT);
        self.saw_legal_move = false;
        self.searched_quiets = Vec::new();
        self.searched_captures = Vec::new();
        let r = self.pick();
        assert(fresh_picker(q, old(self).tt_move, old(self).in_check) && picker_gave(q, self.picker, r));
        r
    }

    /// Asks the picker for the next move.
    fn pick(&mut self) -> (r: NodeAction)
        requires
            old(self).basics(),
            old(self).depth >= 1,
            move_loop_ok(old(self).moves),
            old(self).moves.alpha_orig == old(self).alpha,
            old(self).moves.beta == old(self).beta,
            score_ok(old(self).moves.best_score),
            picker_ok(&old(self).picker),
            old(self).moves.searched <= 100_000,
            old(self).searched_quiets@.len() <= old(self).moves.searched,
            old(self).searched_captures@.len() <= old(self).moves.searched,
        ensures
            !(r is Abort),
            r matches NodeAction::Store { score, .. } ==> final(self).pending == score,
            r matches NodeAction::Describe(m) ==> final(self).current == m,
            !(r is Unmake || r is UnmakeNull),
            move_made(final(self).stage) <==> (r is Make || r is MakeNull),
            final(self).moves == old(self).moves,
            r is Store || r is UpdateCorrection <==> final(self).picker.phase == Phase::Done,
            stage_follows(r, final(self).stage),
            final(self).candidates == old(self).candidates,
            !(r is Make),
            final(self).saw_legal_move == old(self).saw_legal_move,
            !(r is CutoffHistory),
            prelude_of(final(self)) == prelude_of(old(self)),
            node_ok(final(self)),
            request_ok(r),
            !(r is Return),
            store_ok(r, final(self)),
            correction_ok(r, final(self)),
            final(self).alpha == old(self).alpha && final(self).beta == old(self).beta,
            picker_gave(old(self).picker, final(self).picker, r),
            final(self).searched_quiets == old(self).searched_quiets,
            final(self).searched_captures == old(self).searched_captures,
    {
        self.stage = NodeStage::Picking;
        match self.picker.next_action() {
            PickerAction::Yield(mv) => {
                self.current = mv;
                self.stage = NodeStage::Describing;
                NodeAction::Describe(mv)
            },
            PickerAction::LoadStage(phase) => {
                self.stage = NodeStage::PickerLoading;
                NodeAction::LoadStage(phase)
            },
            PickerAction::CheckQuiets(mv) => {
                self.stage = NodeStage::PickerChecking;
                NodeAction::CheckQuiets(mv)
            },
            PickerAction::Done => self.finish(),
        }
    }

    /// Ends the move loop: mate or stalemate without legal moves, else the
    /// best score with its bound (after a correction update where due).
    fn finish(&mut self) -> (r: NodeAction)
        requires
            old(self).picker.phase == Phase::Done,
            old(self).basics(),
            move_loop_ok(old(self).moves),
            old(self).moves.alpha_orig == old(self).alpha,
            old(self).moves.beta == old(self).beta,
            score_ok(old(self).moves.best_score),
            picker_ok(&old(self).picker),
            old(self).depth >= 1,
            old(self).moves.searched <= 100_000,
            old(self).searched_quiets@.len() <= old(self).moves.searched,
            old(self).searched_captures@.len() <= old(self).moves.searched,
        ensures
            !(r is Abort),
            r matches NodeAction::Store { score, .. } ==> final(self).pending == score,
            r matches NodeAction::Describe(m) ==> final(self).current == m,
            !(r is Unmake || r is UnmakeNull),
            move_made(final(self).stage) <==> (r is Make || r is MakeNull),
            final(self).moves == old(self).moves,
            r is Store || r is UpdateCorrection <==> final(self).picker.phase == Phase::Done,
            stage_follows(r, final(self).stage),
            final(self).candidates == old(self).candidates,
            !(r is Make),
            final(self).saw_legal_move == old(self).saw_legal_move,
            !(r is CutoffHistory),
            prelude_of(final(self)) == prelude_of(old(self)),
            node_ok(final(self)),
            request_ok(r),
            !(r is Return),
            store_ok(r, final(self)),
            correction_ok(r, final(self)),
            final(self).alpha == old(self).alpha && final(self).beta == old(self).beta,
            final(self).picker == old(self).picker,
            final(self).searched_quiets == old(self).searched_quiets,
            final(self).searched_captures == old(self).searched_captures,
    {
        if !self.saw_legal_move {
            let score = no_moves_score(self.in_check, self.node.ply);
            return self.store(Move::null(), score, Bound::Exact);
        }
        let bound = self.moves.bound();
        if should_update_correction(bound, self.in_check, self.moves.best_score, self.stored_eval) {
            self.stage = NodeStage::Correcting;
            return NodeAction::UpdateCorrection { delta: self.moves.best_score - self.stored_eval as i32, depth: self.depth };
        }
        let best = self.moves.best_move;
        let score = self.moves.best_score;
        self.store(best, score, bound)
    }
}

impl NodeMachine {
    /// The facts of the move to search: the pruning rules of the move loop
    /// may skip it; otherwise it is made.
    fn on_facts(&mut self, f: MoveFacts) -> (r: NodeAction)
        requires
            node_ok(old(self)),
            old(self).stage == NodeStage::Describing,
            old(self).moves.searched < 100_000,
        ensures
            !(r is Abort),
            r matches NodeAction::Store { score, .. } ==> final(self).pending == score,
            r matches NodeAction::Describe(m) ==> final(self).current == m,
            !(r is Unmake || r is UnmakeNull),
            move_made(final(self).stage) <==> (r is Make || r is MakeNull),
            r is Store || r is UpdateCorrection <==> final(self).picker.phase == Phase::Done,
            stage_follows(r, final(self).stage),
            final(self).saw_legal_move,
            r matches NodeAction::Make(m) ==> m == old(self).current,
            node_ok(final(self)),
            request_ok(r),
            !(r is Return),
            store_ok(r, final(self)),
            correction_ok(r, final(self)),
            final(self).alpha == old(self).alpha && final(self).beta == old(self).beta,
            picker_gave(old(self).picker, final(self).picker, r),
            r is Make <==> !move_pruned(old(self), f),
            final(self).moves == after_facts(old(self), f),
    {
        let mv = self.current;
        self.saw_legal_move = true;
        let quiet = is_quiet_move(mv);
        let maybe_check = quiet && f.maybe_check;
        let history = if quiet { f.history_score } else { 0 };
        let record = capture_history_record(mv, f.moved, f.on_target);
        if should_prune_futility(mv, self.tt_move, quiet, maybe_check, self.depth, self.moves.alpha, self.static_eval, self.can_prune) {
            let floor = self.static_eval + futility_margin(self.depth);
            self.moves.raise_floor(floor);
            return self.pick();
        }
        if should_prune_late_quiet(mv, self.tt_move, quiet, maybe_check, self.depth, self.moves.searched, self.can_prune) {
            return self.pick();
        }
        if should_prune_late_bad_capture(mv, self.tt_move, maybe_check, self.depth, self.moves.searched, self.moves.alpha,
            self.static_eval, self.can_prune, f.see_not_losing, f.on_target) {
            return self.pick();
        }
        self.quiet = quiet;
        self.history_score = history;
        self.record = record;
        self.child = ChildSearch {
            stage: crate::search::alphabeta::ChildStage::FullWindow,
            child_depth: 0,
            pv_node: false,
            try_null_window: false,
            alpha: self.moves.alpha,
            beta: self.moves.beta,
        };
        self.stage = NodeStage::Making;
        NodeAction::Make(mv)
    }

    /// The move is made: plans its searches.
    fn on_made(&mut self) -> (r: NodeAction)
        requires
            node_ok(old(self)),
            old(self).stage == NodeStage::Making,
        ensures
            !(r is Abort),
            r matches NodeAction::Store { score, .. } ==> final(self).pending == score,
            r matches NodeAction::Describe(m) ==> final(self).current == m,
            move_made(final(self).stage) <==> r is Search,
            stage_follows(r, final(self).stage),
            node_ok(final(self)),
            request_ok(r),
            !(r is Return),
            r is Search,
            requests(r, first_child_request(old(self)), old(self).node.ply),
            final(self).alpha == old(self).alpha && final(self).beta == old(self).beta,
    {
        let searched = self.moves.searched;
        let try_null_window = searched >= PVS_FULL_WINDOW_MOVES;
        let reduction = if should_reduce_lmr(self.current, self.tt_move, self.quiet, self.in_check, self.depth,
            self.history_score, searched, try_null_window) {
            Some(lmr_reduction(self.depth, searched, self.node, self.history_score))
        } else {
            None
        };
        let (child, req) = ChildSearch::start(self.depth, self.node.pv_node, self.moves.alpha, self.moves.beta, try_null_window, reduction);
        self.child = child;
        self.stage = NodeStage::Searching;
        self.child_request(req)
    }

    /// A child search returned: another window, or the move's score.
    fn on_child_score(&mut self, child_score: i32) -> (r: NodeAction)
        requires
            node_ok(old(self)),
            old(self).stage == NodeStage::Searching,
            score_ok(child_score),
        ensures
            !(r is Abort),
            r matches NodeAction::Store { score, .. } ==> final(self).pending == score,
            r matches NodeAction::Describe(m) ==> final(self).current == m,
            move_made(final(self).stage) <==> r is Search,
            stage_follows(r, final(self).stage),
            node_ok(final(self)),
            request_ok(r),
            !(r is Return),
            r is Search || (r == NodeAction::Unmake(old(self).current) && final(self).child_score == -child_score),
            match next_child_request(old(self).child, -child_score) {
                Some(req) => requests(r, req, old(self).node.ply),
                None => r == NodeAction::Unmake(old(self).current) && final(self).child_score == -child_score,
            },
            final(self).alpha == old(self).alpha && final(self).beta == old(self).beta,
    {
        let score = -child_score;
        match self.child.on_score(score) {
            Some(req) => self.child_request(req),
            None => {
                self.child_score = score;
                self.stage = NodeStage::Unmaking;
                NodeAction::Unmake(self.current)
            },
        }
    }

    /// The move is taken back: its score enters the loop, and a cutoff
    /// rewards it in the history.
    fn on_unmade(&mut self) -> (r: NodeAction)
        requires
            node_ok(old(self)),
            old(self).stage == NodeStage::Unmaking,
        ensures
            !(r is Abort),
            r matches NodeAction::Store { score, .. } ==> final(self).pending == score,
            r matches NodeAction::Describe(m) ==> final(self).current == m,
            !(r is Unmake || r is UnmakeNull),
            move_made(final(self).stage) <==> (r is Make || r is MakeNull),
            old(self).child_score < old(self).beta ==> final(self).moves == offered(old(self).moves, old(self).current, old(self).child_score),
            old(self).child_score < old(self).beta ==> (r is Store || r is UpdateCorrection <==> final(self).picker.phase == Phase::Done),
            stage_follows(r, final(self).stage),
            node_ok(final(self)),
            request_ok(r),
            !(r is Return),
            store_ok(r, final(self)),
            correction_ok(r, final(self)),
            final(self).alpha == old(self).alpha && final(self).beta == old(self).beta,
            old(self).child_score >= old(self).beta <==> r is CutoffHistory,
            old(self).child_score < old(self).beta ==> picker_gave(old(self).picker, final(self).picker, r),
            r matches NodeAction::CutoffHistory { mv, quiet, record, failed_quiets, failed_captures, depth }
                ==> mv == old(self).current && quiet == old(self).quiet && record == old(self).record && depth == old(self).depth
                && failed_lists_ok(old(self), quiet, record, failed_quiets@, failed_captures@),
    {
        let mv = self.current;
        if self.quiet {
            self.searched_quiets.push(mv);
        } else if let Some(rec) = self.record {
            self.searched_captures.push(rec);
        }
        let score = self.child_score;
        let cutoff = self.moves.offer(mv, score);
        if cutoff {
            let mut failed_quiets: Vec<Move> = Vec::new();
            let mut failed_captures: Vec<CaptureHistoryRecord> = Vec::new();
            if self.quiet {
                let n = self.searched_quiets.len() - 1;
                let mut i: usize = 0;
                while i < n
                    invariant
                        i <= n,
                        n < self.searched_quiets@.len(),
                        n == old(self).searched_quiets@.len(),
                        self.searched_quiets@ == old(self).searched_quiets@.push(mv),
                        failed_quiets@ == old(self).searched_quiets@.take(i as int),
                    decreases n - i,
                {
                    assert(old(self).searched_quiets@.take(i + 1) =~= old(self).searched_quiets@.take(i as int).push(self.searched_quiets@[i as int]));
                    failed_quiets.push(self.searched_quiets[i]);
                    i = i + 1;
                }
            } else if self.record.is_some() {
                let n = self.searched_captures.len() - 1;
                let mut i: usize = 0;
                while i < n
                    invariant
                        i <= n,
                        n < self.searched_captures@.len(),
                        n == old(self).searched_captures@.len(),
                        self.searched_captures@ == old(self).searched_captures@.push(self.record->0),
                        failed_captures@ == old(self).searched_captures@.take(i as int),
                    decreases n - i,
                {
                    assert(old(self).searched_captures@.take(i + 1) =~= old(self).searched_captures@.take(i as int).push(self.searched_captures@[i as int]));
                    failed_captures.push(self.searched_captures[i]);
                    i = i + 1;
                }
            }
            assert(old(self).searched_quiets@.take(old(self).searched_quiets@.len() as int) =~= old(self).searched_quiets@);
            assert(old(self).searched_captures@.take(old(self).searched_captures@.len() as int) =~= old(self).searched_captures@);
            self.stage = NodeStage::Rewarding;
            return NodeAction::CutoffHistory {
                mv,
                quiet: self.quiet,
                record: self.record,
                failed_quiets,
                failed_captures,
                depth: self.depth,
            };
        }
        self.pick()
    }
}

/// A correction update follows an exact result out of check, with a stored
/// evaluation and neither value a mate score; it moves the correction by the
/// result less the stored evaluation.
pub open spec fn correction_ok(a: NodeAction, m: &NodeMachine) -> bool {
    a matches NodeAction::UpdateCorrection { delta, depth } ==> {
        &&& m.stage == NodeStage::Correcting
        &&& m.saw_legal_move
        &&& m.moves.best_score > m.moves.alpha_orig
        &&& !m.in_check
        &&& m.stored_eval != NO_STATIC_EVAL
        &&& !is_mate_score_spec(m.moves.best_score as int) && !is_mate_score_spec(m.stored_eval as int)
        &&& delta == m.moves.best_score - m.stored_eval
        &&& depth == m.depth
    }
}

/// The moves a cutoff penalises: after a quiet cutoff the quiet moves searched
/// before it, after a capture's cutoff the captures searched before it.
pub open spec fn failed_lists_ok(
    m: &NodeMachine,
    quiet: bool,
    record: Option<CaptureHistoryRecord>,
    failed_quiets: Seq<Move>,
    failed_captures: Seq<CaptureHistoryRecord>,
) -> bool {
    if quiet {
        failed_quiets == m.searched_quiets@ && failed_captures.len() == 0
    } else if record is Some {
        failed_captures == m.searched_captures@ && failed_quiets.len() == 0
    } else {
        failed_quiets.len() == 0 && failed_captures.len() == 0
    }
}

/// The loop's bookkeeping once a move's score below `beta` is in: the best
/// score and move, the raised lower end of the window, one more move searched.
pub open spec fn offered(l: MoveLoop, mv: Move, score: i32) -> MoveLoop {
    MoveLoop {
        alpha_orig: l.alpha_orig,
        alpha: if score > l.alpha { score } else { l.alpha },
        beta: l.beta,
        best_score: if score > l.best_score { score } else { l.best_score },
        best_move: if score > l.best_score { mv } else { l.best_move },
        searched: (l.searched + 1) as usize,
    }
}

/// In these stages a move (or the null move) made by the node is on the board.
pub open spec fn move_made(s: NodeStage) -> bool {
    s == NodeStage::NullMaking || s == NodeStage::NullSearching || s == NodeStage::ProbcutMaking
        || s == NodeStage::ProbcutQuiescence || s == NodeStage::ProbcutVerifying || s == NodeStage::Making
        || s == NodeStage::Searching
}

/// The stage a node waits in after each request.
pub open spec fn stage_follows(r: NodeAction, s: NodeStage) -> bool {
    match r {
        NodeAction::Enter => s == NodeStage::Entering,
        NodeAction::Qsearch { .. } => s == NodeStage::Quiescence || s == NodeStage::Razoring || s == NodeStage::ProbcutQuiescence,
        NodeAction::ProbeTt => s == NodeStage::Probing,
        NodeAction::Analyze => s == NodeStage::Analysing,
        NodeAction::Evaluate { .. } => s == NodeStage::Evaluating,
        NodeAction::MakeNull => s == NodeStage::NullMaking,
        NodeAction::UnmakeNull => s == NodeStage::NullUnmaking || s == NodeStage::Abandoning,
        NodeAction::Make(_) => s == NodeStage::ProbcutMaking || s == NodeStage::Making,
        NodeAction::Unmake(_) => s == NodeStage::ProbcutUnmaking || s == NodeStage::Unmaking || s == NodeStage::Abandoning,
        NodeAction::Search { .. } => s == NodeStage::NullSearching || s == NodeStage::ProbcutVerifying || s == NodeStage::Searching,
        NodeAction::ProbcutCaptures => s == NodeStage::ProbcutListing,
        NodeAction::LoadStage(_) => s == NodeStage::PickerLoading,
        NodeAction::CheckQuiets(_) => s == NodeStage::PickerChecking,
        NodeAction::Describe(_) => s == NodeStage::Describing,
        NodeAction::CutoffHistory { .. } => s == NodeStage::Rewarding,
        NodeAction::UpdateCorrection { .. } => s == NodeStage::Correcting,
        NodeAction::Store { .. } => s == NodeStage::Storing,
        NodeAction::Return(_) => s == NodeStage::Finished,
        NodeAction::Abort => s == NodeStage::Finished,
    }
}

/// The node's own moves balance: it makes a move only with none on the board,
/// takes one back only with one on the board, changes nothing else, and
/// returns only with its board as it found it.
pub open spec fn balanced(before: NodeStage, after: NodeStage, r: NodeAction) -> bool {
    &&& (r is Make || r is MakeNull) ==> !move_made(before) && move_made(after)
    &&& (r is Unmake || r is UnmakeNull) ==> move_made(before) && !move_made(after)
    &&& !(r is Make || r is MakeNull || r is Unmake || r is UnmakeNull) ==> move_made(after) == move_made(before)
    &&& r is Return ==> !move_made(before)
    &&& r is Abort ==> !move_made(before)
}

/// The stages of the move loop that consult the picker.
pub open spec fn picking_step(m: &NodeMachine) -> bool {
    m.stage == NodeStage::PickerLoading || m.stage == NodeStage::PickerChecking || m.stage == NodeStage::Describing
        || (m.stage == NodeStage::Unmaking && m.child_score < m.beta)
}

/// What every step of a node guarantees: its invariant, windows every node
/// accepts, stored bounds that are right about the window, a table hit that
/// ends the node only when its bound settles the window, and after a store
/// the stored score returned.
pub open spec fn step_ok(before: &NodeMachine, after: &NodeMachine, e: NodeEvent, r: NodeAction) -> bool {
    &&& node_ok(after)
    &&& request_ok(r)
    &&& store_ok(r, after)
    &&& correction_ok(r, after)
    &&& after.alpha == before.alpha && after.beta == before.beta
    &&& before.stage == NodeStage::Storing ==> r == NodeAction::Return(before.pending)
    &&& before.stage == NodeStage::Quiescence ==> (e matches NodeEvent::Score(s) ==> r == NodeAction::Return(s))
    &&& before.stage == NodeStage::Probing ==> (e matches NodeEvent::Tt(h) ==> (h matches Some(hit) ==> (
        hit.depth >= before.depth && bound_settles(hit.bound, hit.score as int, before.alpha as int, before.beta as int)
            <==> r == NodeAction::Return(hit.score))))
    &&& r is Return ==> after.stage == NodeStage::Finished
    &&& step_acts(before, after, e, r)
    &&& stage_follows(r, after.stage)
    &&& balanced(before.stage, after.stage, r)
    &&& r is Return ==> (before.stage == NodeStage::Quiescence || before.stage == NodeStage::Entering
        || before.stage == NodeStage::Probing || before.stage == NodeStage::Razoring || before.stage == NodeStage::Storing)
    &&& picking_step(before) ==> (r is Store || r is UpdateCorrection <==> after.picker.phase == Phase::Done)
    &&& before.stage == NodeStage::Unmaking && before.child_score < before.beta
        ==> after.moves == offered(before.moves, before.current, before.child_score)
    &&& r matches NodeAction::Store { score, .. } ==> after.pending == score
    &&& r matches NodeAction::Describe(m) ==> after.current == m
    &&& e is Interrupted ==> if before.stage == NodeStage::NullSearching {
        r == NodeAction::UnmakeNull && after.stage == NodeStage::Abandoning
    } else if move_made(before.stage) {
        r == NodeAction::Unmake(before.current) && after.stage == NodeStage::Abandoning
    } else {
        r is Abort
    }
    &&& before.stage == NodeStage::Abandoning ==> r is Abort
    &&& r is Abort ==> e is Interrupted || before.stage == NodeStage::Abandoning
    &&& (before.stage == NodeStage::Describing || (before.stage == NodeStage::Unmaking && before.child_score < before.beta))
        ==> picker_gave(before.picker, after.picker, r)
    &&& before.stage == NodeStage::PickerLoading ==> (e matches NodeEvent::StageMoves(entries) ==> picker_gave(
        MovePicker { entries: entries, next: 0, stage_loaded: true, ..before.picker }, after.picker, r))
    &&& before.stage == NodeStage::PickerChecking ==> (e matches NodeEvent::QuietsContain(found) ==> picker_gave(
        MovePicker { quiet_answer: Some(found), ..before.picker }, after.picker, r))
}

/// Futility pruning of the described move, given its facts.
pub open spec fn futility_pruned(m: &NodeMachine, f: MoveFacts) -> bool {
    let quiet = is_quiet_spec(m.current);
    futility_prunes_spec(m.current, m.tt_move, quiet, quiet && f.maybe_check, m.depth, m.moves.alpha, m.static_eval, m.can_prune)
}

/// The move loop's pruning rules for the described move, given its facts:
/// futility, late quiet moves, late losing captures.
pub open spec fn move_pruned(m: &NodeMachine, f: MoveFacts) -> bool {
    let quiet = is_quiet_spec(m.current);
    let maybe_check = quiet && f.maybe_check;
    ||| futility_pruned(m, f)
    ||| late_quiet_prunes_spec(m.current, m.tt_move, quiet, maybe_check, m.depth, m.moves.searched, m.can_prune)
    ||| late_bad_capture_prunes_spec(m.current, m.tt_move, maybe_check, m.depth, m.moves.searched, m.moves.alpha,
        m.static_eval, m.can_prune, f.see_not_losing, f.on_target)
}

/// The loop's bookkeeping after the described move: a futility-pruned move
/// raises the best score to the static evaluation plus the margin.
pub open spec fn after_facts(m: &NodeMachine, f: MoveFacts) -> MoveLoop {
    if futility_pruned(m, f) {
        let floor = m.static_eval + futility_margin_spec(m.depth);
        MoveLoop { best_score: if floor > m.moves.best_score { floor as i32 } else { m.moves.best_score }, ..m.moves }
    } else {
        m.moves
    }
}

/// A picker as the move loop opens: at the table's move (cleared when its
/// kind is not in use), trusted as is out of check and looked for among the
/// evasions in check, nothing loaded yet.
pub open spec fn fresh_picker(p: MovePicker, tt_move: Move, in_check: bool) -> bool {
    &&& p.phase == Phase::Tt
    &&& p.tt_move == (if move_kind(tt_move) <= 4 || move_kind(tt_move) >= 8 { tt_move } else { Move { bits: 0 } })
    &&& p.tt_mode == (if in_check { TtMode::ValidateInStage } else { TtMode::BlindTrust })
    &&& p.in_check == in_check
    &&& !p.tt_yielded && !p.stage_loaded && !p.validating && p.quiet_answer is None
}

/// The move loop opens at `depth` over the window `(alpha, beta)` with request
/// `r`: no move searched or seen yet, the best score at its floor, and a fresh
/// picker whose first step gave `r`.
pub open spec fn loop_opens(alpha: i32, beta: i32, depth: u8, tt_move: Move, in_check: bool, after: &NodeMachine, r: NodeAction) -> bool {
    &&& after.depth == depth
    &&& after.moves == MoveLoop {
        alpha_orig: alpha,
        alpha,
        beta,
        best_score: (-SCORE_LIMIT) as i32,
        best_move: Move { bits: 0 },
        searched: 0,
    }
    &&& !after.saw_legal_move
    &&& after.searched_quiets@.len() == 0 && after.searched_captures@.len() == 0
    &&& exists|q: MovePicker| fresh_picker(q, tt_move, in_check) && #[trigger] picker_gave(q, after.picker, r)
}

/// When `r` comes of consulting the picker, the picker's step that gave it:
/// a move to describe is the move it yields, a stage to generate or a quiet
/// check is what it asks for, and the loop's end is its end.
pub open spec fn picker_gave(before: MovePicker, after: MovePicker, r: NodeAction) -> bool {
    match r {
        NodeAction::Describe(m) => picker_next(before, after, PickerAction::Yield(m)),
        NodeAction::LoadStage(ph) => picker_next(before, after, PickerAction::LoadStage(ph)),
        NodeAction::CheckQuiets(m) => picker_next(before, after, PickerAction::CheckQuiets(m)),
        NodeAction::Store { .. } => picker_next(before, after, PickerAction::Done),
        NodeAction::UpdateCorrection { .. } => picker_next(before, after, PickerAction::Done),
        _ => true,
    }
}

/// The first search of the move being tried, one ply shallower: a reduced
/// null-window search when late-move reduction applies (a quiet move other
/// than the table's, out of check, deep enough and late enough), a
/// null-window search when the move is not among the first, else a
/// full-window search.
pub open spec fn first_child_request(m: &NodeMachine) -> ChildRequest {
    let searched = m.moves.searched;
    let try_null_window = searched >= PVS_FULL_WINDOW_MOVES;
    let reduce = try_null_window && !m.in_check && m.depth >= LMR_MIN_DEPTH && searched >= LMR_FULL_DEPTH_MOVES
        && m.current.bits != m.tt_move.bits && m.quiet;
    if reduce {
        null_window_request(
            (m.depth - 1 - lmr_reduction_spec(m.depth, searched, m.node.pv_node, m.history_score)) as u8,
            m.moves.alpha,
        )
    } else if try_null_window {
        null_window_request((m.depth - 1) as u8, m.moves.alpha)
    } else {
        full_window_request((m.depth - 1) as u8, m.node.pv_node, m.moves.alpha, m.moves.beta)
    }
}

/// The next search of the move being tried once `score` (from this node's
/// side) is in, if any: a reduced search that fails low, or a null-window
/// search that fails outside the window, is final; otherwise the null-window
/// search at full depth, then the full-window search, follow.
pub open spec fn next_child_request(c: ChildSearch, score: int) -> Option<ChildRequest> {
    match c.stage {
        ChildStage::Reduced => if score <= c.alpha {
            None
        } else if c.try_null_window {
            Some(null_window_request(c.child_depth, c.alpha))
        } else {
            Some(full_window_request(c.child_depth, c.pv_node, c.alpha, c.beta))
        },
        ChildStage::NullWindow => if score <= c.alpha || score >= c.beta {
            None
        } else {
            Some(full_window_request(c.child_depth, c.pv_node, c.alpha, c.beta))
        },
        ChildStage::FullWindow => None,
    }
}

/// `r` asks for the search `req` of a child one ply below `ply`, a cut
/// node when its window is null.
pub open spec fn requests(r: NodeAction, req: ChildRequest, ply: u8) -> bool {
    r matches NodeAction::Search { depth, node, alpha, beta } && depth == req.depth && alpha == req.alpha && beta == req.beta
        && node.ply == ply + 1 && node.pv_node == req.pv_node && node.cut_node == (req.beta == req.alpha + 1)
}

/// How many of the requests in `rs` put a move (or the null move) on the board.
pub open spec fn count_makes(rs: Seq<NodeAction>) -> int
    decreases rs.len(),
{
    if rs.len() == 0 {
        0
    } else {
        count_makes(rs.drop_last()) + if rs.last() is Make || rs.last() is MakeNull { 1int } else { 0int }
    }
}

/// How many of the requests in `rs` take a move (or the null move) back.
pub open spec fn count_unmakes(rs: Seq<NodeAction>) -> int
    decreases rs.len(),
{
    if rs.len() == 0 {
        0
    } else {
        count_unmakes(rs.drop_last()) + if rs.last() is Unmake || rs.last() is UnmakeNull { 1int } else { 0int }
    }
}

/// A node undoes every move it makes. Over any run of steps of a node from
/// its start (`ms[i]` the machine before step `i`, `rs[i]` its request), the
/// moves it made and took back differ by one exactly while one of its moves
/// is on the board; once it returns, or gives up on an interruption, they are equal.
pub proof fn lemma_node_run_balanced(ms: Seq<NodeMachine>, es: Seq<NodeEvent>, rs: Seq<NodeAction>)
    requires
        ms.len() == rs.len() + 1,
        es.len() == rs.len(),
        ms[0].stage == NodeStage::Entering || ms[0].stage == NodeStage::Quiescence,
        forall|i: int| 0 <= i < rs.len() ==> step_ok(&ms[i], &ms[i + 1], es[i], #[trigger] rs[i]),
    ensures
        count_makes(rs) - count_unmakes(rs) == if move_made(ms.last().stage) { 1int } else { 0int },
        rs.len() > 0 && (rs.last() is Return || rs.last() is Abort) ==> count_makes(rs) == count_unmakes(rs),
    decreases rs.len(),
{
    if rs.len() > 0 {
        let n = rs.len() - 1;
        let ms2 = ms.drop_last();
        let es2 = es.drop_last();
        let rs2 = rs.drop_last();
        assert forall|i: int| 0 <= i < rs2.len() implies step_ok(&ms2[i], &ms2[i + 1], es2[i], #[trigger] rs2[i]) by {
            assert(rs2[i] == rs[i]);
            assert(step_ok(&ms[i], &ms[i + 1], es[i], rs[i]));
        }
        lemma_node_run_balanced(ms2, es2, rs2);
        assert(step_ok(&ms[n], &ms[n + 1], es[n], rs[n]));
        assert(ms2.last() == ms[n]);
        assert(ms.last() == ms[n + 1]);
    }
}

/// A node whose move loop found no legal move stores the mate score (in
/// check) or the stalemate score, exactly and with no move, and returns it.
pub proof fn lemma_no_legal_move_result(
    m0: NodeMachine,
    m1: NodeMachine,
    m2: NodeMachine,
    e0: NodeEvent,
    e1: NodeEvent,
    r0: NodeAction,
    r1: NodeAction,
)
    requires
        step_ok(&m0, &m1, e0, r0),
        step_ok(&m1, &m2, e1, r1),
        r0 matches NodeAction::Store { bound, .. } && bound != Bound::Lower,
        !m1.saw_legal_move,
    ensures
        r0 matches NodeAction::Store { mv, score, bound, .. } && mv.bits == 0 && bound == Bound::Exact
            && score == (if m1.in_check { -crate::search::types::mate_score_spec(m1.node.ply) } else { 0 }),
        r1 == NodeAction::Return((if m1.in_check { -crate::search::types::mate_score_spec(m1.node.ply) } else { 0 }) as i32),
{
}

/// Whether a node with `depth`, pruning allowed or not, evaluates statically:
/// for the pruning rules, or for ProbCut.
pub open spec fn evaluates(depth: u8, can_prune: bool, node: NodeState, in_check: bool, beta: i32) -> bool {
    (can_prune && (depth >= NULL_MOVE_MIN_DEPTH || depth <= FUTILITY_MAX_DEPTH || depth <= RFP_MAX_DEPTH
        || depth <= RAZOR_MAX_DEPTH))
    || (!node.pv_node && !in_check && depth >= PROBCUT_MIN_DEPTH && !is_mate_score_spec(beta as int))
}

/// What each step does, stage by stage: the draw and table checks, the
/// evaluation and the decisions before the move loop, the results of
/// razoring, the null move and ProbCut, the searches of a move, a cutoff and
/// the stores that end the node.
pub open spec fn step_acts(before: &NodeMachine, after: &NodeMachine, e: NodeEvent, r: NodeAction) -> bool {
    &&& before.stage == NodeStage::Entering ==> (e matches NodeEvent::Entered { draw }
        ==> r == (if draw { NodeAction::Return(0) } else { NodeAction::ProbeTt }))
    &&& before.stage == NodeStage::Probing ==> (e matches NodeEvent::Tt(h) ==> match h {
        None => r == NodeAction::Analyze && after.tt_move == before.tt_move,
        Some(hit) => after.tt_move == hit.best_move && after.stored_eval == hit.static_eval
            && (!(hit.depth >= before.depth && bound_settles(hit.bound, hit.score as int, before.alpha as int, before.beta as int))
                ==> r == NodeAction::Analyze),
    })
    &&& before.stage == NodeStage::Analysing ==> (e matches NodeEvent::Analysis { in_check, non_pawn_material } ==> {
        let can_prune = before.node.cut_node && !in_check && !is_mate_score_spec(before.alpha as int)
            && !is_mate_score_spec(before.beta as int) && non_pawn_material;
        &&& after.in_check == in_check
        &&& after.can_prune == can_prune
        &&& evaluates(before.depth, can_prune, before.node, in_check, before.beta) ==> r == (NodeAction::Evaluate {
            stored: if before.stored_eval == NO_STATIC_EVAL { None } else { Some(before.stored_eval as i32) },
        })
        &&& !evaluates(before.depth, can_prune, before.node, in_check, before.beta) ==> (pre_loop_action(Prelude {
            can_prune,
            depth: before.depth,
            static_eval: 0,
            alpha: before.alpha,
            beta: before.beta,
            node: before.node,
            tt_move: before.tt_move,
            in_check,
            stored_eval: before.stored_eval,
        }) matches Some(a) ==> r == a)
        &&& !evaluates(before.depth, can_prune, before.node, in_check, before.beta) ==> (pre_loop_action(Prelude {
            can_prune,
            depth: before.depth,
            static_eval: 0,
            alpha: before.alpha,
            beta: before.beta,
            node: before.node,
            tt_move: before.tt_move,
            in_check,
            stored_eval: before.stored_eval,
        }) is None ==> loop_opens(before.alpha, before.beta, iir_depth(prelude_of(before)), before.tt_move, in_check, after, r))
    })
    &&& before.stage == NodeStage::Evaluating ==> (e matches NodeEvent::Eval { raw, correction } ==> {
        let fresh = before.stored_eval == NO_STATIC_EVAL;
        let static_eval = (if fresh { raw as int } else { before.stored_eval as int }) + correction;
        let stored_eval = if fresh { raw as i16 } else { before.stored_eval };
        &&& after.static_eval == static_eval
        &&& after.stored_eval == stored_eval
        &&& pre_loop_action(Prelude {
            can_prune: before.can_prune,
            depth: before.depth,
            static_eval: static_eval as i32,
            alpha: before.alpha,
            beta: before.beta,
            node: before.node,
            tt_move: before.tt_move,
            in_check: before.in_check,
            stored_eval,
        }) matches Some(a) ==> r == a
        &&& pre_loop_action(Prelude {
            can_prune: before.can_prune,
            depth: before.depth,
            static_eval: static_eval as i32,
            alpha: before.alpha,
            beta: before.beta,
            node: before.node,
            tt_move: before.tt_move,
            in_check: before.in_check,
            stored_eval,
        }) is None ==> loop_opens(before.alpha, before.beta, iir_depth(prelude_of(before)), before.tt_move, before.in_check, after, r)
    })
    &&& before.stage == NodeStage::Razoring ==> (e matches NodeEvent::Score(s) ==> if s < before.window_alpha {
        r == NodeAction::Return(s)
    } else {
        &&& after_razor_action(prelude_of(before)) matches Some(a) ==> r == a
        &&& after_razor_action(prelude_of(before)) is None ==> loop_opens(before.alpha, before.beta,
            iir_depth(prelude_of(before)), before.tt_move, before.in_check, after, r)
    })
    &&& before.stage == NodeStage::NullMaking ==> (r matches NodeAction::Search { depth, node, alpha, beta }
        && depth == null_move_depth_spec(before.depth, before.static_eval, before.beta)
        && alpha == -before.beta && beta == -before.beta + 1 && node.ply == before.node.ply + 1 && !node.pv_node)
    &&& before.stage == NodeStage::NullSearching ==> (e matches NodeEvent::Score(s)
        ==> r == NodeAction::UnmakeNull && after.null_score == -s)
    &&& before.stage == NodeStage::NullUnmaking ==> if before.null_score >= before.beta {
        r == (NodeAction::Store { mv: Move { bits: 0 }, score: before.beta, static_eval: before.stored_eval, depth: before.depth, bound: Bound::Lower })
    } else {
        &&& tries_probcut(prelude_of(before)) ==> r == NodeAction::ProbcutCaptures
        &&& !tries_probcut(prelude_of(before)) ==> loop_opens(before.alpha, before.beta,
            iir_depth(prelude_of(before)), before.tt_move, before.in_check, after, r)
    }
    &&& before.stage == NodeStage::ProbcutUnmaking ==> (before.probe_score >= before.prob_beta ==> r == (NodeAction::Store {
        mv: before.current,
        score: before.beta,
        static_eval: before.stored_eval,
        depth: before.depth,
        bound: Bound::Lower,
    }))
    &&& before.stage == NodeStage::ProbcutListing ==> (e matches NodeEvent::ProbcutMoves(list)
        ==> after.candidates@ == list@ && next_try_ok(before, 0, after, r))
    &&& before.stage == NodeStage::ProbcutMaking ==> r == (NodeAction::Qsearch {
        ply: (before.node.ply + 1) as u8,
        alpha: -before.prob_beta as i32,
        beta: (-before.prob_beta + 1) as i32,
    })
    &&& before.stage == NodeStage::ProbcutQuiescence ==> (e matches NodeEvent::Score(s) ==> if -s >= before.prob_beta
        && before.reduced_depth > 0 {
        r matches NodeAction::Search { depth, node, alpha, beta } && depth == before.reduced_depth
            && alpha == -before.prob_beta && beta == -before.prob_beta + 1
    } else {
        r == NodeAction::Unmake(before.current) && after.probe_score == -s
    })
    &&& before.stage == NodeStage::ProbcutVerifying ==> (e matches NodeEvent::Score(s)
        ==> r == NodeAction::Unmake(before.current) && after.probe_score == -s)
    &&& before.stage == NodeStage::ProbcutUnmaking ==> (before.probe_score < before.prob_beta
        ==> after.candidates == before.candidates && next_try_ok(before, before.candidate + 1, after, r))
    &&& before.stage == NodeStage::Describing ==> after.saw_legal_move
        && (r matches NodeAction::Make(m) ==> m == before.current)
    &&& before.stage == NodeStage::Describing ==> (e matches NodeEvent::Facts(f)
        ==> (r is Make <==> !move_pruned(before, f)) && after.moves == after_facts(before, f))
    &&& before.stage == NodeStage::Making ==> requests(r, first_child_request(before), before.node.ply)
    &&& before.stage == NodeStage::Searching ==> (e matches NodeEvent::Score(s) ==> match next_child_request(before.child, -s) {
        Some(req) => requests(r, req, before.node.ply),
        None => r == NodeAction::Unmake(before.current) && after.child_score == -s,
    })
    &&& before.stage == NodeStage::Unmaking ==> (before.child_score >= before.beta <==> r is CutoffHistory)
    &&& before.stage == NodeStage::Unmaking ==> (r matches NodeAction::CutoffHistory { mv, quiet, record, failed_quiets, failed_captures, depth }
        ==> mv == before.current && quiet == before.quiet && record == before.record && depth == before.depth
            && failed_lists_ok(before, quiet, record, failed_quiets@, failed_captures@))
    &&& before.stage == NodeStage::Correcting ==> r == (NodeAction::Store {
        mv: before.moves.best_move,
        score: before.moves.best_score,
        static_eval: before.stored_eval,
        depth: before.depth,
        bound: if before.moves.best_score <= before.moves.alpha_orig { Bound::Upper } else { Bound::Exact },
    })
    &&& before.stage == NodeStage::Rewarding ==> r == (NodeAction::Store {
        mv: before.current,
        score: before.child_score,
        static_eval: before.stored_eval,
        depth: before.depth,
        bound: Bound::Lower,
    })
}

/// ProbCut tries promotions and captures whose exchange does not lose.
pub open spec fn probcut_try(c: (Move, bool)) -> bool {
    is_promotion_kind(move_kind(c.0)) || ((is_capture_kind(move_kind(c.0)) || move_kind(c.0) == KIND_EN_PASSANT) && c.1)
}

/// The next ProbCut try after `from` is made, passing over the others; when
/// none is left the move loop starts.
pub open spec fn next_try_ok(before: &NodeMachine, from: int, after: &NodeMachine, r: NodeAction) -> bool {
    &&& r matches NodeAction::Make(m) ==> {
        &&& from <= after.candidate < after.candidates@.len()
        &&& m == after.candidates@[after.candidate as int].0 && m == after.current
        &&& probcut_try(after.candidates@[after.candidate as int])
        &&& forall|j: int| from <= j < after.candidate ==> !probcut_try(#[trigger] after.candidates@[j])
    }
    &&& !(r is Make) ==> forall|j: int| from <= j < after.candidates@.len() ==> !probcut_try(#[trigger] after.candidates@[j])
    &&& !(r is Make) ==> loop_opens(before.alpha, before.beta, before.depth, before.tt_move, before.in_check, after, r)
}

/// The inputs of the decisions a node takes before its move loop.
pub struct Prelude {
    pub can_prune: bool,
    pub depth: u8,
    pub static_eval: i32,
    pub alpha: i32,
    pub beta: i32,
    pub node: NodeState,
    pub tt_move: Move,
    pub in_check: bool,
    pub stored_eval: i16,
}

/// The prelude of a node as it stands.
pub open spec fn prelude_of(m: &NodeMachine) -> Prelude {
    Prelude {
        can_prune: m.can_prune,
        depth: m.depth,
        static_eval: m.static_eval,
        alpha: m.alpha,
        beta: m.beta,
        node: m.node,
        tt_move: m.tt_move,
        in_check: m.in_check,
        stored_eval: m.stored_eval,
    }
}

/// The depth left after internal iterative reduction: one less without a
/// table move at deep enough PV or cut nodes.
pub open spec fn iir_depth(p: Prelude) -> u8 {
    if p.tt_move.bits == 0 && ((p.node.pv_node && p.depth >= IIR_PV_MIN_DEPTH) || (p.node.cut_node && p.depth >= IIR_CUT_MIN_DEPTH)) {
        (p.depth - 1) as u8
    } else {
        p.depth
    }
}

/// ProbCut is tried at non-PV nodes out of check, deep enough after the
/// reduction, with `beta` away from mate scores and an evaluation near it.
pub open spec fn tries_probcut(p: Prelude) -> bool {
    !p.node.pv_node && !p.in_check && !is_mate_score_spec(p.beta as int) && iir_depth(p) >= PROBCUT_MIN_DEPTH
        && p.static_eval >= p.beta - PROBCUT_MARGIN
}

/// After razoring: a reverse-futility store, the null move, or ProbCut;
/// `None` when the move loop starts.
pub open spec fn after_razor_action(p: Prelude) -> Option<NodeAction> {
    if p.can_prune && p.depth <= RFP_MAX_DEPTH && p.static_eval - rfp_margin_spec(p.depth) >= p.beta {
        Some(NodeAction::Store {
            mv: Move { bits: 0 },
            score: (p.static_eval - rfp_margin_spec(p.depth)) as i32,
            static_eval: p.stored_eval,
            depth: p.depth,
            bound: Bound::Lower,
        })
    } else if p.can_prune && p.depth >= NULL_MOVE_MIN_DEPTH && p.static_eval >= p.beta {
        Some(NodeAction::MakeNull)
    } else if tries_probcut(p) {
        Some(NodeAction::ProbcutCaptures)
    } else {
        None
    }
}

/// Razoring's null-window probe just below `alpha` less the margin.
pub open spec fn razor_probe(p: Prelude) -> NodeAction {
    NodeAction::Qsearch {
        ply: p.node.ply,
        alpha: (p.alpha - razor_margin_spec(p.depth)) as i32,
        beta: (p.alpha - razor_margin_spec(p.depth) + 1) as i32,
    }
}

/// What a node does once its static evaluation is known: razoring's probe at
/// shallow depth when the evaluation is far below `alpha`, else as after razoring.
pub open spec fn pre_loop_action(p: Prelude) -> Option<NodeAction> {
    if p.can_prune && p.depth <= RAZOR_MAX_DEPTH && p.static_eval + razor_margin_spec(p.depth) < p.alpha {
        Some(razor_probe(p))
    } else {
        after_razor_action(p)
    }
}

impl NodeMachine {
    fn on_score(&mut self, s: i32) -> (r: NodeAction)
        requires
            node_ok(old(self)),
            event_fits(old(self), NodeEvent::Score(s)),
        ensures
            r matches NodeAction::Store { score, .. } ==> final(self).pending == score,
            r matches NodeAction::Describe(m) ==> final(self).current == m,
            step_ok(old(self), final(self), NodeEvent::Score(s), r),
    {
        match self.stage {
            NodeStage::Quiescence => {
                self.stage = NodeStage::Finished;
                NodeAction::Return(s)
            },
            NodeStage::Razoring => {
                if s < self.window_alpha {
                    self.stage = NodeStage::Finished;
                    NodeAction::Return(s)
                } else {
                    self.after_razor()
                }
            },
            NodeStage::NullSearching => {
                self.null_score = -s;
                self.stage = NodeStage::NullUnmaking;
                NodeAction::UnmakeNull
            },
            NodeStage::ProbcutQuiescence => {
                let q = -s;
                if probcut_needs_verification(q, self.prob_beta, self.reduced_depth) {
                    self.stage = NodeStage::ProbcutVerifying;
                    let pb = self.prob_beta;
                    NodeAction::Search {
                        depth: self.reduced_depth,
                        node: self.node.child(false, -pb, -pb + 1),
                        alpha: -pb,
                        beta: -pb + 1,
                    }
                } else {
                    self.probe_score = q;
                    self.stage = NodeStage::ProbcutUnmaking;
                    NodeAction::Unmake(self.current)
                }
            },
            NodeStage::ProbcutVerifying => {
                self.probe_score = -s;
                self.stage = NodeStage::ProbcutUnmaking;
                NodeAction::Unmake(self.current)
            },
            _ => self.on_child_score(s),
        }
    }

    fn on_tt(&mut self, h: Option<TtHit>) -> (r: NodeAction)
        requires
            node_ok(old(self)),
            event_fits(old(self), NodeEvent::Tt(h)),
        ensures
            r matches NodeAction::Store { score, .. } ==> final(self).pending == score,
            r matches NodeAction::Describe(m) ==> final(self).current == m,
            step_ok(old(self), final(self), NodeEvent::Tt(h), r),
    {
        if let Some(hit) = h {
            self.tt_move = hit.best_move;
            self.stored_eval = hit.static_eval;
            if let Some(score) = tt_cutoff(hit, self.depth, self.alpha, self.beta) {
                self.stage = NodeStage::Finished;
                return NodeAction::Return(score);
            }
        }
        self.stage = NodeStage::Analysing;
        NodeAction::Analyze
    }

    fn on_analysis(&mut self, in_check: bool, non_pawn_material: bool) -> (r: NodeAction)
        requires
            node_ok(old(self)),
            old(self).stage == NodeStage::Analysing,
        ensures
            r matches NodeAction::Store { score, .. } ==> final(self).pending == score,
            r matches NodeAction::Describe(m) ==> final(self).current == m,
            step_ok(old(self), final(self), NodeEvent::Analysis { in_check, non_pawn_material }, r),
    {
        self.in_check = in_check;
        self.can_prune = can_use_selective_pruning(self.node, self.alpha, self.beta, in_check, non_pawn_material);
        if needs_static_eval(self.depth, self.can_prune) || needs_probcut_eval(self.node, in_check, self.depth, self.beta) {
            self.stage = NodeStage::Evaluating;
            NodeAction::Evaluate { stored: stored_static_eval(self.stored_eval) }
        } else {
            self.static_eval = 0;
            self.after_eval()
        }
    }

    fn on_eval(&mut self, raw: i32, correction: i32) -> (r: NodeAction)
        requires
            node_ok(old(self)),
            event_fits(old(self), NodeEvent::Eval { raw, correction }),
        ensures
            r matches NodeAction::Store { score, .. } ==> final(self).pending == score,
            r matches NodeAction::Describe(m) ==> final(self).current == m,
            step_ok(old(self), final(self), NodeEvent::Eval { raw, correction }, r),
    {
        let base = match stored_static_eval(self.stored_eval) {
            Some(v) => v,
            None => {
                self.stored_eval = pack_static_eval(raw);
                raw
            },
        };
        self.static_eval = base + correction;
        self.after_eval()
    }

    fn on_done(&mut self) -> (r: NodeAction)
        requires
            node_ok(old(self)),
            event_fits(old(self), NodeEvent::Done),
        ensures
            r matches NodeAction::Store { score, .. } ==> final(self).pending == score,
            r matches NodeAction::Describe(m) ==> final(self).current == m,
            step_ok(old(self), final(self), NodeEvent::Done, r),
    {
        match self.stage {
            NodeStage::NullMaking => {
                self.stage = NodeStage::NullSearching;
                let b = self.beta;
                NodeAction::Search {
                    depth: null_move_depth(self.depth, self.static_eval, b),
                    node: self.node.child(false, -b, -b + 1),
                    alpha: -b,
                    beta: -b + 1,
                }
            },
            NodeStage::NullUnmaking => {
                if self.null_score >= self.beta {
                    let b = self.beta;
                    self.store(Move::null(), b, Bound::Lower)
                } else {
                    self.after_null()
                }
            },
            NodeStage::ProbcutMaking => {
                self.stage = NodeStage::ProbcutQuiescence;
                let pb = self.prob_beta;
                NodeAction::Qsearch { ply: self.node.ply + 1, alpha: -pb, beta: -pb + 1 }
            },
            NodeStage::ProbcutUnmaking => {
                if self.probe_score >= self.prob_beta {
                    let b = self.beta;
                    let mv = self.current;
                    self.store(mv, b, Bound::Lower)
                } else {
                    let len = self.candidates.len();
                    if self.candidate < len {
                        self.candidate = self.candidate + 1;
                    }
                    self.next_candidate()
                }
            },
            NodeStage::Making => self.on_made(),
            NodeStage::Unmaking => self.on_unmade(),
            NodeStage::Rewarding => {
                let mv = self.current;
                let score = self.child_score;
                self.store(mv, score, Bound::Lower)
            },
            NodeStage::Abandoning => {
                self.stage = NodeStage::Finished;
                NodeAction::Abort
            },
            NodeStage::Correcting => {
                let best = self.moves.best_move;
                let score = self.moves.best_score;
                let bound = self.moves.bound();
                self.store(best, score, bound)
            },
            _ => {
                self.stage = NodeStage::Finished;
                NodeAction::Return(self.pending)
            },
        }
    }

    /// Resumes the node with what came of its last request, and returns the next one.
    pub fn resume(&mut self, event: NodeEvent) -> (r: NodeAction)
        requires
            node_ok(old(self)),
            event_fits(old(self), event),
        ensures
            step_ok(old(self), final(self), event, r),
    {
        match event {
            NodeEvent::Interrupted => match self.stage {
                NodeStage::NullSearching => {
                    self.stage = NodeStage::Abandoning;
                    NodeAction::UnmakeNull
                },
                NodeStage::ProbcutQuiescence | NodeStage::ProbcutVerifying | NodeStage::Searching => {
                    self.stage = NodeStage::Abandoning;
                    NodeAction::Unmake(self.current)
                },
                _ => {
                    self.stage = NodeStage::Finished;
                    NodeAction::Abort
                },
            },
            NodeEvent::Score(s) => self.on_score(s),
            NodeEvent::Entered { draw } => {
                if draw {
                    self.stage = NodeStage::Finished;
                    NodeAction::Return(0)
                } else {
                    self.stage = NodeStage::Probing;
                    NodeAction::ProbeTt
                }
            },
            NodeEvent::Tt(h) => self.on_tt(h),
            NodeEvent::Analysis { in_check, non_pawn_material } => self.on_analysis(in_check, non_pawn_material),
            NodeEvent::Eval { raw, correction } => self.on_eval(raw, correction),
            NodeEvent::ProbcutMoves(list) => {
                self.candidates = list;
                self.candidate = 0;
                self.next_candidate()
            },
            NodeEvent::StageMoves(entries) => {
                self.picker.load(entries);
                self.pick()
            },
            NodeEvent::QuietsContain(found) => {
                self.picker.quiet_check(found);
                self.pick()
            },
            NodeEvent::Facts(f) => self.on_facts(f),
            NodeEvent::Done => self.on_done(),
        }
    }
}

} // verus!
