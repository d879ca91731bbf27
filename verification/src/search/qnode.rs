//! One node of the quiescence search as a state machine: table probe, then
//! either the evasions when in check, or stand pat on the static evaluation
//! followed by the captures and promotions, best-ordered, with delta and
//! exchange pruning; the table's move is tried first when it is among them.
use vstd::prelude::*;
use crate::chess::{Move, Piece, move_kind, piece_index, KIND_EN_PASSANT};
use crate::search::alphabeta::{
    Bound, MoveLoop, TtHit, move_loop_ok, qsearch_tt_cutoff, see_prune_move, stand_pat, stored_static_eval,
    bound_settles,
};
use crate::search::node::{SCORE_LIMIT, EVAL_LIMIT, score_ok, offered};
use crate::search::qsearch::{
    NO_STATIC_EVAL, delta_prune_move, is_capture_kind, is_promotion_kind, is_tactical_move, is_valid_encoded_move,
    pack_static_eval, qsearch_piece_value,
};
use crate::search::tune::{EVAL_SCORE_SCALE, QSEARCH_DELTA_MARGIN};
use crate::search::types::is_mate_score_spec;
use crate::search::root::{next_qmove, picked};
use crate::search::types::mate_score;

verus! {

/// What the caller reports back to a quiescence node.
pub enum QEvent {
    /// The node was counted; `draw` when the fifty-move rule or a repetition ends it.
    Entered { draw: bool },
    /// The table's entry for the position, if any.
    Tt(Option<TtHit>),
    /// Whether the side to move is in check.
    Analysis { in_check: bool },
    /// The static evaluation.
    Eval { raw: i32 },
    /// The generated moves (captures and promotions, or evasions) with their ordering scores.
    Moves(Vec<(Move, i16)>),
    /// The piece the described move takes and whether its exchange does not lose.
    Facts { captured: Piece, see_not_losing: bool },
    /// The score of the requested child search, from the child's side.
    Score(i32),
    /// The requested change or store is done.
    Done,
    /// The node could not be counted (the search must stop), or the
    /// requested child search was interrupted.
    Interrupted,
}

/// What a quiescence node asks of the caller.
pub enum QAction {
    Enter,
    ProbeTt,
    Analyze,
    Evaluate,
    GenerateCaptures,
    GenerateEvasions,
    Describe(Move),
    Make(Move),
    Unmake(Move),
    /// Run the quiescence search of the child at `ply`; answer `Score`.
    Search { ply: u8, alpha: i32, beta: i32 },
    Store { mv: Move, score: i32, static_eval: i16, bound: Bound },
    Return(i32),
    /// The search was interrupted; the node leaves the board as it found it.
    Abort,
}

#[derive(Clone, Copy, Debug, PartialEq, Eq, Structural)]
pub enum QStage {
    Entering,
    Probing,
    Analysing,
    Evaluating,
    Listing,
    Describing,
    Making,
    Searching,
    Unmaking,
    Storing,
    /// A move is being taken back before the node gives up.
    Abandoning,
    Finished,
}

pub struct QNodeMachine {
    pub stage: QStage,
    pub ply: u8,
    pub alpha: i32,
    pub beta: i32,
    pub tt_move: Move,
    pub tt_static: Option<i32>,
    pub in_check: bool,
    pub static_eval: i32,
    /// The evaluation stored with results: the packed static evaluation, or none in check.
    pub stored_eval: i16,
    pub moves: MoveLoop,
    pub entries: Vec<(Move, i16)>,
    pub next: usize,
    pub skip: Move,
    /// The move being searched is the table's move, tried before the others.
    pub trying_tt: bool,
    pub current: Move,
    pub child_score: i32,
    pub pending: i32,
    pub stored_bound: Bound,
}

pub open spec fn q_in_loop(s: QStage) -> bool {
    s == QStage::Describing || s == QStage::Making || s == QStage::Searching || s == QStage::Unmaking
}

/// The facts every step relies on: the window, the ply and the evaluations.
pub open spec fn q_basics(m: &QNodeMachine) -> bool {
    &&& -SCORE_LIMIT <= m.alpha < m.beta <= SCORE_LIMIT
    &&& m.ply < 254
    &&& score_ok(m.pending)
    &&& -EVAL_LIMIT <= m.static_eval <= EVAL_LIMIT
    &&& m.tt_static matches Some(v) ==> i16::MIN <= v <= i16::MAX
}

/// The node's invariant: its window, its stored results right about it, and in
/// the move loop the loop's state.
pub open spec fn qnode_ok(m: &QNodeMachine) -> bool {
    &&& q_basics(m)
    &&& m.stage == QStage::Storing ==> match m.stored_bound {
        Bound::Lower => m.pending >= m.beta,
        Bound::Upper => m.pending <= m.alpha,
        Bound::Exact => m.pending > m.alpha || m.in_check,
    }
    &&& q_in_loop(m.stage) ==> {
        &&& move_loop_ok(m.moves)
        &&& m.moves.alpha_orig == m.alpha
        &&& m.moves.beta == m.beta
        &&& score_ok(m.moves.best_score)
        &&& m.next <= m.entries@.len() < 100_000
        &&& m.moves.searched <= m.next
    }
    &&& m.stage == QStage::Listing ==> {
        &&& move_loop_ok(m.moves)
        &&& m.moves.alpha_orig == m.alpha
        &&& m.moves.beta == m.beta
        &&& score_ok(m.moves.best_score)
        &&& m.moves.searched == 0
        &&& m.in_check ==> m.moves.alpha == m.alpha
    }
    &&& m.stage == QStage::Unmaking ==> score_ok(m.child_score)
    &&& m.stage == QStage::Evaluating ==> !m.in_check
    &&& m.stage == QStage::Describing ==> !m.in_check
    &&& (m.stage == QStage::Listing || q_in_loop(m.stage)) && !m.in_check
        ==> m.moves.best_score >= m.static_eval && m.static_eval < m.beta
    &&& m.stage == QStage::Storing && !m.in_check ==> m.pending >= m.static_eval
}

/// In these stages a move made by the node is on the board.
pub open spec fn q_move_made(s: QStage) -> bool {
    s == QStage::Making || s == QStage::Searching
}

/// The node's moves balance: it makes a move only with none on the board,
/// takes one back only with one on the board, and returns only with its
/// board as it found it.
pub open spec fn q_balanced(before: QStage, after: QStage, r: QAction) -> bool {
    &&& r is Make ==> !q_move_made(before) && q_move_made(after)
    &&& r is Unmake ==> q_move_made(before) && !q_move_made(after)
    &&& !(r is Make || r is Unmake) ==> q_move_made(after) == q_move_made(before)
    &&& r is Return ==> !q_move_made(before)
    &&& r is Abort ==> !q_move_made(before)
}

/// The event the node waits for.
pub open spec fn q_event_fits(m: &QNodeMachine, e: QEvent) -> bool {
    match m.stage {
        QStage::Entering => e is Entered || e is Interrupted,
        QStage::Probing => e matches QEvent::Tt(h) && (h matches Some(hit) ==> score_ok(hit.score)),
        QStage::Analysing => e is Analysis,
        QStage::Evaluating => e matches QEvent::Eval { raw } && -EVAL_LIMIT <= raw <= EVAL_LIMIT && i16::MIN <= raw <= i16::MAX,
        QStage::Listing => e matches QEvent::Moves(v) && v@.len() < 100_000,
        QStage::Describing => e is Facts,
        QStage::Searching => (e matches QEvent::Score(s) && score_ok(s)) || e is Interrupted,
        QStage::Finished => false,
        _ => e is Done,
    }
}

/// What a quiescence node asks of a child, or returns, stays within the bounds every node accepts.
pub open spec fn q_request_ok(a: QAction) -> bool {
    match a {
        QAction::Search { ply, alpha, beta } => -SCORE_LIMIT <= alpha < beta <= SCORE_LIMIT,
        QAction::Return(s) => score_ok(s),
        _ => true,
    }
}

/// A store is right about the window, carries the node's stored evaluation,
/// and when it is not a cutoff stores the loop's result: the best move and
/// score with its bound, or in check without evasions the mate score.
pub open spec fn q_store_ok(a: QAction, m: &QNodeMachine) -> bool {
    a matches QAction::Store { mv, score, static_eval, bound } ==> {
        &&& score_ok(score)
        &&& match bound {
            Bound::Lower => score >= m.beta,
            Bound::Upper => score <= m.alpha,
            Bound::Exact => score > m.alpha || m.in_check,
        }
        &&& static_eval == m.stored_eval
        &&& bound != Bound::Lower ==> ({
            &&& mv == m.moves.best_move
            &&& score == m.moves.best_score
            &&& bound == (if m.moves.best_score <= m.moves.alpha_orig { Bound::Upper } else { Bound::Exact })
        } || {
            &&& m.in_check && m.entries@.len() == 0
            &&& mv.bits == 0
            &&& score == -crate::search::types::mate_score_spec(m.ply)
            &&& bound == Bound::Exact
        })
    }
}

/// Standing pat on `v`: a lower bound of `v` once it reaches `beta`, else the captures.
pub open spec fn stand_pat_action(v: i32, m: &QNodeMachine) -> QAction {
    if v >= m.beta {
        QAction::Store { mv: Move { bits: 0 }, score: v, static_eval: v as i16, bound: Bound::Lower }
    } else {
        QAction::GenerateCaptures
    }
}

/// The quiescence loop opened by standing pat on `v` below `beta`: `v` is the
/// best score so far and raises the window's lower end.
pub open spec fn stand_pat_loop(v: i32, alpha: i32, beta: i32) -> MoveLoop {
    MoveLoop {
        alpha_orig: alpha,
        alpha: if v > alpha { v } else { alpha },
        beta,
        best_score: v,
        best_move: Move { bits: 0 },
        searched: 0,
    }
}

/// The table's move is tried first: a usable move of the kind this node
/// searches (any evasion in check, else a capture or promotion) that is among
/// the generated moves.
pub open spec fn table_move_listed(tt: Move, in_check: bool, list: Seq<(Move, i16)>) -> bool {
    &&& tt.bits != 0
    &&& (move_kind(tt) <= 4 || move_kind(tt) >= 8)
    &&& (in_check || is_capture_kind(move_kind(tt)) || is_promotion_kind(move_kind(tt)) || move_kind(tt) == KIND_EN_PASSANT)
    &&& exists|k: int| 0 <= k < list.len() && (#[trigger] list[k]).0.bits == tt.bits
}

/// The loop's next request once a move is done with: the best-scored move
/// left in `entries` from `next` on, passing over `skip` (the table's move,
/// already tried), is made in check and otherwise described first; with none
/// left, the loop's result is stored.
pub open spec fn q_picks(entries: Seq<(Move, i16)>, next: int, skip: Move, in_check: bool, after: &QNodeMachine, r: QAction) -> bool {
    let (rest, at, found) = picked(entries, next, Some(skip));
    match found {
        Some(mv) => {
            &&& r == (if in_check { QAction::Make(mv) } else { QAction::Describe(mv) })
            &&& after.current == mv && !after.trying_tt
            &&& after.entries@ == rest && after.next == at && after.skip == skip
        },
        None => r is Store,
    }
}

/// What each step does, stage by stage.
pub open spec fn q_step_acts(before: &QNodeMachine, after: &QNodeMachine, e: QEvent, r: QAction) -> bool {
    &&& before.stage == QStage::Entering ==> (e matches QEvent::Entered { draw }
        ==> r == (if draw { QAction::Return(0) } else { QAction::ProbeTt }))
    &&& before.stage == QStage::Probing ==> (e matches QEvent::Tt(h) ==> match h {
        None => r == QAction::Analyze && after.tt_move == before.tt_move && after.tt_static == before.tt_static,
        Some(hit) => after.tt_move == hit.best_move
            && after.tt_static == (if hit.static_eval == NO_STATIC_EVAL { None } else { Some(hit.static_eval as i32) })
            && (!bound_settles(hit.bound, hit.score as int, before.alpha as int, before.beta as int) ==> r == QAction::Analyze),
    })
    &&& before.stage == QStage::Analysing ==> (e matches QEvent::Analysis { in_check } ==> {
        &&& after.in_check == in_check
        &&& in_check ==> r == QAction::GenerateEvasions && after.stored_eval == NO_STATIC_EVAL
            && after.moves == (MoveLoop {
                alpha_orig: before.alpha,
                alpha: before.alpha,
                beta: before.beta,
                best_score: (-SCORE_LIMIT) as i32,
                best_move: Move { bits: 0 },
                searched: 0,
            })
        &&& !in_check ==> match before.tt_static {
            Some(v) => r == stand_pat_action(v, before) && after.static_eval == v
                && (v < before.beta ==> after.moves == stand_pat_loop(v, before.alpha, before.beta)),
            None => r == QAction::Evaluate,
        }
    })
    &&& before.stage == QStage::Evaluating ==> (e matches QEvent::Eval { raw }
        ==> r == stand_pat_action(raw, before) && after.static_eval == raw
            && (raw < before.beta ==> after.moves == stand_pat_loop(raw, before.alpha, before.beta)))
    &&& before.stage == QStage::Listing ==> (e matches QEvent::Moves(list) ==> !(before.in_check && list@.len() == 0)
        && table_move_listed(before.tt_move, before.in_check, list@) ==> r == QAction::Make(before.tt_move)
            && after.skip == before.tt_move && after.current == before.tt_move && after.trying_tt
            && after.entries@ == list@ && after.next == 0)
    &&& before.stage == QStage::Listing ==> (e matches QEvent::Moves(list) ==> (before.in_check && list@.len() == 0 ==> r == (QAction::Store {
            mv: Move { bits: 0 },
            score: -crate::search::types::mate_score_spec(before.ply) as i32,
            static_eval: before.stored_eval,
            bound: Bound::Exact,
        })))
    &&& before.stage == QStage::Describing ==> (e matches QEvent::Facts { captured, see_not_losing } ==> {
        let kind = move_kind(before.current);
        let delta = !is_mate_score_spec(before.moves.alpha as int) && !is_promotion_kind(kind)
            && before.static_eval + qsearch_piece_value(piece_index(captured)) * EVAL_SCORE_SCALE
                + QSEARCH_DELTA_MARGIN * EVAL_SCORE_SCALE <= before.moves.alpha;
        let losing = is_capture_kind(kind) && !is_promotion_kind(kind) && kind != KIND_EN_PASSANT && !see_not_losing;
        if delta || losing {
            q_picks(before.entries@, before.next as int, before.skip, before.in_check, after, r)
        } else {
            r == QAction::Make(before.current)
        }
    })
    &&& before.stage == QStage::Listing ==> (e matches QEvent::Moves(list) ==> !(before.in_check && list@.len() == 0)
        && !table_move_listed(before.tt_move, before.in_check, list@)
        ==> q_picks(list@, 0, Move { bits: 0 }, before.in_check, after, r))
    &&& before.stage == QStage::Unmaking && before.child_score < before.beta
        ==> q_picks(before.entries@, before.next as int, before.skip, before.in_check, after, r)
    &&& before.stage == QStage::Making ==> r == (QAction::Search {
        ply: (before.ply + 1) as u8,
        alpha: -before.moves.beta as i32,
        beta: -before.moves.alpha as i32,
    })
    &&& before.stage == QStage::Searching ==> (e matches QEvent::Score(s)
        ==> r == QAction::Unmake(before.current) && after.child_score == -s)
    &&& before.stage == QStage::Unmaking ==> (before.child_score >= before.beta ==> r == (QAction::Store {
        mv: before.current,
        score: before.child_score,
        static_eval: before.stored_eval,
        bound: Bound::Lower,
    }))
}

/// The loop's bookkeeping once a move's score below `beta` is in: as in the
/// main search, except that in check the first evasion tried, while the
/// window is still the node's, becomes the best whatever its score.
pub open spec fn q_offered(m: &QNodeMachine) -> MoveLoop {
    if m.in_check && m.trying_tt && m.moves.alpha == m.moves.alpha_orig {
        MoveLoop {
            alpha_orig: m.moves.alpha_orig,
            alpha: if m.child_score > m.moves.alpha { m.child_score } else { m.moves.alpha },
            beta: m.moves.beta,
            best_score: m.child_score,
            best_move: m.current,
            searched: (m.moves.searched + 1) as usize,
        }
    } else {
        offered(m.moves, m.current, m.child_score)
    }
}

/// The stage a quiescence node waits in after each request.
pub open spec fn q_stage_follows(r: QAction, s: QStage) -> bool {
    match r {
        QAction::Enter => s == QStage::Entering,
        QAction::ProbeTt => s == QStage::Probing,
        QAction::Analyze => s == QStage::Analysing,
        QAction::Evaluate => s == QStage::Evaluating,
        QAction::GenerateCaptures => s == QStage::Listing,
        QAction::GenerateEvasions => s == QStage::Listing,
        QAction::Describe(_) => s == QStage::Describing,
        QAction::Make(_) => s == QStage::Making,
        QAction::Unmake(_) => s == QStage::Unmaking || s == QStage::Abandoning,
        QAction::Search { .. } => s == QStage::Searching,
        QAction::Store { .. } => s == QStage::Storing,
        QAction::Return(_) => s == QStage::Finished,
        QAction::Abort => s == QStage::Finished,
    }
}

/// What every step of a quiescence node guarantees.
pub open spec fn q_step_ok(before: &QNodeMachine, after: &QNodeMachine, e: QEvent, r: QAction) -> bool {
    &&& qnode_ok(after)
    &&& q_request_ok(r)
    &&& q_store_ok(r, after)
    &&& q_step_acts(before, after, e, r)
    &&& after.alpha == before.alpha && after.beta == before.beta
    &&& before.stage == QStage::Storing ==> r == QAction::Return(before.pending)
    &&& before.stage == QStage::Probing ==> (e matches QEvent::Tt(h) ==> (h matches Some(hit) ==> (
        bound_settles(hit.bound, hit.score as int, before.alpha as int, before.beta as int)
            <==> r == QAction::Return(hit.score))))
    &&& q_balanced(before.stage, after.stage, r)
    &&& r is Return ==> (before.stage == QStage::Entering || before.stage == QStage::Probing || before.stage == QStage::Storing)
    &&& before.stage == QStage::Storing && !before.in_check ==> (r matches QAction::Return(v) && v >= before.static_eval)
    &&& r is Return ==> after.stage == QStage::Finished
    &&& q_stage_follows(r, after.stage)
    &&& e is Interrupted ==> if q_move_made(before.stage) {
        r == QAction::Unmake(before.current) && after.stage == QStage::Abandoning
    } else {
        r is Abort
    }
    &&& before.stage == QStage::Abandoning ==> r is Abort
    &&& r is Abort ==> e is Interrupted || before.stage == QStage::Abandoning
    &&& before.stage == QStage::Unmaking && before.child_score < before.beta ==> after.moves == q_offered(before)
}

/// How many of the requests in `rs` make a move.
pub open spec fn count_q_makes(rs: Seq<QAction>) -> int
    decreases rs.len(),
{
    if rs.len() == 0 { 0 } else { count_q_makes(rs.drop_last()) + if rs.last() is Make { 1int } else { 0int } }
}

/// How many of the requests in `rs` take a move back.
pub open spec fn count_q_unmakes(rs: Seq<QAction>) -> int
    decreases rs.len(),
{
    if rs.len() == 0 { 0 } else { count_q_unmakes(rs.drop_last()) + if rs.last() is Unmake { 1int } else { 0int } }
}

/// A quiescence node undoes every move it makes. Over any run of steps from
/// its start (`ms[i]` the machine before step `i`, `rs[i]` its request), the
/// moves made and taken back differ by one exactly while one of its moves is
/// on the board; once it returns, or gives up on an interruption, they
/// are equal.
pub proof fn lemma_qnode_run_balanced(ms: Seq<QNodeMachine>, es: Seq<QEvent>, rs: Seq<QAction>)
    requires
        ms.len() == rs.len() + 1,
        es.len() == rs.len(),
        ms[0].stage == QStage::Entering,
        forall|i: int| 0 <= i < rs.len() ==> q_step_ok(&ms[i], &ms[i + 1], es[i], #[trigger] rs[i]),
    ensures
        count_q_makes(rs) - count_q_unmakes(rs) == if q_move_made(ms.last().stage) { 1int } else { 0int },
        rs.len() > 0 && (rs.last() is Return || rs.last() is Abort) ==> count_q_makes(rs) == count_q_unmakes(rs),
    decreases rs.len(),
{
    if rs.len() > 0 {
        let n = rs.len() - 1;
        let ms2 = ms.drop_last();
        let es2 = es.drop_last();
        let rs2 = rs.drop_last();
        assert forall|i: int| 0 <= i < rs2.len() implies q_step_ok(&ms2[i], &ms2[i + 1], es2[i], #[trigger] rs2[i]) by {
            assert(rs2[i] == rs[i]);
            assert(q_step_ok(&ms[i], &ms[i + 1], es[i], rs[i]));
        }
        lemma_qnode_run_balanced(ms2, es2, rs2);
        assert(q_step_ok(&ms[n], &ms[n + 1], es[n], rs[n]));
        assert(ms2.last() == ms[n]);
        assert(ms.last() == ms[n + 1]);
    }
}

impl QNodeMachine {
    /// A quiescence node at `ply` with window `(alpha, beta)`; its first request is `Enter`.
    pub fn new(ply: u8, alpha: i32, beta: i32) -> (r: Self)
        requires
            -SCORE_LIMIT <= alpha < beta <= SCORE_LIMIT,
            ply < 254,
        ensures
            qnode_ok(&r),
            r.stage == QStage::Entering,
            r.alpha == alpha && r.beta == beta && r.ply == ply,
    {
        QNodeMachine {
            stage: QStage::Entering,
            ply,
            alpha,
            beta,
            tt_move: Move::null(),
            tt_static: None,
            in_check: false,
            static_eval: 0,
            stored_eval: NO_STATIC_EVAL,
            moves: MoveLoop::new(alpha, beta, alpha),
            entries: Vec::new(),
            next: 0,
            skip: Move::null(),
            trying_tt: false,
            current: Move::null(),
            child_score: 0,
            pending: 0,
            stored_bound: Bound::Exact,
        }
    }

    fn store(&mut self, mv: Move, score: i32, bound: Bound) -> (r: QAction)
        requires
            score_ok(score),
            -SCORE_LIMIT <= old(self).alpha < old(self).beta <= SCORE_LIMIT,
            match bound {
                Bound::Lower => score >= old(self).beta,
                Bound::Upper => score <= old(self).alpha,
                Bound::Exact => score > old(self).alpha || old(self).in_check,
            },
        ensures
            q_stage_follows(r, final(self).stage),
            q_move_made(final(self).stage) <==> r is Make,
            !(r is Unmake),
            final(self).stage == QStage::Storing,
            final(self).pending == score,
            final(self).stored_bound == bound,
            r == (QAction::Store { mv, score, static_eval: old(self).stored_eval, bound }),
            final(self).alpha == old(self).alpha && final(self).beta == old(self).beta,
            final(self).ply == old(self).ply && final(self).in_check == old(self).in_check,
            final(self).static_eval == old(self).static_eval && final(self).tt_static == old(self).tt_static,
            final(self).stored_eval == old(self).stored_eval && final(self).moves == old(self).moves,
            final(self).entries == old(self).entries && final(self).current == old(self).current,
    {
        self.stage = QStage::Storing;
        self.pending = score;
        self.stored_bound = bound;
        QAction::Store { mv, score, static_eval: self.stored_eval, bound }
    }

    /// Whether the generated moves include `mv`.
    fn listed(&self, mv: Move) -> (r: bool)
        ensures
            r == exists|k: int| 0 <= k < self.entries@.len() && (#[trigger] self.entries@[k]).0.bits == mv.bits,
    {
        let mut i: usize = 0;
        while i < self.entries.len()
            invariant
                i <= self.entries@.len(),
                forall|k: int| 0 <= k < i ==> (#[trigger] self.entries@[k]).0.bits != mv.bits,
            decreases self.entries@.len() - i,
        {
            if self.entries[i].0.bits == mv.bits {
                return true;
            }
            i = i + 1;
        }
        false
    }

    /// The next move of the loop, or the final result when none is left.
    fn pick(&mut self) -> (r: QAction)
        requires
            !old(self).in_check ==> old(self).moves.best_score >= old(self).static_eval && old(self).static_eval < old(self).beta,
            q_basics(old(self)),
            move_loop_ok(old(self).moves),
            old(self).moves.alpha_orig == old(self).alpha,
            old(self).moves.beta == old(self).beta,
            score_ok(old(self).moves.best_score),
            old(self).next <= old(self).entries@.len() < 100_000,
            old(self).moves.searched <= old(self).next + 1,
        ensures
            q_stage_follows(r, final(self).stage),
            q_move_made(final(self).stage) <==> r is Make,
            !(r is Unmake),
            r is Make ==> final(self).in_check,
            final(self).in_check == old(self).in_check,
            qnode_ok(final(self)),
            q_request_ok(r),
            q_store_ok(r, final(self)),
            final(self).alpha == old(self).alpha && final(self).beta == old(self).beta,
            !(r is Return),
            final(self).moves == old(self).moves,
            q_picks(old(self).entries@, old(self).next as int, old(self).skip, old(self).in_check, final(self), r),
    {
        let mut next = self.next;
        let mut entries = Vec::new();
        std::mem::swap(&mut entries, &mut self.entries);
        let picked = next_qmove(&mut entries, &mut next, self.skip);
        self.entries = entries;
        self.next = next;
        match picked {
            Some(mv) => {
                self.current = mv;
                self.trying_tt = false;
                if self.in_check {
                    self.stage = QStage::Making;
                    QAction::Make(mv)
                } else {
                    self.stage = QStage::Describing;
                    QAction::Describe(mv)
                }
            },
            None => {
                let bound = self.moves.bound();
                let best = self.moves.best_move;
                let score = self.moves.best_score;
                self.store(best, score, bound)
            },
        }
    }

    /// The generated moves: the table's move first when it is among them.
    fn on_moves(&mut self, list: Vec<(Move, i16)>) -> (r: QAction)
        requires
            qnode_ok(old(self)),
            old(self).stage == QStage::Listing,
            list@.len() < 100_000,
            move_loop_ok(old(self).moves),
            old(self).moves.alpha_orig == old(self).alpha,
            old(self).moves.beta == old(self).beta,
            score_ok(old(self).moves.best_score),
            old(self).moves.searched == 0,
            old(self).in_check ==> old(self).moves.alpha == old(self).alpha,
        ensures
            q_stage_follows(r, final(self).stage),
            q_move_made(final(self).stage) <==> r is Make,
            !(r is Unmake),
            !(old(self).in_check && list@.len() == 0) && table_move_listed(old(self).tt_move, old(self).in_check, list@)
                ==> r == QAction::Make(old(self).tt_move) && final(self).skip == old(self).tt_move
                    && final(self).current == old(self).tt_move && final(self).trying_tt
                    && final(self).entries@ == list@ && final(self).next == 0,
            !(old(self).in_check && list@.len() == 0) && !table_move_listed(old(self).tt_move, old(self).in_check, list@)
                ==> q_picks(list@, 0, Move { bits: 0 }, old(self).in_check, final(self), r),
            old(self).in_check && list@.len() == 0 ==> r == (QAction::Store {
                mv: Move { bits: 0 },
                score: -crate::search::types::mate_score_spec(old(self).ply) as i32,
                static_eval: old(self).stored_eval,
                bound: Bound::Exact,
            }),
            qnode_ok(final(self)),
            q_request_ok(r),
            q_store_ok(r, final(self)),
            final(self).alpha == old(self).alpha && final(self).beta == old(self).beta,
            !(r is Return),
    {
        self.entries = list;
        self.next = 0;
        if self.in_check && self.entries.len() == 0 {
            let score = -mate_score(self.ply);
            return self.store(Move::null(), score, Bound::Exact);
        }
        let tt = self.tt_move;
        let usable = tt.bits != 0 && is_valid_encoded_move(tt) && (self.in_check || is_tactical_move(tt)) && self.listed(tt);
        if usable {
            self.skip = tt;
            self.current = tt;
            self.trying_tt = true;
            self.stage = QStage::Making;
            return QAction::Make(tt);
        }
        self.skip = Move::null();
        self.pick()
    }

    /// The static evaluation: stand pat, then the captures.
    fn on_static(&mut self, static_eval: i32) -> (r: QAction)
        requires
            qnode_ok(old(self)),
            !old(self).in_check,
            -EVAL_LIMIT <= static_eval <= EVAL_LIMIT,
            i16::MIN <= static_eval <= i16::MAX,
        ensures
            q_stage_follows(r, final(self).stage),
            q_move_made(final(self).stage) <==> r is Make,
            !(r is Unmake),
            r == stand_pat_action(static_eval, old(self)),
            static_eval < old(self).beta ==> final(self).moves == stand_pat_loop(static_eval, old(self).alpha, old(self).beta),
            final(self).static_eval == static_eval && final(self).in_check == old(self).in_check,
            qnode_ok(final(self)),
            q_request_ok(r),
            q_store_ok(r, final(self)),
            final(self).alpha == old(self).alpha && final(self).beta == old(self).beta,
            !(r is Return),
    {
        self.static_eval = static_eval;
        self.stored_eval = pack_static_eval(static_eval);
        match stand_pat(static_eval, self.alpha, self.beta) {
            Err(score) => self.store(Move::null(), score, Bound::Lower),
            Ok(l) => {
                self.moves = l;
                self.stage = QStage::Listing;
                QAction::GenerateCaptures
            },
        }
    }

    /// A child's score: the move is taken back next.
    fn on_score(&mut self, s: i32) -> (r: QAction)
        requires
            qnode_ok(old(self)),
            old(self).stage == QStage::Searching,
            score_ok(s),
        ensures
            q_stage_follows(r, final(self).stage),
            !q_move_made(final(self).stage),
            qnode_ok(final(self)),
            q_request_ok(r),
            final(self).alpha == old(self).alpha && final(self).beta == old(self).beta,
            r == QAction::Unmake(old(self).current) && final(self).child_score == -s,
    {
        self.child_score = -s;
        self.stage = QStage::Unmaking;
        QAction::Unmake(self.current)
    }

    /// The move is taken back: its score enters the loop.
    fn on_unmade(&mut self) -> (r: QAction)
        requires
            qnode_ok(old(self)),
            old(self).stage == QStage::Unmaking,
        ensures
            q_stage_follows(r, final(self).stage),
            q_move_made(final(self).stage) <==> r is Make,
            !(r is Unmake),
            old(self).child_score >= old(self).beta ==> r == (QAction::Store {
                mv: old(self).current,
                score: old(self).child_score,
                static_eval: old(self).stored_eval,
                bound: Bound::Lower,
            }),
            qnode_ok(final(self)),
            q_request_ok(r),
            q_store_ok(r, final(self)),
            final(self).alpha == old(self).alpha && final(self).beta == old(self).beta,
            !(r is Return),
            old(self).child_score < old(self).beta ==> final(self).moves == q_offered(old(self)),
            old(self).child_score < old(self).beta
                ==> q_picks(old(self).entries@, old(self).next as int, old(self).skip, old(self).in_check, final(self), r),
    {
        let mv = self.current;
        let score = self.child_score;
        let first_evasion = self.in_check && self.trying_tt;
        let cutoff = if first_evasion && self.moves.alpha == self.moves.alpha_orig {
            self.moves.take_first(mv, score)
        } else {
            self.moves.offer(mv, score)
        };
        if cutoff {
            return self.store(mv, score, Bound::Lower);
        }
        self.pick()
    }

    /// Resumes the node with what came of its last request, and returns the next one.
    pub fn resume(&mut self, event: QEvent) -> (r: QAction)
        requires
            qnode_ok(old(self)),
            q_event_fits(old(self), event),
        ensures
            q_step_ok(old(self), final(self), event, r),
    {
        match event {
            QEvent::Interrupted => {
                if self.stage == QStage::Searching {
                    self.stage = QStage::Abandoning;
                    QAction::Unmake(self.current)
                } else {
                    self.stage = QStage::Finished;
                    QAction::Abort
                }
            },
            QEvent::Entered { draw } => {
                if draw {
                    self.stage = QStage::Finished;
                    QAction::Return(0)
                } else {
                    self.stage = QStage::Probing;
                    QAction::ProbeTt
                }
            },
            QEvent::Tt(h) => {
                if let Some(hit) = h {
                    self.tt_move = hit.best_move;
                    self.tt_static = stored_static_eval(hit.static_eval);
                    if let Some(score) = qsearch_tt_cutoff(hit, self.alpha, self.beta) {
                        self.stage = QStage::Finished;
                        return QAction::Return(score);
                    }
                }
                self.stage = QStage::Analysing;
                QAction::Analyze
            },
            QEvent::Analysis { in_check } => {
                self.in_check = in_check;
                if in_check {
                    self.stored_eval = NO_STATIC_EVAL;
                    self.moves = MoveLoop::new(self.alpha, self.beta, -SCORE_LIMIT);
                    self.stage = QStage::Listing;
                    return QAction::GenerateEvasions;
                }
                match self.tt_static {
                    Some(v) => self.on_static(v),
                    None => {
                        self.stage = QStage::Evaluating;
                        QAction::Evaluate
                    },
                }
            },
            QEvent::Eval { raw } => self.on_static(raw),
            QEvent::Moves(list) => self.on_moves(list),
            QEvent::Facts { captured, see_not_losing } => {
                let mv = self.current;
                if delta_prune_move(mv, captured, self.static_eval, self.moves.alpha) || see_prune_move(mv, see_not_losing) {
                    return self.pick();
                }
                self.stage = QStage::Making;
                QAction::Make(mv)
            },
            QEvent::Score(s) => self.on_score(s),
            QEvent::Done => {
                match self.stage {
                    QStage::Making => {
                        self.stage = QStage::Searching;
                        QAction::Search { ply: self.ply + 1, alpha: -self.moves.beta, beta: -self.moves.alpha }
                    },
                    QStage::Unmaking => self.on_unmade(),
                    QStage::Abandoning => {
                        self.stage = QStage::Finished;
                        QAction::Abort
                    },
                    _ => {
                        self.stage = QStage::Finished;
                        QAction::Return(self.pending)
                    },
                }
            },
        }
    }
}

} // verus!
