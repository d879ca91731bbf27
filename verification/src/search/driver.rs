//! The root of a search as a state machine: the root moves, a fallback move,
//! then iterative deepening, each iteration searching every root move with
//! the best score so far as the lower bound, the moves ordered by their last
//! scores. A stop request ends an iteration without using it; deadlines are
//! checked between iterations.
use vstd::prelude::*;
use crate::chess::Move;
use crate::search::alphabeta::TtHit;
use crate::search::node::{SCORE_LIMIT, score_ok};
use crate::search::root::{
    RootLoop, ROOT_SCORE_UNSEARCHED, keeps_ties, max_search_depth, order_root_moves, rearranges, seed_root_tt_move,
    sorted_by_score,
};
use crate::search::selectivity::NodeState;
use crate::search::types::{mate_score, mate_score_spec};

verus! {

/// What the caller reports back to the root.
pub enum RootEvent {
    /// The legal root moves, and whether the side to move is in check.
    RootMoves { moves: Vec<Move>, in_check: bool },
    /// The table's entry for the root, if any.
    Tt(Option<TtHit>),
    /// The static evaluation of the root.
    Eval(i32),
    /// Whether the search must stop now (or, after `CheckDeadline`, whether a deadline passed).
    Stop(bool),
    /// The score of the requested child search, from the child's side.
    Score(i32),
    /// The requested child search was interrupted.
    Interrupted,
    /// The requested change or report is done.
    Done,
}

/// What the root asks of the caller.
#[allow(inconsistent_fields)]
pub enum RootAction {
    /// Generate the legal root moves; answer `RootMoves`.
    GenerateMoves,
    /// Probe the table at the root; answer `Tt`.
    ProbeTt,
    /// Evaluate the root; answer `Eval`.
    Evaluate,
    /// Whether the search must stop now; answer `Stop`.
    CheckStop,
    Make(Move),
    Unmake(Move),
    /// Search the current position; answer `Score` or `Interrupted`.
    Search { depth: u8, node: NodeState, alpha: i32, beta: i32 },
    /// A completed iteration's result; answer `Done`.
    Report { best_move: Move, score: i32, depth: u8 },
    /// Whether the soft deadline passed or the search must stop; answer `Stop`.
    CheckDeadline,
    /// The search's result.
    Finish { best_move: Option<Move>, score: i32, depth: u8 },
}

#[derive(Clone, Copy, Debug, PartialEq, Eq, Structural)]
pub enum RootStage {
    Generating,
    Probing,
    Evaluating,
    Checking,
    Making,
    Searching,
    Unmaking,
    Reporting,
    Deadline,
    Finished,
}

pub struct RootMachine {
    pub stage: RootStage,
    pub max_depth: u8,
    pub depth: u8,
    pub in_check: bool,
    pub entries: Vec<(Move, i32)>,
    pub index: usize,
    pub root: RootLoop,
    pub best_move: Move,
    pub best_score: i32,
    pub best_depth: u8,
    pub interrupted: bool,
    pub child_score: i32,
    /// The root moves as they were reported.
    pub root_moves: Ghost<Seq<Move>>,
}

/// The root's invariant: once the moves are known there is at least one, the
/// iteration's cursor stays among them, and the best result is a root move.
pub open spec fn root_ok(m: &RootMachine) -> bool {
    &&& m.stage != RootStage::Generating && m.stage != RootStage::Finished ==> m.entries@.len() >= 1
    &&& m.stage == RootStage::Generating ==> m.entries@.len() == 0
    &&& (m.stage == RootStage::Checking || m.stage == RootStage::Making || m.stage == RootStage::Searching
        || m.stage == RootStage::Unmaking) ==> {
        &&& m.index < m.entries@.len()
        &&& 1 <= m.depth <= m.max_depth
        &&& i32::MIN / 2 <= m.root.alpha < i32::MAX / 2
        &&& m.index > 0 ==> m.root.alpha > i32::MIN / 2
        &&& m.root.alpha > i32::MIN / 2 ==> exists|k: int|
            0 <= k < m.entries@.len() && (#[trigger] m.entries@[k]).0 == m.root.best_move
    }
    &&& (m.stage == RootStage::Reporting || m.stage == RootStage::Deadline) ==> 1 <= m.depth <= m.max_depth
    &&& (m.stage == RootStage::Reporting || m.stage == RootStage::Deadline) ==> m.best_depth == m.depth
    &&& (m.stage == RootStage::Checking || m.stage == RootStage::Making || m.stage == RootStage::Searching
        || m.stage == RootStage::Unmaking) ==> m.best_depth + 1 == m.depth
    &&& (m.stage == RootStage::Generating || m.stage == RootStage::Probing || m.stage == RootStage::Evaluating)
        ==> m.best_depth == 0
    &&& m.stage != RootStage::Unmaking && m.stage != RootStage::Finished ==> !m.interrupted
    &&& m.stage == RootStage::Unmaking ==> root_score_ok(m.child_score as int)
    &&& m.stage != RootStage::Generating && m.stage != RootStage::Finished
        ==> exists|k: int| 0 <= k < m.entries@.len() && (#[trigger] m.entries@[k]).0 == m.best_move
    &&& forall|k: int| 0 <= k < m.entries@.len() ==> m.root_moves@.contains(#[trigger] m.entries@[k].0)
    &&& m.stage == RootStage::Finished ==> m.root_moves@.contains(m.best_move) || m.root_moves@.len() == 0
}

/// A root move's score lies strictly inside the root's widest window, so
/// that the next move's window is never empty.
pub open spec fn root_score_ok(score: int) -> bool {
    i32::MIN / 2 < score < i32::MAX / 2
}

/// The event the root waits for.
pub open spec fn root_event_fits(m: &RootMachine, e: RootEvent) -> bool {
    match m.stage {
        RootStage::Generating => e is RootMoves,
        RootStage::Probing => e is Tt,
        RootStage::Evaluating => e is Eval,
        RootStage::Checking | RootStage::Deadline => e is Stop,
        RootStage::Searching => (e matches RootEvent::Score(s) && root_score_ok(-s)) || e is Interrupted,
        RootStage::Finished => false,
        _ => e is Done,
    }
}

/// The root moves once the table's move `m` is known: its first entry, if
/// any, gets the highest score so that the first iteration searches it first;
/// nothing else changes.
pub open spec fn seeded(s: Seq<(Move, i32)>, m: Move, t: Seq<(Move, i32)>) -> bool {
    &&& t.len() == s.len()
    &&& (m.bits == 0 || forall|k: int| 0 <= k < s.len() ==> (#[trigger] s[k]).0.bits != m.bits) ==> t == s
    &&& m.bits != 0 ==> forall|k: int| 0 <= k < s.len() && (#[trigger] s[k]).0.bits == m.bits
        && (forall|j: int| 0 <= j < k ==> s[j].0.bits != m.bits) ==> t == s.update(k, (s[k].0, i32::MAX))
}

/// An iteration opens on `after`: the root moves of `before` ordered by their
/// last scores, best first and ties in their earlier order, and a fresh loop
/// with the widest window and no best move yet.
pub open spec fn iteration_opens(before: RootMachine, after: RootMachine) -> bool {
    &&& after.entries@.len() == before.entries@.len()
    &&& after.entries@.to_multiset() == before.entries@.to_multiset()
    &&& sorted_by_score(after.entries@, 0, after.entries@.len() as int)
    &&& exists|p: Seq<int>| rearranges(before.entries@, after.entries@, p) && #[trigger] keeps_ties(after.entries@, p)
    &&& after.root.alpha == i32::MIN / 2 && after.root.best_move.bits == 0
}

/// One step of the root, for each stage and event.
pub open spec fn root_step_acts(before: RootMachine, e: RootEvent, after: RootMachine, r: RootAction) -> bool {
    let finish = RootAction::Finish { best_move: Some(before.best_move), score: before.best_score, depth: before.best_depth };
    match before.stage {
        RootStage::Generating => match e {
            RootEvent::RootMoves { moves, in_check } => if moves@.len() == 0 {
                r == (RootAction::Finish {
                    best_move: None,
                    score: (if in_check { -mate_score_spec(0) } else { 0 }) as i32,
                    depth: 0,
                })
            } else {
                &&& r == RootAction::ProbeTt
                &&& after.best_move == moves@[0]
                &&& after.entries@.len() == moves@.len()
                &&& forall|j: int| 0 <= j < moves@.len() ==> #[trigger] after.entries@[j] == (moves@[j], ROOT_SCORE_UNSEARCHED)
            },
            _ => false,
        },
        RootStage::Probing => r == RootAction::Evaluate && after.best_move == before.best_move && match e {
            RootEvent::Tt(Some(hit)) => seeded(before.entries@, hit.best_move, after.entries@),
            _ => after.entries@ == before.entries@,
        },
        RootStage::Evaluating => match e {
            RootEvent::Eval(score) => if before.max_depth == 0 {
                r == (RootAction::Finish { best_move: Some(before.best_move), score, depth: 0 })
            } else {
                r == RootAction::CheckStop && after.depth == 1 && after.best_score == score && after.best_depth == 0
                    && after.index == 0 && iteration_opens(before, after)
            },
            _ => false,
        },
        RootStage::Checking => match e {
            RootEvent::Stop(stop) => if stop { r == finish } else {
                r == RootAction::Make(before.entries@[before.index as int].0)
            },
            _ => false,
        },
        RootStage::Making => r == (RootAction::Search {
            depth: (before.depth - 1) as u8,
            node: NodeState { ply: 1, pv_node: true, cut_node: -before.root.alpha == -(i32::MAX / 2) + 1 },
            alpha: -(i32::MAX / 2) as i32,
            beta: -before.root.alpha as i32,
        }),
        RootStage::Searching => match e {
            RootEvent::Score(s) => r == RootAction::Unmake(before.entries@[before.index as int].0)
                && after.child_score == -s && !after.interrupted,
            _ => r == RootAction::Unmake(before.entries@[before.index as int].0) && after.interrupted,
        },
        RootStage::Unmaking => if before.interrupted { r == finish } else {
            let mv = before.entries@[before.index as int].0;
            let score = before.child_score;
            &&& after.entries@ == before.entries@.update(before.index as int, (mv, score))
            &&& after.root.alpha == (if score > before.root.alpha { score } else { before.root.alpha })
            &&& after.root.best_move == (if score > before.root.alpha { mv } else { before.root.best_move })
            &&& if before.index + 1 < before.entries@.len() {
                r == RootAction::CheckStop && after.index == before.index + 1
            } else {
                r == (RootAction::Report { best_move: after.root.best_move, score: after.root.alpha, depth: before.depth })
            }
        },
        RootStage::Reporting => r == RootAction::CheckDeadline,
        RootStage::Deadline => match e {
            RootEvent::Stop(stop) => if stop || before.depth >= before.max_depth { r == finish } else {
                r == RootAction::CheckStop && after.depth == before.depth + 1 && after.index == 0 && iteration_opens(before, after)
            },
            _ => false,
        },
        RootStage::Finished => false,
    }
}

/// The stage the root waits in after each request.
pub open spec fn root_stage_follows(r: RootAction, s: RootStage) -> bool {
    match r {
        RootAction::GenerateMoves => s == RootStage::Generating,
        RootAction::ProbeTt => s == RootStage::Probing,
        RootAction::Evaluate => s == RootStage::Evaluating,
        RootAction::CheckStop => s == RootStage::Checking,
        RootAction::Make(_) => s == RootStage::Making,
        RootAction::Unmake(_) => s == RootStage::Unmaking,
        RootAction::Search { .. } => s == RootStage::Searching,
        RootAction::Report { .. } => s == RootStage::Reporting,
        RootAction::CheckDeadline => s == RootStage::Deadline,
        RootAction::Finish { .. } => s == RootStage::Finished,
    }
}

/// The step that ends an iteration: the last root move's score comes back.
pub open spec fn completes_iteration(m: RootMachine) -> bool {
    m.stage == RootStage::Unmaking && !m.interrupted && m.index + 1 >= m.entries@.len()
}

/// The number of iterations completed when the root is in this state.
pub open spec fn iterations_done(m: RootMachine) -> int {
    if m.stage == RootStage::Reporting || m.stage == RootStage::Deadline {
        m.depth as int
    } else if m.stage == RootStage::Checking || m.stage == RootStage::Making || m.stage == RootStage::Searching
        || m.stage == RootStage::Unmaking {
        m.depth - 1
    } else {
        0
    }
}

/// One step of the root: what it asks for, and the best result so far, which
/// only the evaluation (depth 0) and the end of an iteration set; a finish
/// carries the number of iterations completed.
pub open spec fn root_step_ok(before: RootMachine, e: RootEvent, after: RootMachine, r: RootAction) -> bool {
    &&& root_step_acts(before, e, after, r)
    &&& before.stage != RootStage::Generating && before.stage != RootStage::Evaluating && !completes_iteration(before) ==> {
        &&& after.best_move == before.best_move
        &&& after.best_score == before.best_score
        &&& after.best_depth == before.best_depth
    }
    &&& before.stage == RootStage::Evaluating ==> after.best_move == before.best_move
    &&& before.stage == RootStage::Generating ==> after.best_depth == before.best_depth
    &&& completes_iteration(before) ==> {
        &&& after.best_move == after.root.best_move
        &&& after.best_score == after.root.alpha
        &&& after.best_depth == before.depth
    }
    &&& before.stage != RootStage::Generating ==> (r matches RootAction::Finish { best_move, score, depth }
        ==> depth == iterations_done(before))
    &&& r is Finish ==> after.stage == RootStage::Finished
    &&& root_stage_follows(r, after.stage)
    &&& after.max_depth == before.max_depth
}

/// With a depth limit of 0, a search answered with its root moves (at least
/// one), a table entry and the static evaluation finishes with the first root
/// move, that evaluation and depth 0, without any iteration.
pub proof fn lemma_root_depth_zero(
    m0: RootMachine,
    m1: RootMachine,
    m2: RootMachine,
    m3: RootMachine,
    moves: Vec<Move>,
    in_check: bool,
    h: Option<TtHit>,
    score: i32,
    r0: RootAction,
    r1: RootAction,
    r2: RootAction,
)
    requires
        m0.stage == RootStage::Generating,
        m0.max_depth == 0,
        moves@.len() >= 1,
        root_step_ok(m0, RootEvent::RootMoves { moves, in_check }, m1, r0),
        root_step_ok(m1, RootEvent::Tt(h), m2, r1),
        root_step_ok(m2, RootEvent::Eval(score), m3, r2),
    ensures
        r0 == RootAction::ProbeTt,
        r1 == RootAction::Evaluate,
        r2 == (RootAction::Finish { best_move: Some(moves@[0]), score, depth: 0 }),
{
}

/// How many iteration reports `rs` holds.
pub open spec fn count_reports(rs: Seq<RootAction>) -> int
    decreases rs.len(),
{
    if rs.len() == 0 {
        0
    } else {
        count_reports(rs.drop_last()) + if rs.last() is Report { 1int } else { 0int }
    }
}

/// A search's result carries the number of iterations it completed. Over any
/// run of root steps from a new root (`ms[i]` the root before step `i`,
/// `rs[i]` its request), the depth of the best result so far is the number
/// of iteration reports, and a finish carries that number.
pub proof fn lemma_root_run_depth(ms: Seq<RootMachine>, es: Seq<RootEvent>, rs: Seq<RootAction>)
    requires
        ms.len() == rs.len() + 1,
        es.len() == rs.len(),
        ms[0].stage == RootStage::Generating,
        forall|i: int| 0 <= i < ms.len() ==> root_ok(&#[trigger] ms[i]),
        forall|i: int| 0 <= i < rs.len() ==> root_step_ok(ms[i], es[i], ms[i + 1], #[trigger] rs[i]),
    ensures
        ms.last().stage != RootStage::Finished ==> count_reports(rs) == ms.last().best_depth,
        rs.len() > 0 ==> (rs.last() matches RootAction::Finish { best_move, score, depth }
            ==> depth == count_reports(rs.drop_last())),
    decreases rs.len(),
{
    if rs.len() > 0 {
        let n = rs.len() - 1;
        let ms2 = ms.drop_last();
        let es2 = es.drop_last();
        let rs2 = rs.drop_last();
        assert forall|i: int| 0 <= i < ms2.len() implies root_ok(&#[trigger] ms2[i]) by {
            assert(ms2[i] == ms[i]);
        }
        assert forall|i: int| 0 <= i < rs2.len() implies root_step_ok(ms2[i], es2[i], ms2[i + 1], #[trigger] rs2[i]) by {
            assert(rs2[i] == rs[i]);
            assert(root_step_ok(ms[i], es[i], ms[i + 1], rs[i]));
        }
        lemma_root_run_depth(ms2, es2, rs2);
        assert(root_step_ok(ms[n], es[n], ms[n + 1], rs[n]));
        assert(root_ok(&ms[n]));
        assert(root_ok(&ms[n + 1]));
        assert(ms2.last() == ms[n]);
        assert(ms.last() == ms[n + 1]);
        assert(ms[n].stage != RootStage::Finished);
        assert(rs.drop_last() == rs2);
        if completes_iteration(ms[n]) {
            assert(rs[n] is Report || rs[n] is Finish);
        } else {
            assert(!(rs[n] is Report));
        }
    }
}

impl RootMachine {
    /// A search to depth `depth` (`MAX_SEARCH_DEPTH` when none); its first request is `GenerateMoves`.
    pub fn new(depth: Option<u8>) -> (r: Self)
        ensures
            root_ok(&r),
            r.stage == RootStage::Generating,
            r.max_depth == max_search_depth_spec(depth),
    {
        RootMachine {
            stage: RootStage::Generating,
            max_depth: max_search_depth(depth),
            depth: 0,
            in_check: false,
            entries: Vec::new(),
            index: 0,
            root: RootLoop::new(),
            best_move: Move::null(),
            best_score: 0,
            best_depth: 0,
            interrupted: false,
            child_score: 0,
            root_moves: Ghost(Seq::empty()),
        }
    }

    /// Starts iteration `depth`: orders the root moves and opens the loop.
    fn start_iteration(&mut self, depth: u8) -> (r: RootAction)
        requires
            root_ok(old(self)),
            old(self).entries@.len() >= 1,
            1 <= depth <= old(self).max_depth,
            old(self).best_depth + 1 == depth,
            !old(self).interrupted,
            exists|k: int| 0 <= k < old(self).entries@.len() && (#[trigger] old(self).entries@[k]).0 == old(self).best_move,
        ensures
            root_ok(final(self)),
            r is CheckStop,
            final(self).stage == RootStage::Checking,
            final(self).best_move == old(self).best_move && final(self).best_score == old(self).best_score
                && final(self).best_depth == old(self).best_depth,
            final(self).depth == depth && final(self).max_depth == old(self).max_depth,
            final(self).index == 0 && final(self).interrupted == old(self).interrupted,
            iteration_opens(*old(self), *final(self)),
    {
        self.depth = depth;
        let ghost k = choose|k: int| 0 <= k < self.entries@.len() && (#[trigger] self.entries@[k]).0 == self.best_move;
        let ghost before = self.entries@;
        let mut entries = Vec::new();
        std::mem::swap(&mut entries, &mut self.entries);
        order_root_moves(&mut entries);
        self.entries = entries;
        proof {
            assert(before.to_multiset().count(before[k]) > 0) by {
                broadcast use vstd::seq_lib::group_to_multiset_ensures;
                assert(before.contains(before[k]));
            }
            assert(self.entries@.to_multiset().count(before[k]) > 0);
            broadcast use vstd::seq_lib::group_to_multiset_ensures;
            assert(self.entries@.contains(before[k]));
            assert forall|i: int| 0 <= i < self.entries@.len() implies self.root_moves@.contains(#[trigger] self.entries@[i].0) by {
                assert(self.entries@.contains(self.entries@[i]));
                assert(before.to_multiset().count(self.entries@[i]) > 0);
                assert(before.contains(self.entries@[i]));
                let j = choose|j: int| 0 <= j < before.len() && before[j] == self.entries@[i];
                assert(old(self).root_moves@.contains(old(self).entries@[j].0));
            }
        }
        self.index = 0;
        self.root = RootLoop::new();
        self.stage = RootStage::Checking;
        assert(root_ok(self));
        RootAction::CheckStop
    }

    /// The end of the search with the best completed result.
    fn finish(&mut self) -> (r: RootAction)
        requires
            root_ok(old(self)),
            old(self).stage != RootStage::Generating && old(self).stage != RootStage::Finished,
        ensures
            final(self).root_moves@.contains(old(self).best_move),
            final(self).best_move == old(self).best_move && final(self).best_score == old(self).best_score
                && final(self).best_depth == old(self).best_depth,
            final(self).stage == RootStage::Finished,
            final(self).max_depth == old(self).max_depth,
            r == (RootAction::Finish { best_move: Some(old(self).best_move), score: old(self).best_score, depth: old(self).best_depth }),
            root_ok(final(self)),
    {
        proof {
            let k = choose|k: int| 0 <= k < self.entries@.len() && (#[trigger] self.entries@[k]).0 == self.best_move;
            assert(self.root_moves@.contains(self.entries@[k].0));
        }
        self.stage = RootStage::Finished;
        RootAction::Finish { best_move: Some(self.best_move), score: self.best_score, depth: self.best_depth }
    }

    /// Resumes the root with what came of its last request, and returns the
    /// next one. Finishing always names a root move once there is one; a
    /// report carries the iteration's best score and move; an interrupted
    /// iteration is not used.
    pub fn resume(&mut self, event: RootEvent) -> (r: RootAction)
        requires
            root_ok(old(self)),
            root_event_fits(old(self), event),
        ensures
            root_ok(final(self)),
            root_step_ok(*old(self), event, *final(self), r),
            r matches RootAction::Finish { best_move, score, depth } ==> final(self).stage == RootStage::Finished && (
                old(self).stage == RootStage::Generating || best_move == Some(old(self).best_move)),
            r matches RootAction::Finish { best_move: Some(m), score, depth } ==> final(self).root_moves@.contains(m),
            r matches RootAction::Search { depth, node, alpha, beta } ==> -SCORE_LIMIT <= alpha < beta <= SCORE_LIMIT
                && node.ply == 1 && depth + 1 == final(self).depth,
            r matches RootAction::Report { best_move, score, depth } ==> best_move == final(self).best_move
                && score == final(self).best_score && depth == final(self).best_depth && depth == final(self).depth,
            old(self).stage == RootStage::Searching && event is Interrupted ==> r == (RootAction::Unmake(old(self).entries@[old(self).index as int].0))
                && final(self).interrupted,
            old(self).stage == RootStage::Generating ==> match event {
                RootEvent::RootMoves { moves, in_check } => moves@.len() == 0 ==> (r matches RootAction::Finish {
                    best_move,
                    score,
                    depth,
                } && best_move is None && depth == 0 && score == (if in_check { -mate_score_spec(0) } else { 0 })),
                _ => true,
            },
    {
        match event {
            RootEvent::RootMoves { moves, in_check } => {
                self.in_check = in_check;
                self.root_moves = Ghost(moves@);
                if moves.len() == 0 {
                    self.stage = RootStage::Finished;
                    let score = if in_check { -mate_score(0) } else { 0 };
                    return RootAction::Finish { best_move: None, score, depth: 0 };
                }
                let mut entries: Vec<(Move, i32)> = Vec::new();
                let mut i: usize = 0;
                while i < moves.len()
                    invariant
                        i <= moves@.len(),
                        entries@.len() == i,
                        forall|j: int| 0 <= j < i ==> #[trigger] entries@[j] == (moves@[j], ROOT_SCORE_UNSEARCHED),
                    decreases moves@.len() - i,
                {
                    entries.push((moves[i], ROOT_SCORE_UNSEARCHED));
                    i = i + 1;
                }
                self.best_move = moves[0];
                self.entries = entries;
                proof {
                    assert forall|k: int| 0 <= k < self.entries@.len() implies self.root_moves@.contains(#[trigger] self.entries@[k].0) by {
                        assert(self.root_moves@[k] == self.entries@[k].0);
                    }
                }
                proof {
                    assert(self.entries@[0].0 == self.best_move);
                }
                self.stage = RootStage::Probing;
                RootAction::ProbeTt
            },
            RootEvent::Tt(h) => {
                let ghost before = self.entries@;
                if let Some(hit) = h {
                    let mut entries = Vec::new();
                    std::mem::swap(&mut entries, &mut self.entries);
                    seed_root_tt_move(&mut entries, hit.best_move);
                    self.entries = entries;
                }
                proof {
                    let k = choose|k: int| 0 <= k < before.len() && (#[trigger] before[k]).0 == self.best_move;
                    assert(self.entries@[k].0 == before[k].0);
                }
                self.stage = RootStage::Evaluating;
                RootAction::Evaluate
            },
            RootEvent::Eval(score) => {
                self.best_score = score;
                self.best_depth = 0;
                if self.max_depth == 0 {
                    return self.finish();
                }
                self.start_iteration(1)
            },
            RootEvent::Stop(stop) => {
                if self.stage == RootStage::Checking {
                    if stop {
                        return self.finish();
                    }
                    let mv = self.entries[self.index].0;
                    self.stage = RootStage::Making;
                    assert(root_ok(self));
                    RootAction::Make(mv)
                } else {
                    if stop || self.depth >= self.max_depth {
                        return self.finish();
                    }
                    let next = self.depth + 1;
                    self.start_iteration(next)
                }
            },
            RootEvent::Score(s) => {
                self.child_score = -s;
                self.stage = RootStage::Unmaking;
                assert(root_ok(self));
                RootAction::Unmake(self.entries[self.index].0)
            },
            RootEvent::Interrupted => {
                self.interrupted = true;
                self.child_score = 0;
                self.stage = RootStage::Unmaking;
                RootAction::Unmake(self.entries[self.index].0)
            },
            RootEvent::Done => {
                match self.stage {
                    RootStage::Making => {
                        let (alpha, beta) = self.root.window();
                        self.stage = RootStage::Searching;
                        RootAction::Search {
                            depth: self.depth - 1,
                            node: NodeState::new(1, true, -beta, -alpha),
                            alpha: -beta,
                            beta: -alpha,
                        }
                    },
                    RootStage::Unmaking => {
                        if self.interrupted {
                            return self.finish();
                        }
                        let (mv, _) = self.entries[self.index];
                        let score = self.child_score;
                        let ghost before = self.entries@;
                        let ghost old_best = self.root.best_move;
                        self.entries.set(self.index, (mv, score));
                        proof {
                            assert forall|k: int| 0 <= k < before.len() implies #[trigger] self.entries@[k].0 == before[k].0 by {
                                if k == self.index as int {
                                } else {
                                }
                            }
                            assert(self.entries@[self.index as int].0 == mv);
                            let kb = choose|k: int| 0 <= k < before.len() && (#[trigger] before[k]).0 == self.best_move;
                            assert(self.entries@[kb].0 == self.best_move);
                            if self.root.alpha > i32::MIN / 2 {
                                let kr = choose|k: int| 0 <= k < before.len() && (#[trigger] before[k]).0 == old_best;
                                assert(self.entries@[kr].0 == old_best);
                            }
                        }
                        self.root.offer(mv, score);
                        if self.index < self.entries.len() - 1 {
                            self.index = self.index + 1;
                            self.stage = RootStage::Checking;
                            assert(root_ok(self));
                            return RootAction::CheckStop;
                        }
                        self.best_move = self.root.best_move;
                        self.best_score = self.root.alpha;
                        self.best_depth = self.depth;
                        self.stage = RootStage::Reporting;
                        assert(root_ok(self));
                        RootAction::Report { best_move: self.best_move, score: self.best_score, depth: self.depth }
                    },
                    _ => {
                        self.stage = RootStage::Deadline;
                        RootAction::CheckDeadline
                    },
                }
            },
        }
    }
}

pub open spec fn max_search_depth_spec(depth: Option<u8>) -> u8 {
    match depth {
        Some(d) => d,
        None => crate::search::root::MAX_SEARCH_DEPTH,
    }
}

} // verus!
