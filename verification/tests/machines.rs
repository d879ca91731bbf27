use nnuebie::chess::{Move, Piece, KIND_CAPTURE, KIND_QUIET};
use nnuebie::search::alphabeta::{Bound, TtHit};
use nnuebie::search::control::{reached_deadline, should_stop_now, NodeCounter};
use nnuebie::search::driver::{RootAction, RootEvent, RootMachine};
use nnuebie::search::node::{MoveFacts, NodeAction, NodeEvent, NodeMachine};
use nnuebie::search::picker::Phase;
use nnuebie::search::qnode::{QAction, QEvent, QNodeMachine};
use nnuebie::search::selectivity::NodeState;
use nnuebie::search::types::mate_score;

fn sq(text: &str) -> u16 {
    let bytes = text.as_bytes();
    (bytes[0] - b'a') as u16 + 8 * (bytes[1] - b'1') as u16
}

fn mv(from: &str, to: &str, kind: u16) -> Move {
    Move::new(sq(from), sq(to), kind)
}

/// What a scripted position answers to a node.
struct Script {
    in_check: bool,
    tt: Option<TtHit>,
    quiets: Vec<(Move, i16)>,
    child_scores: Vec<i32>,
}

/// What the node did besides returning.
#[derive(Default)]
struct Trace {
    searched: Vec<Move>,
    made: usize,
    unmade: usize,
    stores: Vec<(Move, i32, Bound)>,
    cutoff: Option<(Move, Vec<Move>)>,
}

fn run_node(depth: u8, alpha: i32, beta: i32, script: Script) -> (i32, Trace) {
    match drive_node(depth, alpha, beta, script, false) {
        (Some(score), trace) => (score, trace),
        (None, _) => panic!("the node gave up"),
    }
}

/// Runs a node against a script; with `interrupt`, its first child search is
/// interrupted. `None` when the node gives up.
fn drive_node(depth: u8, alpha: i32, beta: i32, script: Script, interrupt: bool) -> (Option<i32>, Trace) {
    let node = NodeState::new(2, false, alpha, beta);
    let (mut machine, mut action) = NodeMachine::new(depth, node, alpha, beta);
    let mut trace = Trace::default();
    let mut scores = script.child_scores.clone();
    scores.reverse();
    let mut quiets_given = false;
    let mut current = Move::null();
    for _ in 0..500 {
        let event = match action {
            NodeAction::Return(score) => return (Some(score), trace),
            NodeAction::Abort => return (None, trace),
            NodeAction::Enter => NodeEvent::Entered { draw: false },
            NodeAction::ProbeTt => NodeEvent::Tt(script.tt),
            NodeAction::Analyze => NodeEvent::Analysis { in_check: script.in_check, non_pawn_material: true },
            NodeAction::Evaluate { .. } => NodeEvent::Eval { raw: 0, correction: 0 },
            NodeAction::MakeNull | NodeAction::UnmakeNull => NodeEvent::Done,
            NodeAction::Make(m) => {
                trace.made += 1;
                current = m;
                NodeEvent::Done
            }
            NodeAction::Unmake(_) => {
                trace.unmade += 1;
                NodeEvent::Done
            }
            NodeAction::Search { .. } | NodeAction::Qsearch { .. } => {
                trace.searched.push(current);
                if interrupt {
                    NodeEvent::Interrupted
                } else {
                    NodeEvent::Score(scores.pop().unwrap_or(0))
                }
            }
            NodeAction::ProbcutCaptures => NodeEvent::ProbcutMoves(Vec::new()),
            NodeAction::LoadStage(phase) => {
                let list = match phase {
                    Phase::Quiets | Phase::Evasions if !quiets_given => {
                        quiets_given = true;
                        script.quiets.clone()
                    }
                    _ => Vec::new(),
                };
                NodeEvent::StageMoves(list)
            }
            NodeAction::CheckQuiets(_) => NodeEvent::QuietsContain(false),
            NodeAction::Describe(_) => NodeEvent::Facts(MoveFacts {
                maybe_check: false,
                history_score: 0,
                moved: Piece::Knight,
                on_target: Piece::Pawn,
                see_not_losing: true,
            }),
            NodeAction::CutoffHistory { mv, failed_quiets, .. } => {
                trace.cutoff = Some((mv, failed_quiets));
                NodeEvent::Done
            }
            NodeAction::UpdateCorrection { .. } => NodeEvent::Done,
            NodeAction::Store { mv, score, bound, .. } => {
                trace.stores.push((mv, score, bound));
                NodeEvent::Done
            }
        };
        action = machine.resume(event);
    }
    panic!("the node did not return");
}

#[test]
fn node_at_depth_zero_returns_the_quiescence_score() {
    let (mut machine, action) = NodeMachine::new(0, NodeState::new(3, false, -50, 50), -50, 50);
    match action {
        NodeAction::Qsearch { ply, alpha, beta } => assert_eq!((ply, alpha, beta), (3, -50, 50)),
        _ => panic!("expected a quiescence request"),
    }
    assert!(matches!(machine.resume(NodeEvent::Score(17)), NodeAction::Return(17)));
}

#[test]
fn node_that_is_a_draw_returns_zero() {
    let (mut machine, action) = NodeMachine::new(4, NodeState::new(2, false, -50, 50), -50, 50);
    assert!(matches!(action, NodeAction::Enter));
    assert!(matches!(machine.resume(NodeEvent::Entered { draw: true }), NodeAction::Return(0)));
}

#[test]
fn node_with_a_deep_exact_table_entry_returns_its_score() {
    let hit = TtHit { best_move: mv("g1", "f3", KIND_QUIET), static_eval: 5, depth: 9, bound: Bound::Exact, score: 12 };
    let (score, trace) =
        run_node(3, -50, 50, Script { in_check: false, tt: Some(hit), quiets: Vec::new(), child_scores: Vec::new() });
    assert_eq!(score, 12);
    assert_eq!(trace.made, 0);
    assert!(trace.stores.is_empty());
}

#[test]
fn node_without_moves_in_check_is_mated() {
    let (score, trace) =
        run_node(2, -50, 50, Script { in_check: true, tt: None, quiets: Vec::new(), child_scores: Vec::new() });
    assert_eq!(score, -mate_score(2));
    assert_eq!(trace.made, 0);
}

#[test]
fn node_without_moves_out_of_check_is_stalemate() {
    let (score, trace) =
        run_node(1, -50, 50, Script { in_check: false, tt: None, quiets: Vec::new(), child_scores: Vec::new() });
    assert_eq!(score, 0);
    assert_eq!(trace.made, 0);
}

#[test]
fn node_with_one_move_returns_the_negated_child_score_and_stores_it() {
    let only = mv("g1", "f3", KIND_QUIET);
    let (score, trace) = run_node(
        1,
        -50,
        50,
        Script { in_check: true, tt: None, quiets: vec![(only, 0)], child_scores: vec![-20] },
    );
    assert_eq!(score, 20);
    assert_eq!(trace.made, 1);
    assert_eq!(trace.unmade, 1);
    assert_eq!(trace.searched, vec![only]);
    assert_eq!(trace.stores.len(), 1);
    assert_eq!(trace.stores[0].0, only);
    assert_eq!(trace.stores[0].1, 20);
    assert!(matches!(trace.stores[0].2, Bound::Exact));
}

#[test]
fn node_cut_off_by_a_move_stores_a_lower_bound() {
    let first = mv("g1", "f3", KIND_QUIET);
    let second = mv("b1", "c3", KIND_QUIET);
    let (score, trace) = run_node(
        1,
        -50,
        50,
        Script { in_check: true, tt: None, quiets: vec![(first, 10), (second, 0)], child_scores: vec![-80] },
    );
    assert_eq!(score, 80);
    assert_eq!(trace.made, 1);
    assert_eq!(trace.stores.len(), 1);
    assert_eq!(trace.stores[0].0, first);
    assert!(matches!(trace.stores[0].2, Bound::Lower));
}

/// A quiescence node answered from a script; returns its score and its stores.
fn run_qnode(alpha: i32, beta: i32, in_check: bool, eval: i32, moves: Vec<(Move, i16)>, child: i32) -> (i32, Vec<(i32, Bound)>, usize) {
    let mut machine = QNodeMachine::new(4, alpha, beta);
    let mut action = QAction::Enter;
    let mut stores = Vec::new();
    let mut made = 0;
    let mut listed = false;
    for _ in 0..200 {
        let event = match action {
            QAction::Return(score) => return (score, stores, made),
            QAction::Abort => unreachable!("nothing interrupts this search"),
            QAction::Enter => QEvent::Entered { draw: false },
            QAction::ProbeTt => QEvent::Tt(None),
            QAction::Analyze => QEvent::Analysis { in_check },
            QAction::Evaluate => QEvent::Eval { raw: eval },
            QAction::GenerateCaptures | QAction::GenerateEvasions => {
                let list = if listed { Vec::new() } else { moves.clone() };
                listed = true;
                QEvent::Moves(list)
            }
            QAction::Describe(_) => QEvent::Facts { captured: Piece::Queen, see_not_losing: true },
            QAction::Make(_) => {
                made += 1;
                QEvent::Done
            }
            QAction::Unmake(_) => QEvent::Done,
            QAction::Search { .. } => QEvent::Score(child),
            QAction::Store { score, bound, .. } => {
                stores.push((score, bound));
                QEvent::Done
            }
        };
        action = machine.resume(event);
    }
    panic!("the quiescence node did not return");
}

#[test]
fn quiescence_stands_pat_at_or_above_beta() {
    let (score, stores, made) = run_qnode(-50, 50, false, 120, Vec::new(), 0);
    assert_eq!(score, 120);
    assert_eq!(made, 0);
    assert_eq!(stores.len(), 1);
    assert!(matches!(stores[0].1, Bound::Lower));
}

#[test]
fn quiescence_without_captures_returns_the_static_evaluation() {
    let (score, _, made) = run_qnode(-50, 50, false, 10, Vec::new(), 0);
    assert_eq!(score, 10);
    assert_eq!(made, 0);
}

#[test]
fn quiescence_takes_a_winning_capture() {
    let capture = mv("d4", "e5", KIND_CAPTURE);
    let (score, _, made) = run_qnode(-50, 50, false, 0, vec![(capture, 100)], -30);
    assert_eq!(made, 1);
    assert_eq!(score, 30);
}

#[test]
fn quiescence_in_check_without_evasions_is_mated() {
    let (score, _, made) = run_qnode(-50, 50, true, 0, Vec::new(), 0);
    assert_eq!(made, 0);
    assert_eq!(score, -mate_score(4));
}

/// A root search answered from a script: the child scores of each root move,
/// iteration after iteration.
fn run_root(depth: Option<u8>, moves: Vec<Move>, child_scores: Vec<i32>, stop_after: Option<usize>) -> (Option<Move>, i32, u8, Vec<(Move, i32, u8)>) {
    let mut machine = RootMachine::new(depth);
    let mut action = RootAction::GenerateMoves;
    let mut scores = child_scores;
    scores.reverse();
    let mut reports = Vec::new();
    let mut searches = 0;
    for _ in 0..1000 {
        let event = match action {
            RootAction::Finish { best_move, score, depth } => return (best_move, score, depth, reports),
            RootAction::GenerateMoves => RootEvent::RootMoves { moves: moves.clone(), in_check: false },
            RootAction::ProbeTt => RootEvent::Tt(None),
            RootAction::Evaluate => RootEvent::Eval(7),
            RootAction::CheckStop => RootEvent::Stop(stop_after.map_or(false, |n| searches >= n)),
            RootAction::Make(_) | RootAction::Unmake(_) => RootEvent::Done,
            RootAction::Search { .. } => {
                searches += 1;
                RootEvent::Score(scores.pop().unwrap_or(0))
            }
            RootAction::Report { best_move, score, depth } => {
                reports.push((best_move, score, depth));
                RootEvent::Done
            }
            RootAction::CheckDeadline => RootEvent::Stop(false),
        };
        action = machine.resume(event);
    }
    panic!("the root did not finish");
}

#[test]
fn root_without_moves_reports_mate_or_stalemate() {
    let mut machine = RootMachine::new(Some(3));
    let action = machine.resume(RootEvent::RootMoves { moves: Vec::new(), in_check: true });
    match action {
        RootAction::Finish { best_move, score, depth } => {
            assert_eq!(best_move, None);
            assert_eq!(score, -mate_score(0));
            assert_eq!(depth, 0);
        }
        _ => panic!("expected the end of the search"),
    }
    let mut machine = RootMachine::new(None);
    match machine.resume(RootEvent::RootMoves { moves: Vec::new(), in_check: false }) {
        RootAction::Finish { best_move, score, .. } => assert_eq!((best_move, score), (None, 0)),
        _ => panic!("expected the end of the search"),
    }
}

#[test]
fn root_at_depth_zero_returns_the_first_move_and_the_evaluation() {
    let a = mv("e2", "e4", KIND_QUIET);
    let b = mv("d2", "d4", KIND_QUIET);
    let (best, score, depth, reports) = run_root(Some(0), vec![a, b], Vec::new(), None);
    assert_eq!(best, Some(a));
    assert_eq!(score, 7);
    assert_eq!(depth, 0);
    assert!(reports.is_empty());
}

#[test]
fn root_iterations_report_the_best_move_and_reorder() {
    let a = mv("e2", "e4", KIND_QUIET);
    let b = mv("d2", "d4", KIND_QUIET);
    // Depth 1: a scores 10, b scores 40. Depth 2 searches b first: b 25, a 30.
    let (best, score, depth, reports) = run_root(Some(2), vec![a, b], vec![-10, -40, -25, -30], None);
    assert_eq!(reports, vec![(b, 40, 1), (a, 30, 2)]);
    assert_eq!((best, score, depth), (Some(a), 30, 2));
}

#[test]
fn root_stopped_mid_iteration_keeps_the_last_completed_one() {
    let a = mv("e2", "e4", KIND_QUIET);
    let b = mv("d2", "d4", KIND_QUIET);
    let (best, score, depth, reports) = run_root(Some(5), vec![a, b], vec![-10, -40, -25, -30], Some(3));
    assert_eq!(reports, vec![(b, 40, 1)]);
    assert_eq!((best, score, depth), (Some(b), 40, 1));
}

#[test]
fn root_table_move_outside_the_root_moves_is_ignored() {
    let a = mv("e2", "e4", KIND_QUIET);
    let b = mv("d2", "d4", KIND_QUIET);
    let bogus = mv("a3", "a4", KIND_QUIET);
    let mut machine = RootMachine::new(Some(1));
    assert!(matches!(machine.resume(RootEvent::RootMoves { moves: vec![a, b], in_check: false }), RootAction::ProbeTt));
    let hit = TtHit { best_move: bogus, static_eval: i16::MIN, depth: 1, bound: Bound::Exact, score: 0 };
    assert!(matches!(machine.resume(RootEvent::Tt(Some(hit))), RootAction::Evaluate));
    let mut action = machine.resume(RootEvent::Eval(0));
    let mut searched = Vec::new();
    let mut current = None;
    let result = loop {
        let event = match action {
            RootAction::Finish { best_move, .. } => break best_move,
            RootAction::CheckStop | RootAction::CheckDeadline => RootEvent::Stop(false),
            RootAction::Make(m) => {
                current = Some(m);
                RootEvent::Done
            }
            RootAction::Search { .. } => {
                searched.push(current.unwrap());
                RootEvent::Score(0)
            }
            _ => RootEvent::Done,
        };
        action = machine.resume(event);
    };
    assert_ne!(result, Some(bogus));
    assert_eq!(searched, vec![a, b]);
    assert_eq!(result, Some(a));
}

#[test]
fn root_tt_move_among_the_root_moves_is_searched_first() {
    let a = mv("e2", "e4", KIND_QUIET);
    let b = mv("d2", "d4", KIND_QUIET);
    let mut machine = RootMachine::new(Some(1));
    machine.resume(RootEvent::RootMoves { moves: vec![a, b], in_check: false });
    let hit = TtHit { best_move: b, static_eval: 0, depth: 1, bound: Bound::Exact, score: 0 };
    machine.resume(RootEvent::Tt(Some(hit)));
    assert!(matches!(machine.resume(RootEvent::Eval(0)), RootAction::CheckStop));
    match machine.resume(RootEvent::Stop(false)) {
        RootAction::Make(m) => assert_eq!(m, b),
        _ => panic!("expected the table's move first"),
    }
}

#[test]
fn node_counter_polls_every_1024_nodes() {
    let mut counter = NodeCounter::new();
    let mut polls = Vec::new();
    for _ in 0..3000 {
        if counter.enter_node() {
            polls.push(counter.nodes);
        }
    }
    assert_eq!(counter.nodes, 3000);
    assert_eq!(polls, vec![1024, 2048]);
}

#[test]
fn stop_follows_the_request_or_the_hard_deadline() {
    assert!(should_stop_now(true, 0, None));
    assert!(!should_stop_now(false, 5_000, None));
    assert!(!should_stop_now(false, 99, Some(100)));
    assert!(should_stop_now(false, 100, Some(100)));
    assert!(!reached_deadline(10, None));
    assert!(reached_deadline(250, Some(200)));
    assert!(!reached_deadline(199, Some(200)));
}

#[test]
fn mate_found_at_a_ply_reads_as_mate_in_half_the_plies() {
    for ply in [0u8, 1, 2, 3, 4, 9, 200] {
        let expected = (i32::from(ply) + 1) / 2;
        assert_eq!(nnuebie::search::types::mate_in(mate_score(ply)), Some(expected));
        assert_eq!(nnuebie::search::types::mate_in(-mate_score(ply)), Some(-expected));
    }
    assert_eq!(nnuebie::search::types::mate_in(120), None);
}

#[test]
fn quiet_cutoff_penalises_the_quiet_moves_searched_before_it() {
    let first = mv("g1", "f3", KIND_QUIET);
    let second = mv("b1", "c3", KIND_QUIET);
    let third = mv("e2", "e4", KIND_QUIET);
    let (score, trace) = run_node(
        1,
        -50,
        50,
        Script {
            in_check: true,
            tt: None,
            quiets: vec![(first, 30), (second, 20), (third, 10)],
            child_scores: vec![10, 20, -70],
        },
    );
    assert_eq!(score, 70);
    assert_eq!(trace.searched, vec![first, second, third]);
    assert_eq!(trace.cutoff, Some((third, vec![first, second])));
    assert!(matches!(trace.stores[0].2, Bound::Lower));
}

#[test]
fn node_interrupted_in_a_child_takes_its_move_back_and_gives_up() {
    let quiet = mv("e2", "e4", KIND_QUIET);
    let script = Script { in_check: false, tt: None, quiets: vec![(quiet, 0)], child_scores: vec![] };
    let (result, trace) = drive_node(2, -100, 100, script, true);
    assert_eq!(result, None);
    assert_eq!(trace.made, 1);
    assert_eq!(trace.unmade, 1);
    assert!(trace.stores.is_empty());
}

#[test]
fn node_that_cannot_be_counted_gives_up_at_once() {
    let node = NodeState::new(2, false, -100, 100);
    let (mut machine, action) = NodeMachine::new(3, node, -100, 100);
    assert!(matches!(action, NodeAction::Enter));
    assert!(matches!(machine.resume(NodeEvent::Interrupted), NodeAction::Abort));
}

#[test]
fn quiescence_interrupted_in_a_child_takes_its_move_back_and_gives_up() {
    let capture = mv("d4", "c5", KIND_CAPTURE);
    let mut machine = QNodeMachine::new(4, -50, 50);
    let mut action = QAction::Enter;
    let mut made = 0;
    let mut unmade = 0;
    for _ in 0..50 {
        let event = match action {
            QAction::Abort => break,
            QAction::Return(_) => panic!("the node should give up"),
            QAction::Enter => QEvent::Entered { draw: false },
            QAction::ProbeTt => QEvent::Tt(None),
            QAction::Analyze => QEvent::Analysis { in_check: false },
            QAction::Evaluate => QEvent::Eval { raw: 0 },
            QAction::GenerateCaptures | QAction::GenerateEvasions => QEvent::Moves(vec![(capture, 100)]),
            QAction::Describe(_) => QEvent::Facts { captured: Piece::Queen, see_not_losing: true },
            QAction::Make(_) => {
                made += 1;
                QEvent::Done
            }
            QAction::Unmake(_) => {
                unmade += 1;
                QEvent::Done
            }
            QAction::Search { .. } => QEvent::Interrupted,
            QAction::Store { .. } => panic!("an interrupted node stores nothing"),
        };
        action = machine.resume(event);
    }
    assert!(matches!(action, QAction::Abort));
    assert_eq!((made, unmade), (1, 1));
}
