use nnuebie::chess::{
    Move, Piece, KIND_CAPTURE, KIND_CAPTURE_PROMOTION_QUEEN, KIND_EN_PASSANT, KIND_PROMOTION_QUEEN, KIND_QUIET,
};
use nnuebie::search::alphabeta::{
    capture_history_record, needs_probcut_eval, no_moves_score, probcut_candidate, probcut_needs_verification,
    probcut_result, qsearch_tt_cutoff, see_prune_move, should_prune_late_bad_capture, should_update_correction,
    stand_pat, stored_static_eval, tt_cutoff, Bound, CaptureHistoryRecord, ChildSearch, ChildStage, MoveLoop, TtHit,
};
use nnuebie::search::picker::{score_move, MovePicker, Phase, PickerAction, TtMode};
use nnuebie::search::qsearch::NO_STATIC_EVAL;
use nnuebie::search::root::{
    max_search_depth, next_qmove, order_root_moves, seed_root_tt_move, terminal_root_result, RootLoop,
    MAX_SEARCH_DEPTH,
};
use nnuebie::search::selectivity::NodeState;
use nnuebie::search::types::MATE_SCORE;

fn sq(text: &str) -> u16 {
    let bytes = text.as_bytes();
    (bytes[0] - b'a') as u16 + 8 * (bytes[1] - b'1') as u16
}

fn mv(from: &str, to: &str, kind: u16) -> Move {
    Move::new(sq(from), sq(to), kind)
}

/// The moves of each stage, as move generation and scoring would give them.
struct Stages {
    captures: Vec<(Move, i16)>,
    quiets: Vec<(Move, i16)>,
    evasions: Vec<(Move, i16)>,
}

fn next_move(picker: &mut MovePicker, stages: &Stages) -> Option<Move> {
    loop {
        match picker.next_action() {
            PickerAction::Yield(m) => return Some(m),
            PickerAction::LoadStage(Phase::Captures) => picker.load(stages.captures.clone()),
            PickerAction::LoadStage(Phase::Quiets) => picker.load(stages.quiets.clone()),
            PickerAction::LoadStage(_) => picker.load(stages.evasions.clone()),
            PickerAction::CheckQuiets(m) => picker.quiet_check(stages.quiets.iter().any(|e| e.0 == m)),
            PickerAction::Done => return None,
        }
    }
}

/// "4k3/8/8/2n5/3P4/8/8/4K3 w - - 0 1": the pawn can take the knight or advance.
fn pawn_and_knight() -> Stages {
    let capture = mv("d4", "c5", KIND_CAPTURE);
    let capture_score = score_move(capture, Piece::Pawn, Piece::Knight, true, 0);
    let quiets = ["d1", "d2", "e2", "f1", "f2"]
        .iter()
        .map(|to| (mv("e1", to, KIND_QUIET), 0i16))
        .chain([(mv("d4", "d5", KIND_QUIET), 0i16)])
        .collect();
    Stages { captures: vec![(capture, capture_score)], quiets, evasions: vec![] }
}

#[test]
fn validate_in_stage_yields_tt_quiet_before_captures() {
    let stages = pawn_and_knight();
    let tt_move = mv("d4", "d5", KIND_QUIET);
    let mut picker = MovePicker::new(tt_move, TtMode::ValidateInStage, false);

    assert_eq!(next_move(&mut picker, &stages), Some(tt_move));
}

#[test]
fn validate_in_stage_rejects_bogus_tt_move() {
    let stages = pawn_and_knight();
    let bogus = mv("a1", "a2", KIND_QUIET);
    let mut picker = MovePicker::new(bogus, TtMode::ValidateInStage, false);

    assert_ne!(next_move(&mut picker, &stages), Some(bogus));
}

#[test]
fn blind_trust_mode_still_rejects_invalid_move_kind() {
    let stages = pawn_and_knight();
    let bogus = Move { bits: sq("a1") | (sq("a2") << 6) | (5 << 12) };
    let mut picker = MovePicker::new(bogus, TtMode::BlindTrust, false);

    assert_ne!(next_move(&mut picker, &stages), Some(bogus));
}

#[test]
fn yielded_tt_move_is_not_repeated_from_stage() {
    let stages = pawn_and_knight();
    let tt_move = mv("d4", "c5", KIND_CAPTURE);
    let mut picker = MovePicker::new(tt_move, TtMode::ValidateInStage, false);
    let mut seen = 0;
    let mut total = 0;

    while let Some(m) = next_move(&mut picker, &stages) {
        total += 1;
        if m == tt_move {
            seen += 1;
        }
    }

    assert_eq!(seen, 1);
    assert_eq!(total, 7);
}

#[test]
fn quiet_stage_uses_history_scores() {
    // "4k3/8/8/8/3N4/8/8/4K3 w - - 0 1" with d4-f5 rewarded in the quiet history.
    let quiet = mv("d4", "f5", KIND_QUIET);
    let mut quiets: Vec<(Move, i16)> = ["b3", "b5", "c2", "c6", "e2", "e6", "f3"]
        .iter()
        .map(|to| (mv("d4", to, KIND_QUIET), 0i16))
        .collect();
    quiets.push((quiet, 64));
    let stages = Stages { captures: vec![], quiets, evasions: vec![] };
    let mut picker = MovePicker::new(Move::null(), TtMode::BlindTrust, false);

    assert_eq!(next_move(&mut picker, &stages), Some(quiet));
}

#[test]
fn winning_capture_stays_before_quiets() {
    // "4k3/8/8/3q4/4P3/8/8/4K3 w - - 0 1" with e1-d1 rewarded in the quiet history.
    let capture = mv("e4", "d5", KIND_CAPTURE);
    let quiet = mv("e1", "d1", KIND_QUIET);
    let stages = Stages {
        captures: vec![(capture, score_move(capture, Piece::Pawn, Piece::Queen, true, 0))],
        quiets: vec![(quiet, 64), (mv("e4", "e5", KIND_QUIET), 0)],
        evasions: vec![],
    };
    let mut picker = MovePicker::new(Move::null(), TtMode::BlindTrust, false);

    assert_eq!(next_move(&mut picker, &stages), Some(capture));
    assert_eq!(next_move(&mut picker, &stages), Some(quiet));
}

#[test]
fn in_check_only_evasions_are_yielded() {
    let evasion = mv("e1", "d1", KIND_QUIET);
    let stages = Stages {
        captures: vec![(mv("d4", "c5", KIND_CAPTURE), 100)],
        quiets: vec![(mv("d4", "d5", KIND_QUIET), 0)],
        evasions: vec![(evasion, 0)],
    };
    let mut picker = MovePicker::new(Move::null(), TtMode::ValidateInStage, true);

    assert_eq!(next_move(&mut picker, &stages), Some(evasion));
    assert_eq!(next_move(&mut picker, &stages), None);
}

#[test]
fn move_scores_rank_promotions_and_captures() {
    assert_eq!(score_move(mv("a7", "a8", KIND_PROMOTION_QUEEN), Piece::Pawn, Piece::Pawn, true, 0), 20_900);
    assert_eq!(score_move(mv("a7", "b8", KIND_CAPTURE_PROMOTION_QUEEN), Piece::Pawn, Piece::Rook, true, 0), 21_400);
    assert_eq!(score_move(mv("d4", "c5", KIND_CAPTURE), Piece::Pawn, Piece::Knight, true, 5), 12_465);
    assert_eq!(score_move(mv("d1", "d7", KIND_CAPTURE), Piece::Queen, Piece::Pawn, false, 0), -10_100);
    assert_eq!(score_move(mv("e5", "d6", KIND_EN_PASSANT), Piece::Pawn, Piece::Pawn, false, 0), 10_700);
    assert_eq!(score_move(mv("e1", "d1", KIND_QUIET), Piece::King, Piece::Pawn, true, 90), 0);
}

fn hit(bound: Bound, score: i32, depth: u8) -> TtHit {
    TtHit { best_move: Move::null(), static_eval: NO_STATIC_EVAL, depth, bound, score }
}

#[test]
fn table_hits_cut_off_only_when_their_bound_settles_the_window() {
    assert_eq!(tt_cutoff(hit(Bound::Exact, 17, 5), 5, -10, 10), Some(17));
    assert_eq!(tt_cutoff(hit(Bound::Exact, 17, 4), 5, -10, 10), None);
    assert_eq!(tt_cutoff(hit(Bound::Lower, 10, 6), 5, -10, 10), Some(10));
    assert_eq!(tt_cutoff(hit(Bound::Lower, 9, 6), 5, -10, 10), None);
    assert_eq!(tt_cutoff(hit(Bound::Upper, -10, 6), 5, -10, 10), Some(-10));
    assert_eq!(tt_cutoff(hit(Bound::Upper, -9, 6), 5, -10, 10), None);
    assert_eq!(qsearch_tt_cutoff(hit(Bound::Lower, 50, 0), -10, 10), Some(50));
    assert_eq!(stored_static_eval(NO_STATIC_EVAL), None);
    assert_eq!(stored_static_eval(-45), Some(-45));
}

#[test]
fn move_loop_keeps_the_best_score_and_cuts_at_beta() {
    let mut l = MoveLoop::new(-50, 50, i32::MIN / 2);
    let a = mv("e2", "e4", KIND_QUIET);
    let b = mv("d2", "d4", KIND_QUIET);
    let c = mv("g1", "f3", KIND_QUIET);
    assert!(!l.offer(a, -80));
    assert_eq!((l.best_score, l.alpha, l.best_move), (-80, -50, a));
    assert_eq!(l.bound(), Bound::Upper);
    assert!(!l.offer(b, 20));
    assert_eq!((l.best_score, l.alpha, l.best_move), (20, 20, b));
    assert_eq!(l.bound(), Bound::Exact);
    l.raise_floor(10);
    assert_eq!(l.best_score, 20);
    assert!(l.offer(c, 60));
    assert_eq!((l.best_score, l.best_move, l.searched), (60, c, 3));
}

#[test]
fn stand_pat_fails_high_or_opens_the_loop() {
    assert!(matches!(stand_pat(120, -50, 100), Err(120)));
    let l = stand_pat(30, -50, 100).unwrap();
    assert_eq!((l.alpha, l.best_score, l.alpha_orig), (30, 30, -50));
    let l = stand_pat(-70, -50, 100).unwrap();
    assert_eq!((l.alpha, l.best_score), (-50, -70));
}

#[test]
fn child_search_reduces_then_widens() {
    let (mut plan, req) = ChildSearch::start(8, true, -20, 40, true, Some(3));
    assert_eq!((req.depth, req.alpha, req.beta, req.pv_node), (4, 19, 20, false));
    assert_eq!(plan.stage, ChildStage::Reduced);
    let req = plan.on_score(-5).unwrap();
    assert_eq!((req.depth, req.alpha, req.beta), (7, 19, 20));
    let req = plan.on_score(10).unwrap();
    assert_eq!((req.depth, req.alpha, req.beta, req.pv_node), (7, -40, 20, true));
    assert!(plan.on_score(15).is_none());

    let (mut plan, _) = ChildSearch::start(8, false, -20, 40, true, Some(3));
    assert!(plan.on_score(-20).is_none());
    let (mut plan, req) = ChildSearch::start(3, false, -20, 40, true, None);
    assert_eq!((req.depth, req.alpha, req.beta), (2, 19, 20));
    assert!(plan.on_score(45).is_none());
    let (_, req) = ChildSearch::start(3, true, -20, 40, false, None);
    assert_eq!((req.depth, req.alpha, req.beta), (2, -40, 20));
}

#[test]
fn probcut_and_capture_filters() {
    let capture = mv("d4", "c5", KIND_CAPTURE);
    assert!(probcut_candidate(capture, true));
    assert!(!probcut_candidate(capture, false));
    assert!(probcut_candidate(mv("a7", "a8", KIND_PROMOTION_QUEEN), false));
    assert!(!probcut_candidate(mv("e2", "e4", KIND_QUIET), true));
    assert!(probcut_needs_verification(300, 250, 2));
    assert!(!probcut_needs_verification(300, 250, 0));
    assert_eq!(probcut_result(260, 250, capture, 50), Some((capture, 50)));
    assert_eq!(probcut_result(240, 250, capture, 50), None);
    assert!(see_prune_move(capture, false));
    assert!(!see_prune_move(mv("e5", "d6", KIND_EN_PASSANT), false));
    let non_pv = NodeState::new(3, false, -1, 0);
    assert!(needs_probcut_eval(non_pv, false, 5, 100));
    assert!(!needs_probcut_eval(non_pv, false, 5, MATE_SCORE - 3));
    assert_eq!(no_moves_score(true, 4), -(MATE_SCORE - 4));
    assert_eq!(no_moves_score(false, 4), 0);
}

#[test]
fn correction_and_late_capture_rules() {
    assert!(should_update_correction(Bound::Exact, false, 35, 20));
    assert!(!should_update_correction(Bound::Lower, false, 35, 20));
    assert!(!should_update_correction(Bound::Exact, false, 35, NO_STATIC_EVAL));
    assert!(!should_update_correction(Bound::Exact, false, MATE_SCORE - 1, 20));
    let capture = mv("d1", "d7", KIND_CAPTURE);
    assert!(should_prune_late_bad_capture(capture, Move::null(), false, 4, 5, 200, -200, true, false, Piece::Knight));
    assert!(!should_prune_late_bad_capture(capture, Move::null(), false, 4, 5, 200, -100, true, false, Piece::Knight));
    assert!(!should_prune_late_bad_capture(capture, Move::null(), false, 4, 5, 200, -200, true, true, Piece::Knight));
    assert!(!should_prune_late_bad_capture(capture, Move::null(), false, 2, 5, 200, -200, true, false, Piece::Knight));
    assert_eq!(
        capture_history_record(capture, Piece::Queen, Piece::Pawn),
        Some(CaptureHistoryRecord { moved: Piece::Queen, to: sq("d7") as usize, captured: Piece::Pawn })
    );
    assert_eq!(
        capture_history_record(mv("e5", "d6", KIND_EN_PASSANT), Piece::Pawn, Piece::Knight).map(|r| r.captured),
        Some(Piece::Pawn)
    );
    assert_eq!(capture_history_record(mv("a7", "b8", KIND_CAPTURE_PROMOTION_QUEEN), Piece::Pawn, Piece::Rook), None);
}

#[test]
fn root_moves_are_ordered_best_first_keeping_ties() {
    let a = mv("e2", "e4", KIND_QUIET);
    let b = mv("d2", "d4", KIND_QUIET);
    let c = mv("g1", "f3", KIND_QUIET);
    let d = mv("b1", "c3", KIND_QUIET);
    let mut entries = vec![(a, 5), (b, 30), (c, 5), (d, i32::MIN)];
    order_root_moves(&mut entries);
    assert_eq!(entries, vec![(b, 30), (a, 5), (c, 5), (d, i32::MIN)]);

    seed_root_tt_move(&mut entries, c);
    assert_eq!(entries[2], (c, i32::MAX));
    order_root_moves(&mut entries);
    assert_eq!(entries[0], (c, i32::MAX));
    let before = entries.clone();
    seed_root_tt_move(&mut entries, Move::null());
    assert_eq!(entries, before);
}

#[test]
fn root_loop_keeps_the_first_best_move() {
    let a = mv("e2", "e4", KIND_QUIET);
    let b = mv("d2", "d4", KIND_QUIET);
    let mut root = RootLoop::new();
    assert_eq!(root.window(), (i32::MIN / 2, i32::MAX / 2));
    root.offer(a, 12);
    root.offer(b, 12);
    assert_eq!((root.alpha, root.best_move), (12, a));
    assert_eq!(terminal_root_result(true, 3).score, -MATE_SCORE);
    assert_eq!(terminal_root_result(false, 3).best_move, None);
    assert_eq!(max_search_depth(None), MAX_SEARCH_DEPTH);
    assert_eq!(max_search_depth(Some(7)), 7);
}

#[test]
fn quiescence_moves_come_best_first_skipping_the_table_move() {
    let a = mv("d4", "c5", KIND_CAPTURE);
    let b = mv("e4", "d5", KIND_CAPTURE);
    let c = mv("a7", "a8", KIND_PROMOTION_QUEEN);
    let mut entries = vec![(a, 300), (b, 900), (c, 2900)];
    let mut next = 0usize;
    assert_eq!(next_qmove(&mut entries, &mut next, c), Some(b));
    assert_eq!(next, 2);
    assert_eq!(next_qmove(&mut entries, &mut next, c), Some(a));
    assert_eq!(next_qmove(&mut entries, &mut next, c), None);
    assert_eq!(next, 3);
}

#[test]
fn picker_yields_every_loaded_move_in_stage_order() {
    let stages = pawn_and_knight();
    let tt_move = mv("d4", "d5", KIND_QUIET);
    let mut picker = MovePicker::new(tt_move, TtMode::ValidateInStage, false);
    let mut order = Vec::new();
    while let Some(m) = next_move(&mut picker, &stages) {
        order.push(m);
    }
    let expected: Vec<Move> = [tt_move, mv("d4", "c5", KIND_CAPTURE)]
        .into_iter()
        .chain(["d1", "d2", "e2", "f1", "f2"].iter().map(|to| mv("e1", to, KIND_QUIET)))
        .collect();
    assert_eq!(order, expected);
    assert_eq!(picker.phase, Phase::Done);
    assert_eq!(picker.next_action(), PickerAction::Done);
}
