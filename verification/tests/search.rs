use nnuebie::chess::{Color, Move, Piece, KIND_CAPTURE, KIND_PROMOTION_QUEEN, KIND_QUIET};
use nnuebie::search::limits::{ClockLimits, SearchLimits};
use nnuebie::search::qsearch::{delta_prune_move, is_tactical_move, is_valid_encoded_move, qmove_score_fits, score_qmove};
use nnuebie::search::selectivity::{
    lmr_reduction, null_move_depth, probcut_depth, should_apply_iir, NodeState,
};
use nnuebie::search::telemetry::SearchTelemetry;
use nnuebie::search::tune::{scale_eval, IIR_CUT_MIN_DEPTH, IIR_PV_MIN_DEPTH};
use nnuebie::search::types::{is_mate_score, mate_in, mate_score, MATE_SCORE};

fn square(text: &str) -> u16 {
    let bytes = text.as_bytes();
    (bytes[0] - b'a') as u16 + 8 * (bytes[1] - b'1') as u16
}

#[test]
fn good_history_reduces_lmr() {
    let non_pv = NodeState::new(1, false, -1, 0);
    assert_eq!(lmr_reduction(8, 8, non_pv, 128), 2);
}

#[test]
fn bad_history_increases_lmr() {
    let non_pv = NodeState::new(1, false, -1, 0);
    assert_eq!(lmr_reduction(8, 8, non_pv, -64), 4);
}

#[test]
fn probcut_uses_configured_reduction() {
    assert_eq!(probcut_depth(5), 1);
    assert_eq!(probcut_depth(8), 4);
}

#[test]
fn iir_uses_node_kind_thresholds() {
    let pv = NodeState::new(1, true, -10, 10);
    let cut = NodeState::new(1, false, -1, 0);
    let all = NodeState::new(1, false, -10, 10);

    assert!(should_apply_iir(IIR_PV_MIN_DEPTH, pv, Move::null()));
    assert!(should_apply_iir(IIR_CUT_MIN_DEPTH, cut, Move::null()));
    assert!(!should_apply_iir(IIR_CUT_MIN_DEPTH - 1, cut, Move::null()));
    assert!(!should_apply_iir(IIR_PV_MIN_DEPTH, pv, Move::new(0, 1, KIND_QUIET)));
    assert!(!should_apply_iir(16, all, Move::null()));
}

#[test]
fn qsearch_delta_pruning_never_skips_promotions() {
    let promotion = Move::new(square("d7"), square("d8"), KIND_PROMOTION_QUEEN);
    assert!(!delta_prune_move(promotion, Piece::Pawn, scale_eval(-1000), scale_eval(500)));
}

#[test]
fn qsearch_delta_pruning_skips_hopeless_small_capture() {
    let capture = Move::new(square("a1"), square("a2"), KIND_CAPTURE);
    assert!(delta_prune_move(capture, Piece::Pawn, scale_eval(-600), 0));
}

#[test]
fn shared_delta_pruning_never_skips_promotions() {
    let promotion = Move::new(square("d7"), square("d8"), KIND_PROMOTION_QUEEN);
    assert!(!delta_prune_move(promotion, Piece::Pawn, scale_eval(-1000), scale_eval(500)));
}

#[test]
fn shared_delta_pruning_skips_hopeless_small_capture() {
    let capture = Move::new(square("a1"), square("a2"), KIND_CAPTURE);
    assert!(delta_prune_move(capture, Piece::Pawn, scale_eval(-600), 0));
}

#[test]
fn delta_pruning_keeps_captures_near_mate_and_winning_captures() {
    let capture = Move::new(square("a1"), square("a2"), KIND_CAPTURE);
    assert!(!delta_prune_move(capture, Piece::Pawn, scale_eval(-600), MATE_SCORE - 3));
    assert!(!delta_prune_move(capture, Piece::Queen, scale_eval(-600), 0));
}

#[test]
fn lmr_reduction_never_reaches_depth() {
    let pv = NodeState::new(1, true, -10, 10);
    let non_pv = NodeState::new(1, false, -1, 0);
    assert_eq!(lmr_reduction(12, 16, non_pv, 0), 4);
    assert_eq!(lmr_reduction(12, 16, pv, 0), 3);
    assert_eq!(lmr_reduction(2, 40, non_pv, -500), 1);
    assert_eq!(lmr_reduction(1, 40, non_pv, -500), 0);
    assert_eq!(lmr_reduction(5, 4, non_pv, 100), 1);
}

#[test]
fn null_move_depth_grows_reduction_with_eval_excess() {
    assert_eq!(null_move_depth(9, 0, 0), 3);
    assert_eq!(null_move_depth(9, 450, 0), 1);
    assert_eq!(null_move_depth(12, i32::MAX, i32::MIN), 1);
    assert_eq!(null_move_depth(3, 0, 100), 0);
}

#[test]
fn mate_scores_round_trip_to_move_counts() {
    assert_eq!(mate_score(0), 30_000);
    assert_eq!(mate_score(5), 29_995);
    assert!(is_mate_score(mate_score(255)));
    assert!(!is_mate_score(MATE_SCORE - 256));
    assert_eq!(mate_in(mate_score(1)), Some(1));
    assert_eq!(mate_in(mate_score(3)), Some(2));
    assert_eq!(mate_in(-mate_score(2)), Some(-1));
    assert_eq!(mate_in(100), None);
}

#[test]
fn move_kinds_classify_tactical_and_valid_codes() {
    assert!(is_tactical_move(Move::new(0, 1, KIND_CAPTURE)));
    assert!(is_tactical_move(Move::new(0, 1, 3)));
    assert!(!is_tactical_move(Move::new(0, 1, KIND_QUIET)));
    assert!(is_valid_encoded_move(Move::new(0, 1, 4)));
    assert!(!is_valid_encoded_move(Move::new(0, 1, 5)));
    assert!(is_valid_encoded_move(Move::new(0, 1, 15)));
}

#[test]
fn qmove_score_prefers_valuable_victims_and_promotions() {
    let capture = Move::new(0, 1, KIND_CAPTURE);
    assert_eq!(score_qmove(capture, Piece::Pawn, Piece::Queen), 10_000 + 900 * 16 - 100);
    let promotion = Move::new(48, 56, KIND_PROMOTION_QUEEN);
    assert_eq!(score_qmove(promotion, Piece::Pawn, Piece::Pawn), 20_000 + 900);
    // A queen promotion now comes before pawn takes knight.
    assert!(score_qmove(promotion, Piece::Pawn, Piece::Pawn) > score_qmove(capture, Piece::Pawn, Piece::Knight));
}

#[test]
fn movetime_deadlines_keep_a_safety_margin() {
    let limits = SearchLimits::movetime(1_000);
    assert_eq!(limits.deadlines(Color::White), (Some(975), Some(1_000)));
    let short = SearchLimits::movetime(5);
    assert_eq!(short.deadlines(Color::Black), (Some(0), Some(5)));
    assert_eq!(SearchLimits::depth(4).deadlines(Color::White), (None, None));
}

#[test]
fn clock_deadlines_split_the_remaining_time() {
    let clock = ClockLimits {
        white_time_ms: 60_000,
        black_time_ms: 0,
        white_increment_ms: 1_000,
        black_increment_ms: 0,
        movestogo: None,
    };
    let limits = SearchLimits::new().with_clock(clock);
    assert_eq!(limits.deadlines(Color::White), (Some(5_729), Some(8_593)));
    assert_eq!(limits.deadlines(Color::Black), (Some(0), Some(0)));
    let with_moves = SearchLimits::new().with_clock(ClockLimits { movestogo: Some(10), ..clock });
    assert_eq!(with_moves.deadlines(Color::White), (Some(6_475), Some(9_712)));
}

#[test]
fn telemetry_add_sums_every_counter() {
    let mut a = SearchTelemetry { main_nodes: 3, lmr_researches: 1, ..SearchTelemetry::default() };
    let b = SearchTelemetry { main_nodes: 4, q_nodes: 9, lmr_researches: 2, ..SearchTelemetry::default() };
    a.add(b);
    assert_eq!(a.main_nodes, 7);
    assert_eq!(a.q_nodes, 9);
    assert_eq!(a.lmr_researches, 3);
    assert_eq!(a.tt_hits, 0);
}

#[test]
fn budget_fits_only_when_the_arithmetic_stays_in_range() {
    let clock = ClockLimits {
        white_time_ms: 60_000,
        black_time_ms: 0,
        white_increment_ms: 1_000,
        black_increment_ms: u64::MAX,
        movestogo: None,
    };
    let limits = SearchLimits::new().with_clock(clock);
    assert!(limits.budget_fits(Color::White));
    // An empty clock gives zero budgets before any arithmetic.
    assert!(limits.budget_fits(Color::Black));
    let huge_increment = SearchLimits::new().with_clock(ClockLimits { white_increment_ms: u64::MAX / 2, ..clock });
    assert!(!huge_increment.budget_fits(Color::White));
    let edge = SearchLimits::new().with_clock(ClockLimits { white_increment_ms: u64::MAX / 3, ..clock });
    assert!(edge.budget_fits(Color::White));
    assert!(SearchLimits::movetime(u64::MAX).budget_fits(Color::White));
    assert!(SearchLimits::depth(3).budget_fits(Color::Black));
}

#[test]
fn qmove_scores_fit_except_promotions_taking_more_than_a_pawn() {
    let capture_promotion = Move::new(48, 57, nnuebie::chess::KIND_CAPTURE_PROMOTION_QUEEN);
    assert!(qmove_score_fits(capture_promotion, Piece::Pawn, Piece::Pawn));
    assert_eq!(score_qmove(capture_promotion, Piece::Pawn, Piece::Pawn), 20_900 + 10_000 + 1_600 - 100);
    assert!(!qmove_score_fits(capture_promotion, Piece::Pawn, Piece::Knight));
    assert!(qmove_score_fits(Move::new(0, 1, KIND_CAPTURE), Piece::King, Piece::Queen));
}
