//! Tuned search parameters.
use vstd::prelude::*;

verus! {

pub const EVAL_SCORE_SCALE: i32 = 1;

pub const FUTILITY_MAX_DEPTH: u8 = 6;
pub const FUTILITY_MARGIN_1: i32 = 100;
pub const FUTILITY_MARGIN_2: i32 = 160;
pub const FUTILITY_MARGIN_3: i32 = 220;
pub const FUTILITY_MARGIN_4: i32 = 280;
pub const FUTILITY_MARGIN_5: i32 = 340;
pub const FUTILITY_MARGIN_6: i32 = 400;
pub const FUTILITY_MARGIN_7: i32 = 460;

pub const RAZOR_MAX_DEPTH: u8 = 3;
pub const RAZOR_MARGIN_1: i32 = 300;
pub const RAZOR_MARGIN_2: i32 = 500;
pub const RAZOR_MARGIN_3: i32 = 700;

pub const RFP_MAX_DEPTH: u8 = 7;
pub const RFP_MARGIN_1: i32 = 80;
pub const RFP_MARGIN_2: i32 = 160;
pub const RFP_MARGIN_3: i32 = 240;
pub const RFP_MARGIN_4: i32 = 320;
pub const RFP_MARGIN_5: i32 = 400;
pub const RFP_MARGIN_6: i32 = 480;
pub const RFP_MARGIN_7: i32 = 560;

pub const NULL_MOVE_MIN_DEPTH: u8 = 3;

pub const IIR_PV_MIN_DEPTH: u8 = 6;
pub const IIR_CUT_MIN_DEPTH: u8 = 8;

pub const LATE_QUIET_PRUNE_MIN_DEPTH: u8 = 1;
pub const LATE_QUIET_PRUNE_MAX_DEPTH: u8 = 6;
pub const LATE_QUIET_PRUNE_MOVE_MULT: usize = 4;
pub const LATE_QUIET_PRUNE_MOVE_OFFSET: usize = 1;

pub const LMR_MIN_DEPTH: u8 = 3;
pub const LMR_FULL_DEPTH_MOVES: usize = 3;
pub const LMR_HISTORY_GOOD: i16 = 64;
pub const LMR_HISTORY_BAD: i16 = -64;

pub const PROBCUT_MIN_DEPTH: u8 = 5;
pub const PROBCUT_MARGIN: i32 = 200;
pub const PROBCUT_REDUCTION: u8 = 4;

pub const PVS_FULL_WINDOW_MOVES: usize = 1;

pub const QSEARCH_CAPTURE_BASE: i32 = 10_000;
pub const QSEARCH_PROMOTION_BASE: i32 = 20_000;
pub const QSEARCH_DELTA_MARGIN: i32 = 200;

/// Converts a value in centipawn-like units into evaluation units.
pub fn scale_eval(value: i32) -> (r: i32)
    requires
        i32::MIN <= value * EVAL_SCORE_SCALE <= i32::MAX,
    ensures
        r == value * EVAL_SCORE_SCALE,
{
    value * EVAL_SCORE_SCALE
}

} // verus!
