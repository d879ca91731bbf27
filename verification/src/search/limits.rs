//! Search limits and the soft and hard time budgets derived from them.
use vstd::prelude::*;
use crate::chess::Color;

verus! {

/// What may stop a search: a depth, a fixed time per move, or a game clock.
#[derive(Clone, Copy, Debug, Default)]
pub struct SearchLimits {
    pub depth: Option<u8>,
    pub movetime_ms: Option<u64>,
    pub clock: Option<ClockLimits>,
}

/// Remaining time and increments of both sides, and the moves left until the next time control.
#[derive(Clone, Copy, Debug, Default)]
pub struct ClockLimits {
    pub white_time_ms: u64,
    pub black_time_ms: u64,
    pub white_increment_ms: u64,
    pub black_increment_ms: u64,
    pub movestogo: Option<u64>,
}

pub open spec fn min_int(a: int, b: int) -> int {
    if a <= b { a } else { b }
}

pub open spec fn max_int(a: int, b: int) -> int {
    if a >= b { a } else { b }
}

/// Time and increment of `side`.
pub open spec fn clock_for_side(clock: ClockLimits, side: Color) -> (int, int) {
    match side {
        Color::White => (clock.white_time_ms as int, clock.white_increment_ms as int),
        Color::Black => (clock.black_time_ms as int, clock.black_increment_ms as int),
    }
}

/// A fixed move time `t` stops searching new depths at `t` minus a safety margin
/// of `t / 40` (at least 10 ms, at most `t`), and stops outright at `t`.
pub open spec fn movetime_deadlines(t: int) -> (int, int) {
    let safety = min_int(max_int(t / 40, 10), t);
    (t - safety, t)
}

/// The soft budget on a clock before it is clamped: a share of the usable time plus part of the increment.
pub open spec fn clock_soft_raw(usable: int, increment: int, movestogo: Option<u64>) -> int {
    match movestogo {
        Some(m) if m > 0 => usable / (m as int) + increment / 2,
        _ => usable / 12 + increment * 3 / 4,
    }
}

/// With `time_left > 0`: keep a reserve of `time_left / 40` (between 10 and 250 ms);
/// the soft budget is the raw share clamped to `[1, usable]` when anything is usable;
/// the hard budget is one and a half soft budgets, capped at one millisecond less
/// than the time left (but never below the soft budget).
pub open spec fn clock_deadlines(time_left: int, increment: int, movestogo: Option<u64>) -> (int, int) {
    let reserve = min_int(max_int(time_left / 40, 10), 250);
    let usable = max_int(time_left - reserve, 0);
    let raw = clock_soft_raw(usable, increment, movestogo);
    let soft = if usable > 0 { if raw < 1 { 1 } else if raw > usable { usable } else { raw } } else { raw };
    let hard = min_int(soft + soft / 2, max_int(max_int(time_left - 1, 0), soft));
    (soft, hard)
}

/// The budgets, in milliseconds, that `limits` gives `side`: a move time wins
/// over a clock; with neither there is no budget; an empty clock gives zero.
pub open spec fn deadlines_spec(limits: SearchLimits, side: Color) -> (Option<int>, Option<int>) {
    match limits.movetime_ms {
        Some(t) => (Some(movetime_deadlines(t as int).0), Some(movetime_deadlines(t as int).1)),
        None => match limits.clock {
            None => (None, None),
            Some(clock) => {
                let (time_left, increment) = clock_for_side(clock, side);
                if time_left == 0 {
                    (Some(0), Some(0))
                } else {
                    let (soft, hard) = clock_deadlines(time_left, increment, clock.movestogo);
                    (Some(soft), Some(hard))
                }
            },
        },
    }
}

/// The budget computation stays within `u64` (it overflows only for increments near `u64::MAX`).
pub open spec fn deadlines_fit(limits: SearchLimits, side: Color) -> bool {
    match limits.movetime_ms {
        Some(t) => true,
        None => match limits.clock {
            None => true,
            Some(clock) => {
                let (time_left, increment) = clock_for_side(clock, side);
                let reserve = min_int(max_int(time_left / 40, 10), 250);
                let usable = max_int(time_left - reserve, 0);
                time_left == 0 || ({
                    &&& increment * 3 <= u64::MAX
                    &&& clock_soft_raw(usable, increment, clock.movestogo) <= u64::MAX
                    &&& clock_deadlines(time_left, increment, clock.movestogo).0 * 3 / 2 <= u64::MAX
                    &&& clock_deadlines(time_left, increment, clock.movestogo).0
                        + clock_deadlines(time_left, increment, clock.movestogo).0 / 2 <= u64::MAX
                })
            },
        },
    }
}

impl SearchLimits {
    /// No limit at all.
    pub fn new() -> (r: Self)
        ensures
            r.depth is None && r.movetime_ms is None && r.clock is None,
    {
        SearchLimits { depth: None, movetime_ms: None, clock: None }
    }

    /// A depth limit only.
    pub fn depth(depth: u8) -> (r: Self)
        ensures
            r.depth == Some(depth) && r.movetime_ms is None && r.clock is None,
    {
        SearchLimits { depth: Some(depth), movetime_ms: None, clock: None }
    }

    /// A fixed time per move only.
    pub fn movetime(movetime_ms: u64) -> (r: Self)
        ensures
            r.depth is None && r.movetime_ms == Some(movetime_ms) && r.clock is None,
    {
        SearchLimits { depth: None, movetime_ms: Some(movetime_ms), clock: None }
    }

    /// These limits with `clock` as the game clock.
    pub fn with_clock(self, clock: ClockLimits) -> (r: Self)
        ensures
            r.depth == self.depth && r.movetime_ms == self.movetime_ms && r.clock == Some(clock),
    {
        SearchLimits { depth: self.depth, movetime_ms: self.movetime_ms, clock: Some(clock) }
    }

    /// Whether the budget arithmetic of `deadlines` stays within `u64` for `side`.
    pub fn budget_fits(self, side_to_move: Color) -> (r: bool)
        ensures
            r == deadlines_fit(self, side_to_move),
    {
        if self.movetime_ms.is_some() {
            return true;
        }
        let clock = match self.clock {
            Some(c) => c,
            None => return true,
        };
        let (t, inc) = clock.for_side(side_to_move);
        if t == 0 {
            return true;
        }
        let time_left = t as u128;
        let increment = inc as u128;
        let forty = time_left / 40;
        let at_least = if forty < 10 { 10 } else { forty };
        let reserve = if at_least > 250 { 250 } else { at_least };
        let usable = if time_left > reserve { time_left - reserve } else { 0 };
        let raw = match clock.movestogo {
            Some(m) if m > 0 => usable / (m as u128) + increment / 2,
            _ => usable / 12 + increment * 3 / 4,
        };
        let soft = if usable > 0 {
            if raw < 1 { 1 } else if raw > usable { usable } else { raw }
        } else {
            raw
        };
        let max = u64::MAX as u128;
        increment * 3 <= max && raw <= max && soft * 3 / 2 <= max && soft + soft / 2 <= max
    }

    /// The soft and the hard time budget of `side`, in milliseconds.
    pub fn deadlines(self, side_to_move: Color) -> (r: (Option<u64>, Option<u64>))
        requires
            deadlines_fit(self, side_to_move),
        ensures
            deadlines_spec(self, side_to_move) == (
                match r.0 { Some(v) => Some(v as int), None => None::<int> },
                match r.1 { Some(v) => Some(v as int), None => None::<int> },
            ),
    {
        if let Some(movetime_ms) = self.movetime_ms {
            let forty = movetime_ms / 40;
            let at_least = if forty < 10 { 10 } else { forty };
            let safety_ms = if at_least > movetime_ms { movetime_ms } else { at_least };
            let soft_ms = movetime_ms - safety_ms;
            return (Some(soft_ms), Some(movetime_ms));
        }
        let clock = match self.clock {
            Some(c) => c,
            None => return (None, None),
        };
        let (time_left_ms, increment_ms) = clock.for_side(side_to_move);
        if time_left_ms == 0 {
            return (Some(0), Some(0));
        }
        let forty = time_left_ms / 40;
        let at_least = if forty < 10 { 10 } else { forty };
        let reserve_ms = if at_least > 250 { 250 } else { at_least };
        let usable_ms = if time_left_ms > reserve_ms { time_left_ms - reserve_ms } else { 0 };
        let mut soft_ms: u64 = match clock.movestogo {
            Some(movestogo) if movestogo > 0 => usable_ms / movestogo + increment_ms / 2,
            _ => usable_ms / 12 + increment_ms * 3 / 4,
        };
        if usable_ms > 0 {
            soft_ms = if soft_ms < 1 { 1 } else if soft_ms > usable_ms { usable_ms } else { soft_ms };
        }
        let one_less = if time_left_ms > 1 { time_left_ms - 1 } else { 0 };
        let cap = if one_less > soft_ms { one_less } else { soft_ms };
        let grown = soft_ms + soft_ms / 2;
        let hard_ms = if grown < cap { grown } else { cap };
        (Some(soft_ms), Some(hard_ms))
    }
}

impl ClockLimits {
    /// The remaining time and increment of `side`.
    pub fn for_side(self, side_to_move: Color) -> (r: (u64, u64))
        ensures
            (r.0 as int, r.1 as int) == clock_for_side(self, side_to_move),
    {
        match side_to_move {
            Color::White => (self.white_time_ms, self.white_increment_ms),
            Color::Black => (self.black_time_ms, self.black_increment_ms),
        }
    }
}

/// A game clock never budgets more than is left. With time on the clock and
/// some of it usable beyond the reserve, the soft budget is at least 1 ms and
/// at most the usable time, and the hard budget is at least the soft one and
/// below the time left, whatever the increment and moves to go.
pub proof fn lemma_clock_budget_within_time(limits: SearchLimits, side: Color, clock: ClockLimits)
    requires
        limits.movetime_ms is None,
        limits.clock == Some(clock),
        clock_for_side(clock, side).0 > 0,
        clock_for_side(clock, side).0 > min_int(max_int(clock_for_side(clock, side).0 / 40, 10), 250),
    ensures
        ({
            let time_left = clock_for_side(clock, side).0;
            let usable = time_left - min_int(max_int(time_left / 40, 10), 250);
            deadlines_spec(limits, side) matches (Some(soft), Some(hard))
                && 1 <= soft <= usable && soft <= hard < time_left
        }),
{
    let (time_left, increment) = clock_for_side(clock, side);
    let reserve = min_int(max_int(time_left / 40, 10), 250);
    let usable = max_int(time_left - reserve, 0);
    assert(usable == time_left - reserve);
}

/// How a game clock is shared out once time is usable beyond the reserve
/// (`time_left / 40`, kept between 10 and 250 ms): without an increment the
/// soft budget is the usable time over the moves to go, or over 12 when none
/// are given, at least 1 ms; an increment adds half of itself with moves to
/// go and three quarters without, the total capped at the usable time. The
/// hard budget is one and a half soft budgets, capped at 1 ms less than the
/// time left.
pub proof fn lemma_clock_budget_shares(limits: SearchLimits, side: Color, clock: ClockLimits)
    requires
        limits.movetime_ms is None,
        limits.clock == Some(clock),
        clock_for_side(clock, side).0 > min_int(max_int(clock_for_side(clock, side).0 / 40, 10), 250),
    ensures
        ({
            let (time_left, increment) = clock_for_side(clock, side);
            let reserve = if time_left / 40 < 10 { 10 } else if time_left / 40 > 250 { 250 } else { time_left / 40 };
            let usable = time_left - reserve;
            let share = match clock.movestogo {
                Some(m) if m > 0 => usable / (m as int) + increment / 2,
                _ => usable / 12 + increment * 3 / 4,
            };
            deadlines_spec(limits, side) matches (Some(soft), Some(hard)) && {
                &&& soft == (if share < 1 { 1 } else if share > usable { usable } else { share })
                &&& hard == (if soft + soft / 2 < time_left - 1 { soft + soft / 2 } else { time_left - 1 })
                &&& increment == 0 && clock.movestogo is None ==> soft == (if usable / 12 < 1 { 1 } else { usable / 12 })
            }
        }),
{
    let (time_left, increment) = clock_for_side(clock, side);
    let reserve = min_int(max_int(time_left / 40, 10), 250);
    assert(max_int(time_left - reserve, 0) == time_left - reserve);
    match clock.movestogo {
        Some(m) => {
            if m > 0 {
                assert(time_left - reserve >= 0);
                assert((time_left - reserve) / (m as int) <= time_left - reserve) by (nonlinear_arith)
                    requires time_left - reserve >= 0, m > 0;
            }
        },
        None => {},
    }
}

/// A move time keeps a safety margin of a fortieth of itself, at least 10 ms
/// and never more than the move time: the soft budget is what is left of it,
/// the hard budget the move time itself.
pub proof fn lemma_movetime_budgets(limits: SearchLimits, side: Color, t: u64)
    requires
        limits.movetime_ms == Some(t),
    ensures
        t >= 400 ==> deadlines_spec(limits, side) == (Some(t - t / 40), Some(t as int)),
        10 <= t < 400 ==> deadlines_spec(limits, side) == (Some(t - 10), Some(t as int)),
        t < 10 ==> deadlines_spec(limits, side) == (Some(0int), Some(t as int)),
{
}

/// The soft budget never exceeds the hard one, and a move time is the hard budget itself.
pub proof fn lemma_soft_within_hard(limits: SearchLimits, side: Color)
    ensures
        deadlines_spec(limits, side).0 matches Some(soft) ==> deadlines_spec(limits, side).1 matches Some(hard) && 0 <= soft <= hard,
        limits.movetime_ms matches Some(t) ==> deadlines_spec(limits, side).1 == Some(t as int),
        limits.movetime_ms is None && limits.clock is None ==> deadlines_spec(limits, side) == (None::<int>, None::<int>),
{
    match limits.movetime_ms {
        Some(t) => {},
        None => match limits.clock {
            None => {},
            Some(clock) => {
                let (time_left, increment) = clock_for_side(clock, side);
                if time_left != 0 {
                    let reserve = min_int(max_int(time_left / 40, 10), 250);
                    let usable = max_int(time_left - reserve, 0);
                    let raw = clock_soft_raw(usable, increment, clock.movestogo);
                    assert(raw >= 0) by {
                        match clock.movestogo {
                            Some(m) => {
                                if m > 0 {
                                    assert(usable / (m as int) >= 0) by (nonlinear_arith) requires usable >= 0, m > 0;
                                }
                            },
                            None => {},
                        }
                    }
                }
            },
        },
    }
}

} // verus!
