//! The staged move picker of the main search: the table's move first, then
//! captures and promotions, then quiet moves (or all evasions in check), each
//! stage best-scored first. Generating and scoring a stage's moves is done
//! by the caller when the picker asks for it.
use vstd::prelude::*;
use crate::chess::{Move, Piece, move_kind, piece_index, KIND_EN_PASSANT};
use crate::search::qsearch::{is_capture_kind, is_promotion_kind, is_tactical_move, is_valid_encoded_move};
use crate::search::root::{is_skipped, lemma_picked_none_all_skipped, pick_next, picked};

verus! {

/// How far the table's move is trusted: yielded as is, or only once the stage
/// that would generate it holds it.
#[derive(Clone, Copy, Debug, PartialEq, Eq, Structural)]
pub enum TtMode {
    ValidateInStage,
    BlindTrust,
}

/// The picker's stages.
#[derive(Clone, Copy, Debug, PartialEq, Eq, Structural)]
pub enum Phase {
    Tt,
    Captures,
    Quiets,
    Evasions,
    Done,
}

/// What the picker asks of its caller.
#[derive(Clone, Copy, Debug, PartialEq, Eq, Structural)]
pub enum PickerAction {
    /// Search this move next.
    Yield(Move),
    /// Generate and score the moves of this stage and hand them to `load`.
    LoadStage(Phase),
    /// Tell `quiet_check` whether the quiet moves include the table's move.
    CheckQuiets(Move),
    /// No moves are left.
    Done,
}

pub struct MovePicker {
    pub phase: Phase,
    pub tt_move: Move,
    pub tt_mode: TtMode,
    pub tt_yielded: bool,
    pub in_check: bool,
    pub stage_loaded: bool,
    /// The table's move is to be looked for in the stage being loaded.
    pub validating: bool,
    /// The answer of the quiet-move check, once given.
    pub quiet_answer: Option<bool>,
    pub entries: Vec<(Move, i16)>,
    pub next: usize,
}

/// The stage whose moves would include `mv`.
pub open spec fn validation_phase(in_check: bool, mv: Move) -> Phase {
    if in_check {
        Phase::Evasions
    } else if is_capture_kind(move_kind(mv)) || is_promotion_kind(move_kind(mv)) || move_kind(mv) == KIND_EN_PASSANT {
        Phase::Captures
    } else {
        Phase::Quiets
    }
}

/// The picker's state is consistent: it validates only while waiting for or
/// holding the stage the table's move belongs to, and the cursor stays in the stage.
pub open spec fn picker_ok(p: &MovePicker) -> bool {
    &&& p.next <= p.entries@.len()
    &&& p.validating ==> p.tt_move.bits != 0 && p.phase == validation_phase(p.in_check, p.tt_move) && !p.tt_yielded
    &&& p.quiet_answer is Some ==> p.tt_move.bits != 0 && !p.tt_yielded && !p.validating && p.phase != Phase::Done
    &&& p.phase == Phase::Tt ==> !p.tt_yielded && !p.validating && p.quiet_answer is None && !p.stage_loaded
    &&& p.in_check ==> p.phase != Phase::Captures && p.phase != Phase::Quiets
    &&& !p.in_check ==> p.phase != Phase::Evasions
}

/// Stages come in order: the table's move, captures and promotions, quiet
/// moves (all evasions instead of both when in check), then the end.
pub open spec fn phase_rank(p: Phase) -> int {
    match p {
        Phase::Tt => 0,
        Phase::Captures => 1,
        Phase::Quiets => 2,
        Phase::Evasions => 2,
        Phase::Done => 3,
    }
}

/// The first stage that is generated.
pub open spec fn first_phase(in_check: bool) -> Phase {
    if in_check { Phase::Evasions } else { Phase::Captures }
}

/// The loaded stage has nothing left to yield: every entry from the cursor on
/// holds the table's move already yielded.
pub open spec fn stage_exhausted(p: &MovePicker) -> bool {
    &&& p.stage_loaded
    &&& forall|j: int| p.next <= j < p.entries@.len() ==>
        is_skipped(#[trigger] p.entries@[j], if p.tt_yielded { Some(p.tt_move) } else { None })
}

/// One call of `next_action`: what it returns and how the picker changes,
/// for each state the picker is in.
pub open spec fn picker_next(before: MovePicker, after: MovePicker, r: PickerAction) -> bool {
    &&& after.tt_move == before.tt_move
    &&& after.in_check == before.in_check
    &&& after.tt_mode == before.tt_mode
    &&& before.tt_yielded ==> after.tt_yielded
    &&& r matches PickerAction::Yield(m) ==> (before.tt_yielded ==> m.bits != before.tt_move.bits)
    &&& r matches PickerAction::Yield(m) ==> (after.tt_yielded && m.bits != after.tt_move.bits ==> before.tt_yielded)
    &&& r matches PickerAction::LoadStage(ph) ==> ph == after.phase && !after.stage_loaded
        && (ph == Phase::Captures || ph == Phase::Quiets || ph == Phase::Evasions)
    &&& r matches PickerAction::CheckQuiets(m) ==> m == after.tt_move && m.bits != 0 && after.quiet_answer is None
        && !after.tt_yielded && !after.validating && after.phase != Phase::Tt
    &&& r == PickerAction::Done <==> after.phase == Phase::Done
    &&& phase_rank(after.phase) >= phase_rank(before.phase)
    &&& before.phase != Phase::Tt && after.phase != before.phase ==> stage_exhausted(&before)
    &&& r == PickerAction::Done ==> before.phase == Phase::Done
        || ((before.phase == Phase::Quiets || before.phase == Phase::Evasions) && stage_exhausted(&before))
    &&& before.phase == Phase::Tt ==> {
        let first = first_phase(before.in_check);
        &&& before.tt_move.bits == 0 ==> r == PickerAction::LoadStage(first)
        &&& before.tt_move.bits != 0 && before.tt_mode == TtMode::BlindTrust ==> r == PickerAction::Yield(before.tt_move)
        &&& before.tt_move.bits != 0 && before.tt_mode == TtMode::ValidateInStage ==> if validation_phase(
            before.in_check, before.tt_move) == first {
            r == PickerAction::LoadStage(first) && after.validating
        } else {
            r == PickerAction::CheckQuiets(before.tt_move)
        }
    }
    &&& before.phase != Phase::Tt && before.quiet_answer == Some(true) ==> r == PickerAction::Yield(before.tt_move)
    &&& before.phase != Phase::Tt && before.validating && before.stage_loaded && (exists|k: int|
        0 <= k < before.entries@.len() && (#[trigger] before.entries@[k]).0.bits == before.tt_move.bits)
        ==> r == PickerAction::Yield(before.tt_move)
    &&& r is Yield && after.tt_yielded && !before.tt_yielded && before.tt_mode == TtMode::ValidateInStage ==> (
        before.quiet_answer == Some(true) || (before.stage_loaded && before.validating && exists|k: int|
            0 <= k < before.entries@.len() && (#[trigger] before.entries@[k]).0.bits == before.tt_move.bits))
    &&& r is Yield && after.tt_yielded == before.tt_yielded ==> (after.entries@,
        after.next as int, Some(r->Yield_0)) == picked(before.entries@, before.next as int,
        if before.tt_yielded { Some(before.tt_move) } else { None })
    &&& r matches PickerAction::Yield(m) ==> (m == before.tt_move && !before.tt_yielded && after.tt_yielded)
        || ({
            &&& after.tt_yielded == before.tt_yielded
            &&& before.stage_loaded && after.phase == before.phase
            &&& before.next < after.next <= after.entries@.len()
            &&& after.entries@[after.next - 1].0 == m
            &&& forall|j: int| after.next - 1 <= j < after.entries@.len() ==>
                (#[trigger] after.entries@[j]).1 <= after.entries@[after.next - 1].1
            &&& after.entries@.to_multiset() == before.entries@.to_multiset()
            &&& forall|j: int| 0 <= j < before.next ==> #[trigger] after.entries@[j] == before.entries@[j]
        })
}

impl MovePicker {
    /// A picker for a node with table move `tt_move` (cleared when its kind is not in use).
    pub fn new(tt_move: Move, tt_mode: TtMode, in_check: bool) -> (r: Self)
        ensures
            picker_ok(&r),
            r.phase == Phase::Tt,
            r.tt_move == if move_kind(tt_move) <= 4 || move_kind(tt_move) >= 8 { tt_move } else { Move { bits: 0 } },
            r.tt_mode == tt_mode,
            r.in_check == in_check,
            !r.tt_yielded && !r.stage_loaded && !r.validating && r.quiet_answer is None,
    {
        let tt = if tt_move.bits != 0 && !is_valid_encoded_move(tt_move) { Move::null() } else { tt_move };
        MovePicker {
            phase: Phase::Tt,
            tt_move: tt,
            tt_mode,
            tt_yielded: false,
            in_check,
            stage_loaded: false,
            validating: false,
            quiet_answer: None,
            entries: Vec::new(),
            next: 0,
        }
    }

    /// Hands over the generated moves of the current stage with their scores.
    pub fn load(&mut self, entries: Vec<(Move, i16)>)
        requires
            picker_ok(old(self)),
            old(self).phase != Phase::Tt,
        ensures
            picker_ok(final(self)),
            final(self).entries == entries,
            final(self).next == 0,
            final(self).stage_loaded,
            final(self).phase == old(self).phase,
            final(self).tt_move == old(self).tt_move,
            final(self).tt_yielded == old(self).tt_yielded,
            final(self).validating == old(self).validating,
            final(self).quiet_answer == old(self).quiet_answer,
            final(self).in_check == old(self).in_check,
            final(self).tt_mode == old(self).tt_mode,
    {
        self.entries = entries;
        self.next = 0;
        self.stage_loaded = true;
    }

    /// Answers a `CheckQuiets` request.
    pub fn quiet_check(&mut self, found: bool)
        requires
            picker_ok(old(self)),
            old(self).phase != Phase::Tt,
            old(self).phase != Phase::Done,
            old(self).tt_move.bits != 0,
            !old(self).tt_yielded,
            !old(self).validating,
        ensures
            picker_ok(final(self)),
            final(self).quiet_answer == Some(found),
            final(self).phase == old(self).phase,
            final(self).tt_move == old(self).tt_move,
            final(self).tt_yielded == old(self).tt_yielded,
            final(self).validating == old(self).validating,
            final(self).stage_loaded == old(self).stage_loaded,
            final(self).entries == old(self).entries,
            final(self).next == old(self).next,
            final(self).in_check == old(self).in_check,
            final(self).tt_mode == old(self).tt_mode,
    {
        self.quiet_answer = Some(found);
    }

    fn contains(&self, mv: Move) -> (r: bool)
        ensures
            r == exists|k: int| 0 <= k < self.entries@.len() && (#[trigger] self.entries@[k]).0.bits == mv.bits,
    {
        let mut i: usize = 0;
        while i < self.entries.len()
            invariant
                i <= self.entries@.len(),
                forall|k: int| 0 <= k < i ==> (#[trigger] self.entries@[k]).0.bits != mv.bits,
            decreases self.entries@.len() - i,
        {
            if self.entries[i].0.bits == mv.bits {
                return true;
            }
            i = i + 1;
        }
        false
    }

    /// The next thing to do: a move to search, a stage to generate, a quiet
    /// check to run, or the end. The table's move is yielded at most once and
    /// never again from a stage.
    pub fn next_action(&mut self) -> (r: PickerAction)
        requires
            picker_ok(old(self)),
        ensures
            picker_ok(final(self)),
            picker_next(*old(self), *final(self), r),
    {
        loop
            invariant
                picker_ok(self),
                self.tt_move == old(self).tt_move,
                self.in_check == old(self).in_check,
                self.tt_mode == old(self).tt_mode,
                old(self).tt_yielded ==> self.tt_yielded,
                self.tt_yielded == old(self).tt_yielded,
                self.stage_loaded ==> self.entries@ == old(self).entries@ && self.next == old(self).next
                    && old(self).stage_loaded && self.phase == old(self).phase,
                self.validating ==> old(self).validating,
                self.quiet_answer is Some ==> self.quiet_answer == old(self).quiet_answer,
                phase_rank(self.phase) >= phase_rank(old(self).phase),
                old(self).phase != Phase::Tt && self.phase != old(self).phase ==> stage_exhausted(old(self)),
                self.phase == Phase::Done && old(self).phase != Phase::Done ==> (old(self).phase == Phase::Quiets
                    || old(self).phase == Phase::Evasions) && stage_exhausted(old(self)),
                old(self).phase == Phase::Tt && self.phase != Phase::Tt ==> self.tt_move.bits == 0 && !self.stage_loaded
                    && self.quiet_answer is None && self.phase == first_phase(self.in_check),
                old(self).phase != Phase::Tt && old(self).quiet_answer == Some(true) ==> self.quiet_answer == Some(true)
                    && self.phase == old(self).phase,
                old(self).phase != Phase::Tt && old(self).validating && old(self).stage_loaded && (exists|k: int|
                    0 <= k < old(self).entries@.len() && (#[trigger] old(self).entries@[k]).0.bits == old(self).tt_move.bits)
                    ==> self.validating && self.stage_loaded,
            decreases
                match self.phase {
                    Phase::Tt => 4int,
                    Phase::Captures => 3int,
                    Phase::Quiets => 2int,
                    Phase::Evasions => 2int,
                    Phase::Done => 0int,
                } + if self.quiet_answer is Some { 1int } else { 0int },
        {
            match self.phase {
                Phase::Tt => {
                    self.phase = if self.in_check { Phase::Evasions } else { Phase::Captures };
                    if self.tt_move.bits == 0 {
                        continue;
                    }
                    match self.tt_mode {
                        TtMode::BlindTrust => {
                            self.tt_yielded = true;
                            return PickerAction::Yield(self.tt_move);
                        },
                        TtMode::ValidateInStage => {
                            let target = if self.in_check {
                                Phase::Evasions
                            } else if is_tactical_move(self.tt_move) {
                                Phase::Captures
                            } else {
                                Phase::Quiets
                            };
                            if target == self.phase {
                                self.validating = true;
                                return PickerAction::LoadStage(self.phase);
                            } else {
                                return PickerAction::CheckQuiets(self.tt_move);
                            }
                        },
                    }
                },
                Phase::Captures | Phase::Quiets | Phase::Evasions => {
                    if let Some(found) = self.quiet_answer {
                        self.quiet_answer = None;
                        if found {
                            self.tt_yielded = true;
                            return PickerAction::Yield(self.tt_move);
                        }
                    }
                    if !self.stage_loaded {
                        return PickerAction::LoadStage(self.phase);
                    }
                    if self.validating {
                        self.validating = false;
                        if self.contains(self.tt_move) {
                            self.tt_yielded = true;
                            return PickerAction::Yield(self.tt_move);
                        }
                    }
                    let skip = if self.tt_yielded { Some(self.tt_move) } else { None };
                    let mut next = self.next;
                    let mut entries = Vec::new();
                    std::mem::swap(&mut entries, &mut self.entries);
                    let ghost before = entries@;
                    let ghost start = next as int;
                    let picked = pick_next(&mut entries, &mut next, skip);
                    self.entries = entries;
                    self.next = next;
                    if let Some(mv) = picked {
                        return PickerAction::Yield(mv);
                    }
                    proof {
                        lemma_picked_none_all_skipped(before, start, skip);
                    }
                    self.stage_loaded = false;
                    self.phase = match self.phase {
                        Phase::Captures => Phase::Quiets,
                        _ => Phase::Done,
                    };
                },
                Phase::Done => {
                    return PickerAction::Done;
                },
            }
        }
    }
}

/// Ordering score of a generated move: promotions by the promoted piece and
/// any captured one; captures by victim (times 8) less attacker, plus the
/// capture history, from a base that depends on whether the exchange wins
/// material (en passant counts as winning).
pub open spec fn move_score_spec(kind: int, attacker: Piece, captured: Piece, see_not_losing: bool, capture_history: i16) -> int {
    if kind >= 8 {
        MOVE_PICKER_PROMOTION_BASE + picker_value(piece_index(crate::context::promotion_piece_spec(kind)))
            + if is_capture_kind(kind) { picker_value(piece_index(captured)) } else { 0 }
    } else if is_capture_kind(kind) || kind == KIND_EN_PASSANT {
        (if kind == KIND_EN_PASSANT || see_not_losing { MOVE_PICKER_CAPTURE_BASE } else { MOVE_PICKER_BAD_CAPTURE_BASE })
            + picker_value(piece_index(captured)) * 8 - picker_value(piece_index(attacker)) + capture_history
    } else {
        0
    }
}

pub const MOVE_PICKER_PROMOTION_BASE: i32 = 20_000;
pub const MOVE_PICKER_CAPTURE_BASE: i32 = 10_000;
pub const MOVE_PICKER_BAD_CAPTURE_BASE: i32 = -10_000;

pub open spec fn picker_value(index: int) -> int {
    if index == 0 { 100 } else if index == 1 { 320 } else if index == 2 { 330 } else if index == 3 { 500 }
    else if index == 4 { 900 } else { 0 }
}

fn picker_value_at(index: usize) -> (v: i32)
    requires
        index < 6,
    ensures
        v == picker_value(index as int),
{
    let values: [i32; 6] = [100, 320, 330, 500, 900, 0];
    values[index]
}

/// Scores a generated move; `attacker` and `captured` are the pieces on its
/// origin and destination (a pawn for en passant), `see_not_losing` whether
/// the exchange does not lose material, `capture_history` the history score
/// of the capture.
pub fn score_move(mv: Move, attacker: Piece, captured: Piece, see_not_losing: bool, capture_history: i16) -> (r: i16)
    requires
        i16::MIN <= move_score_spec(move_kind(mv), attacker, captured, see_not_losing, capture_history) <= i16::MAX,
    ensures
        r == move_score_spec(move_kind(mv), attacker, captured, see_not_losing, capture_history),
{
    let kind = mv.kind();
    if kind >= 8 {
        let promoted = match kind % 4 {
            0 => 1usize,
            1 => 2usize,
            2 => 3usize,
            _ => 4usize,
        };
        let taken = if (kind / 4) % 2 == 1 { picker_value_at(captured.index()) } else { 0 };
        let score = MOVE_PICKER_PROMOTION_BASE + picker_value_at(promoted) + taken;
        return score as i16;
    }
    if (kind / 4) % 2 == 1 || kind == KIND_EN_PASSANT {
        let base = if kind == KIND_EN_PASSANT || see_not_losing { MOVE_PICKER_CAPTURE_BASE } else { MOVE_PICKER_BAD_CAPTURE_BASE };
        let score = base + picker_value_at(captured.index()) * 8 - picker_value_at(attacker.index()) + capture_history as i32;
        return score as i16;
    }
    0
}

} // verus!
