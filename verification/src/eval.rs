//! How the network outputs become the final evaluation.
use vstd::prelude::*;
use crate::arith::tdiv;
use crate::chess::{Color, Piece};
use crate::chess::ColoredPiece;
use crate::board::{Position, count_where, piece_filter, lemma_count_bound};
use crate::context::other_color;
use crate::constants::{
    BIG_NET_RECHECK_THRESHOLD, BISHOP_VALUE, KNIGHT_VALUE, PAWN_VALUE, PSQT_BUCKETS, QUEEN_VALUE,
    ROOK_VALUE, SMALLNET_SIMPLE_EVAL_THRESHOLD, VALUE_TB_LOSS_IN_MAX_PLY, VALUE_TB_WIN_IN_MAX_PLY,
};

verus! {

/// The parts of an evaluation, from the side to move's point of view.
#[derive(Clone, Copy, Debug, Default, PartialEq, Eq)]
pub struct EvalOutput {
    pub psqt: i32,
    pub positional: i32,
    pub final_raw: i32,
    pub final_cp: i32,
    pub used_smallnet: bool,
}

impl EvalOutput {
    /// An evaluation of zero everywhere, made by the small network.
    pub fn zero() -> (r: Self)
        ensures
            r.psqt == 0 && r.positional == 0 && r.final_raw == 0 && r.final_cp == 0 && !r.used_smallnet,
    {
        EvalOutput { psqt: 0, positional: 0, final_raw: 0, final_cp: 0, used_smallnet: false }
    }

    /// The centipawn score from White's point of view.
    pub fn white_side_cp(self, side_to_move: Color) -> (r: i32)
        requires
            self.final_cp != i32::MIN,
        ensures
            r == if side_to_move == Color::Black { -self.final_cp } else { self.final_cp as int },
    {
        match side_to_move {
            Color::Black => -self.final_cp,
            Color::White => self.final_cp,
        }
    }
}

pub open spec fn abs_int(x: int) -> int {
    if x < 0 { -x } else { x }
}

/// `(125 * psqt + 131 * positional) / 128`, rounded toward zero.
pub open spec fn blended_nnue_spec(psqt: int, positional: int) -> int {
    tdiv(125 * psqt + 131 * positional, 128)
}

pub fn blended_nnue(psqt: i32, positional: i32) -> (r: i32)
    requires
        i32::MIN <= 125 * psqt <= i32::MAX,
        i32::MIN <= 131 * positional <= i32::MAX,
        i32::MIN <= 125 * psqt + 131 * positional <= i32::MAX,
    ensures
        r == blended_nnue_spec(psqt as int, positional as int),
{
    (125 * psqt + 131 * positional) / 128
}

/// The PSQT bucket and layer stack used for `piece_count` pieces: one per four pieces, at most seven.
pub open spec fn psqt_bucket_spec(piece_count: u8) -> int {
    if (piece_count - 1) / 4 > 7 { 7 } else { (piece_count - 1) / 4 }
}

pub fn psqt_bucket(piece_count: u8) -> (r: usize)
    requires
        piece_count >= 1,
    ensures
        r == psqt_bucket_spec(piece_count),
        r < PSQT_BUCKETS,
{
    let b = ((piece_count - 1) / 4) as usize;
    if b > PSQT_BUCKETS - 1 { PSQT_BUCKETS - 1 } else { b }
}

/// Each bucket serves four piece counts: positions with 1 to 4 pieces use
/// bucket 0, 5 to 8 bucket 1, and so on; all positions with 29 pieces or more
/// use the last bucket, 7. One more piece never lowers the bucket.
pub proof fn lemma_psqt_bucket_ranges(piece_count: u8)
    requires
        piece_count >= 1,
    ensures
        0 <= psqt_bucket_spec(piece_count) <= 7,
        psqt_bucket_spec(piece_count) < 7 ==> 4 * psqt_bucket_spec(piece_count) + 1 <= piece_count
            <= 4 * psqt_bucket_spec(piece_count) + 4,
        psqt_bucket_spec(piece_count) == 7 <==> piece_count >= 29,
        piece_count < 255 ==> psqt_bucket_spec(piece_count) <= psqt_bucket_spec((piece_count + 1) as u8),
{
}

/// The small network is tried first when material is clearly unbalanced.
pub fn prefers_smallnet(simple_eval: i32) -> (r: bool)
    requires
        simple_eval != i32::MIN,
    ensures
        r == (abs_int(simple_eval as int) > SMALLNET_SIMPLE_EVAL_THRESHOLD),
{
    let a = if simple_eval < 0 { -simple_eval } else { simple_eval };
    a > SMALLNET_SIMPLE_EVAL_THRESHOLD
}

/// A small-network result close to zero is re-evaluated with the big network.
pub fn needs_big_recheck(used_smallnet: bool, nnue: i32) -> (r: bool)
    requires
        nnue != i32::MIN,
    ensures
        r == (used_smallnet && abs_int(nnue as int) < BIG_NET_RECHECK_THRESHOLD),
{
    let a = if nnue < 0 { -nnue } else { nnue };
    used_smallnet && a < BIG_NET_RECHECK_THRESHOLD
}

/// The final raw evaluation: the blended network output damped by the
/// disagreement between its two parts, scaled up with material, scaled down
/// toward the fifty-move limit, and kept strictly inside the tablebase bounds.
pub open spec fn final_raw_spec(psqt: int, positional: int, material: int, rule50: int) -> int {
    let nnue0 = blended_nnue_spec(psqt, positional);
    let complexity = abs_int(psqt - positional);
    let nnue = nnue0 - tdiv(nnue0 * complexity, 18_000);
    let scaled = tdiv(nnue * (77_777 + material), 77_777);
    let damped = scaled - tdiv(scaled * rule50, 212);
    if damped < VALUE_TB_LOSS_IN_MAX_PLY + 1 { VALUE_TB_LOSS_IN_MAX_PLY + 1 }
    else if damped > VALUE_TB_WIN_IN_MAX_PLY - 1 { VALUE_TB_WIN_IN_MAX_PLY - 1 }
    else { damped }
}

/// Every intermediate value of `final_raw_spec` fits in `i32`.
pub open spec fn final_raw_fits(psqt: int, positional: int, material: int, rule50: int) -> bool {
    let nnue0 = blended_nnue_spec(psqt, positional);
    let complexity = abs_int(psqt - positional);
    let nnue = nnue0 - tdiv(nnue0 * complexity, 18_000);
    let scaled = tdiv(nnue * (77_777 + material), 77_777);
    &&& i32::MIN <= 125 * psqt <= i32::MAX
    &&& i32::MIN <= 131 * positional <= i32::MAX
    &&& i32::MIN <= 125 * psqt + 131 * positional <= i32::MAX
    &&& i32::MIN < psqt - positional <= i32::MAX
    &&& i32::MIN <= nnue0 * complexity <= i32::MAX
    &&& i32::MIN <= 77_777 + material <= i32::MAX
    &&& i32::MIN <= nnue * (77_777 + material) <= i32::MAX
    &&& i32::MIN <= scaled * rule50 <= i32::MAX
}

pub fn final_raw_evaluation(psqt: i32, positional: i32, material: i32, rule50: u16) -> (r: i32)
    requires
        final_raw_fits(psqt as int, positional as int, material as int, rule50 as int),
    ensures
        r == final_raw_spec(psqt as int, positional as int, material as int, rule50 as int),
        VALUE_TB_LOSS_IN_MAX_PLY < r < VALUE_TB_WIN_IN_MAX_PLY,
{
    let mut nnue = blended_nnue(psqt, positional);
    let diff = psqt - positional;
    let complexity = if diff < 0 { -diff } else { diff };
    let ghost nnue0 = nnue;
    proof {
        assert(nnue0 - tdiv(nnue0 * complexity, 18_000) >= i32::MIN && nnue0 - tdiv(nnue0 * complexity, 18_000) <= i32::MAX) by {
            lemma_damp_in_range(nnue0 as int, complexity as int, 18_000);
        }
    }
    nnue = nnue - nnue * complexity / 18_000;
    let mut final_raw = nnue * (77_777 + material) / 77_777;
    let wide: i32 = rule50 as i32;
    proof {
        lemma_damp_in_range(final_raw as int, wide as int, 212);
    }
    final_raw = final_raw - final_raw * wide / 212;
    if final_raw < VALUE_TB_LOSS_IN_MAX_PLY + 1 {
        VALUE_TB_LOSS_IN_MAX_PLY + 1
    } else if final_raw > VALUE_TB_WIN_IN_MAX_PLY - 1 {
        VALUE_TB_WIN_IN_MAX_PLY - 1
    } else {
        final_raw
    }
}

/// `x - x * c / d` for `0 <= c` lies between `x` and `x - x * c / d`, within `i32` when `x` is.
proof fn lemma_damp_in_range(x: int, c: int, d: int)
    requires
        i32::MIN <= x <= i32::MAX,
        c >= 0,
        d > 0,
        i32::MIN <= x * c <= i32::MAX,
    ensures
        i32::MIN <= x - tdiv(x * c, d) <= i32::MAX,
{
    if x >= 0 {
        assert(x * c >= 0) by (nonlinear_arith) requires x >= 0, c >= 0;
        assert(tdiv(x * c, d) >= 0) by (nonlinear_arith) requires x * c >= 0, d > 0, tdiv(x * c, d) == (x * c) / d;
    } else {
        assert(x * c <= 0) by (nonlinear_arith) requires x < 0, c >= 0;
        assert((-(x * c)) / d >= 0) by (nonlinear_arith) requires x * c <= 0, d > 0;
        assert((-(x * c)) / d <= -(x * c)) by (nonlinear_arith) requires x * c <= 0, d > 0;
    }
}

/// `208 * (our pawns - their pawns) + (our non-pawn material - theirs)`.
pub fn simple_eval(our_pawns: u32, their_pawns: u32, our_non_pawn: i32, their_non_pawn: i32) -> (r: i32)
    requires
        our_pawns <= 64,
        their_pawns <= 64,
        0 <= our_non_pawn <= 400_000,
        0 <= their_non_pawn <= 400_000,
    ensures
        r == PAWN_VALUE * (our_pawns - their_pawns) + (our_non_pawn - their_non_pawn),
{
    PAWN_VALUE * (our_pawns as i32 - their_pawns as i32) + (our_non_pawn - their_non_pawn)
}

/// The material of one side's knights, bishops, rooks and queens.
pub fn non_pawn_material(knights: u32, bishops: u32, rooks: u32, queens: u32) -> (r: i32)
    requires
        knights <= 64,
        bishops <= 64,
        rooks <= 64,
        queens <= 64,
    ensures
        r == knights * KNIGHT_VALUE + bishops * BISHOP_VALUE + rooks * ROOK_VALUE + queens * QUEEN_VALUE,
        0 <= r <= 400_000,
{
    knights as i32 * KNIGHT_VALUE + bishops as i32 * BISHOP_VALUE + rooks as i32 * ROOK_VALUE + queens as i32 * QUEEN_VALUE
}

/// The material of both sides used to scale the evaluation, pawns counted at 535.
pub fn total_material_for_scaling(pawns: u32, knights: u32, bishops: u32, rooks: u32, queens: u32) -> (r: i32)
    requires
        pawns <= 64,
        knights <= 64,
        bishops <= 64,
        rooks <= 64,
        queens <= 64,
    ensures
        r == 535 * pawns + knights * KNIGHT_VALUE + bishops * BISHOP_VALUE + rooks * ROOK_VALUE + queens * QUEEN_VALUE,
{
    535 * pawns as i32 + knights as i32 * KNIGHT_VALUE + bishops as i32 * BISHOP_VALUE + rooks as i32 * ROOK_VALUE
        + queens as i32 * QUEEN_VALUE
}

/// Material in pawn units (1, 3, 3, 5, 9), used to convert raw values to centipawns.
pub fn coarse_material_for_cp(pawns: u32, knights: u32, bishops: u32, rooks: u32, queens: u32) -> (r: i32)
    requires
        pawns <= 64,
        knights <= 64,
        bishops <= 64,
        rooks <= 64,
        queens <= 64,
    ensures
        r == pawns + 3 * knights + 3 * bishops + 5 * rooks + 9 * queens,
{
    pawns as i32 + 3 * knights as i32 + 3 * bishops as i32 + 5 * rooks as i32 + 9 * queens as i32
}

/// The number of pieces of kind `piece` of side `color` on `board`.
pub open spec fn piece_count_of(board: Seq<Option<ColoredPiece>>, piece: Piece, color: Color) -> int {
    count_where(board, piece_filter(Some(piece), Some(color)), 64)
}

/// The number of pieces of kind `piece` of both sides on `board`.
pub open spec fn kind_count(board: Seq<Option<ColoredPiece>>, piece: Piece) -> int {
    count_where(board, piece_filter(Some(piece), None), 64)
}

/// One side's knights, bishops, rooks and queens at their material values.
pub open spec fn non_pawn_spec(board: Seq<Option<ColoredPiece>>, c: Color) -> int {
    piece_count_of(board, Piece::Knight, c) * KNIGHT_VALUE + piece_count_of(board, Piece::Bishop, c) * BISHOP_VALUE
        + piece_count_of(board, Piece::Rook, c) * ROOK_VALUE + piece_count_of(board, Piece::Queen, c) * QUEEN_VALUE
}

/// The material balance for the side to move.
pub open spec fn simple_eval_spec(board: Seq<Option<ColoredPiece>>, stm: Color) -> int {
    PAWN_VALUE * (piece_count_of(board, Piece::Pawn, stm) - piece_count_of(board, Piece::Pawn, other_color(stm)))
        + (non_pawn_spec(board, stm) - non_pawn_spec(board, other_color(stm)))
}

/// Both sides' material as used to scale the evaluation.
pub open spec fn scaling_material_spec(board: Seq<Option<ColoredPiece>>) -> int {
    535 * kind_count(board, Piece::Pawn) + kind_count(board, Piece::Knight) * KNIGHT_VALUE
        + kind_count(board, Piece::Bishop) * BISHOP_VALUE + kind_count(board, Piece::Rook) * ROOK_VALUE
        + kind_count(board, Piece::Queen) * QUEEN_VALUE
}

/// Both sides' material in pawn units.
pub open spec fn coarse_material_spec(board: Seq<Option<ColoredPiece>>) -> int {
    kind_count(board, Piece::Pawn) + 3 * kind_count(board, Piece::Knight) + 3 * kind_count(board, Piece::Bishop)
        + 5 * kind_count(board, Piece::Rook) + 9 * kind_count(board, Piece::Queen)
}

impl Position {
    fn non_pawn_of(&self, c: Color) -> (r: i32)
        requires
            self.squares@.len() == 64,
        ensures
            r == non_pawn_spec(self.squares@, c),
            0 <= r <= 400_000,
    {
        non_pawn_material(self.count_of(Piece::Knight, c), self.count_of(Piece::Bishop, c),
            self.count_of(Piece::Rook, c), self.count_of(Piece::Queen, c))
    }

    /// The material balance for `stm`: pawns at 208 plus the other pieces' values.
    pub fn simple_eval(&self, stm: Color) -> (r: i32)
        requires
            self.squares@.len() == 64,
        ensures
            r == simple_eval_spec(self.squares@, stm),
            -1_000_000 <= r <= 1_000_000,
    {
        let opp = stm.flip();
        proof {
            assert(opp == other_color(stm));
        }
        simple_eval(self.count_of(Piece::Pawn, stm), self.count_of(Piece::Pawn, opp), self.non_pawn_of(stm), self.non_pawn_of(opp))
    }

    /// Both sides' material as used to scale the evaluation.
    pub fn material_for_scaling(&self) -> (r: i32)
        requires
            self.squares@.len() == 64,
        ensures
            r == scaling_material_spec(self.squares@),
    {
        total_material_for_scaling(self.count_kind(Piece::Pawn), self.count_kind(Piece::Knight), self.count_kind(Piece::Bishop),
            self.count_kind(Piece::Rook), self.count_kind(Piece::Queen))
    }

    /// Both sides' material in pawn units, as used to convert raw values to centipawns.
    pub fn coarse_material(&self) -> (r: i32)
        requires
            self.squares@.len() == 64,
        ensures
            r == coarse_material_spec(self.squares@),
    {
        coarse_material_for_cp(self.count_kind(Piece::Pawn), self.count_kind(Piece::Knight), self.count_kind(Piece::Bishop),
            self.count_kind(Piece::Rook), self.count_kind(Piece::Queen))
    }
}

/// The blend of the two network outputs can be computed in `i32`.
pub open spec fn blend_fits(psqt: int, positional: int) -> bool {
    &&& i32::MIN <= 125 * psqt <= i32::MAX
    &&& i32::MIN <= 131 * positional <= i32::MAX
    &&& i32::MIN <= 125 * psqt + 131 * positional <= i32::MAX
}

/// The blend of the two network outputs, or `None` where it overflows `i32`.
pub fn blend_checked(psqt: i32, positional: i32) -> (r: Option<i32>)
    ensures
        blend_fits(psqt as int, positional as int) ==> r == Some(blended_nnue_spec(psqt as int, positional as int) as i32),
        !blend_fits(psqt as int, positional as int) ==> r is None,
{
    let a = 125 * (psqt as i64);
    let b = 131 * (positional as i64);
    let c = a + b;
    if a < i32::MIN as i64 || a > i32::MAX as i64 || b < i32::MIN as i64 || b > i32::MAX as i64
        || c < i32::MIN as i64 || c > i32::MAX as i64 {
        return None;
    }
    Some(blended_nnue(psqt, positional))
}

/// The final raw evaluation, or `None` where one of its steps overflows `i32`.
pub fn final_raw_checked(psqt: i32, positional: i32, material: i32, rule50: u16) -> (r: Option<i32>)
    ensures
        final_raw_fits(psqt as int, positional as int, material as int, rule50 as int)
            ==> r == Some(final_raw_spec(psqt as int, positional as int, material as int, rule50 as int) as i32),
        !final_raw_fits(psqt as int, positional as int, material as int, rule50 as int) ==> r is None,
{
    let p = psqt as i128;
    let q = positional as i128;
    let a = 125 * p;
    let b = 131 * q;
    let c = a + b;
    if a < i32::MIN as i128 || a > i32::MAX as i128 || b < i32::MIN as i128 || b > i32::MAX as i128
        || c < i32::MIN as i128 || c > i32::MAX as i128 {
        return None;
    }
    let diff = p - q;
    if diff <= i32::MIN as i128 || diff > i32::MAX as i128 {
        return None;
    }
    let nnue0 = c / 128;
    let complexity = if diff < 0 { -diff } else { diff };
    assert(-0x100_0000_0000_0000 <= nnue0 * complexity <= 0x100_0000_0000_0000) by (nonlinear_arith)
        requires -0x100_0000 <= nnue0 <= 0x100_0000, 0 <= complexity <= 0x1_0000_0000;
    let prod = nnue0 * complexity;
    if prod < i32::MIN as i128 || prod > i32::MAX as i128 {
        return None;
    }
    let nnue = nnue0 - prod / 18_000;
    let m = 77_777 + material as i128;
    if m < i32::MIN as i128 || m > i32::MAX as i128 {
        return None;
    }
    assert(-0x1_0000_0000_0000_0000 <= nnue * m <= 0x1_0000_0000_0000_0000) by (nonlinear_arith)
        requires -0x1_0000_0000 <= nnue <= 0x1_0000_0000, -0x1_0000_0000 <= m <= 0x1_0000_0000;
    let prod2 = nnue * m;
    if prod2 < i32::MIN as i128 || prod2 > i32::MAX as i128 {
        return None;
    }
    let scaled = prod2 / 77_777;
    let wide = rule50 as i128;
    assert(-0x1_0000_0000_0000 <= scaled * wide <= 0x1_0000_0000_0000) by (nonlinear_arith)
        requires -0x1_0000_0000 <= scaled <= 0x1_0000_0000, 0 <= wide <= 0x1_0000;
    let prod3 = scaled * wide;
    if prod3 < i32::MIN as i128 || prod3 > i32::MAX as i128 {
        return None;
    }
    Some(final_raw_evaluation(psqt, positional, material, rule50))
}

} // verus!
