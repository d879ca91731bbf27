//! Input features: one per (perspective, king bucket, piece, square), with
//! the board mirrored so that the perspective's king sits on files e-h.
use vstd::prelude::*;
use crate::chess::{Color, ColoredPiece, Piece, color_index, piece_index};
use crate::constants::{FEATURE_DIMS, MAX_ACTIVE_FEATURES};
use crate::board::{Position, board_ok, count_where, piece_filter, king_square, king_square_spec};

verus! {

/// Features per king bucket: ten piece planes and one shared king plane of 64 squares.
pub const PS_NB: usize = 704;

/// The square as seen from `perspective` with its king on `king_square`:
/// files mirrored when that king is on files a-d, ranks mirrored for Black.
pub open spec fn oriented_square(perspective: Color, square: int, king_square: int) -> int {
    let file = square % 8;
    let rank = square / 8;
    let f = if king_square % 8 < 4 { 7 - file } else { file };
    let r = if perspective == Color::Black { 7 - rank } else { rank };
    f + 8 * r
}

/// Offset of the piece plane: own pieces on even planes, the other side's on odd
/// planes, both kings on the shared plane 10.
pub open spec fn piece_square_offset(perspective: Color, piece: Piece, color: Color) -> int {
    if piece == Piece::King {
        640
    } else {
        64 * (2 * piece_index(piece) + if color == perspective { 0int } else { 1int })
    }
}

/// Offset of the king bucket: 32 buckets by the king's rank (seen from the
/// perspective) and its file folded onto a-d.
pub open spec fn king_bucket_offset(perspective: Color, king_square: int) -> int {
    let file = king_square % 8;
    let rank = king_square / 8;
    let folded = if file < 4 { file } else { 7 - file };
    let r = if perspective == Color::White { 7 - rank } else { rank };
    704 * (4 * r + folded)
}

/// The feature of `piece` of `color` on `square`, seen from `perspective` whose king is on `king_square`.
pub open spec fn feature_index_spec(perspective: Color, piece: ColoredPiece, square: int, king_square: int) -> int {
    oriented_square(perspective, square, king_square) + piece_square_offset(perspective, piece.piece, piece.color)
        + king_bucket_offset(perspective, king_square)
}

pub proof fn lemma_feature_index_bound(perspective: Color, piece: ColoredPiece, square: int, king_square: int)
    requires
        0 <= square < 64,
        0 <= king_square < 64,
    ensures
        0 <= feature_index_spec(perspective, piece, square, king_square) < FEATURE_DIMS,
{
}

pub fn piece_square_index(perspective: Color, piece: Piece, color: Color) -> (r: usize)
    ensures
        r == piece_square_offset(perspective, piece, color),
{
    if piece == Piece::King {
        640
    } else {
        let own: usize = if color == perspective { 0 } else { 1 };
        64 * (2 * piece.index() + own)
    }
}

/// The piece planes: from either side's perspective its own pawns, knights,
/// bishops, rooks and queens lie on planes 0, 2, 4, 6 and 8 (offset 128 times
/// the piece index), the other side's on the plane just after (64 more), and
/// both kings on plane 10. So the same piece of the other colour on the same
/// square is always 64 features further on, whatever the king's square.
pub proof fn lemma_piece_planes(perspective: Color, piece: Piece, square: int, king_square: int)
    ensures
        piece != Piece::King ==> piece_square_offset(perspective, piece, perspective) == 128 * piece_index(piece),
        piece != Piece::King ==> piece_square_offset(perspective, piece, crate::context::other_color(perspective))
            == 128 * piece_index(piece) + 64,
        piece_square_offset(perspective, Piece::King, Color::White) == 640,
        piece_square_offset(perspective, Piece::King, Color::Black) == 640,
        piece != Piece::King ==> feature_index_spec(perspective, ColoredPiece { piece, color: crate::context::other_color(perspective) }, square, king_square)
            == feature_index_spec(perspective, ColoredPiece { piece, color: perspective }, square, king_square) + 64,
{
}

/// The board as a perspective sees it: White reads the squares as they are
/// and Black with the ranks turned over; with the perspective's king on files
/// a-d the files are mirrored too. The king bucket counts king squares from
/// the perspective's back rank (rank 1 for White read as bucket row 7), files
/// folded onto a-d, 704 features per bucket. So a white pawn on e2 seen by
/// White with its king on e1 is feature 12 + 0 + 31 * 704.
pub proof fn lemma_feature_orientation(perspective: Color, square: int, king_square: int)
    requires
        0 <= square < 64,
        0 <= king_square < 64,
    ensures
        perspective == Color::White && king_square % 8 >= 4 ==> oriented_square(perspective, square, king_square) == square,
        perspective == Color::Black && king_square % 8 >= 4
            ==> oriented_square(perspective, square, king_square) == 8 * (7 - square / 8) + square % 8,
        perspective == Color::White && king_square % 8 < 4
            ==> oriented_square(perspective, square, king_square) == 8 * (square / 8) + 7 - square % 8,
        king_bucket_offset(Color::White, king_square) == king_bucket_offset(Color::White, 8 * (king_square / 8) + 7 - king_square % 8),
        king_bucket_offset(Color::White, king_square) == king_bucket_offset(Color::Black, 8 * (7 - king_square / 8) + king_square % 8),
        king_bucket_offset(Color::White, 4) == 31 * 704,
        feature_index_spec(Color::White, ColoredPiece { piece: Piece::Pawn, color: Color::White }, 12, 4) == 21836,
{
}

/// The feature index of `piece` on `square` for `perspective` with its king on `king_square`.
pub fn feature_index(perspective: Color, piece: ColoredPiece, square: u8, king_square: u8) -> (r: u32)
    requires
        square < 64,
        king_square < 64,
    ensures
        r == feature_index_spec(perspective, piece, square as int, king_square as int),
        r < FEATURE_DIMS,
{
    let file = square % 8;
    let rank = square / 8;
    let king_file = king_square % 8;
    let king_rank = king_square / 8;
    let f: u32 = if king_file < 4 { (7 - file) as u32 } else { file as u32 };
    let r: u32 = if perspective == Color::Black { (7 - rank) as u32 } else { rank as u32 };
    let folded: u32 = if king_file < 4 { king_file as u32 } else { (7 - king_file) as u32 };
    let kr: u32 = if perspective == Color::White { (7 - king_rank) as u32 } else { king_rank as u32 };
    let plane = piece_square_index(perspective, piece.piece, piece.color) as u32;
    f + 8 * r + plane + 704 * (4 * kr + folded)
}

/// The features of every occupied square of `board` (64 squares, a1 first), in square order.
pub open spec fn active_features_spec(perspective: Color, board: Seq<Option<ColoredPiece>>, king_square: int, n: int) -> Seq<int>
    decreases n,
{
    if n <= 0 {
        Seq::empty()
    } else {
        let prev = active_features_spec(perspective, board, king_square, n - 1);
        match board[n - 1] {
            Some(p) => prev.push(feature_index_spec(perspective, p, n - 1, king_square)),
            None => prev,
        }
    }
}

/// Lists the active features of `board` for `perspective`.
pub fn push_perspective_features(perspective: Color, board: &[Option<ColoredPiece>], king_square: u8) -> (r: Vec<u32>)
    requires
        board@.len() == 64,
        king_square < 64,
    ensures
        r@.len() == active_features_spec(perspective, board@, king_square as int, 64).len(),
        forall|i: int| 0 <= i < r@.len() ==> #[trigger] r@[i] == active_features_spec(perspective, board@, king_square as int, 64)[i],
        forall|i: int| 0 <= i < r@.len() ==> #[trigger] r@[i] < FEATURE_DIMS,
{
    let mut out: Vec<u32> = Vec::new();
    let mut square: usize = 0;
    while square < 64
        invariant
            square <= 64,
            board@.len() == 64,
            king_square < 64,
            out@.len() == active_features_spec(perspective, board@, king_square as int, square as int).len(),
            forall|i: int| 0 <= i < out@.len() ==> #[trigger] out@[i] == active_features_spec(perspective, board@, king_square as int, square as int)[i],
            forall|i: int| 0 <= i < out@.len() ==> #[trigger] out@[i] < FEATURE_DIMS,
        decreases 64 - square,
    {
        match board[square] {
            Some(p) => {
                let f = feature_index(perspective, p, square as u8, king_square);
                out.push(f);
            },
            None => {},
        }
        square = square + 1;
    }
    out
}

/// There is one active feature per piece.
pub proof fn lemma_active_len(perspective: Color, board: Seq<Option<ColoredPiece>>, king_square: int, n: int)
    requires
        0 <= n <= board.len(),
    ensures
        active_features_spec(perspective, board, king_square, n).len() == count_where(board, piece_filter(None, None), n),
    decreases n,
{
    if n > 0 {
        lemma_active_len(perspective, board, king_square, n - 1);
    }
}

/// Lists the active features of both perspectives, White's first, each with
/// the king bucket of that side's king, and returns the number of pieces.
pub fn enumerate_active_features(position: &Position) -> (r: ([Vec<u32>; 2], usize))
    requires
        board_ok(position.squares@),
        count_where(position.squares@, piece_filter(None, None), 64) <= MAX_ACTIVE_FEATURES,
    ensures
        forall|i: int| 0 <= i < r.0[0]@.len() ==> #[trigger] r.0[0]@[i] == active_features_spec(
            Color::White, position.squares@, king_square_spec(position.squares@, Color::White), 64)[i],
        forall|i: int| 0 <= i < r.0[1]@.len() ==> #[trigger] r.0[1]@[i] == active_features_spec(
            Color::Black, position.squares@, king_square_spec(position.squares@, Color::Black), 64)[i],
        r.0[0]@.len() == r.1,
        r.0[1]@.len() == r.1,
        r.1 == count_where(position.squares@, piece_filter(None, None), 64),
{
    let board = position.squares.as_slice();
    let white_king = king_square(board, Color::White);
    let black_king = king_square(board, Color::Black);
    let white = push_perspective_features(Color::White, board, white_king);
    let black = push_perspective_features(Color::Black, board, black_king);
    proof {
        lemma_active_len(Color::White, board@, white_king as int, 64);
        lemma_active_len(Color::Black, board@, black_king as int, 64);
    }
    let n = white.len();
    ([white, black], n)
}

} // verus!
