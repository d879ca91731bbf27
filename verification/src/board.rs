//! The position as the evaluator reads it: the 64 squares, the side to move,
//! the fifty-move counter and the position's hash, and what a move does to
//! the squares.
use vstd::prelude::*;
use crate::chess::{Color, ColoredPiece, Piece};

verus! {

/// A position: `squares[s]` holds the piece on square `s`, a1 being 0 and h8 63.
pub struct Position {
    pub squares: Vec<Option<ColoredPiece>>,
    pub side_to_move: Color,
    pub rule50: u16,
    pub hash: u64,
}

/// The facts about a position that the evaluation starts from.
#[derive(Clone, Copy, Debug, PartialEq, Eq)]
pub struct PositionInputs {
    pub side_to_move: Color,
    pub rule50: u16,
    pub piece_count: u8,
    pub white_king: u8,
    pub black_king: u8,
}

/// The king of side `c`.
pub open spec fn king_of(c: Color) -> ColoredPiece {
    ColoredPiece { piece: Piece::King, color: c }
}

pub open spec fn is_king_of(x: Option<ColoredPiece>, c: Color) -> bool {
    x == Some(king_of(c))
}

/// The first square from `i` on that holds the king of `c`, or 64.
pub open spec fn king_from(board: Seq<Option<ColoredPiece>>, c: Color, i: int) -> int
    decreases 64 - i,
{
    if !(0 <= i < 64) {
        64
    } else if is_king_of(board[i], c) {
        i
    } else {
        king_from(board, c, i + 1)
    }
}

/// The square of the king of `c` (the lowest one), or 64 when there is none.
pub open spec fn king_square_spec(board: Seq<Option<ColoredPiece>>, c: Color) -> int {
    king_from(board, c, 0)
}

/// 64 squares with a king of each side.
pub open spec fn board_ok(board: Seq<Option<ColoredPiece>>) -> bool {
    &&& board.len() == 64
    &&& king_square_spec(board, Color::White) < 64
    &&& king_square_spec(board, Color::Black) < 64
}

/// The number of squares below `n` that hold a piece satisfying `f`.
pub open spec fn count_where(board: Seq<Option<ColoredPiece>>, f: spec_fn(ColoredPiece) -> bool, n: int) -> int
    decreases n,
{
    if n <= 0 {
        0
    } else {
        count_where(board, f, n - 1) + match board[n - 1] {
            Some(p) => if f(p) { 1int } else { 0int },
            None => 0int,
        }
    }
}

/// The pieces of kind `piece` (any kind for `None`) and side `color` (either for `None`).
pub open spec fn piece_filter(piece: Option<Piece>, color: Option<Color>) -> spec_fn(ColoredPiece) -> bool {
    |p: ColoredPiece| (piece matches Some(k) ==> p.piece == k) && (color matches Some(c) ==> p.color == c)
}

pub proof fn lemma_count_bound(board: Seq<Option<ColoredPiece>>, f: spec_fn(ColoredPiece) -> bool, n: int)
    requires
        0 <= n,
    ensures
        0 <= count_where(board, f, n) <= n,
    decreases n,
{
    if n > 0 {
        lemma_count_bound(board, f, n - 1);
    }
}

/// The square of the king of `c`, 64 when there is none.
pub fn king_square(board: &[Option<ColoredPiece>], c: Color) -> (r: u8)
    requires
        board@.len() == 64,
    ensures
        r == king_square_spec(board@, c),
{
    let mut i: usize = 0;
    while i < 64
        invariant
            i <= 64,
            board@.len() == 64,
            king_from(board@, c, i as int) == king_square_spec(board@, c),
        decreases 64 - i,
    {
        match board[i] {
            Some(p) => {
                if p.piece == Piece::King && p.color == c {
                    return i as u8;
                }
            },
            None => {},
        }
        i = i + 1;
    }
    64
}

/// The number of pieces of kind `piece` and side `color`, `None` meaning any.
fn count_matching(board: &[Option<ColoredPiece>], piece: Option<Piece>, color: Option<Color>) -> (r: u32)
    requires
        board@.len() == 64,
    ensures
        r == count_where(board@, piece_filter(piece, color), 64),
        r <= 64,
{
    let mut count: u32 = 0;
    let mut i: usize = 0;
    while i < 64
        invariant
            i <= 64,
            board@.len() == 64,
            count == count_where(board@, piece_filter(piece, color), i as int),
            count <= i,
        decreases 64 - i,
    {
        match board[i] {
            Some(p) => {
                let kind_ok = match piece {
                    Some(k) => p.piece == k,
                    None => true,
                };
                let color_ok = match color {
                    Some(c) => p.color == c,
                    None => true,
                };
                if kind_ok && color_ok {
                    count = count + 1;
                }
            },
            None => {},
        }
        i = i + 1;
    }
    count
}

impl Position {
    /// The number of pieces on the board.
    pub fn piece_count(&self) -> (r: u8)
        requires
            self.squares@.len() == 64,
        ensures
            r == count_where(self.squares@, piece_filter(None, None), 64),
    {
        count_matching(self.squares.as_slice(), None, None) as u8
    }

    /// The number of pieces of kind `piece`, of both sides.
    pub fn count_kind(&self, piece: Piece) -> (r: u32)
        requires
            self.squares@.len() == 64,
        ensures
            r == count_where(self.squares@, piece_filter(Some(piece), None), 64),
            r <= 64,
    {
        count_matching(self.squares.as_slice(), Some(piece), None)
    }

    /// The number of pieces of kind `piece` of side `color`.
    pub fn count_of(&self, piece: Piece, color: Color) -> (r: u32)
        requires
            self.squares@.len() == 64,
        ensures
            r == count_where(self.squares@, piece_filter(Some(piece), Some(color)), 64),
            r <= 64,
    {
        count_matching(self.squares.as_slice(), Some(piece), Some(color))
    }
}

// What a move does to the squares: the displaced pieces first leave their
// origins, then arrive on their destinations.

/// The board once every piece of `entries` has left its origin (where it has one).
pub open spec fn lift_entries(board: Seq<Option<ColoredPiece>>, entries: Seq<(ColoredPiece, int, int)>) -> Seq<Option<ColoredPiece>>
    decreases entries.len(),
{
    if entries.len() == 0 {
        board
    } else {
        let b = lift_entries(board, entries.drop_last());
        let (piece, from, to) = entries.last();
        if 0 <= from < 64 { b.update(from, None) } else { b }
    }
}

/// Each piece of `entries` is on its origin when it leaves it.
pub open spec fn lift_ok(board: Seq<Option<ColoredPiece>>, entries: Seq<(ColoredPiece, int, int)>) -> bool
    decreases entries.len(),
{
    if entries.len() == 0 {
        true
    } else {
        let (piece, from, to) = entries.last();
        &&& lift_ok(board, entries.drop_last())
        &&& (0 <= from < 64 ==> lift_entries(board, entries.drop_last())[from] == Some(piece))
    }
}

/// The board once every piece of `entries` has arrived on its destination (where it has one).
pub open spec fn place_entries(board: Seq<Option<ColoredPiece>>, entries: Seq<(ColoredPiece, int, int)>) -> Seq<Option<ColoredPiece>>
    decreases entries.len(),
{
    if entries.len() == 0 {
        board
    } else {
        let b = place_entries(board, entries.drop_last());
        let (piece, from, to) = entries.last();
        if 0 <= to < 64 { b.update(to, Some(piece)) } else { b }
    }
}

/// Each piece of `entries` arrives on an empty square.
pub open spec fn place_ok(board: Seq<Option<ColoredPiece>>, entries: Seq<(ColoredPiece, int, int)>) -> bool
    decreases entries.len(),
{
    if entries.len() == 0 {
        true
    } else {
        let (piece, from, to) = entries.last();
        &&& place_ok(board, entries.drop_last())
        &&& (0 <= to < 64 ==> place_entries(board, entries.drop_last())[to] is None)
    }
}

/// The board after the pieces of `entries` have moved.
pub open spec fn board_after(board: Seq<Option<ColoredPiece>>, entries: Seq<(ColoredPiece, int, int)>) -> Seq<Option<ColoredPiece>> {
    place_entries(lift_entries(board, entries), entries)
}

/// The pieces of `entries` move as described on `board`: each leaves a square
/// it is on, arrives on an empty one, and only the first may be a king.
pub open spec fn entries_fit(board: Seq<Option<ColoredPiece>>, entries: Seq<(ColoredPiece, int, int)>) -> bool {
    &&& lift_ok(board, entries)
    &&& place_ok(lift_entries(board, entries), entries)
    &&& forall|i: int| 1 <= i < entries.len() ==> (#[trigger] entries[i]).0.piece != Piece::King
}

pub proof fn lemma_lift_len(board: Seq<Option<ColoredPiece>>, entries: Seq<(ColoredPiece, int, int)>)
    requires
        board.len() == 64,
    ensures
        lift_entries(board, entries).len() == board.len(),
    decreases entries.len(),
{
    if entries.len() > 0 {
        lemma_lift_len(board, entries.drop_last());
    }
}

pub proof fn lemma_place_len(board: Seq<Option<ColoredPiece>>, entries: Seq<(ColoredPiece, int, int)>)
    requires
        board.len() == 64,
    ensures
        place_entries(board, entries).len() == board.len(),
    decreases entries.len(),
{
    if entries.len() > 0 {
        lemma_place_len(board, entries.drop_last());
    }
}

/// Lifting pieces that are not kings of `c` keeps the squares of those kings.
proof fn lemma_lift_keeps_kings(board: Seq<Option<ColoredPiece>>, entries: Seq<(ColoredPiece, int, int)>, c: Color)
    requires
        board.len() == 64,
        lift_ok(board, entries),
        forall|i: int| 0 <= i < entries.len() ==> (#[trigger] entries[i]).0 != king_of(c),
    ensures
        forall|s: int| 0 <= s < 64 ==> is_king_of(#[trigger] lift_entries(board, entries)[s], c) == is_king_of(board[s], c),
    decreases entries.len(),
{
    if entries.len() > 0 {
        let prev = entries.drop_last();
        assert forall|i: int| 0 <= i < prev.len() implies (#[trigger] prev[i]).0 != king_of(c) by {
            assert(prev[i] == entries[i]);
        }
        lemma_lift_keeps_kings(board, prev, c);
        lemma_lift_len(board, prev);
        assert(entries[entries.len() - 1] == entries.last());
    }
}

/// Placing pieces that are not kings of `c` keeps the squares of those kings.
proof fn lemma_place_keeps_kings(board: Seq<Option<ColoredPiece>>, entries: Seq<(ColoredPiece, int, int)>, c: Color)
    requires
        board.len() == 64,
        place_ok(board, entries),
        forall|i: int| 0 <= i < entries.len() ==> (#[trigger] entries[i]).0 != king_of(c),
    ensures
        forall|s: int| 0 <= s < 64 ==> is_king_of(#[trigger] place_entries(board, entries)[s], c) == is_king_of(board[s], c),
    decreases entries.len(),
{
    if entries.len() > 0 {
        let prev = entries.drop_last();
        assert forall|i: int| 0 <= i < prev.len() implies (#[trigger] prev[i]).0 != king_of(c) by {
            assert(prev[i] == entries[i]);
        }
        lemma_place_keeps_kings(board, prev, c);
        lemma_place_len(board, prev);
        assert(entries[entries.len() - 1] == entries.last());
    }
}

proof fn lemma_king_from_agree(a: Seq<Option<ColoredPiece>>, b: Seq<Option<ColoredPiece>>, c: Color, i: int)
    requires
        a.len() == 64,
        b.len() == 64,
        forall|s: int| 0 <= s < 64 ==> is_king_of(#[trigger] a[s], c) == is_king_of(b[s], c),
    ensures
        king_from(a, c, i) == king_from(b, c, i),
    decreases 64 - i,
{
    if 0 <= i < 64 {
        lemma_king_from_agree(a, b, c, i + 1);
    }
}

/// A move that displaces no king of `c` leaves that king's square unchanged.
pub proof fn lemma_king_square_kept(board: Seq<Option<ColoredPiece>>, entries: Seq<(ColoredPiece, int, int)>, c: Color)
    requires
        board.len() == 64,
        entries_fit(board, entries),
        entries.len() > 0 ==> entries[0].0 != king_of(c),
    ensures
        king_square_spec(board_after(board, entries), c) == king_square_spec(board, c),
{
    assert forall|i: int| 0 <= i < entries.len() implies (#[trigger] entries[i]).0 != king_of(c) by {
        if i >= 1 {
            assert(entries[i].0.piece != Piece::King);
        }
    }
    lemma_lift_keeps_kings(board, entries, c);
    lemma_lift_len(board, entries);
    let lifted = lift_entries(board, entries);
    lemma_place_keeps_kings(lifted, entries, c);
    lemma_place_len(lifted, entries);
    lemma_king_from_agree(board_after(board, entries), board, c, 0);
}

} // verus!
