//! What a move changes on the board, as the accumulators need it: up to three
//! pieces, each leaving a square, arriving on one, or both.
use vstd::prelude::*;
use crate::chess::{
    Color, ColoredPiece, Move, Piece, move_kind, color_index, NO_SQUARE, KIND_CAPTURE, KIND_CASTLE,
    KIND_DOUBLE_PUSH, KIND_EN_PASSANT, KIND_QUIET,
};
use crate::board::{Position, board_ok, board_after, entries_fit, king_of, lift_entries, lift_ok, place_entries, place_ok};

verus! {

pub const MAX_DIRTY_PIECES: usize = 3;

/// The pieces a move displaces: `pieces[i]` goes from `from[i]` to `to[i]`,
/// where `NO_SQUARE` means it appears or disappears.
#[derive(Clone, Copy, Debug)]
pub struct DirtyPiece {
    pub len: usize,
    pub pieces: [ColoredPiece; 3],
    pub from: [u8; 3],
    pub to: [u8; 3],
}

/// The entries of a dirty-piece record, in order.
pub open spec fn dirty_entries(d: DirtyPiece) -> Seq<(ColoredPiece, int, int)> {
    Seq::new(d.len as nat, |i: int| (d.pieces[i], d.from[i] as int, d.to[i] as int))
}

/// The rook's origin and destination for a castling king arriving on `king_to`.
pub open spec fn castle_rook_spec(king_to: int) -> (int, int) {
    if king_to == 6 { (7, 5) } else if king_to == 2 { (0, 3) } else if king_to == 62 { (63, 61) } else { (56, 59) }
}

pub open spec fn is_castle_target(king_to: int) -> bool {
    king_to == 6 || king_to == 2 || king_to == 62 || king_to == 58
}

/// The piece a promotion of kind `kind` creates.
pub open spec fn promotion_piece_spec(kind: int) -> Piece {
    if kind % 4 == 0 { Piece::Knight } else if kind % 4 == 1 { Piece::Bishop } else if kind % 4 == 2 { Piece::Rook } else { Piece::Queen }
}

pub open spec fn other_color(c: Color) -> Color {
    match c {
        Color::White => Color::Black,
        Color::Black => Color::White,
    }
}

/// The moves whose dirty pieces can be described: every kind in use, castling
/// onto a castling square, en passant onto a square with a pawn behind it.
pub open spec fn describable_move(mv: Move, moved: ColoredPiece) -> bool {
    let kind = move_kind(mv);
    let to = (mv.bits / 64) % 64;
    &&& (kind <= 4 || kind >= 8)
    &&& (kind == KIND_CASTLE ==> is_castle_target(to as int))
    &&& (kind == KIND_EN_PASSANT ==> if moved.color == Color::White { to >= 8 } else { to < 56 })
}

/// What `mv` displaces, given the moving piece and the piece on its destination.
pub open spec fn move_entries(mv: Move, moved: ColoredPiece, captured: ColoredPiece) -> Seq<(ColoredPiece, int, int)> {
    let from = (mv.bits % 64) as int;
    let to = ((mv.bits / 64) % 64) as int;
    let kind = move_kind(mv);
    let none = NO_SQUARE as int;
    if kind == KIND_QUIET || kind == KIND_DOUBLE_PUSH {
        seq![(moved, from, to)]
    } else if kind == KIND_CAPTURE {
        seq![(moved, from, to), (captured, to, none)]
    } else if kind == KIND_EN_PASSANT {
        let behind = if moved.color == Color::White { to - 8 } else { to + 8 };
        seq![(moved, from, to), (ColoredPiece { piece: Piece::Pawn, color: other_color(moved.color) }, behind, none)]
    } else if kind == KIND_CASTLE {
        seq![(moved, from, to), (ColoredPiece { piece: Piece::Rook, color: moved.color }, castle_rook_spec(to).0, castle_rook_spec(to).1)]
    } else if kind < 12 {
        seq![(moved, from, none), (ColoredPiece { piece: promotion_piece_spec(kind), color: moved.color }, none, to)]
    } else {
        seq![(moved, from, none), (captured, to, none), (ColoredPiece { piece: promotion_piece_spec(kind), color: moved.color }, none, to)]
    }
}

/// The rook's origin and destination for a castling king arriving on `king_to`.
pub fn castle_rook_squares(king_to: u8) -> (r: (u8, u8))
    requires
        is_castle_target(king_to as int),
    ensures
        (r.0 as int, r.1 as int) == castle_rook_spec(king_to as int),
{
    match king_to {
        6 => (7, 5),
        2 => (0, 3),
        62 => (63, 61),
        _ => (56, 59),
    }
}

/// Castling takes the rook from the corner on the side the king moves to,
/// on the king's own rank, to the square the king crosses: the king leaves
/// e1 (e8) for `king_to`, and the rook ends halfway between.
pub proof fn lemma_castle_rook_crosses(king_to: int)
    requires
        is_castle_target(king_to),
    ensures
        ({
            let home = if king_to < 8 { 4int } else { 60int };
            let (rook_from, rook_to) = castle_rook_spec(king_to);
            &&& rook_to == (home + king_to) / 2
            &&& rook_from == if king_to > home { home + 3 } else { home - 4 }
            &&& rook_from / 8 == home / 8 && rook_to / 8 == home / 8
            &&& (king_to - home == 2 || home - king_to == 2)
        }),
{
}

fn promotion_piece(kind: u16) -> (p: Piece)
    ensures
        p == promotion_piece_spec(kind as int),
{
    match kind % 4 {
        0 => Piece::Knight,
        1 => Piece::Bishop,
        2 => Piece::Rook,
        _ => Piece::Queen,
    }
}

impl DirtyPiece {
    /// No displaced piece.
    pub fn empty() -> (r: Self)
        ensures
            r.len == 0,
            dirty_entries(r) == Seq::<(ColoredPiece, int, int)>::empty(),
            forall|i: int| 0 <= i < 3 ==> r.from[i] == NO_SQUARE && r.to[i] == NO_SQUARE
                && r.pieces[i] == (ColoredPiece { piece: Piece::Pawn, color: Color::White }),
    {
        let placeholder = ColoredPiece { piece: Piece::Pawn, color: Color::White };
        let r = DirtyPiece {
            len: 0,
            pieces: [placeholder, placeholder, placeholder],
            from: [NO_SQUARE, NO_SQUARE, NO_SQUARE],
            to: [NO_SQUARE, NO_SQUARE, NO_SQUARE],
        };
        assert(dirty_entries(r) =~= Seq::<(ColoredPiece, int, int)>::empty());
        r
    }

    fn push(&mut self, piece: ColoredPiece, from: u8, to: u8)
        requires
            old(self).len < MAX_DIRTY_PIECES,
        ensures
            final(self).len == old(self).len + 1,
            dirty_entries(*final(self)) == dirty_entries(*old(self)).push((piece, from as int, to as int)),
    {
        let i = self.len;
        self.pieces[i] = piece;
        self.from[i] = from;
        self.to[i] = to;
        self.len = i + 1;
        assert(dirty_entries(*self) =~= dirty_entries(*old(self)).push((piece, from as int, to as int)));
    }

    /// The pieces `mv` displaces; `moved` is the piece on its origin and
    /// `captured` the piece on its destination (read for captures only).
    fn from_pieces(mv: Move, moved: ColoredPiece, captured: ColoredPiece) -> (r: Self)
        requires
            describable_move(mv, moved),
        ensures
            dirty_entries(r) == move_entries(mv, moved, captured),
            r.len <= MAX_DIRTY_PIECES,
    {
        let from = (mv.bits % 64) as u8;
        let to = ((mv.bits / 64) % 64) as u8;
        let kind = mv.kind();
        let mut dirty = DirtyPiece::empty();
        if kind == KIND_QUIET || kind == KIND_DOUBLE_PUSH {
            dirty.push(moved, from, to);
        } else if kind == KIND_CAPTURE {
            dirty.push(moved, from, to);
            dirty.push(captured, to, NO_SQUARE);
        } else if kind == KIND_EN_PASSANT {
            dirty.push(moved, from, to);
            let behind = if moved.color == Color::White { to - 8 } else { to + 8 };
            dirty.push(ColoredPiece { piece: Piece::Pawn, color: moved.color.flip() }, behind, NO_SQUARE);
        } else if kind == KIND_CASTLE {
            dirty.push(moved, from, to);
            let (rook_from, rook_to) = castle_rook_squares(to);
            dirty.push(ColoredPiece { piece: Piece::Rook, color: moved.color }, rook_from, rook_to);
        } else if kind < 12 {
            dirty.push(moved, from, NO_SQUARE);
            dirty.push(ColoredPiece { piece: promotion_piece(kind), color: moved.color }, NO_SQUARE, to);
        } else {
            dirty.push(moved, from, NO_SQUARE);
            dirty.push(captured, to, NO_SQUARE);
            dirty.push(ColoredPiece { piece: promotion_piece(kind), color: moved.color }, NO_SQUARE, to);
        }
        proof {
            assert(dirty_entries(dirty) =~= move_entries(mv, moved, captured));
        }
        dirty
    }

    /// The pieces `mv` displaces in `position`.
    pub fn from_move(position: &Position, mv: Move) -> (r: Self)
        requires
            position.squares@.len() == 64,
            position.squares@[(mv.bits % 64) as int] is Some,
            describable_move(mv, position.squares@[(mv.bits % 64) as int]->0),
        ensures
            dirty_entries(r) == move_entries(mv, position.squares@[(mv.bits % 64) as int]->0,
                captured_or_pawn(position.squares@[((mv.bits / 64) % 64) as int])),
            r.len <= MAX_DIRTY_PIECES,
    {
        let from = mv.from_square() as usize;
        let to = mv.to_square() as usize;
        let moved = match position.squares[from] {
            Some(p) => p,
            None => ColoredPiece { piece: Piece::Pawn, color: Color::White },
        };
        let captured = match position.squares[to] {
            Some(p) => p,
            None => ColoredPiece { piece: Piece::Pawn, color: Color::White },
        };
        DirtyPiece::from_pieces(mv, moved, captured)
    }

    /// A move of `perspective`'s king invalidates that perspective's accumulator.
    pub fn requires_refresh(self, perspective: Color) -> (r: bool)
        ensures
            r == (self.len != 0 && self.pieces[0].piece == Piece::King && self.pieces[0].color == perspective),
    {
        self.len != 0 && self.pieces[0].piece == Piece::King && self.pieces[0].color == perspective
    }
}

/// The number of entries whose origin (`leaving`) or destination is a square.
pub open spec fn square_count(entries: Seq<(ColoredPiece, int, int)>, leaving: bool) -> int
    decreases entries.len(),
{
    if entries.len() == 0 {
        0
    } else {
        let (piece, from, to) = entries.last();
        let square = if leaving { from } else { to };
        square_count(entries.drop_last(), leaving) + if 0 <= square < 64 { 1int } else { 0int }
    }
}

/// A move leaves at most two squares and reaches at most two.
pub proof fn lemma_move_entries_small(mv: Move, moved: ColoredPiece, captured: ColoredPiece)
    ensures
        square_count(move_entries(mv, moved, captured), true) <= 2,
        square_count(move_entries(mv, moved, captured), false) <= 2,
        move_entries(mv, moved, captured).len() <= MAX_DIRTY_PIECES,
{
    let e = move_entries(mv, moved, captured);
    reveal_with_fuel(square_count, 4);
    assert(e.len() <= 3);
    if e.len() == 3 {
        assert(e.drop_last().drop_last().drop_last() =~= Seq::<(ColoredPiece, int, int)>::empty());
        assert(e[1].2 == NO_SQUARE as int);
        assert(e[2].1 == NO_SQUARE as int);
        assert(e[0].2 == NO_SQUARE as int);
    } else if e.len() == 2 {
        assert(e.drop_last().drop_last() =~= Seq::<(ColoredPiece, int, int)>::empty());
    } else {
        assert(e.drop_last() =~= Seq::<(ColoredPiece, int, int)>::empty());
    }
}

/// `mv` is a move of the position `board`: the piece on its origin moves as
/// described, whatever it captures is not a king, and both kings remain.
pub open spec fn move_applies(board: Seq<Option<ColoredPiece>>, mv: Move) -> bool {
    let from = (mv.bits % 64) as int;
    let to = ((mv.bits / 64) % 64) as int;
    &&& board.len() == 64
    &&& board[from] is Some
    &&& describable_move(mv, board[from]->0)
    &&& entries_fit(board, move_entries(mv, board[from]->0, captured_or_pawn(board[to])))
    &&& board_ok(board_after(board, move_entries(mv, board[from]->0, captured_or_pawn(board[to]))))
}

/// A prefix of a sequence of moving pieces that all leave their squares as
/// described does so too.
proof fn lemma_lift_ok_prefix(board: Seq<Option<ColoredPiece>>, entries: Seq<(ColoredPiece, int, int)>, n: int)
    requires
        lift_ok(board, entries),
        0 <= n <= entries.len(),
    ensures
        lift_ok(board, entries.take(n)),
    decreases entries.len() - n,
{
    if n == entries.len() {
        assert(entries.take(n) =~= entries);
    } else {
        lemma_lift_ok_prefix(board, entries.drop_last(), n);
        assert(entries.drop_last().take(n) =~= entries.take(n));
    }
}

/// A prefix of a sequence of arriving pieces that all land on empty squares does so too.
proof fn lemma_place_ok_prefix(board: Seq<Option<ColoredPiece>>, entries: Seq<(ColoredPiece, int, int)>, n: int)
    requires
        place_ok(board, entries),
        0 <= n <= entries.len(),
    ensures
        place_ok(board, entries.take(n)),
    decreases entries.len() - n,
{
    if n == entries.len() {
        assert(entries.take(n) =~= entries);
    } else {
        lemma_place_ok_prefix(board, entries.drop_last(), n);
        assert(entries.drop_last().take(n) =~= entries.take(n));
    }
}

/// Whether `mv` applies to `position` as `push_move` needs it: tests `move_applies`.
pub fn move_is_applicable(position: &Position, mv: Move) -> (r: bool)
    requires
        position.squares@.len() == 64,
    ensures
        r == move_applies(position.squares@, mv),
{
    let from = mv.from_square() as usize;
    let to = mv.to_square() as usize;
    let moved = match position.squares[from] {
        Some(p) => p,
        None => return false,
    };
    let kind = mv.kind();
    let describable = (kind <= 4 || kind >= 8)
        && (kind != KIND_CASTLE || to == 6 || to == 2 || to == 62 || to == 58)
        && (kind != KIND_EN_PASSANT || (if moved.color == Color::White { to >= 8 } else { to < 56 }));
    if !describable {
        return false;
    }
    let d = DirtyPiece::from_move(position, mv);
    let ghost board0 = position.squares@;
    let ghost entries = dirty_entries(d);
    assert(entries == move_entries(mv, board0[from as int]->0, captured_or_pawn(board0[to as int])));
    let mut board: Vec<Option<ColoredPiece>> = position.squares.clone();
    assert(entries.take(0) =~= Seq::<(ColoredPiece, int, int)>::empty());
    let mut i: usize = 0;
    while i < d.len
        invariant
            i <= d.len <= MAX_DIRTY_PIECES,
            entries == dirty_entries(d),
            entries.len() == d.len,
            board0 == position.squares@,
            entries == move_entries(mv, board0[(mv.bits % 64) as int]->0, captured_or_pawn(board0[((mv.bits / 64) % 64) as int])),
            board@.len() == 64,
            board@ == lift_entries(board0, entries.take(i as int)),
            lift_ok(board0, entries.take(i as int)),
            forall|k: int| 1 <= k < i ==> (#[trigger] entries[k]).0.piece != Piece::King,
        decreases d.len - i,
    {
        assert(entries.take(i + 1).drop_last() =~= entries.take(i as int));
        assert(entries.take(i + 1).last() == entries[i as int]);
        let p = d.pieces[i];
        let f = d.from[i];
        if i >= 1 && p.piece == Piece::King {
            assert(entries[i as int].0.piece == Piece::King);
            assert(!entries_fit(board0, entries));
            return false;
        }
        if f < 64 {
            let on_square = board[f as usize];
            let here = match on_square {
                Some(q) => q == p,
                None => false,
            };
            if !here {
                proof {
                    assert(!lift_ok(board0, entries.take(i + 1)));
                    if lift_ok(board0, entries) {
                        lemma_lift_ok_prefix(board0, entries, i + 1);
                    }
                    assert(!entries_fit(board0, entries));
                }
                return false;
            }
            board.set(f as usize, None);
        }
        i = i + 1;
    }
    assert(entries.take(d.len as int) =~= entries);
    let ghost lifted = board@;
    assert(entries.take(0) =~= Seq::<(ColoredPiece, int, int)>::empty());
    let mut j: usize = 0;
    while j < d.len
        invariant
            j <= d.len <= MAX_DIRTY_PIECES,
            entries == dirty_entries(d),
            entries.len() == d.len,
            board0 == position.squares@,
            entries == move_entries(mv, board0[(mv.bits % 64) as int]->0, captured_or_pawn(board0[((mv.bits / 64) % 64) as int])),
            lifted == lift_entries(board0, entries),
            board@.len() == 64,
            board@ == place_entries(lifted, entries.take(j as int)),
            place_ok(lifted, entries.take(j as int)),
        decreases d.len - j,
    {
        assert(entries.take(j + 1).drop_last() =~= entries.take(j as int));
        assert(entries.take(j + 1).last() == entries[j as int]);
        let p = d.pieces[j];
        let t = d.to[j];
        if t < 64 {
            if board[t as usize].is_some() {
                proof {
                    assert(!place_ok(lifted, entries.take(j + 1)));
                    if place_ok(lifted, entries) {
                        lemma_place_ok_prefix(lifted, entries, j + 1);
                    }
                    assert(!entries_fit(board0, entries));
                }
                return false;
            }
            board.set(t as usize, Some(p));
        }
        j = j + 1;
    }
    assert(entries.take(d.len as int) =~= entries);
    let white = crate::board::king_square(board.as_slice(), Color::White);
    let black = crate::board::king_square(board.as_slice(), Color::Black);
    white < 64 && black < 64
}

/// The piece on a capture's destination; a pawn stands in where there is none.
pub open spec fn captured_or_pawn(x: Option<ColoredPiece>) -> ColoredPiece {
    match x {
        Some(p) => p,
        None => ColoredPiece { piece: Piece::Pawn, color: Color::White },
    }
}

/// The number of frames in a context: the root and one per move on the stack.
pub const STACK_FRAMES: usize = 1025;

/// One side's accumulator in one frame, for one network.
pub struct SideAccumulator {
    pub accumulation: Vec<i16>,
    pub psqt: Vec<i32>,
    pub computed: bool,
}

impl SideAccumulator {
    /// Nothing computed yet; the buffers are sized when first filled.
    pub fn empty() -> (r: Self)
        ensures
            !r.computed,
            r.accumulation@.len() == 0,
            r.psqt@.len() == 0,
    {
        SideAccumulator { accumulation: Vec::new(), psqt: Vec::new(), computed: false }
    }
}

/// The slot of frame `depth`, network `net` (0 the big one, 1 the small one)
/// and perspective `p` (its color index).
pub open spec fn slot(depth: int, net: int, p: int) -> int {
    (depth * 2 + net) * 2 + p
}

pub fn slot_index(depth: usize, net: usize, p: usize) -> (r: usize)
    requires
        depth < STACK_FRAMES,
        net < 2,
        p < 2,
    ensures
        r == slot(depth as int, net as int, p as int),
        r < STACK_FRAMES * 4,
{
    (depth * 2 + net) * 2 + p
}

/// The spec-level color with index `p`.
pub open spec fn color_of(p: int) -> Color {
    if p == 0 { Color::White } else { Color::Black }
}

/// A move of `perspective`'s king, the first displaced piece, forces a refresh.
pub open spec fn refresh_needed(d: DirtyPiece, perspective: Color) -> bool {
    d.len != 0 && d.pieces[0].piece == Piece::King && d.pieces[0].color == perspective
}

/// The accumulator stack of an evaluation: for every move made since the
/// root, the pieces it displaced, and for every frame, network and
/// perspective an accumulator that is filled on demand.
pub struct NnueContext {
    pub sides: Vec<SideAccumulator>,
    pub dirty: Vec<DirtyPiece>,
    pub depth: usize,
    pub initialized: bool,
    pub root_hash: u64,
    /// The board of every frame from the root up to `depth`.
    pub boards: Ghost<Seq<Seq<Option<ColoredPiece>>>>,
    /// The refresh caches of the big and the small network.
    pub finny_big: Vec<crate::finny::FinnyEntry>,
    pub finny_small: Vec<crate::finny::FinnyEntry>,
}

impl NnueContext {
    /// The stack's shape, and each frame's board following from the one below
    /// it by the pieces the move displaced.
    pub open spec fn shape_ok(&self) -> bool {
        &&& self.sides@.len() == STACK_FRAMES * 4
        &&& self.dirty@.len() == STACK_FRAMES
        &&& self.depth < STACK_FRAMES
        &&& !self.initialized ==> self.depth == 0
        &&& !self.initialized ==> forall|i: int| 0 <= i < self.sides@.len() ==> !(#[trigger] self.sides@[i]).computed
        &&& self.initialized ==> self.boards@.len() == self.depth + 1
        &&& self.initialized ==> forall|d: int| 0 <= d <= self.depth ==> board_ok(#[trigger] self.boards@[d])
        &&& self.initialized ==> forall|d: int| 1 <= d <= self.depth ==> self.step_ok(d)
    }

    /// Frame `d` is reached from frame `d - 1` by the pieces of `dirty[d]`.
    pub open spec fn step_ok(&self, d: int) -> bool {
        let e = dirty_entries(self.dirty@[d]);
        &&& self.dirty@[d].len <= MAX_DIRTY_PIECES
        &&& square_count(e, true) <= 2
        &&& square_count(e, false) <= 2
        &&& entries_fit(self.boards@[d - 1], e)
        &&& self.boards@[d] == board_after(self.boards@[d - 1], e)
    }

    /// Every computed accumulator of network `net`, up to the current frame,
    /// holds exactly the active features of its frame's board.
    pub open spec fn holds_net(&self, net: int, ft: &crate::network::FeatureTransformer, half: int) -> bool {
        forall|d: int, p: int| 0 <= d <= self.depth && 0 <= p < 2 && #[trigger] self.sides@[slot(d, net, p)].computed ==>
            crate::accumulator::holds_board(ft, half, self.sides@[slot(d, net, p)].accumulation@,
                self.sides@[slot(d, net, p)].psqt@, self.boards@[d], color_of(p))
    }

    /// The refresh cache of network `net`.
    pub open spec fn finny_of(&self, net: int) -> Seq<crate::finny::FinnyEntry> {
        if net == 0 { self.finny_big@ } else { self.finny_small@ }
    }

    /// The board of the current frame.
    pub open spec fn current_board(&self) -> Seq<Option<ColoredPiece>> {
        self.boards@[self.depth as int]
    }

    /// An empty stack; nothing is computed until it is reset to a root.
    pub fn new() -> (r: Self)
        ensures
            r.shape_ok(),
            !r.initialized,
            r.depth == 0,
    {
        let mut sides: Vec<SideAccumulator> = Vec::new();
        let mut i: usize = 0;
        while i < STACK_FRAMES * 4
            invariant
                i <= STACK_FRAMES * 4,
                sides@.len() == i,
                forall|j: int| 0 <= j < i ==> !(#[trigger] sides@[j]).computed,
            decreases STACK_FRAMES * 4 - i,
        {
            sides.push(SideAccumulator::empty());
            i = i + 1;
        }
        let mut dirty: Vec<DirtyPiece> = Vec::new();
        let mut k: usize = 0;
        while k < STACK_FRAMES
            invariant
                k <= STACK_FRAMES,
                dirty@.len() == k,
            decreases STACK_FRAMES - k,
        {
            dirty.push(DirtyPiece::empty());
            k = k + 1;
        }
        NnueContext {
            sides,
            dirty,
            depth: 0,
            initialized: false,
            root_hash: 0,
            boards: Ghost(Seq::empty()),
            finny_big: Vec::new(),
            finny_small: Vec::new(),
        }
    }

    /// Makes `position` the root: the stack is emptied and nothing is computed.
    pub fn reset_root_state(&mut self, position: &Position)
        requires
            old(self).shape_ok(),
            board_ok(position.squares@),
        ensures
            final(self).shape_ok(),
            final(self).initialized,
            final(self).depth == 0,
            final(self).root_hash == position.hash,
            final(self).boards@ == seq![position.squares@],
            forall|i: int| 0 <= i < 4 ==> !(#[trigger] final(self).sides@[i]).computed,
            final(self).finny_big == old(self).finny_big,
            final(self).finny_small == old(self).finny_small,
    {
        let ghost old_sides = self.sides@;
        let ghost was_init = self.initialized;
        self.mark_stale(0);
        self.mark_stale(1);
        self.mark_stale(2);
        self.mark_stale(3);
        proof {
            assert forall|i: int| 4 <= i < self.sides@.len() implies #[trigger] self.sides@[i] == old_sides[i] by {}
        }
        self.dirty.set(0, DirtyPiece::empty());
        self.depth = 0;
        self.initialized = true;
        self.root_hash = position.hash;
        self.boards = Ghost(Seq::empty().push(position.squares@));
    }

    /// Pushes the frame reached by playing `mv` in `position`, the current frame's position.
    pub fn push_move(&mut self, position: &Position, mv: Move)
        requires
            old(self).shape_ok(),
            old(self).initialized,
            old(self).depth + 1 < STACK_FRAMES,
            position.squares@ == old(self).current_board(),
            move_applies(position.squares@, mv),
        ensures
            final(self).shape_ok(),
            final(self).initialized,
            final(self).depth == old(self).depth + 1,
            final(self).root_hash == old(self).root_hash,
            final(self).boards@ == old(self).boards@.push(board_after(position.squares@,
                move_entries(mv, position.squares@[(mv.bits % 64) as int]->0,
                    captured_or_pawn(position.squares@[((mv.bits / 64) % 64) as int])))),
            forall|net: int, ft: &crate::network::FeatureTransformer, half: int|
                0 <= net < 2 && #[trigger] old(self).holds_net(net, ft, half) ==> final(self).holds_net(net, ft, half),
            final(self).finny_big == old(self).finny_big,
            final(self).finny_small == old(self).finny_small,
    {
        let ghost moved = position.squares@[(mv.bits % 64) as int]->0;
        let ghost captured = captured_or_pawn(position.squares@[((mv.bits / 64) % 64) as int]);
        let d = DirtyPiece::from_move(position, mv);
        let next = self.depth + 1;
        let ghost old_sides = self.sides@;
        let ghost old_self = *self;
        self.mark_stale(slot_index(next, 0, 0));
        self.mark_stale(slot_index(next, 0, 1));
        self.mark_stale(slot_index(next, 1, 0));
        self.mark_stale(slot_index(next, 1, 1));
        self.dirty.set(next, d);
        self.depth = next;
        let ghost after = board_after(position.squares@, move_entries(mv, moved, captured));
        self.boards = Ghost(self.boards@.push(after));
        proof {
            lemma_move_entries_small(mv, moved, captured);
            assert(self.step_ok(next as int));
            assert forall|d2: int| 1 <= d2 <= self.depth implies self.step_ok(d2) by {
                if d2 < next {
                    assert(old_self.step_ok(d2));
                }
            }
            assert forall|d2: int, p: int| 0 <= d2 < next && 0 <= p < 4 implies
                #[trigger] self.sides@[d2 * 4 + p] == old_sides[d2 * 4 + p] by {}
            assert forall|net: int, ft: &crate::network::FeatureTransformer, half: int|
                0 <= net < 2 && #[trigger] old_self.holds_net(net, ft, half) implies self.holds_net(net, ft, half) by {
                assert forall|d2: int, p: int| 0 <= d2 <= self.depth && 0 <= p < 2 && #[trigger] self.sides@[slot(d2, net, p)].computed implies
                    crate::accumulator::holds_board(ft, half, self.sides@[slot(d2, net, p)].accumulation@,
                        self.sides@[slot(d2, net, p)].psqt@, self.boards@[d2], color_of(p)) by {
                    if d2 < next {
                        assert(self.sides@[slot(d2, net, p)] == old_sides[slot(d2, net, p)]);
                        assert(self.boards@[d2] == old_self.boards@[d2]);
                    }
                }
            }
        }
    }

    /// Drops the current frame.
    pub fn pop(&mut self)
        requires
            old(self).shape_ok(),
            old(self).depth > 0,
        ensures
            final(self).shape_ok(),
            final(self).depth == old(self).depth - 1,
            final(self).initialized == old(self).initialized,
            final(self).root_hash == old(self).root_hash,
            final(self).boards@ == old(self).boards@.drop_last(),
            final(self).sides == old(self).sides,
            forall|net: int, ft: &crate::network::FeatureTransformer, half: int|
                #[trigger] old(self).holds_net(net, ft, half) ==> final(self).holds_net(net, ft, half),
            final(self).finny_big == old(self).finny_big,
            final(self).finny_small == old(self).finny_small,
    {
        let ghost old_self = *self;
        self.depth = self.depth - 1;
        self.boards = Ghost(self.boards@.drop_last());
        proof {
            assert forall|d2: int| 1 <= d2 <= self.depth implies self.step_ok(d2) by {
                assert(old_self.step_ok(d2));
            }
            assert forall|net: int, ft: &crate::network::FeatureTransformer, half: int|
                #[trigger] old_self.holds_net(net, ft, half) implies self.holds_net(net, ft, half) by {
                assert forall|d2: int, p: int| 0 <= d2 <= self.depth && 0 <= p < 2 && #[trigger] self.sides@[slot(d2, net, p)].computed implies
                    crate::accumulator::holds_board(ft, half, self.sides@[slot(d2, net, p)].accumulation@,
                        self.sides@[slot(d2, net, p)].psqt@, self.boards@[d2], color_of(p)) by {
                    assert(self.boards@[d2] == old_self.boards@[d2]);
                }
            }
        }
    }

    /// Marks the accumulator in slot `i` as not computed.
    fn mark_stale(&mut self, i: usize)
        requires
            i < old(self).sides@.len(),
        ensures
            final(self).sides@.len() == old(self).sides@.len(),
            !final(self).sides@[i as int].computed,
            forall|j: int| 0 <= j < old(self).sides@.len() && j != i ==> #[trigger] final(self).sides@[j] == old(self).sides@[j],
            final(self).dirty == old(self).dirty,
            final(self).depth == old(self).depth,
            final(self).initialized == old(self).initialized,
            final(self).root_hash == old(self).root_hash,
            final(self).boards == old(self).boards,
            final(self).finny_big == old(self).finny_big,
            final(self).finny_small == old(self).finny_small,
    {
        let mut side = SideAccumulator::empty();
        std::mem::swap(&mut side, &mut self.sides[i]);
        side.computed = false;
        self.sides.set(i, side);
    }
}

} // verus!
