//! A cache of accumulators, one per perspective and king square, each with the
//! board it was last brought to. Refreshing an accumulator starts from the
//! cached one and changes only the squares that differ.
use vstd::prelude::*;
use crate::accumulator::{
    apply_feature_add, apply_feature_sub, copy_lanes16, copy_lanes32, holds_features, seq_sum,
    row_value16, row_value32, square_term, transformer_shape_ok, lemma_active_update,
};
use crate::arith::{wrap16, wrap32, lemma_wrap16_inner, lemma_wrap32_inner, lemma_wrap16_small, lemma_wrap32_small};
use crate::chess::{Color, ColoredPiece, color_index};
use crate::constants::PSQT_BUCKETS;
use crate::context::color_of;
use crate::features::{active_features_spec, feature_index, feature_index_spec};
use crate::network::FeatureTransformer;

verus! {

/// Entries per network: one per perspective and king square.
pub const FINNY_ENTRY_COUNT: usize = 128;

/// A cached accumulator and the board whose features it holds.
pub struct FinnyEntry {
    pub accumulation: Vec<i16>,
    pub psqt: Vec<i32>,
    pub board: Vec<Option<ColoredPiece>>,
}

/// The entry for `perspective` with its king on `king` holds the features of its board.
pub open spec fn finny_entry_ok(ft: &FeatureTransformer, half: int, e: FinnyEntry, perspective: Color, king: int) -> bool {
    &&& e.board@.len() == 64
    &&& holds_features(ft, half, e.accumulation@, e.psqt@, active_features_spec(perspective, e.board@, king, 64))
}

/// Every entry of the cache holds the features of its board, entry `i` being
/// for perspective `i / 64` and king square `i % 64`.
pub open spec fn finny_ok(cache: Seq<FinnyEntry>, ft: &FeatureTransformer, half: int) -> bool {
    &&& cache.len() == FINNY_ENTRY_COUNT
    &&& forall|i: int| 0 <= i < FINNY_ENTRY_COUNT ==> finny_entry_ok(ft, half, #[trigger] cache[i], color_of(i / 64), i % 64)
}

/// The board of a cleared cache entry: no piece anywhere.
pub open spec fn empty_board() -> Seq<Option<ColoredPiece>> {
    Seq::new(64, |j: int| None::<ColoredPiece>)
}

/// Every entry of `cache` is as in `before`, or holds `board`.
pub open spec fn cache_kept_or_at(cache: Seq<FinnyEntry>, before: Seq<FinnyEntry>, board: Seq<Option<ColoredPiece>>) -> bool {
    &&& cache.len() == before.len()
    &&& forall|i: int| 0 <= i < cache.len() ==> #[trigger] cache[i] == before[i] || cache[i].board@ == board
}

/// Whether two squares hold the same thing.
fn same_square(a: Option<ColoredPiece>, b: Option<ColoredPiece>) -> (r: bool)
    ensures
        r == (a == b),
{
    match (a, b) {
        (None, None) => true,
        (Some(x), Some(y)) => x.piece == y.piece && x.color == y.color,
        _ => false,
    }
}

/// An entry for the empty board: the biases and zero PSQT values.
fn cleared_entry(ft: &FeatureTransformer, half: usize, perspective: Color, king: u8) -> (r: FinnyEntry)
    requires
        transformer_shape_ok(ft, half as int),
    ensures
        finny_entry_ok(ft, half as int, r, perspective, king as int),
        r.board@ == empty_board(),
{
    let mut accumulation: Vec<i16> = vec![0i16; half];
    copy_lanes16(ft.biases.as_slice(), accumulation.as_mut_slice());
    let psqt: Vec<i32> = vec![0i32; PSQT_BUCKETS];
    let mut board: Vec<Option<ColoredPiece>> = Vec::new();
    let mut s: usize = 0;
    while s < 64
        invariant
            s <= 64,
            board@.len() == s,
            forall|j: int| 0 <= j < s ==> (#[trigger] board@[j]) is None,
        decreases 64 - s,
    {
        board.push(None);
        s = s + 1;
    }
    proof {
        lemma_active_empty(perspective, board@, king as int, 64);
        assert forall|lane: int| 0 <= lane < half implies #[trigger] accumulation@[lane]
            == wrap16(ft.biases@[lane] + seq_sum(active_features_spec(perspective, board@, king as int, 64), row_value16(ft.weights@, half as int, lane))) by {
            lemma_wrap16_small(ft.biases@[lane] as int);
        }
        assert forall|b: int| 0 <= b < PSQT_BUCKETS implies #[trigger] psqt@[b]
            == wrap32(seq_sum(active_features_spec(perspective, board@, king as int, 64), row_value32(ft.psqt_weights@, PSQT_BUCKETS as int, b))) by {
            lemma_wrap32_small(0);
        }
    }
    assert(board@ =~= empty_board());
    FinnyEntry { accumulation, psqt, board }
}

/// An empty board has no active features.
proof fn lemma_active_empty(perspective: Color, board: Seq<Option<ColoredPiece>>, king: int, n: int)
    requires
        0 <= n <= board.len(),
        forall|j: int| 0 <= j < n ==> (#[trigger] board[j]) is None,
    ensures
        active_features_spec(perspective, board, king, n) == Seq::<int>::empty(),
    decreases n,
{
    if n > 0 {
        lemma_active_empty(perspective, board, king, n - 1);
    }
}

/// A cache whose every entry is for the empty board.
pub fn cleared_cache(ft: &FeatureTransformer, half: usize) -> (r: Vec<FinnyEntry>)
    requires
        transformer_shape_ok(ft, half as int),
    ensures
        finny_ok(r@, ft, half as int),
        forall|i: int| 0 <= i < r@.len() ==> (#[trigger] r@[i]).board@ == empty_board(),
{
    let mut cache: Vec<FinnyEntry> = Vec::new();
    let mut i: usize = 0;
    while i < FINNY_ENTRY_COUNT
        invariant
            i <= FINNY_ENTRY_COUNT,
            transformer_shape_ok(ft, half as int),
            cache@.len() == i,
            forall|j: int| 0 <= j < i ==> finny_entry_ok(ft, half as int, #[trigger] cache@[j], color_of(j / 64), j % 64),
            forall|j: int| 0 <= j < i ==> (#[trigger] cache@[j]).board@ == empty_board(),
        decreases FINNY_ENTRY_COUNT - i,
    {
        let perspective = if i < 64 { Color::White } else { Color::Black };
        let king = (i % 64) as u8;
        let entry = cleared_entry(ft, half, perspective, king);
        cache.push(entry);
        i = i + 1;
    }
    cache
}

/// Refreshes `perspective`'s accumulator for `board`, whose king of that side
/// is on `king`, from the cache entry for that king square: the squares where
/// the entry's board differs lose their old piece's features and gain the new
/// one's, and the entry then holds `board`. The result is written to
/// `accumulation` and `psqt`.
pub fn refresh_from_finny(
    ft: &FeatureTransformer,
    half: usize,
    cache: &mut Vec<FinnyEntry>,
    board: &[Option<ColoredPiece>],
    perspective: Color,
    king: u8,
    accumulation: &mut Vec<i16>,
    psqt: &mut Vec<i32>,
)
    requires
        transformer_shape_ok(ft, half as int),
        finny_ok(old(cache)@, ft, half as int),
        board@.len() == 64,
        king < 64,
    ensures
        finny_ok(final(cache)@, ft, half as int),
        cache_kept_or_at(final(cache)@, old(cache)@, board@),
        holds_features(ft, half as int, final(accumulation)@, final(psqt)@, active_features_spec(perspective, board@, king as int, 64)),
{
    let idx = perspective.index() * 64 + king as usize;
    proof {
        assert(color_of(idx as int / 64) == perspective);
        assert(idx % 64 == king);
    }
    let mut entry = FinnyEntry { accumulation: Vec::new(), psqt: Vec::new(), board: Vec::new() };
    std::mem::swap(&mut entry, &mut cache[idx]);
    let ghost start = entry;
    let mut s: usize = 0;
    while s < 64
        invariant
            s <= 64,
            transformer_shape_ok(ft, half as int),
            board@.len() == 64,
            king < 64,
            finny_entry_ok(ft, half as int, entry, perspective, king as int),
            forall|j: int| 0 <= j < s ==> #[trigger] entry.board@[j] == board@[j],
        decreases 64 - s,
    {
        let old_square = entry.board[s];
        let new_square = board[s];
        if !same_square(old_square, new_square) {
            let ghost before = entry;
            match old_square {
                Some(pc) => {
                    let f = feature_index(perspective, pc, s as u8, king);
                    apply_feature_sub(ft, half, f as usize, entry.accumulation.as_mut_slice(), entry.psqt.as_mut_slice());
                },
                None => {},
            }
            let ghost mid = entry;
            match new_square {
                Some(pc) => {
                    let f = feature_index(perspective, pc, s as u8, king);
                    apply_feature_add(ft, half, f as usize, entry.accumulation.as_mut_slice(), entry.psqt.as_mut_slice());
                },
                None => {},
            }
            entry.board.set(s, new_square);
            proof {
                let held = active_features_spec(perspective, before.board@, king as int, 64);
                assert forall|lane: int| 0 <= lane < half implies #[trigger] entry.accumulation@[lane]
                    == wrap16(ft.biases@[lane] + seq_sum(active_features_spec(perspective, entry.board@, king as int, 64), row_value16(ft.weights@, half as int, lane))) by {
                    let v = row_value16(ft.weights@, half as int, lane);
                    lemma_active_update(perspective, before.board@, king as int, s as int, new_square, v, 64);
                    let base = ft.biases@[lane] + seq_sum(held, v);
                    let out_term = square_term(perspective, old_square, s as int, king as int, v);
                    let in_term = square_term(perspective, new_square, s as int, king as int, v);
                    lemma_wrap16_inner(base, -out_term);
                    assert(mid.accumulation@[lane] == wrap16(base - out_term)) by {
                        if old_square is None {
                            lemma_wrap16_small(before.accumulation@[lane] as int);
                        }
                    }
                    lemma_wrap16_inner(base - out_term, in_term);
                    if new_square is None {
                        lemma_wrap16_small(mid.accumulation@[lane] as int);
                    }
                }
                assert forall|b: int| 0 <= b < PSQT_BUCKETS implies #[trigger] entry.psqt@[b]
                    == wrap32(seq_sum(active_features_spec(perspective, entry.board@, king as int, 64), row_value32(ft.psqt_weights@, PSQT_BUCKETS as int, b))) by {
                    let v = row_value32(ft.psqt_weights@, PSQT_BUCKETS as int, b);
                    lemma_active_update(perspective, before.board@, king as int, s as int, new_square, v, 64);
                    let base = seq_sum(held, v);
                    let out_term = square_term(perspective, old_square, s as int, king as int, v);
                    let in_term = square_term(perspective, new_square, s as int, king as int, v);
                    lemma_wrap32_inner(base, -out_term);
                    assert(mid.psqt@[b] == wrap32(base - out_term)) by {
                        if old_square is None {
                            lemma_wrap32_small(before.psqt@[b] as int);
                        }
                    }
                    lemma_wrap32_inner(base - out_term, in_term);
                    if new_square is None {
                        lemma_wrap32_small(mid.psqt@[b] as int);
                    }
                }
            }
        }
        s = s + 1;
    }
    proof {
        assert(entry.board@ =~= board@);
    }
    if accumulation.len() != half {
        *accumulation = vec![0i16; half];
    }
    if psqt.len() != PSQT_BUCKETS {
        *psqt = vec![0i32; PSQT_BUCKETS];
    }
    copy_lanes16(entry.accumulation.as_slice(), accumulation.as_mut_slice());
    copy_lanes32(entry.psqt.as_slice(), psqt.as_mut_slice());
    let ghost placed = entry;
    cache.set(idx, entry);
    proof {
        assert forall|i: int| 0 <= i < FINNY_ENTRY_COUNT implies finny_entry_ok(ft, half as int, #[trigger] cache@[i], color_of(i / 64), i % 64) by {
            if i != idx {
                assert(cache@[i] == old(cache)@[i]);
            }
        }
    }
}

} // verus!
