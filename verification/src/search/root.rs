//! Root-side decisions: the result of a search, the ordering of the root
//! moves between iterations, and the selection order of quiescence moves.
use vstd::prelude::*;
use crate::chess::Move;
use crate::search::types::{mate_score, mate_score_spec};

verus! {

/// The deepest iteration a search runs when no depth is given.
pub const MAX_SEARCH_DEPTH: u8 = 64;

/// The score of a root move not searched yet.
pub const ROOT_SCORE_UNSEARCHED: i32 = i32::MIN;

/// The outcome of a search: the best move found (none at a terminal root),
/// its score, the last completed depth, the nodes visited and the time spent.
#[derive(Clone, Copy, Debug, PartialEq, Eq)]
pub struct SearchResult {
    pub best_move: Option<Move>,
    pub score: i32,
    pub depth: u8,
    pub nodes: u64,
    pub time_ms: u64,
}

/// The deepest iteration to run: the given depth, or `MAX_SEARCH_DEPTH`.
pub fn max_search_depth(depth: Option<u8>) -> (r: u8)
    ensures
        r == match depth {
            Some(d) => d,
            None => MAX_SEARCH_DEPTH,
        },
{
    match depth {
        Some(d) => d,
        None => MAX_SEARCH_DEPTH,
    }
}

/// The result at a root without legal moves: mated in check, stalemate otherwise.
pub fn terminal_root_result(in_check: bool, time_ms: u64) -> (r: SearchResult)
    ensures
        r.best_move is None,
        r.score == if in_check { -mate_score_spec(0) } else { 0 },
        r.depth == 0,
        r.nodes == 0,
        r.time_ms == time_ms,
{
    SearchResult { best_move: None, score: if in_check { -mate_score(0) } else { 0 }, depth: 0, nodes: 0, time_ms }
}

/// Swapping two entries keeps the multiset of a sequence.
pub proof fn lemma_swap_multiset<A>(s: Seq<A>, i: int, j: int)
    requires
        0 <= i < s.len(),
        0 <= j < s.len(),
    ensures
        s.update(i, s[j]).update(j, s[i]).to_multiset() =~= s.to_multiset(),
{
    broadcast use vstd::multiset::group_multiset_axioms;
    broadcast use vstd::seq_lib::group_to_multiset_ensures;
    let u = s.update(i, s[j]);
    assert(u.len() == s.len());
    vstd::seq_lib::to_multiset_update(s, i, s[j]);
    vstd::seq_lib::to_multiset_update(u, j, s[i]);
    assert(s.contains(s[i]));
    assert(s.to_multiset().count(s[i]) > 0);
    if i == j {
        assert(u.update(j, s[i]) =~= s);
    } else {
        assert(u[j] == s[j]);
    }
    assert(u.update(j, s[i]).to_multiset() =~= s.to_multiset());
}

/// The entries from `lo` up to `hi` are in non-increasing order of score.
pub open spec fn sorted_by_score(s: Seq<(Move, i32)>, lo: int, hi: int) -> bool {
    forall|a: int, b: int| #![trigger s[a], s[b]] lo <= a < b < hi ==> s[a].1 >= s[b].1
}

/// `after` holds the entries of `before` rearranged: entry `k` of `after` is
/// entry `p[k]` of `before`, each taken once.
pub open spec fn rearranges(before: Seq<(Move, i32)>, after: Seq<(Move, i32)>, p: Seq<int>) -> bool {
    &&& p.len() == after.len() && after.len() == before.len()
    &&& forall|k: int| 0 <= k < p.len() ==> 0 <= #[trigger] p[k] < before.len() && after[k] == before[p[k]]
    &&& forall|a: int, b: int| 0 <= a < b < p.len() ==> p[a] != p[b]
}

/// Entries of equal score keep their order: the earlier one came from earlier.
pub open spec fn keeps_ties(after: Seq<(Move, i32)>, p: Seq<int>) -> bool {
    forall|a: int, b: int| #![trigger p[a], p[b]] 0 <= a < b < after.len() && after[a].1 == after[b].1 ==> p[a] < p[b]
}

/// Orders the root moves by their last scores, best first, keeping the
/// order of equal scores (an insertion sort).
pub fn order_root_moves(entries: &mut Vec<(Move, i32)>)
    ensures
        final(entries)@.len() == old(entries)@.len(),
        final(entries)@.to_multiset() == old(entries)@.to_multiset(),
        sorted_by_score(final(entries)@, 0, final(entries)@.len() as int),
        exists|p: Seq<int>| rearranges(old(entries)@, final(entries)@, p) && keeps_ties(final(entries)@, p),
{
    let len = entries.len();
    let ghost mut perm: Seq<int> = Seq::new(len as nat, |i: int| i);
    if len == 0 {
        assert(rearranges(old(entries)@, entries@, perm) && keeps_ties(entries@, perm));
        return;
    }
    let mut index: usize = 1;
    while index < len
        invariant
            1 <= index <= len,
            entries@.len() == len,
            entries@.to_multiset() == old(entries)@.to_multiset(),
            sorted_by_score(entries@, 0, index as int),
            rearranges(old(entries)@, entries@, perm),
            forall|k: int| index <= k < len ==> #[trigger] perm[k] == k,
            forall|k: int| 0 <= k < index ==> #[trigger] perm[k] < index,
            forall|a: int, b: int| #![trigger perm[a], perm[b]] 0 <= a < b < index && entries@[a].1 == entries@[b].1 ==> perm[a] < perm[b],
        decreases len - index,
    {
        let mut current = index;
        while current != 0 && entries[current].1 > entries[current - 1].1
            invariant
                1 <= index < len,
                current <= index,
                entries@.len() == len,
                entries@.to_multiset() == old(entries)@.to_multiset(),
                sorted_by_score(entries@, 0, current as int),
                sorted_by_score(entries@, current as int, index + 1),
                forall|a: int, b: int| #![trigger entries@[a], entries@[b]] 0 <= a < current < b <= index ==> entries@[a].1 >= entries@[b].1,
                rearranges(old(entries)@, entries@, perm),
                forall|k: int| index < k < len ==> #[trigger] perm[k] == k,
                perm[current as int] == index,
                forall|k: int| 0 <= k <= index && k != current ==> #[trigger] perm[k] < index,
                forall|b: int| current < b <= index ==> (#[trigger] entries@[b]).1 < entries@[current as int].1,
                forall|a: int, b: int| #![trigger perm[a], perm[b]] 0 <= a < b <= index && a != current && b != current
                    && entries@[a].1 == entries@[b].1 ==> perm[a] < perm[b],
            decreases current,
        {
            let ghost before = entries@;
            let ghost pb = perm;
            let moving = entries[current];
            let above = entries[current - 1];
            entries.set(current - 1, moving);
            entries.set(current, above);
            proof {
                perm = pb.update(current as int, pb[current - 1]).update(current - 1, pb[current as int]);
                lemma_swap_multiset(before, current as int, current - 1);
                assert(entries@ =~= before.update(current as int, before[current - 1]).update(current - 1, before[current as int]));
                assert forall|a: int, b: int| #![trigger entries@[a], entries@[b]] current - 1 <= a < b < index + 1 implies
                    entries@[a].1 >= entries@[b].1 by {
                    if a == current - 1 && b > current {
                        assert(before[current as int].1 >= before[b].1);
                    } else if a == current && b > current {
                        assert(before[current - 1].1 >= before[b].1);
                    } else if a > current {
                        assert(before[a].1 >= before[b].1);
                    }
                }
                assert forall|a: int, b: int| #![trigger entries@[a], entries@[b]] 0 <= a < current - 1 < b <= index implies
                    entries@[a].1 >= entries@[b].1 by {
                    if b == current {
                        assert(before[a].1 >= before[current - 1].1);
                    } else if b > current {
                        assert(before[a].1 >= before[b].1);
                    }
                }
                assert forall|k: int| 0 <= k < perm.len() implies 0 <= #[trigger] perm[k] < old(entries)@.len()
                    && entries@[k] == old(entries)@[perm[k]] by {
                    if k == current - 1 {
                        assert(perm[k] == pb[current as int]);
                    } else if k == current {
                        assert(perm[k] == pb[current - 1]);
                    } else {
                        assert(perm[k] == pb[k]);
                    }
                }
                assert forall|a: int, b: int| 0 <= a < b < perm.len() implies perm[a] != perm[b] by {
                    let sa = if a == current - 1 { current as int } else if a == current { current - 1 } else { a };
                    let sb = if b == current - 1 { current as int } else if b == current { current - 1 } else { b };
                    assert(perm[a] == pb[sa]);
                    assert(perm[b] == pb[sb]);
                    if sa < sb { assert(pb[sa] != pb[sb]); } else { assert(pb[sb] != pb[sa]); }
                }
                assert forall|k: int| 0 <= k <= index && k != current - 1 implies #[trigger] perm[k] < index by {
                    if k == current {
                        assert(perm[k] == pb[current - 1]);
                    } else {
                        assert(perm[k] == pb[k]);
                    }
                }
                assert forall|b: int| current - 1 < b <= index implies (#[trigger] entries@[b]).1 < entries@[current - 1].1 by {
                    if b == current {
                    } else {
                        assert(entries@[b] == before[b]);
                    }
                }
                assert forall|a: int, b: int| #![trigger perm[a], perm[b]] 0 <= a < b <= index && a != current - 1 && b != current - 1
                    && entries@[a].1 == entries@[b].1 implies perm[a] < perm[b] by {
                    let sa = if a == current { current - 1 } else { a };
                    let sb = if b == current { current - 1 } else { b };
                    assert(perm[a] == pb[sa] && entries@[a] == before[sa]);
                    assert(perm[b] == pb[sb] && entries@[b] == before[sb]);
                    assert(sa < sb);
                    assert(pb[sa] < pb[sb]);
                }
            }
            current = current - 1;
        }
        proof {
            assert forall|a: int, b: int| #![trigger entries@[a], entries@[b]] 0 <= a < b < index + 1 implies
                entries@[a].1 >= entries@[b].1 by {
                if a < current && b > current {
                    assert(entries@[a].1 >= entries@[b].1);
                } else if a < current && b == current {
                    assert(entries@[a].1 >= entries@[current - 1].1);
                }
            }
            assert forall|a: int, b: int| #![trigger perm[a], perm[b]] 0 <= a < b < index + 1 && entries@[a].1 == entries@[b].1
                implies perm[a] < perm[b] by {
                if a == current {
                    assert(entries@[b].1 < entries@[current as int].1);
                } else if b == current {
                    assert(perm[a] < index);
                }
            }
            assert forall|k: int| 0 <= k < index + 1 implies #[trigger] perm[k] < index + 1 by {
                if k != current {
                    assert(perm[k] < index);
                }
            }
        }
        index = index + 1;
    }
    assert(rearranges(old(entries)@, entries@, perm) && keeps_ties(entries@, perm));
}

/// The first root entry holding the table's move is searched first next time.
pub fn seed_root_tt_move(entries: &mut Vec<(Move, i32)>, tt_move: Move)
    ensures
        final(entries)@.len() == old(entries)@.len(),
        forall|k: int| 0 <= k < old(entries)@.len() ==> (#[trigger] final(entries)@[k]).0 == old(entries)@[k].0,
        tt_move.bits == 0 ==> final(entries)@ == old(entries)@,
        (forall|k: int| 0 <= k < old(entries)@.len() ==> (#[trigger] old(entries)@[k]).0.bits != tt_move.bits)
            ==> final(entries)@ == old(entries)@,
        tt_move.bits != 0 ==> forall|k: int| 0 <= k < old(entries)@.len() && old(entries)@[k].0.bits == tt_move.bits
            && (forall|j: int| 0 <= j < k ==> old(entries)@[j].0.bits != tt_move.bits)
            ==> final(entries)@ == old(entries)@.update(k, (old(entries)@[k].0, i32::MAX)),
{
    if tt_move.bits == 0 {
        return;
    }
    let mut index: usize = 0;
    while index < entries.len()
        invariant
            tt_move.bits != 0,
            index <= entries@.len(),
            entries@ == old(entries)@,
            forall|j: int| 0 <= j < index ==> entries@[j].0.bits != tt_move.bits,
        decreases entries@.len() - index,
    {
        if entries[index].0.bits == tt_move.bits {
            let mv = entries[index].0;
            entries.set(index, (mv, i32::MAX));
            proof {
                assert(old(entries)@[index as int].0.bits == tt_move.bits);
                assert forall|k: int| 0 <= k < old(entries)@.len() && old(entries)@[k].0.bits == tt_move.bits
                    && (forall|j: int| 0 <= j < k ==> old(entries)@[j].0.bits != tt_move.bits)
                    implies entries@ == old(entries)@.update(k, (old(entries)@[k].0, i32::MAX)) by {
                    assert(k == index);
                }
            }
            return;
        }
        index = index + 1;
    }
}

/// The bookkeeping of the root move loop: the best score so far, which
/// starts far below every score, and the move that reached it.
#[derive(Clone, Copy, Debug)]
pub struct RootLoop {
    pub alpha: i32,
    pub best_move: Move,
}

impl RootLoop {
    pub fn new() -> (r: Self)
        ensures
            r.alpha == i32::MIN / 2,
            r.best_move.bits == 0,
    {
        RootLoop { alpha: i32::MIN / 2, best_move: Move::null() }
    }

    /// The window of the next root move's search: from the best score so far
    /// to far above every score.
    pub fn window(&self) -> (r: (i32, i32))
        ensures
            r.0 == self.alpha && r.1 == i32::MAX / 2,
    {
        (self.alpha, i32::MAX / 2)
    }

    /// Reports a root move's score; a better one becomes the best.
    pub fn offer(&mut self, mv: Move, score: i32)
        ensures
            final(self).alpha == if score > old(self).alpha { score } else { old(self).alpha },
            final(self).best_move == if score > old(self).alpha { mv } else { old(self).best_move },
    {
        if score > self.alpha {
            self.alpha = score;
            self.best_move = mv;
        }
    }
}

/// Whether `e` holds the move to pass over.
pub open spec fn is_skipped(e: (Move, i16), skip: Option<Move>) -> bool {
    skip matches Some(m) && e.0.bits == m.bits
}

/// The first entry with the highest score among those from `from` up to `hi`.
pub open spec fn first_best(s: Seq<(Move, i16)>, from: int, hi: int) -> int
    decreases hi - from,
{
    if hi - from <= 1 {
        from
    } else {
        let b = first_best(s, from, hi - 1);
        if s[hi - 1].1 > s[b].1 { hi - 1 } else { b }
    }
}

/// The first best entry of a non-empty range lies in it.
pub proof fn lemma_first_best_range(s: Seq<(Move, i16)>, from: int, hi: int)
    requires
        from < hi,
    ensures
        from <= first_best(s, from, hi) < hi,
    decreases hi - from,
{
    if hi - from > 1 {
        lemma_first_best_range(s, from, hi - 1);
    }
}

/// One selection step: the first best entry from `from` on trades places with entry `from`.
pub open spec fn select_step(s: Seq<(Move, i16)>, from: int) -> Seq<(Move, i16)> {
    let b = first_best(s, from, s.len() as int);
    s.update(b, s[from]).update(from, s[b])
}

/// What a pick from `from` comes to: selection steps until an entry that is
/// not passed over comes up (its move, and the place after it), or the
/// entries run out.
pub open spec fn picked(s: Seq<(Move, i16)>, from: int, skip: Option<Move>) -> (Seq<(Move, i16)>, int, Option<Move>)
    decreases s.len() - from,
{
    if from < 0 || from >= s.len() {
        (s, from, None)
    } else {
        proof {
            lemma_first_best_range(s, from, s.len() as int);
        }
        let t = select_step(s, from);
        if is_skipped(t[from], skip) {
            picked(t, from + 1, skip)
        } else {
            (t, from + 1, Some(t[from].0))
        }
    }
}

/// A pick that finds nothing means every entry from `from` on is passed over.
pub proof fn lemma_picked_none_all_skipped(s: Seq<(Move, i16)>, from: int, skip: Option<Move>)
    requires
        0 <= from <= s.len(),
        picked(s, from, skip).2 is None,
    ensures
        forall|j: int| from <= j < s.len() ==> is_skipped(#[trigger] s[j], skip),
    decreases s.len() - from,
{
    if from < s.len() {
        lemma_first_best_range(s, from, s.len() as int);
        let t = select_step(s, from);
        let b = first_best(s, from, s.len() as int);
        lemma_picked_none_all_skipped(t, from + 1, skip);
        assert forall|j: int| from <= j < s.len() implies is_skipped(#[trigger] s[j], skip) by {
            if j == from {
                assert(s[j] == t[b]);
            } else if j == b {
                assert(s[j] == t[from]);
            } else {
                assert(s[j] == t[j]);
            }
        }
    }
}

/// Selection step over scored moves: the best-scored entry from `next` on
/// (the first of equals) is swapped into place `next`, and `next` moves past
/// it; entries holding `skip` are passed over. `None` when none is left.
pub fn pick_next(entries: &mut Vec<(Move, i16)>, next: &mut usize, skip: Option<Move>) -> (r: Option<Move>)
    requires
        *old(next) <= old(entries)@.len(),
    ensures
        final(entries)@.len() == old(entries)@.len(),
        final(entries)@.to_multiset() == old(entries)@.to_multiset(),
        forall|j: int| 0 <= j < *old(next) ==> #[trigger] final(entries)@[j] == old(entries)@[j],
        *old(next) <= *final(next) <= final(entries)@.len(),
        (final(entries)@, *final(next) as int, r) == picked(old(entries)@, *old(next) as int, skip),
        r is None ==> *final(next) == final(entries)@.len()
            && forall|j: int| *old(next) <= j < *final(next) ==> is_skipped(#[trigger] final(entries)@[j], skip),
        r matches Some(m) ==> {
            &&& *final(next) >= 1
            &&& *final(next) > *old(next)
            &&& final(entries)@[*final(next) - 1].0 == m
            &&& !is_skipped(final(entries)@[*final(next) - 1], skip)
            &&& forall|j: int| *final(next) - 1 <= j < final(entries)@.len() ==>
                (#[trigger] final(entries)@[j]).1 <= final(entries)@[*final(next) - 1].1
            &&& forall|j: int| *old(next) <= j < *final(next) - 1 ==> is_skipped(#[trigger] final(entries)@[j], skip)
        },
{
    let len = entries.len();
    let ghost start = *next;
    while *next < len
        invariant
            start <= *next <= len,
            start == *old(next),
            len == old(entries)@.len(),
            entries@.len() == len,
            entries@.to_multiset() == old(entries)@.to_multiset(),
            forall|j: int| 0 <= j < start ==> #[trigger] entries@[j] == old(entries)@[j],
            forall|j: int| start <= j < *next ==> is_skipped(#[trigger] entries@[j], skip),
            picked(entries@, *next as int, skip) == picked(old(entries)@, start as int, skip),
        decreases len - *next,
    {
        let from = *next;
        let mut best = from;
        let mut best_score = entries[from].1;
        let mut index = from + 1;
        while index < len
            invariant
                from < len,
                entries@.len() == len,
                from <= best < index <= len,
                best_score == entries@[best as int].1,
                forall|j: int| from <= j < index ==> (#[trigger] entries@[j]).1 <= best_score,
                best == first_best(entries@, from as int, index as int),
            decreases len - index,
        {
            if entries[index].1 > best_score {
                best = index;
                best_score = entries[index].1;
            }
            index = index + 1;
        }
        let ghost before = entries@;
        let chosen = entries[best];
        let displaced = entries[from];
        entries.set(best, displaced);
        entries.set(from, chosen);
        proof {
            lemma_swap_multiset(before, from as int, best as int);
            assert(entries@ =~= before.update(from as int, before[best as int]).update(best as int, before[from as int]));
            assert(entries@ =~= select_step(before, from as int));
            lemma_first_best_range(before, from as int, len as int);
        }
        *next = from + 1;
        let skipped = match skip {
            Some(m) => chosen.0.bits == m.bits,
            None => false,
        };
        if skipped {
            continue;
        }
        return Some(chosen.0);
    }
    None
}

/// The next move of the quiescence search, passing over `skip` (the table's
/// move, already searched): as `pick_next`.
pub fn next_qmove(entries: &mut Vec<(Move, i16)>, next: &mut usize, skip: Move) -> (r: Option<Move>)
    requires
        *old(next) <= old(entries)@.len(),
    ensures
        (final(entries)@, *final(next) as int, r) == picked(old(entries)@, *old(next) as int, Some(skip)),
        final(entries)@.len() == old(entries)@.len(),
        final(entries)@.to_multiset() == old(entries)@.to_multiset(),
        forall|j: int| 0 <= j < *old(next) ==> #[trigger] final(entries)@[j] == old(entries)@[j],
        *old(next) <= *final(next) <= final(entries)@.len(),
        r is None ==> *final(next) == final(entries)@.len()
            && forall|j: int| *old(next) <= j < *final(next) ==> (#[trigger] final(entries)@[j]).0.bits == skip.bits,
        r matches Some(m) ==> {
            &&& *final(next) >= 1
            &&& *final(next) > *old(next)
            &&& final(entries)@[*final(next) - 1].0 == m
            &&& m.bits != skip.bits
            &&& forall|j: int| *final(next) - 1 <= j < final(entries)@.len() ==>
                (#[trigger] final(entries)@[j]).1 <= final(entries)@[*final(next) - 1].1
            &&& forall|j: int| *old(next) <= j < *final(next) - 1 ==> (#[trigger] final(entries)@[j]).0.bits == skip.bits
        },
{
    let r = pick_next(entries, next, Some(skip));
    proof {
        assert forall|j: int| *old(next) <= j < *next && (r is None || j < *next - 1) implies
            (#[trigger] entries@[j]).0.bits == skip.bits by {
            assert(is_skipped(entries@[j], Some(skip)));
        }
    }
    r
}

} // verus!
