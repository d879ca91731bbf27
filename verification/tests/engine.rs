//! End-to-end runs of the search machines and the evaluation context on real
//! positions, with a small move generator written here (no castling and no en
//! passant: none of these positions needs them within the searched depth).

use std::collections::HashMap;

use nnuebie::board::Position;
use nnuebie::chess::{
    Color, ColoredPiece, Move, Piece, KIND_CAPTURE, KIND_CAPTURE_PROMOTION_KNIGHT, KIND_DOUBLE_PUSH,
    KIND_EN_PASSANT, KIND_PROMOTION_KNIGHT, KIND_QUIET,
};
use nnuebie::constants::{FEATURE_DIMS, PSQT_BUCKETS};
use nnuebie::context::NnueContext;
use nnuebie::evaluate::RawEvalOutput;
use nnuebie::network::{DenseLayer, FeatureTransformer, LayerStack, LoadedNetwork, NnueNetworks};
use nnuebie::search::alphabeta::{Bound, TtHit};
use nnuebie::search::driver::{RootAction, RootEvent, RootMachine};
use nnuebie::search::limits::SearchLimits;
use nnuebie::search::node::{MoveFacts, NodeAction, NodeEvent, NodeMachine};
use nnuebie::search::picker::{score_move, Phase};
use nnuebie::search::qnode::{QAction, QEvent, QNodeMachine};
use nnuebie::search::qsearch::{qmove_score_fits, score_qmove};
use nnuebie::search::root::SearchResult;
use nnuebie::search::selectivity::{is_quiet_move, NodeState};
use nnuebie::search::types::{mate_in, mate_score};

fn sq(text: &str) -> u16 {
    let bytes = text.as_bytes();
    (bytes[0] - b'a') as u16 + 8 * (bytes[1] - b'1') as u16
}

fn to_uci(mv: Move) -> String {
    let name = |s: u16| format!("{}{}", (b'a' + (s % 8) as u8) as char, (b'1' + (s / 8) as u8) as char);
    let mut text = format!("{}{}", name(mv.from_square()), name(mv.to_square()));
    if mv.kind() >= 8 {
        text.push(['n', 'b', 'r', 'q'][(mv.kind() % 4) as usize]);
    }
    text
}

fn board_hash(squares: &[Option<ColoredPiece>], side: Color) -> u64 {
    let mut h: u64 = 0xcbf2_9ce4_8422_2325;
    for (i, square) in squares.iter().enumerate() {
        let code: u64 = match square {
            None => 0,
            Some(p) => 1 + p.piece.index() as u64 * 2 + p.color.index() as u64,
        };
        h ^= code.wrapping_add(i as u64 * 31);
        h = h.wrapping_mul(0x1000_0000_01b3);
    }
    if side == Color::Black {
        h ^= 0x9e37_79b9_7f4a_7c15;
    }
    h
}

fn position_from_fen(fen: &str) -> Position {
    let fields: Vec<&str> = fen.split(' ').collect();
    let mut squares: Vec<Option<ColoredPiece>> = vec![None; 64];
    for (row, text) in fields[0].split('/').enumerate() {
        let rank = 7 - row;
        let mut file = 0;
        for c in text.chars() {
            if let Some(skip) = c.to_digit(10) {
                file += skip as usize;
                continue;
            }
            let color = if c.is_ascii_uppercase() { Color::White } else { Color::Black };
            let piece = match c.to_ascii_lowercase() {
                'p' => Piece::Pawn,
                'n' => Piece::Knight,
                'b' => Piece::Bishop,
                'r' => Piece::Rook,
                'q' => Piece::Queen,
                _ => Piece::King,
            };
            squares[rank * 8 + file] = Some(ColoredPiece { piece, color });
            file += 1;
        }
    }
    let side_to_move = if fields[1] == "w" { Color::White } else { Color::Black };
    let rule50 = fields.get(4).map(|t| t.parse().unwrap()).unwrap_or(0);
    let hash = board_hash(&squares, side_to_move);
    Position { squares, side_to_move, rule50, hash }
}

fn make_move(position: &Position, mv: Move) -> Position {
    let mut squares = position.squares.clone();
    let from = mv.from_square() as usize;
    let to = mv.to_square() as usize;
    let kind = mv.kind();
    let moved = squares[from].unwrap();
    squares[from] = None;
    if kind >= 8 {
        let piece = [Piece::Knight, Piece::Bishop, Piece::Rook, Piece::Queen][(kind % 4) as usize];
        squares[to] = Some(ColoredPiece { piece, color: moved.color });
    } else {
        squares[to] = Some(moved);
    }
    let side_to_move = position.side_to_move.flip();
    let hash = board_hash(&squares, side_to_move);
    Position { squares, side_to_move, rule50: position.rule50 + 1, hash }
}

const KNIGHT_STEPS: [(i32, i32); 8] = [(1, 2), (2, 1), (2, -1), (1, -2), (-1, -2), (-2, -1), (-2, 1), (-1, 2)];
const KING_STEPS: [(i32, i32); 8] = [(1, 0), (1, 1), (0, 1), (-1, 1), (-1, 0), (-1, -1), (0, -1), (1, -1)];
const ROOK_RAYS: [(i32, i32); 4] = [(1, 0), (-1, 0), (0, 1), (0, -1)];
const BISHOP_RAYS: [(i32, i32); 4] = [(1, 1), (1, -1), (-1, 1), (-1, -1)];

fn square_at(file: i32, rank: i32) -> Option<usize> {
    if (0..8).contains(&file) && (0..8).contains(&rank) {
        Some((rank * 8 + file) as usize)
    } else {
        None
    }
}

fn is(squares: &[Option<ColoredPiece>], at: usize, piece: Piece, color: Color) -> bool {
    squares[at] == Some(ColoredPiece { piece, color })
}

/// Whether `by` attacks `target`.
fn attacked(squares: &[Option<ColoredPiece>], target: usize, by: Color) -> bool {
    let (f, r) = ((target % 8) as i32, (target / 8) as i32);
    let pawn_rank = if by == Color::White { r - 1 } else { r + 1 };
    for df in [-1, 1] {
        if let Some(s) = square_at(f + df, pawn_rank) {
            if is(squares, s, Piece::Pawn, by) {
                return true;
            }
        }
    }
    for (df, dr) in KNIGHT_STEPS {
        if let Some(s) = square_at(f + df, r + dr) {
            if is(squares, s, Piece::Knight, by) {
                return true;
            }
        }
    }
    for (df, dr) in KING_STEPS {
        if let Some(s) = square_at(f + df, r + dr) {
            if is(squares, s, Piece::King, by) {
                return true;
            }
        }
    }
    for (rays, slider) in [(ROOK_RAYS, Piece::Rook), (BISHOP_RAYS, Piece::Bishop)] {
        for (df, dr) in rays {
            let (mut x, mut y) = (f + df, r + dr);
            while let Some(s) = square_at(x, y) {
                if let Some(p) = squares[s] {
                    if p.color == by && (p.piece == slider || p.piece == Piece::Queen) {
                        return true;
                    }
                    break;
                }
                x += df;
                y += dr;
            }
        }
    }
    false
}

fn king_square(squares: &[Option<ColoredPiece>], color: Color) -> usize {
    (0..64).find(|&s| is(squares, s, Piece::King, color)).expect("a king")
}

fn in_check(position: &Position) -> bool {
    let side = position.side_to_move;
    attacked(&position.squares, king_square(&position.squares, side), side.flip())
}

fn pseudo_moves(position: &Position) -> Vec<Move> {
    let side = position.side_to_move;
    let squares = &position.squares;
    let mut moves = Vec::new();
    let mut add = |from: usize, to: usize, kind: u16| moves.push(Move::new(from as u16, to as u16, kind));
    for from in 0..64 {
        let Some(p) = squares[from] else { continue };
        if p.color != side {
            continue;
        }
        let (f, r) = ((from % 8) as i32, (from / 8) as i32);
        let target_kind = |to: usize| match squares[to] {
            None => Some(KIND_QUIET),
            Some(q) if q.color != side && q.piece != Piece::King => Some(KIND_CAPTURE),
            _ => None,
        };
        match p.piece {
            Piece::Pawn => {
                let dir = if side == Color::White { 1 } else { -1 };
                let last = if side == Color::White { 7 } else { 0 };
                let start = if side == Color::White { 1 } else { 6 };
                if let Some(one) = square_at(f, r + dir) {
                    if squares[one].is_none() {
                        if r + dir == last {
                            for k in 0..4 {
                                add(from, one, KIND_PROMOTION_KNIGHT + k);
                            }
                        } else {
                            add(from, one, KIND_QUIET);
                            if r == start {
                                let two = square_at(f, r + 2 * dir).unwrap();
                                if squares[two].is_none() {
                                    add(from, two, KIND_DOUBLE_PUSH);
                                }
                            }
                        }
                    }
                }
                for df in [-1, 1] {
                    if let Some(to) = square_at(f + df, r + dir) {
                        if target_kind(to) == Some(KIND_CAPTURE) {
                            if r + dir == last {
                                for k in 0..4 {
                                    add(from, to, KIND_CAPTURE_PROMOTION_KNIGHT + k);
                                }
                            } else {
                                add(from, to, KIND_CAPTURE);
                            }
                        }
                    }
                }
            }
            Piece::Knight | Piece::King => {
                let steps = if p.piece == Piece::Knight { KNIGHT_STEPS } else { KING_STEPS };
                for (df, dr) in steps {
                    if let Some(to) = square_at(f + df, r + dr) {
                        if let Some(kind) = target_kind(to) {
                            add(from, to, kind);
                        }
                    }
                }
            }
            Piece::Bishop | Piece::Rook | Piece::Queen => {
                let mut rays = Vec::new();
                if p.piece != Piece::Bishop {
                    rays.extend(ROOK_RAYS);
                }
                if p.piece != Piece::Rook {
                    rays.extend(BISHOP_RAYS);
                }
                for (df, dr) in rays {
                    let (mut x, mut y) = (f + df, r + dr);
                    while let Some(to) = square_at(x, y) {
                        match target_kind(to) {
                            Some(KIND_QUIET) => add(from, to, KIND_QUIET),
                            Some(kind) => {
                                add(from, to, kind);
                                break;
                            }
                            None => break,
                        }
                        x += df;
                        y += dr;
                    }
                }
            }
        }
    }
    moves
}

fn legal_moves(position: &Position) -> Vec<Move> {
    let side = position.side_to_move;
    pseudo_moves(position)
        .into_iter()
        .filter(|&mv| {
            let after = make_move(position, mv);
            !attacked(&after.squares, king_square(&after.squares, side), side.flip())
        })
        .collect()
}

fn is_tactical(mv: Move) -> bool {
    let kind = mv.kind();
    kind == KIND_CAPTURE || kind == KIND_EN_PASSANT || kind >= 8
}

fn value(piece: Piece) -> i32 {
    match piece {
        Piece::Pawn => 100,
        Piece::Knight => 320,
        Piece::Bishop => 330,
        Piece::Rook => 500,
        Piece::Queen => 900,
        Piece::King => 0,
    }
}

/// Material, scaled up as material comes off the board (so that the side
/// ahead likes trades and the side behind avoids them), plus a small bonus
/// for centralised pieces; from the side to move's view.
fn evaluate(position: &Position) -> i32 {
    let (mut balance, mut total, mut centre) = (0, 0, 0);
    for (at, square) in position.squares.iter().enumerate() {
        if let Some(p) = square {
            let (f, r) = ((at % 8) as i32, (at / 8) as i32);
            let distance = (if f < 4 { 3 - f } else { f - 4 }).max(if r < 4 { 3 - r } else { r - 4 });
            let bonus = if p.piece == Piece::Pawn || p.piece == Piece::King { 0 } else { 5 * (3 - distance) };
            let sign = if p.color == position.side_to_move { 1 } else { -1 };
            balance += sign * value(p.piece);
            centre += sign * bonus;
            total += value(p.piece);
        }
    }
    balance + balance * (8_000 - total) / 16_000 + centre
}

/// Whether the capture `mv` does not lose material: it takes at least as much
/// as it risks, or its target square is not defended.
fn see_not_losing(position: &Position, mv: Move) -> bool {
    let from = mv.from_square() as usize;
    let to = mv.to_square() as usize;
    let attacker = position.squares[from].map_or(Piece::Pawn, |p| p.piece);
    let Some(victim) = position.squares[to] else { return true };
    if value(victim.piece) >= value(attacker) {
        return true;
    }
    let after = make_move(position, mv);
    !attacked(&after.squares, to, position.side_to_move.flip())
}

/// The parts of a position a search touches besides its board.
struct Runner {
    positions: Vec<Position>,
    table: HashMap<u64, TtHit>,
}

impl Runner {
    fn new(position: Position) -> Runner {
        Runner { positions: vec![position], table: HashMap::new() }
    }

    fn pos(&self) -> &Position {
        self.positions.last().unwrap()
    }

    fn make(&mut self, mv: Move) {
        let next = make_move(self.pos(), mv);
        self.positions.push(next);
    }

    fn unmake(&mut self) {
        self.positions.pop();
    }

    fn make_null(&mut self) {
        let current = self.pos();
        let side_to_move = current.side_to_move.flip();
        let squares = current.squares.clone();
        let hash = board_hash(&squares, side_to_move);
        self.positions.push(Position { squares, side_to_move, rule50: current.rule50, hash });
    }

    fn store(&mut self, mv: Move, score: i32, static_eval: i16, depth: u8, bound: Bound) {
        let hash = self.pos().hash;
        self.table.insert(hash, TtHit { best_move: mv, static_eval, depth, bound, score });
    }

    fn pieces(&self, mv: Move) -> (Piece, Piece) {
        let pos = self.pos();
        let attacker = pos.squares[mv.from_square() as usize].map_or(Piece::Pawn, |p| p.piece);
        let captured = pos.squares[mv.to_square() as usize].map_or(Piece::Pawn, |p| p.piece);
        (attacker, captured)
    }

    fn stage(&self, phase: Phase) -> Vec<(Move, i16)> {
        let moves = legal_moves(self.pos());
        let chosen: Vec<Move> = match phase {
            Phase::Captures => moves.into_iter().filter(|&m| is_tactical(m)).collect(),
            Phase::Quiets => moves.into_iter().filter(|&m| !is_tactical(m)).collect(),
            _ => moves,
        };
        chosen
            .into_iter()
            .map(|mv| {
                let score = if phase == Phase::Quiets {
                    0
                } else {
                    let (attacker, captured) = self.pieces(mv);
                    score_move(mv, attacker, captured, see_not_losing(self.pos(), mv), 0)
                };
                (mv, score)
            })
            .collect()
    }

    fn run_node(&mut self, depth: u8, node: NodeState, alpha: i32, beta: i32) -> i32 {
        let (mut machine, mut action) = NodeMachine::new(depth, node, alpha, beta);
        loop {
            let event = match action {
                NodeAction::Return(score) => return score,
                NodeAction::Abort => unreachable!("nothing interrupts this search"),
                NodeAction::Enter => NodeEvent::Entered { draw: false },
                NodeAction::Qsearch { ply, alpha, beta } => NodeEvent::Score(self.run_qnode(ply, alpha, beta)),
                NodeAction::ProbeTt => NodeEvent::Tt(self.table.get(&self.pos().hash).copied()),
                NodeAction::Analyze => {
                    let pos = self.pos();
                    let side = pos.side_to_move;
                    let non_pawn_material = pos.squares.iter().flatten().any(|p| {
                        p.color == side && p.piece != Piece::Pawn && p.piece != Piece::King
                    });
                    NodeEvent::Analysis { in_check: in_check(pos), non_pawn_material }
                }
                NodeAction::Evaluate { stored } => {
                    NodeEvent::Eval { raw: stored.unwrap_or_else(|| evaluate(self.pos())), correction: 0 }
                }
                NodeAction::MakeNull => {
                    self.make_null();
                    NodeEvent::Done
                }
                NodeAction::UnmakeNull | NodeAction::Unmake(_) => {
                    self.unmake();
                    NodeEvent::Done
                }
                NodeAction::Make(mv) => {
                    self.make(mv);
                    NodeEvent::Done
                }
                NodeAction::Search { depth, node, alpha, beta } => {
                    NodeEvent::Score(self.run_node(depth, node, alpha, beta))
                }
                NodeAction::ProbcutCaptures => {
                    let pos = self.pos();
                    let list = legal_moves(pos)
                        .into_iter()
                        .filter(|&m| is_tactical(m))
                        .map(|m| (m, see_not_losing(pos, m)))
                        .collect();
                    NodeEvent::ProbcutMoves(list)
                }
                NodeAction::LoadStage(phase) => NodeEvent::StageMoves(self.stage(phase)),
                NodeAction::CheckQuiets(mv) => {
                    NodeEvent::QuietsContain(legal_moves(self.pos()).into_iter().any(|m| m == mv && !is_tactical(m)))
                }
                NodeAction::Describe(mv) => {
                    let quiet = is_quiet_move(mv);
                    let (moved, on_target) = self.pieces(mv);
                    let maybe_check = quiet && in_check(&make_move(self.pos(), mv));
                    NodeEvent::Facts(MoveFacts {
                        maybe_check,
                        history_score: 0,
                        moved,
                        on_target,
                        see_not_losing: see_not_losing(self.pos(), mv),
                    })
                }
                NodeAction::CutoffHistory { .. } | NodeAction::UpdateCorrection { .. } => NodeEvent::Done,
                NodeAction::Store { mv, score, static_eval, depth, bound } => {
                    self.store(mv, score, static_eval, depth, bound);
                    NodeEvent::Done
                }
            };
            action = machine.resume(event);
        }
    }

    fn run_qnode(&mut self, ply: u8, alpha: i32, beta: i32) -> i32 {
        let mut machine = QNodeMachine::new(ply, alpha, beta);
        let mut action = QAction::Enter;
        loop {
            let event = match action {
                QAction::Return(score) => return score,
                QAction::Abort => unreachable!("nothing interrupts this search"),
                QAction::Enter => QEvent::Entered { draw: false },
                QAction::ProbeTt => QEvent::Tt(self.table.get(&self.pos().hash).copied()),
                QAction::Analyze => QEvent::Analysis { in_check: in_check(self.pos()) },
                QAction::Evaluate => QEvent::Eval { raw: evaluate(self.pos()) },
                QAction::GenerateCaptures | QAction::GenerateEvasions => {
                    let evasions = matches!(action, QAction::GenerateEvasions);
                    let moves = legal_moves(self.pos())
                        .into_iter()
                        .filter(|&m| evasions || is_tactical(m))
                        .map(|m| {
                            let (attacker, captured) = self.pieces(m);
                            assert!(qmove_score_fits(m, attacker, captured), "quiescence move score out of 16-bit range");
                            (m, score_qmove(m, attacker, captured))
                        })
                        .collect();
                    QEvent::Moves(moves)
                }
                QAction::Describe(mv) => {
                    let (_, captured) = self.pieces(mv);
                    QEvent::Facts { captured, see_not_losing: see_not_losing(self.pos(), mv) }
                }
                QAction::Make(mv) => {
                    self.make(mv);
                    QEvent::Done
                }
                QAction::Unmake(_) => {
                    self.unmake();
                    QEvent::Done
                }
                QAction::Search { ply, alpha, beta } => QEvent::Score(self.run_qnode(ply, alpha, beta)),
                QAction::Store { mv, score, static_eval, bound } => {
                    self.store(mv, score, static_eval, 0, bound);
                    QEvent::Done
                }
            };
            action = machine.resume(event);
        }
    }

    fn search(&mut self, limits: SearchLimits) -> SearchResult {
        let mut machine = RootMachine::new(limits.depth);
        let mut action = RootAction::GenerateMoves;
        loop {
            let event = match action {
                RootAction::Finish { best_move, score, depth } => {
                    return SearchResult { best_move, score, depth, nodes: 0, time_ms: 0 };
                }
                RootAction::GenerateMoves => {
                    RootEvent::RootMoves { moves: legal_moves(self.pos()), in_check: in_check(self.pos()) }
                }
                RootAction::ProbeTt => RootEvent::Tt(self.table.get(&self.pos().hash).copied()),
                RootAction::Evaluate => RootEvent::Eval(evaluate(self.pos())),
                RootAction::CheckStop | RootAction::CheckDeadline => RootEvent::Stop(false),
                RootAction::Make(mv) => {
                    self.make(mv);
                    RootEvent::Done
                }
                RootAction::Unmake(_) => {
                    self.unmake();
                    RootEvent::Done
                }
                RootAction::Search { depth, node, alpha, beta } => {
                    RootEvent::Score(self.run_node(depth, node, alpha, beta))
                }
                RootAction::Report { .. } => RootEvent::Done,
            };
            action = machine.resume(event);
        }
    }
}

fn search(fen: &str, depth: u8) -> SearchResult {
    Runner::new(position_from_fen(fen)).search(SearchLimits::depth(depth))
}

#[test]
fn depth_one_finds_mate_in_one() {
    let result = search("7k/6Q1/6K1/8/8/8/8/8 w - - 0 1", 1);

    assert_eq!(mate_in(result.score), Some(1));
}

#[test]
fn depth_one_prefers_winning_the_queen() {
    let result = search("4k3/8/8/6b1/8/8/3q4/3RK3 w - - 0 1", 1);

    assert_eq!(to_uci(result.best_move.unwrap()), "d1d2");
}

#[test]
fn depth_two_still_finds_mate_in_one() {
    let result = search("7k/6Q1/6K1/8/8/8/8/8 w - - 0 1", 2);

    assert_eq!(mate_in(result.score), Some(1));
}

#[test]
fn depth_one_avoids_poisoned_queen_capture_with_qsearch() {
    let result = search("7k/8/8/8/8/4b3/3q4/3Q3K w - - 0 1", 1);

    assert_ne!(to_uci(result.best_move.unwrap()), "d1d2");
    assert!(result.score < 0);
}

#[test]
fn root_tt_move_is_validated_before_use() {
    let position = position_from_fen("rnbqkbnr/pppppppp/8/8/8/8/PPPPPPPP/RNBQKBNR w KQkq - 0 1");
    let bogus = Move::new(sq("a3"), sq("a4"), KIND_QUIET);
    let mut runner = Runner::new(position);
    runner.store(bogus, 0, i16::MIN, 1, Bound::Exact);

    let result = runner.search(SearchLimits::depth(1));

    assert_ne!(result.best_move, Some(bogus));
}

#[test]
fn stalemate_and_checkmate_at_the_root_end_the_search_at_once() {
    let stalemate = search("7k/5Q2/6K1/8/8/8/8/8 b - - 0 1", 3);
    assert_eq!((stalemate.best_move, stalemate.score, stalemate.depth), (None, 0, 0));

    let mated = search("7k/6Q1/6K1/8/8/8/8/8 b - - 0 1", 3);
    assert_eq!((mated.best_move, mated.score, mated.depth), (None, -mate_score(0), 0));
}

struct Lcg(u64);

impl Lcg {
    fn next(&mut self, lo: i64, hi: i64) -> i64 {
        self.0 = self.0.wrapping_mul(6_364_136_223_846_793_005).wrapping_add(1_442_695_040_888_963_407);
        lo + ((self.0 >> 33) as i64).rem_euclid(hi - lo + 1)
    }
}

fn dense(rng: &mut Lcg, inputs: usize, outputs: usize) -> DenseLayer {
    let padded = (inputs + 31) / 32 * 32;
    DenseLayer {
        input_dims: inputs,
        padded_input_dims: padded,
        output_dims: outputs,
        biases: (0..outputs).map(|_| rng.next(-2_000, 2_000) as i32).collect(),
        weights: (0..outputs * padded).map(|_| rng.next(-40, 40) as i8).collect(),
    }
}

fn synthetic_network(seed: u64, half: usize) -> LoadedNetwork {
    let mut rng = Lcg(seed);
    let feature_transformer = FeatureTransformer {
        biases: (0..half).map(|_| rng.next(0, 90) as i16).collect(),
        weights: (0..FEATURE_DIMS * half).map(|_| rng.next(-30, 30) as i16).collect(),
        psqt_weights: (0..FEATURE_DIMS * PSQT_BUCKETS).map(|_| rng.next(-3_000, 3_000) as i32).collect(),
    };
    let layer_stacks = (0..8)
        .map(|_| LayerStack { fc0: dense(&mut rng, half, 16), fc1: dense(&mut rng, 30, 32), fc2: dense(&mut rng, 32, 1) })
        .collect();
    LoadedNetwork { half_dims: half, feature_transformer, layer_stacks }
}

fn assert_incremental_matches_full(networks: &NnueNetworks, position: &Position, incremental_ctx: &mut NnueContext) {
    let incremental: RawEvalOutput = networks.evaluate_raw_output(position, incremental_ctx).unwrap();
    let incremental_raw = networks.evaluate_raw(position, incremental_ctx).unwrap();

    let mut full_ctx = NnueContext::new();
    networks.reset_context(position, &mut full_ctx);
    let full = networks.evaluate_raw_output(position, &mut full_ctx).unwrap();
    let full_raw = networks.evaluate_raw(position, &mut full_ctx).unwrap();

    assert_eq!(incremental.psqt, full.psqt);
    assert_eq!(incremental.positional, full.positional);
    assert_eq!(incremental.final_raw, full.final_raw);
    assert_eq!(incremental.final_raw, incremental_raw);
    assert_eq!(full.final_raw, full_raw);
    assert_eq!(incremental.used_smallnet, full.used_smallnet);
}

fn walk_limited_tree(
    networks: &NnueNetworks,
    position: &Position,
    incremental_ctx: &mut NnueContext,
    depth: usize,
    branch_limit: usize,
) {
    assert_incremental_matches_full(networks, position, incremental_ctx);

    if depth == 0 {
        return;
    }

    for mv in legal_moves(position).into_iter().take(branch_limit) {
        incremental_ctx.push_move(position, mv);
        let next = make_move(position, mv);
        walk_limited_tree(networks, &next, incremental_ctx, depth - 1, branch_limit);
        incremental_ctx.pop();
    }
}

#[test]
fn incremental_matches_full_on_limited_startpos_tree() {
    let networks = NnueNetworks { big: synthetic_network(17, 16), small: synthetic_network(91, 8) };
    let position = position_from_fen("rnbqkbnr/pppppppp/8/8/8/8/PPPPPPPP/RNBQKBNR w KQkq - 0 1");
    let mut incremental_ctx = NnueContext::new();
    networks.reset_context(&position, &mut incremental_ctx);

    walk_limited_tree(&networks, &position, &mut incremental_ctx, 3, 6);
}
