use nnuebie::accumulator::full_refresh_side;
use nnuebie::board::Position;
use nnuebie::chess::{
    Color, ColoredPiece, Move, Piece, KIND_CAPTURE, KIND_CAPTURE_PROMOTION_QUEEN, KIND_CASTLE,
    KIND_EN_PASSANT, KIND_PROMOTION_QUEEN, KIND_QUIET, NO_SQUARE,
};
use nnuebie::constants::{BIG_NETWORK_HASH, FEATURE_DIMS, PSQT_BUCKETS, SMALL_NETWORK_HASH};
use nnuebie::context::{castle_rook_squares, move_is_applicable, slot_index, DirtyPiece, NnueContext};
use nnuebie::evaluate::RawEvalOutput;
use nnuebie::features::{enumerate_active_features, push_perspective_features};
use nnuebie::network::{DenseLayer, FeatureTransformer, LayerStack, LoadedNetwork, NnueNetworks};

fn sq(text: &str) -> u16 {
    let bytes = text.as_bytes();
    (bytes[0] - b'a') as u16 + 8 * (bytes[1] - b'1') as u16
}

fn board_hash(squares: &[Option<ColoredPiece>], side: Color) -> u64 {
    let mut h: u64 = 0xcbf2_9ce4_8422_2325;
    for (i, square) in squares.iter().enumerate() {
        let code: u64 = match square {
            None => 0,
            Some(p) => 1 + p.piece.index() as u64 * 2 + p.color.index() as u64,
        };
        h ^= code.wrapping_add(i as u64 * 31);
        h = h.wrapping_mul(0x1000_0000_01b3);
    }
    if side == Color::Black {
        h ^= 0x9e37_79b9_7f4a_7c15;
    }
    h
}

fn position_from_fen(fen: &str) -> Position {
    let fields: Vec<&str> = fen.split(' ').collect();
    let mut squares: Vec<Option<ColoredPiece>> = vec![None; 64];
    for (row, text) in fields[0].split('/').enumerate() {
        let rank = 7 - row;
        let mut file = 0;
        for c in text.chars() {
            if let Some(skip) = c.to_digit(10) {
                file += skip as usize;
                continue;
            }
            let color = if c.is_ascii_uppercase() { Color::White } else { Color::Black };
            let piece = match c.to_ascii_lowercase() {
                'p' => Piece::Pawn,
                'n' => Piece::Knight,
                'b' => Piece::Bishop,
                'r' => Piece::Rook,
                'q' => Piece::Queen,
                _ => Piece::King,
            };
            squares[rank * 8 + file] = Some(ColoredPiece { piece, color });
            file += 1;
        }
    }
    let side_to_move = if fields[1] == "w" { Color::White } else { Color::Black };
    let rule50 = fields.get(4).map(|t| t.parse().unwrap()).unwrap_or(0);
    let hash = board_hash(&squares, side_to_move);
    Position { squares, side_to_move, rule50, hash }
}

fn make_move(position: &Position, mv: Move) -> Position {
    let mut squares = position.squares.clone();
    let from = mv.from_square() as usize;
    let to = mv.to_square() as usize;
    let kind = mv.kind();
    let moved = squares[from].unwrap();
    squares[from] = None;
    if kind == KIND_EN_PASSANT {
        let behind = if moved.color == Color::White { to - 8 } else { to + 8 };
        squares[behind] = None;
        squares[to] = Some(moved);
    } else if kind == KIND_CASTLE {
        let (rook_from, rook_to) = castle_rook_squares(to as u8);
        let rook = squares[rook_from as usize].take();
        squares[rook_to as usize] = rook;
        squares[to] = Some(moved);
    } else if kind >= 8 {
        let piece = match kind % 4 {
            0 => Piece::Knight,
            1 => Piece::Bishop,
            2 => Piece::Rook,
            _ => Piece::Queen,
        };
        squares[to] = Some(ColoredPiece { piece, color: moved.color });
    } else {
        squares[to] = Some(moved);
    }
    let side_to_move = position.side_to_move.flip();
    let hash = board_hash(&squares, side_to_move);
    Position { squares, side_to_move, rule50: position.rule50 + 1, hash }
}

struct Lcg(u64);

impl Lcg {
    fn next(&mut self, lo: i64, hi: i64) -> i64 {
        self.0 = self.0.wrapping_mul(6_364_136_223_846_793_005).wrapping_add(1_442_695_040_888_963_407);
        lo + ((self.0 >> 33) as i64).rem_euclid(hi - lo + 1)
    }
}

fn dense(rng: &mut Lcg, inputs: usize, outputs: usize) -> DenseLayer {
    let padded = (inputs + 31) / 32 * 32;
    DenseLayer {
        input_dims: inputs,
        padded_input_dims: padded,
        output_dims: outputs,
        biases: (0..outputs).map(|_| rng.next(-2_000, 2_000) as i32).collect(),
        weights: (0..outputs * padded).map(|_| rng.next(-40, 40) as i8).collect(),
    }
}

fn synthetic_network(seed: u64, half: usize) -> LoadedNetwork {
    let mut rng = Lcg(seed);
    let feature_transformer = FeatureTransformer {
        biases: (0..half).map(|_| rng.next(0, 90) as i16).collect(),
        weights: (0..FEATURE_DIMS * half).map(|_| rng.next(-30, 30) as i16).collect(),
        psqt_weights: (0..FEATURE_DIMS * PSQT_BUCKETS).map(|_| rng.next(-3_000, 3_000) as i32).collect(),
    };
    let layer_stacks = (0..8)
        .map(|_| LayerStack { fc0: dense(&mut rng, half, 16), fc1: dense(&mut rng, 30, 32), fc2: dense(&mut rng, 32, 1) })
        .collect();
    LoadedNetwork { half_dims: half, feature_transformer, layer_stacks }
}

fn synthetic_networks() -> NnueNetworks {
    NnueNetworks { big: synthetic_network(17, 16), small: synthetic_network(91, 8) }
}

fn assert_incremental_matches_full(networks: &NnueNetworks, position: &Position, incremental_ctx: &mut NnueContext) {
    let incremental: RawEvalOutput = networks.evaluate_raw_output(position, incremental_ctx).unwrap();
    let incremental_raw = networks.evaluate_raw(position, incremental_ctx).unwrap();

    let mut full_ctx = NnueContext::new();
    networks.reset_context(position, &mut full_ctx);
    let full = networks.evaluate_raw_output(position, &mut full_ctx).unwrap();
    let full_raw = networks.evaluate_raw(position, &mut full_ctx).unwrap();

    assert_eq!(incremental.psqt, full.psqt);
    assert_eq!(incremental.positional, full.positional);
    assert_eq!(incremental.final_raw, full.final_raw);
    assert_eq!(incremental.final_raw, incremental_raw);
    assert_eq!(full.final_raw, full_raw);
    assert_eq!(incremental.used_smallnet, full.used_smallnet);
}

#[test]
fn dirty_piece_extracts_capture_promotion() {
    let position = position_from_fen("1r2k3/P7/8/8/8/8/8/4K3 w - - 0 1");
    let dirty = DirtyPiece::from_move(&position, Move::new(sq("a7"), sq("b8"), KIND_CAPTURE_PROMOTION_QUEEN));

    assert_eq!(dirty.len, 3);
    assert_eq!(dirty.pieces[0], ColoredPiece { piece: Piece::Pawn, color: Color::White });
    assert_eq!(dirty.from[0], sq("a7") as u8);
    assert_eq!(dirty.to[0], NO_SQUARE);
    assert_eq!(dirty.from[1], sq("b8") as u8);
    assert_eq!(dirty.to[1], NO_SQUARE);
    assert_eq!(dirty.pieces[2], ColoredPiece { piece: Piece::Queen, color: Color::White });
    assert_eq!(dirty.from[2], NO_SQUARE);
    assert_eq!(dirty.to[2], sq("b8") as u8);
}

#[test]
fn dirty_piece_extracts_castle_rook_move() {
    let position = position_from_fen("r3k2r/8/8/8/8/8/8/R3K2R w KQkq - 0 1");
    let dirty = DirtyPiece::from_move(&position, Move::new(sq("e1"), sq("g1"), KIND_CASTLE));

    assert_eq!(dirty.len, 2);
    assert_eq!(dirty.from[0], sq("e1") as u8);
    assert_eq!(dirty.to[0], sq("g1") as u8);
    assert_eq!(dirty.from[1], sq("h1") as u8);
    assert_eq!(dirty.to[1], sq("f1") as u8);
}

#[test]
fn dirty_piece_extracts_en_passant_capture_square() {
    let position = position_from_fen("8/8/8/3pP3/8/8/8/4K2k w - d6 0 1");
    let dirty = DirtyPiece::from_move(&position, Move::new(sq("e5"), sq("d6"), KIND_EN_PASSANT));

    assert_eq!(dirty.len, 2);
    assert_eq!(dirty.from[1], sq("d5") as u8);
    assert_eq!(dirty.to[1], NO_SQUARE);
}

#[test]
fn king_move_requires_refresh_for_matching_perspective() {
    let position = position_from_fen("r3k2r/8/8/8/8/8/8/R3K2R w KQkq - 0 1");
    let dirty = DirtyPiece::from_move(&position, Move::new(sq("e1"), sq("g1"), KIND_CASTLE));

    assert!(dirty.requires_refresh(Color::White));
    assert!(!dirty.requires_refresh(Color::Black));
}

#[test]
fn plain_capture_removes_the_captured_piece() {
    let position = position_from_fen("4k3/8/8/3p4/4N3/8/8/4K3 w - - 0 1");
    let dirty = DirtyPiece::from_move(&position, Move::new(sq("e4"), sq("d5"), KIND_CAPTURE));

    assert_eq!(dirty.len, 2);
    assert_eq!(dirty.pieces[0], ColoredPiece { piece: Piece::Knight, color: Color::White });
    assert_eq!(dirty.pieces[1], ColoredPiece { piece: Piece::Pawn, color: Color::Black });
    assert_eq!((dirty.from[1], dirty.to[1]), (sq("d5") as u8, NO_SQUARE));
    assert!(!dirty.requires_refresh(Color::White));
}

#[test]
fn startpos_enumerates_32_features_per_perspective() {
    let position = position_from_fen("rnbqkbnr/pppppppp/8/8/8/8/PPPPPPPP/RNBQKBNR w KQkq - 0 1");
    let (indices, piece_count) = enumerate_active_features(&position);

    assert_eq!(piece_count, 32);
    assert_eq!([indices[0].len(), indices[1].len()], [32, 32]);
}

#[test]
fn position_inputs_count_pieces_and_find_kings() {
    let networks = synthetic_networks();
    let position = position_from_fen("r1bq1rk1/ppp1npbp/2np2p1/4p3/2P4N/2NP2P1/PP2PPBP/R1BQ1RK1 w - - 0 1");
    let inputs = networks.position_inputs(&position);

    assert_eq!(inputs.piece_count, 32);
    assert_eq!(inputs.white_king, sq("g1") as u8);
    assert_eq!(inputs.black_king, sq("g8") as u8);
    assert_eq!(inputs.side_to_move, Color::White);
}

#[test]
fn phase1_reads_core_position_directly() {
    let position = position_from_fen("rnbqkbnr/pppppppp/8/8/8/8/PPPPPPPP/RNBQKBNR w KQkq - 0 1");
    let networks = synthetic_networks();
    let inputs = networks.position_inputs(&position);

    assert_eq!(inputs.side_to_move, Color::White);
    assert_eq!(inputs.rule50, 0);
    assert_eq!(inputs.piece_count, 32);
    assert_eq!(inputs.white_king, 4);
    assert_eq!(inputs.black_king, 60);

    assert_eq!(BIG_NETWORK_HASH, 0x1c10_20f2);
    assert_eq!(SMALL_NETWORK_HASH, 0x1c10_3c92);
}

#[test]
fn finny_refresh_matches_full_refresh_on_reused_root_context() {
    let networks = synthetic_networks();
    let fens = [
        "rnbqkbnr/pppppppp/8/8/8/8/PPPPPPPP/RNBQKBNR w KQkq - 0 1",
        "r3k2r/8/8/8/8/8/8/R3K2R w KQkq - 0 1",
        "4k3/8/8/8/8/8/8/4K3 w - - 0 1",
        "8/8/3k4/8/8/4K3/8/8 w - - 0 1",
        "r1bq1rk1/ppp1npbp/2np2p1/4p3/2P4N/2NP2P1/PP2PPBP/R1BQ1RK1 w - - 0 1",
        "r1bq1rk1/1pp2pbN/2np4/4p3/7N/3P2P1/1P2PPBP/R1BQ1RK1 w - - 0 1",
    ];
    let mut ctx = NnueContext::new();

    for fen in fens {
        let position = position_from_fen(fen);
        networks.reset_context(&position, &mut ctx);

        for (net, network) in [(0usize, &networks.big), (1usize, &networks.small)] {
            for (p, color) in [(0usize, Color::White), (1usize, Color::Black)] {
                let king = networks.position_inputs(&position);
                let king = if p == 0 { king.white_king } else { king.black_king };
                let features = push_perspective_features(color, &position.squares, king);
                let half = network.half_dims;
                let mut accumulation = vec![0i16; half];
                let mut psqt = vec![0i32; PSQT_BUCKETS];
                full_refresh_side(&network.feature_transformer, half, &features, &mut accumulation, &mut psqt);
                let side = &ctx.sides[slot_index(0, net, p)];
                assert_eq!(side.accumulation, accumulation, "{fen} accum");
                assert_eq!(side.psqt, psqt, "{fen} psqt");
            }
        }
    }
}

#[test]
fn incremental_matches_full_on_castle_en_passant_and_promotion_sequences() {
    let networks = synthetic_networks();
    let sequences = [
        ("castle", "r3k2r/8/8/8/8/8/8/R3K2R w KQkq - 0 1", vec![Move::new(sq("e1"), sq("g1"), KIND_CASTLE)]),
        ("en-passant", "8/8/8/3pP3/8/8/8/4K2k w - d6 0 1", vec![Move::new(sq("e5"), sq("d6"), KIND_EN_PASSANT)]),
        ("promotion", "4k3/P7/8/8/8/8/8/4K3 w - - 0 1", vec![Move::new(sq("a7"), sq("a8"), KIND_PROMOTION_QUEEN)]),
        (
            "capture-promotion",
            "1r2k3/P7/8/8/8/8/8/4K3 w - - 0 1",
            vec![Move::new(sq("a7"), sq("b8"), KIND_CAPTURE_PROMOTION_QUEEN)],
        ),
    ];

    for (_name, fen, sequence) in sequences {
        let mut position = position_from_fen(fen);
        let mut incremental_ctx = NnueContext::new();
        networks.reset_context(&position, &mut incremental_ctx);
        assert_incremental_matches_full(&networks, &position, &mut incremental_ctx);

        for mv in sequence {
            incremental_ctx.push_move(&position, mv);
            let before = position;
            position = make_move(&before, mv);
            assert_incremental_matches_full(&networks, &position, &mut incremental_ctx);
            position = before;
            incremental_ctx.pop();
            assert_incremental_matches_full(&networks, &position, &mut incremental_ctx);
        }
    }
}

#[test]
fn king_walk_reuses_cached_boards_and_matches_full() {
    let networks = synthetic_networks();
    let mut position = position_from_fen("r1bq1rk1/ppp1npbp/2np2p1/4p3/2P4N/2NP2P1/PP2PPBP/R1BQ1RK1 w - - 0 1");
    let mut ctx = NnueContext::new();
    networks.reset_context(&position, &mut ctx);
    let moves = [
        Move::new(sq("g1"), sq("h1"), KIND_QUIET),
        Move::new(sq("g8"), sq("h8"), KIND_QUIET),
        Move::new(sq("h1"), sq("g1"), KIND_QUIET),
        Move::new(sq("h8"), sq("g8"), KIND_QUIET),
        Move::new(sq("h4"), sq("f5"), KIND_QUIET),
    ];
    for mv in moves {
        ctx.push_move(&position, mv);
        position = make_move(&position, mv);
        assert_incremental_matches_full(&networks, &position, &mut ctx);
    }
    assert_eq!(ctx.depth, 5);
    ctx.pop();
    ctx.pop();
    assert_eq!(ctx.depth, 3);
}

#[test]
fn empty_board_evaluates_to_zero_without_touching_the_context() {
    let networks = synthetic_networks();
    let position = position_from_fen("8/8/8/8/8/8/8/8 w - - 0 1");
    let mut ctx = NnueContext::new();
    let output = networks.evaluate_raw_output(&position, &mut ctx).unwrap();

    assert_eq!(output, RawEvalOutput { psqt: 0, positional: 0, final_raw: 0, used_smallnet: false });
    assert!(!ctx.initialized);
}

#[test]
fn evaluation_resets_a_root_with_another_hash() {
    let networks = synthetic_networks();
    let first = position_from_fen("4k3/8/8/8/8/8/8/4K3 w - - 0 1");
    let second = position_from_fen("rnbqkbnr/pppppppp/8/8/8/8/PPPPPPPP/RNBQKBNR w KQkq - 0 1");
    let mut ctx = NnueContext::new();
    networks.evaluate_raw_output(&first, &mut ctx).unwrap();
    assert_eq!(ctx.root_hash, first.hash);
    let reused = networks.evaluate_raw_output(&second, &mut ctx).unwrap();
    assert_eq!(ctx.root_hash, second.hash);

    let mut fresh = NnueContext::new();
    let direct = networks.evaluate_raw_output(&second, &mut fresh).unwrap();
    assert_eq!(reused, direct);
}

#[test]
fn applicable_moves_are_told_from_inapplicable_ones() {
    let position = position_from_fen("r3k2r/8/8/3p4/4N3/8/8/R3K2R w KQkq - 0 1");
    assert!(move_is_applicable(&position, Move::new(sq("e4"), sq("d5"), KIND_CAPTURE)));
    assert!(move_is_applicable(&position, Move::new(sq("e1"), sq("g1"), KIND_CASTLE)));
    assert!(move_is_applicable(&position, Move::new(sq("e4"), sq("f6"), KIND_QUIET)));
    // Nothing on the origin.
    assert!(!move_is_applicable(&position, Move::new(sq("e3"), sq("e5"), KIND_QUIET)));
    // A quiet move onto an occupied square.
    assert!(!move_is_applicable(&position, Move::new(sq("e4"), sq("d5"), KIND_QUIET)));
    // A castle to a square no king castles to.
    assert!(!move_is_applicable(&position, Move::new(sq("e1"), sq("f1"), KIND_CASTLE)));
    // Capturing a king.
    let facing = position_from_fen("4k3/8/8/8/8/8/8/4KR2 w - - 0 1");
    assert!(!move_is_applicable(&facing, Move::new(sq("f1"), sq("e8"), KIND_CAPTURE)));
}
