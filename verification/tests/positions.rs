use std::str::FromStr;

use chess::{Board, CastleRights, ChessMove, Color, Square};
use chess_search::evaluate::{evaluate_board, MAX_EVALUATION};
use chess_search::pieces::{Man, PieceKind, Side};
use chess_search::position::{read_placement, GameStatus, Position, MAX_MEN};

const ROOK_TAKES_QUEEN: &str = "k7/8/8/3q4/8/8/8/K2R4 w - - 0 1";
const QUEEN_TAKES_ROOK: &str = "K7/8/8/3Q4/8/8/8/k2r4 w - - 0 1";
const STALEMATE: &str = "7k/5Q2/6K1/8/8/8/8/8 b - - 0 1";
const BACK_RANK_MATE: &str = "R5k1/5ppp/8/8/8/8/8/6K1 b - - 0 1";
const FOOLS_MATE: &str = "rnb1kbnr/pppp1ppp/8/4p3/6Pq/5P2/PPPPP2P/RNBQKBNR w KQkq - 1 3";
const CROWDED: &str = "k7/8/8/8/NNNNNNNN/NNNNNNNN/PPPPPPPP/K7 w - - 0 1";
const KING_BEHIND_THE_PAWN: &str = "4k3/8/4K3/3Pp3/8/8/8/8 w - e6 0 1";

fn board_of(fen: &str) -> Board {
    Board::from_str(fen).expect("a valid FEN")
}

fn position_of(fen: &str) -> Position {
    Position::new(board_of(fen)).expect("a well-formed board")
}

#[test]
fn start_position_is_balanced() {
    assert_eq!(evaluate_board(&Board::default()), 0);
}

#[test]
fn evaluation_counts_material_by_colour() {
    // White rook against black queen.
    assert_eq!(evaluate_board(&board_of(ROOK_TAKES_QUEEN)), -400);
    // White queen against nothing.
    assert_eq!(evaluate_board(&board_of(STALEMATE)), 900);
    // White rook against three black pawns.
    assert_eq!(evaluate_board(&board_of(BACK_RANK_MATE)), 200);
}

#[test]
fn evaluation_values_each_kind_of_man() {
    assert_eq!(evaluate_board(&board_of("k7/8/8/8/8/8/1P6/K7 w - - 0 1")), 100);
    assert_eq!(evaluate_board(&board_of("k7/8/8/8/8/8/1N6/K7 w - - 0 1")), 300);
    assert_eq!(evaluate_board(&board_of("k7/8/8/8/8/8/1B6/K7 w - - 0 1")), 350);
    assert_eq!(evaluate_board(&board_of("k7/8/8/8/8/8/1R6/K7 w - - 0 1")), 500);
    assert_eq!(evaluate_board(&board_of("k7/8/8/8/8/8/1Q6/K7 w - - 0 1")), 900);
    assert_eq!(evaluate_board(&board_of("k7/8/8/8/8/8/8/K7 w - - 0 1")), 0);
    assert_eq!(evaluate_board(&board_of("k7/1p6/8/8/8/8/8/K7 b - - 0 1")), -100);
    assert_eq!(evaluate_board(&board_of("k7/1n6/8/8/8/8/8/K7 b - - 0 1")), -300);
    assert_eq!(evaluate_board(&board_of("k7/1b6/8/8/8/8/8/K7 b - - 0 1")), -350);
    assert_eq!(evaluate_board(&board_of("k7/1r6/8/8/8/8/8/K7 b - - 0 1")), -500);
    assert_eq!(evaluate_board(&board_of("k7/1q6/8/8/8/8/8/K7 b - - 0 1")), -900);
}

#[test]
fn evaluation_ignores_whose_turn_it_is() {
    let white_to_move = board_of("k7/8/8/3q4/8/8/8/K2R4 w - - 0 1");
    let black_to_move = board_of("k7/8/8/3q4/8/8/8/K2R4 b - - 0 1");
    assert_eq!(evaluate_board(&white_to_move), evaluate_board(&black_to_move));
}

#[test]
fn evaluation_does_not_score_mate() {
    // White is mated with all its men on the board: the score is still the
    // material balance.
    assert_eq!(evaluate_board(&board_of(FOOLS_MATE)), 0);
    // Black is mated a rook against three pawns down.
    assert_eq!(evaluate_board(&board_of(BACK_RANK_MATE)), 200);
}

#[test]
fn evaluation_is_antisymmetric_under_colour_swap() {
    let board = board_of(ROOK_TAKES_QUEEN);
    let mirror = board_of(QUEEN_TAKES_ROOK);
    assert_eq!(evaluate_board(&board), -400);
    assert_eq!(evaluate_board(&mirror), 400);
    assert_eq!(evaluate_board(&board), -evaluate_board(&mirror));
}

#[test]
fn colour_swapped_boards_have_mirrored_placements() {
    let placement = read_placement(&board_of(ROOK_TAKES_QUEEN));
    let mirror = read_placement(&board_of(QUEEN_TAKES_ROOK));
    let mirrored = placement.mirrored();
    for square in 0..64u8 {
        assert_eq!(mirrored.get(square), mirror.get(square));
    }
    assert_eq!(mirrored.material(), -placement.material());
}

#[test]
fn evaluation_stays_within_its_bounds() {
    assert_eq!(MAX_EVALUATION, 57600);
    for fen in [ROOK_TAKES_QUEEN, QUEEN_TAKES_ROOK, STALEMATE, BACK_RANK_MATE, FOOLS_MATE, CROWDED] {
        let score = evaluate_board(&board_of(fen));
        assert!(-MAX_EVALUATION <= score && score <= MAX_EVALUATION);
    }
}

#[test]
fn evaluation_agrees_with_the_placement_read() {
    for fen in [ROOK_TAKES_QUEEN, STALEMATE, BACK_RANK_MATE, FOOLS_MATE, CROWDED] {
        let board = board_of(fen);
        assert_eq!(evaluate_board(&board), read_placement(&board).material());
    }
    // Eight pawns and sixteen knights against nothing.
    assert_eq!(evaluate_board(&board_of(CROWDED)), 8 * 100 + 16 * 300);
}

#[test]
fn read_placement_of_the_start_position() {
    let placement = read_placement(&Board::default());
    let back_rank = [
        PieceKind::Rook,
        PieceKind::Knight,
        PieceKind::Bishop,
        PieceKind::Queen,
        PieceKind::King,
        PieceKind::Bishop,
        PieceKind::Knight,
        PieceKind::Rook,
    ];
    for file in 0..8u8 {
        let kind = back_rank[file as usize];
        assert_eq!(placement.get(file), Some(Man { kind, side: Side::White }));
        assert_eq!(
            placement.get(8 + file),
            Some(Man { kind: PieceKind::Pawn, side: Side::White })
        );
        assert_eq!(
            placement.get(48 + file),
            Some(Man { kind: PieceKind::Pawn, side: Side::Black })
        );
        assert_eq!(placement.get(56 + file), Some(Man { kind, side: Side::Black }));
    }
    for square in 16..48u8 {
        assert_eq!(placement.get(square), None);
    }
    assert_eq!(placement.men(Side::White), 16);
    assert_eq!(placement.men(Side::Black), 16);
}

#[test]
fn read_placement_numbers_squares_from_a1() {
    let placement = read_placement(&board_of(ROOK_TAKES_QUEEN));
    // a1, d1, d5, a8
    assert_eq!(placement.get(0), Some(Man { kind: PieceKind::King, side: Side::White }));
    assert_eq!(placement.get(3), Some(Man { kind: PieceKind::Rook, side: Side::White }));
    assert_eq!(placement.get(35), Some(Man { kind: PieceKind::Queen, side: Side::Black }));
    assert_eq!(placement.get(56), Some(Man { kind: PieceKind::King, side: Side::Black }));
    assert_eq!(placement.men(Side::White), 2);
    assert_eq!(placement.men(Side::Black), 2);
}

#[test]
fn position_accepts_the_start_position() {
    let position = Position::new(Board::default()).expect("the start position is well formed");
    assert_eq!(position.board(), Board::default());
    assert_eq!(position.status(), GameStatus::Ongoing);
    assert_eq!(position.legal_moves().len(), 20);
}

#[test]
fn position_keeps_the_board_it_was_given() {
    for fen in [ROOK_TAKES_QUEEN, QUEEN_TAKES_ROOK, STALEMATE, BACK_RANK_MATE, FOOLS_MATE] {
        assert_eq!(position_of(fen).board(), board_of(fen));
    }
}

#[test]
#[allow(deprecated)]
fn position_rejects_a_board_that_is_not_sane() {
    // Castling rights without the rooks to castle with.
    let mut board = board_of(ROOK_TAKES_QUEEN);
    assert!(Position::new(board).is_some());
    board.add_castle_rights(Color::White, CastleRights::Both);
    assert!(!board.is_sane());
    assert!(Position::new(board).is_none());
}

#[test]
fn position_rejects_a_side_with_too_many_men() {
    assert_eq!(MAX_MEN, 16);
    let crowded = board_of(CROWDED);
    assert!(crowded.is_sane());
    assert_eq!(read_placement(&crowded).men(Side::White), 25);
    assert!(Position::new(crowded).is_none());
}

#[test]
fn position_accepts_sixteen_men_a_side() {
    let full = board_of("rnbqkbnr/pppppppp/8/8/8/8/PPPPPPPP/RNBQKBNR b KQkq - 0 1");
    assert_eq!(read_placement(&full).men(Side::White), 16);
    assert_eq!(read_placement(&full).men(Side::Black), 16);
    assert!(Position::new(full).is_some());
}

#[test]
fn status_tells_how_the_game_ended() {
    assert_eq!(position_of(ROOK_TAKES_QUEEN).status(), GameStatus::Ongoing);
    assert_eq!(position_of(STALEMATE).status(), GameStatus::Stalemate);
    assert_eq!(position_of(BACK_RANK_MATE).status(), GameStatus::Checkmate);
    assert_eq!(position_of(FOOLS_MATE).status(), GameStatus::Checkmate);
}

#[test]
fn finished_games_have_no_legal_moves() {
    assert!(position_of(STALEMATE).legal_moves().is_empty());
    assert!(position_of(BACK_RANK_MATE).legal_moves().is_empty());
    assert!(position_of(FOOLS_MATE).legal_moves().is_empty());
}

#[test]
fn legal_moves_come_in_the_generator_s_order() {
    let position = position_of(ROOK_TAKES_QUEEN);
    let moves = position.legal_moves();
    let expected: Vec<ChessMove> = chess::MoveGen::new_legal(&position.board()).collect();
    assert_eq!(moves, expected);
    assert!(moves.contains(&ChessMove::new(Square::D1, Square::D5, None)));
    assert!(!moves.contains(&ChessMove::new(Square::D1, Square::D6, None)));
}

#[test]
fn legal_moves_from_the_start_begin_with_the_a_pawn() {
    let moves = Position::new(Board::default()).expect("well formed").legal_moves();
    assert_eq!(moves.len(), 20);
    assert_eq!(moves[0], ChessMove::new(Square::A2, Square::A3, None));
}

#[test]
fn positions_of_a_game_stay_well_formed() {
    // Every board two plies from the start is accepted as a position.
    let start = Board::default();
    let mut seen = 0;
    for first in chess::MoveGen::new_legal(&start) {
        let after_first = start.make_move_new(first);
        assert!(Position::new(after_first).is_some());
        for second in chess::MoveGen::new_legal(&after_first) {
            assert!(Position::new(after_first.make_move_new(second)).is_some());
            seen += 1;
        }
    }
    assert_eq!(seen, 400);
}

#[test]
fn castling_promotion_and_en_passant_keep_positions_well_formed() {
    let roots = [
        // Both sides may castle either way.
        "r3k2r/p1ppqpb1/bn2pnp1/3PN3/1p2P3/2N2Q1p/PPPBBPPP/R3K2R w KQkq - 0 1",
        // A pawn may be taken en passant.
        "rnbqkbnr/ppp1p1pp/8/3pPp2/8/8/PPPP1PPP/RNBQKBNR w KQkq f6 0 3",
        // Pawns about to promote, with and without a capture.
        "1n2k3/P1P5/8/8/8/8/5p2/4K1N1 w - - 0 1",
    ];
    for fen in roots {
        let root = board_of(fen);
        assert!(Position::new(root).is_some());
        for first in chess::MoveGen::new_legal(&root) {
            let after_first = root.make_move_new(first);
            let position = Position::new(after_first).expect("this board is well formed");
            for second in position.legal_moves() {
                assert!(Position::new(after_first.make_move_new(second)).is_some());
            }
        }
    }
}

#[test]
fn status_is_ongoing_exactly_where_there_is_a_move() {
    for fen in [
        ROOK_TAKES_QUEEN,
        QUEEN_TAKES_ROOK,
        STALEMATE,
        BACK_RANK_MATE,
        FOOLS_MATE,
        KING_BEHIND_THE_PAWN,
    ] {
        let position = position_of(fen);
        let ongoing = position.status() == GameStatus::Ongoing;
        assert_eq!(ongoing, !position.legal_moves().is_empty());
    }
}

#[test]
fn en_passant_is_generated_even_onto_an_occupied_square() {
    // The white king stands on the square behind the black pawn that may be
    // taken en passant. The board is accepted, and the capture is among its
    // moves.
    let position = position_of(KING_BEHIND_THE_PAWN);
    let moves = position.legal_moves();
    let capture = ChessMove::new(Square::D5, Square::E6, None);
    assert_eq!(
        moves,
        vec![
            ChessMove::new(Square::D5, Square::D6, None),
            capture,
            ChessMove::new(Square::E6, Square::E5, None),
            ChessMove::new(Square::E6, Square::F5, None),
            ChessMove::new(Square::E6, Square::D6, None),
            ChessMove::new(Square::E6, Square::F6, None),
        ]
    );
}

#[test]
fn a_board_that_lost_its_king_is_refused() {
    // Played over its own king, the capture leaves White without a man.
    let board = board_of(KING_BEHIND_THE_PAWN);
    let after = board.make_move_new(ChessMove::new(Square::D5, Square::E6, None));
    assert!(!after.is_sane());
    assert!(Position::new(after).is_none());
    let placement = read_placement(&after);
    assert_eq!(placement.men(Side::White), 0);
    assert_eq!(placement.men(Side::Black), 2);
    assert_eq!(placement.get(44), Some(Man { kind: PieceKind::Pawn, side: Side::Black }));
    assert_eq!(evaluate_board(&after), -100);
}
