use chess_core::kastling::{CastlingSide, Imposter};
use chess_core::moves::{BitMove, MoveList, MoveType};
use chess_core::piece::{Piece, PieceIndex};
use chess_core::position::{Color, Position};
use chess_core::square::Square;
use rand::Rng;
use std::str::FromStr;

const START: &str = "rnbqkbnr/pppppppp/8/8/8/8/PPPPPPPP/RNBQKBNR w KQkq - 0 1";

fn pseudo(position: &Position) -> Vec<BitMove> {
    let mut list = MoveList::new_empty();
    position.pseudo_legal(&mut list);
    list.iter().copied().collect()
}

fn legal(position: &Position) -> Vec<BitMove> {
    position.legal_moves().iter().copied().collect()
}

fn to_square(moves: &[BitMove], from: Square, to: Square) -> Vec<BitMove> {
    moves
        .iter()
        .copied()
        .filter(|m| m.get_start_square() == from && m.get_end_square() == to)
        .collect()
}

fn disjoint_and_covered(position: &Position) -> bool {
    let b = &position.current.bitboards;
    let mut union = chess_core::board::Bitboard::new_empty();
    let mut white = chess_core::board::Bitboard::new_empty();
    let mut black = chess_core::board::Bitboard::new_empty();
    for i in 0..12usize {
        for j in (i + 1)..12usize {
            if b.boards[i].intersects(b.boards[j]) {
                return false;
            }
        }
        union = union | b.boards[i];
        if i < 6 {
            white = white | b.boards[i];
        } else {
            black = black | b.boards[i];
        }
    }
    union == b.all_occupancy
        && white == b.white_occupancy
        && black == b.black_occupancy
        && !white.intersects(black)
}

#[test]
fn test_bitboard() {
    let pos = Position::new(None);
    println!("{:?}", pos);
}

#[test]
fn test_fen_read() {
    let fen_string = "rnbqkbnr/pppppppp/8/8/8/8/PPPPPPPP/RNBQKBNR w KQkq e3 1 0";
    let position = Position::read_fen(fen_string);
    println!("{:?}", &position);

    println!("{:?}", position.write_fen());
    assert_eq!(position.write_fen(), fen_string);
}

#[test]
fn movegen_test_board() {
    let mut position = Position::new(Some("8/P7/8/8/8/8/5k2/7K w - - 0 1"));
    println!("{:?}", &position);
    let mut rng = rand::rng();
    for _ in 0..50 {
        let moves = position.legal_moves();
        if moves.size() == 0 {
            // The side to move is mated or stalemated: the game is over.
            break;
        }
        let nr = rng.random_range(0..moves.size());
        position.make_move(*moves.get(nr).unwrap());
        println!("{:?}", position.current.bitboards.all_occupancy);
        assert!(disjoint_and_covered(&position));
    }
}

#[test]
fn start_position_is_the_standard_line() {
    let start = Position::new(None);
    assert_eq!(start, Position::read_fen(START));
    assert_eq!(start, Position::start());
    assert_eq!(start.write_fen(), START);
    assert_eq!(start.current.side_to_move, Color::White);
    assert_eq!(start.current.castling.rights, 15);
    assert_eq!(start.current.en_passant, None);
    assert_eq!(start.current.halfmove_clock, 0);
    assert_eq!(start.current.fullmove_number, 1);
    assert!(start.history.is_empty());
    assert_eq!(start.current.bitboards.piece_on_square(Square::E1), Some(PieceIndex::WhiteKing));
    assert_eq!(start.current.bitboards.piece_on_square(Square::D8), Some(PieceIndex::BlackQueen));
    assert_eq!(start.current.bitboards.piece_on_square(Square::E4), None);
    assert!(disjoint_and_covered(&start));
}

#[test]
fn start_position_has_twenty_moves() {
    let start = Position::new(None);
    assert_eq!(pseudo(&start).len(), 20);
    assert_eq!(legal(&start).len(), 20);
    assert_eq!(pseudo(&start), legal(&start));
}

#[test]
fn generating_twice_gives_the_same_list() {
    let position =
        Position::read_fen("r3k2r/pppq1ppp/2npbn2/2b1p3/2B1P3/2NPBN2/PPPQ1PPP/R3K2R w KQkq - 4 8");
    let first = pseudo(&position);
    let second = pseudo(&position);
    assert_eq!(first, second);
    let mut list = MoveList::new_empty();
    position.fill_legal(&mut list);
    let again: Vec<BitMove> = list.iter().copied().collect();
    assert_eq!(again, legal(&position));
}

#[test]
fn moves_come_by_ascending_origin_then_destination() {
    let start = Position::new(None);
    let moves = pseudo(&start);
    let first = moves[0];
    // The knight on b1 is the first piece with a move.
    assert_eq!(first.get_start_square(), Square::B1);
    assert_eq!(first.get_end_square(), Square::A3);
    assert_eq!(moves[1].get_end_square(), Square::C3);
    for pair in moves.windows(2) {
        let a = (pair[0].get_start_square().index(), pair[0].get_end_square().index());
        let b = (pair[1].get_start_square().index(), pair[1].get_end_square().index());
        assert!(a < b);
    }
}

#[test]
fn pawn_on_its_starting_rank_has_one_and_two_square_pushes() {
    let mut position = Position::read_fen("4k3/8/8/8/8/8/4P3/4K3 w - - 0 1");
    let moves = pseudo(&position);
    let one = to_square(&moves, Square::E2, Square::E3);
    let two = to_square(&moves, Square::E2, Square::E4);
    assert_eq!(one, vec![BitMove::new(Square::E2, Square::E3, false, MoveType::Quiet)]);
    assert_eq!(two, vec![BitMove::new(Square::E2, Square::E4, false, MoveType::EnPassant)]);
    assert!(two[0].is_double_pawn_push());
    position.make_move(two[0]);
    assert_eq!(position.current.en_passant, Some(Square::E3));
    assert_eq!(position.current.side_to_move, Color::Black);
    assert_eq!(position.current.halfmove_clock, 0);
    // Any move that is no double push leaves no target.
    let reply = BitMove::new(Square::E8, Square::D8, false, MoveType::Quiet);
    position.make_move(reply);
    assert_eq!(position.current.en_passant, None);
}

#[test]
fn black_double_push_sets_the_target_on_the_sixth_rank() {
    let mut position = Position::read_fen("4k3/3p4/8/8/8/8/8/4K3 b - - 0 1");
    let moves = pseudo(&position);
    let two = to_square(&moves, Square::D7, Square::D5);
    assert_eq!(two.len(), 1);
    position.make_move(two[0]);
    assert_eq!(position.current.en_passant, Some(Square::D6));
    assert_eq!(position.current.fullmove_number, 2);
}

#[test]
fn en_passant_takes_the_pawn_behind_the_destination() {
    let mut position = Position::read_fen("4k3/8/8/3pP3/8/8/8/4K3 w - d6 0 1");
    let moves = pseudo(&position);
    let captures = to_square(&moves, Square::E5, Square::D6);
    assert_eq!(captures, vec![BitMove::new(Square::E5, Square::D6, true, MoveType::EnPassant)]);
    assert!(captures[0].is_en_passant());
    position.make_move(captures[0]);
    let boards = &position.current.bitboards;
    assert_eq!(boards.piece_on_square(Square::D6), Some(PieceIndex::WhitePawn));
    assert_eq!(boards.piece_on_square(Square::D5), None);
    assert_eq!(boards.piece_on_square(Square::E5), None);
    assert_eq!(position.current.en_passant, None);
    assert_eq!(position.current.halfmove_clock, 0);
    assert!(disjoint_and_covered(&position));
}

#[test]
fn en_passant_target_is_dropped_when_it_is_not_used() {
    let mut position = Position::read_fen("4k3/8/8/3pP3/8/8/8/4K3 w - d6 3 1");
    position.make_move(BitMove::new(Square::E1, Square::E2, false, MoveType::Quiet));
    assert_eq!(position.current.en_passant, None);
    assert_eq!(position.current.halfmove_clock, 4);
}

#[test]
fn pawn_reaching_the_last_rank_has_four_promotions_and_nothing_else() {
    let mut position = Position::read_fen("4k3/P7/8/8/8/8/8/4K3 w - - 5 1");
    let moves = pseudo(&position);
    let to_a8 = to_square(&moves, Square::A7, Square::A8);
    assert_eq!(
        to_a8,
        vec![
            BitMove::new(Square::A7, Square::A8, false, MoveType::Promotion(Piece::Bishop)),
            BitMove::new(Square::A7, Square::A8, false, MoveType::Promotion(Piece::Knight)),
            BitMove::new(Square::A7, Square::A8, false, MoveType::Promotion(Piece::Rook)),
            BitMove::new(Square::A7, Square::A8, false, MoveType::Promotion(Piece::Queen)),
        ]
    );
    assert!(to_a8.iter().all(|m| m.get_premotion_piece().is_some()));
    position.make_move(to_a8[3]);
    assert_eq!(
        position.current.bitboards.piece_on_square(Square::A8),
        Some(PieceIndex::WhiteQueen)
    );
    assert_eq!(position.current.bitboards.piece_on_square(Square::A7), None);
    assert_eq!(position.current.halfmove_clock, 0);
}

#[test]
fn promotion_by_capture_replaces_the_captured_piece() {
    let mut position = Position::read_fen("1n2k3/P7/8/8/8/8/8/4K3 w - - 0 1");
    let moves = pseudo(&position);
    let takes = to_square(&moves, Square::A7, Square::B8);
    assert_eq!(takes.len(), 4);
    assert!(takes.iter().all(|m| m.is_capture()));
    position.make_move(takes[1]);
    assert_eq!(
        position.current.bitboards.piece_on_square(Square::B8),
        Some(PieceIndex::WhiteKnight)
    );
    assert!(disjoint_and_covered(&position));
}

#[test]
fn rook_leaving_its_corner_loses_only_that_right() {
    let mut position = Position::read_fen("r3k2r/8/8/8/8/8/8/R3K2R w KQkq - 0 1");
    position.make_move(BitMove::new(Square::H1, Square::H4, false, MoveType::Quiet));
    let rights = position.current.castling;
    assert!(!rights.can_castle(CastlingSide::WK));
    assert!(rights.can_castle(CastlingSide::WQ));
    assert!(rights.can_castle(CastlingSide::BK));
    assert!(rights.can_castle(CastlingSide::BQ));
    assert_eq!(position.current.halfmove_clock, 1);
}

#[test]
fn capturing_a_rook_on_its_corner_revokes_its_right() {
    let mut position = Position::read_fen("r3k2r/8/8/8/8/8/8/R3K2R w KQkq - 0 1");
    position.make_move(BitMove::new(Square::A1, Square::A8, true, MoveType::Quiet));
    let rights = position.current.castling;
    assert!(rights.can_castle(CastlingSide::WK));
    assert!(!rights.can_castle(CastlingSide::WQ));
    assert!(rights.can_castle(CastlingSide::BK));
    assert!(!rights.can_castle(CastlingSide::BQ));
    assert_eq!(position.current.halfmove_clock, 0);
}

#[test]
fn king_move_loses_both_rights_of_its_colour() {
    let mut position = Position::read_fen("r3k2r/8/8/8/8/8/8/R3K2R b KQkq - 0 1");
    position.make_move(BitMove::new(Square::E8, Square::E7, false, MoveType::Quiet));
    let rights = position.current.castling;
    assert!(rights.can_castle(CastlingSide::WK));
    assert!(rights.can_castle(CastlingSide::WQ));
    assert!(!rights.can_castle(CastlingSide::BK));
    assert!(!rights.can_castle(CastlingSide::BQ));
    assert_eq!(position.current.fullmove_number, 2);
}

#[test]
fn castling_moves_king_and_rook() {
    let position = Position::read_fen("r3k2r/8/8/8/8/8/8/R3K2R w KQkq - 0 1");
    let moves = pseudo(&position);
    let king_side =
        BitMove::new(Square::E1, Square::G1, false, MoveType::Castling(Imposter::King));
    let queen_side =
        BitMove::new(Square::E1, Square::C1, false, MoveType::Castling(Imposter::Queen));
    // Castling comes before the other moves of the king, king side first.
    let first_king_move = moves.iter().position(|m| m.get_start_square() == Square::E1).unwrap();
    assert_eq!(moves[first_king_move], king_side);
    assert_eq!(moves[first_king_move + 1], queen_side);

    let mut short = position.clone();
    short.make_move(king_side);
    let boards = &short.current.bitboards;
    assert_eq!(boards.piece_on_square(Square::G1), Some(PieceIndex::WhiteKing));
    assert_eq!(boards.piece_on_square(Square::F1), Some(PieceIndex::WhiteRook));
    assert_eq!(boards.piece_on_square(Square::H1), None);
    assert_eq!(boards.piece_on_square(Square::E1), None);
    assert_eq!(short.current.castling.rights, 0b1100);
    assert!(disjoint_and_covered(&short));

    let mut long = position.clone();
    long.make_move(queen_side);
    let boards = &long.current.bitboards;
    assert_eq!(boards.piece_on_square(Square::C1), Some(PieceIndex::WhiteKing));
    assert_eq!(boards.piece_on_square(Square::D1), Some(PieceIndex::WhiteRook));
    assert_eq!(boards.piece_on_square(Square::A1), None);
    assert_eq!(long.current.castling.rights, 0b1100);
}

#[test]
fn castling_is_not_offered_through_pieces_or_without_the_right() {
    let blocked = Position::read_fen("r3k2r/8/8/8/8/8/8/RN2KB1R w KQkq - 0 1");
    assert!(pseudo(&blocked).iter().all(|m| m.get_castle_side().is_none()));
    let no_right = Position::read_fen("r3k2r/8/8/8/8/8/8/R3K2R w kq - 0 1");
    assert!(pseudo(&no_right).iter().all(|m| m.get_castle_side().is_none()));
    let black = Position::read_fen("r3k2r/8/8/8/8/8/8/R3K2R b kq - 0 1");
    let castles: Vec<BitMove> =
        pseudo(&black).into_iter().filter(|m| m.get_castle_side().is_some()).collect();
    assert_eq!(
        castles,
        vec![
            BitMove::new(Square::E8, Square::G8, false, MoveType::Castling(Imposter::King)),
            BitMove::new(Square::E8, Square::C8, false, MoveType::Castling(Imposter::Queen)),
        ]
    );
}

#[test]
fn move_that_exposes_the_king_is_pseudo_legal_but_not_legal() {
    // The knight on e2 is pinned by the rook on e8.
    let position = Position::read_fen("4r1k1/8/8/8/8/8/4N3/4K3 w - - 0 1");
    let pinned = BitMove::new(Square::E2, Square::C3, false, MoveType::Quiet);
    assert!(pseudo(&position).contains(&pinned));
    assert!(!legal(&position).contains(&pinned));
    assert!(position.makes_self_check(pinned));
    let safe = BitMove::new(Square::E1, Square::D1, false, MoveType::Quiet);
    assert!(legal(&position).contains(&safe));
    assert!(!position.makes_self_check(safe));
    // The legal moves are the pseudo-legal ones that do not expose the king,
    // in the same order.
    let kept: Vec<BitMove> =
        pseudo(&position).into_iter().filter(|m| !position.makes_self_check(*m)).collect();
    assert_eq!(kept, legal(&position));
}

#[test]
fn castling_is_checked_only_on_the_square_where_the_king_lands() {
    // The black rook on f8 attacks f1, which the king passes over.
    let position = Position::read_fen("5r1k/8/8/8/8/8/8/4K2R w K - 0 1");
    let castle = BitMove::new(Square::E1, Square::G1, false, MoveType::Castling(Imposter::King));
    assert!(legal(&position).contains(&castle));
    // With the rook on g8 the king would land on an attacked square.
    let position = Position::read_fen("6rk/8/8/8/8/8/8/4K2R w K - 0 1");
    assert!(pseudo(&position).contains(&castle));
    assert!(!legal(&position).contains(&castle));
}

#[test]
fn applying_a_move_and_taking_it_back_restores_the_position() {
    let before = Position::read_fen("r3k2r/pppq1ppp/2npbn2/4p3/2B1P3/2NPBN2/PPPQ1PPP/R3K2R w KQkq - 4 8");
    for m in pseudo(&before) {
        let mut position = before.clone();
        position.make_move(m);
        assert_eq!(position.history.len(), 1);
        assert_eq!(position.history[0], before.current);
        assert!(disjoint_and_covered(&position));
        position.pop();
        assert_eq!(position, before);
    }
}

#[test]
fn push_keeps_the_current_state_on_the_history() {
    let mut position = Position::new(None);
    position.push();
    assert_eq!(position.history.len(), 1);
    assert_eq!(position.history[0], position.current);
    position.current.halfmove_clock = 7;
    position.pop();
    assert_eq!(position, Position::new(None));
}

#[test]
fn halfmove_clock_restarts_on_captures_and_pawn_moves() {
    let mut position = Position::read_fen("4k3/8/8/3p4/8/8/4P3/R3K3 w - - 9 1");
    position.make_move(BitMove::new(Square::A1, Square::A5, false, MoveType::Quiet));
    assert_eq!(position.current.halfmove_clock, 10);
    position.make_move(BitMove::new(Square::D5, Square::D4, false, MoveType::Quiet));
    assert_eq!(position.current.halfmove_clock, 0);
    position.make_move(BitMove::new(Square::A5, Square::A8, false, MoveType::Quiet));
    assert_eq!(position.current.halfmove_clock, 1);
    position.make_move(BitMove::new(Square::E8, Square::E7, false, MoveType::Quiet));
    assert_eq!(position.current.halfmove_clock, 2);
    position.make_move(BitMove::new(Square::A8, Square::A7, false, MoveType::Quiet));
    position.make_move(BitMove::new(Square::E7, Square::E6, false, MoveType::Quiet));
    assert_eq!(position.current.halfmove_clock, 4);
    assert_eq!(position.current.fullmove_number, 4);
}

#[test]
fn lines_are_read_field_by_field() {
    let position = Position::read_fen("8/8/8/8/8/8/8/8 b Kq h6 12 34");
    assert_eq!(position.current.side_to_move, Color::Black);
    assert!(position.current.castling.can_castle(CastlingSide::WK));
    assert!(position.current.castling.can_castle(CastlingSide::BQ));
    assert!(!position.current.castling.can_castle(CastlingSide::WQ));
    assert_eq!(position.current.en_passant, Some(Square::H6));
    assert_eq!(position.current.halfmove_clock, 12);
    assert_eq!(position.current.fullmove_number, 34);
    assert_eq!(position.write_fen(), "8/8/8/8/8/8/8/8 b Kq h6 12 34");

    // Blanks of any kind and number separate the fields; later words are not read.
    let spaced = Position::read_fen("  8/8/8/8/8/8/8/8\t B   -  -   +7 65535 more words");
    assert_eq!(spaced.current.side_to_move, Color::Black);
    assert_eq!(spaced.current.castling.rights, 0);
    assert_eq!(spaced.current.en_passant, None);
    assert_eq!(spaced.current.halfmove_clock, 7);
    assert_eq!(spaced.current.fullmove_number, 65535);
    assert_eq!(spaced.write_fen(), "8/8/8/8/8/8/8/8 b  - 7 65535");

    // Missing fields keep what a position starts from.
    let short = Position::read_fen("4k3/8/8/8/8/8/8/4K3");
    assert_eq!(short.current.side_to_move, Color::White);
    assert_eq!(short.current.castling.rights, 0);
    assert_eq!(short.current.en_passant, Some(Square::A1));
    assert_eq!(short.current.halfmove_clock, 0);
    assert_eq!(short.current.fullmove_number, 0);
    let empty = Position::read_fen("");
    assert_eq!(empty.current.bitboards.all_occupancy, chess_core::board::Bitboard::new_empty());
}

#[test]
fn lines_that_describe_no_position_are_refused() {
    assert!(Position::parse_fen(START).is_some());
    assert!(Position::parse_fen("9/8/8/8/8/8/8/8 w - - 0 1").is_some());
    assert!(Position::parse_fen("x7/8/8/8/8/8/8/8 w - - 0 1").is_none());
    assert!(Position::parse_fen("8P/8/8/8/8/8/8/8 w - - 0 1").is_none());
    assert!(Position::parse_fen("8/8/8/8/8/8/8/8/P w - - 0 1").is_none());
    assert!(Position::parse_fen("8/8/8/8/8/8/8/8 x - - 0 1").is_none());
    assert!(Position::parse_fen("8/8/8/8/8/8/8/8 ww - - 0 1").is_none());
    assert!(Position::parse_fen("8/8/8/8/8/8/8/8 w KX - 0 1").is_none());
    assert!(Position::parse_fen("8/8/8/8/8/8/8/8 w - e9 0 1").is_none());
    assert!(Position::parse_fen("8/8/8/8/8/8/8/8 w - e33 0 1").is_none());
    assert!(Position::parse_fen("8/8/8/8/8/8/8/8 w - - x 1").is_none());
    assert!(Position::parse_fen("8/8/8/8/8/8/8/8 w - - 0 65536").is_none());
    assert!(Position::parse_fen("8/8/8/8/8/8/8/8 w - - 0 -1").is_none());
    assert!(Position::parse_fen("8/8/8/8/8/8/8/8 w - - + 1").is_none());
}

#[test]
fn writing_and_reading_a_position_gives_it_back() {
    let lines = [
        START,
        "r3k2r/pppq1ppp/2npbn2/4p3/2B1P3/2NPBN2/PPPQ1PPP/R3K2R b KQkq - 4 8",
        "8/P7/8/8/8/8/5k2/7K w Q - 0 1",
        "4k3/8/8/3pP3/8/8/8/4K3 w k d6 0 1",
    ];
    for line in lines {
        let position = Position::read_fen(line);
        assert_eq!(position.write_fen(), line);
        assert_eq!(Position::read_fen(&position.write_fen()), position);
    }
}

#[test]
fn position_without_castling_rights_is_written_with_an_empty_field() {
    let position = Position::read_fen("8/P7/8/8/8/8/5k2/7K w - - 0 1");
    assert_eq!(position.write_fen(), "8/P7/8/8/8/8/5k2/7K w  - 0 1");
}

#[test]
fn consistency_of_target_and_rights_is_checked() {
    assert!(Position::new(None).current.is_consistent());
    assert!(Position::read_fen("4k3/8/8/3pP3/8/8/8/4K3 w - d6 0 1").current.is_consistent());
    assert!(Position::read_fen("4k3/8/8/8/4Pp2/8/8/4K3 b - e3 0 1").current.is_consistent());
    // No pawn behind the target.
    assert!(!Position::read_fen(START.replace(" - ", " e3 ").as_str()).current.is_consistent());
    // The target is on the wrong rank for the side to move.
    assert!(!Position::read_fen("4k3/8/8/3pP3/8/8/8/4K3 b - d6 0 1").current.is_consistent());
    // The target is occupied.
    assert!(!Position::read_fen("4k3/8/3n4/3pP3/8/8/8/4K3 w - d6 0 1").current.is_consistent());
    // A right is held but the rook is not on its corner.
    assert!(!Position::read_fen("4k3/8/8/8/8/8/8/4K3 w K - 0 1").current.is_consistent());
    assert!(!Position::read_fen("r3k3/8/8/8/8/8/8/4K3 b k - 0 1").current.is_consistent());
    assert!(Position::read_fen("r3k3/8/8/8/8/8/8/4K3 b q - 0 1").current.is_consistent());
}

#[test]
fn legal_play_keeps_positions_consistent() {
    let mut position = Position::new(None);
    let line = [
        BitMove::new(Square::E2, Square::E4, false, MoveType::EnPassant),
        BitMove::new(Square::A7, Square::A6, false, MoveType::Quiet),
        BitMove::new(Square::E4, Square::E5, false, MoveType::Quiet),
        BitMove::new(Square::D7, Square::D5, false, MoveType::EnPassant),
        BitMove::new(Square::E5, Square::D6, true, MoveType::EnPassant),
        BitMove::new(Square::A8, Square::A7, false, MoveType::Quiet),
    ];
    for m in line {
        assert!(legal(&position).contains(&m));
        position.make_move(m);
        assert!(position.current.is_consistent());
        assert!(disjoint_and_covered(&position));
    }
    assert_eq!(position.write_fen(), "1nbqkbnr/rpp1pppp/p2P4/8/8/8/PPPP1PPP/RNBQKBNR w KQk - 1 4");
}

#[test]
fn generation_reports_a_list_without_room() {
    let start = Position::new(None);
    let filler = BitMove::new(Square::A1, Square::A2, false, MoveType::Quiet);
    // 236 moves and the 20 of the start position fill the list to the brim.
    let mut list = MoveList::new_empty();
    for _ in 0..236 {
        list.add(filler);
    }
    assert!(start.try_pseudo_legal(&mut list));
    assert_eq!(list.size(), 256);
    assert_eq!(list.get(235), Some(&filler));
    let tail: Vec<BitMove> = list.iter().copied().skip(236).collect();
    assert_eq!(tail, pseudo(&start));
    // One move more and they do not fit.
    let mut list = MoveList::new_empty();
    for _ in 0..237 {
        list.add(filler);
    }
    assert!(!start.try_pseudo_legal(&mut list));
    let mut empty = MoveList::new_empty();
    assert!(start.try_pseudo_legal(&mut empty));
    assert_eq!(empty.size(), 20);
}

#[test]
fn positions_with_too_many_moves_are_reported() {
    // Twenty-four black queens have 268 moves between them.
    let crowded = "1qqqqqqq/q6q/q6q/q6q/q6q/q4q1q/q6q/qqq1K1q1";
    let black = Position::read_fen(format!("{} b - - 0 1", crowded).as_str());
    let mut list = MoveList::new_empty();
    assert!(!black.try_pseudo_legal(&mut list));
    assert!(black.try_legal_moves().is_none());
    // White has five moves, but the replies to them have no room.
    let white = Position::read_fen(format!("{} w - - 0 1", crowded).as_str());
    assert_eq!(pseudo(&white).len(), 5);
    assert_eq!(white.try_makes_self_check(pseudo(&white)[0]), None);
    assert!(white.try_legal_moves().is_none());
    let mut list = MoveList::new_empty();
    assert!(!white.try_fill_legal(&mut list));
}

#[test]
fn checked_generation_agrees_with_plain_generation() {
    let position = Position::read_fen("4r1k1/8/8/8/8/8/4N3/4K3 w - - 0 1");
    let checked: Vec<BitMove> = position.try_legal_moves().unwrap().iter().copied().collect();
    assert_eq!(checked, legal(&position));
    let pinned = BitMove::new(Square::E2, Square::C3, false, MoveType::Quiet);
    assert_eq!(position.try_makes_self_check(pinned), Some(true));
    let safe = BitMove::new(Square::E1, Square::D1, false, MoveType::Quiet);
    assert_eq!(position.try_makes_self_check(safe), Some(false));
    let mut list = MoveList::new_empty();
    assert!(position.try_fill_legal(&mut list));
    assert_eq!(list.iter().copied().collect::<Vec<BitMove>>(), legal(&position));
}

#[test]
fn squares_are_named_by_file_and_rank() {
    assert_eq!(Square::A1.square_str(), "a1");
    assert_eq!(Square::H8.square_str(), "h8");
    assert_eq!(Square::E4.square_str(), "e4");
    assert_eq!(Square::from_str("e4"), Ok(Square::E4));
    assert_eq!(Square::from_str("E4"), Ok(Square::E4));
    assert_eq!(Square::from_str("h1"), Ok(Square::H1));
    assert_eq!(
        Square::from_str("i1"),
        Err("Invalid square convertion from: i1".to_string())
    );
    assert!(Square::from_str("e9").is_err());
    assert!(Square::from_str("e").is_err());
    assert!(Square::from_str("e44").is_err());
    assert!(Square::from_str("").is_err());
    for i in 0..64u8 {
        let s = Square::from_idx(i).unwrap();
        assert_eq!(Square::from_str(&s.square_str()), Ok(s));
    }
}
