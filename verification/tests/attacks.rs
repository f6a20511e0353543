use chess_core::attack::{
    bishop_attacks, get_attacks, king_attacks, knight_attacks, pawn_attacks, queen_attacks,
    rook_attacks, shift_attack, Direction,
};
use chess_core::board::Bitboard;
use chess_core::piece::PieceIndex;
use chess_core::position::{Color, Position};
use chess_core::square::Square;

fn set_of(squares: &[Square]) -> Bitboard {
    let mut b = Bitboard::new_empty();
    for s in squares {
        b = b | s.to_bitboard();
    }
    b
}

#[test]
fn test_attacks() {
    let position =
        Position::new(Some("r3k3/8/8/8/8/8/PPPPPPPP/RNBQKBNR b KQkq e3 0 1"));

    let new_b =
        rook_attacks(Square::from_idx(56).unwrap(), position.current.bitboards.all_occupancy);

    println!("{:?}", new_b);
    assert_eq!(
        new_b,
        set_of(&[
            Square::B8,
            Square::C8,
            Square::D8,
            Square::E8,
            Square::A7,
            Square::A6,
            Square::A5,
            Square::A4,
            Square::A3,
            Square::A2,
        ])
    );
}

#[test]
fn rook_stops_on_the_first_occupied_square_and_includes_it() {
    let occ = set_of(&[Square::D6, Square::F4, Square::D4]);
    let got = rook_attacks(Square::D4, occ);
    assert_eq!(
        got,
        set_of(&[
            Square::D5,
            Square::D6,
            Square::D3,
            Square::D2,
            Square::D1,
            Square::E4,
            Square::F4,
            Square::C4,
            Square::B4,
            Square::A4,
        ])
    );
}

#[test]
fn rook_on_an_empty_board_sees_its_rank_and_file() {
    let got = rook_attacks(Square::A1, Bitboard::new_empty());
    assert_eq!(got, Bitboard::new_const(0x0101_0101_0101_01FE));
    let got = rook_attacks(Square::H8, Bitboard::new_empty());
    assert_eq!(got, Bitboard::new_const(0x7F80_8080_8080_8080));
}

#[test]
fn bishop_runs_along_the_diagonals() {
    let got = bishop_attacks(Square::A1, Bitboard::new_empty());
    assert_eq!(got, Bitboard::new_const(0x8040_2010_0804_0200));
    let occ = set_of(&[Square::F6, Square::B2]);
    let got = bishop_attacks(Square::D4, occ);
    assert_eq!(
        got,
        set_of(&[
            Square::E5,
            Square::F6,
            Square::C3,
            Square::B2,
            Square::C5,
            Square::B6,
            Square::A7,
            Square::E3,
            Square::F2,
            Square::G1,
        ])
    );
}

#[test]
fn queen_is_rook_and_bishop_together() {
    let occ = set_of(&[Square::D6, Square::F6, Square::B4]);
    for i in 0..64u8 {
        let s = Square::from_idx(i).unwrap();
        assert_eq!(queen_attacks(s, occ), rook_attacks(s, occ) | bishop_attacks(s, occ));
    }
}

#[test]
fn king_and_knight_stay_on_the_board() {
    assert_eq!(king_attacks(Square::A1), set_of(&[Square::A2, Square::B1, Square::B2]));
    assert_eq!(
        king_attacks(Square::E4),
        set_of(&[
            Square::D3,
            Square::E3,
            Square::F3,
            Square::D4,
            Square::F4,
            Square::D5,
            Square::E5,
            Square::F5,
        ])
    );
    assert_eq!(king_attacks(Square::H8), set_of(&[Square::G8, Square::G7, Square::H7]));
    assert_eq!(knight_attacks(Square::A1), set_of(&[Square::B3, Square::C2]));
    assert_eq!(knight_attacks(Square::H8), set_of(&[Square::G6, Square::F7]));
    assert_eq!(
        knight_attacks(Square::D4),
        set_of(&[
            Square::B3,
            Square::B5,
            Square::C2,
            Square::C6,
            Square::E2,
            Square::E6,
            Square::F3,
            Square::F5,
        ])
    );
}

#[test]
fn pawn_pushes_need_free_squares_and_diagonals_do_not() {
    let empty = Bitboard::new_empty();
    assert_eq!(
        pawn_attacks(Square::E2, empty, Color::White),
        set_of(&[Square::E3, Square::E4, Square::D3, Square::F3])
    );
    assert_eq!(
        pawn_attacks(Square::E3, empty, Color::White),
        set_of(&[Square::E4, Square::D4, Square::F4])
    );
    assert_eq!(
        pawn_attacks(Square::E2, Square::E3.to_bitboard(), Color::White),
        set_of(&[Square::D3, Square::F3])
    );
    assert_eq!(
        pawn_attacks(Square::E2, Square::E4.to_bitboard(), Color::White),
        set_of(&[Square::E3, Square::D3, Square::F3])
    );
    assert_eq!(
        pawn_attacks(Square::A7, empty, Color::Black),
        set_of(&[Square::A6, Square::A5, Square::B6])
    );
    assert_eq!(
        pawn_attacks(Square::H7, Square::H6.to_bitboard(), Color::Black),
        set_of(&[Square::G6])
    );
    assert_eq!(pawn_attacks(Square::C8, empty, Color::White), empty);
    assert_eq!(pawn_attacks(Square::C1, empty, Color::Black), empty);
}

#[test]
fn attacks_are_chosen_by_piece_kind() {
    let occ = set_of(&[Square::D6, Square::F6]);
    let s = Square::D4;
    assert_eq!(get_attacks(PieceIndex::WhiteRook, s, occ, Color::White), rook_attacks(s, occ));
    assert_eq!(get_attacks(PieceIndex::BlackBishop, s, occ, Color::Black), bishop_attacks(s, occ));
    assert_eq!(get_attacks(PieceIndex::BlackQueen, s, occ, Color::Black), queen_attacks(s, occ));
    assert_eq!(get_attacks(PieceIndex::WhiteKnight, s, occ, Color::White), knight_attacks(s));
    assert_eq!(get_attacks(PieceIndex::WhiteKing, s, occ, Color::White), king_attacks(s));
    assert_eq!(
        get_attacks(PieceIndex::BlackPawn, s, occ, Color::Black),
        pawn_attacks(s, occ, Color::Black)
    );
}

#[test]
fn walk_is_cut_short_by_its_limit() {
    let got = shift_attack(Square::A1, 3, Bitboard::new_empty(), Direction::UpRight);
    assert_eq!(got, set_of(&[Square::B2, Square::C3, Square::D4]));
    let got = shift_attack(Square::G1, 5, Bitboard::new_empty(), Direction::Right);
    assert_eq!(got, set_of(&[Square::H1]));
    let got = shift_attack(Square::A1, 0, Bitboard::new_empty(), Direction::Up);
    assert_eq!(got, Bitboard::new_empty());
}
