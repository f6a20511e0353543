use chess_core::board::{Bitboard, Bitboards};
use chess_core::kastling::{Castling, CastlingSide, Imposter};
use chess_core::piece::{Piece, PieceIndex};
use chess_core::position::Color;
use chess_core::square::Square;

#[test]
fn it_works() {
    let result = 4;
    assert_eq!(result, 4);
}

#[test]
fn kastling_test_board() {
    let mut castling = Castling::new();

    println!("After new: {:b}", castling.rights);

    castling.add_castle_right(CastlingSide::BQ);
    castling.add_castle_right(CastlingSide::WQ);
    println!("After adding: {:b}", castling.rights);

    assert!(castling.can_castle(CastlingSide::BQ));
    assert!(!castling.can_castle(CastlingSide::WK));
}

#[test]
fn test_square() {
    println!("{:?}", Square::A8 as u8);
    assert_eq!(Square::A8 as u8, 56);
}

#[test]
fn castling_rights_are_independent_bits() {
    let mut castling = Castling::new();
    assert_eq!(castling.rights, 0);
    castling.add_castle_right(CastlingSide::WK);
    castling.add_castle_right(CastlingSide::BK);
    assert_eq!(castling.rights, 0b0101);
    castling.remove_castling_right(CastlingSide::WK);
    assert_eq!(castling.rights, 0b0100);
    assert!(castling.can_castle(CastlingSide::BK));
    assert!(!castling.can_castle(CastlingSide::WK));
    assert_eq!(CastlingSide::BQ.mask(), 8);
    assert_eq!(Imposter::from_castling_side(CastlingSide::WQ), Imposter::Queen);
    assert_eq!(Imposter::from_castling_side(CastlingSide::BK), Imposter::King);
}

#[test]
fn square_indices_and_coordinates() {
    assert_eq!(Square::from_idx(0), Some(Square::A1));
    assert_eq!(Square::from_idx(63), Some(Square::H8));
    assert_eq!(Square::from_idx(64), None);
    assert_eq!(Square::from_coords(3, 2), Some(Square::C4));
    assert_eq!(Square::from_coords(8, 0), None);
    assert_eq!(Square::from_coords(0, 8), None);
    assert_eq!(Square::C4.index(), 26);
    assert_eq!(Square::C4.to_coord(), (3, 2));
    assert_eq!(Square::default(), Square::A1);
    for i in 0..64u8 {
        assert_eq!(Square::from_idx(i).unwrap().index(), i);
        assert_eq!(Square::from_idx(i).unwrap() as u8, i);
    }
}

#[test]
fn piece_numbers_kinds_and_colours() {
    assert_eq!(PieceIndex::from_piece(Piece::Queen, Color::Black), PieceIndex::BlackQueen);
    assert_eq!(PieceIndex::from_piece(Piece::Pawn, Color::White), PieceIndex::WhitePawn);
    assert_eq!(PieceIndex::BlackKnight.to_piece(), Piece::Knight);
    assert_eq!(PieceIndex::BlackKnight.color(), Color::Black);
    assert_eq!(PieceIndex::WhiteKing.color(), Color::White);
    assert_eq!(PieceIndex::WhiteKing.index(), 5);
    assert_eq!(PieceIndex::BlackPawn.index(), 6);
    assert_eq!(PieceIndex::from_index(11), Some(PieceIndex::BlackKing));
    assert_eq!(PieceIndex::from_index(12), None);
    assert_eq!(Piece::from_piece_index(&PieceIndex::WhiteRook), Piece::Rook);
    assert_eq!(PieceIndex::WhiteBishop.to_fen_char(), 'B');
    assert_eq!(PieceIndex::from_fen_char('q'), Some(PieceIndex::BlackQueen));
    assert_eq!(PieceIndex::from_fen_char('x'), None);
    for i in 0..12usize {
        let p = PieceIndex::from_index(i).unwrap();
        assert_eq!(p.index(), i);
        assert_eq!(PieceIndex::from_fen_char(p.to_fen_char()), Some(p));
        assert_eq!(PieceIndex::from_piece(p.to_piece(), p.color()), p);
    }
    assert_eq!(!Color::White, Color::Black);
    assert_eq!(!Color::Black, Color::White);
}

#[test]
fn square_set_primitives() {
    let mut b = Bitboard::new_empty();
    assert_eq!(b, Bitboard::new_const(0));
    b.set(0);
    b.set(63);
    assert_eq!(b, Bitboard::new_const(0x8000_0000_0000_0001));
    assert!(b.is_occupied(Square::H8));
    assert!(!b.is_occupied(Square::B1));
    b.remove(0);
    assert_eq!(b, Bitboard::new_const(0x8000_0000_0000_0000));
    let a = Bitboard::new_const(0b1100);
    let c = Bitboard::new_const(0b0110);
    assert_eq!(a | c, Bitboard::new_const(0b1110));
    assert_eq!(a & c, Bitboard::new_const(0b0100));
    assert_eq!(!a, Bitboard::new_const(!0b1100u64));
    assert!(a.intersects(c));
    assert!(!a.intersects(Bitboard::new_const(0b0011)));
    assert_eq!(Bitboard::from(5u64), Bitboard::new_const(5));
    assert_eq!(Bitboard::single(4), Bitboard::new_const(16));
    assert_eq!(Square::E1.to_bitboard(), Bitboard::new_const(16));
    assert_eq!(Bitboard::coord_to_index(3, 2), 26);
    assert_eq!(Bitboard::index_to_coord(26), (3, 2));
    let mut d = a;
    d |= c;
    assert_eq!(d, Bitboard::new_const(0b1110));
    d &= c;
    assert_eq!(d, c);
}

#[test]
fn pop_lsb_takes_the_lowest_square_first() {
    let mut b = Bitboard::new_const(0b1010_0000);
    assert_eq!(b.pop_lsb(), Some(5));
    assert_eq!(b, Bitboard::new_const(0b1000_0000));
    assert_eq!(b.pop_lsb(), Some(7));
    assert_eq!(b.pop_lsb(), None);
    assert_eq!(b, Bitboard::new_empty());
    let mut top = Bitboard::new_const(1u64 << 63);
    assert_eq!(top.pop_lsb(), Some(63));
}

#[test]
fn shifts_do_not_wrap_round_the_edges() {
    let mut h = Square::H4.to_bitboard();
    h.shift_right();
    assert_eq!(h, Bitboard::new_empty());
    let mut a = Square::A4.to_bitboard();
    a.shift_left();
    assert_eq!(a, Bitboard::new_empty());
    let mut top = Square::D8.to_bitboard();
    top.shift_up();
    assert_eq!(top, Bitboard::new_empty());
    let mut bottom = Square::D1.to_bitboard();
    bottom.shift_down();
    assert_eq!(bottom, Bitboard::new_empty());
    let mut m = Square::D4.to_bitboard();
    m.shift_upp_right();
    assert_eq!(m, Square::E5.to_bitboard());
    m.shift_upp_left();
    assert_eq!(m, Square::D6.to_bitboard());
    m.shift_down_left();
    assert_eq!(m, Square::C5.to_bitboard());
    m.shift_down_right();
    assert_eq!(m, Square::D4.to_bitboard());
    m.shift_up();
    assert_eq!(m, Square::D5.to_bitboard());
    m.shift_down();
    m.shift_left();
    assert_eq!(m, Square::C4.to_bitboard());
    m.shift_right();
    assert_eq!(m, Square::D4.to_bitboard());
    let mut corner = Square::H1.to_bitboard();
    corner.shift_upp_right();
    assert_eq!(corner, Bitboard::new_empty());
}

#[test]
fn placement_sets_stay_disjoint_and_occupancy_is_their_union() {
    let mut boards = Bitboards::new_empty();
    boards.set(PieceIndex::WhiteKing, Square::E1);
    boards.set(PieceIndex::BlackQueen, Square::D8);
    boards.set(PieceIndex::WhitePawn, Square::A2);
    assert_eq!(boards.piece_on_square(Square::E1), Some(PieceIndex::WhiteKing));
    assert_eq!(boards.piece_on_square(Square::D8), Some(PieceIndex::BlackQueen));
    assert_eq!(boards.piece_on_square(Square::D1), None);
    assert_eq!(boards.white_occupancy, Square::E1.to_bitboard() | Square::A2.to_bitboard());
    assert_eq!(boards.black_occupancy, Square::D8.to_bitboard());
    assert_eq!(boards.all_occupancy, boards.white_occupancy | boards.black_occupancy);
    assert_eq!(boards.get_bitboard(PieceIndex::WhitePawn), Square::A2.to_bitboard());
    boards.remove(PieceIndex::BlackQueen, Square::D8);
    assert_eq!(boards.piece_on_square(Square::D8), None);
    assert_eq!(boards.black_occupancy, Bitboard::new_empty());
    assert_eq!(boards.all_occupancy, boards.white_occupancy);
    let mut union = Bitboard::new_empty();
    for i in 0..12usize {
        for j in (i + 1)..12usize {
            assert!(!boards.boards[i].intersects(boards.boards[j]));
        }
        union = union | boards.boards[i];
    }
    assert_eq!(union, boards.all_occupancy);
}

#[test]
fn occupancy_update_adds_every_set() {
    let mut boards = Bitboards::new_empty();
    *boards.get_bitboard_mut(PieceIndex::WhiteRook) = Square::A1.to_bitboard();
    *boards.get_bitboard_mut(PieceIndex::BlackRook) = Square::A8.to_bitboard();
    assert_eq!(boards.all_occupancy, Bitboard::new_empty());
    boards.uppdate_occupancy();
    assert_eq!(boards.white_occupancy, Square::A1.to_bitboard());
    assert_eq!(boards.black_occupancy, Square::A8.to_bitboard());
    assert_eq!(boards.all_occupancy, Square::A1.to_bitboard() | Square::A8.to_bitboard());
}
