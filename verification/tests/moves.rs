use chess_core::board::Bitboards;
use chess_core::kastling::Imposter;
use chess_core::moves::{BitMove, Move, MoveList, MoveType};
use chess_core::piece::{Piece, PieceIndex};
use chess_core::square::Square;

fn bits_of(m: BitMove) -> u16 {
    // The packed value is the origin in the top six bits, then the
    // destination, the capture flag and the kind.
    let from = m.get_start_square().index() as u16;
    let to = m.get_end_square().index() as u16;
    let capture = if m.is_capture() { 1u16 } else { 0u16 };
    let kind = match (m.get_castle_side(), m.get_premotion_piece()) {
        (Some(Imposter::King), _) => 2,
        (Some(Imposter::Queen), _) => 3,
        (_, Some(Piece::Queen)) => 4,
        (_, Some(Piece::Rook)) => 5,
        (_, Some(Piece::Knight)) => 6,
        (_, Some(Piece::Bishop)) => 7,
        _ => {
            if m.is_quiet() {
                0
            } else {
                1
            }
        }
    };
    (from << 10) | (to << 4) | (capture << 3) | kind
}

#[test]
fn packed_move_keeps_its_four_fields() {
    let m = BitMove::new(Square::E2, Square::E4, false, MoveType::EnPassant);
    assert_eq!(m.get_start_square(), Square::E2);
    assert_eq!(m.get_end_square(), Square::E4);
    assert!(!m.is_capture());
    assert!(m.is_double_pawn_push());
    assert!(!m.is_en_passant());
    assert!(!m.is_quiet());
    assert_eq!(m.get_castle_side(), None);
    assert_eq!(m.get_premotion_piece(), None);
    assert_eq!(bits_of(m), (12 << 10) | (28 << 4) | 1);

    let capture = BitMove::new(Square::E5, Square::D6, true, MoveType::EnPassant);
    assert!(capture.is_en_passant());
    assert!(!capture.is_double_pawn_push());
    assert_eq!(bits_of(capture), (36 << 10) | (43 << 4) | 8 | 1);
}

#[test]
fn move_kinds_have_their_numbers() {
    let kinds = [
        (MoveType::Quiet, 0u16),
        (MoveType::EnPassant, 1),
        (MoveType::Castling(Imposter::King), 2),
        (MoveType::Castling(Imposter::Queen), 3),
        (MoveType::Promotion(Piece::Queen), 4),
        (MoveType::Promotion(Piece::Rook), 5),
        (MoveType::Promotion(Piece::Knight), 6),
        (MoveType::Promotion(Piece::Bishop), 7),
    ];
    for (kind, number) in kinds {
        let m = BitMove::new(Square::H8, Square::A1, true, kind);
        assert_eq!(bits_of(m), (63 << 10) | 8 | number);
        let decoded = BitMove::decode(m);
        assert_eq!(decoded.from, Square::H8);
        assert_eq!(decoded.to, Square::A1);
        assert!(decoded.is_capture);
        assert_eq!(decoded.move_type, kind);
        assert_eq!(BitMove::encode(decoded), m);
        let converted: Move = m.into();
        assert_eq!(converted.move_type, kind);
    }
    let quiet = BitMove::new(Square::A1, Square::A1, false, MoveType::Quiet);
    assert_eq!(quiet, BitMove::default());
    assert!(quiet.is_quiet());
    assert_eq!(MoveType::default(), MoveType::Quiet);
}

#[test]
fn decoding_and_encoding_are_inverse_for_every_square_pair() {
    for from in 0..64u8 {
        for to in 0..64u8 {
            for capture in [false, true] {
                let mov = Move {
                    from: Square::from_idx(from).unwrap(),
                    to: Square::from_idx(to).unwrap(),
                    is_capture: capture,
                    move_type: MoveType::Promotion(Piece::Knight),
                };
                let packed = BitMove::encode(mov);
                let back = BitMove::decode(packed);
                assert_eq!(back.from, mov.from);
                assert_eq!(back.to, mov.to);
                assert_eq!(back.is_capture, capture);
                assert_eq!(back.move_type, mov.move_type);
            }
        }
    }
}

#[test]
fn moving_piece_is_looked_up_on_the_placement() {
    let mut boards = Bitboards::new_empty();
    boards.set(PieceIndex::BlackBishop, Square::C8);
    let m = BitMove::new(Square::C8, Square::H3, false, MoveType::Quiet);
    assert_eq!(m.get_piece(&boards), PieceIndex::BlackBishop);
}

#[test]
fn move_list_keeps_insertion_order() {
    let mut list = MoveList::new_empty();
    assert_eq!(list.size(), 0);
    assert!(list.get(0).is_none());
    let a = BitMove::new(Square::A2, Square::A3, false, MoveType::Quiet);
    let b = BitMove::new(Square::B2, Square::B4, false, MoveType::EnPassant);
    list.add(a);
    list.add(b);
    assert_eq!(list.size(), 2);
    assert_eq!(list.get(0), Some(&a));
    assert_eq!(list.get(1), Some(&b));
    assert_eq!(list.get(2), None);
    let seen: Vec<BitMove> = list.iter().copied().collect();
    assert_eq!(seen, vec![a, b]);
    list.clear();
    assert_eq!(list.size(), 0);
    assert_eq!(list.iter().count(), 0);
}

#[test]
fn move_list_holds_256_moves() {
    let mut list = MoveList::new_empty();
    let m = BitMove::new(Square::G1, Square::F3, false, MoveType::Quiet);
    for _ in 0..256 {
        list.add(m);
    }
    assert_eq!(list.size(), 256);
    assert_eq!(list.get(255), Some(&m));
    assert_eq!(list.iter().count(), 256);
}
