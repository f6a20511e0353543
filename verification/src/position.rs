//! A game position: the current state and the history of earlier states.

use vstd::prelude::*;
use crate::board::Bitboards;
use crate::game::{Game, Layout};
use crate::fen_string::fen_game;
use crate::kastling::{Castling, CastlingSide};
use crate::piece::{Piece, PieceIndex};
use crate::square::{col_of, row_of};
use crate::moves::BitMove;
use crate::square::Square;

verus! {

/// One of the two sides.
#[derive(Copy, Clone, Debug, PartialEq, Eq, Structural)]
pub enum Color {
    White,
    Black,
}

impl Color {
    /// The other side.
    pub open spec fn opponent(self) -> Color {
        match self {
            Color::Black => Color::White,
            Color::White => Color::Black,
        }
    }
}

impl std::ops::Not for Color {
    type Output = Self;

    fn not(self) -> (r: Self) {
        match self {
            Color::Black => Color::White,
            Color::White => Color::Black,
        }
    }
}

impl vstd::std_specs::ops::NotSpecImpl for Color {
    open spec fn obeys_not_spec() -> bool {
        true
    }

    open spec fn not_req(self) -> bool {
        true
    }

    open spec fn not_spec(self) -> Color {
        self.opponent()
    }
}

/// The state of a game at one moment.
#[derive(Copy, Clone, Debug, PartialEq)]
pub struct Snapshot {
    pub bitboards: Bitboards,
    pub side_to_move: Color,
    pub castling: Castling,
    /// The square that a pawn has just passed over in a two-square advance.
    pub en_passant: Option<Square>,
    /// Plies since the last capture or pawn move.
    pub halfmove_clock: u16,
    /// Number of the move; it goes up after each black ply.
    pub fullmove_number: u16,
}

impl View for Snapshot {
    type V = Game;

    open spec fn view(&self) -> Game {
        Game {
            layout: Layout {
                placement: self.bitboards@,
                side: self.side_to_move,
                castling: self.castling,
                en_passant: match self.en_passant {
                    Some(square) => Some(square@),
                    None => None,
                },
            },
            halfmove: self.halfmove_clock as int,
            fullmove: self.fullmove_number as int,
        }
    }
}

impl Snapshot {
    /// The placement is well-formed, and the en-passant target and the
    /// castling rights fit it.
    pub open spec fn wf(self) -> bool {
        &&& self.bitboards.wf()
        &&& self@.layout.consistent()
    }

    /// Whether the rook of the right `side` stands on its corner, or the
    /// right is not held.
    fn rook_at_home(&self, side: CastlingSide) -> (r: bool)
        ensures
            r == (self.castling.holds(side) ==> self.bitboards@[side.corner()] == Some(
                PieceIndex::of(Piece::Rook, side.side()),
            )),
    {
        if !self.castling.can_castle(side) {
            return true;
        }
        let (corner, rook) = match side {
            CastlingSide::WK => (Square::H1, PieceIndex::WhiteRook),
            CastlingSide::WQ => (Square::A1, PieceIndex::WhiteRook),
            CastlingSide::BK => (Square::H8, PieceIndex::BlackRook),
            CastlingSide::BQ => (Square::A8, PieceIndex::BlackRook),
        };
        match self.bitboards.piece_on_square(corner) {
            Some(piece) => piece == rook,
            None => false,
        }
    }

    /// Whether the en-passant target and the castling rights fit the
    /// placement: the target, if there is one, is a free square on the sixth
    /// rank of the side to move with a pawn of the other side just behind it,
    /// and for each right that is held the rook stands on its corner.
    pub fn is_consistent(&self) -> (r: bool)
        ensures
            r == self@.layout.consistent(),
    {
        let target_fits = match self.en_passant {
            None => true,
            Some(target) => {
                let (row, col) = target.to_coord();
                let (wanted_row, behind_row, pawn) = match self.side_to_move {
                    Color::White => (5, 4, PieceIndex::BlackPawn),
                    Color::Black => (2, 3, PieceIndex::WhitePawn),
                };
                if row != wanted_row {
                    false
                } else {
                    let behind = Square::from_coords(behind_row, col).unwrap();
                    let free = self.bitboards.piece_on_square(target).is_none();
                    let guarded = match self.bitboards.piece_on_square(behind) {
                        Some(piece) => piece == pawn,
                        None => false,
                    };
                    free && guarded
                }
            },
        };
        let wk = self.rook_at_home(CastlingSide::WK);
        let wq = self.rook_at_home(CastlingSide::WQ);
        let bk = self.rook_at_home(CastlingSide::BK);
        let bq = self.rook_at_home(CastlingSide::BQ);
        proof {
            let lay = self@.layout;
            assert(lay.placement.len() == 64);
            assert(target_fits == lay.en_passant_consistent()) by {
                if self.en_passant is Some {
                    let t = self.en_passant->0@;
                    assert(lay.en_passant == Some(t));
                    assert(0 <= t < 64);
                }
            }
            assert((wk && wq && bk && bq) == lay.castling_consistent()) by {
                if !wk {
                    assert(lay.castling.holds(CastlingSide::WK));
                }
                if !wq {
                    assert(lay.castling.holds(CastlingSide::WQ));
                }
                if !bk {
                    assert(lay.castling.holds(CastlingSide::BK));
                }
                if !bq {
                    assert(lay.castling.holds(CastlingSide::BQ));
                }
            }
        }
        target_fits && wk && wq && bk && bq
    }
}

/// A game: its current state, and the earlier states, oldest first.
#[derive(Clone, Debug, PartialEq)]
pub struct Position {
    pub current: Snapshot,
    pub history: Vec<Snapshot>,
}

impl Position {
    /// The current state and every earlier state is well-formed.
    pub open spec fn wf(self) -> bool {
        &&& self.current.wf()
        &&& forall|i: int| 0 <= i < self.history@.len() ==> (#[trigger] self.history@[i]).wf()
    }

    /// Puts the current state on the history.
    pub fn push(&mut self)
        ensures
            final(self).current == old(self).current,
            final(self).history@ == old(self).history@.push(old(self).current),
            old(self).wf() ==> final(self).wf(),
    {
        self.history.push(self.current);
    }

    /// Takes the last move back: the latest state of the history becomes the
    /// current state again. The history must not be empty.
    pub fn pop(&mut self)
        requires
            old(self).history@.len() > 0,
        ensures
            old(self).taken_back(*final(self)),
            final(self).current == old(self).history@.last(),
            final(self).history@ == old(self).history@.drop_last(),
            old(self).wf() ==> final(self).wf(),
    {
        let earlier = self.history.pop();
        self.current = earlier.unwrap();
    }
}

impl Position {
    /// Whether `next` is this position after `mov` has been applied: the state
    /// before the move is the last of the history, and the current state is
    /// the state after the move.
    pub open spec fn moved(self, mov: BitMove, next: Position) -> bool {
        &&& next.history@ == self.history@.push(self.current)
        &&& next.current@ == self.current@.after(mov)
        &&& next.current.bitboards.wf()
    }

    /// Whether `earlier` is this position after the last move has been taken
    /// back.
    pub open spec fn taken_back(self, earlier: Position) -> bool {
        &&& self.history@.len() > 0
        &&& earlier.current == self.history@.last()
        &&& earlier.history@ == self.history@.drop_last()
    }

    /// Applying a move and taking it back gives the position from before the
    /// move: the same current state, field for field, and the same history.
    pub proof fn lemma_move_and_take_back(self, mov: BitMove, next: Position, back: Position)
        requires
            self.moved(mov, next),
            next.taken_back(back),
        ensures
            back.current == self.current,
            back.history@ == self.history@,
    {
        assert(self.history@.push(self.current).drop_last() =~= self.history@);
    }
}

/// The kind of piece that starts on the back rank in file `col`.
pub open spec fn back_rank(col: int) -> Piece {
    if col == 0 || col == 7 {
        Piece::Rook
    } else if col == 1 || col == 6 {
        Piece::Knight
    } else if col == 2 || col == 5 {
        Piece::Bishop
    } else if col == 3 {
        Piece::Queen
    } else {
        Piece::King
    }
}

/// The piece that starts a game on the square with index `i`.
pub open spec fn start_piece(i: int) -> Option<PieceIndex> {
    if row_of(i) == 0 {
        Some(PieceIndex::of(back_rank(col_of(i)), Color::White))
    } else if row_of(i) == 1 {
        Some(PieceIndex::WhitePawn)
    } else if row_of(i) == 6 {
        Some(PieceIndex::BlackPawn)
    } else if row_of(i) == 7 {
        Some(PieceIndex::of(back_rank(col_of(i)), Color::Black))
    } else {
        None
    }
}

/// The position from which a game starts: every piece on its starting
/// square, White to move, all four castling rights, no en-passant target,
/// the halfmove clock at 0 and the move number at 1.
pub open spec fn start_game() -> Game {
    Game {
        layout: Layout {
            placement: Seq::new(64, |i: int| start_piece(i)),
            side: Color::White,
            castling: Castling { rights: 15 },
            en_passant: None,
        },
        halfmove: 0,
        fullmove: 1,
    }
}

/// The kind of piece that starts on the back rank in file `col`.
fn back_rank_piece(col: usize) -> (p: Piece)
    requires
        col < 8,
    ensures
        p == back_rank(col as int),
{
    match col {
        0 | 7 => Piece::Rook,
        1 | 6 => Piece::Knight,
        2 | 5 => Piece::Bishop,
        3 => Piece::Queen,
        _ => Piece::King,
    }
}

impl Position {
    /// The position from which a game starts, with an empty history.
    #[verifier::rlimit(40)]
    pub fn start() -> (r: Self)
        ensures
            r.current@ == start_game(),
            r.wf(),
            r.history@.len() == 0,
    {
        let mut board = Bitboards::new_empty();
        let mut col: usize = 0;
        assert(board@ =~= Seq::new(64, |i: int| None::<PieceIndex>));
        while col < 8
            invariant
                0 <= col <= 8,
                board.wf(),
                board@ == Seq::new(
                    64,
                    |i: int|
                        if col_of(i) < col {
                            start_piece(i)
                        } else {
                            None
                        },
                ),
            decreases 8 - col,
        {
            let kind = back_rank_piece(col);
            board.set(PieceIndex::from_piece(kind, Color::White), Square::from_coords(0, col).unwrap());
            board.set(PieceIndex::WhitePawn, Square::from_coords(1, col).unwrap());
            board.set(PieceIndex::BlackPawn, Square::from_coords(6, col).unwrap());
            board.set(PieceIndex::from_piece(kind, Color::Black), Square::from_coords(7, col).unwrap());
            col += 1;
            assert(board@ =~= Seq::new(
                64,
                |i: int|
                    if col_of(i) < col {
                        start_piece(i)
                    } else {
                        None
                    },
            ));
        }
        assert(board@ =~= start_game().layout.placement);
        let mut castling = Castling::new();
        castling.add_castle_right(CastlingSide::WK);
        castling.add_castle_right(CastlingSide::WQ);
        castling.add_castle_right(CastlingSide::BK);
        castling.add_castle_right(CastlingSide::BQ);
        assert(castling.rights == 15) by {
            assert(0u8 | 1 | 2 | 4 | 8 == 15) by (bit_vector);
        }
        let current = Snapshot {
            bitboards: board,
            side_to_move: Color::White,
            castling: castling,
            en_passant: None,
            halfmove_clock: 0,
            fullmove_number: 1,
        };
        assert(current@.layout.castling_consistent());
        Position { current: current, history: Vec::new() }
    }

    /// The position that `fen_string` describes, or the position from which
    /// a game starts if none is given. A line that is given must describe a
    /// position.
    pub fn new(fen_string: Option<&str>) -> (r: Self)
        requires
            fen_string matches Some(line) ==> fen_game(line@) is Some,
        ensures
            r.current@ == match fen_string {
                Some(line) => fen_game(line@)->0,
                None => start_game(),
            },
            r.current.bitboards.wf(),
            fen_string is None ==> r.wf(),
            r.history@.len() == 0,
    {
        match fen_string {
            Some(str_val) => Self::read_fen(str_val),
            None => Self::start(),
        }
    }
}

} // verus!
