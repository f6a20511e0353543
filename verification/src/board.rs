//! Square sets, and the twelve square sets that make up a piece placement.

use vstd::prelude::*;
use crate::bits::{
    bit, lemma_bit_and, lemma_bit_drop_lowest, lemma_bit_east, lemma_bit_north, lemma_bit_not,
    lemma_bit_or, lemma_bit_single, lemma_bit_south, lemma_bit_west, lemma_bit_zero,
    lemma_bits_equal, lemma_lowest, lowest, NOT_FILE_A, NOT_FILE_H,
};
use crate::square::{col_of, on_board, row_of, Square};
use crate::piece::PieceIndex;
use crate::position::Color;
use std::ops::Not;

verus! {

pub const ROWS: usize = 8;

pub const COLS: usize = 8;

/// The squares of `s` moved by `dr` ranks and `dc` files; squares that would
/// leave the board are dropped.
pub open spec fn shifted(s: Set<int>, dr: int, dc: int) -> Set<int> {
    Set::new(
        |t: int|
            0 <= t < 64 && on_board(row_of(t) - dr, col_of(t) - dc) && s.contains(
                t - 8 * dr - dc,
            ),
    )
}

/// A set of squares, held as a 64-bit mask: bit `i` stands for square `i`.
#[derive(Copy, Clone, Debug, PartialEq, Eq, Structural)]
pub struct Bitboard(u64);

impl View for Bitboard {
    type V = Set<int>;

    /// The indices of the squares in the set.
    open spec fn view(&self) -> Set<int> {
        Set::new(|i: int| bit(self.bits(), i))
    }
}

impl Bitboard {
    /// The raw 64-bit pattern.
    pub closed spec fn bits(self) -> u64 {
        self.0
    }

    /// A set holds only indices of the board, and two sets with the same
    /// squares are the same value.
    pub proof fn lemma_view(self, other: Bitboard)
        ensures
            forall|i: int| self@.contains(i) ==> 0 <= i < 64,
            self@ == other@ ==> self == other,
            (self.bits() == 0) == (self@ == Set::<int>::empty()),
    {
        if self@ == other@ {
            assert forall|i: int| 0 <= i < 64 implies bit(self.0, i) == bit(other.0, i) by {
                assert(self@.contains(i) == other@.contains(i));
            }
            lemma_bits_equal(self.0, other.0);
        }
        if self.0 == 0 {
            assert forall|i: int| !self@.contains(i) by {
                lemma_bit_zero(i);
            }
            assert(self@ =~= Set::<int>::empty());
        } else {
            lemma_lowest(self.0);
            assert(self@.contains(lowest(self.0)));
        }
    }

    #[inline]
    pub fn new_empty() -> (b: Self)
        ensures
            b@ == Set::<int>::empty(),
            b.bits() == 0,
    {
        let b = Bitboard(0);
        proof {
            b.lemma_view(b);
        }
        b
    }

    /// Whether the two sets share a square.
    #[inline]
    pub fn intersects(self, other: Self) -> (r: bool)
        ensures
            r == exists|i: int| self@.contains(i) && other@.contains(i),
    {
        let both: u64 = self.0 & other.0;
        proof {
            assert forall|i: int| bit(both, i) == (self@.contains(i) && other@.contains(i)) by {
                lemma_bit_and(self.0, other.0, i);
            }
            if both != 0 {
                lemma_lowest(both);
                assert(self@.contains(lowest(both)) && other@.contains(lowest(both)));
            } else {
                assert forall|i: int| !(self@.contains(i) && other@.contains(i)) by {
                    lemma_bit_zero(i);
                }
            }
        }
        both != 0
    }

    /// Adds the square with index `square_index`.
    #[inline]
    pub fn set(&mut self, square_index: u8)
        requires
            square_index < 64,
        ensures
            final(self)@ == old(self)@.insert(square_index as int),
    {
        let one: u64 = 1u64 << (square_index as u64);
        self.0 = self.0 | one;
        proof {
            assert forall|i: int|
                final(self)@.contains(i) == old(self)@.insert(square_index as int).contains(
                    i,
                ) by {
                lemma_bit_or(old(self).0, one, i);
                lemma_bit_single(square_index as int, i);
            }
            assert(final(self)@ =~= old(self)@.insert(square_index as int));
        }
    }

    /// Takes out the square with index `square_index`.
    #[inline]
    pub fn remove(&mut self, square_index: u8)
        requires
            square_index < 64,
        ensures
            final(self)@ == old(self)@.remove(square_index as int),
    {
        let one: u64 = 1u64 << (square_index as u64);
        self.0 = self.0 & !one;
        proof {
            assert forall|i: int|
                final(self)@.contains(i) == old(self)@.remove(square_index as int).contains(
                    i,
                ) by {
                lemma_bit_and(old(self).0, !one, i);
                lemma_bit_not(one, i);
                lemma_bit_single(square_index as int, i);
            }
            assert(final(self)@ =~= old(self)@.remove(square_index as int));
        }
    }

    /// The index of the square at `(row, col)`.
    #[inline]
    pub fn coord_to_index(row: usize, col: usize) -> (i: u8)
        requires
            on_board(row as int, col as int),
        ensures
            i == row * 8 + col,
    {
        let wide: usize = row * 8 + col;
        wide as u8
    }

    /// Row and column of the square with index `index`.
    #[inline]
    pub fn index_to_coord(index: u8) -> (rc: (usize, usize))
        ensures
            rc.0 == row_of(index as int),
            rc.1 == col_of(index as int),
    {
        ((index / 8) as usize, (index % 8) as usize)
    }

    #[inline]
    pub fn is_occupied(&self, square: Square) -> (r: bool)
        ensures
            r == self@.contains(square@),
    {
        let single = Bitboard::single(square.index());
        let r = self.intersects(single);
        proof {
            if self@.contains(square@) {
                assert(self@.contains(square@) && single@.contains(square@));
            }
        }
        r
    }

    /// Moves every square one file towards the h-file.
    #[inline]
    pub fn shift_right(&mut self)
        ensures
            final(self)@ == shifted(old(self)@, 0, 1),
    {
        self.0 = (self.0 & NOT_FILE_H) << 1u64;
        proof {
            assert forall|i: int|
                final(self)@.contains(i) == shifted(old(self)@, 0, 1).contains(i) by {
                lemma_bit_east(old(self).0, i);
            }
            assert(final(self)@ =~= shifted(old(self)@, 0, 1));
        }
    }

    /// Moves every square one file towards the a-file.
    #[inline]
    pub fn shift_left(&mut self)
        ensures
            final(self)@ == shifted(old(self)@, 0, -1),
    {
        self.0 = (self.0 & NOT_FILE_A) >> 1u64;
        proof {
            assert forall|i: int|
                final(self)@.contains(i) == shifted(old(self)@, 0, -1).contains(i) by {
                lemma_bit_west(old(self).0, i);
            }
            assert(final(self)@ =~= shifted(old(self)@, 0, -1));
        }
    }

    /// Moves every square one rank up.
    #[inline]
    pub fn shift_up(&mut self)
        ensures
            final(self)@ == shifted(old(self)@, 1, 0),
    {
        self.0 = self.0 << 8u64;
        proof {
            assert forall|i: int|
                final(self)@.contains(i) == shifted(old(self)@, 1, 0).contains(i) by {
                lemma_bit_north(old(self).0, i);
            }
            assert(final(self)@ =~= shifted(old(self)@, 1, 0));
        }
    }

    /// Moves every square one rank down.
    #[inline]
    pub fn shift_down(&mut self)
        ensures
            final(self)@ == shifted(old(self)@, -1, 0),
    {
        self.0 = self.0 >> 8u64;
        proof {
            assert forall|i: int|
                final(self)@.contains(i) == shifted(old(self)@, -1, 0).contains(i) by {
                lemma_bit_south(old(self).0, i);
            }
            assert(final(self)@ =~= shifted(old(self)@, -1, 0));
        }
    }

    #[inline]
    pub fn shift_upp_right(&mut self)
        ensures
            final(self)@ == shifted(old(self)@, 1, 1),
    {
        self.shift_up();
        self.shift_right();
        assert(final(self)@ =~= shifted(old(self)@, 1, 1));
    }

    #[inline]
    pub fn shift_upp_left(&mut self)
        ensures
            final(self)@ == shifted(old(self)@, 1, -1),
    {
        self.shift_up();
        self.shift_left();
        assert(final(self)@ =~= shifted(old(self)@, 1, -1));
    }

    #[inline]
    pub fn shift_down_right(&mut self)
        ensures
            final(self)@ == shifted(old(self)@, -1, 1),
    {
        self.shift_down();
        self.shift_right();
        assert(final(self)@ =~= shifted(old(self)@, -1, 1));
    }

    #[inline]
    pub fn shift_down_left(&mut self)
        ensures
            final(self)@ == shifted(old(self)@, -1, -1),
    {
        self.shift_down();
        self.shift_left();
        assert(final(self)@ =~= shifted(old(self)@, -1, -1));
    }

    /// Takes out the square with the lowest index and returns that index;
    /// `None`, with the set unchanged, if the set is empty.
    #[inline]
    pub fn pop_lsb(&mut self) -> (r: Option<u8>)
        ensures
            old(self)@ == Set::<int>::empty() ==> r is None && *final(self) == *old(self),
            old(self)@ != Set::<int>::empty() ==> r is Some && old(self)@.contains(r->0 as int)
                && (forall|i: int| old(self)@.contains(i) ==> r->0 <= i) && final(self)@ == old(
                self,
            )@.remove(r->0 as int),
    {
        proof {
            self.lemma_view(*self);
        }
        if self.0 == 0 {
            return None;
        }
        let lsb: u32 = self.0.trailing_zeros();
        proof {
            lemma_lowest(self.0);
        }
        self.0 = self.0 & (self.0 - 1);
        proof {
            assert forall|i: int|
                final(self)@.contains(i) == old(self)@.remove(lsb as int).contains(i) by {
                lemma_bit_drop_lowest(old(self).0, i);
            }
            assert(final(self)@ =~= old(self)@.remove(lsb as int));
        }
        Some(lsb as u8)
    }

    /// The set that holds the square with index `square_index` and no other.
    #[inline]
    pub fn single(square_index: u8) -> (b: Self)
        requires
            square_index < 64,
        ensures
            b@ == set![square_index as int],
    {
        let b = Bitboard(1u64 << (square_index as u64));
        proof {
            assert forall|i: int| b@.contains(i) == (i == square_index) by {
                lemma_bit_single(square_index as int, i);
            }
            assert(b@ =~= set![square_index as int]);
        }
        b
    }

    /// The set whose mask is `val`.
    pub fn new_const(val: u64) -> (b: Self)
        ensures
            b.bits() == val,
    {
        Self(val)
    }
}

impl From<u64> for Bitboard {
    fn from(value: u64) -> (b: Self) {
        Bitboard(value)
    }
}

impl vstd::std_specs::convert::FromSpecImpl<u64> for Bitboard {
    open spec fn obeys_from_spec() -> bool {
        true
    }

    closed spec fn from_spec(value: u64) -> Bitboard {
        Bitboard(value)
    }
}

/// Converting a raw pattern keeps every bit of it.
pub proof fn lemma_from_bits(value: u64)
    ensures
        <Bitboard as vstd::std_specs::convert::FromSpec<u64>>::from_spec(value).bits() == value,
{
}

impl Bitboard {
    /// The squares that are in either set.
    pub closed spec fn union(self, rhs: Bitboard) -> Bitboard {
        Bitboard(self.0 | rhs.0)
    }

    /// The squares that are in both sets.
    pub closed spec fn intersection(self, rhs: Bitboard) -> Bitboard {
        Bitboard(self.0 & rhs.0)
    }

    /// The squares of the board that are not in the set.
    pub closed spec fn complement(self) -> Bitboard {
        Bitboard(!self.0)
    }

    /// `|`, `&` and `!` are union, intersection and complement within the board.
    pub broadcast proof fn lemma_set_algebra(self, rhs: Bitboard)
        ensures
            #![trigger self.union(rhs)]
            #![trigger self.intersection(rhs)]
            self.union(rhs)@ == self@ + rhs@,
            self.intersection(rhs)@ == self@ * rhs@,
            self.complement()@ == Set::new(|i: int| 0 <= i < 64 && !self@.contains(i)),
    {
        assert forall|i: int| self.union(rhs)@.contains(i) == (self@ + rhs@).contains(i) by {
            lemma_bit_or(self.0, rhs.0, i);
        }
        assert forall|i: int|
            self.intersection(rhs)@.contains(i) == (self@ * rhs@).contains(i) by {
            lemma_bit_and(self.0, rhs.0, i);
        }
        assert forall|i: int|
            self.complement()@.contains(i) == (0 <= i < 64 && !self@.contains(i)) by {
            lemma_bit_not(self.0, i);
        }
        assert(self.union(rhs)@ =~= self@ + rhs@);
        assert(self.intersection(rhs)@ =~= self@ * rhs@);
        assert(self.complement()@ =~= Set::new(|i: int| 0 <= i < 64 && !self@.contains(i)));
    }
}

impl std::ops::BitOr for Bitboard {
    type Output = Self;

    fn bitor(self, rhs: Self) -> (r: Self) {
        Bitboard(self.0 | rhs.0)
    }
}

impl vstd::std_specs::ops::BitOrSpecImpl for Bitboard {
    open spec fn obeys_bitor_spec() -> bool {
        true
    }

    open spec fn bitor_req(self, rhs: Bitboard) -> bool {
        true
    }

    open spec fn bitor_spec(self, rhs: Bitboard) -> Bitboard {
        self.union(rhs)
    }
}

impl std::ops::BitAnd for Bitboard {
    type Output = Self;

    fn bitand(self, rhs: Self) -> (r: Self) {
        Bitboard(self.0 & rhs.0)
    }
}

impl vstd::std_specs::ops::BitAndSpecImpl for Bitboard {
    open spec fn obeys_bitand_spec() -> bool {
        true
    }

    open spec fn bitand_req(self, rhs: Bitboard) -> bool {
        true
    }

    open spec fn bitand_spec(self, rhs: Bitboard) -> Bitboard {
        self.intersection(rhs)
    }
}

impl std::ops::Not for Bitboard {
    type Output = Bitboard;

    fn not(self) -> (r: Bitboard) {
        Bitboard(!self.0)
    }
}

impl vstd::std_specs::ops::NotSpecImpl for Bitboard {
    open spec fn obeys_not_spec() -> bool {
        true
    }

    open spec fn not_req(self) -> bool {
        true
    }

    open spec fn not_spec(self) -> Bitboard {
        self.complement()
    }
}

impl std::ops::BitOrAssign for Bitboard {
    fn bitor_assign(&mut self, rhs: Self)
        ensures
            *final(self) == old(self).union(rhs),
    {
        self.0 = self.0 | rhs.0;
    }
}

impl std::ops::BitAndAssign for Bitboard {
    fn bitand_assign(&mut self, rhs: Self)
        ensures
            *final(self) == old(self).intersection(rhs),
    {
        self.0 = self.0 & rhs.0;
    }
}

/// The twelve square sets of a placement, one per coloured piece, with the
/// squares of each side and of both sides kept alongside.
#[derive(Clone, Copy, Debug, PartialEq, Eq)]
pub struct Bitboards {
    pub boards: [Bitboard; 12],
    pub white_occupancy: Bitboard,
    pub black_occupancy: Bitboard,
    pub all_occupancy: Bitboard,
}

impl View for Bitboards {
    type V = Seq<Option<PieceIndex>>;

    /// The placement: for each of the 64 squares, the piece that stands on it.
    open spec fn view(&self) -> Seq<Option<PieceIndex>> {
        Seq::new(64, |s: int| self.piece_at(s))
    }
}

impl Bitboards {
    /// Whether the set of piece number `p` holds square `s`.
    pub open spec fn holds(self, p: int, s: int) -> bool {
        self.boards[p]@.contains(s)
    }

    /// The squares held by the sets of the pieces numbered `lo..hi`.
    pub open spec fn squares_of(self, lo: int, hi: int) -> Set<int> {
        Set::new(|s: int| exists|p: int| lo <= p < hi && self.holds(p, s))
    }

    /// The piece on square `s`: the first of the twelve whose set holds `s`.
    pub open spec fn piece_at(self, s: int) -> Option<PieceIndex> {
        if self.holds(0, s) {
            Some(PieceIndex::WhitePawn)
        } else if self.holds(1, s) {
            Some(PieceIndex::WhiteKnight)
        } else if self.holds(2, s) {
            Some(PieceIndex::WhiteBishop)
        } else if self.holds(3, s) {
            Some(PieceIndex::WhiteRook)
        } else if self.holds(4, s) {
            Some(PieceIndex::WhiteQueen)
        } else if self.holds(5, s) {
            Some(PieceIndex::WhiteKing)
        } else if self.holds(6, s) {
            Some(PieceIndex::BlackPawn)
        } else if self.holds(7, s) {
            Some(PieceIndex::BlackKnight)
        } else if self.holds(8, s) {
            Some(PieceIndex::BlackBishop)
        } else if self.holds(9, s) {
            Some(PieceIndex::BlackRook)
        } else if self.holds(10, s) {
            Some(PieceIndex::BlackQueen)
        } else if self.holds(11, s) {
            Some(PieceIndex::BlackKing)
        } else {
            None
        }
    }

    #[inline]
    pub fn new_empty() -> (b: Self)
        ensures
            b.wf(),
            forall|p: int, s: int| 0 <= p < 12 ==> !b.holds(p, s),
            forall|s: int| 0 <= s < 64 ==> b@[s] is None,
            b.white_occupancy@ == Set::<int>::empty(),
            b.black_occupancy@ == Set::<int>::empty(),
            b.all_occupancy@ == Set::<int>::empty(),
    {
        let none = Bitboard::new_empty();
        Bitboards {
            boards: [none;12],
            white_occupancy: none,
            black_occupancy: none,
            all_occupancy: none,
        }
    }

    /// The set of the given piece.
    #[inline]
    pub fn get_bitboard(&self, piece: PieceIndex) -> (b: Bitboard)
        ensures
            b == self.boards[piece@],
    {
        self.boards[piece.index()]
    }

    /// The set of the given piece, to be changed in place. The occupancies are
    /// not kept up with what the caller writes.
    #[inline]
    pub fn get_bitboard_mut(&mut self, piece: PieceIndex) -> (b: &mut Bitboard)
        ensures
            *b == old(self).boards[piece@],
            final(self).boards@ == old(self).boards@.update(piece@, *final(b)),
            final(self).white_occupancy == old(self).white_occupancy,
            final(self).black_occupancy == old(self).black_occupancy,
            final(self).all_occupancy == old(self).all_occupancy,
    {
        &mut self.boards[piece.index()]
    }

    /// Adds the squares of the twelve sets to the occupancies: those of the
    /// white pieces to the white occupancy, those of the black pieces to the
    /// black occupancy, and all of them to the combined occupancy.
    pub fn uppdate_occupancy(&mut self)
        ensures
            final(self).boards == old(self).boards,
            final(self).white_occupancy@ == old(self).white_occupancy@ + old(self).squares_of(0, 6),
            final(self).black_occupancy@ == old(self).black_occupancy@ + old(self).squares_of(6, 12),
            final(self).all_occupancy@ == old(self).all_occupancy@ + old(self).squares_of(0, 12),
    {
        let mut piece_nr: usize = 0;
        while piece_nr < 12
            invariant
                0 <= piece_nr <= 12,
                self.boards == old(self).boards,
                self.white_occupancy@ =~= old(self).white_occupancy@ + old(self).squares_of(
                    0,
                    if piece_nr < 6 {
                        piece_nr as int
                    } else {
                        6
                    },
                ),
                self.black_occupancy@ =~= old(self).black_occupancy@ + old(self).squares_of(
                    6,
                    piece_nr as int,
                ),
                self.all_occupancy@ =~= old(self).all_occupancy@ + old(self).squares_of(
                    0,
                    piece_nr as int,
                ),
            decreases 12 - piece_nr,
        {
            let piece = self.boards[piece_nr];
            proof {
                self.all_occupancy.lemma_set_algebra(piece);
                self.white_occupancy.lemma_set_algebra(piece);
                self.black_occupancy.lemma_set_algebra(piece);
                assert forall|s: int| piece@.contains(s) == old(self).holds(piece_nr as int, s) by {}
            }
            self.all_occupancy = self.all_occupancy | piece;
            if piece_nr < 6 {
                self.white_occupancy = self.white_occupancy | piece;
            } else {
                self.black_occupancy = self.black_occupancy | piece;
            }
            piece_nr += 1;
        }
    }

    /// Puts `piece` on `square`: the square joins the set of the piece, the
    /// occupancy of its side and the combined occupancy.
    #[inline]
    pub fn set(&mut self, piece: PieceIndex, square: Square)
        ensures
            final(self).boards[piece@]@ == old(self).boards[piece@]@.insert(square@),
            forall|q: int| 0 <= q < 12 && q != piece@ ==> final(self).boards[q] == old(self).boards[q],
            final(self).white_occupancy@ == if piece.side() == Color::White {
                old(self).white_occupancy@.insert(square@)
            } else {
                old(self).white_occupancy@
            },
            final(self).black_occupancy@ == if piece.side() == Color::Black {
                old(self).black_occupancy@.insert(square@)
            } else {
                old(self).black_occupancy@
            },
            final(self).all_occupancy@ == old(self).all_occupancy@.insert(square@),
            old(self).wf() && old(self)@[square@] is None ==> final(self).wf() && final(self)@
                == old(self)@.update(square@, Some(piece)),
    {
        let single = square.to_bitboard();
        let i: usize = piece.index();
        proof {
            self.boards[i as int].lemma_set_algebra(single);
            self.white_occupancy.lemma_set_algebra(single);
            self.black_occupancy.lemma_set_algebra(single);
            self.all_occupancy.lemma_set_algebra(single);
        }
        self.boards[i] = self.boards[i] | single;
        match piece.color() {
            Color::Black => {
                self.black_occupancy = self.black_occupancy | single;
            },
            Color::White => {
                self.white_occupancy = self.white_occupancy | single;
            },
        }
        self.all_occupancy = self.all_occupancy | single;
        proof {
            assert(final(self).boards[piece@]@ =~= old(self).boards[piece@]@.insert(square@));
            assert(final(self).all_occupancy@ =~= old(self).all_occupancy@.insert(square@));
            if piece.side() == Color::White {
                assert(final(self).white_occupancy@ =~= old(self).white_occupancy@.insert(square@));
            } else {
                assert(final(self).black_occupancy@ =~= old(self).black_occupancy@.insert(square@));
            }
            if old(self).wf() && old(self)@[square@] is None {
                old(self).lemma_placed(*final(self), piece, square@);
            }
        }
    }

    /// Takes `piece` off `square`: the square leaves the set of the piece and
    /// all three occupancies.
    pub fn remove(&mut self, piece: PieceIndex, square: Square)
        ensures
            final(self).boards[piece@]@ == old(self).boards[piece@]@.remove(square@),
            forall|q: int| 0 <= q < 12 && q != piece@ ==> final(self).boards[q] == old(self).boards[q],
            final(self).white_occupancy@ == old(self).white_occupancy@.remove(square@),
            final(self).black_occupancy@ == old(self).black_occupancy@.remove(square@),
            final(self).all_occupancy@ == old(self).all_occupancy@.remove(square@),
            old(self).wf() && (old(self)@[square@] == Some(piece) || old(self)@[square@] is None)
                ==> final(self).wf() && final(self)@ == old(self)@.update(square@, None),
    {
        let single = square.to_bitboard();
        let all_but_square_mask = single.not();
        let i: usize = piece.index();
        proof {
            single.lemma_set_algebra(single);
            self.boards[i as int].lemma_set_algebra(all_but_square_mask);
            self.white_occupancy.lemma_set_algebra(all_but_square_mask);
            self.black_occupancy.lemma_set_algebra(all_but_square_mask);
            self.all_occupancy.lemma_set_algebra(all_but_square_mask);
        }
        self.boards[i] = self.boards[i] & all_but_square_mask;
        self.all_occupancy = self.all_occupancy & all_but_square_mask;
        self.black_occupancy = self.black_occupancy & all_but_square_mask;
        self.white_occupancy = self.white_occupancy & all_but_square_mask;
        proof {
            assert(final(self).boards[piece@]@ =~= old(self).boards[piece@]@.remove(square@));
            assert(final(self).all_occupancy@ =~= old(self).all_occupancy@.remove(square@));
            assert(final(self).white_occupancy@ =~= old(self).white_occupancy@.remove(square@));
            assert(final(self).black_occupancy@ =~= old(self).black_occupancy@.remove(square@));
            if old(self).wf() && (old(self)@[square@] == Some(piece) || old(self)@[square@] is None) {
                old(self).lemma_cleared(*final(self), piece, square@);
            }
        }
    }

    /// The piece on `square`, if any: the first of the twelve whose set holds
    /// the square.
    #[inline]
    pub fn piece_on_square(&self, square: Square) -> (r: Option<PieceIndex>)
        ensures
            r == self@[square@],
            r == self.piece_at(square@),
    {
        let single = square.to_bitboard();
        let mut piece: usize = 0;
        while piece < 12
            invariant
                0 <= piece <= 12,
                single@ == set![square@],
                forall|q: int| 0 <= q < piece ==> !self.holds(q, square@),
            decreases 12 - piece,
        {
            if self.boards[piece].intersects(single) {
                return PieceIndex::from_index(piece);
            }
            proof {
                if self.holds(piece as int, square@) {
                    assert(self.boards[piece as int]@.contains(square@) && single@.contains(square@));
                }
            }
            piece += 1;
        }
        None
    }

    /// Putting a piece on an empty square of a well-formed placement.
    proof fn lemma_placed(self, next: Bitboards, piece: PieceIndex, s: int)
        requires
            self.wf(),
            0 <= s < 64,
            self@[s] is None,
            next.boards[piece@]@ == self.boards[piece@]@.insert(s),
            forall|q: int| 0 <= q < 12 && q != piece@ ==> next.boards[q] == self.boards[q],
            next.white_occupancy@ == if piece.side() == Color::White {
                self.white_occupancy@.insert(s)
            } else {
                self.white_occupancy@
            },
            next.black_occupancy@ == if piece.side() == Color::Black {
                self.black_occupancy@.insert(s)
            } else {
                self.black_occupancy@
            },
            next.all_occupancy@ == self.all_occupancy@.insert(s),
        ensures
            next.wf(),
            next@ == self@.update(s, Some(piece)),
    {
        self.lemma_wf();
        assert forall|q: int, t: int| 0 <= q < 12 implies next.holds(q, t) == (self.holds(q, t) || (q
            == piece@ && t == s)) by {}
        assert forall|t: int| 0 <= t < 64 implies next.piece_at(t) == self@.update(s, Some(piece))[t] by {
            if t == s {
                assert(self.piece_at(s) is None);
            }
        }
        assert(next@ =~= self@.update(s, Some(piece)));
        assert forall|t: int| next.white_occupancy@.contains(t) == next.squares_of(0, 6).contains(t) by {
            if self.squares_of(0, 6).contains(t) {
                let w = choose|w: int| 0 <= w < 6 && self.holds(w, t);
                assert(next.holds(w, t));
            }
            if t == s && piece.side() == Color::White {
                assert(next.holds(piece@, t));
            }
        }
        assert forall|t: int| next.black_occupancy@.contains(t) == next.squares_of(6, 12).contains(t) by {
            if self.squares_of(6, 12).contains(t) {
                let w = choose|w: int| 6 <= w < 12 && self.holds(w, t);
                assert(next.holds(w, t));
            }
            if t == s && piece.side() == Color::Black {
                assert(next.holds(piece@, t));
            }
        }
    }

    /// Taking the piece off a square of a well-formed placement.
    proof fn lemma_cleared(self, next: Bitboards, piece: PieceIndex, s: int)
        requires
            self.wf(),
            0 <= s < 64,
            self@[s] == Some(piece) || self@[s] is None,
            next.boards[piece@]@ == self.boards[piece@]@.remove(s),
            forall|q: int| 0 <= q < 12 && q != piece@ ==> next.boards[q] == self.boards[q],
            next.white_occupancy@ == self.white_occupancy@.remove(s),
            next.black_occupancy@ == self.black_occupancy@.remove(s),
            next.all_occupancy@ == self.all_occupancy@.remove(s),
        ensures
            next.wf(),
            next@ == self@.update(s, None),
    {
        self.lemma_wf();
        assert forall|q: int, t: int| 0 <= q < 12 implies next.holds(q, t) == (self.holds(q, t) && t
            != s) by {
            if q != piece@ && t == s && self.holds(q, t) {
                assert(self.piece_at(s) is Some);
            }
        }
        assert forall|t: int| 0 <= t < 64 implies next.piece_at(t) == self@.update(s, None)[t] by {}
        assert(next@ =~= self@.update(s, None));
        assert forall|t: int| next.white_occupancy@.contains(t) == next.squares_of(0, 6).contains(t) by {
            if self.squares_of(0, 6).contains(t) && t != s {
                let w = choose|w: int| 0 <= w < 6 && self.holds(w, t);
                assert(next.holds(w, t));
            }
        }
        assert forall|t: int| next.black_occupancy@.contains(t) == next.squares_of(6, 12).contains(t) by {
            if self.squares_of(6, 12).contains(t) && t != s {
                let w = choose|w: int| 6 <= w < 12 && self.holds(w, t);
                assert(next.holds(w, t));
            }
        }
    }

    /// No square is in two of the twelve sets.
    pub open spec fn disjoint(self) -> bool {
        forall|p: int, q: int, s: int|
            0 <= p < q < 12 && #[trigger] self.holds(p, s) ==> !#[trigger] self.holds(q, s)
    }

    /// The twelve sets are pairwise disjoint, each side's occupancy is the
    /// union of its six sets, and the combined occupancy is the union of both.
    pub open spec fn wf(self) -> bool {
        &&& self.disjoint()
        &&& self.white_occupancy@ =~= self.squares_of(0, 6)
        &&& self.black_occupancy@ =~= self.squares_of(6, 12)
        &&& self.all_occupancy@ =~= self.white_occupancy@ + self.black_occupancy@
    }

    /// In a well-formed placement no square is in two of the twelve sets, the
    /// combined occupancy is the union of the twelve, and the occupancies of
    /// the two sides share no square and make up the combined occupancy.
    pub proof fn lemma_occupancy(self)
        requires
            self.wf(),
        ensures
            forall|p: int, q: int|
                0 <= p < 12 && 0 <= q < 12 && p != q ==> self.boards[p]@.disjoint(self.boards[q]@),
            self.all_occupancy@ == self.squares_of(0, 12),
            self.white_occupancy@.disjoint(self.black_occupancy@),
            self.white_occupancy@ + self.black_occupancy@ == self.all_occupancy@,
    {
        assert forall|p: int, q: int| 0 <= p < 12 && 0 <= q < 12 && p != q implies self.boards[p]@.disjoint(
            self.boards[q]@,
        ) by {
            assert forall|s: int| !(self.boards[p]@.contains(s) && self.boards[q]@.contains(s)) by {
                if self.holds(p, s) && self.holds(q, s) {
                    if p < q {
                        assert(!self.holds(q, s));
                    } else {
                        assert(!self.holds(p, s));
                    }
                }
            }
        }
        assert forall|s: int| self.all_occupancy@.contains(s) == self.squares_of(0, 12).contains(
            s,
        ) by {
            if self.squares_of(0, 12).contains(s) {
                let p = choose|p: int| 0 <= p < 12 && self.holds(p, s);
                if p < 6 {
                    assert(self.squares_of(0, 6).contains(s));
                } else {
                    assert(self.squares_of(6, 12).contains(s));
                }
            }
            if self.squares_of(0, 6).contains(s) {
                let p = choose|p: int| 0 <= p < 6 && self.holds(p, s);
                assert(0 <= p < 12 && self.holds(p, s));
            }
            if self.squares_of(6, 12).contains(s) {
                let p = choose|p: int| 6 <= p < 12 && self.holds(p, s);
                assert(0 <= p < 12 && self.holds(p, s));
            }
        }
        assert(self.all_occupancy@ =~= self.squares_of(0, 12));
        assert forall|s: int|
            !(self.white_occupancy@.contains(s) && self.black_occupancy@.contains(s)) by {
            if self.squares_of(0, 6).contains(s) && self.squares_of(6, 12).contains(s) {
                let p = choose|p: int| 0 <= p < 6 && self.holds(p, s);
                let q = choose|q: int| 6 <= q < 12 && self.holds(q, s);
                assert(!self.holds(q, s));
            }
        }
    }

    /// In a well-formed placement each set holds exactly the squares on which
    /// its piece stands, and the occupancies hold exactly the squares on which
    /// a piece of that side, or any piece, stands.
    pub proof fn lemma_wf(self)
        requires
            self.wf(),
        ensures
            forall|p: PieceIndex, s: int| #[trigger]
                self.holds(p@, s) <==> 0 <= s < 64 && self@[s] == Some(p),
            forall|s: int| #[trigger]
                self.white_occupancy@.contains(s) <==> 0 <= s < 64 && self@[s] is Some
                    && self@[s]->0.side() == Color::White,
            forall|s: int| #[trigger]
                self.black_occupancy@.contains(s) <==> 0 <= s < 64 && self@[s] is Some
                    && self@[s]->0.side() == Color::Black,
            forall|s: int| #[trigger]
                self.all_occupancy@.contains(s) <==> 0 <= s < 64 && self@[s] is Some,
    {
        assert forall|p: PieceIndex, s: int| #[trigger]
            self.holds(p@, s) <==> 0 <= s < 64 && self@[s] == Some(p) by {
            self.boards[p@].lemma_view(self.boards[p@]);
        }
        assert forall|s: int| #[trigger]
            self.white_occupancy@.contains(s) <==> 0 <= s < 64 && self@[s] is Some
                && self@[s]->0.side() == Color::White by {
            self.white_occupancy.lemma_view(self.white_occupancy);
            assert(self.white_occupancy@.contains(s) == self.squares_of(0, 6).contains(s));
            if 0 <= s < 64 && self@[s] is Some {
                assert(self.holds(self@[s]->0@, s));
            }
        }
        assert forall|s: int| #[trigger]
            self.black_occupancy@.contains(s) <==> 0 <= s < 64 && self@[s] is Some
                && self@[s]->0.side() == Color::Black by {
            self.black_occupancy.lemma_view(self.black_occupancy);
            assert(self.black_occupancy@.contains(s) == self.squares_of(6, 12).contains(s));
            if 0 <= s < 64 && self@[s] is Some {
                assert(self.holds(self@[s]->0@, s));
            }
        }
    }
}

} // verus!
