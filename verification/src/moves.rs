//! Moves packed into sixteen bits, and the fixed-capacity list of moves.
//!
//! From the top bit down a packed move holds the origin square (6 bits), the
//! destination square (6 bits), the capture flag (1 bit) and the kind of the
//! move (3 bits).

use vstd::prelude::*;
use crate::board::Bitboards;
use crate::kastling::Imposter;
use crate::piece::{Piece, PieceIndex};
use crate::square::Square;

verus! {

const FROM_SHIFT: u16 = 10;

const TO_SHIFT: u16 = 4;

const CAPTURE_BIT: u16 = 8;

const FLAG_MASK: u16 = 7;

/// The most moves that a [`MoveList`] holds.
pub const CAPACITY: usize = 256;

/// What kind of move a move is, beyond going from one square to another.
///
/// `EnPassant` stands for two kinds of pawn move, told apart by the capture
/// flag of the move: with the flag it is a capture en passant, without it a
/// two-square advance.
#[derive(Clone, Copy, Debug, PartialEq, Eq, Structural)]
pub enum MoveType {
    Quiet,
    Promotion(Piece),
    EnPassant,
    Castling(Imposter),
}

impl Default for MoveType {
    fn default() -> (m: MoveType)
        ensures
            m == MoveType::Quiet,
    {
        MoveType::Quiet
    }
}

impl MoveType {
    /// A pawn is promoted to a queen, rook, knight or bishop, and to nothing else.
    pub open spec fn encodable(self) -> bool {
        self matches MoveType::Promotion(piece) ==> piece != Piece::Pawn && piece != Piece::King
    }

    /// The three-bit number of the kind.
    pub open spec fn tag(self) -> int {
        match self {
            MoveType::Quiet => 0,
            MoveType::EnPassant => 1,
            MoveType::Castling(Imposter::King) => 2,
            MoveType::Castling(Imposter::Queen) => 3,
            MoveType::Promotion(Piece::Queen) => 4,
            MoveType::Promotion(Piece::Rook) => 5,
            MoveType::Promotion(Piece::Knight) => 6,
            MoveType::Promotion(_) => 7,
        }
    }

    /// The kind with the given three-bit number.
    pub open spec fn of_tag(tag: int) -> MoveType {
        if tag == 0 {
            MoveType::Quiet
        } else if tag == 1 {
            MoveType::EnPassant
        } else if tag == 2 {
            MoveType::Castling(Imposter::King)
        } else if tag == 3 {
            MoveType::Castling(Imposter::Queen)
        } else if tag == 4 {
            MoveType::Promotion(Piece::Queen)
        } else if tag == 5 {
            MoveType::Promotion(Piece::Rook)
        } else if tag == 6 {
            MoveType::Promotion(Piece::Knight)
        } else {
            MoveType::Promotion(Piece::Bishop)
        }
    }
}

/// A move with its four fields spelled out.
#[derive(Clone, Copy, Debug)]
pub struct Move {
    pub from: Square,
    pub to: Square,
    pub is_capture: bool,
    pub move_type: MoveType,
}

impl Default for Move {
    fn default() -> (m: Move)
        ensures
            m.from == Square::A1,
            m.to == Square::A1,
            !m.is_capture,
            m.move_type == MoveType::Quiet,
    {
        Move { from: Square::A1, to: Square::A1, is_capture: false, move_type: MoveType::Quiet }
    }
}

/// A move packed into sixteen bits.
#[derive(Clone, Copy, Debug, PartialEq, Eq, Structural)]
pub struct BitMove(u16);

impl Default for BitMove {
    fn default() -> (b: BitMove)
        ensures
            b.bits() == 0,
    {
        BitMove(0)
    }
}

/// The sixteen-bit value that holds the four fields.
pub open spec fn packed(origin: int, dest: int, capture: bool, tag: int) -> int {
    1024 * origin + 16 * dest + (if capture {
        8int
    } else {
        0int
    }) + tag
}

proof fn lemma_fields(b: u16)
    ensures
        (b >> 10) == b / 1024,
        (b >> 4) & 0b111111 == (b / 16) % 64,
        (b & 8 != 0) == ((b / 8) % 2 == 1),
        b & 0b111 == b % 8,
{
    assert((b >> 10) == b / 1024 && (b >> 4) & 0b111111 == (b / 16) % 64 && (b & 8 != 0) == ((b
        / 8) % 2 == 1) && b & 0b111 == b % 8) by (bit_vector);
}

impl BitMove {
    /// The sixteen bits of the move.
    pub closed spec fn bits(self) -> u16 {
        self.0
    }

    /// Index of the square that the move starts from.
    pub open spec fn origin(self) -> int {
        self.bits() as int / 1024
    }

    /// Index of the square that the move ends on.
    pub open spec fn dest(self) -> int {
        (self.bits() as int / 16) % 64
    }

    /// The capture flag.
    pub open spec fn captures(self) -> bool {
        (self.bits() as int / 8) % 2 == 1
    }

    /// The three-bit number of the kind of the move.
    pub open spec fn tag(self) -> int {
        self.bits() as int % 8
    }

    /// The move with the given fields.
    pub closed spec fn pack(origin: int, dest: int, capture: bool, tag: int) -> BitMove {
        BitMove(packed(origin, dest, capture, tag) as u16)
    }

    /// Packing keeps the four fields, and a packed move is the packing of its
    /// four fields: moves and quadruples of fields correspond one to one.
    pub broadcast proof fn lemma_pack(origin: int, dest: int, capture: bool, tag: int)
        requires
            0 <= origin < 64,
            0 <= dest < 64,
            0 <= tag < 8,
        ensures
            (#[trigger] Self::pack(origin, dest, capture, tag)).bits() == packed(
                origin,
                dest,
                capture,
                tag,
            ),
            Self::pack(origin, dest, capture, tag).origin() == origin,
            Self::pack(origin, dest, capture, tag).dest() == dest,
            Self::pack(origin, dest, capture, tag).captures() == capture,
            Self::pack(origin, dest, capture, tag).tag() == tag,
    {
        let o: u16 = origin as u16;
        let d: u16 = dest as u16;
        let t: u16 = tag as u16;
        let c: u16 = if capture {
            8
        } else {
            0
        };
        let x: u16 = packed(origin, dest, capture, tag) as u16;
        assert(x / 1024 == o && (x / 16) % 64 == d && ((x / 8) % 2 == 1) == (c == 8) && x % 8 == t)
            by (bit_vector)
            requires
                o < 64,
                d < 64,
                t < 8,
                c == 0 || c == 8,
                x == 1024 * o + 16 * d + c + t,
        ;
    }

    /// Every sixteen-bit value is a move: its fields are in range and pack
    /// back to the same value.
    pub proof fn lemma_unpack(self)
        ensures
            0 <= self.origin() < 64,
            0 <= self.dest() < 64,
            0 <= self.tag() < 8,
            Self::pack(self.origin(), self.dest(), self.captures(), self.tag()) == self,
    {
        let x: u16 = self.0;
        assert(x / 1024 < 64 && (x / 16) % 64 < 64 && x % 8 < 8 && x == 1024 * (x / 1024) + 16 * ((x
            / 16) % 64) + 8 * ((x / 8) % 2) + x % 8) by (bit_vector);
    }

    #[inline]
    pub fn new(from: Square, to: Square, is_capture: bool, move_type: MoveType) -> (b: Self)
        requires
            move_type.encodable(),
        ensures
            b == Self::pack(from@, to@, is_capture, move_type.tag()),
    {
        BitMove::encode(Move { from, to, is_capture, move_type })
    }

    pub fn get_start_square(&self) -> (s: Square)
        ensures
            s@ == self.origin(),
    {
        proof {
            lemma_fields(self.0);
        }
        let idx: u16 = self.0 >> FROM_SHIFT;
        Square::from_idx(idx as u8).unwrap()
    }

    pub fn get_end_square(&self) -> (s: Square)
        ensures
            s@ == self.dest(),
    {
        proof {
            lemma_fields(self.0);
        }
        let idx: u16 = (self.0 >> TO_SHIFT) & 0b111111;
        Square::from_idx(idx as u8).unwrap()
    }

    /// The piece that makes the move, looked up on the placement that the move
    /// was generated for.
    pub fn get_piece(&self, boards_before_move: &Bitboards) -> (p: PieceIndex)
        requires
            boards_before_move@[self.origin()] is Some,
        ensures
            Some(p) == boards_before_move@[self.origin()],
    {
        boards_before_move.piece_on_square(self.get_start_square()).unwrap()
    }

    pub fn is_capture(&self) -> (r: bool)
        ensures
            r == self.captures(),
    {
        proof {
            lemma_fields(self.0);
        }
        (self.0 & CAPTURE_BIT) != 0
    }

    pub fn is_quiet(&self) -> (r: bool)
        ensures
            r == (self.tag() == 0),
    {
        proof {
            lemma_fields(self.0);
        }
        self.0 & 0b111 == 0
    }

    pub fn is_double_pawn_push(&self) -> (r: bool)
        ensures
            r == (self.tag() == 1 && !self.captures()),
    {
        proof {
            lemma_fields(self.0);
        }
        self.0 & 0b111 == 1 && !self.is_capture()
    }

    pub fn is_en_passant(&self) -> (r: bool)
        ensures
            r == (self.tag() == 1 && self.captures()),
    {
        proof {
            lemma_fields(self.0);
        }
        self.0 & 0b111 == 1 && self.is_capture()
    }

    /// The wing, if the move is a castling move.
    pub fn get_castle_side(&self) -> (r: Option<Imposter>)
        ensures
            r == match MoveType::of_tag(self.tag()) {
                MoveType::Castling(wing) => Some(wing),
                _ => None,
            },
    {
        proof {
            lemma_fields(self.0);
        }
        match self.0 & 0b111 {
            2 => Some(Imposter::King),
            3 => Some(Imposter::Queen),
            _ => None,
        }
    }

    /// The piece that the pawn becomes, if the move is a promotion.
    pub fn get_premotion_piece(&self) -> (r: Option<Piece>)
        ensures
            r == match MoveType::of_tag(self.tag()) {
                MoveType::Promotion(piece) => Some(piece),
                _ => None,
            },
    {
        proof {
            lemma_fields(self.0);
        }
        match self.0 & 0b111 {
            4 => Some(Piece::Queen),
            5 => Some(Piece::Rook),
            6 => Some(Piece::Knight),
            7 => Some(Piece::Bishop),
            _ => None,
        }
    }

    /// Packs the four fields of `mov`.
    #[inline]
    pub fn encode(mov: Move) -> (b: Self)
        requires
            mov.move_type.encodable(),
        ensures
            b == Self::pack(mov.from@, mov.to@, mov.is_capture, mov.move_type.tag()),
    {
        let move_type_bits: u16 = match mov.move_type {
            MoveType::Quiet => 0,
            MoveType::EnPassant => 1,
            MoveType::Castling(side) => {
                match side {
                    Imposter::King => 2,
                    Imposter::Queen => 3,
                }
            },
            MoveType::Promotion(piece) => {
                match piece {
                    Piece::Queen => 4,
                    Piece::Rook => 5,
                    Piece::Knight => 6,
                    _ => 7,
                }
            },
        };
        let capture_bit: u16 = if mov.is_capture {
            CAPTURE_BIT
        } else {
            0
        };
        let from_index: u16 = mov.from.index() as u16;
        let to_index: u16 = mov.to.index() as u16;
        let from_bits: u16 = from_index << FROM_SHIFT;
        let to_bits: u16 = to_index << TO_SHIFT;
        assert((move_type_bits | capture_bit | from_bits | to_bits) == 1024 * from_index + 16
            * to_index + capture_bit + move_type_bits) by (bit_vector)
            requires
                from_bits == from_index << 10,
                to_bits == to_index << 4,
                from_index < 64,
                to_index < 64,
                capture_bit == 8 || capture_bit == 0,
                move_type_bits < 8,
        ;
        Self(move_type_bits | capture_bit | from_bits | to_bits)
    }

    /// Unpacks the four fields of `bit_move`.
    pub fn decode(bit_move: BitMove) -> (m: Move)
        ensures
            m.from@ == bit_move.origin(),
            m.to@ == bit_move.dest(),
            m.is_capture == bit_move.captures(),
            m.move_type == MoveType::of_tag(bit_move.tag()),
            m.move_type.encodable(),
    {
        proof {
            lemma_fields(bit_move.0);
        }
        let from = bit_move.get_start_square();
        let to = bit_move.get_end_square();
        let is_capture = (bit_move.0 & CAPTURE_BIT) != 0;
        let move_flag = match bit_move.0 & 0b111 {
            0 => MoveType::Quiet,
            1 => MoveType::EnPassant,
            2 => MoveType::Castling(Imposter::King),
            3 => MoveType::Castling(Imposter::Queen),
            4 => MoveType::Promotion(Piece::Queen),
            5 => MoveType::Promotion(Piece::Rook),
            6 => MoveType::Promotion(Piece::Knight),
            _ => MoveType::Promotion(Piece::Bishop),
        };
        Move { from: from, to: to, is_capture: is_capture, move_type: move_flag }
    }
}

/// Unpacking a packed move gives back its fields, and packing the fields of
/// an unpacked move gives back the move.
pub proof fn lemma_codec_round_trip(mov: Move, b: BitMove)
    requires
        mov.move_type.encodable(),
    ensures
        ({
            let e = BitMove::pack(mov.from@, mov.to@, mov.is_capture, mov.move_type.tag());
            &&& e.origin() == mov.from@
            &&& e.dest() == mov.to@
            &&& e.captures() == mov.is_capture
            &&& MoveType::of_tag(e.tag()) == mov.move_type
        }),
        BitMove::pack(b.origin(), b.dest(), b.captures(), MoveType::of_tag(b.tag()).tag()) == b,
{
    crate::square::lemma_square_index(mov.from, mov.to);
    crate::square::lemma_square_index(mov.to, mov.from);
    BitMove::lemma_pack(mov.from@, mov.to@, mov.is_capture, mov.move_type.tag());
    b.lemma_unpack();
}

impl From<BitMove> for Move {
    fn from(value: BitMove) -> (m: Self) {
        let m = BitMove::decode(value);
        proof {
            crate::square::lemma_square_index(m.from, m.to);
            crate::square::lemma_square_index(m.to, m.from);
        }
        m
    }
}

impl vstd::std_specs::convert::FromSpecImpl<BitMove> for Move {
    open spec fn obeys_from_spec() -> bool {
        true
    }

    open spec fn from_spec(value: BitMove) -> Move {
        Move {
            from: Square::at(value.origin()),
            to: Square::at(value.dest()),
            is_capture: value.captures(),
            move_type: MoveType::of_tag(value.tag()),
        }
    }
}

/// An ordered list of at most 256 moves, in the order in which they were added.
#[derive(Debug, Clone, Copy)]
pub struct MoveList {
    moves: [BitMove; 256],
    len: usize,
}

impl View for MoveList {
    type V = Seq<BitMove>;

    /// The moves of the list, first added first.
    closed spec fn view(&self) -> Seq<BitMove> {
        self.moves@.subrange(0, self.len as int)
    }
}

impl MoveList {
    #[verifier::type_invariant]
    spec fn within_capacity(self) -> bool {
        self.len <= 256
    }

    pub fn new_empty() -> (l: Self)
        ensures
            l@ == Seq::<BitMove>::empty(),
    {
        let l = MoveList { moves: [BitMove::default();256], len: 0 };
        assert(l@ =~= Seq::<BitMove>::empty());
        l
    }

    /// The moves of the list in order, as an iterator over the used part of
    /// the storage.
    pub fn iter(&self) -> (it: std::slice::Iter<'_, BitMove>)
        ensures
            vstd::std_specs::slice::into_iter_elts(it) == self@,
    {
        proof {
            use_type_invariant(self);
        }
        let used = vstd::slice::slice_subrange(self.moves.as_slice(), 0, self.size());
        used.iter()
    }

    /// Appends `mov`. The list must not be full.
    #[inline]
    pub fn add(&mut self, mov: BitMove)
        requires
            old(self)@.len() < 256,
        ensures
            final(self)@ == old(self)@.push(mov),
    {
        proof {
            use_type_invariant(&*self);
        }
        self.moves[self.len] = mov;
        self.len += 1;
        assert(self@ =~= old(self)@.push(mov));
    }

    /// The move at position `idx`, if the list is that long.
    #[inline]
    pub fn get(&self, idx: usize) -> (r: Option<&BitMove>)
        ensures
            idx < self@.len() ==> r == Some(&self@[idx as int]),
            idx >= self@.len() ==> r is None,
    {
        proof {
            use_type_invariant(self);
        }
        if idx < self.len {
            return Some(&self.moves[idx]);
        }
        None
    }

    /// The number of moves in the list, never more than 256.
    pub fn size(&self) -> (n: usize)
        ensures
            n == self@.len(),
            n <= 256,
    {
        proof {
            use_type_invariant(self);
        }
        self.len
    }

    /// Empties the list.
    #[inline]
    pub fn clear(&mut self)
        ensures
            final(self)@ == Seq::<BitMove>::empty(),
    {
        self.len = 0;
        assert(self@ =~= Seq::<BitMove>::empty());
    }
}

} // verus!
