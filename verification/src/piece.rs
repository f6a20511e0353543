//! Piece kinds, and piece kinds paired with a colour.

use vstd::prelude::*;
use crate::position::Color;

verus! {

/// A kind of piece, without its colour.
#[derive(Copy, Clone, Debug, PartialEq, Eq, Structural)]
pub enum Piece {
    Pawn,
    Knight,
    Bishop,
    Rook,
    Queen,
    King,
}

impl Default for Piece {
    fn default() -> (p: Piece)
        ensures
            p == Piece::Pawn,
    {
        Piece::Pawn
    }
}

impl Piece {
    /// The kind of a coloured piece.
    pub fn from_piece_index(piece_index: &PieceIndex) -> (p: Piece)
        ensures
            p == piece_index.kind(),
    {
        match piece_index {
            PieceIndex::BlackPawn | PieceIndex::WhitePawn => Self::Pawn,
            PieceIndex::BlackBishop | PieceIndex::WhiteBishop => Self::Bishop,
            PieceIndex::BlackKnight | PieceIndex::WhiteKnight => Self::Knight,
            PieceIndex::BlackRook | PieceIndex::WhiteRook => Self::Rook,
            PieceIndex::BlackQueen | PieceIndex::WhiteQueen => Self::Queen,
            PieceIndex::BlackKing | PieceIndex::WhiteKing => Self::King,
        }
    }

    /// Position of the kind in the order pawn, knight, bishop, rook, queen, king.
    pub open spec fn ordinal(self) -> int {
        match self {
            Piece::Pawn => 0,
            Piece::Knight => 1,
            Piece::Bishop => 2,
            Piece::Rook => 3,
            Piece::Queen => 4,
            Piece::King => 5,
        }
    }
}

/// A kind of piece together with its colour. The six white pieces come first,
/// each colour in the order of [`Piece`].
#[derive(Copy, Clone, Debug, PartialEq, Eq, Structural)]
pub enum PieceIndex {
    WhitePawn,
    WhiteKnight,
    WhiteBishop,
    WhiteRook,
    WhiteQueen,
    WhiteKing,
    BlackPawn,
    BlackKnight,
    BlackBishop,
    BlackRook,
    BlackQueen,
    BlackKing,
}

impl Default for PieceIndex {
    fn default() -> (p: PieceIndex)
        ensures
            p == PieceIndex::WhitePawn,
    {
        PieceIndex::WhitePawn
    }
}

impl View for PieceIndex {
    type V = int;

    /// The number of the piece, `0..12`: white pieces are `0..6`, black `6..12`.
    open spec fn view(&self) -> int {
        match *self {
            PieceIndex::WhitePawn => 0,
            PieceIndex::WhiteKnight => 1,
            PieceIndex::WhiteBishop => 2,
            PieceIndex::WhiteRook => 3,
            PieceIndex::WhiteQueen => 4,
            PieceIndex::WhiteKing => 5,
            PieceIndex::BlackPawn => 6,
            PieceIndex::BlackKnight => 7,
            PieceIndex::BlackBishop => 8,
            PieceIndex::BlackRook => 9,
            PieceIndex::BlackQueen => 10,
            PieceIndex::BlackKing => 11,
        }
    }
}

impl PieceIndex {
    /// The piece of the given kind and colour.
    pub open spec fn of(piece: Piece, color: Color) -> PieceIndex {
        match (color, piece) {
            (Color::White, Piece::Pawn) => PieceIndex::WhitePawn,
            (Color::White, Piece::Knight) => PieceIndex::WhiteKnight,
            (Color::White, Piece::Bishop) => PieceIndex::WhiteBishop,
            (Color::White, Piece::Rook) => PieceIndex::WhiteRook,
            (Color::White, Piece::Queen) => PieceIndex::WhiteQueen,
            (Color::White, Piece::King) => PieceIndex::WhiteKing,
            (Color::Black, Piece::Pawn) => PieceIndex::BlackPawn,
            (Color::Black, Piece::Knight) => PieceIndex::BlackKnight,
            (Color::Black, Piece::Bishop) => PieceIndex::BlackBishop,
            (Color::Black, Piece::Rook) => PieceIndex::BlackRook,
            (Color::Black, Piece::Queen) => PieceIndex::BlackQueen,
            (Color::Black, Piece::King) => PieceIndex::BlackKing,
        }
    }

    /// The kind of the piece.
    pub open spec fn kind(self) -> Piece {
        match self {
            PieceIndex::WhitePawn | PieceIndex::BlackPawn => Piece::Pawn,
            PieceIndex::WhiteKnight | PieceIndex::BlackKnight => Piece::Knight,
            PieceIndex::WhiteBishop | PieceIndex::BlackBishop => Piece::Bishop,
            PieceIndex::WhiteRook | PieceIndex::BlackRook => Piece::Rook,
            PieceIndex::WhiteQueen | PieceIndex::BlackQueen => Piece::Queen,
            PieceIndex::WhiteKing | PieceIndex::BlackKing => Piece::King,
        }
    }

    /// The colour of the piece.
    pub open spec fn side(self) -> Color {
        if self@ < 6 {
            Color::White
        } else {
            Color::Black
        }
    }

    /// The letter that stands for the piece in a position string: upper case
    /// for white, lower case for black.
    pub open spec fn letter(self) -> char {
        match self {
            PieceIndex::WhitePawn => 'P',
            PieceIndex::WhiteKnight => 'N',
            PieceIndex::WhiteBishop => 'B',
            PieceIndex::WhiteRook => 'R',
            PieceIndex::WhiteQueen => 'Q',
            PieceIndex::WhiteKing => 'K',
            PieceIndex::BlackPawn => 'p',
            PieceIndex::BlackKnight => 'n',
            PieceIndex::BlackBishop => 'b',
            PieceIndex::BlackRook => 'r',
            PieceIndex::BlackQueen => 'q',
            PieceIndex::BlackKing => 'k',
        }
    }

    /// The piece that the letter `c` stands for, if it stands for one.
    pub open spec fn lettered(c: char) -> Option<PieceIndex> {
        if c == 'P' {
            Some(PieceIndex::WhitePawn)
        } else if c == 'N' {
            Some(PieceIndex::WhiteKnight)
        } else if c == 'B' {
            Some(PieceIndex::WhiteBishop)
        } else if c == 'R' {
            Some(PieceIndex::WhiteRook)
        } else if c == 'Q' {
            Some(PieceIndex::WhiteQueen)
        } else if c == 'K' {
            Some(PieceIndex::WhiteKing)
        } else if c == 'p' {
            Some(PieceIndex::BlackPawn)
        } else if c == 'n' {
            Some(PieceIndex::BlackKnight)
        } else if c == 'b' {
            Some(PieceIndex::BlackBishop)
        } else if c == 'r' {
            Some(PieceIndex::BlackRook)
        } else if c == 'q' {
            Some(PieceIndex::BlackQueen)
        } else if c == 'k' {
            Some(PieceIndex::BlackKing)
        } else {
            None
        }
    }

    pub fn to_fen_char(self) -> (c: char)
        ensures
            c == self.letter(),
    {
        match self {
            PieceIndex::WhitePawn => 'P',
            PieceIndex::WhiteKnight => 'N',
            PieceIndex::WhiteBishop => 'B',
            PieceIndex::WhiteRook => 'R',
            PieceIndex::WhiteQueen => 'Q',
            PieceIndex::WhiteKing => 'K',
            PieceIndex::BlackPawn => 'p',
            PieceIndex::BlackKnight => 'n',
            PieceIndex::BlackBishop => 'b',
            PieceIndex::BlackRook => 'r',
            PieceIndex::BlackQueen => 'q',
            PieceIndex::BlackKing => 'k',
        }
    }

    /// The piece that `c` stands for, if it is one of the twelve piece letters.
    pub fn from_fen_char(c: char) -> (r: Option<PieceIndex>)
        ensures
            r == PieceIndex::lettered(c),
            forall|p: PieceIndex| (r == Some(p)) <==> c == p.letter(),
    {
        Some(
            match c {
                'P' => PieceIndex::WhitePawn,
                'N' => PieceIndex::WhiteKnight,
                'B' => PieceIndex::WhiteBishop,
                'R' => PieceIndex::WhiteRook,
                'Q' => PieceIndex::WhiteQueen,
                'K' => PieceIndex::WhiteKing,
                'p' => PieceIndex::BlackPawn,
                'n' => PieceIndex::BlackKnight,
                'b' => PieceIndex::BlackBishop,
                'r' => PieceIndex::BlackRook,
                'q' => PieceIndex::BlackQueen,
                'k' => PieceIndex::BlackKing,
                _ => return None,
            },
        )
    }

    /// The piece with number `idx`, if `idx` is below 12.
    pub fn from_index(idx: usize) -> (r: Option<PieceIndex>)
        ensures
            idx < 12 ==> r is Some && r->0@ == idx,
            idx >= 12 ==> r is None,
    {
        match idx {
            0 => Some(PieceIndex::WhitePawn),
            1 => Some(PieceIndex::WhiteKnight),
            2 => Some(PieceIndex::WhiteBishop),
            3 => Some(PieceIndex::WhiteRook),
            4 => Some(PieceIndex::WhiteQueen),
            5 => Some(PieceIndex::WhiteKing),
            6 => Some(PieceIndex::BlackPawn),
            7 => Some(PieceIndex::BlackKnight),
            8 => Some(PieceIndex::BlackBishop),
            9 => Some(PieceIndex::BlackRook),
            10 => Some(PieceIndex::BlackQueen),
            11 => Some(PieceIndex::BlackKing),
            _ => None,
        }
    }

    /// The number of the piece.
    #[inline]
    pub fn index(self) -> (i: usize)
        ensures
            i == self@,
            i < 12,
    {
        match self {
            PieceIndex::WhitePawn => 0,
            PieceIndex::WhiteKnight => 1,
            PieceIndex::WhiteBishop => 2,
            PieceIndex::WhiteRook => 3,
            PieceIndex::WhiteQueen => 4,
            PieceIndex::WhiteKing => 5,
            PieceIndex::BlackPawn => 6,
            PieceIndex::BlackKnight => 7,
            PieceIndex::BlackBishop => 8,
            PieceIndex::BlackRook => 9,
            PieceIndex::BlackQueen => 10,
            PieceIndex::BlackKing => 11,
        }
    }

    /// The piece of the given kind and colour.
    #[inline]
    pub fn from_piece(piece: Piece, color: Color) -> (p: PieceIndex)
        ensures
            p == PieceIndex::of(piece, color),
            p.kind() == piece,
            p.side() == color,
    {
        let base: usize = match piece {
            Piece::Pawn => 0,
            Piece::Knight => 1,
            Piece::Bishop => 2,
            Piece::Rook => 3,
            Piece::Queen => 4,
            Piece::King => 5,
        };
        let offset: usize = match color {
            Color::White => 0,
            Color::Black => 6,
        };
        let found = PieceIndex::from_index(base + offset);
        found.unwrap()
    }

    pub fn to_piece(&self) -> (p: Piece)
        ensures
            p == self.kind(),
    {
        Piece::from_piece_index(self)
    }

    pub fn color(&self) -> (c: Color)
        ensures
            c == self.side(),
    {
        if self.index() < PieceIndex::BlackPawn.index() {
            Color::White
        } else {
            Color::Black
        }
    }
}

/// A piece is determined by its kind and colour, and by its number.
pub proof fn lemma_piece_index(p: PieceIndex, q: PieceIndex)
    ensures
        0 <= p@ < 12,
        p@ == 6 * (if p.side() == Color::White { 0int } else { 1int }) + p.kind().ordinal(),
        PieceIndex::of(p.kind(), p.side()) == p,
        p@ == q@ ==> p == q,
{
}

} // verus!
