//! The sixty-four squares of the board.

use vstd::prelude::*;
use crate::board::Bitboard;
use crate::text::chars_of;
use vstd::string::StringExecFns;

verus! {

/// A square, named by file letter and rank digit. Squares are numbered rank by
/// rank from `A1` (0) to `H8` (63).
#[derive(Copy, Clone, Debug, PartialEq, Eq, Structural)]
pub enum Square {
    A1, B1, C1, D1, E1, F1, G1, H1,
    A2, B2, C2, D2, E2, F2, G2, H2,
    A3, B3, C3, D3, E3, F3, G3, H3,
    A4, B4, C4, D4, E4, F4, G4, H4,
    A5, B5, C5, D5, E5, F5, G5, H5,
    A6, B6, C6, D6, E6, F6, G6, H6,
    A7, B7, C7, D7, E7, F7, G7, H7,
    A8, B8, C8, D8, E8, F8, G8, H8,
}

/// Rank (row) of the square with index `i`, counted from 0.
pub open spec fn row_of(i: int) -> int {
    i / 8
}

/// File (column) of the square with index `i`, counted from 0.
pub open spec fn col_of(i: int) -> int {
    i % 8
}

/// Whether `(row, col)` names a square of the board.
pub open spec fn on_board(row: int, col: int) -> bool {
    0 <= row < 8 && 0 <= col < 8
}

impl View for Square {
    type V = int;

    /// The index of the square, `0..64`.
    open spec fn view(&self) -> int {
        match *self {
            Square::A1 => 0, Square::B1 => 1, Square::C1 => 2, Square::D1 => 3,
            Square::E1 => 4, Square::F1 => 5, Square::G1 => 6, Square::H1 => 7,
            Square::A2 => 8, Square::B2 => 9, Square::C2 => 10, Square::D2 => 11,
            Square::E2 => 12, Square::F2 => 13, Square::G2 => 14, Square::H2 => 15,
            Square::A3 => 16, Square::B3 => 17, Square::C3 => 18, Square::D3 => 19,
            Square::E3 => 20, Square::F3 => 21, Square::G3 => 22, Square::H3 => 23,
            Square::A4 => 24, Square::B4 => 25, Square::C4 => 26, Square::D4 => 27,
            Square::E4 => 28, Square::F4 => 29, Square::G4 => 30, Square::H4 => 31,
            Square::A5 => 32, Square::B5 => 33, Square::C5 => 34, Square::D5 => 35,
            Square::E5 => 36, Square::F5 => 37, Square::G5 => 38, Square::H5 => 39,
            Square::A6 => 40, Square::B6 => 41, Square::C6 => 42, Square::D6 => 43,
            Square::E6 => 44, Square::F6 => 45, Square::G6 => 46, Square::H6 => 47,
            Square::A7 => 48, Square::B7 => 49, Square::C7 => 50, Square::D7 => 51,
            Square::E7 => 52, Square::F7 => 53, Square::G7 => 54, Square::H7 => 55,
            Square::A8 => 56, Square::B8 => 57, Square::C8 => 58, Square::D8 => 59,
            Square::E8 => 60, Square::F8 => 61, Square::G8 => 62, Square::H8 => 63,
        }
    }
}

impl Default for Square {
    fn default() -> (s: Square)
        ensures
            s == Square::A1,
    {
        Square::A1
    }
}

impl Square {
    /// The square with index `i`.
    pub open spec fn at(i: int) -> Square {
        if i == 0 {
            Square::A1
        } else if i == 1 {
            Square::B1
        } else if i == 2 {
            Square::C1
        } else if i == 3 {
            Square::D1
        } else if i == 4 {
            Square::E1
        } else if i == 5 {
            Square::F1
        } else if i == 6 {
            Square::G1
        } else if i == 7 {
            Square::H1
        } else if i == 8 {
            Square::A2
        } else if i == 9 {
            Square::B2
        } else if i == 10 {
            Square::C2
        } else if i == 11 {
            Square::D2
        } else if i == 12 {
            Square::E2
        } else if i == 13 {
            Square::F2
        } else if i == 14 {
            Square::G2
        } else if i == 15 {
            Square::H2
        } else if i == 16 {
            Square::A3
        } else if i == 17 {
            Square::B3
        } else if i == 18 {
            Square::C3
        } else if i == 19 {
            Square::D3
        } else if i == 20 {
            Square::E3
        } else if i == 21 {
            Square::F3
        } else if i == 22 {
            Square::G3
        } else if i == 23 {
            Square::H3
        } else if i == 24 {
            Square::A4
        } else if i == 25 {
            Square::B4
        } else if i == 26 {
            Square::C4
        } else if i == 27 {
            Square::D4
        } else if i == 28 {
            Square::E4
        } else if i == 29 {
            Square::F4
        } else if i == 30 {
            Square::G4
        } else if i == 31 {
            Square::H4
        } else if i == 32 {
            Square::A5
        } else if i == 33 {
            Square::B5
        } else if i == 34 {
            Square::C5
        } else if i == 35 {
            Square::D5
        } else if i == 36 {
            Square::E5
        } else if i == 37 {
            Square::F5
        } else if i == 38 {
            Square::G5
        } else if i == 39 {
            Square::H5
        } else if i == 40 {
            Square::A6
        } else if i == 41 {
            Square::B6
        } else if i == 42 {
            Square::C6
        } else if i == 43 {
            Square::D6
        } else if i == 44 {
            Square::E6
        } else if i == 45 {
            Square::F6
        } else if i == 46 {
            Square::G6
        } else if i == 47 {
            Square::H6
        } else if i == 48 {
            Square::A7
        } else if i == 49 {
            Square::B7
        } else if i == 50 {
            Square::C7
        } else if i == 51 {
            Square::D7
        } else if i == 52 {
            Square::E7
        } else if i == 53 {
            Square::F7
        } else if i == 54 {
            Square::G7
        } else if i == 55 {
            Square::H7
        } else if i == 56 {
            Square::A8
        } else if i == 57 {
            Square::B8
        } else if i == 58 {
            Square::C8
        } else if i == 59 {
            Square::D8
        } else if i == 60 {
            Square::E8
        } else if i == 61 {
            Square::F8
        } else if i == 62 {
            Square::G8
        } else {
            Square::H8
        }
    }

    /// The square at `(row, col)`, if that is on the board.
    pub fn from_coords(row: usize, col: usize) -> (r: Option<Square>)
        ensures
            on_board(row as int, col as int) ==> r is Some && r->0@ == row * 8 + col,
            !on_board(row as int, col as int) ==> r is None,
    {
        if row < 8 && col < 8 {
            let idx: usize = row * 8 + col;
            Square::from_idx(idx as u8)
        } else {
            None
        }
    }

    /// The square with index `idx`, if `idx` is below 64.
    pub fn from_idx(idx: u8) -> (r: Option<Square>)
        ensures
            idx < 64 ==> r is Some && r->0@ == idx,
            idx >= 64 ==> r is None,
    {
        match idx {
            0 => Some(Square::A1), 1 => Some(Square::B1), 2 => Some(Square::C1), 3 => Some(Square::D1),
            4 => Some(Square::E1), 5 => Some(Square::F1), 6 => Some(Square::G1), 7 => Some(Square::H1),
            8 => Some(Square::A2), 9 => Some(Square::B2), 10 => Some(Square::C2), 11 => Some(Square::D2),
            12 => Some(Square::E2), 13 => Some(Square::F2), 14 => Some(Square::G2), 15 => Some(Square::H2),
            16 => Some(Square::A3), 17 => Some(Square::B3), 18 => Some(Square::C3), 19 => Some(Square::D3),
            20 => Some(Square::E3), 21 => Some(Square::F3), 22 => Some(Square::G3), 23 => Some(Square::H3),
            24 => Some(Square::A4), 25 => Some(Square::B4), 26 => Some(Square::C4), 27 => Some(Square::D4),
            28 => Some(Square::E4), 29 => Some(Square::F4), 30 => Some(Square::G4), 31 => Some(Square::H4),
            32 => Some(Square::A5), 33 => Some(Square::B5), 34 => Some(Square::C5), 35 => Some(Square::D5),
            36 => Some(Square::E5), 37 => Some(Square::F5), 38 => Some(Square::G5), 39 => Some(Square::H5),
            40 => Some(Square::A6), 41 => Some(Square::B6), 42 => Some(Square::C6), 43 => Some(Square::D6),
            44 => Some(Square::E6), 45 => Some(Square::F6), 46 => Some(Square::G6), 47 => Some(Square::H6),
            48 => Some(Square::A7), 49 => Some(Square::B7), 50 => Some(Square::C7), 51 => Some(Square::D7),
            52 => Some(Square::E7), 53 => Some(Square::F7), 54 => Some(Square::G7), 55 => Some(Square::H7),
            56 => Some(Square::A8), 57 => Some(Square::B8), 58 => Some(Square::C8), 59 => Some(Square::D8),
            60 => Some(Square::E8), 61 => Some(Square::F8), 62 => Some(Square::G8), 63 => Some(Square::H8),
            _ => None,
        }
    }

    /// The index of the square.
    #[inline]
    pub fn index(self) -> (i: u8)
        ensures
            i == self@,
            i < 64,
    {
        match self {
            Square::A1 => 0, Square::B1 => 1, Square::C1 => 2, Square::D1 => 3,
            Square::E1 => 4, Square::F1 => 5, Square::G1 => 6, Square::H1 => 7,
            Square::A2 => 8, Square::B2 => 9, Square::C2 => 10, Square::D2 => 11,
            Square::E2 => 12, Square::F2 => 13, Square::G2 => 14, Square::H2 => 15,
            Square::A3 => 16, Square::B3 => 17, Square::C3 => 18, Square::D3 => 19,
            Square::E3 => 20, Square::F3 => 21, Square::G3 => 22, Square::H3 => 23,
            Square::A4 => 24, Square::B4 => 25, Square::C4 => 26, Square::D4 => 27,
            Square::E4 => 28, Square::F4 => 29, Square::G4 => 30, Square::H4 => 31,
            Square::A5 => 32, Square::B5 => 33, Square::C5 => 34, Square::D5 => 35,
            Square::E5 => 36, Square::F5 => 37, Square::G5 => 38, Square::H5 => 39,
            Square::A6 => 40, Square::B6 => 41, Square::C6 => 42, Square::D6 => 43,
            Square::E6 => 44, Square::F6 => 45, Square::G6 => 46, Square::H6 => 47,
            Square::A7 => 48, Square::B7 => 49, Square::C7 => 50, Square::D7 => 51,
            Square::E7 => 52, Square::F7 => 53, Square::G7 => 54, Square::H7 => 55,
            Square::A8 => 56, Square::B8 => 57, Square::C8 => 58, Square::D8 => 59,
            Square::E8 => 60, Square::F8 => 61, Square::G8 => 62, Square::H8 => 63,
        }
    }

    /// Row and column of the square.
    #[inline]
    pub fn to_coord(&self) -> (rc: (usize, usize))
        ensures
            rc.0 == row_of(self@),
            rc.1 == col_of(self@),
            on_board(rc.0 as int, rc.1 as int),
    {
        Bitboard::index_to_coord(self.index())
    }

    /// The set that holds this square and no other.
    #[inline]
    pub fn to_bitboard(&self) -> (b: Bitboard)
        ensures
            b@ == set![self@],
    {
        Bitboard::single(self.index())
    }
}

/// The lower-case letter of the file with number `col`: `a` for 0 to `h` for 7.
pub open spec fn file_letter(col: int) -> char {
    ('a' as int + col) as char
}

/// The digit of the rank with number `row`: `1` for 0 to `8` for 7.
pub open spec fn rank_digit(row: int) -> char {
    ('1' as int + row) as char
}

/// The number of the file that `c` names in either case, if it names one.
pub open spec fn file_named(c: char) -> Option<int> {
    if 'a' <= c <= 'h' {
        Some(c as int - 'a' as int)
    } else if 'A' <= c <= 'H' {
        Some(c as int - 'A' as int)
    } else {
        None
    }
}

/// The number of the rank that `c` names, if it names one.
pub open spec fn rank_named(c: char) -> Option<int> {
    if '1' <= c <= '8' {
        Some(c as int - '1' as int)
    } else {
        None
    }
}

/// The index of the square that `s` names, if it names one: a file letter
/// in either case and a rank digit, and nothing else.
pub open spec fn square_named(s: Seq<char>) -> Option<int> {
    if s.len() == 2 && file_named(s[0]) is Some && rank_named(s[1]) is Some {
        Some(8 * rank_named(s[1])->0 + file_named(s[0])->0)
    } else {
        None
    }
}

/// The number of the file that `c` names in either case, if it names one.
fn file_of(c: char) -> (r: Option<usize>)
    ensures
        r is Some == file_named(c) is Some,
        r is Some ==> r->0 == file_named(c)->0 && r->0 < 8,
{
    match c {
        'a' | 'A' => Some(0),
        'b' | 'B' => Some(1),
        'c' | 'C' => Some(2),
        'd' | 'D' => Some(3),
        'e' | 'E' => Some(4),
        'f' | 'F' => Some(5),
        'g' | 'G' => Some(6),
        'h' | 'H' => Some(7),
        _ => None,
    }
}

/// The number of the rank that `c` names, if it names one.
fn rank_of(c: char) -> (r: Option<usize>)
    ensures
        r is Some == rank_named(c) is Some,
        r is Some ==> r->0 == rank_named(c)->0 && r->0 < 8,
{
    match c {
        '1' => Some(0),
        '2' => Some(1),
        '3' => Some(2),
        '4' => Some(3),
        '5' => Some(4),
        '6' => Some(5),
        '7' => Some(6),
        '8' => Some(7),
        _ => None,
    }
}

impl Square {
    /// The name of the square: the lower-case letter of its file, then the
    /// digit of its rank.
    pub open spec fn name(self) -> Seq<char> {
        seq![file_letter(col_of(self@)), rank_digit(row_of(self@))]
    }

    /// The name of the square, such as `e4`.
    pub fn square_str(self) -> (r: String)
        ensures
            r@ == self.name(),
    {
        let (row, col) = self.to_coord();
        let file = match col {
            0 => 'a',
            1 => 'b',
            2 => 'c',
            3 => 'd',
            4 => 'e',
            5 => 'f',
            6 => 'g',
            _ => 'h',
        };
        let rank = match row {
            0 => '1',
            1 => '2',
            2 => '3',
            3 => '4',
            4 => '5',
            5 => '6',
            6 => '7',
            _ => '8',
        };
        let mut r = String::new();
        r.push(file);
        r.push(rank);
        assert(r@ =~= self.name());
        r
    }

    /// The square that the characters `chars[from..to]` name, if they name one.
    pub fn parse(chars: &Vec<char>, from: usize, to: usize) -> (r: Option<Square>)
        requires
            from <= to <= chars.len(),
        ensures
            match square_named(chars@.subrange(from as int, to as int)) {
                Some(i) => r is Some && r->0@ == i,
                None => r is None,
            },
    {
        if to - from != 2 {
            return None;
        }
        let ghost s = chars@.subrange(from as int, to as int);
        assert(s[0] == chars@[from as int] && s[1] == chars@[from + 1]);
        match (file_of(chars[from]), rank_of(chars[from + 1])) {
            (Some(col), Some(row)) => Square::from_coords(row, col),
            _ => None,
        }
    }
}

impl std::str::FromStr for Square {
    type Err = String;

    /// The square that `s` names: a file letter in either case and a rank
    /// digit. Any other text is refused, with a message that ends in the text.
    fn from_str(s: &str) -> (r: Result<Self, Self::Err>)
        ensures
            match square_named(s@) {
                Some(index) => r is Ok && r->Ok_0@ == index,
                None => r is Err && r->Err_0@ == "Invalid square convertion from: "@ + s@,
            },
    {
        let chars = chars_of(s);
        assert(chars@.subrange(0, chars.len() as int) =~= s@);
        match Square::parse(&chars, 0, chars.len()) {
            Some(square) => Ok(square),
            None => {
                let mut message = "Invalid square convertion from: ".to_owned();
                message.append(s);
                Err(message)
            },
        }
    }
}

/// The name of a square names that square.
pub proof fn lemma_square_name(square: Square)
    ensures
        square_named(square.name()) == Some(square@),
{
}

/// Every square has an index in `0..64`, and distinct squares have distinct indices.
pub proof fn lemma_square_index(a: Square, b: Square)
    ensures
        0 <= a@ < 64,
        a@ == b@ ==> a == b,
        Square::at(a@) == a,
        forall|i: int| 0 <= i < 64 ==> (#[trigger] Square::at(i))@ == i,
{
}

} // verus!
