//! Positions written as, and read from, one line of text: the placement
//! rank by rank from the eighth down, the side to move, the castling rights,
//! the en-passant target and the two counters, separated by blanks.

use vstd::prelude::*;
use vstd::string::StringExecFns;
use crate::board::Bitboards;
use crate::game::{Game, Layout};
use crate::kastling::{Castling, CastlingSide};
use crate::piece::PieceIndex;
use crate::position::{Color, Position, Snapshot};
use crate::square::{square_named, Square};
use crate::text::{
    chars_of, decimal, digit_value, is_digit, next_word, numeral_u16, parse_u16, push_decimal,
    value_of, word, word_start,
};

verus! {

/// The numeral for a run of `run` free squares; nothing for no free square.
pub open spec fn run_text(run: int) -> Seq<char> {
    if run > 0 {
        decimal(run as nat)
    } else {
        Seq::empty()
    }
}

/// The text of rank `row` from file `col` on, with `run` free squares
/// counted just before that file: each piece by its letter, each run of
/// free squares by its length.
pub open spec fn row_text(placement: Seq<Option<PieceIndex>>, row: int, col: int, run: int) -> Seq<
    char,
>
    decreases 8 - col,
{
    if col >= 8 {
        run_text(run)
    } else {
        match placement[row * 8 + col] {
            Some(piece) => run_text(run) + seq![piece.letter()] + row_text(
                placement,
                row,
                col + 1,
                0,
            ),
            None => row_text(placement, row, col + 1, run + 1),
        }
    }
}

/// The text of the ranks from `row` down to the first, separated by `/`.
pub open spec fn rows_text(placement: Seq<Option<PieceIndex>>, row: int) -> Seq<char>
    decreases row,
{
    if row <= 0 {
        row_text(placement, 0, 0, 0)
    } else {
        row_text(placement, row, 0, 0) + seq!['/'] + rows_text(placement, row - 1)
    }
}

/// The letter of a castling right if it is held, else nothing.
pub open spec fn right_text(castling: Castling, side: CastlingSide, letter: char) -> Seq<char> {
    if castling.holds(side) {
        seq![letter]
    } else {
        Seq::empty()
    }
}

/// The letters of the castling rights that are held, in the order `KQkq`;
/// nothing if none is held.
pub open spec fn rights_text(castling: Castling) -> Seq<char> {
    right_text(castling, CastlingSide::WK, 'K') + right_text(castling, CastlingSide::WQ, 'Q')
        + right_text(castling, CastlingSide::BK, 'k') + right_text(castling, CastlingSide::BQ, 'q')
}

/// The text of a position.
pub open spec fn fen_text(game: Game) -> Seq<char> {
    rows_text(game.layout.placement, 7) + seq![' '] + seq![
        if game.layout.side == Color::White {
            'w'
        } else {
            'b'
        },
    ] + seq![' '] + rights_text(game.layout.castling) + seq![' '] + target_text(
        game.layout.en_passant,
    ) + seq![' '] + decimal(game.halfmove as nat) + seq![' '] + decimal(game.fullmove as nat)
}

/// Appends the text of rank `row` to `fen`.
fn write_row(boards: &Bitboards, row: usize, fen: &mut String)
    requires
        row < 8,
    ensures
        final(fen)@ == old(fen)@ + row_text(boards@, row as int, 0, 0),
{
    let ghost placement = boards@;
    let mut no_piece_counter: u16 = 0;
    let mut col: usize = 0;
    while col < 8
        invariant
            0 <= col <= 8,
            row < 8,
            no_piece_counter <= col,
            placement == boards@,
            fen@ + row_text(placement, row as int, col as int, no_piece_counter as int) == old(
                fen,
            )@ + row_text(placement, row as int, 0, 0),
        decreases 8 - col,
    {
        let square = Square::from_coords(row, col).unwrap();
        let ghost before = fen@;
        let ghost rest = row_text(placement, row as int, col + 1, 0);
        match boards.piece_on_square(square) {
            Some(piece) => {
                if no_piece_counter > 0 {
                    push_decimal(fen, no_piece_counter);
                }
                fen.push(piece.to_fen_char());
                assert(fen@ + rest =~= before + (run_text(no_piece_counter as int) + seq![
                    piece.letter(),
                ] + rest));
                no_piece_counter = 0;
            },
            None => no_piece_counter += 1,
        }
        col += 1;
    }
    let ghost before = fen@;
    if no_piece_counter > 0 {
        push_decimal(fen, no_piece_counter);
    }
    assert(fen@ =~= before + run_text(no_piece_counter as int));
}

/// Appends the text of the placement to `fen`.
fn write_board(boards: &Bitboards, fen: &mut String)
    ensures
        final(fen)@ == old(fen)@ + rows_text(boards@, 7),
{
    let ghost placement = boards@;
    let mut row: usize = 8;
    while row > 0
        invariant
            0 <= row <= 8,
            placement == boards@,
            old(fen)@ + rows_text(placement, 7) == if row == 0 {
                fen@
            } else {
                fen@ + rows_text(placement, row - 1)
            },
        decreases row,
    {
        row -= 1;
        let ghost before = fen@;
        write_row(boards, row, fen);
        if row > 0 {
            fen.push('/');
            assert(fen@ + rows_text(placement, row - 1) =~= before + (row_text(
                placement,
                row as int,
                0,
                0,
            ) + seq!['/'] + rows_text(placement, row - 1)));
        }
    }
}

/// Appends the letters of the castling rights that are held to `fen`.
fn write_rights(castling: &Castling, fen: &mut String)
    ensures
        final(fen)@ == old(fen)@ + rights_text(*castling),
{
    if castling.can_castle(CastlingSide::WK) {
        fen.push('K');
    }
    if castling.can_castle(CastlingSide::WQ) {
        fen.push('Q');
    }
    if castling.can_castle(CastlingSide::BK) {
        fen.push('k');
    }
    if castling.can_castle(CastlingSide::BQ) {
        fen.push('q');
    }
    assert(fen@ =~= old(fen)@ + rights_text(*castling));
}

/// The text of the en-passant target: the name of the square, or `-` for none.
pub open spec fn target_text(target: Option<int>) -> Seq<char> {
    match target {
        Some(square) => Square::at(square).name(),
        None => seq!['-'],
    }
}

/// Appends the text of the en-passant target to `fen`.
fn write_target(target: Option<Square>, fen: &mut String)
    ensures
        final(fen)@ == old(fen)@ + target_text(
            match target {
                Some(square) => Some(square@),
                None => None,
            },
        ),
{
    match target {
        Some(en_passant_square) => {
            let name = en_passant_square.square_str();
            fen.append(name.as_str());
            proof {
                crate::square::lemma_square_index(en_passant_square, en_passant_square);
            }
        },
        None => {
            fen.push('-');
            assert(fen@ =~= old(fen)@ + seq!['-']);
        },
    }
}

impl Position {
    /// The position as one line of text. If no castling right is held, the
    /// field of the rights is empty.
    pub fn write_fen(&self) -> (fen: String)
        ensures
            fen@ == fen_text(self.current@),
    {
        let mut fen = String::new();
        write_board(&self.current.bitboards, &mut fen);
        fen.push(' ');
        if self.current.side_to_move == Color::White {
            fen.push('w');
        } else {
            fen.push('b');
        }
        fen.push(' ');
        write_rights(&self.current.castling, &mut fen);
        fen.push(' ');
        write_target(self.current.en_passant, &mut fen);
        fen.push(' ');
        push_decimal(&mut fen, self.current.halfmove_clock);
        fen.push(' ');
        push_decimal(&mut fen, self.current.fullmove_number);
        assert(fen@ =~= fen_text(self.current@));
        fen
    }
}

/// How far the placement field has been read: the rank and file that the
/// next character speaks of, counted from the top left, and the pieces
/// placed so far.
pub struct BoardScan {
    /// Number of `/` read so far: 0 for the eighth rank.
    pub row: int,
    /// Number of the file that the next piece goes on.
    pub col: int,
    pub placement: Seq<Option<PieceIndex>>,
}

/// The state before any character of the placement field: the top left
/// corner, and an empty board.
pub open spec fn scan_start() -> BoardScan {
    BoardScan { row: 0, col: 0, placement: Seq::new(64, |i: int| None::<PieceIndex>) }
}

/// The state after one more character: `/` starts the next rank down, a
/// digit skips that many files, a piece letter puts the piece on the square
/// at hand and goes on to the next file. A piece letter outside the board
/// and any other character are not accepted.
pub open spec fn scan_step(state: BoardScan, c: char) -> Option<BoardScan> {
    if c == '/' {
        Some(BoardScan { row: state.row + 1, col: 0, placement: state.placement })
    } else if is_digit(c) {
        Some(
            BoardScan {
                row: state.row,
                col: state.col + digit_value(c),
                placement: state.placement,
            },
        )
    } else if PieceIndex::lettered(c) is Some && state.row < 8 && state.col < 8 {
        Some(
            BoardScan {
                row: state.row,
                col: state.col + 1,
                placement: state.placement.update(
                    (7 - state.row) * 8 + state.col,
                    PieceIndex::lettered(c),
                ),
            },
        )
    } else {
        None
    }
}

/// The state after the characters of `s`, if all of them are accepted.
pub open spec fn scan(s: Seq<char>) -> Option<BoardScan>
    decreases s.len(),
{
    if s.len() == 0 {
        Some(scan_start())
    } else {
        match scan(s.drop_last()) {
            Some(state) => scan_step(state, s.last()),
            None => None,
        }
    }
}

/// The side that the word names: `w` or `W` for White, `b` or `B` for Black.
pub open spec fn side_read(w: Seq<char>) -> Option<Color> {
    if w.len() == 1 && (w[0] == 'w' || w[0] == 'W') {
        Some(Color::White)
    } else if w.len() == 1 && (w[0] == 'b' || w[0] == 'B') {
        Some(Color::Black)
    } else {
        None
    }
}

impl Castling {
    /// The rights together with `castling_side`.
    pub open spec fn with(self, castling_side: CastlingSide) -> Castling {
        Castling { rights: self.rights | castling_side.mask() }
    }
}

/// The rights after one more character of the rights field: `K`, `Q`, `k`
/// and `q` grant a right, `-` grants none, and nothing else is accepted.
pub open spec fn rights_step(castling: Castling, c: char) -> Option<Castling> {
    if c == 'K' {
        Some(castling.with(CastlingSide::WK))
    } else if c == 'Q' {
        Some(castling.with(CastlingSide::WQ))
    } else if c == 'k' {
        Some(castling.with(CastlingSide::BK))
    } else if c == 'q' {
        Some(castling.with(CastlingSide::BQ))
    } else if c == '-' {
        Some(castling)
    } else {
        None
    }
}

/// The rights that the word grants, if all its characters are accepted.
pub open spec fn rights_read(w: Seq<char>) -> Option<Castling>
    decreases w.len(),
{
    if w.len() == 0 {
        Some(Castling { rights: 0 })
    } else {
        match rights_read(w.drop_last()) {
            Some(castling) => rights_step(castling, w.last()),
            None => None,
        }
    }
}

/// The en-passant target that the word names: none for `-`, else the square
/// of that name.
pub open spec fn target_read(w: Seq<char>) -> Option<Option<int>> {
    if w.len() == 1 && w[0] == '-' {
        Some(None)
    } else if square_named(w) is Some {
        Some(square_named(w))
    } else {
        None
    }
}

/// The position that the line `s` describes, if it describes one.
///
/// The words of the line are, in order, the placement, the side to move, the
/// castling rights, the en-passant target, the halfmove clock and the move
/// number; words after these are not read. For a word that is missing the
/// position has an empty board, White to move, no castling right, the target
/// `a1`, and 0 for a counter.
pub open spec fn fen_game(s: Seq<char>) -> Option<Game> {
    let board = match word(s, 0) {
        Some(w) => scan(w),
        None => Some(scan_start()),
    };
    let side = match word(s, 1) {
        Some(w) => side_read(w),
        None => Some(Color::White),
    };
    let rights = match word(s, 2) {
        Some(w) => rights_read(w),
        None => Some(Castling { rights: 0 }),
    };
    let target = match word(s, 3) {
        Some(w) => target_read(w),
        None => Some(Some(0int)),
    };
    let halfmove = match word(s, 4) {
        Some(w) => numeral_u16(w),
        None => Some(0u16),
    };
    let fullmove = match word(s, 5) {
        Some(w) => numeral_u16(w),
        None => Some(0u16),
    };
    if board is Some && side is Some && rights is Some && target is Some && halfmove is Some
        && fullmove is Some {
        Some(
            Game {
                layout: Layout {
                    placement: board->0.placement,
                    side: side->0,
                    castling: rights->0,
                    en_passant: target->0,
                },
                halfmove: halfmove->0 as int,
                fullmove: fullmove->0 as int,
            },
        )
    } else {
        None
    }
}

/// Once a character is not accepted, no longer text is.
proof fn lemma_scan_fails(s: Seq<char>, n: int)
    requires
        0 <= n <= s.len(),
        scan(s.take(n)) is None,
    ensures
        scan(s) is None,
    decreases s.len() - n,
{
    if n < s.len() {
        assert(s.take(n + 1).drop_last() =~= s.take(n));
        lemma_scan_fails(s, n + 1);
    } else {
        assert(s.take(n) =~= s);
    }
}

/// Once a character is not accepted, no longer text is.
proof fn lemma_rights_fail(w: Seq<char>, n: int)
    requires
        0 <= n <= w.len(),
        rights_read(w.take(n)) is None,
    ensures
        rights_read(w) is None,
    decreases w.len() - n,
{
    if n < w.len() {
        assert(w.take(n + 1).drop_last() =~= w.take(n));
        lemma_rights_fail(w, n + 1);
    } else {
        assert(w.take(n) =~= w);
    }
}

/// The placement that the characters `chars[from..to]` describe, if they
/// describe one.
fn read_board(chars: &Vec<char>, from: usize, to: usize) -> (r: Option<Bitboards>)
    requires
        from <= to <= chars.len(),
    ensures
        match scan(chars@.subrange(from as int, to as int)) {
            Some(state) => r is Some && r->0.wf() && r->0@ == state.placement,
            None => r is None,
        },
{
    let ghost s = chars@.subrange(from as int, to as int);
    let mut board = Bitboards::new_empty();
    let mut row_nr: usize = 0;
    let mut col_nr: usize = 0;
    let mut i: usize = from;
    let ghost mut state = scan_start();
    proof {
        assert(s.take(0) =~= Seq::<char>::empty());
        assert(board@ =~= state.placement);
    }
    while i < to
        invariant
            from <= i <= to <= chars.len(),
            s == chars@.subrange(from as int, to as int),
            scan(s.take(i - from)) == Some(state),
            0 <= state.row && 0 <= state.col,
            row_nr == if state.row < 8 {
                state.row
            } else {
                8
            },
            col_nr == if state.col < 8 {
                state.col
            } else {
                8
            },
            board.wf(),
            board@ == state.placement,
            forall|t: int|
                0 <= t < 64 && (t / 8 < 7 - state.row || (t / 8 == 7 - state.row && t % 8
                    >= state.col)) ==> (#[trigger] state.placement[t]) is None,
        decreases to - i,
    {
        let c = chars[i];
        let ghost before = state;
        proof {
            assert(s.take(i + 1 - from).drop_last() =~= s.take(i - from));
            assert(s.take(i + 1 - from).last() == c);
        }
        if c == '/' {
            if row_nr < 8 {
                row_nr += 1;
            }
            col_nr = 0;
        } else {
            match value_of(c) {
                Some(skip) => {
                    col_nr = if col_nr + skip as usize >= 8 {
                        8
                    } else {
                        col_nr + skip as usize
                    };
                },
                None => {
                    match PieceIndex::from_fen_char(c) {
                        Some(piece) => {
                            if row_nr >= 8 || col_nr >= 8 {
                                proof {
                                    lemma_scan_fails(s, i + 1 - from);
                                }
                                return None;
                            }
                            let square = Square::from_coords(7 - row_nr, col_nr).unwrap();
                            board.set(piece, square);
                            col_nr += 1;
                        },
                        None => {
                            proof {
                                lemma_scan_fails(s, i + 1 - from);
                            }
                            return None;
                        },
                    }
                },
            }
        }
        proof {
            state = scan_step(before, c)->0;
        }
        i += 1;
    }
    assert(s.take(to - from) =~= s);
    let ghost scanned = board;
    board.uppdate_occupancy();
    proof {
        assert forall|p: int, t: int| board.holds(p, t) == scanned.holds(p, t) by {}
        assert(board@ =~= scanned@);
        assert forall|t: int| scanned.squares_of(0, 12).contains(t) implies (scanned.squares_of(0, 6)
            + scanned.squares_of(6, 12)).contains(t) by {
            let p = choose|p: int| 0 <= p < 12 && scanned.holds(p, t);
            if p < 6 {
                assert(scanned.squares_of(0, 6).contains(t));
            } else {
                assert(scanned.squares_of(6, 12).contains(t));
            }
        }
        assert(board.wf());
    }
    Some(board)
}

/// The side that the characters `chars[from..to]` name, if they name one.
fn read_side(chars: &Vec<char>, from: usize, to: usize) -> (r: Option<Color>)
    requires
        from <= to <= chars.len(),
    ensures
        r == side_read(chars@.subrange(from as int, to as int)),
{
    if to - from != 1 {
        return None;
    }
    assert(chars@.subrange(from as int, to as int)[0] == chars@[from as int]);
    match chars[from] {
        'w' | 'W' => Some(Color::White),
        'b' | 'B' => Some(Color::Black),
        _ => None,
    }
}

/// The castling rights that the characters `chars[from..to]` grant, if all
/// of them are accepted.
fn read_rights(chars: &Vec<char>, from: usize, to: usize) -> (r: Option<Castling>)
    requires
        from <= to <= chars.len(),
    ensures
        r == rights_read(chars@.subrange(from as int, to as int)),
{
    let ghost w = chars@.subrange(from as int, to as int);
    let mut castling = Castling::new();
    let mut i: usize = from;
    assert(w.take(0) =~= Seq::<char>::empty());
    while i < to
        invariant
            from <= i <= to <= chars.len(),
            w == chars@.subrange(from as int, to as int),
            rights_read(w.take(i - from)) == Some(castling),
        decreases to - i,
    {
        let kastle_side = chars[i];
        proof {
            assert(w.take(i + 1 - from).drop_last() =~= w.take(i - from));
            assert(w.take(i + 1 - from).last() == kastle_side);
        }
        match kastle_side {
            'K' => castling.add_castle_right(CastlingSide::WK),
            'Q' => castling.add_castle_right(CastlingSide::WQ),
            'k' => castling.add_castle_right(CastlingSide::BK),
            'q' => castling.add_castle_right(CastlingSide::BQ),
            '-' => (),
            _ => {
                proof {
                    lemma_rights_fail(w, i + 1 - from);
                }
                return None;
            },
        }
        i += 1;
    }
    assert(w.take(to - from) =~= w);
    Some(castling)
}

/// The en-passant target that the characters `chars[from..to]` name, if
/// they name one or are `-`.
fn read_target(chars: &Vec<char>, from: usize, to: usize) -> (r: Option<Option<Square>>)
    requires
        from <= to <= chars.len(),
    ensures
        match target_read(chars@.subrange(from as int, to as int)) {
            Some(Some(index)) => r is Some && r->0 is Some && r->0->0@ == index,
            Some(None) => r == Some(None::<Square>),
            None => r is None,
        },
{
    let ghost w = chars@.subrange(from as int, to as int);
    if to - from == 1 && chars[from] == '-' {
        assert(w[0] == chars@[from as int]);
        return Some(None);
    }
    proof {
        if w.len() == 1 {
            assert(w[0] == chars@[from as int]);
        }
    }
    match Square::parse(chars, from, to) {
        Some(square) => Some(Some(square)),
        None => None,
    }
}

impl Position {
    /// The position that the line describes, or `None` if the line does not
    /// describe one. The history of the position is empty.
    pub fn parse_fen(fen_string: &str) -> (r: Option<Position>)
        ensures
            match fen_game(fen_string@) {
                Some(game) => r is Some && r->0.current@ == game && r->0.current.bitboards.wf()
                    && r->0.history@.len() == 0,
                None => r is None,
            },
    {
        let chars = chars_of(fen_string);
        let ghost s = chars@;
        let len = chars.len();
        let mut board = Bitboards::new_empty();
        let mut side_to_move = Color::White;
        let mut castling = Castling::new();
        let mut en_passant = Some(Square::A1);
        let mut halfmove_clock: u16 = 0;
        let mut fullmove_clock: u16 = 0;
        proof {
            assert(board@ =~= scan_start().placement);
        }

        let (start, end) = next_word(&chars, 0);
        assert(start == word_start(s, 0));
        if start < len {
            match read_board(&chars, start, end) {
                Some(read) => board = read,
                None => return None,
            }
        }
        let (start, end) = next_word(&chars, end);
        assert(start == word_start(s, 1));
        if start < len {
            match read_side(&chars, start, end) {
                Some(read) => side_to_move = read,
                None => return None,
            }
        }
        let (start, end) = next_word(&chars, end);
        assert(start == word_start(s, 2));
        if start < len {
            match read_rights(&chars, start, end) {
                Some(read) => castling = read,
                None => return None,
            }
        }
        let (start, end) = next_word(&chars, end);
        assert(start == word_start(s, 3));
        if start < len {
            match read_target(&chars, start, end) {
                Some(read) => en_passant = read,
                None => return None,
            }
        }
        let (start, end) = next_word(&chars, end);
        assert(start == word_start(s, 4));
        if start < len {
            match parse_u16(&chars, start, end) {
                Some(read) => halfmove_clock = read,
                None => return None,
            }
        }
        let (start, end) = next_word(&chars, end);
        assert(start == word_start(s, 5));
        if start < len {
            match parse_u16(&chars, start, end) {
                Some(read) => fullmove_clock = read,
                None => return None,
            }
        }
        Some(
            Position {
                current: Snapshot {
                    bitboards: board,
                    side_to_move: side_to_move,
                    castling: castling,
                    en_passant: en_passant,
                    halfmove_clock: halfmove_clock,
                    fullmove_number: fullmove_clock,
                },
                history: Vec::new(),
            },
        )
    }

    /// The position that the line describes. The line must describe one.
    pub fn read_fen(fen_string: &str) -> (r: Self)
        requires
            fen_game(fen_string@) is Some,
        ensures
            r.current@ == fen_game(fen_string@)->0,
            r.current.bitboards.wf(),
            r.history@.len() == 0,
    {
        Position::parse_fen(fen_string).unwrap()
    }
}

} // verus!
