//! The squares that a piece on a given square threatens, found by walking
//! the board against the squares that are occupied.

use vstd::prelude::*;
use crate::board::{shifted, Bitboard};
use crate::piece::{Piece, PieceIndex};
use crate::position::Color;
use crate::square::{col_of, on_board, row_of, Square};

verus! {

/// One of the eight directions in which a piece slides.
#[derive(Copy, Clone, Debug, PartialEq, Eq, Structural)]
pub enum Direction {
    Up,
    Down,
    Right,
    Left,
    UpRight,
    UpLeft,
    DownRight,
    DownLeft,
}

impl Direction {
    /// Ranks gained by one step: 1, 0 or -1.
    pub open spec fn dr(self) -> int {
        match self {
            Direction::Up | Direction::UpRight | Direction::UpLeft => 1,
            Direction::Down | Direction::DownRight | Direction::DownLeft => -1,
            _ => 0,
        }
    }

    /// Files gained by one step: 1, 0 or -1.
    pub open spec fn dc(self) -> int {
        match self {
            Direction::Right | Direction::UpRight | Direction::DownRight => 1,
            Direction::Left | Direction::UpLeft | Direction::DownLeft => -1,
            _ => 0,
        }
    }
}

/// `k` times the unit `d`, for `d` one of 1, 0 and -1.
pub open spec fn scale(d: int, k: int) -> int {
    if d == 1 {
        k
    } else if d == -1 {
        -k
    } else {
        0
    }
}

/// Whether `k` steps of `(dr, dc)` from square `from` stay on the board.
pub open spec fn reaches(from: int, dr: int, dc: int, k: int) -> bool {
    on_board(row_of(from) + scale(dr, k), col_of(from) + scale(dc, k))
}

/// The index of the square `k` steps of `(dr, dc)` away from square `from`.
pub open spec fn step(from: int, dr: int, dc: int, k: int) -> int {
    from + 8 * scale(dr, k) + scale(dc, k)
}

/// Whether a slider on `from` threatens the square `k` steps away in
/// direction `(dr, dc)`: that square is on the board and no square before it
/// on the way is occupied. The square itself may be occupied.
pub open spec fn ray_hits(occ: Set<int>, from: int, dr: int, dc: int, k: int) -> bool {
    &&& 1 <= k
    &&& reaches(from, dr, dc, k)
    &&& forall|j: int| 1 <= j < k ==> !occ.contains(#[trigger] step(from, dr, dc, j))
}

/// The squares threatened along one direction, at most `limit` steps away.
pub open spec fn ray_upto(occ: Set<int>, from: int, dr: int, dc: int, limit: int) -> Set<int> {
    Set::new(
        |t: int|
            exists|k: int|
                k <= limit && ray_hits(occ, from, dr, dc, k) && t == #[trigger] step(from, dr, dc, k),
    )
}

/// The squares threatened along one direction, up to and including the first
/// occupied square or the last square before the edge.
pub open spec fn ray(occ: Set<int>, from: int, dr: int, dc: int) -> Set<int> {
    ray_upto(occ, from, dr, dc, 7)
}

/// The squares that a rook on `from` threatens.
pub open spec fn rook_targets(from: int, occ: Set<int>) -> Set<int> {
    ray(occ, from, 1, 0) + ray(occ, from, -1, 0) + ray(occ, from, 0, 1) + ray(occ, from, 0, -1)
}

/// The squares that a bishop on `from` threatens.
pub open spec fn bishop_targets(from: int, occ: Set<int>) -> Set<int> {
    ray(occ, from, 1, -1) + ray(occ, from, 1, 1) + ray(occ, from, -1, 1) + ray(occ, from, -1, -1)
}

/// The squares that a queen on `from` threatens.
pub open spec fn queen_targets(from: int, occ: Set<int>) -> Set<int> {
    rook_targets(from, occ) + bishop_targets(from, occ)
}

/// The squares next to `from`, diagonally too.
pub open spec fn king_targets(from: int) -> Set<int> {
    Set::new(
        |t: int|
            0 <= t < 64 && t != from && -1 <= row_of(t) - row_of(from) <= 1 && -1 <= col_of(t)
                - col_of(from) <= 1,
    )
}

/// The squares a knight's jump away from `from`.
pub open spec fn knight_targets(from: int) -> Set<int> {
    Set::new(
        |t: int|
            0 <= t < 64 && {
                let dr = row_of(t) - row_of(from);
                let dc = col_of(t) - col_of(from);
                ((dr == 2 || dr == -2) && (dc == 1 || dc == -1)) || ((dr == 1 || dr == -1) && (dc
                    == 2 || dc == -2))
            },
    )
}

/// The rank towards which pawns of the colour move: 1 for white, -1 for black.
pub open spec fn forward(color: Color) -> int {
    match color {
        Color::White => 1,
        Color::Black => -1,
    }
}

/// The rank on which pawns of the colour start.
pub open spec fn pawn_home_row(color: Color) -> int {
    match color {
        Color::White => 1,
        Color::Black => 6,
    }
}

/// The squares that a pawn of `color` on `from` may go to or capture on: the
/// square ahead if it is free, the square two ahead if the pawn is on its
/// starting rank and both squares are free, and the two squares diagonally
/// ahead whatever stands on them.
pub open spec fn pawn_targets(from: int, occ: Set<int>, color: Color) -> Set<int> {
    let up = forward(color);
    Set::new(
        |t: int|
            0 <= t < 64 && {
                ||| t == from + 8 * up && !occ.contains(t)
                ||| t == from + 16 * up && row_of(from) == pawn_home_row(color) && !occ.contains(
                    from + 8 * up,
                ) && !occ.contains(t)
                ||| row_of(t) == row_of(from) + up && (col_of(t) == col_of(from) + 1 || col_of(t)
                    == col_of(from) - 1)
            },
    )
}

/// The squares that a piece of kind `piece` on `from` threatens; `color` is
/// the direction of a pawn and has no bearing on other pieces.
pub open spec fn targets(piece: Piece, from: int, occ: Set<int>, color: Color) -> Set<int> {
    match piece {
        Piece::Pawn => pawn_targets(from, occ, color),
        Piece::Knight => knight_targets(from),
        Piece::Bishop => bishop_targets(from, occ),
        Piece::Rook => rook_targets(from, occ),
        Piece::Queen => queen_targets(from, occ),
        Piece::King => king_targets(from),
    }
}

/// A single square moved by one step is the next square in that direction,
/// or nothing if that would leave the board.
proof fn lemma_shift_single(s: int, dr: int, dc: int)
    requires
        0 <= s < 64,
        -1 <= dr <= 1,
        -1 <= dc <= 1,
    ensures
        shifted(set![s], dr, dc) == if on_board(row_of(s) + dr, col_of(s) + dc) {
            set![s + 8 * dr + dc]
        } else {
            Set::<int>::empty()
        },
        shifted(Set::<int>::empty(), dr, dc) == Set::<int>::empty(),
{
    let want = if on_board(row_of(s) + dr, col_of(s) + dc) {
        set![s + 8 * dr + dc]
    } else {
        Set::<int>::empty()
    };
    assert forall|t: int| shifted(set![s], dr, dc).contains(t) == want.contains(t) by {}
    assert(shifted(set![s], dr, dc) =~= want);
    assert(shifted(Set::<int>::empty(), dr, dc) =~= Set::<int>::empty());
}

/// Moves every square of the set one step in the given direction.
fn shift_towards(board: &mut Bitboard, dir: Direction)
    ensures
        final(board)@ == shifted(old(board)@, dir.dr(), dir.dc()),
{
    match dir {
        Direction::Up => board.shift_up(),
        Direction::Down => board.shift_down(),
        Direction::Right => board.shift_right(),
        Direction::Left => board.shift_left(),
        Direction::UpRight => board.shift_upp_right(),
        Direction::UpLeft => board.shift_upp_left(),
        Direction::DownRight => board.shift_down_right(),
        Direction::DownLeft => board.shift_down_left(),
    }
}

/// Steps that stay on the board form an unbroken run from the start.
proof fn lemma_reaches_prefix(from: int, dr: int, dc: int, j: int, k: int)
    requires
        0 <= from < 64,
        0 <= j <= k,
        reaches(from, dr, dc, k),
    ensures
        reaches(from, dr, dc, j),
        0 <= step(from, dr, dc, j) < 64,
        row_of(step(from, dr, dc, j)) == row_of(from) + scale(dr, j),
        col_of(step(from, dr, dc, j)) == col_of(from) + scale(dc, j),
{
}

/// One more step adds at most the square at that step.
proof fn lemma_ray_upto_next(occ: Set<int>, from: int, dr: int, dc: int, k: int)
    ensures
        ray_upto(occ, from, dr, dc, k + 1) == ray_upto(occ, from, dr, dc, k) + (if ray_hits(
            occ,
            from,
            dr,
            dc,
            k + 1,
        ) {
            set![step(from, dr, dc, k + 1)]
        } else {
            Set::<int>::empty()
        }),
{
    let last = if ray_hits(occ, from, dr, dc, k + 1) {
        set![step(from, dr, dc, k + 1)]
    } else {
        Set::<int>::empty()
    };
    let small = ray_upto(occ, from, dr, dc, k);
    let large = ray_upto(occ, from, dr, dc, k + 1);
    assert forall|t: int| large.contains(t) implies (small + last).contains(t) by {
        let w = choose|w: int|
            w <= k + 1 && ray_hits(occ, from, dr, dc, w) && t == #[trigger] step(from, dr, dc, w);
        if w <= k {
            assert(small.contains(t));
        }
    }
    assert forall|t: int| (small + last).contains(t) implies large.contains(t) by {
        if small.contains(t) {
            let w = choose|w: int|
                w <= k && ray_hits(occ, from, dr, dc, w) && t == #[trigger] step(from, dr, dc, w);
            assert(w <= k + 1 && ray_hits(occ, from, dr, dc, w) && t == step(from, dr, dc, w));
        } else {
            assert(ray_hits(occ, from, dr, dc, k + 1) && t == step(from, dr, dc, k + 1));
        }
    }
    assert(large =~= small + last);
}

/// Nothing is threatened within zero steps.
proof fn lemma_ray_upto_zero(occ: Set<int>, from: int, dr: int, dc: int)
    ensures
        ray_upto(occ, from, dr, dc, 0) == Set::<int>::empty(),
{
    assert(ray_upto(occ, from, dr, dc, 0) =~= Set::<int>::empty());
}

/// Nothing is threatened beyond an occupied square, nor beyond the edge.
proof fn lemma_ray_upto_stops(occ: Set<int>, from: int, dr: int, dc: int, i: int, limit: int)
    requires
        0 <= from < 64,
        0 <= i <= limit,
        !reaches(from, dr, dc, i + 1) || (i >= 1 && occ.contains(step(from, dr, dc, i))),
    ensures
        ray_upto(occ, from, dr, dc, limit) == ray_upto(occ, from, dr, dc, i),
{
    let small = ray_upto(occ, from, dr, dc, i);
    let large = ray_upto(occ, from, dr, dc, limit);
    assert forall|t: int| large.contains(t) implies small.contains(t) by {
        let w = choose|w: int|
            w <= limit && ray_hits(occ, from, dr, dc, w) && t == #[trigger] step(from, dr, dc, w);
        if w > i {
            lemma_reaches_prefix(from, dr, dc, i + 1, w);
            assert(!occ.contains(step(from, dr, dc, i)));
        }
    }
    assert forall|t: int| small.contains(t) implies large.contains(t) by {
        let w = choose|w: int|
            w <= i && ray_hits(occ, from, dr, dc, w) && t == #[trigger] step(from, dr, dc, w);
        assert(w <= limit && ray_hits(occ, from, dr, dc, w) && t == step(from, dr, dc, w));
    }
    assert(large =~= small);
}

/// Walks from `square` in direction `dir`, at most `max_shift` steps, and
/// gathers the squares passed; the walk ends on the first occupied square.
#[verifier::rlimit(40)]
pub fn shift_attack(square: Square, max_shift: usize, all_occ: Bitboard, dir: Direction) -> (r:
    Bitboard)
    ensures
        r@ == ray_upto(all_occ@, square@, dir.dr(), dir.dc(), max_shift as int),
{
    let ghost from = square@;
    let ghost dr = dir.dr();
    let ghost dc = dir.dc();
    let ghost occ = all_occ@;
    let mut current = square.to_bitboard();
    let mut result_occ = Bitboard::new_empty();
    let mut i: usize = 0;
    proof {
        lemma_ray_upto_zero(occ, from, dr, dc);
    }
    while i < max_shift
        invariant_except_break
            forall|j: int|
                1 <= j <= i && reaches(from, dr, dc, j) ==> !occ.contains(
                    #[trigger] step(from, dr, dc, j),
                ),
        invariant
            0 <= i <= max_shift,
            0 <= from < 64,
            from == square@,
            dr == dir.dr(),
            dc == dir.dc(),
            occ == all_occ@,
            current@ == if reaches(from, dr, dc, i as int) {
                set![step(from, dr, dc, i as int)]
            } else {
                Set::<int>::empty()
            },
            result_occ@ == ray_upto(occ, from, dr, dc, i as int),
        ensures
            result_occ@ == ray_upto(occ, from, dr, dc, max_shift as int),
        decreases max_shift - i,
    {
        let ghost k = i as int + 1;
        proof {
            if reaches(from, dr, dc, i as int) {
                lemma_reaches_prefix(from, dr, dc, i as int, i as int);
                lemma_shift_single(step(from, dr, dc, i as int), dr, dc);
            } else {
                lemma_shift_single(0, dr, dc);
            }
            if reaches(from, dr, dc, k) {
                lemma_reaches_prefix(from, dr, dc, i as int, k);
                assert forall|j: int| 1 <= j < k implies !occ.contains(
                    #[trigger] step(from, dr, dc, j),
                ) by {
                    lemma_reaches_prefix(from, dr, dc, j, k);
                }
                assert(ray_hits(occ, from, dr, dc, k));
            }
            lemma_ray_upto_next(occ, from, dr, dc, i as int);
        }
        shift_towards(&mut current, dir);
        proof {
            result_occ.lemma_set_algebra(current);
        }
        result_occ = result_occ | current;
        i += 1;
        if all_occ.intersects(current) {
            proof {
                assert(reaches(from, dr, dc, k) && occ.contains(step(from, dr, dc, k)));
                lemma_ray_upto_stops(occ, from, dr, dc, k, max_shift as int);
            }
            break ;
        }
    }
    result_occ
}

/// The smaller of two numbers.
fn lesser(a: usize, b: usize) -> (m: usize)
    ensures
        m == if a <= b {
            a
        } else {
            b
        },
{
    if a <= b {
        a
    } else {
        b
    }
}

/// The squares that a rook on `square` threatens: along each of the four
/// straight lines up to the first occupied square, that square included.
pub fn rook_attacks(square: Square, all_occ: Bitboard) -> (r: Bitboard)
    ensures
        r@ == rook_targets(square@, all_occ@),
{
    let (row, col) = Bitboard::index_to_coord(square.index());
    let up = shift_attack(square, 7 - row, all_occ, Direction::Up);
    let down = shift_attack(square, row, all_occ, Direction::Down);
    let right = shift_attack(square, 7 - col, all_occ, Direction::Right);
    let left = shift_attack(square, col, all_occ, Direction::Left);
    proof {
        lemma_ray_upto_stops(all_occ@, square@, 1, 0, 7 - row, 7);
        lemma_ray_upto_stops(all_occ@, square@, -1, 0, row as int, 7);
        lemma_ray_upto_stops(all_occ@, square@, 0, 1, 7 - col, 7);
        lemma_ray_upto_stops(all_occ@, square@, 0, -1, col as int, 7);
        up.lemma_set_algebra(down);
        up.union(down).lemma_set_algebra(right);
        up.union(down).union(right).lemma_set_algebra(left);
    }
    up | down | right | left
}

/// The squares that a bishop on `square` threatens: along each of the four
/// diagonals up to the first occupied square, that square included.
pub fn bishop_attacks(square: Square, all_occ: Bitboard) -> (r: Bitboard)
    ensures
        r@ == bishop_targets(square@, all_occ@),
{
    let (row, col) = Bitboard::index_to_coord(square.index());
    let max_shift_ur: usize = lesser(7 - row, 7 - col);
    let max_shift_ul: usize = lesser(7 - row, col);
    let max_shift_dr: usize = lesser(row, 7 - col);
    let max_shift_dl: usize = lesser(row, col);
    let ul = shift_attack(square, max_shift_ul, all_occ, Direction::UpLeft);
    let ur = shift_attack(square, max_shift_ur, all_occ, Direction::UpRight);
    let dr = shift_attack(square, max_shift_dr, all_occ, Direction::DownRight);
    let dl = shift_attack(square, max_shift_dl, all_occ, Direction::DownLeft);
    proof {
        lemma_ray_upto_stops(all_occ@, square@, 1, -1, max_shift_ul as int, 7);
        lemma_ray_upto_stops(all_occ@, square@, 1, 1, max_shift_ur as int, 7);
        lemma_ray_upto_stops(all_occ@, square@, -1, 1, max_shift_dr as int, 7);
        lemma_ray_upto_stops(all_occ@, square@, -1, -1, max_shift_dl as int, 7);
        ul.lemma_set_algebra(ur);
        ul.union(ur).lemma_set_algebra(dr);
        ul.union(ur).union(dr).lemma_set_algebra(dl);
    }
    ul | ur | dr | dl
}

/// The squares that a queen on `square` threatens: those of a rook and those
/// of a bishop.
pub fn queen_attacks(square: Square, all_occ: Bitboard) -> (r: Bitboard)
    ensures
        r@ == queen_targets(square@, all_occ@),
{
    let straight = rook_attacks(square, all_occ);
    let diagonal = bishop_attacks(square, all_occ);
    proof {
        straight.lemma_set_algebra(diagonal);
    }
    straight | diagonal
}

/// Adds to `board` the square next to `square` in direction `dir`, if there
/// is one.
fn add_neighbour(board: &mut Bitboard, square: Square, dir: Direction)
    ensures
        final(board)@ == if on_board(row_of(square@) + dir.dr(), col_of(square@) + dir.dc()) {
            old(board)@.insert(square@ + 8 * dir.dr() + dir.dc())
        } else {
            old(board)@
        },
{
    let mut tmp = square.to_bitboard();
    proof {
        lemma_shift_single(square@, dir.dr(), dir.dc());
    }
    shift_towards(&mut tmp, dir);
    proof {
        board.lemma_set_algebra(tmp);
    }
    *board = *board | tmp;
    proof {
        if on_board(row_of(square@) + dir.dr(), col_of(square@) + dir.dc()) {
            assert(board@ =~= old(board)@.insert(square@ + 8 * dir.dr() + dir.dc()));
        } else {
            assert(board@ =~= old(board)@);
        }
    }
}

/// The squares that a king on `square` threatens.
#[verifier::rlimit(40)]
pub fn king_attacks(square: Square) -> (r: Bitboard)
    ensures
        r@ == king_targets(square@),
{
    let mut atk = Bitboard::new_empty();
    add_neighbour(&mut atk, square, Direction::Up);
    add_neighbour(&mut atk, square, Direction::Down);
    add_neighbour(&mut atk, square, Direction::Left);
    add_neighbour(&mut atk, square, Direction::Right);
    add_neighbour(&mut atk, square, Direction::UpLeft);
    add_neighbour(&mut atk, square, Direction::UpRight);
    add_neighbour(&mut atk, square, Direction::DownLeft);
    add_neighbour(&mut atk, square, Direction::DownRight);
    proof {
        let s = square@;
        assert forall|t: int| atk@.contains(t) == king_targets(s).contains(t) by {}
        assert(atk@ =~= king_targets(s));
    }
    atk
}

/// Adds to `board` the square `(dr, dc)` away from `(row, col)`, if that
/// square is on the board.
fn add_jump(board: &mut Bitboard, row: usize, col: usize, dr: i32, dc: i32)
    requires
        on_board(row as int, col as int),
        -2 <= dr <= 2,
        -2 <= dc <= 2,
    ensures
        final(board)@ == if on_board(row + dr, col + dc) {
            old(board)@.insert((row + dr) * 8 + col + dc)
        } else {
            old(board)@
        },
{
    let target_row: i32 = row as i32 + dr;
    let target_col: i32 = col as i32 + dc;
    if target_row <= 7 && target_row >= 0 && target_col <= 7 && target_col >= 0 {
        board.set(Bitboard::coord_to_index(target_row as usize, target_col as usize));
    }
}

/// The squares that a knight on `square` threatens.
#[verifier::rlimit(40)]
pub fn knight_attacks(square: Square) -> (r: Bitboard)
    ensures
        r@ == knight_targets(square@),
{
    let (row, col) = Bitboard::index_to_coord(square.index());
    let mut result_board = Bitboard::new_empty();
    add_jump(&mut result_board, row, col, 2, 1);
    add_jump(&mut result_board, row, col, 2, -1);
    add_jump(&mut result_board, row, col, -2, 1);
    add_jump(&mut result_board, row, col, -2, -1);
    add_jump(&mut result_board, row, col, 1, 2);
    add_jump(&mut result_board, row, col, 1, -2);
    add_jump(&mut result_board, row, col, -1, 2);
    add_jump(&mut result_board, row, col, -1, -2);
    proof {
        let s = square@;
        assert forall|t: int| result_board@.contains(t) == knight_targets(s).contains(t) by {}
        assert(result_board@ =~= knight_targets(s));
    }
    result_board
}

/// The squares that a pawn of `color` on `square` may go to or capture on.
/// The diagonal squares are given whether or not anything stands on them.
#[verifier::rlimit(40)]
pub fn pawn_attacks(square: Square, all_occ: Bitboard, color: Color) -> (r: Bitboard)
    ensures
        r@ == pawn_targets(square@, all_occ@, color),
{
    let origin = square.to_bitboard();
    let (row, _) = Bitboard::index_to_coord(square.index());
    let mut temp = origin;
    let mut result_occ = Bitboard::new_empty();
    let ghost s = square@;
    let ghost up = forward(color);
    proof {
        lemma_shift_single(s, up, 0);
        lemma_shift_single(s, up, 1);
        lemma_shift_single(s, up, -1);
        if on_board(row_of(s) + up, col_of(s)) {
            lemma_shift_single(s + 8 * up, up, 0);
        } else {
            lemma_shift_single(0, up, 0);
        }
    }
    match color {
        Color::White => {
            temp.shift_up();
            if !all_occ.intersects(temp) {
                proof {
                    result_occ.lemma_set_algebra(temp);
                }
                result_occ = result_occ | temp;
                temp.shift_up();
                if !all_occ.intersects(temp) && row == 1 {
                    proof {
                        result_occ.lemma_set_algebra(temp);
                    }
                    result_occ = result_occ | temp;
                }
            }
            temp = origin;
            temp.shift_upp_right();
            proof {
                result_occ.lemma_set_algebra(temp);
            }
            result_occ = result_occ | temp;
            temp = origin;
            temp.shift_upp_left();
            proof {
                result_occ.lemma_set_algebra(temp);
            }
            result_occ = result_occ | temp;
        },
        Color::Black => {
            temp.shift_down();
            if !all_occ.intersects(temp) {
                proof {
                    result_occ.lemma_set_algebra(temp);
                }
                result_occ = result_occ | temp;
                temp.shift_down();
                if !all_occ.intersects(temp) && row == 6 {
                    proof {
                        result_occ.lemma_set_algebra(temp);
                    }
                    result_occ = result_occ | temp;
                }
            }
            temp = origin;
            temp.shift_down_right();
            proof {
                result_occ.lemma_set_algebra(temp);
            }
            result_occ = result_occ | temp;
            temp = origin;
            temp.shift_down_left();
            proof {
                result_occ.lemma_set_algebra(temp);
            }
            result_occ = result_occ | temp;
        },
    };
    proof {
        assert forall|t: int|
            result_occ@.contains(t) == pawn_targets(s, all_occ@, color).contains(t) by {}
        assert(result_occ@ =~= pawn_targets(s, all_occ@, color));
    }
    result_occ
}

/// The squares that `piece` on `square` threatens. `color` gives the
/// direction of a pawn.
pub fn get_attacks(piece: PieceIndex, square: Square, all_occ: Bitboard, color: Color) -> (r:
    Bitboard)
    ensures
        r@ == targets(piece.kind(), square@, all_occ@, color),
{
    match piece {
        PieceIndex::WhitePawn | PieceIndex::BlackPawn => { pawn_attacks(square, all_occ, color) },
        PieceIndex::WhiteKnight | PieceIndex::BlackKnight => { knight_attacks(square) },
        PieceIndex::WhiteBishop | PieceIndex::BlackBishop => { bishop_attacks(square, all_occ) },
        PieceIndex::WhiteRook | PieceIndex::BlackRook => { rook_attacks(square, all_occ) },
        PieceIndex::WhiteQueen | PieceIndex::BlackQueen => { queen_attacks(square, all_occ) },
        PieceIndex::WhiteKing | PieceIndex::BlackKing => { king_attacks(square) },
    }
}

} // verus!
