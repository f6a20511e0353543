//! Move generation, move application and the legality filter.

use vstd::prelude::*;
use std::ops::Not;
use crate::attack::get_attacks;
use crate::bits::lemma_bit_castle_masks;
use crate::board::Bitboard;
use crate::game::promotions;
use crate::kastling::{CastlingSide, Imposter};
use crate::moves::{BitMove, MoveList, MoveType};
use crate::piece::{Piece, PieceIndex};
use crate::position::{Color, Position};
use crate::square::Square;

verus! {

/// Appends the four promotions of a pawn that goes from `start_square` to
/// `end_square`, if the list has room for them.
fn add_promotions(
    move_list: &mut MoveList,
    start_square: Square,
    end_square: Square,
    is_capture: bool,
) -> (ok: bool)
    ensures
        ok == (old(move_list)@.len() + 4 <= 256),
        ok ==> final(move_list)@ == old(move_list)@ + promotions(
            start_square@,
            end_square@,
            is_capture,
        ),
{
    if move_list.size() > 252 {
        return false;
    }
    move_list.add(
        BitMove::new(start_square, end_square, is_capture, MoveType::Promotion(Piece::Bishop)),
    );
    move_list.add(
        BitMove::new(start_square, end_square, is_capture, MoveType::Promotion(Piece::Knight)),
    );
    move_list.add(
        BitMove::new(start_square, end_square, is_capture, MoveType::Promotion(Piece::Rook)),
    );
    move_list.add(
        BitMove::new(start_square, end_square, is_capture, MoveType::Promotion(Piece::Queen)),
    );
    assert(move_list@ =~= old(move_list)@ + promotions(start_square@, end_square@, is_capture));
    true
}

/// Appends `mov`, if the list has room for it.
fn add_one(move_list: &mut MoveList, mov: BitMove) -> (ok: bool)
    ensures
        ok == (old(move_list)@.len() + 1 <= 256),
        ok ==> final(move_list)@ == old(move_list)@ + seq![mov],
{
    if move_list.size() >= 256 {
        return false;
    }
    move_list.add(mov);
    assert(move_list@ =~= old(move_list)@ + seq![mov]);
    true
}

impl Position {
    /// Whether `after` is `before` with the pseudo-legal moves of this
    /// position appended.
    pub open spec fn generated(self, before: Seq<BitMove>, after: Seq<BitMove>) -> bool {
        after == before + self.current@.layout.moves()
    }

    /// Generating twice from the same position into lists that hold the same
    /// moves gives lists that hold the same moves, in the same order.
    pub proof fn lemma_generation_repeats(
        self,
        before: Seq<BitMove>,
        first: Seq<BitMove>,
        second: Seq<BitMove>,
    )
        requires
            self.generated(before, first),
            self.generated(before, second),
        ensures
            first == second,
    {
    }

    /// Appends the castling move by `side` for the king on `start_square`, if
    /// the right is held and the squares between king and rook are free, and
    /// says whether the list had room.
    fn add_castle(&self, start_square: Square, side: CastlingSide, move_list: &mut MoveList) -> (ok:
        bool)
        requires
            self.current.bitboards.wf(),
        ensures
            ok == (old(move_list)@.len() + self.current@.layout.castle_move(
                start_square@,
                side,
            ).len() <= 256),
            ok ==> final(move_list)@ == old(move_list)@ + self.current@.layout.castle_move(
                start_square@,
                side,
            ),
    {
        let ghost lay = self.current@.layout;
        let all_occ = self.current.bitboards.all_occupancy;
        let (target_square, mask) = match side {
            CastlingSide::WK => (Square::G1, Bitboard::new_const(0x60)),
            CastlingSide::WQ => (Square::C1, Bitboard::new_const(0x0E)),
            CastlingSide::BK => (Square::G8, Bitboard::new_const(0x6000000000000000)),
            CastlingSide::BQ => (Square::C8, Bitboard::new_const(0x0E00000000000000)),
        };
        proof {
            self.current.bitboards.lemma_wf();
            assert forall|s: int| mask@.contains(s) == side.between(s) by {
                lemma_bit_castle_masks(s);
            }
        }
        let free = !all_occ.intersects(mask);
        proof {
            if free {
                assert forall|s: int| side.between(s) implies lay.placement[s] is None by {
                    assert(!(all_occ@.contains(s) && mask@.contains(s)));
                }
            } else {
                let s = choose|s: int| all_occ@.contains(s) && mask@.contains(s);
                assert(side.between(s) && lay.placement[s] is Some);
            }
        }
        if self.current.castling.can_castle(side) && free {
            add_one(
                move_list,
                BitMove::new(
                    start_square,
                    target_square,
                    false,
                    MoveType::Castling(Imposter::from_castling_side(side)),
                ),
            )
        } else {
            // Nothing is added, and no list holds more than it has room for.
            let _held: usize = move_list.size();
            assert(move_list@ =~= old(move_list)@ + lay.castle_move(start_square@, side));
            true
        }
    }

    /// Appends the moves of the piece on `start_square` to the reachable
    /// square `end_square`, and says whether the list had room.
    #[verifier::rlimit(40)]
    fn add_moves_to(
        &self,
        piece_index: PieceIndex,
        start_square: Square,
        end_square: Square,
        move_list: &mut MoveList,
    ) -> (ok: bool)
        requires
            self.current.bitboards.wf(),
            self.current.bitboards@[start_square@] == Some(piece_index),
            piece_index.side() == self.current.side_to_move,
            self.current@.layout.reachable(start_square@, end_square@),
        ensures
            ok == (old(move_list)@.len() + self.current@.layout.moves_to(
                start_square@,
                end_square@,
            ).len() <= 256),
            ok ==> final(move_list)@ == old(move_list)@ + self.current@.layout.moves_to(
                start_square@,
                end_square@,
            ),
    {
        let ghost lay = self.current@.layout;
        let opponent_occ = match self.current.side_to_move {
            Color::White => self.current.bitboards.black_occupancy,
            Color::Black => self.current.bitboards.white_occupancy,
        };
        let (start_row, start_col) = start_square.to_coord();
        let (end_row, end_col) = end_square.to_coord();
        proof {
            self.current.bitboards.lemma_wf();
        }
        let mut is_capture = opponent_occ.is_occupied(end_square);
        assert(is_capture == lay.enemy(end_square@));
        let mut move_type = MoveType::Quiet;
        if piece_index == PieceIndex::WhitePawn || piece_index == PieceIndex::BlackPawn {
            if start_col != end_col {
                let takes_in_passing = match self.current.en_passant {
                    Some(en_passant_square) => end_square == en_passant_square,
                    None => false,
                };
                proof {
                    crate::square::lemma_square_index(end_square, end_square);
                    if self.current.en_passant is Some {
                        crate::square::lemma_square_index(end_square, self.current.en_passant->0);
                    }
                }
                if takes_in_passing {
                    is_capture = true;
                    move_type = MoveType::EnPassant;
                } else if !is_capture {
                    // Nothing is added, and no list holds more than it has room for.
                    let _held: usize = move_list.size();
                    assert(move_list@ =~= old(move_list)@ + lay.moves_to(
                        start_square@,
                        end_square@,
                    ));
                    return true;
                }
            }
            if start_col == end_col {
                if piece_index == PieceIndex::WhitePawn && start_row == 1 && end_row == 3 {
                    move_type = MoveType::EnPassant;
                } else if piece_index == PieceIndex::BlackPawn && start_row == 6 && end_row == 4 {
                    move_type = MoveType::EnPassant;
                }
            }
            if end_row == 0 || end_row == 7 {
                return add_promotions(move_list, start_square, end_square, is_capture);
            }
        }
        add_one(move_list, BitMove::new(start_square, end_square, is_capture, move_type))
    }

    /// Appends to `move_list` the pseudo-legal moves of the side to move, if
    /// the list has room for all of them, and says whether it had. If it had
    /// not, what the list holds afterwards is not told.
    #[verifier::rlimit(40)]
    pub fn try_pseudo_legal(&self, move_list: &mut MoveList) -> (ok: bool)
        requires
            self.current.bitboards.wf(),
        ensures
            ok == (old(move_list)@.len() + self.current@.layout.moves().len() <= 256),
            ok ==> self.generated(old(move_list)@, final(move_list)@),
    {
        let ghost lay = self.current@.layout;
        let all_occ = self.current.bitboards.all_occupancy;
        let color = self.current.side_to_move;
        let my_occ = match self.current.side_to_move {
            Color::White => self.current.bitboards.white_occupancy,
            Color::Black => self.current.bitboards.black_occupancy,
        };
        let mut my_occ_loop = my_occ;
        let ghost mut bound: int = 0;
        proof {
            self.current.bitboards.lemma_wf();
            assert(my_occ_loop@ =~= Set::new(|s: int| lay.own(s) && s >= bound));
            assert(all_occ@ =~= lay.occupied());
            assert(move_list@ =~= old(move_list)@ + lay.moves_upto(0));
        }
        loop
            invariant_except_break
                move_list@ == old(move_list)@ + lay.moves_upto(bound),
            invariant
                0 <= bound <= 64,
                self.current.bitboards.wf(),
                lay == self.current@.layout,
                all_occ == self.current.bitboards.all_occupancy,
                all_occ@ == lay.occupied(),
                color == self.current.side_to_move,
                forall|s: int| my_occ@.contains(s) == lay.own(s),
                my_occ_loop@ == Set::new(|s: int| lay.own(s) && s >= bound),
            ensures
                move_list@ == old(move_list)@ + lay.moves(),
            decreases 64 - bound,
        {
            let ghost pending = my_occ_loop@;
            let idx = match my_occ_loop.pop_lsb() {
                Some(index) => index,
                None => {
                    proof {
                        assert forall|s: int| bound <= s < 64 implies !lay.own(s) by {
                            assert(!pending.contains(s));
                        }
                        lay.lemma_moves_upto_skip(bound, 64);
                    }
                    break ;
                },
            };
            let ghost from = idx as int;
            proof {
                assert(pending.contains(from));
                assert forall|s: int| bound <= s < from implies !lay.own(s) by {
                    if lay.own(s) {
                        assert(pending.contains(s));
                    }
                }
                lay.lemma_moves_upto_skip(bound, from);
                self.current.bitboards.lemma_wf();
            }
            let start_square = Square::from_idx(idx).unwrap();
            let piece_index = self.current.bitboards.piece_on_square(start_square).unwrap();
            let piece = Piece::from_piece_index(&piece_index);
            let mut attacks = get_attacks(piece_index, start_square, all_occ, color);
            proof {
                my_occ.lemma_set_algebra(my_occ);
                attacks.lemma_set_algebra(my_occ.complement());
            }
            attacks = attacks & my_occ.not();
            let ghost mut target_bound: int = 0;
            proof {
                assert(attacks@ =~= Set::new(|t: int| lay.reachable(from, t) && t >= target_bound));
                lay.lemma_moves_room(from, 0);
            }
            if piece == Piece::King {
                let (king_side, queen_side) = match color {
                    Color::White => (CastlingSide::WK, CastlingSide::WQ),
                    Color::Black => (CastlingSide::BK, CastlingSide::BQ),
                };
                if !self.add_castle(start_square, king_side, move_list) {
                    return false;
                }
                if !self.add_castle(start_square, queen_side, move_list) {
                    return false;
                }
            }
            assert(move_list@ =~= old(move_list)@ + lay.moves_upto(from) + lay.castle_moves(from)
                + lay.moves_below(from, 0));
            loop
                invariant_except_break
                    move_list@ == old(move_list)@ + lay.moves_upto(from) + lay.castle_moves(from)
                        + lay.moves_below(from, target_bound),
                invariant
                    0 <= target_bound <= 64,
                    0 <= from < 64,
                    from == start_square@,
                    lay.own(from),
                    self.current.bitboards.wf(),
                    self.current.bitboards@[from] == Some(piece_index),
                    piece_index.side() == self.current.side_to_move,
                    lay == self.current@.layout,
                    attacks@ == Set::new(|t: int| lay.reachable(from, t) && t >= target_bound),
                ensures
                    move_list@ == old(move_list)@ + lay.moves_upto(from) + lay.moves_from(from),
                decreases 64 - target_bound,
            {
                let ghost waiting = attacks@;
                let attack_idx = match attacks.pop_lsb() {
                    Some(attack_index) => attack_index,
                    None => {
                        proof {
                            assert forall|t: int| target_bound <= t < 64 implies !lay.reachable(
                                from,
                                t,
                            ) by {
                                assert(!waiting.contains(t));
                            }
                            lay.lemma_moves_below_skip(from, target_bound, 64);
                            assert(move_list@ =~= old(move_list)@ + lay.moves_upto(from)
                                + lay.moves_from(from));
                        }
                        break ;
                    },
                };
                let ghost to = attack_idx as int;
                proof {
                    assert(waiting.contains(to));
                    assert forall|t: int| target_bound <= t < to implies !lay.reachable(from, t) by {
                        if lay.reachable(from, t) {
                            assert(waiting.contains(t));
                        }
                    }
                    lay.lemma_moves_below_skip(from, target_bound, to);
                    lay.lemma_moves_room(from, to);
                }
                let end_square = Square::from_idx(attack_idx).unwrap();
                if !self.add_moves_to(piece_index, start_square, end_square, move_list) {
                    return false;
                }
                proof {
                    target_bound = to + 1;
                    assert(move_list@ =~= old(move_list)@ + lay.moves_upto(from) + lay.castle_moves(
                        from,
                    ) + lay.moves_below(from, target_bound));
                    assert(attacks@ =~= Set::new(
                        |t: int| lay.reachable(from, t) && t >= target_bound,
                    ));
                }
            }
            proof {
                bound = from + 1;
                assert(move_list@ =~= old(move_list)@ + lay.moves_upto(bound));
                assert(my_occ_loop@ =~= Set::new(|s: int| lay.own(s) && s >= bound));
            }
        }
        // Every move has been added, and no list holds more than it has room for.
        let _held: usize = move_list.size();
        true
    }

    /// Appends to `move_list` the pseudo-legal moves of the side to move: the
    /// moves that obey how the pieces move, whether or not they leave the
    /// mover's king in check. The list must have room for them.
    ///
    /// The pieces are taken by ascending square; for each piece castling comes
    /// first, then its destinations by ascending square.
    pub fn pseudo_legal(&self, move_list: &mut MoveList)
        requires
            self.current.bitboards.wf(),
            old(move_list)@.len() + self.current@.layout.moves().len() <= 256,
        ensures
            self.generated(old(move_list)@, final(move_list)@),
            final(move_list)@ == old(move_list)@ + self.current@.layout.moves(),
    {
        let ok = self.try_pseudo_legal(move_list);
        assert(ok);
    }

    /// Whether `mov` revokes the castling right `r`.
    #[verifier::rlimit(40)]
    fn revokes(&self, mov: BitMove, r: CastlingSide) -> (b: bool)
        requires
            self.current.bitboards.wf(),
            self.current@.layout.own(mov.origin()),
        ensures
            b == self.current@.layout.revokes(mov, r),
    {
        let color = self.current.side_to_move;
        let start_square = mov.get_start_square();
        let end_square = mov.get_end_square();
        let piece_index = mov.get_piece(&self.current.bitboards);
        let (right_color, corner) = match r {
            CastlingSide::WK => (Color::White, Square::H1),
            CastlingSide::WQ => (Color::White, Square::A1),
            CastlingSide::BK => (Color::Black, Square::H8),
            CastlingSide::BQ => (Color::Black, Square::A8),
        };
        let rook = PieceIndex::from_piece(Piece::Rook, right_color);
        proof {
            crate::square::lemma_square_index(start_square, corner);
            crate::square::lemma_square_index(end_square, corner);
        }
        let castles_by_it = match mov.get_castle_side() {
            Some(wing) => right_color == color && Imposter::from_castling_side(r) == wing,
            None => false,
        };
        let king_moves = piece_index.to_piece() == Piece::King && right_color == color;
        let rook_leaves = piece_index == rook && start_square == corner;
        let rook_taken = if mov.is_capture() && !mov.is_en_passant() && end_square == corner {
            match self.current.bitboards.piece_on_square(end_square) {
                Some(taken) => taken == rook,
                None => false,
            }
        } else {
            false
        };
        castles_by_it || king_moves || rook_leaves || rook_taken
    }

    /// Applies `mov` to the position: the current state goes onto the history
    /// and is replaced by the state after the move.
    ///
    /// The move must be one that the position admits, as every pseudo-legal
    /// move of a consistent position is, and a counter that goes up must have
    /// room to do so.
    #[verifier::rlimit(60)]
    pub fn make_move(&mut self, mov: BitMove)
        requires
            old(self).current.bitboards.wf(),
            old(self).current@.layout.admits(mov),
            !mov.captures() && old(self).current@.layout.mover(mov).kind() != Piece::Pawn ==> old(
                self,
            ).current.halfmove_clock < u16::MAX,
            old(self).current.side_to_move == Color::Black ==> old(self).current.fullmove_number
                < u16::MAX,
        ensures
            old(self).moved(mov, *final(self)),
            final(self).history@ == old(self).history@.push(old(self).current),
            final(self).current@ == old(self).current@.after(mov),
            final(self).current.bitboards.wf(),
            old(self).current.wf() ==> final(self).current.wf(),
            old(self).wf() ==> final(self).wf(),
    {
        let ghost lay = self.current@.layout;
        let ghost from = mov.origin();
        let ghost to = mov.dest();
        proof {
            mov.lemma_unpack();
        }
        self.history.push(self.current);

        let color = self.current.side_to_move;
        let start_square = mov.get_start_square();
        let end_square = mov.get_end_square();
        let piece_index = mov.get_piece(&self.current.bitboards);
        let piece = Piece::from_piece_index(&piece_index);
        let revokes_wk = self.revokes(mov, CastlingSide::WK);
        let revokes_wq = self.revokes(mov, CastlingSide::WQ);
        let revokes_bk = self.revokes(mov, CastlingSide::BK);
        let revokes_bq = self.revokes(mov, CastlingSide::BQ);

        self.current.bitboards.remove(piece_index, start_square);
        assert(self.current.bitboards@ == lay.placement.update(from, None));

        if color == Color::Black {
            self.current.fullmove_number += 1;
        }
        if mov.is_capture() || piece == Piece::Pawn {
            self.current.halfmove_clock = 0;
        } else {
            self.current.halfmove_clock += 1;
        }

        // Take off the captured piece.
        if mov.is_capture() {
            if mov.is_en_passant() {
                let (captured_square, captured_piece) = match color {
                    Color::White => (Square::from_idx(end_square.index() - 8), PieceIndex::BlackPawn),
                    Color::Black => (Square::from_idx(end_square.index() + 8), PieceIndex::WhitePawn),
                };
                self.current.bitboards.remove(captured_piece, captured_square.unwrap());
            } else {
                let captured_piece = self.current.bitboards.piece_on_square(end_square).unwrap();
                self.current.bitboards.remove(captured_piece, end_square);
            }
        }
        let ghost taken = if mov.captures() {
            lay.placement.update(from, None).update(lay.capture_square(mov), None)
        } else {
            lay.placement.update(from, None)
        };
        assert(self.current.bitboards@ == taken);
        assert(self.current.bitboards.wf());

        // Put the mover, or what it is promoted to, on the destination.
        match mov.get_premotion_piece() {
            Some(promo_piece) => self.current.bitboards.set(
                PieceIndex::from_piece(promo_piece, color),
                end_square,
            ),
            None => self.current.bitboards.set(piece_index, end_square),
        }
        let ghost landed = taken.update(to, Some(lay.placed(mov)));
        assert(self.current.bitboards@ == landed);

        self.current.en_passant = None;
        if piece == Piece::Pawn && mov.is_double_pawn_push() {
            self.current.en_passant = match color {
                Color::Black => Square::from_idx(start_square.index() - 8),
                Color::White => Square::from_idx(start_square.index() + 8),
            };
        }

        // In castling the rook goes from its corner to the other side of the king.
        match mov.get_castle_side() {
            Some(side) => {
                let (rook_piece, rook_square_start, rook_square_end) = match color {
                    Color::Black => {
                        if side == Imposter::King {
                            (PieceIndex::BlackRook, Square::H8, Square::F8)
                        } else {
                            (PieceIndex::BlackRook, Square::A8, Square::D8)
                        }
                    },
                    Color::White => {
                        if side == Imposter::King {
                            (PieceIndex::WhiteRook, Square::H1, Square::F1)
                        } else {
                            (PieceIndex::WhiteRook, Square::A1, Square::D1)
                        }
                    },
                };
                self.current.bitboards.remove(rook_piece, rook_square_start);
                self.current.bitboards.set(rook_piece, rook_square_end);
            },
            None => (),
        }
        assert(self.current.bitboards@ == lay.placement_after(mov));

        if revokes_wk {
            self.current.castling.remove_castling_right(CastlingSide::WK);
        }
        if revokes_wq {
            self.current.castling.remove_castling_right(CastlingSide::WQ);
        }
        if revokes_bk {
            self.current.castling.remove_castling_right(CastlingSide::BK);
        }
        if revokes_bq {
            self.current.castling.remove_castling_right(CastlingSide::BQ);
        }
        assert(self.current.castling == lay.castling_after(mov));

        self.current.side_to_move = self.current.side_to_move.not();

        proof {
            assert(self.current@.layout.placement == lay.after(mov).placement);
            assert(self.current@.layout.en_passant == lay.after(mov).en_passant);
            assert(self.current@.layout == lay.after(mov));
            if old(self).current.wf() {
                lay.lemma_after_consistent(mov);
            }
        }
    }

    /// Whether `mov` leaves the mover's own king where a reply of the other
    /// side can capture it, if the list of the replies has room in a move
    /// list; `None` if it has not. The move is tried on a copy; the position
    /// itself stays as it is.
    pub fn try_makes_self_check(&self, mov: BitMove) -> (r: Option<bool>)
        requires
            self.current.bitboards.wf(),
            self.current@.layout.admits(mov),
        ensures
            r is Some == self.current@.layout.after(mov).fits(),
            r is Some ==> r->0 == self.current@.layout.leaves_king_in_check(mov),
    {
        let ghost lay = self.current@.layout;
        // The counters play no part in what follows; the copy starts them at
        // zero so that they have room to go up.
        let mut scratch = self.current;
        scratch.halfmove_clock = 0;
        scratch.fullmove_number = 0;
        let mut temp_pos = Position { current: scratch, history: Vec::new() };
        assert(temp_pos.current@.layout == lay);
        temp_pos.make_move(mov);
        let ghost next = temp_pos.current@.layout;
        assert(next == lay.after(mov));

        let mut move_list = MoveList::new_empty();
        let self_king = match temp_pos.current.side_to_move.not() {
            Color::Black => PieceIndex::BlackKing,
            Color::White => PieceIndex::WhiteKing,
        };
        if !temp_pos.try_pseudo_legal(&mut move_list) {
            return None;
        }
        assert(move_list@ =~= next.moves());
        let count = move_list.size();
        let mut i: usize = 0;
        while i < count
            invariant
                0 <= i <= count,
                count == move_list@.len(),
                move_list@ == next.moves(),
                next.fits(),
                next == temp_pos.current@.layout,
                next == lay.after(mov),
                lay == self.current@.layout,
                self_king == PieceIndex::of(Piece::King, lay.side),
                forall|j: int|
                    0 <= j < i ==> next.placement[(#[trigger] next.moves()[j]).dest()] != Some(
                        self_king,
                    ),
            decreases count - i,
        {
            let reply = *move_list.get(i).unwrap();
            proof {
                reply.lemma_unpack();
            }
            match temp_pos.current.bitboards.piece_on_square(reply.get_end_square()) {
                Some(piece) => {
                    if piece == self_king {
                        assert(next.placement[next.moves()[i as int].dest()] == Some(self_king));
                        assert(next.king_capturable(lay.side));
                        return Some(true);
                    }
                },
                None => {},
            }
            i += 1;
        }
        Some(false)
    }

    /// Whether `mov` leaves the mover's own king where a reply of the other
    /// side can capture it. The list of the replies must have room in a move
    /// list.
    pub fn makes_self_check(&self, mov: BitMove) -> (r: bool)
        requires
            self.current.bitboards.wf(),
            self.current@.layout.admits(mov),
            self.current@.layout.after(mov).fits(),
        ensures
            r == self.current@.layout.leaves_king_in_check(mov),
    {
        self.try_makes_self_check(mov).unwrap()
    }

    /// Puts into `move_list` the legal moves of the side to move, if the list
    /// of the pseudo-legal moves, and after each of them the list of the
    /// replies, has room in a move list; says whether they had. If they had
    /// not, what the list holds afterwards is not told.
    pub fn try_fill_legal(&self, move_list: &mut MoveList) -> (ok: bool)
        requires
            self.current.wf(),
        ensures
            ok == (self.current@.layout.fits() && self.current@.layout.replies_fit()),
            ok ==> final(move_list)@ == self.current@.layout.legal_moves(),
    {
        let ghost lay = self.current@.layout;
        let ghost legal = |mov: BitMove| !lay.leaves_king_in_check(mov);
        move_list.clear();

        let mut list = MoveList::new_empty();
        if !self.try_pseudo_legal(&mut list) {
            return false;
        }
        assert(list@ =~= lay.moves());
        proof {
            lay.lemma_moves_admitted();
            reveal(Seq::filter);
            assert(list@.take(0).filter(legal) =~= Seq::<BitMove>::empty());
        }
        let count = list.size();
        let mut i: usize = 0;
        while i < count
            invariant
                0 <= i <= count <= 256,
                count == list@.len(),
                list@ == lay.moves(),
                lay == self.current@.layout,
                lay.fits(),
                self.current.wf(),
                lay.admits_all(lay.moves()),
                forall|j: int| 0 <= j < i ==> lay.after(#[trigger] lay.moves()[j]).fits(),
                legal == |mov: BitMove| !lay.leaves_king_in_check(mov),
                move_list@ == list@.take(i as int).filter(legal),
            decreases count - i,
        {
            let mov = *list.get(i).unwrap();
            proof {
                let shorter = list@.take(i as int);
                let longer = list@.take(i as int + 1);
                assert(longer.drop_last() =~= shorter);
                assert(longer.last() == mov);
                reveal(Seq::filter);
                shorter.lemma_filter_len(legal);
                assert(lay.admits(lay.moves()[i as int]));
            }
            match self.try_makes_self_check(mov) {
                Some(exposed) => {
                    if !exposed {
                        move_list.add(mov);
                    }
                },
                None => {
                    assert(!lay.after(lay.moves()[i as int]).fits());
                    return false;
                },
            }
            i += 1;
        }
        assert(list@.take(count as int) =~= list@);
        true
    }

    /// Puts into `move_list` the legal moves of the side to move: the
    /// pseudo-legal moves that do not leave the mover's king in check, in the
    /// order of generation. What the list held before is dropped.
    pub fn fill_legal(&self, move_list: &mut MoveList)
        requires
            self.current.wf(),
            self.current@.layout.fits(),
            self.current@.layout.replies_fit(),
        ensures
            final(move_list)@ == self.current@.layout.legal_moves(),
    {
        let ok = self.try_fill_legal(move_list);
        assert(ok);
    }

    /// The legal moves of the side to move, in the order of generation.
    pub fn legal_moves(&self) -> (r: MoveList)
        requires
            self.current.wf(),
            self.current@.layout.fits(),
            self.current@.layout.replies_fit(),
        ensures
            r@ == self.current@.layout.legal_moves(),
    {
        let mut move_list = MoveList::new_empty();
        self.fill_legal(&mut move_list);
        move_list
    }

    /// The legal moves of the side to move, in the order of generation, or
    /// `None` if the list of the pseudo-legal moves, or after one of them the
    /// list of the replies, has no room in a move list.
    pub fn try_legal_moves(&self) -> (r: Option<MoveList>)
        requires
            self.current.wf(),
        ensures
            r is Some == (self.current@.layout.fits() && self.current@.layout.replies_fit()),
            r is Some ==> r->0@ == self.current@.layout.legal_moves(),
    {
        let mut move_list = MoveList::new_empty();
        if self.try_fill_legal(&mut move_list) {
            Some(move_list)
        } else {
            None
        }
    }
}

} // verus!
