//! The rules of the game, stated over a plain model of a position: which
//! moves a position offers, which moves it admits, and what a move makes of it.

use vstd::prelude::*;
use crate::attack::{forward, pawn_home_row, targets};
use crate::kastling::{Castling, CastlingSide, Imposter};
use crate::moves::{BitMove, MoveType};
use crate::piece::{Piece, PieceIndex};
use crate::position::Color;
use crate::square::{col_of, row_of};

verus! {

impl CastlingSide {
    /// The corner on which the rook of this right starts.
    pub open spec fn corner(self) -> int {
        match self {
            CastlingSide::WK => 7,
            CastlingSide::WQ => 0,
            CastlingSide::BK => 63,
            CastlingSide::BQ => 56,
        }
    }

    /// The square on which the king ends when it castles by this right.
    pub open spec fn king_goal(self) -> int {
        match self {
            CastlingSide::WK => 6,
            CastlingSide::WQ => 2,
            CastlingSide::BK => 62,
            CastlingSide::BQ => 58,
        }
    }

    /// The square on which the rook ends when the king castles by this right.
    pub open spec fn rook_goal(self) -> int {
        match self {
            CastlingSide::WK => 5,
            CastlingSide::WQ => 3,
            CastlingSide::BK => 61,
            CastlingSide::BQ => 59,
        }
    }

    /// Whether `s` lies strictly between the starting squares of king and rook.
    pub open spec fn between(self, s: int) -> bool {
        match self {
            CastlingSide::WK => s == 5 || s == 6,
            CastlingSide::WQ => s == 1 || s == 2 || s == 3,
            CastlingSide::BK => s == 61 || s == 62,
            CastlingSide::BQ => s == 57 || s == 58 || s == 59,
        }
    }
}

impl Castling {
    /// The rights without `castling_side`.
    pub open spec fn without(self, castling_side: CastlingSide) -> Castling {
        Castling { rights: self.rights & !castling_side.mask() }
    }

    /// The rights without `castling_side` if `revoked`, else unchanged.
    pub open spec fn without_if(self, castling_side: CastlingSide, revoked: bool) -> Castling {
        if revoked {
            self.without(castling_side)
        } else {
            self
        }
    }
}

/// What move generation reads of a position: the placement, the side to
/// move, the castling rights and the en-passant target.
pub struct Layout {
    /// For each of the 64 squares, the piece on it.
    pub placement: Seq<Option<PieceIndex>>,
    pub side: Color,
    pub castling: Castling,
    /// Index of the square that a pawn has just passed over, if any.
    pub en_passant: Option<int>,
}

/// A position: a layout and the two move counters.
pub struct Game {
    pub layout: Layout,
    /// Plies since the last capture or pawn move.
    pub halfmove: int,
    /// Number of the move, which goes up after each black ply.
    pub fullmove: int,
}

/// The four promotions of a pawn that goes from `from` to `to`, in the order
/// bishop, knight, rook, queen.
pub open spec fn promotions(from: int, to: int, capture: bool) -> Seq<BitMove> {
    seq![
        BitMove::pack(from, to, capture, 7),
        BitMove::pack(from, to, capture, 6),
        BitMove::pack(from, to, capture, 5),
        BitMove::pack(from, to, capture, 4),
    ]
}

impl Layout {
    /// The squares on which a piece stands.
    pub open spec fn occupied(self) -> Set<int> {
        Set::new(|s: int| 0 <= s < 64 && self.placement[s] is Some)
    }

    /// Whether a piece of the side to move stands on `s`.
    pub open spec fn own(self, s: int) -> bool {
        0 <= s < 64 && self.placement[s] is Some && self.placement[s]->0.side() == self.side
    }

    /// Whether a piece of the other side stands on `s`.
    pub open spec fn enemy(self, s: int) -> bool {
        0 <= s < 64 && self.placement[s] is Some && self.placement[s]->0.side() != self.side
    }

    /// Whether the piece on `from` threatens `to` and no piece of its own side
    /// stands there.
    pub open spec fn reachable(self, from: int, to: int) -> bool {
        targets(self.placement[from]->0.kind(), from, self.occupied(), self.side).contains(to)
            && !self.own(to)
    }

    /// The moves of the pawn on `from` to the reachable square `to`.
    ///
    /// A diagonal step is a move only onto a piece of the other side or onto
    /// the en-passant target. A step onto the first or last rank is the four
    /// promotions and nothing else. A two-square advance from the starting
    /// rank and a capture en passant share the tag of their kind, and differ
    /// in the capture flag.
    pub open spec fn pawn_moves_to(self, from: int, to: int) -> Seq<BitMove> {
        let diagonal = col_of(from) != col_of(to);
        let en_passant = diagonal && self.en_passant == Some(to);
        let capture = en_passant || self.enemy(to);
        let double = !diagonal && row_of(from) == pawn_home_row(self.side) && row_of(to)
            == pawn_home_row(self.side) + 2 * forward(self.side);
        if diagonal && !capture {
            Seq::empty()
        } else if row_of(to) == 0 || row_of(to) == 7 {
            promotions(from, to, capture)
        } else {
            seq![BitMove::pack(from, to, capture, if en_passant || double { 1 } else { 0 })]
        }
    }

    /// The moves of the piece on `from` to the square `to`: none if `to` is
    /// not reachable.
    pub open spec fn moves_to(self, from: int, to: int) -> Seq<BitMove> {
        if !self.reachable(from, to) {
            Seq::empty()
        } else if self.placement[from]->0.kind() == Piece::Pawn {
            self.pawn_moves_to(from, to)
        } else {
            seq![BitMove::pack(from, to, self.enemy(to), 0)]
        }
    }

    /// The moves of the piece on `from` to the squares below `bound`, by
    /// ascending square.
    pub open spec fn moves_below(self, from: int, bound: int) -> Seq<BitMove>
        decreases bound,
    {
        if bound <= 0 {
            Seq::empty()
        } else {
            self.moves_below(from, bound - 1) + self.moves_to(from, bound - 1)
        }
    }

    /// Whether the right is held and the squares between king and rook are free.
    pub open spec fn castle_open(self, castling_side: CastlingSide) -> bool {
        self.castling.holds(castling_side) && forall|s: int|
            castling_side.between(s) ==> self.placement[s] is None
    }

    /// The castling move by the given right for a king on `from`, if that
    /// right is open.
    pub open spec fn castle_move(self, from: int, castling_side: CastlingSide) -> Seq<BitMove> {
        if self.castle_open(castling_side) {
            seq![
                BitMove::pack(
                    from,
                    castling_side.king_goal(),
                    false,
                    MoveType::Castling(castling_side.wing()).tag(),
                ),
            ]
        } else {
            Seq::empty()
        }
    }

    /// The castling moves of the piece on `from`: for a king, king side
    /// before queen side; for another piece, none.
    pub open spec fn castle_moves(self, from: int) -> Seq<BitMove> {
        if self.placement[from]->0.kind() == Piece::King {
            self.castle_move(from, CastlingSide::of(self.side, Imposter::King)) + self.castle_move(
                from,
                CastlingSide::of(self.side, Imposter::Queen),
            )
        } else {
            Seq::empty()
        }
    }

    /// The moves of the piece on `from`: castling first, then by ascending
    /// destination square.
    pub open spec fn moves_from(self, from: int) -> Seq<BitMove> {
        self.castle_moves(from) + self.moves_below(from, 64)
    }

    /// The moves of the pieces of the side to move that stand on squares
    /// below `bound`, by ascending square.
    pub open spec fn moves_upto(self, bound: int) -> Seq<BitMove>
        decreases bound,
    {
        if bound <= 0 {
            Seq::empty()
        } else if self.own(bound - 1) {
            self.moves_upto(bound - 1) + self.moves_from(bound - 1)
        } else {
            self.moves_upto(bound - 1)
        }
    }

    /// The pseudo-legal moves of the side to move, in the order in which they
    /// are generated: by ascending origin square, and for each origin castling
    /// first, then by ascending destination square. Whether a move leaves the
    /// mover's king in check plays no part.
    pub open spec fn moves(self) -> Seq<BitMove> {
        self.moves_upto(64)
    }

    /// Whether one of the moves of the side to move ends on the king of `color`.
    pub open spec fn king_capturable(self, color: Color) -> bool {
        exists|i: int|
            0 <= i < self.moves().len() && self.placement[(#[trigger] self.moves()[i]).dest()]
                == Some(PieceIndex::of(Piece::King, color))
    }

    /// Whether the list of the pseudo-legal moves has room in a move list.
    pub open spec fn fits(self) -> bool {
        self.moves().len() <= 256
    }

    /// Whether, after each pseudo-legal move, the list of the replies has
    /// room in a move list.
    pub open spec fn replies_fit(self) -> bool {
        forall|i: int| 0 <= i < self.moves().len() ==> self.after(#[trigger] self.moves()[i]).fits()
    }

    /// An en-passant target is a free square on the sixth rank of the side to
    /// move, with a pawn of the other side just behind it.
    pub open spec fn en_passant_consistent(self) -> bool {
        self.en_passant matches Some(t) ==> {
            &&& 0 <= t < 64
            &&& row_of(t) == pawn_home_row(self.side.opponent()) - forward(self.side)
            &&& self.placement[t] is None
            &&& self.placement[t - 8 * forward(self.side)] == Some(
                PieceIndex::of(Piece::Pawn, self.side.opponent()),
            )
        }
    }

    /// While a castling right is held, the rook of that right stands on its corner.
    pub open spec fn castling_consistent(self) -> bool {
        forall|r: CastlingSide| #[trigger]
            self.castling.holds(r) ==> self.placement[r.corner()] == Some(
                PieceIndex::of(Piece::Rook, r.side()),
            )
    }

    /// The en-passant target and the castling rights fit the placement.
    pub open spec fn consistent(self) -> bool {
        &&& self.placement.len() == 64
        &&& self.en_passant_consistent()
        &&& self.castling_consistent()
    }
}

impl Layout {
    /// The piece that makes the move.
    pub open spec fn mover(self, mov: BitMove) -> PieceIndex {
        self.placement[mov.origin()]->0
    }

    /// The right by which the move castles, if it is a castling move.
    pub open spec fn castles(self, mov: BitMove) -> Option<CastlingSide> {
        match MoveType::of_tag(mov.tag()) {
            MoveType::Castling(wing) => Some(CastlingSide::of(self.side, wing)),
            _ => None,
        }
    }

    /// The square from which a capturing move takes a piece: for a capture en
    /// passant the square one rank behind the destination, as the mover sees
    /// it; else the destination.
    pub open spec fn capture_square(self, mov: BitMove) -> int {
        if mov.tag() == 1 {
            mov.dest() - 8 * forward(self.side)
        } else {
            mov.dest()
        }
    }

    /// The piece that stands on the destination after the move: the piece
    /// promoted to, or else the mover.
    pub open spec fn placed(self, mov: BitMove) -> PieceIndex {
        match MoveType::of_tag(mov.tag()) {
            MoveType::Promotion(kind) => PieceIndex::of(kind, self.side),
            _ => self.mover(mov),
        }
    }

    /// What the position must hold for the move to be applied: a piece of the
    /// side to move on the origin; on the destination a piece of the other
    /// side if the move captures, nothing if it does not or captures en
    /// passant; for a capture en passant a pawn of the other side one rank
    /// behind the destination; for a two-square advance a pawn on its starting
    /// rank with both squares ahead free; for castling the rook on its corner
    /// and the rook's destination free.
    pub open spec fn admits(self, mov: BitMove) -> bool {
        let from = mov.origin();
        let to = mov.dest();
        let up = forward(self.side);
        &&& self.placement.len() == 64
        &&& self.own(from)
        &&& if mov.captures() && mov.tag() == 1 {
            &&& self.mover(mov).kind() == Piece::Pawn
            &&& self.placement[to] is None
            &&& 0 <= to - 8 * up < 64
            &&& self.placement[to - 8 * up] == Some(
                PieceIndex::of(Piece::Pawn, self.side.opponent()),
            )
        } else if mov.captures() {
            self.enemy(to)
        } else {
            self.placement[to] is None
        }
        &&& mov.tag() == 1 && !mov.captures() ==> {
            &&& self.mover(mov).kind() == Piece::Pawn
            &&& row_of(from) == pawn_home_row(self.side)
            &&& to == from + 16 * up
            &&& self.placement[from + 8 * up] is None
        }
        &&& self.castles(mov) matches Some(r) ==> {
            &&& !mov.captures()
            &&& self.placement[r.corner()] == Some(PieceIndex::of(Piece::Rook, self.side))
            &&& self.placement[r.rook_goal()] is None
            &&& to != r.rook_goal()
            &&& to != r.corner()
        }
    }

    /// The placement after the move: the origin is emptied, the captured piece
    /// is taken off, the mover or the piece it is promoted to is put on the
    /// destination, and in castling the rook goes from its corner to its
    /// destination.
    pub open spec fn placement_after(self, mov: BitMove) -> Seq<Option<PieceIndex>> {
        let lifted = self.placement.update(mov.origin(), None);
        let taken = if mov.captures() {
            lifted.update(self.capture_square(mov), None)
        } else {
            lifted
        };
        let landed = taken.update(mov.dest(), Some(self.placed(mov)));
        match self.castles(mov) {
            Some(r) => landed.update(r.corner(), None).update(
                r.rook_goal(),
                Some(PieceIndex::of(Piece::Rook, self.side)),
            ),
            None => landed,
        }
    }

    /// Whether the move revokes the right `r`: it castles by it, it is a move
    /// of the king of that colour, it takes the rook of that right from its
    /// corner, or it captures that rook on its corner.
    pub open spec fn revokes(self, mov: BitMove, r: CastlingSide) -> bool {
        ||| self.castles(mov) == Some(r)
        ||| self.mover(mov).kind() == Piece::King && r.side() == self.side
        ||| self.mover(mov) == PieceIndex::of(Piece::Rook, r.side()) && mov.origin() == r.corner()
        ||| mov.captures() && mov.tag() != 1 && self.placement[mov.dest()] == Some(
            PieceIndex::of(Piece::Rook, r.side()),
        ) && mov.dest() == r.corner()
    }

    /// The castling rights after the move.
    pub open spec fn castling_after(self, mov: BitMove) -> Castling {
        self.castling.without_if(CastlingSide::WK, self.revokes(mov, CastlingSide::WK)).without_if(
            CastlingSide::WQ,
            self.revokes(mov, CastlingSide::WQ),
        ).without_if(CastlingSide::BK, self.revokes(mov, CastlingSide::BK)).without_if(
            CastlingSide::BQ,
            self.revokes(mov, CastlingSide::BQ),
        )
    }

    /// The en-passant target after the move: the square passed over by a pawn
    /// that advances two squares, and none after any other move.
    pub open spec fn en_passant_after(self, mov: BitMove) -> Option<int> {
        if self.mover(mov).kind() == Piece::Pawn && mov.tag() == 1 && !mov.captures() {
            Some(mov.origin() + 8 * forward(self.side))
        } else {
            None
        }
    }

    /// The layout after the move; the other side is to move.
    pub open spec fn after(self, mov: BitMove) -> Layout {
        Layout {
            placement: self.placement_after(mov),
            side: self.side.opponent(),
            castling: self.castling_after(mov),
            en_passant: self.en_passant_after(mov),
        }
    }

    /// Whether the move leaves the mover's king where a reply of the other
    /// side can capture it.
    pub open spec fn leaves_king_in_check(self, mov: BitMove) -> bool {
        self.after(mov).king_capturable(self.side)
    }

    /// The legal moves: the pseudo-legal moves, in their order, without those
    /// that leave the mover's king in check.
    pub open spec fn legal_moves(self) -> Seq<BitMove> {
        self.moves().filter(|mov: BitMove| !self.leaves_king_in_check(mov))
    }
}

impl Game {
    /// The position after the move. The halfmove clock starts again at 0 with
    /// a capture or a pawn move and else goes up by one; the move number goes
    /// up after a move of Black.
    pub open spec fn after(self, mov: BitMove) -> Game {
        Game {
            layout: self.layout.after(mov),
            halfmove: if mov.captures() || self.layout.mover(mov).kind() == Piece::Pawn {
                0
            } else {
                self.halfmove + 1
            },
            fullmove: if self.layout.side == Color::Black {
                self.fullmove + 1
            } else {
                self.fullmove
            },
        }
    }
}

impl Layout {
    /// Squares that are not reachable add no moves.
    pub proof fn lemma_moves_below_skip(self, from: int, a: int, b: int)
        requires
            a <= b,
            forall|t: int| a <= t < b ==> !self.reachable(from, t),
        ensures
            self.moves_below(from, b) == self.moves_below(from, a),
        decreases b - a,
    {
        if a < b {
            self.lemma_moves_below_skip(from, a, b - 1);
            assert(self.moves_to(from, b - 1) =~= Seq::<BitMove>::empty());
            assert(self.moves_below(from, b) =~= self.moves_below(from, b - 1));
        }
    }

    /// Squares without a piece of the side to move add no moves.
    pub proof fn lemma_moves_upto_skip(self, a: int, b: int)
        requires
            a <= b,
            forall|s: int| a <= s < b ==> !self.own(s),
        ensures
            self.moves_upto(b) == self.moves_upto(a),
        decreases b - a,
    {
        if a < b {
            self.lemma_moves_upto_skip(a, b - 1);
        }
    }

    /// The moves to the squares below a bound are a part of those below a
    /// higher bound.
    pub proof fn lemma_moves_below_len(self, from: int, a: int, b: int)
        requires
            a <= b,
        ensures
            self.moves_below(from, a).len() <= self.moves_below(from, b).len(),
        decreases b - a,
    {
        if a < b {
            self.lemma_moves_below_len(from, a, b - 1);
        }
    }

    /// The moves from the squares below a bound are a part of those below a
    /// higher bound.
    pub proof fn lemma_moves_upto_len(self, a: int, b: int)
        requires
            a <= b,
        ensures
            self.moves_upto(a).len() <= self.moves_upto(b).len(),
        decreases b - a,
    {
        if a < b {
            self.lemma_moves_upto_len(a, b - 1);
        }
    }

    /// What has been generated when the moves of `from` to `to` are added is
    /// never more than all the moves.
    pub proof fn lemma_moves_room(self, from: int, to: int)
        requires
            0 <= from < 64,
            0 <= to < 64,
            self.own(from),
        ensures
            self.moves_upto(from).len() + self.castle_moves(from).len() + self.moves_below(
                from,
                to,
            ).len() + self.moves_to(from, to).len() <= self.moves().len(),
    {
        self.lemma_moves_below_len(from, to + 1, 64);
        self.lemma_moves_upto_len(from + 1, 64);
    }
}

impl Layout {
    /// A move that a consistent position admits leaves a consistent position.
    #[verifier::rlimit(40)]
    pub proof fn lemma_after_consistent(self, mov: BitMove)
        requires
            self.consistent(),
            self.admits(mov),
        ensures
            self.after(mov).consistent(),
    {
        mov.lemma_unpack();
        let next = self.after(mov);
        assert(next.placement.len() == 64);
        assert(next.en_passant_consistent());
        assert forall|r: CastlingSide| #[trigger] next.castling.holds(r) implies next.placement[r.corner()]
            == Some(PieceIndex::of(Piece::Rook, r.side())) by {
            self.lemma_rights_after(mov);
            assert(self.castling.holds(r));
        }
    }

    /// A right is held after a move exactly if it was held before and the
    /// move does not revoke it: no move gives a right back.
    pub proof fn lemma_rights_after(self, mov: BitMove)
        ensures
            forall|r: CastlingSide|
                self.castling_after(mov).holds(r) == (self.castling.holds(r) && !self.revokes(
                    mov,
                    r,
                )),
    {
        let c0 = self.castling;
        let c1 = c0.without_if(CastlingSide::WK, self.revokes(mov, CastlingSide::WK));
        let c2 = c1.without_if(CastlingSide::WQ, self.revokes(mov, CastlingSide::WQ));
        let c3 = c2.without_if(CastlingSide::BK, self.revokes(mov, CastlingSide::BK));
        let c4 = c3.without_if(CastlingSide::BQ, self.revokes(mov, CastlingSide::BQ));
        assert forall|r: CastlingSide|
            self.castling_after(mov).holds(r) == (self.castling.holds(r) && !self.revokes(
                mov,
                r,
            )) by {
            c0.lemma_without(CastlingSide::WK, r);
            c1.lemma_without(CastlingSide::WQ, r);
            c2.lemma_without(CastlingSide::BK, r);
            c3.lemma_without(CastlingSide::BQ, r);
            assert(self.castling_after(mov) == c4);
        }
    }
}

impl Layout {
    /// Whether the position admits every move of the sequence.
    pub open spec fn admits_all(self, moves: Seq<BitMove>) -> bool {
        forall|i: int| 0 <= i < moves.len() ==> self.admits(#[trigger] moves[i])
    }

    /// A consistent position admits the moves of a piece to a square.
    #[verifier::rlimit(40)]
    proof fn lemma_moves_to_admitted(self, from: int, to: int)
        requires
            self.consistent(),
            self.own(from),
            0 <= to < 64,
        ensures
            self.admits_all(self.moves_to(from, to)),
    {
        broadcast use BitMove::lemma_pack;

        let moves = self.moves_to(from, to);
        assert forall|i: int| 0 <= i < moves.len() implies self.admits(#[trigger] moves[i]) by {
            let mov = moves[i];
            assert(self.reachable(from, to));
            assert(mov.origin() == from && mov.dest() == to);
            assert(MoveType::of_tag(mov.tag()) !is Castling);
        }
    }

    /// A consistent position admits the castling moves that it offers.
    proof fn lemma_castle_moves_admitted(self, from: int)
        requires
            self.consistent(),
            self.own(from),
        ensures
            self.admits_all(self.castle_moves(from)),
    {
        broadcast use BitMove::lemma_pack;

        let moves = self.castle_moves(from);
        assert forall|i: int| 0 <= i < moves.len() implies self.admits(#[trigger] moves[i]) by {
            let mov = moves[i];
            let king_side = CastlingSide::of(self.side, Imposter::King);
            let queen_side = CastlingSide::of(self.side, Imposter::Queen);
            let r = if self.castle_open(king_side) && i == 0 {
                king_side
            } else {
                queen_side
            };
            assert(self.castle_open(r));
            assert(mov == BitMove::pack(from, r.king_goal(), false, MoveType::Castling(r.wing()).tag()));
            assert(self.castles(mov) == Some(r));
            assert(self.castling.holds(r));
            assert(r.between(r.king_goal()) && r.between(r.rook_goal()));
        }
    }

    proof fn lemma_moves_below_admitted(self, from: int, bound: int)
        requires
            self.consistent(),
            self.own(from),
            bound <= 64,
        ensures
            self.admits_all(self.moves_below(from, bound)),
        decreases bound,
    {
        if bound > 0 {
            self.lemma_moves_below_admitted(from, bound - 1);
            self.lemma_moves_to_admitted(from, bound - 1);
        }
    }

    proof fn lemma_moves_upto_admitted(self, bound: int)
        requires
            self.consistent(),
            bound <= 64,
        ensures
            self.admits_all(self.moves_upto(bound)),
        decreases bound,
    {
        if bound > 0 {
            self.lemma_moves_upto_admitted(bound - 1);
            if self.own(bound - 1) {
                self.lemma_castle_moves_admitted(bound - 1);
                self.lemma_moves_below_admitted(bound - 1, 64);
            }
        }
    }

    /// A consistent position admits every pseudo-legal move that it offers.
    pub proof fn lemma_moves_admitted(self)
        requires
            self.consistent(),
        ensures
            self.admits_all(self.moves()),
    {
        self.lemma_moves_upto_admitted(64);
    }
}

impl Layout {
    /// The legal moves are pseudo-legal moves that do not leave the mover's
    /// king in check, and every such pseudo-legal move is a legal move.
    pub proof fn lemma_legal_moves(self)
        ensures
            forall|i: int|
                0 <= i < self.legal_moves().len() ==> self.moves().contains(
                    #[trigger] self.legal_moves()[i],
                ) && !self.leaves_king_in_check(self.legal_moves()[i]),
            forall|i: int|
                0 <= i < self.moves().len() && !self.leaves_king_in_check(#[trigger] self.moves()[i])
                    ==> self.legal_moves().contains(self.moves()[i]),
            self.legal_moves().len() <= self.moves().len(),
    {
        let keep = |mov: BitMove| !self.leaves_king_in_check(mov);
        let legal = self.moves().filter(keep);
        assert forall|i: int| 0 <= i < legal.len() implies self.moves().contains(#[trigger] legal[i])
            && keep(legal[i]) by {
            self.moves().lemma_filter_pred(keep, i);
            assert(legal.contains(legal[i]));
            self.moves().lemma_filter_contains_rev(keep, legal[i]);
        }
        assert forall|i: int| 0 <= i < self.moves().len() && keep(#[trigger] self.moves()[i]) implies legal.contains(
            self.moves()[i],
        ) by {
            self.moves().lemma_filter_contains(keep, i);
        }
        self.moves().lemma_filter_len(keep);
    }
}

impl Game {
    /// After a move there is an en-passant target exactly if the move was a
    /// two-square advance of a pawn, and the target is then the square passed
    /// over. Whatever the target was before, and whether or not the move
    /// captured on it, a move of any other kind leaves none.
    pub proof fn lemma_en_passant_after(self, mov: BitMove)
        ensures
            self.after(mov).layout.en_passant is Some <==> self.layout.mover(mov).kind()
                == Piece::Pawn && mov.tag() == 1 && !mov.captures(),
            self.after(mov).layout.en_passant is Some ==> self.after(mov).layout.en_passant
                == Some(mov.origin() + 8 * forward(self.layout.side)),
    {
    }

    /// After a capture or a pawn move the halfmove clock is 0; after any other
    /// move it is one more than before. The move number goes up by one after a
    /// move of Black and stays after a move of White.
    pub proof fn lemma_counters_after(self, mov: BitMove)
        ensures
            mov.captures() || self.layout.mover(mov).kind() == Piece::Pawn ==> self.after(
                mov,
            ).halfmove == 0,
            !mov.captures() && self.layout.mover(mov).kind() != Piece::Pawn ==> self.after(
                mov,
            ).halfmove == self.halfmove + 1,
            self.after(mov).fullmove == self.fullmove + if self.layout.side == Color::Black {
                1int
            } else {
                0int
            },
            self.after(mov).layout.side == self.layout.side.opponent(),
    {
    }
}

impl Castling {
    /// Revoking a right leaves the others as they are.
    pub proof fn lemma_without(self, castling_side: CastlingSide, r: CastlingSide)
        ensures
            self.without(castling_side).holds(r) == (r != castling_side && self.holds(r)),
    {
        let x: u8 = self.rights;
        let m: u8 = castling_side.spec_mask();
        let n: u8 = r.spec_mask();
        assert(((x & !m) & n == n) == (m != n && x & n == n)) by (bit_vector)
            requires
                m == 1 || m == 2 || m == 4 || m == 8,
                n == 1 || n == 2 || n == 4 || n == 8,
        ;
        assert(self.without(castling_side).rights == x & !m);
    }
}

} // verus!
