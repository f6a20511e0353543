//! Castling rights.

use vstd::prelude::*;
use crate::position::Color;

verus! {

/// One of the four castling rights: a colour and a wing.
#[derive(Clone, Copy, Debug, PartialEq, Eq, Structural)]
pub enum CastlingSide {
    /// White, king side.
    WK,
    /// White, queen side.
    WQ,
    /// Black, king side.
    BK,
    /// Black, queen side.
    BQ,
}

impl CastlingSide {
    /// The bit that stands for this right in [`Castling::rights`].
    pub open spec fn spec_mask(self) -> u8 {
        match self {
            CastlingSide::WK => 1,
            CastlingSide::WQ => 2,
            CastlingSide::BK => 4,
            CastlingSide::BQ => 8,
        }
    }

    /// The colour that the right belongs to.
    pub open spec fn side(self) -> Color {
        match self {
            CastlingSide::WK | CastlingSide::WQ => Color::White,
            CastlingSide::BK | CastlingSide::BQ => Color::Black,
        }
    }

    /// The wing of the right.
    pub open spec fn wing(self) -> Imposter {
        match self {
            CastlingSide::BK | CastlingSide::WK => Imposter::King,
            CastlingSide::BQ | CastlingSide::WQ => Imposter::Queen,
        }
    }

    /// The right of the given colour and wing.
    pub open spec fn of(color: Color, wing: Imposter) -> CastlingSide {
        match (color, wing) {
            (Color::White, Imposter::King) => CastlingSide::WK,
            (Color::White, Imposter::Queen) => CastlingSide::WQ,
            (Color::Black, Imposter::King) => CastlingSide::BK,
            (Color::Black, Imposter::Queen) => CastlingSide::BQ,
        }
    }

    /// The bit that stands for this right in [`Castling::rights`].
    #[verifier::when_used_as_spec(spec_mask)]
    pub fn mask(self) -> (m: u8)
        ensures
            m == self.spec_mask(),
    {
        match self {
            CastlingSide::WK => 1,
            CastlingSide::WQ => 2,
            CastlingSide::BK => 4,
            CastlingSide::BQ => 8,
        }
    }
}

/// A wing of the board, named by the piece that starts on it.
#[derive(Clone, Copy, Debug, PartialEq, Eq, Structural)]
pub enum Imposter {
    King,
    Queen,
}

impl Imposter {
    #[inline]
    pub fn from_castling_side(castling_side: CastlingSide) -> (w: Self)
        ensures
            w == castling_side.wing(),
    {
        match castling_side {
            CastlingSide::BK | CastlingSide::WK => Self::King,
            CastlingSide::BQ | CastlingSide::WQ => Self::Queen,
        }
    }
}

/// The castling rights still held, one bit per right.
#[derive(Clone, Copy, Debug, PartialEq, Eq, Structural)]
pub struct Castling {
    pub rights: u8,
}

impl Castling {
    /// Whether the right is held.
    pub open spec fn holds(self, castling_side: CastlingSide) -> bool {
        self.rights & castling_side.mask() == castling_side.mask()
    }

    /// No right is held.
    pub fn new() -> (c: Self)
        ensures
            c.rights == 0,
            forall|s: CastlingSide| !c.holds(s),
    {
        assert forall|s: CastlingSide| 0u8 & #[trigger] s.mask() != s.mask() by {
            let m: u8 = s.mask();
            assert(0u8 & m != m) by (bit_vector)
                requires
                    m != 0,
            ;
        }
        Self { rights: 0 }
    }

    /// Grants the right; the others stay as they are.
    pub fn add_castle_right(&mut self, castling_side: CastlingSide)
        ensures
            final(self).rights == old(self).rights | castling_side.mask(),
            forall|s: CastlingSide|
                final(self).holds(s) == (s == castling_side || old(self).holds(s)),
    {
        let m: u8 = castling_side.mask();
        assert forall|s: CastlingSide|
            ((self.rights | m) & #[trigger] s.mask() == s.mask()) == (s == castling_side
                || self.rights & s.mask() == s.mask()) by {
            let r: u8 = self.rights;
            let n: u8 = s.mask();
            assert(((r | m) & n == n) == (m == n || r & n == n)) by (bit_vector)
                requires
                    m == 1 || m == 2 || m == 4 || m == 8,
                    n == 1 || n == 2 || n == 4 || n == 8,
            ;
        }
        self.rights = self.rights | m;
    }

    /// Revokes the right; the others stay as they are.
    pub fn remove_castling_right(&mut self, castling_side: CastlingSide)
        ensures
            final(self).rights == old(self).rights & !castling_side.mask(),
            forall|s: CastlingSide|
                final(self).holds(s) == (s != castling_side && old(self).holds(s)),
    {
        let m: u8 = castling_side.mask();
        assert forall|s: CastlingSide|
            ((self.rights & !m) & #[trigger] s.mask() == s.mask()) == (s != castling_side
                && self.rights & s.mask() == s.mask()) by {
            let r: u8 = self.rights;
            let n: u8 = s.mask();
            assert(((r & !m) & n == n) == (m != n && r & n == n)) by (bit_vector)
                requires
                    m == 1 || m == 2 || m == 4 || m == 8,
                    n == 1 || n == 2 || n == 4 || n == 8,
            ;
        }
        self.rights = self.rights & !m;
    }

    pub fn can_castle(&self, castling_side: CastlingSide) -> (r: bool)
        ensures
            r == self.holds(castling_side),
    {
        (self.rights & castling_side.mask()) == castling_side.mask()
    }
}

} // verus!
