//! Masks of ranks, files and other groups of squares, as raw 64-bit
//! patterns. [`crate::board::Bitboard::new_const`] makes a square set of one.

use vstd::prelude::*;

verus! {

pub const RANK_1: u64 = 0x0000_0000_0000_00FF;

pub const RANK_2: u64 = 0x0000_0000_0000_FF00;

pub const RANK_3: u64 = 0x0000_0000_00FF_0000;

pub const RANK_4: u64 = 0x0000_0000_FF00_0000;

pub const RANK_5: u64 = 0x0000_00FF_0000_0000;

pub const RANK_6: u64 = 0x0000_FF00_0000_0000;

pub const RANK_7: u64 = 0x00FF_0000_0000_0000;

pub const RANK_8: u64 = 0xFF00_0000_0000_0000;

pub const FILE_A: u64 = 0x0101_0101_0101_0101;

pub const FILE_B: u64 = 0x0202_0202_0202_0202;

pub const FILE_C: u64 = 0x0404_0404_0404_0404;

pub const FILE_D: u64 = 0x0808_0808_0808_0808;

pub const FILE_E: u64 = 0x1010_1010_1010_1010;

pub const FILE_F: u64 = 0x2020_2020_2020_2020;

pub const FILE_G: u64 = 0x4040_4040_4040_4040;

pub const FILE_H: u64 = 0x8080_8080_8080_8080;

// Diagonals that rise towards the h-file, named by their two ends.
pub const DIAG_A1_H8: u64 = 0x8040_2010_0804_0201;

pub const DIAG_B1_G7: u64 = 0x0080_4020_1008_0402;

pub const DIAG_C1_F6: u64 = 0x0000_8040_2010_0804;

pub const DIAG_D1_E5: u64 = 0x0000_0080_4020_1008;

pub const DIAG_E1_D4: u64 = 0x0000_0000_8040_2010;

pub const DIAG_F1_C3: u64 = 0x0000_0000_0080_4020;

pub const DIAG_G1_B2: u64 = 0x0000_0000_0000_8040;

pub const DIAG_A2_H7: u64 = 0x4020_1008_0402_0100;

pub const DIAG_A3_G6: u64 = 0x2010_0804_0201_0000;

pub const DIAG_A4_F5: u64 = 0x1008_0402_0100_0000;

pub const DIAG_A5_E4: u64 = 0x0804_0201_0000_0000;

pub const DIAG_A6_D3: u64 = 0x0402_0100_0000_0000;

pub const DIAG_A7_C2: u64 = 0x0201_0000_0000_0000;

// Diagonals that rise towards the a-file, named by their two ends.
pub const DIAG_H1_A8: u64 = 0x0102_0408_1020_4080;

pub const DIAG_G1_A7: u64 = 0x0001_0204_0810_2040;

pub const DIAG_F1_A6: u64 = 0x0000_0102_0408_1020;

pub const DIAG_E1_A5: u64 = 0x0000_0001_0204_0810;

pub const DIAG_D1_A4: u64 = 0x0000_0000_0102_0408;

pub const DIAG_C1_A3: u64 = 0x0000_0000_0001_0204;

pub const DIAG_B1_A2: u64 = 0x0000_0000_0000_0102;

pub const DIAG_H2_B8: u64 = 0x0204_0810_2040_8000;

pub const DIAG_H3_C8: u64 = 0x0408_1020_4080_0000;

pub const DIAG_H4_D8: u64 = 0x0810_2040_8000_0000;

pub const DIAG_H5_E8: u64 = 0x1020_4080_0000_0000;

pub const DIAG_H6_F8: u64 = 0x2040_8000_0000_0000;

pub const DIAG_H7_G8: u64 = 0x4080_0000_0000_0000;

/// The four corners of the board.
pub const CORNERS: u64 = 0x8100_0000_0000_0081;

/// The four squares in the middle of the board.
pub const CENTER_4: u64 = 0x0000_0018_1800_0000;

/// The squares on the edge of the board.
pub const BORDER: u64 = 0xFF81_8181_8181_81FF;

/// The two squares on which the kings start.
pub const KINGS: u64 = 0x1000_0000_0000_0010;

} // verus!
