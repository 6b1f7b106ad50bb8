//! Named ASCII byte values, usable both in executable code and in
//! specifications.

use vstd::prelude::*;

verus! {

pub const SP: u8 = 32;
pub const HT: u8 = 9;
pub const CR: u8 = 13;
pub const NL: u8 = 10;
pub const DQUOTE: u8 = 34;
pub const BACKSLASH: u8 = 92;
pub const SEMI: u8 = 59;
pub const LPAREN: u8 = 40;
pub const RPAREN: u8 = 41;
pub const DOLLAR: u8 = 36;
pub const ATSIGN: u8 = 64;
pub const DOT: u8 = 46;
pub const COLON: u8 = 58;
pub const HYPHEN: u8 = 45;
pub const UNDERSCORE: u8 = 95;
pub const D0: u8 = 48;
pub const D9: u8 = 57;

pub const UC_A: u8 = 65;
pub const UC_B: u8 = 66;
pub const UC_C: u8 = 67;
pub const UC_D: u8 = 68;
pub const UC_E: u8 = 69;
pub const UC_F: u8 = 70;
pub const UC_G: u8 = 71;
pub const UC_H: u8 = 72;
pub const UC_I: u8 = 73;
pub const UC_J: u8 = 74;
pub const UC_K: u8 = 75;
pub const UC_L: u8 = 76;
pub const UC_M: u8 = 77;
pub const UC_N: u8 = 78;
pub const UC_O: u8 = 79;
pub const UC_P: u8 = 80;
pub const UC_Q: u8 = 81;
pub const UC_R: u8 = 82;
pub const UC_S: u8 = 83;
pub const UC_T: u8 = 84;
pub const UC_U: u8 = 85;
pub const UC_V: u8 = 86;
pub const UC_W: u8 = 87;
pub const UC_X: u8 = 88;
pub const UC_Y: u8 = 89;
pub const UC_Z: u8 = 90;

pub const LC_A: u8 = 97;
pub const LC_B: u8 = 98;
pub const LC_C: u8 = 99;
pub const LC_D: u8 = 100;
pub const LC_E: u8 = 101;
pub const LC_F: u8 = 102;
pub const LC_G: u8 = 103;
pub const LC_H: u8 = 104;
pub const LC_I: u8 = 105;
pub const LC_J: u8 = 106;
pub const LC_K: u8 = 107;
pub const LC_L: u8 = 108;
pub const LC_M: u8 = 109;
pub const LC_N: u8 = 110;
pub const LC_O: u8 = 111;
pub const LC_P: u8 = 112;
pub const LC_Q: u8 = 113;
pub const LC_R: u8 = 114;
pub const LC_S: u8 = 115;
pub const LC_T: u8 = 116;
pub const LC_U: u8 = 117;
pub const LC_V: u8 = 118;
pub const LC_W: u8 = 119;
pub const LC_X: u8 = 120;
pub const LC_Y: u8 = 121;
pub const LC_Z: u8 = 122;

} // verus!
