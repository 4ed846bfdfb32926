//! The two tables of the classic stack blur. Dividing a window's weighted sum
//! by the sum of the weights, the square of `radius + 1`, is replaced by a
//! multiplication and a shift to the right, both looked up by the radius.

use crate::window::smaller;
use vstd::arithmetic::div_mod::{lemma_div_pos_is_pos, lemma_fundamental_div_mod_converse};
use vstd::arithmetic::power2::{lemma2_to64, lemma_pow2_pos, pow2};
use vstd::bits::lemma_u64_shr_is_div;
use vstd::prelude::*;

verus! {

/// The largest radius that the tables hold.
pub const TABLE_RADIUS: i32 = 255;

/// The multipliers, by radius.
pub const MUL_TABLE: [u16; 256] = [
    512, 512, 512, 456, 328, 456, 335, 512, 405, 328, 271, 456, 388, 335, 292, 512,
    454, 405, 364, 328, 298, 271, 496, 456, 420, 388, 360, 335, 312, 292, 273, 512,
    482, 454, 428, 405, 383, 364, 345, 328, 312, 298, 284, 271, 259, 496, 475, 456,
    437, 420, 404, 388, 374, 360, 347, 335, 323, 312, 302, 292, 282, 273, 265, 512,
    497, 482, 468, 454, 441, 428, 417, 405, 394, 383, 373, 364, 354, 345, 337, 328,
    320, 312, 305, 298, 291, 284, 278, 271, 265, 259, 507, 496, 485, 475, 465, 456,
    446, 437, 428, 420, 412, 404, 396, 388, 381, 374, 367, 360, 354, 347, 341, 335,
    329, 323, 318, 312, 307, 302, 297, 292, 287, 282, 278, 273, 269, 265, 261, 512,
    505, 497, 489, 482, 475, 468, 461, 454, 447, 441, 435, 428, 422, 417, 411, 405,
    399, 394, 389, 383, 378, 373, 368, 364, 359, 354, 350, 345, 341, 337, 332, 328,
    324, 320, 316, 312, 309, 305, 301, 298, 294, 291, 287, 284, 281, 278, 274, 271,
    268, 265, 262, 259, 257, 507, 501, 496, 491, 485, 480, 475, 470, 465, 460, 456,
    451, 446, 442, 437, 433, 428, 424, 420, 416, 412, 408, 404, 400, 396, 392, 388,
    385, 381, 377, 374, 370, 367, 363, 360, 357, 354, 350, 347, 344, 341, 338, 335,
    332, 329, 326, 323, 320, 318, 315, 312, 310, 307, 304, 302, 299, 297, 294, 292,
    289, 287, 285, 282, 280, 278, 275, 273, 271, 269, 267, 265, 263, 261, 259, 257,
];

/// The shifts, by radius.
pub const SHG_TABLE: [u8; 256] = [
    9, 11, 12, 13, 13, 14, 14, 15, 15, 15, 15, 16, 16, 16, 16, 17,
    17, 17, 17, 17, 17, 17, 18, 18, 18, 18, 18, 18, 18, 18, 18, 19,
    19, 19, 19, 19, 19, 19, 19, 19, 19, 19, 19, 19, 19, 20, 20, 20,
    20, 20, 20, 20, 20, 20, 20, 20, 20, 20, 20, 20, 20, 20, 20, 21,
    21, 21, 21, 21, 21, 21, 21, 21, 21, 21, 21, 21, 21, 21, 21, 21,
    21, 21, 21, 21, 21, 21, 21, 21, 21, 21, 22, 22, 22, 22, 22, 22,
    22, 22, 22, 22, 22, 22, 22, 22, 22, 22, 22, 22, 22, 22, 22, 22,
    22, 22, 22, 22, 22, 22, 22, 22, 22, 22, 22, 22, 22, 22, 22, 23,
    23, 23, 23, 23, 23, 23, 23, 23, 23, 23, 23, 23, 23, 23, 23, 23,
    23, 23, 23, 23, 23, 23, 23, 23, 23, 23, 23, 23, 23, 23, 23, 23,
    23, 23, 23, 23, 23, 23, 23, 23, 23, 23, 23, 23, 23, 23, 23, 23,
    23, 23, 23, 23, 23, 24, 24, 24, 24, 24, 24, 24, 24, 24, 24, 24,
    24, 24, 24, 24, 24, 24, 24, 24, 24, 24, 24, 24, 24, 24, 24, 24,
    24, 24, 24, 24, 24, 24, 24, 24, 24, 24, 24, 24, 24, 24, 24, 24,
    24, 24, 24, 24, 24, 24, 24, 24, 24, 24, 24, 24, 24, 24, 24, 24,
    24, 24, 24, 24, 24, 24, 24, 24, 24, 24, 24, 24, 24, 24, 24, 24,
];

/// The multiplier for `radius`.
pub open spec fn multiplier(radius: int) -> int {
    MUL_TABLE@[radius] as int
}

/// The shift for `radius`.
pub open spec fn shift(radius: int) -> nat {
    SHG_TABLE@[radius] as nat
}

/// What the tables make of a window's weighted sum: the sum times the
/// multiplier, divided by two to the power of the shift, and no more than 255.
pub open spec fn scaled(sum: int, radius: int) -> int {
    smaller(255, sum * multiplier(radius) / (pow2(shift(radius)) as int))
}

/// No shift is larger than 24.
pub proof fn lemma_shift_small(radius: int)
    requires
        0 <= radius <= 255,
    ensures
        shift(radius) <= 24,
{
}

/// Scales a window's weighted sum by the tables.
pub(crate) fn scale(sum: u64, radius: usize) -> (value: u8)
    requires
        radius <= 255,
        sum <= 0xffff_ffff,
    ensures
        value == scaled(sum as int, radius as int),
{
    let mul: u64 = MUL_TABLE[radius] as u64;
    let shg: u64 = SHG_TABLE[radius] as u64;
    proof {
        lemma_shift_small(radius as int);
        assert(sum * mul <= 0xffff_ffff * 0xffff) by (nonlinear_arith)
            requires
                sum <= 0xffff_ffff,
                mul <= 0xffff,
        ;
        lemma_u64_shr_is_div((sum * mul) as u64, shg);
    }
    let quotient: u64 = (sum * mul) >> shg;
    if quotient > 255 {
        255
    } else {
        quotient as u8
    }
}

/// Whether the tables, at `radius`, divide by the square of `radius + 1` so
/// nearly that a sum of equal samples is scaled back to the sample.
pub open spec fn divides_evenly(radius: int) -> bool {
    let mass = (radius + 1) * (radius + 1);
    let power = pow2(shift(radius)) as int;
    &&& power <= mass * multiplier(radius)
    &&& 256 * (mass * multiplier(radius) - power) <= power
}

/// At every radius but 2 and 3 the tables divide evenly.
pub proof fn lemma_tables_divide(radius: int)
    requires
        0 <= radius <= 255,
        radius != 2,
        radius != 3,
    ensures
        divides_evenly(radius),
{
    lemma2_to64();
    if 0 <= radius < 16 {
        if radius == 0 { assert(multiplier(0) == 512 && shift(0) == 9); assert(divides_evenly(0)); }
        if radius == 1 { assert(multiplier(1) == 512 && shift(1) == 11); assert(divides_evenly(1)); }
        if radius == 4 { assert(multiplier(4) == 328 && shift(4) == 13); assert(divides_evenly(4)); }
        if radius == 5 { assert(multiplier(5) == 456 && shift(5) == 14); assert(divides_evenly(5)); }
        if radius == 6 { assert(multiplier(6) == 335 && shift(6) == 14); assert(divides_evenly(6)); }
        if radius == 7 { assert(multiplier(7) == 512 && shift(7) == 15); assert(divides_evenly(7)); }
        if radius == 8 { assert(multiplier(8) == 405 && shift(8) == 15); assert(divides_evenly(8)); }
        if radius == 9 { assert(multiplier(9) == 328 && shift(9) == 15); assert(divides_evenly(9)); }
        if radius == 10 { assert(multiplier(10) == 271 && shift(10) == 15); assert(divides_evenly(10)); }
        if radius == 11 { assert(multiplier(11) == 456 && shift(11) == 16); assert(divides_evenly(11)); }
        if radius == 12 { assert(multiplier(12) == 388 && shift(12) == 16); assert(divides_evenly(12)); }
        if radius == 13 { assert(multiplier(13) == 335 && shift(13) == 16); assert(divides_evenly(13)); }
        if radius == 14 { assert(multiplier(14) == 292 && shift(14) == 16); assert(divides_evenly(14)); }
        if radius == 15 { assert(multiplier(15) == 512 && shift(15) == 17); assert(divides_evenly(15)); }
    }
    if 16 <= radius < 32 {
        if radius == 16 { assert(multiplier(16) == 454 && shift(16) == 17); assert(divides_evenly(16)); }
        if radius == 17 { assert(multiplier(17) == 405 && shift(17) == 17); assert(divides_evenly(17)); }
        if radius == 18 { assert(multiplier(18) == 364 && shift(18) == 17); assert(divides_evenly(18)); }
        if radius == 19 { assert(multiplier(19) == 328 && shift(19) == 17); assert(divides_evenly(19)); }
        if radius == 20 { assert(multiplier(20) == 298 && shift(20) == 17); assert(divides_evenly(20)); }
        if radius == 21 { assert(multiplier(21) == 271 && shift(21) == 17); assert(divides_evenly(21)); }
        if radius == 22 { assert(multiplier(22) == 496 && shift(22) == 18); assert(divides_evenly(22)); }
        if radius == 23 { assert(multiplier(23) == 456 && shift(23) == 18); assert(divides_evenly(23)); }
        if radius == 24 { assert(multiplier(24) == 420 && shift(24) == 18); assert(divides_evenly(24)); }
        if radius == 25 { assert(multiplier(25) == 388 && shift(25) == 18); assert(divides_evenly(25)); }
        if radius == 26 { assert(multiplier(26) == 360 && shift(26) == 18); assert(divides_evenly(26)); }
        if radius == 27 { assert(multiplier(27) == 335 && shift(27) == 18); assert(divides_evenly(27)); }
        if radius == 28 { assert(multiplier(28) == 312 && shift(28) == 18); assert(divides_evenly(28)); }
        if radius == 29 { assert(multiplier(29) == 292 && shift(29) == 18); assert(divides_evenly(29)); }
        if radius == 30 { assert(multiplier(30) == 273 && shift(30) == 18); assert(divides_evenly(30)); }
        if radius == 31 { assert(multiplier(31) == 512 && shift(31) == 19); assert(divides_evenly(31)); }
    }
    if 32 <= radius < 48 {
        if radius == 32 { assert(multiplier(32) == 482 && shift(32) == 19); assert(divides_evenly(32)); }
        if radius == 33 { assert(multiplier(33) == 454 && shift(33) == 19); assert(divides_evenly(33)); }
        if radius == 34 { assert(multiplier(34) == 428 && shift(34) == 19); assert(divides_evenly(34)); }
        if radius == 35 { assert(multiplier(35) == 405 && shift(35) == 19); assert(divides_evenly(35)); }
        if radius == 36 { assert(multiplier(36) == 383 && shift(36) == 19); assert(divides_evenly(36)); }
        if radius == 37 { assert(multiplier(37) == 364 && shift(37) == 19); assert(divides_evenly(37)); }
        if radius == 38 { assert(multiplier(38) == 345 && shift(38) == 19); assert(divides_evenly(38)); }
        if radius == 39 { assert(multiplier(39) == 328 && shift(39) == 19); assert(divides_evenly(39)); }
        if radius == 40 { assert(multiplier(40) == 312 && shift(40) == 19); assert(divides_evenly(40)); }
        if radius == 41 { assert(multiplier(41) == 298 && shift(41) == 19); assert(divides_evenly(41)); }
        if radius == 42 { assert(multiplier(42) == 284 && shift(42) == 19); assert(divides_evenly(42)); }
        if radius == 43 { assert(multiplier(43) == 271 && shift(43) == 19); assert(divides_evenly(43)); }
        if radius == 44 { assert(multiplier(44) == 259 && shift(44) == 19); assert(divides_evenly(44)); }
        if radius == 45 { assert(multiplier(45) == 496 && shift(45) == 20); assert(divides_evenly(45)); }
        if radius == 46 { assert(multiplier(46) == 475 && shift(46) == 20); assert(divides_evenly(46)); }
        if radius == 47 { assert(multiplier(47) == 456 && shift(47) == 20); assert(divides_evenly(47)); }
    }
    if 48 <= radius < 64 {
        if radius == 48 { assert(multiplier(48) == 437 && shift(48) == 20); assert(divides_evenly(48)); }
        if radius == 49 { assert(multiplier(49) == 420 && shift(49) == 20); assert(divides_evenly(49)); }
        if radius == 50 { assert(multiplier(50) == 404 && shift(50) == 20); assert(divides_evenly(50)); }
        if radius == 51 { assert(multiplier(51) == 388 && shift(51) == 20); assert(divides_evenly(51)); }
        if radius == 52 { assert(multiplier(52) == 374 && shift(52) == 20); assert(divides_evenly(52)); }
        if radius == 53 { assert(multiplier(53) == 360 && shift(53) == 20); assert(divides_evenly(53)); }
        if radius == 54 { assert(multiplier(54) == 347 && shift(54) == 20); assert(divides_evenly(54)); }
        if radius == 55 { assert(multiplier(55) == 335 && shift(55) == 20); assert(divides_evenly(55)); }
        if radius == 56 { assert(multiplier(56) == 323 && shift(56) == 20); assert(divides_evenly(56)); }
        if radius == 57 { assert(multiplier(57) == 312 && shift(57) == 20); assert(divides_evenly(57)); }
        if radius == 58 { assert(multiplier(58) == 302 && shift(58) == 20); assert(divides_evenly(58)); }
        if radius == 59 { assert(multiplier(59) == 292 && shift(59) == 20); assert(divides_evenly(59)); }
        if radius == 60 { assert(multiplier(60) == 282 && shift(60) == 20); assert(divides_evenly(60)); }
        if radius == 61 { assert(multiplier(61) == 273 && shift(61) == 20); assert(divides_evenly(61)); }
        if radius == 62 { assert(multiplier(62) == 265 && shift(62) == 20); assert(divides_evenly(62)); }
        if radius == 63 { assert(multiplier(63) == 512 && shift(63) == 21); assert(divides_evenly(63)); }
    }
    if 64 <= radius < 80 {
        if radius == 64 { assert(multiplier(64) == 497 && shift(64) == 21); assert(divides_evenly(64)); }
        if radius == 65 { assert(multiplier(65) == 482 && shift(65) == 21); assert(divides_evenly(65)); }
        if radius == 66 { assert(multiplier(66) == 468 && shift(66) == 21); assert(divides_evenly(66)); }
        if radius == 67 { assert(multiplier(67) == 454 && shift(67) == 21); assert(divides_evenly(67)); }
        if radius == 68 { assert(multiplier(68) == 441 && shift(68) == 21); assert(divides_evenly(68)); }
        if radius == 69 { assert(multiplier(69) == 428 && shift(69) == 21); assert(divides_evenly(69)); }
        if radius == 70 { assert(multiplier(70) == 417 && shift(70) == 21); assert(divides_evenly(70)); }
        if radius == 71 { assert(multiplier(71) == 405 && shift(71) == 21); assert(divides_evenly(71)); }
        if radius == 72 { assert(multiplier(72) == 394 && shift(72) == 21); assert(divides_evenly(72)); }
        if radius == 73 { assert(multiplier(73) == 383 && shift(73) == 21); assert(divides_evenly(73)); }
        if radius == 74 { assert(multiplier(74) == 373 && shift(74) == 21); assert(divides_evenly(74)); }
        if radius == 75 { assert(multiplier(75) == 364 && shift(75) == 21); assert(divides_evenly(75)); }
        if radius == 76 { assert(multiplier(76) == 354 && shift(76) == 21); assert(divides_evenly(76)); }
        if radius == 77 { assert(multiplier(77) == 345 && shift(77) == 21); assert(divides_evenly(77)); }
        if radius == 78 { assert(multiplier(78) == 337 && shift(78) == 21); assert(divides_evenly(78)); }
        if radius == 79 { assert(multiplier(79) == 328 && shift(79) == 21); assert(divides_evenly(79)); }
    }
    if 80 <= radius < 96 {
        if radius == 80 { assert(multiplier(80) == 320 && shift(80) == 21); assert(divides_evenly(80)); }
        if radius == 81 { assert(multiplier(81) == 312 && shift(81) == 21); assert(divides_evenly(81)); }
        if radius == 82 { assert(multiplier(82) == 305 && shift(82) == 21); assert(divides_evenly(82)); }
        if radius == 83 { assert(multiplier(83) == 298 && shift(83) == 21); assert(divides_evenly(83)); }
        if radius == 84 { assert(multiplier(84) == 291 && shift(84) == 21); assert(divides_evenly(84)); }
        if radius == 85 { assert(multiplier(85) == 284 && shift(85) == 21); assert(divides_evenly(85)); }
        if radius == 86 { assert(multiplier(86) == 278 && shift(86) == 21); assert(divides_evenly(86)); }
        if radius == 87 { assert(multiplier(87) == 271 && shift(87) == 21); assert(divides_evenly(87)); }
        if radius == 88 { assert(multiplier(88) == 265 && shift(88) == 21); assert(divides_evenly(88)); }
        if radius == 89 { assert(multiplier(89) == 259 && shift(89) == 21); assert(divides_evenly(89)); }
        if radius == 90 { assert(multiplier(90) == 507 && shift(90) == 22); assert(divides_evenly(90)); }
        if radius == 91 { assert(multiplier(91) == 496 && shift(91) == 22); assert(divides_evenly(91)); }
        if radius == 92 { assert(multiplier(92) == 485 && shift(92) == 22); assert(divides_evenly(92)); }
        if radius == 93 { assert(multiplier(93) == 475 && shift(93) == 22); assert(divides_evenly(93)); }
        if radius == 94 { assert(multiplier(94) == 465 && shift(94) == 22); assert(divides_evenly(94)); }
        if radius == 95 { assert(multiplier(95) == 456 && shift(95) == 22); assert(divides_evenly(95)); }
    }
    if 96 <= radius < 112 {
        if radius == 96 { assert(multiplier(96) == 446 && shift(96) == 22); assert(divides_evenly(96)); }
        if radius == 97 { assert(multiplier(97) == 437 && shift(97) == 22); assert(divides_evenly(97)); }
        if radius == 98 { assert(multiplier(98) == 428 && shift(98) == 22); assert(divides_evenly(98)); }
        if radius == 99 { assert(multiplier(99) == 420 && shift(99) == 22); assert(divides_evenly(99)); }
        if radius == 100 { assert(multiplier(100) == 412 && shift(100) == 22); assert(divides_evenly(100)); }
        if radius == 101 { assert(multiplier(101) == 404 && shift(101) == 22); assert(divides_evenly(101)); }
        if radius == 102 { assert(multiplier(102) == 396 && shift(102) == 22); assert(divides_evenly(102)); }
        if radius == 103 { assert(multiplier(103) == 388 && shift(103) == 22); assert(divides_evenly(103)); }
        if radius == 104 { assert(multiplier(104) == 381 && shift(104) == 22); assert(divides_evenly(104)); }
        if radius == 105 { assert(multiplier(105) == 374 && shift(105) == 22); assert(divides_evenly(105)); }
        if radius == 106 { assert(multiplier(106) == 367 && shift(106) == 22); assert(divides_evenly(106)); }
        if radius == 107 { assert(multiplier(107) == 360 && shift(107) == 22); assert(divides_evenly(107)); }
        if radius == 108 { assert(multiplier(108) == 354 && shift(108) == 22); assert(divides_evenly(108)); }
        if radius == 109 { assert(multiplier(109) == 347 && shift(109) == 22); assert(divides_evenly(109)); }
        if radius == 110 { assert(multiplier(110) == 341 && shift(110) == 22); assert(divides_evenly(110)); }
        if radius == 111 { assert(multiplier(111) == 335 && shift(111) == 22); assert(divides_evenly(111)); }
    }
    if 112 <= radius < 128 {
        if radius == 112 { assert(multiplier(112) == 329 && shift(112) == 22); assert(divides_evenly(112)); }
        if radius == 113 { assert(multiplier(113) == 323 && shift(113) == 22); assert(divides_evenly(113)); }
        if radius == 114 { assert(multiplier(114) == 318 && shift(114) == 22); assert(divides_evenly(114)); }
        if radius == 115 { assert(multiplier(115) == 312 && shift(115) == 22); assert(divides_evenly(115)); }
        if radius == 116 { assert(multiplier(116) == 307 && shift(116) == 22); assert(divides_evenly(116)); }
        if radius == 117 { assert(multiplier(117) == 302 && shift(117) == 22); assert(divides_evenly(117)); }
        if radius == 118 { assert(multiplier(118) == 297 && shift(118) == 22); assert(divides_evenly(118)); }
        if radius == 119 { assert(multiplier(119) == 292 && shift(119) == 22); assert(divides_evenly(119)); }
        if radius == 120 { assert(multiplier(120) == 287 && shift(120) == 22); assert(divides_evenly(120)); }
        if radius == 121 { assert(multiplier(121) == 282 && shift(121) == 22); assert(divides_evenly(121)); }
        if radius == 122 { assert(multiplier(122) == 278 && shift(122) == 22); assert(divides_evenly(122)); }
        if radius == 123 { assert(multiplier(123) == 273 && shift(123) == 22); assert(divides_evenly(123)); }
        if radius == 124 { assert(multiplier(124) == 269 && shift(124) == 22); assert(divides_evenly(124)); }
        if radius == 125 { assert(multiplier(125) == 265 && shift(125) == 22); assert(divides_evenly(125)); }
        if radius == 126 { assert(multiplier(126) == 261 && shift(126) == 22); assert(divides_evenly(126)); }
        if radius == 127 { assert(multiplier(127) == 512 && shift(127) == 23); assert(divides_evenly(127)); }
    }
    if 128 <= radius < 144 {
        if radius == 128 { assert(multiplier(128) == 505 && shift(128) == 23); assert(divides_evenly(128)); }
        if radius == 129 { assert(multiplier(129) == 497 && shift(129) == 23); assert(divides_evenly(129)); }
        if radius == 130 { assert(multiplier(130) == 489 && shift(130) == 23); assert(divides_evenly(130)); }
        if radius == 131 { assert(multiplier(131) == 482 && shift(131) == 23); assert(divides_evenly(131)); }
        if radius == 132 { assert(multiplier(132) == 475 && shift(132) == 23); assert(divides_evenly(132)); }
        if radius == 133 { assert(multiplier(133) == 468 && shift(133) == 23); assert(divides_evenly(133)); }
        if radius == 134 { assert(multiplier(134) == 461 && shift(134) == 23); assert(divides_evenly(134)); }
        if radius == 135 { assert(multiplier(135) == 454 && shift(135) == 23); assert(divides_evenly(135)); }
        if radius == 136 { assert(multiplier(136) == 447 && shift(136) == 23); assert(divides_evenly(136)); }
        if radius == 137 { assert(multiplier(137) == 441 && shift(137) == 23); assert(divides_evenly(137)); }
        if radius == 138 { assert(multiplier(138) == 435 && shift(138) == 23); assert(divides_evenly(138)); }
        if radius == 139 { assert(multiplier(139) == 428 && shift(139) == 23); assert(divides_evenly(139)); }
        if radius == 140 { assert(multiplier(140) == 422 && shift(140) == 23); assert(divides_evenly(140)); }
        if radius == 141 { assert(multiplier(141) == 417 && shift(141) == 23); assert(divides_evenly(141)); }
        if radius == 142 { assert(multiplier(142) == 411 && shift(142) == 23); assert(divides_evenly(142)); }
        if radius == 143 { assert(multiplier(143) == 405 && shift(143) == 23); assert(divides_evenly(143)); }
    }
    if 144 <= radius < 160 {
        if radius == 144 { assert(multiplier(144) == 399 && shift(144) == 23); assert(divides_evenly(144)); }
        if radius == 145 { assert(multiplier(145) == 394 && shift(145) == 23); assert(divides_evenly(145)); }
        if radius == 146 { assert(multiplier(146) == 389 && shift(146) == 23); assert(divides_evenly(146)); }
        if radius == 147 { assert(multiplier(147) == 383 && shift(147) == 23); assert(divides_evenly(147)); }
        if radius == 148 { assert(multiplier(148) == 378 && shift(148) == 23); assert(divides_evenly(148)); }
        if radius == 149 { assert(multiplier(149) == 373 && shift(149) == 23); assert(divides_evenly(149)); }
        if radius == 150 { assert(multiplier(150) == 368 && shift(150) == 23); assert(divides_evenly(150)); }
        if radius == 151 { assert(multiplier(151) == 364 && shift(151) == 23); assert(divides_evenly(151)); }
        if radius == 152 { assert(multiplier(152) == 359 && shift(152) == 23); assert(divides_evenly(152)); }
        if radius == 153 { assert(multiplier(153) == 354 && shift(153) == 23); assert(divides_evenly(153)); }
        if radius == 154 { assert(multiplier(154) == 350 && shift(154) == 23); assert(divides_evenly(154)); }
        if radius == 155 { assert(multiplier(155) == 345 && shift(155) == 23); assert(divides_evenly(155)); }
        if radius == 156 { assert(multiplier(156) == 341 && shift(156) == 23); assert(divides_evenly(156)); }
        if radius == 157 { assert(multiplier(157) == 337 && shift(157) == 23); assert(divides_evenly(157)); }
        if radius == 158 { assert(multiplier(158) == 332 && shift(158) == 23); assert(divides_evenly(158)); }
        if radius == 159 { assert(multiplier(159) == 328 && shift(159) == 23); assert(divides_evenly(159)); }
    }
    if 160 <= radius < 176 {
        if radius == 160 { assert(multiplier(160) == 324 && shift(160) == 23); assert(divides_evenly(160)); }
        if radius == 161 { assert(multiplier(161) == 320 && shift(161) == 23); assert(divides_evenly(161)); }
        if radius == 162 { assert(multiplier(162) == 316 && shift(162) == 23); assert(divides_evenly(162)); }
        if radius == 163 { assert(multiplier(163) == 312 && shift(163) == 23); assert(divides_evenly(163)); }
        if radius == 164 { assert(multiplier(164) == 309 && shift(164) == 23); assert(divides_evenly(164)); }
        if radius == 165 { assert(multiplier(165) == 305 && shift(165) == 23); assert(divides_evenly(165)); }
        if radius == 166 { assert(multiplier(166) == 301 && shift(166) == 23); assert(divides_evenly(166)); }
        if radius == 167 { assert(multiplier(167) == 298 && shift(167) == 23); assert(divides_evenly(167)); }
        if radius == 168 { assert(multiplier(168) == 294 && shift(168) == 23); assert(divides_evenly(168)); }
        if radius == 169 { assert(multiplier(169) == 291 && shift(169) == 23); assert(divides_evenly(169)); }
        if radius == 170 { assert(multiplier(170) == 287 && shift(170) == 23); assert(divides_evenly(170)); }
        if radius == 171 { assert(multiplier(171) == 284 && shift(171) == 23); assert(divides_evenly(171)); }
        if radius == 172 { assert(multiplier(172) == 281 && shift(172) == 23); assert(divides_evenly(172)); }
        if radius == 173 { assert(multiplier(173) == 278 && shift(173) == 23); assert(divides_evenly(173)); }
        if radius == 174 { assert(multiplier(174) == 274 && shift(174) == 23); assert(divides_evenly(174)); }
        if radius == 175 { assert(multiplier(175) == 271 && shift(175) == 23); assert(divides_evenly(175)); }
    }
    if 176 <= radius < 192 {
        if radius == 176 { assert(multiplier(176) == 268 && shift(176) == 23); assert(divides_evenly(176)); }
        if radius == 177 { assert(multiplier(177) == 265 && shift(177) == 23); assert(divides_evenly(177)); }
        if radius == 178 { assert(multiplier(178) == 262 && shift(178) == 23); assert(divides_evenly(178)); }
        if radius == 179 { assert(multiplier(179) == 259 && shift(179) == 23); assert(divides_evenly(179)); }
        if radius == 180 { assert(multiplier(180) == 257 && shift(180) == 23); assert(divides_evenly(180)); }
        if radius == 181 { assert(multiplier(181) == 507 && shift(181) == 24); assert(divides_evenly(181)); }
        if radius == 182 { assert(multiplier(182) == 501 && shift(182) == 24); assert(divides_evenly(182)); }
        if radius == 183 { assert(multiplier(183) == 496 && shift(183) == 24); assert(divides_evenly(183)); }
        if radius == 184 { assert(multiplier(184) == 491 && shift(184) == 24); assert(divides_evenly(184)); }
        if radius == 185 { assert(multiplier(185) == 485 && shift(185) == 24); assert(divides_evenly(185)); }
        if radius == 186 { assert(multiplier(186) == 480 && shift(186) == 24); assert(divides_evenly(186)); }
        if radius == 187 { assert(multiplier(187) == 475 && shift(187) == 24); assert(divides_evenly(187)); }
        if radius == 188 { assert(multiplier(188) == 470 && shift(188) == 24); assert(divides_evenly(188)); }
        if radius == 189 { assert(multiplier(189) == 465 && shift(189) == 24); assert(divides_evenly(189)); }
        if radius == 190 { assert(multiplier(190) == 460 && shift(190) == 24); assert(divides_evenly(190)); }
        if radius == 191 { assert(multiplier(191) == 456 && shift(191) == 24); assert(divides_evenly(191)); }
    }
    if 192 <= radius < 208 {
        if radius == 192 { assert(multiplier(192) == 451 && shift(192) == 24); assert(divides_evenly(192)); }
        if radius == 193 { assert(multiplier(193) == 446 && shift(193) == 24); assert(divides_evenly(193)); }
        if radius == 194 { assert(multiplier(194) == 442 && shift(194) == 24); assert(divides_evenly(194)); }
        if radius == 195 { assert(multiplier(195) == 437 && shift(195) == 24); assert(divides_evenly(195)); }
        if radius == 196 { assert(multiplier(196) == 433 && shift(196) == 24); assert(divides_evenly(196)); }
        if radius == 197 { assert(multiplier(197) == 428 && shift(197) == 24); assert(divides_evenly(197)); }
        if radius == 198 { assert(multiplier(198) == 424 && shift(198) == 24); assert(divides_evenly(198)); }
        if radius == 199 { assert(multiplier(199) == 420 && shift(199) == 24); assert(divides_evenly(199)); }
        if radius == 200 { assert(multiplier(200) == 416 && shift(200) == 24); assert(divides_evenly(200)); }
        if radius == 201 { assert(multiplier(201) == 412 && shift(201) == 24); assert(divides_evenly(201)); }
        if radius == 202 { assert(multiplier(202) == 408 && shift(202) == 24); assert(divides_evenly(202)); }
        if radius == 203 { assert(multiplier(203) == 404 && shift(203) == 24); assert(divides_evenly(203)); }
        if radius == 204 { assert(multiplier(204) == 400 && shift(204) == 24); assert(divides_evenly(204)); }
        if radius == 205 { assert(multiplier(205) == 396 && shift(205) == 24); assert(divides_evenly(205)); }
        if radius == 206 { assert(multiplier(206) == 392 && shift(206) == 24); assert(divides_evenly(206)); }
        if radius == 207 { assert(multiplier(207) == 388 && shift(207) == 24); assert(divides_evenly(207)); }
    }
    if 208 <= radius < 224 {
        if radius == 208 { assert(multiplier(208) == 385 && shift(208) == 24); assert(divides_evenly(208)); }
        if radius == 209 { assert(multiplier(209) == 381 && shift(209) == 24); assert(divides_evenly(209)); }
        if radius == 210 { assert(multiplier(210) == 377 && shift(210) == 24); assert(divides_evenly(210)); }
        if radius == 211 { assert(multiplier(211) == 374 && shift(211) == 24); assert(divides_evenly(211)); }
        if radius == 212 { assert(multiplier(212) == 370 && shift(212) == 24); assert(divides_evenly(212)); }
        if radius == 213 { assert(multiplier(213) == 367 && shift(213) == 24); assert(divides_evenly(213)); }
        if radius == 214 { assert(multiplier(214) == 363 && shift(214) == 24); assert(divides_evenly(214)); }
        if radius == 215 { assert(multiplier(215) == 360 && shift(215) == 24); assert(divides_evenly(215)); }
        if radius == 216 { assert(multiplier(216) == 357 && shift(216) == 24); assert(divides_evenly(216)); }
        if radius == 217 { assert(multiplier(217) == 354 && shift(217) == 24); assert(divides_evenly(217)); }
        if radius == 218 { assert(multiplier(218) == 350 && shift(218) == 24); assert(divides_evenly(218)); }
        if radius == 219 { assert(multiplier(219) == 347 && shift(219) == 24); assert(divides_evenly(219)); }
        if radius == 220 { assert(multiplier(220) == 344 && shift(220) == 24); assert(divides_evenly(220)); }
        if radius == 221 { assert(multiplier(221) == 341 && shift(221) == 24); assert(divides_evenly(221)); }
        if radius == 222 { assert(multiplier(222) == 338 && shift(222) == 24); assert(divides_evenly(222)); }
        if radius == 223 { assert(multiplier(223) == 335 && shift(223) == 24); assert(divides_evenly(223)); }
    }
    if 224 <= radius < 240 {
        if radius == 224 { assert(multiplier(224) == 332 && shift(224) == 24); assert(divides_evenly(224)); }
        if radius == 225 { assert(multiplier(225) == 329 && shift(225) == 24); assert(divides_evenly(225)); }
        if radius == 226 { assert(multiplier(226) == 326 && shift(226) == 24); assert(divides_evenly(226)); }
        if radius == 227 { assert(multiplier(227) == 323 && shift(227) == 24); assert(divides_evenly(227)); }
        if radius == 228 { assert(multiplier(228) == 320 && shift(228) == 24); assert(divides_evenly(228)); }
        if radius == 229 { assert(multiplier(229) == 318 && shift(229) == 24); assert(divides_evenly(229)); }
        if radius == 230 { assert(multiplier(230) == 315 && shift(230) == 24); assert(divides_evenly(230)); }
        if radius == 231 { assert(multiplier(231) == 312 && shift(231) == 24); assert(divides_evenly(231)); }
        if radius == 232 { assert(multiplier(232) == 310 && shift(232) == 24); assert(divides_evenly(232)); }
        if radius == 233 { assert(multiplier(233) == 307 && shift(233) == 24); assert(divides_evenly(233)); }
        if radius == 234 { assert(multiplier(234) == 304 && shift(234) == 24); assert(divides_evenly(234)); }
        if radius == 235 { assert(multiplier(235) == 302 && shift(235) == 24); assert(divides_evenly(235)); }
        if radius == 236 { assert(multiplier(236) == 299 && shift(236) == 24); assert(divides_evenly(236)); }
        if radius == 237 { assert(multiplier(237) == 297 && shift(237) == 24); assert(divides_evenly(237)); }
        if radius == 238 { assert(multiplier(238) == 294 && shift(238) == 24); assert(divides_evenly(238)); }
        if radius == 239 { assert(multiplier(239) == 292 && shift(239) == 24); assert(divides_evenly(239)); }
    }
    if 240 <= radius < 256 {
        if radius == 240 { assert(multiplier(240) == 289 && shift(240) == 24); assert(divides_evenly(240)); }
        if radius == 241 { assert(multiplier(241) == 287 && shift(241) == 24); assert(divides_evenly(241)); }
        if radius == 242 { assert(multiplier(242) == 285 && shift(242) == 24); assert(divides_evenly(242)); }
        if radius == 243 { assert(multiplier(243) == 282 && shift(243) == 24); assert(divides_evenly(243)); }
        if radius == 244 { assert(multiplier(244) == 280 && shift(244) == 24); assert(divides_evenly(244)); }
        if radius == 245 { assert(multiplier(245) == 278 && shift(245) == 24); assert(divides_evenly(245)); }
        if radius == 246 { assert(multiplier(246) == 275 && shift(246) == 24); assert(divides_evenly(246)); }
        if radius == 247 { assert(multiplier(247) == 273 && shift(247) == 24); assert(divides_evenly(247)); }
        if radius == 248 { assert(multiplier(248) == 271 && shift(248) == 24); assert(divides_evenly(248)); }
        if radius == 249 { assert(multiplier(249) == 269 && shift(249) == 24); assert(divides_evenly(249)); }
        if radius == 250 { assert(multiplier(250) == 267 && shift(250) == 24); assert(divides_evenly(250)); }
        if radius == 251 { assert(multiplier(251) == 265 && shift(251) == 24); assert(divides_evenly(251)); }
        if radius == 252 { assert(multiplier(252) == 263 && shift(252) == 24); assert(divides_evenly(252)); }
        if radius == 253 { assert(multiplier(253) == 261 && shift(253) == 24); assert(divides_evenly(253)); }
        if radius == 254 { assert(multiplier(254) == 259 && shift(254) == 24); assert(divides_evenly(254)); }
        if radius == 255 { assert(multiplier(255) == 257 && shift(255) == 24); assert(divides_evenly(255)); }
    }
}


/// Where the tables divide evenly, the weighted sum of a whole window of
/// equal samples is scaled back to the sample.
pub proof fn lemma_scaled_uniform(value: int, radius: int)
    requires
        0 <= value <= 255,
        0 <= radius <= 255,
        divides_evenly(radius),
    ensures
        scaled(value * ((radius + 1) * (radius + 1)), radius) == value,
{
    let mass = (radius + 1) * (radius + 1);
    let power = pow2(shift(radius)) as int;
    let factor = multiplier(radius);
    let excess = mass * factor - power;
    let product = value * mass * factor;
    lemma_pow2_pos(shift(radius));
    assert(product == value * power + value * excess) by (nonlinear_arith)
        requires
            product == value * mass * factor,
            excess == mass * factor - power,
    ;
    assert(0 <= value * excess <= 255 * excess) by (nonlinear_arith)
        requires
            0 <= value <= 255,
            0 <= excess,
    ;
    lemma_fundamental_div_mod_converse(product, power, value, value * excess);
}

/// At radius zero the tables scale every sum to itself.
pub proof fn lemma_scaled_identity(value: int)
    requires
        0 <= value <= 255,
    ensures
        scaled(value, 0) == value,
{
    lemma_tables_divide(0);
    lemma_scaled_uniform(value, 0);
}

/// What the tables make of a sum that is not negative lies between 0 and
/// 255.
pub proof fn lemma_scaled_bounds(sum: int, radius: int)
    requires
        0 <= sum,
    ensures
        0 <= scaled(sum, radius) <= 255,
{
    lemma_pow2_pos(shift(radius));
    assert(0 <= sum * multiplier(radius)) by (nonlinear_arith)
        requires
            0 <= sum,
            0 <= multiplier(radius),
    ;
    lemma_div_pos_is_pos(sum * multiplier(radius), pow2(shift(radius)) as int);
}

} // verus!
