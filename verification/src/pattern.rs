//! The constant tables of the parser and the proof that they cover every
//! valid dotted-quad shape.
//!
//! `PATTERNS` holds one sixteen-lane gather descriptor per combination of
//! group lengths; `PATTERNS_ID` maps the multiplicative hash of a separator
//! bitmap to the descriptor index, reserving every other slot for rejection.
//! `canon_entry` states what each lane of a descriptor must hold, and
//! `lemma_patterns_cover` checks the two tables against it, shape by shape.

use vstd::prelude::*;

verus! {

use vstd::arithmetic::power2::lemma2_to64;
use crate::mask::shape_mask;
use crate::mask::mask_rec;
use crate::mask::spec_hash;

/// Lane sentinel: the lane takes no input byte and is zero-filled.
pub const MISS: u8 = 128;

/// Perfect-hash slot table: the hash code of a separator bitmap indexes
/// this table; a value below 81 selects a descriptor, any other value
/// rejects the input as having no valid dotted-quad shape.
pub const PATTERNS_ID: [u8; 256] = [
    38, 65, 255, 56, 73, 255, 255, 255, 255, 255, 255, 3, 255, 255, 6, 255,
    255, 9, 255, 27, 255, 12, 30, 255, 255, 255, 255, 15, 255, 33, 255, 255,
    255, 255, 18, 36, 255, 255, 255, 54, 21, 255, 39, 255, 255, 57, 255, 255,
    255, 255, 255, 255, 255, 255, 24, 42, 255, 255, 255, 60, 255, 255, 255, 255,
    255, 255, 255, 255, 45, 255, 255, 63, 255, 255, 255, 255, 255, 255, 255, 255,
    255, 48, 53, 255, 255, 66, 71, 255, 255, 16, 255, 34, 255, 255, 255, 255,
    255, 255, 255, 52, 255, 255, 22, 70, 40, 255, 255, 58, 51, 255, 255, 69,
    255, 255, 255, 255, 255, 255, 255, 255, 255, 5, 255, 255, 255, 255, 255, 255,
    11, 29, 46, 255, 255, 64, 255, 255, 72, 0, 77, 255, 255, 255, 255, 255,
    255, 255, 255, 255, 255, 255, 255, 255, 255, 255, 255, 76, 255, 255, 255, 255,
    255, 255, 255, 75, 255, 80, 255, 255, 255, 26, 255, 44, 255, 7, 62, 255,
    255, 25, 255, 43, 13, 31, 61, 255, 255, 255, 255, 255, 255, 255, 255, 255,
    2, 19, 37, 255, 255, 50, 55, 79, 68, 255, 255, 255, 255, 49, 255, 255,
    67, 255, 255, 255, 255, 17, 255, 35, 78, 255, 4, 255, 255, 255, 255, 255,
    255, 10, 23, 28, 41, 255, 255, 59, 255, 255, 255, 8, 255, 255, 255, 255,
    255, 1, 14, 32, 255, 255, 255, 255, 255, 255, 255, 255, 74, 255, 47, 20,
];

/// The 81 lane descriptors, one per combination of the four group lengths.
/// An entry below 16 is a source byte index; 128 marks a miss lane.
/// Lanes 2g and 2g + 1 hold the ones and tens digit of group g, lane
/// 8 + 2g its hundreds digit, and lane 9 + 2g repeats the most significant
/// digit of any multi-digit group for the leading-zero check.
pub const PATTERNS: [[u8; 16]; 81] = [
    [0, 128, 2, 128, 4, 128, 6, 128, 128, 128, 128, 128, 128, 128, 128, 128],
    [0, 128, 2, 128, 4, 128, 7, 6, 128, 128, 128, 128, 128, 128, 128, 6],
    [0, 128, 2, 128, 4, 128, 8, 7, 128, 128, 128, 128, 128, 128, 6, 6],
    [0, 128, 2, 128, 5, 4, 7, 128, 128, 128, 128, 128, 128, 4, 128, 128],
    [0, 128, 2, 128, 5, 4, 8, 7, 128, 128, 128, 128, 128, 4, 128, 7],
    [0, 128, 2, 128, 5, 4, 9, 8, 128, 128, 128, 128, 128, 4, 7, 7],
    [0, 128, 2, 128, 6, 5, 8, 128, 128, 128, 128, 128, 4, 4, 128, 128],
    [0, 128, 2, 128, 6, 5, 9, 8, 128, 128, 128, 128, 4, 4, 128, 8],
    [0, 128, 2, 128, 6, 5, 10, 9, 128, 128, 128, 128, 4, 4, 8, 8],
    [0, 128, 3, 2, 5, 128, 7, 128, 128, 128, 128, 2, 128, 128, 128, 128],
    [0, 128, 3, 2, 5, 128, 8, 7, 128, 128, 128, 2, 128, 128, 128, 7],
    [0, 128, 3, 2, 5, 128, 9, 8, 128, 128, 128, 2, 128, 128, 7, 7],
    [0, 128, 3, 2, 6, 5, 8, 128, 128, 128, 128, 2, 128, 5, 128, 128],
    [0, 128, 3, 2, 6, 5, 9, 8, 128, 128, 128, 2, 128, 5, 128, 8],
    [0, 128, 3, 2, 6, 5, 10, 9, 128, 128, 128, 2, 128, 5, 8, 8],
    [0, 128, 3, 2, 7, 6, 9, 128, 128, 128, 128, 2, 5, 5, 128, 128],
    [0, 128, 3, 2, 7, 6, 10, 9, 128, 128, 128, 2, 5, 5, 128, 9],
    [0, 128, 3, 2, 7, 6, 11, 10, 128, 128, 128, 2, 5, 5, 9, 9],
    [0, 128, 4, 3, 6, 128, 8, 128, 128, 128, 2, 2, 128, 128, 128, 128],
    [0, 128, 4, 3, 6, 128, 9, 8, 128, 128, 2, 2, 128, 128, 128, 8],
    [0, 128, 4, 3, 6, 128, 10, 9, 128, 128, 2, 2, 128, 128, 8, 8],
    [0, 128, 4, 3, 7, 6, 9, 128, 128, 128, 2, 2, 128, 6, 128, 128],
    [0, 128, 4, 3, 7, 6, 10, 9, 128, 128, 2, 2, 128, 6, 128, 9],
    [0, 128, 4, 3, 7, 6, 11, 10, 128, 128, 2, 2, 128, 6, 9, 9],
    [0, 128, 4, 3, 8, 7, 10, 128, 128, 128, 2, 2, 6, 6, 128, 128],
    [0, 128, 4, 3, 8, 7, 11, 10, 128, 128, 2, 2, 6, 6, 128, 10],
    [0, 128, 4, 3, 8, 7, 12, 11, 128, 128, 2, 2, 6, 6, 10, 10],
    [1, 0, 3, 128, 5, 128, 7, 128, 128, 0, 128, 128, 128, 128, 128, 128],
    [1, 0, 3, 128, 5, 128, 8, 7, 128, 0, 128, 128, 128, 128, 128, 7],
    [1, 0, 3, 128, 5, 128, 9, 8, 128, 0, 128, 128, 128, 128, 7, 7],
    [1, 0, 3, 128, 6, 5, 8, 128, 128, 0, 128, 128, 128, 5, 128, 128],
    [1, 0, 3, 128, 6, 5, 9, 8, 128, 0, 128, 128, 128, 5, 128, 8],
    [1, 0, 3, 128, 6, 5, 10, 9, 128, 0, 128, 128, 128, 5, 8, 8],
    [1, 0, 3, 128, 7, 6, 9, 128, 128, 0, 128, 128, 5, 5, 128, 128],
    [1, 0, 3, 128, 7, 6, 10, 9, 128, 0, 128, 128, 5, 5, 128, 9],
    [1, 0, 3, 128, 7, 6, 11, 10, 128, 0, 128, 128, 5, 5, 9, 9],
    [1, 0, 4, 3, 6, 128, 8, 128, 128, 0, 128, 3, 128, 128, 128, 128],
    [1, 0, 4, 3, 6, 128, 9, 8, 128, 0, 128, 3, 128, 128, 128, 8],
    [1, 0, 4, 3, 6, 128, 10, 9, 128, 0, 128, 3, 128, 128, 8, 8],
    [1, 0, 4, 3, 7, 6, 9, 128, 128, 0, 128, 3, 128, 6, 128, 128],
    [1, 0, 4, 3, 7, 6, 10, 9, 128, 0, 128, 3, 128, 6, 128, 9],
    [1, 0, 4, 3, 7, 6, 11, 10, 128, 0, 128, 3, 128, 6, 9, 9],
    [1, 0, 4, 3, 8, 7, 10, 128, 128, 0, 128, 3, 6, 6, 128, 128],
    [1, 0, 4, 3, 8, 7, 11, 10, 128, 0, 128, 3, 6, 6, 128, 10],
    [1, 0, 4, 3, 8, 7, 12, 11, 128, 0, 128, 3, 6, 6, 10, 10],
    [1, 0, 5, 4, 7, 128, 9, 128, 128, 0, 3, 3, 128, 128, 128, 128],
    [1, 0, 5, 4, 7, 128, 10, 9, 128, 0, 3, 3, 128, 128, 128, 9],
    [1, 0, 5, 4, 7, 128, 11, 10, 128, 0, 3, 3, 128, 128, 9, 9],
    [1, 0, 5, 4, 8, 7, 10, 128, 128, 0, 3, 3, 128, 7, 128, 128],
    [1, 0, 5, 4, 8, 7, 11, 10, 128, 0, 3, 3, 128, 7, 128, 10],
    [1, 0, 5, 4, 8, 7, 12, 11, 128, 0, 3, 3, 128, 7, 10, 10],
    [1, 0, 5, 4, 9, 8, 11, 128, 128, 0, 3, 3, 7, 7, 128, 128],
    [1, 0, 5, 4, 9, 8, 12, 11, 128, 0, 3, 3, 7, 7, 128, 11],
    [1, 0, 5, 4, 9, 8, 13, 12, 128, 0, 3, 3, 7, 7, 11, 11],
    [2, 1, 4, 128, 6, 128, 8, 128, 0, 0, 128, 128, 128, 128, 128, 128],
    [2, 1, 4, 128, 6, 128, 9, 8, 0, 0, 128, 128, 128, 128, 128, 8],
    [2, 1, 4, 128, 6, 128, 10, 9, 0, 0, 128, 128, 128, 128, 8, 8],
    [2, 1, 4, 128, 7, 6, 9, 128, 0, 0, 128, 128, 128, 6, 128, 128],
    [2, 1, 4, 128, 7, 6, 10, 9, 0, 0, 128, 128, 128, 6, 128, 9],
    [2, 1, 4, 128, 7, 6, 11, 10, 0, 0, 128, 128, 128, 6, 9, 9],
    [2, 1, 4, 128, 8, 7, 10, 128, 0, 0, 128, 128, 6, 6, 128, 128],
    [2, 1, 4, 128, 8, 7, 11, 10, 0, 0, 128, 128, 6, 6, 128, 10],
    [2, 1, 4, 128, 8, 7, 12, 11, 0, 0, 128, 128, 6, 6, 10, 10],
    [2, 1, 5, 4, 7, 128, 9, 128, 0, 0, 128, 4, 128, 128, 128, 128],
    [2, 1, 5, 4, 7, 128, 10, 9, 0, 0, 128, 4, 128, 128, 128, 9],
    [2, 1, 5, 4, 7, 128, 11, 10, 0, 0, 128, 4, 128, 128, 9, 9],
    [2, 1, 5, 4, 8, 7, 10, 128, 0, 0, 128, 4, 128, 7, 128, 128],
    [2, 1, 5, 4, 8, 7, 11, 10, 0, 0, 128, 4, 128, 7, 128, 10],
    [2, 1, 5, 4, 8, 7, 12, 11, 0, 0, 128, 4, 128, 7, 10, 10],
    [2, 1, 5, 4, 9, 8, 11, 128, 0, 0, 128, 4, 7, 7, 128, 128],
    [2, 1, 5, 4, 9, 8, 12, 11, 0, 0, 128, 4, 7, 7, 128, 11],
    [2, 1, 5, 4, 9, 8, 13, 12, 0, 0, 128, 4, 7, 7, 11, 11],
    [2, 1, 6, 5, 8, 128, 10, 128, 0, 0, 4, 4, 128, 128, 128, 128],
    [2, 1, 6, 5, 8, 128, 11, 10, 0, 0, 4, 4, 128, 128, 128, 10],
    [2, 1, 6, 5, 8, 128, 12, 11, 0, 0, 4, 4, 128, 128, 10, 10],
    [2, 1, 6, 5, 9, 8, 11, 128, 0, 0, 4, 4, 128, 8, 128, 128],
    [2, 1, 6, 5, 9, 8, 12, 11, 0, 0, 4, 4, 128, 8, 128, 11],
    [2, 1, 6, 5, 9, 8, 13, 12, 0, 0, 4, 4, 128, 8, 11, 11],
    [2, 1, 6, 5, 10, 9, 12, 128, 0, 0, 4, 4, 8, 8, 128, 128],
    [2, 1, 6, 5, 10, 9, 13, 12, 0, 0, 4, 4, 8, 8, 128, 12],
    [2, 1, 6, 5, 10, 9, 14, 13, 0, 0, 4, 4, 8, 8, 12, 12],
];

/// What lane `lane` of the descriptor for shape `(a, b, c, d)` holds:
/// the byte index of the digit that lane carries, or the miss sentinel
/// where the group is too short to reach that digit place.
pub open spec fn canon_entry(a: int, b: int, c: int, d: int, lane: int) -> int {
    let g = if lane < 8 { lane / 2 } else { (lane - 8) / 2 };
    let l = if g == 0 { a } else if g == 1 { b } else if g == 2 { c } else { d };
    let start = if g == 0 { 0 } else if g == 1 { a + 1 } else if g == 2 { a + b + 2 } else { a + b + c + 3 };
    let end = start + l;
    if lane < 8 {
        if lane % 2 == 0 { end - 1 } else if l >= 2 { end - 2 } else { MISS as int }
    } else {
        if lane % 2 == 0 { if l == 3 { start } else { MISS as int } } else if l >= 2 { start } else { MISS as int }
    }
}

/// The tables route shape `(a, b, c, d)` to its canonical descriptor.
pub open spec fn table_covers(a: int, b: int, c: int, d: int) -> bool {
    let h = spec_hash(shape_mask(a, b, c, d));
    &&& 0 <= h < 256
    &&& PATTERNS_ID[h] < 81
    &&& forall|lane: int|
        0 <= lane < 16 ==> PATTERNS[PATTERNS_ID[h] as int][lane] == canon_entry(a, b, c, d, lane)
}

proof fn lemma_patterns_cover_1_1(c: int, d: int)
    requires
        1 <= c <= 3,
        1 <= d <= 3,
    ensures
        table_covers(1, 1, c, d),
{
    lemma2_to64();
    reveal_with_fuel(mask_rec, 17);
    if c == 1 && d == 1 {
        assert(shape_mask(1, 1, 1, 1) == 170);
        assert(spec_hash(170) == 137);
        assert(PATTERNS_ID[137] == 0);
        assert(forall|lane: int|
            0 <= lane < 16 ==> PATTERNS[0][lane] == canon_entry(1, 1, 1, 1, lane));
    } else if c == 1 && d == 2 {
        assert(shape_mask(1, 1, 1, 2) == 298);
        assert(spec_hash(298) == 241);
        assert(PATTERNS_ID[241] == 1);
        assert(forall|lane: int|
            0 <= lane < 16 ==> PATTERNS[1][lane] == canon_entry(1, 1, 1, 2, lane));
    } else if c == 1 && d == 3 {
        assert(shape_mask(1, 1, 1, 3) == 554);
        assert(spec_hash(554) == 192);
        assert(PATTERNS_ID[192] == 2);
        assert(forall|lane: int|
            0 <= lane < 16 ==> PATTERNS[2][lane] == canon_entry(1, 1, 1, 3, lane));
    } else if c == 2 && d == 1 {
        assert(shape_mask(1, 1, 2, 1) == 330);
        assert(spec_hash(330) == 11);
        assert(PATTERNS_ID[11] == 3);
        assert(forall|lane: int|
            0 <= lane < 16 ==> PATTERNS[3][lane] == canon_entry(1, 1, 2, 1, lane));
    } else if c == 2 && d == 2 {
        assert(shape_mask(1, 1, 2, 2) == 586);
        assert(spec_hash(586) == 218);
        assert(PATTERNS_ID[218] == 4);
        assert(forall|lane: int|
            0 <= lane < 16 ==> PATTERNS[4][lane] == canon_entry(1, 1, 2, 2, lane));
    } else if c == 2 && d == 3 {
        assert(shape_mask(1, 1, 2, 3) == 1098);
        assert(spec_hash(1098) == 121);
        assert(PATTERNS_ID[121] == 5);
        assert(forall|lane: int|
            0 <= lane < 16 ==> PATTERNS[5][lane] == canon_entry(1, 1, 2, 3, lane));
    } else if c == 3 && d == 1 {
        assert(shape_mask(1, 1, 3, 1) == 650);
        assert(spec_hash(650) == 14);
        assert(PATTERNS_ID[14] == 6);
        assert(forall|lane: int|
            0 <= lane < 16 ==> PATTERNS[6][lane] == canon_entry(1, 1, 3, 1, lane));
    } else if c == 3 && d == 2 {
        assert(shape_mask(1, 1, 3, 2) == 1162);
        assert(spec_hash(1162) == 173);
        assert(PATTERNS_ID[173] == 7);
        assert(forall|lane: int|
            0 <= lane < 16 ==> PATTERNS[7][lane] == canon_entry(1, 1, 3, 2, lane));
    } else if c == 3 && d == 3 {
        assert(shape_mask(1, 1, 3, 3) == 2186);
        assert(spec_hash(2186) == 235);
        assert(PATTERNS_ID[235] == 8);
        assert(forall|lane: int|
            0 <= lane < 16 ==> PATTERNS[8][lane] == canon_entry(1, 1, 3, 3, lane));
    }
}

proof fn lemma_patterns_cover_1_2(c: int, d: int)
    requires
        1 <= c <= 3,
        1 <= d <= 3,
    ensures
        table_covers(1, 2, c, d),
{
    lemma2_to64();
    reveal_with_fuel(mask_rec, 17);
    if c == 1 && d == 1 {
        assert(shape_mask(1, 2, 1, 1) == 338);
        assert(spec_hash(338) == 17);
        assert(PATTERNS_ID[17] == 9);
        assert(forall|lane: int|
            0 <= lane < 16 ==> PATTERNS[9][lane] == canon_entry(1, 2, 1, 1, lane));
    } else if c == 1 && d == 2 {
        assert(shape_mask(1, 2, 1, 2) == 594);
        assert(spec_hash(594) == 225);
        assert(PATTERNS_ID[225] == 10);
        assert(forall|lane: int|
            0 <= lane < 16 ==> PATTERNS[10][lane] == canon_entry(1, 2, 1, 2, lane));
    } else if c == 1 && d == 3 {
        assert(shape_mask(1, 2, 1, 3) == 1106);
        assert(spec_hash(1106) == 128);
        assert(PATTERNS_ID[128] == 11);
        assert(forall|lane: int|
            0 <= lane < 16 ==> PATTERNS[11][lane] == canon_entry(1, 2, 1, 3, lane));
    } else if c == 2 && d == 1 {
        assert(shape_mask(1, 2, 2, 1) == 658);
        assert(spec_hash(658) == 21);
        assert(PATTERNS_ID[21] == 12);
        assert(forall|lane: int|
            0 <= lane < 16 ==> PATTERNS[12][lane] == canon_entry(1, 2, 2, 1, lane));
    } else if c == 2 && d == 2 {
        assert(shape_mask(1, 2, 2, 2) == 1170);
        assert(spec_hash(1170) == 180);
        assert(PATTERNS_ID[180] == 13);
        assert(forall|lane: int|
            0 <= lane < 16 ==> PATTERNS[13][lane] == canon_entry(1, 2, 2, 2, lane));
    } else if c == 2 && d == 3 {
        assert(shape_mask(1, 2, 2, 3) == 2194);
        assert(spec_hash(2194) == 242);
        assert(PATTERNS_ID[242] == 14);
        assert(forall|lane: int|
            0 <= lane < 16 ==> PATTERNS[14][lane] == canon_entry(1, 2, 2, 3, lane));
    } else if c == 3 && d == 1 {
        assert(shape_mask(1, 2, 3, 1) == 1298);
        assert(spec_hash(1298) == 27);
        assert(PATTERNS_ID[27] == 15);
        assert(forall|lane: int|
            0 <= lane < 16 ==> PATTERNS[15][lane] == canon_entry(1, 2, 3, 1, lane));
    } else if c == 3 && d == 2 {
        assert(shape_mask(1, 2, 3, 2) == 2322);
        assert(spec_hash(2322) == 89);
        assert(PATTERNS_ID[89] == 16);
        assert(forall|lane: int|
            0 <= lane < 16 ==> PATTERNS[16][lane] == canon_entry(1, 2, 3, 2, lane));
    } else if c == 3 && d == 3 {
        assert(shape_mask(1, 2, 3, 3) == 4370);
        assert(spec_hash(4370) == 213);
        assert(PATTERNS_ID[213] == 17);
        assert(forall|lane: int|
            0 <= lane < 16 ==> PATTERNS[17][lane] == canon_entry(1, 2, 3, 3, lane));
    }
}

proof fn lemma_patterns_cover_1_3(c: int, d: int)
    requires
        1 <= c <= 3,
        1 <= d <= 3,
    ensures
        table_covers(1, 3, c, d),
{
    lemma2_to64();
    reveal_with_fuel(mask_rec, 17);
    if c == 1 && d == 1 {
        assert(shape_mask(1, 3, 1, 1) == 674);
        assert(spec_hash(674) == 34);
        assert(PATTERNS_ID[34] == 18);
        assert(forall|lane: int|
            0 <= lane < 16 ==> PATTERNS[18][lane] == canon_entry(1, 3, 1, 1, lane));
    } else if c == 1 && d == 2 {
        assert(shape_mask(1, 3, 1, 2) == 1186);
        assert(spec_hash(1186) == 193);
        assert(PATTERNS_ID[193] == 19);
        assert(forall|lane: int|
            0 <= lane < 16 ==> PATTERNS[19][lane] == canon_entry(1, 3, 1, 2, lane));
    } else if c == 1 && d == 3 {
        assert(shape_mask(1, 3, 1, 3) == 2210);
        assert(spec_hash(2210) == 255);
        assert(PATTERNS_ID[255] == 20);
        assert(forall|lane: int|
            0 <= lane < 16 ==> PATTERNS[20][lane] == canon_entry(1, 3, 1, 3, lane));
    } else if c == 2 && d == 1 {
        assert(shape_mask(1, 3, 2, 1) == 1314);
        assert(spec_hash(1314) == 40);
        assert(PATTERNS_ID[40] == 21);
        assert(forall|lane: int|
            0 <= lane < 16 ==> PATTERNS[21][lane] == canon_entry(1, 3, 2, 1, lane));
    } else if c == 2 && d == 2 {
        assert(shape_mask(1, 3, 2, 2) == 2338);
        assert(spec_hash(2338) == 102);
        assert(PATTERNS_ID[102] == 22);
        assert(forall|lane: int|
            0 <= lane < 16 ==> PATTERNS[22][lane] == canon_entry(1, 3, 2, 2, lane));
    } else if c == 2 && d == 3 {
        assert(shape_mask(1, 3, 2, 3) == 4386);
        assert(spec_hash(4386) == 226);
        assert(PATTERNS_ID[226] == 23);
        assert(forall|lane: int|
            0 <= lane < 16 ==> PATTERNS[23][lane] == canon_entry(1, 3, 2, 3, lane));
    } else if c == 3 && d == 1 {
        assert(shape_mask(1, 3, 3, 1) == 2594);
        assert(spec_hash(2594) == 54);
        assert(PATTERNS_ID[54] == 24);
        assert(forall|lane: int|
            0 <= lane < 16 ==> PATTERNS[24][lane] == canon_entry(1, 3, 3, 1, lane));
    } else if c == 3 && d == 2 {
        assert(shape_mask(1, 3, 3, 2) == 4642);
        assert(spec_hash(4642) == 177);
        assert(PATTERNS_ID[177] == 25);
        assert(forall|lane: int|
            0 <= lane < 16 ==> PATTERNS[25][lane] == canon_entry(1, 3, 3, 2, lane));
    } else if c == 3 && d == 3 {
        assert(shape_mask(1, 3, 3, 3) == 8738);
        assert(spec_hash(8738) == 169);
        assert(PATTERNS_ID[169] == 26);
        assert(forall|lane: int|
            0 <= lane < 16 ==> PATTERNS[26][lane] == canon_entry(1, 3, 3, 3, lane));
    }
}

proof fn lemma_patterns_cover_2_1(c: int, d: int)
    requires
        1 <= c <= 3,
        1 <= d <= 3,
    ensures
        table_covers(2, 1, c, d),
{
    lemma2_to64();
    reveal_with_fuel(mask_rec, 17);
    if c == 1 && d == 1 {
        assert(shape_mask(2, 1, 1, 1) == 340);
        assert(spec_hash(340) == 19);
        assert(PATTERNS_ID[19] == 27);
        assert(forall|lane: int|
            0 <= lane < 16 ==> PATTERNS[27][lane] == canon_entry(2, 1, 1, 1, lane));
    } else if c == 1 && d == 2 {
        assert(shape_mask(2, 1, 1, 2) == 596);
        assert(spec_hash(596) == 227);
        assert(PATTERNS_ID[227] == 28);
        assert(forall|lane: int|
            0 <= lane < 16 ==> PATTERNS[28][lane] == canon_entry(2, 1, 1, 2, lane));
    } else if c == 1 && d == 3 {
        assert(shape_mask(2, 1, 1, 3) == 1108);
        assert(spec_hash(1108) == 129);
        assert(PATTERNS_ID[129] == 29);
        assert(forall|lane: int|
            0 <= lane < 16 ==> PATTERNS[29][lane] == canon_entry(2, 1, 1, 3, lane));
    } else if c == 2 && d == 1 {
        assert(shape_mask(2, 1, 2, 1) == 660);
        assert(spec_hash(660) == 22);
        assert(PATTERNS_ID[22] == 30);
        assert(forall|lane: int|
            0 <= lane < 16 ==> PATTERNS[30][lane] == canon_entry(2, 1, 2, 1, lane));
    } else if c == 2 && d == 2 {
        assert(shape_mask(2, 1, 2, 2) == 1172);
        assert(spec_hash(1172) == 181);
        assert(PATTERNS_ID[181] == 31);
        assert(forall|lane: int|
            0 <= lane < 16 ==> PATTERNS[31][lane] == canon_entry(2, 1, 2, 2, lane));
    } else if c == 2 && d == 3 {
        assert(shape_mask(2, 1, 2, 3) == 2196);
        assert(spec_hash(2196) == 243);
        assert(PATTERNS_ID[243] == 32);
        assert(forall|lane: int|
            0 <= lane < 16 ==> PATTERNS[32][lane] == canon_entry(2, 1, 2, 3, lane));
    } else if c == 3 && d == 1 {
        assert(shape_mask(2, 1, 3, 1) == 1300);
        assert(spec_hash(1300) == 29);
        assert(PATTERNS_ID[29] == 33);
        assert(forall|lane: int|
            0 <= lane < 16 ==> PATTERNS[33][lane] == canon_entry(2, 1, 3, 1, lane));
    } else if c == 3 && d == 2 {
        assert(shape_mask(2, 1, 3, 2) == 2324);
        assert(spec_hash(2324) == 91);
        assert(PATTERNS_ID[91] == 34);
        assert(forall|lane: int|
            0 <= lane < 16 ==> PATTERNS[34][lane] == canon_entry(2, 1, 3, 2, lane));
    } else if c == 3 && d == 3 {
        assert(shape_mask(2, 1, 3, 3) == 4372);
        assert(spec_hash(4372) == 215);
        assert(PATTERNS_ID[215] == 35);
        assert(forall|lane: int|
            0 <= lane < 16 ==> PATTERNS[35][lane] == canon_entry(2, 1, 3, 3, lane));
    }
}

proof fn lemma_patterns_cover_2_2(c: int, d: int)
    requires
        1 <= c <= 3,
        1 <= d <= 3,
    ensures
        table_covers(2, 2, c, d),
{
    lemma2_to64();
    reveal_with_fuel(mask_rec, 17);
    if c == 1 && d == 1 {
        assert(shape_mask(2, 2, 1, 1) == 676);
        assert(spec_hash(676) == 35);
        assert(PATTERNS_ID[35] == 36);
        assert(forall|lane: int|
            0 <= lane < 16 ==> PATTERNS[36][lane] == canon_entry(2, 2, 1, 1, lane));
    } else if c == 1 && d == 2 {
        assert(shape_mask(2, 2, 1, 2) == 1188);
        assert(spec_hash(1188) == 194);
        assert(PATTERNS_ID[194] == 37);
        assert(forall|lane: int|
            0 <= lane < 16 ==> PATTERNS[37][lane] == canon_entry(2, 2, 1, 2, lane));
    } else if c == 1 && d == 3 {
        assert(shape_mask(2, 2, 1, 3) == 2212);
        assert(spec_hash(2212) == 0);
        assert(PATTERNS_ID[0] == 38);
        assert(forall|lane: int|
            0 <= lane < 16 ==> PATTERNS[38][lane] == canon_entry(2, 2, 1, 3, lane));
    } else if c == 2 && d == 1 {
        assert(shape_mask(2, 2, 2, 1) == 1316);
        assert(spec_hash(1316) == 42);
        assert(PATTERNS_ID[42] == 39);
        assert(forall|lane: int|
            0 <= lane < 16 ==> PATTERNS[39][lane] == canon_entry(2, 2, 2, 1, lane));
    } else if c == 2 && d == 2 {
        assert(shape_mask(2, 2, 2, 2) == 2340);
        assert(spec_hash(2340) == 104);
        assert(PATTERNS_ID[104] == 40);
        assert(forall|lane: int|
            0 <= lane < 16 ==> PATTERNS[40][lane] == canon_entry(2, 2, 2, 2, lane));
    } else if c == 2 && d == 3 {
        assert(shape_mask(2, 2, 2, 3) == 4388);
        assert(spec_hash(4388) == 228);
        assert(PATTERNS_ID[228] == 41);
        assert(forall|lane: int|
            0 <= lane < 16 ==> PATTERNS[41][lane] == canon_entry(2, 2, 2, 3, lane));
    } else if c == 3 && d == 1 {
        assert(shape_mask(2, 2, 3, 1) == 2596);
        assert(spec_hash(2596) == 55);
        assert(PATTERNS_ID[55] == 42);
        assert(forall|lane: int|
            0 <= lane < 16 ==> PATTERNS[42][lane] == canon_entry(2, 2, 3, 1, lane));
    } else if c == 3 && d == 2 {
        assert(shape_mask(2, 2, 3, 2) == 4644);
        assert(spec_hash(4644) == 179);
        assert(PATTERNS_ID[179] == 43);
        assert(forall|lane: int|
            0 <= lane < 16 ==> PATTERNS[43][lane] == canon_entry(2, 2, 3, 2, lane));
    } else if c == 3 && d == 3 {
        assert(shape_mask(2, 2, 3, 3) == 8740);
        assert(spec_hash(8740) == 171);
        assert(PATTERNS_ID[171] == 44);
        assert(forall|lane: int|
            0 <= lane < 16 ==> PATTERNS[44][lane] == canon_entry(2, 2, 3, 3, lane));
    }
}

proof fn lemma_patterns_cover_2_3(c: int, d: int)
    requires
        1 <= c <= 3,
        1 <= d <= 3,
    ensures
        table_covers(2, 3, c, d),
{
    lemma2_to64();
    reveal_with_fuel(mask_rec, 17);
    if c == 1 && d == 1 {
        assert(shape_mask(2, 3, 1, 1) == 1348);
        assert(spec_hash(1348) == 68);
        assert(PATTERNS_ID[68] == 45);
        assert(forall|lane: int|
            0 <= lane < 16 ==> PATTERNS[45][lane] == canon_entry(2, 3, 1, 1, lane));
    } else if c == 1 && d == 2 {
        assert(shape_mask(2, 3, 1, 2) == 2372);
        assert(spec_hash(2372) == 130);
        assert(PATTERNS_ID[130] == 46);
        assert(forall|lane: int|
            0 <= lane < 16 ==> PATTERNS[46][lane] == canon_entry(2, 3, 1, 2, lane));
    } else if c == 1 && d == 3 {
        assert(shape_mask(2, 3, 1, 3) == 4420);
        assert(spec_hash(4420) == 254);
        assert(PATTERNS_ID[254] == 47);
        assert(forall|lane: int|
            0 <= lane < 16 ==> PATTERNS[47][lane] == canon_entry(2, 3, 1, 3, lane));
    } else if c == 2 && d == 1 {
        assert(shape_mask(2, 3, 2, 1) == 2628);
        assert(spec_hash(2628) == 81);
        assert(PATTERNS_ID[81] == 48);
        assert(forall|lane: int|
            0 <= lane < 16 ==> PATTERNS[48][lane] == canon_entry(2, 3, 2, 1, lane));
    } else if c == 2 && d == 2 {
        assert(shape_mask(2, 3, 2, 2) == 4676);
        assert(spec_hash(4676) == 205);
        assert(PATTERNS_ID[205] == 49);
        assert(forall|lane: int|
            0 <= lane < 16 ==> PATTERNS[49][lane] == canon_entry(2, 3, 2, 2, lane));
    } else if c == 2 && d == 3 {
        assert(shape_mask(2, 3, 2, 3) == 8772);
        assert(spec_hash(8772) == 197);
        assert(PATTERNS_ID[197] == 50);
        assert(forall|lane: int|
            0 <= lane < 16 ==> PATTERNS[50][lane] == canon_entry(2, 3, 2, 3, lane));
    } else if c == 3 && d == 1 {
        assert(shape_mask(2, 3, 3, 1) == 5188);
        assert(spec_hash(5188) == 108);
        assert(PATTERNS_ID[108] == 51);
        assert(forall|lane: int|
            0 <= lane < 16 ==> PATTERNS[51][lane] == canon_entry(2, 3, 3, 1, lane));
    } else if c == 3 && d == 2 {
        assert(shape_mask(2, 3, 3, 2) == 9284);
        assert(spec_hash(9284) == 99);
        assert(PATTERNS_ID[99] == 52);
        assert(forall|lane: int|
            0 <= lane < 16 ==> PATTERNS[52][lane] == canon_entry(2, 3, 3, 2, lane));
    } else if c == 3 && d == 3 {
        assert(shape_mask(2, 3, 3, 3) == 17476);
        assert(spec_hash(17476) == 82);
        assert(PATTERNS_ID[82] == 53);
        assert(forall|lane: int|
            0 <= lane < 16 ==> PATTERNS[53][lane] == canon_entry(2, 3, 3, 3, lane));
    }
}

proof fn lemma_patterns_cover_3_1(c: int, d: int)
    requires
        1 <= c <= 3,
        1 <= d <= 3,
    ensures
        table_covers(3, 1, c, d),
{
    lemma2_to64();
    reveal_with_fuel(mask_rec, 17);
    if c == 1 && d == 1 {
        assert(shape_mask(3, 1, 1, 1) == 680);
        assert(spec_hash(680) == 39);
        assert(PATTERNS_ID[39] == 54);
        assert(forall|lane: int|
            0 <= lane < 16 ==> PATTERNS[54][lane] == canon_entry(3, 1, 1, 1, lane));
    } else if c == 1 && d == 2 {
        assert(shape_mask(3, 1, 1, 2) == 1192);
        assert(spec_hash(1192) == 198);
        assert(PATTERNS_ID[198] == 55);
        assert(forall|lane: int|
            0 <= lane < 16 ==> PATTERNS[55][lane] == canon_entry(3, 1, 1, 2, lane));
    } else if c == 1 && d == 3 {
        assert(shape_mask(3, 1, 1, 3) == 2216);
        assert(spec_hash(2216) == 3);
        assert(PATTERNS_ID[3] == 56);
        assert(forall|lane: int|
            0 <= lane < 16 ==> PATTERNS[56][lane] == canon_entry(3, 1, 1, 3, lane));
    } else if c == 2 && d == 1 {
        assert(shape_mask(3, 1, 2, 1) == 1320);
        assert(spec_hash(1320) == 45);
        assert(PATTERNS_ID[45] == 57);
        assert(forall|lane: int|
            0 <= lane < 16 ==> PATTERNS[57][lane] == canon_entry(3, 1, 2, 1, lane));
    } else if c == 2 && d == 2 {
        assert(shape_mask(3, 1, 2, 2) == 2344);
        assert(spec_hash(2344) == 107);
        assert(PATTERNS_ID[107] == 58);
        assert(forall|lane: int|
            0 <= lane < 16 ==> PATTERNS[58][lane] == canon_entry(3, 1, 2, 2, lane));
    } else if c == 2 && d == 3 {
        assert(shape_mask(3, 1, 2, 3) == 4392);
        assert(spec_hash(4392) == 231);
        assert(PATTERNS_ID[231] == 59);
        assert(forall|lane: int|
            0 <= lane < 16 ==> PATTERNS[59][lane] == canon_entry(3, 1, 2, 3, lane));
    } else if c == 3 && d == 1 {
        assert(shape_mask(3, 1, 3, 1) == 2600);
        assert(spec_hash(2600) == 59);
        assert(PATTERNS_ID[59] == 60);
        assert(forall|lane: int|
            0 <= lane < 16 ==> PATTERNS[60][lane] == canon_entry(3, 1, 3, 1, lane));
    } else if c == 3 && d == 2 {
        assert(shape_mask(3, 1, 3, 2) == 4648);
        assert(spec_hash(4648) == 182);
        assert(PATTERNS_ID[182] == 61);
        assert(forall|lane: int|
            0 <= lane < 16 ==> PATTERNS[61][lane] == canon_entry(3, 1, 3, 2, lane));
    } else if c == 3 && d == 3 {
        assert(shape_mask(3, 1, 3, 3) == 8744);
        assert(spec_hash(8744) == 174);
        assert(PATTERNS_ID[174] == 62);
        assert(forall|lane: int|
            0 <= lane < 16 ==> PATTERNS[62][lane] == canon_entry(3, 1, 3, 3, lane));
    }
}

proof fn lemma_patterns_cover_3_2(c: int, d: int)
    requires
        1 <= c <= 3,
        1 <= d <= 3,
    ensures
        table_covers(3, 2, c, d),
{
    lemma2_to64();
    reveal_with_fuel(mask_rec, 17);
    if c == 1 && d == 1 {
        assert(shape_mask(3, 2, 1, 1) == 1352);
        assert(spec_hash(1352) == 71);
        assert(PATTERNS_ID[71] == 63);
        assert(forall|lane: int|
            0 <= lane < 16 ==> PATTERNS[63][lane] == canon_entry(3, 2, 1, 1, lane));
    } else if c == 1 && d == 2 {
        assert(shape_mask(3, 2, 1, 2) == 2376);
        assert(spec_hash(2376) == 133);
        assert(PATTERNS_ID[133] == 64);
        assert(forall|lane: int|
            0 <= lane < 16 ==> PATTERNS[64][lane] == canon_entry(3, 2, 1, 2, lane));
    } else if c == 1 && d == 3 {
        assert(shape_mask(3, 2, 1, 3) == 4424);
        assert(spec_hash(4424) == 1);
        assert(PATTERNS_ID[1] == 65);
        assert(forall|lane: int|
            0 <= lane < 16 ==> PATTERNS[65][lane] == canon_entry(3, 2, 1, 3, lane));
    } else if c == 2 && d == 1 {
        assert(shape_mask(3, 2, 2, 1) == 2632);
        assert(spec_hash(2632) == 85);
        assert(PATTERNS_ID[85] == 66);
        assert(forall|lane: int|
            0 <= lane < 16 ==> PATTERNS[66][lane] == canon_entry(3, 2, 2, 1, lane));
    } else if c == 2 && d == 2 {
        assert(shape_mask(3, 2, 2, 2) == 4680);
        assert(spec_hash(4680) == 208);
        assert(PATTERNS_ID[208] == 67);
        assert(forall|lane: int|
            0 <= lane < 16 ==> PATTERNS[67][lane] == canon_entry(3, 2, 2, 2, lane));
    } else if c == 2 && d == 3 {
        assert(shape_mask(3, 2, 2, 3) == 8776);
        assert(spec_hash(8776) == 200);
        assert(PATTERNS_ID[200] == 68);
        assert(forall|lane: int|
            0 <= lane < 16 ==> PATTERNS[68][lane] == canon_entry(3, 2, 2, 3, lane));
    } else if c == 3 && d == 1 {
        assert(shape_mask(3, 2, 3, 1) == 5192);
        assert(spec_hash(5192) == 111);
        assert(PATTERNS_ID[111] == 69);
        assert(forall|lane: int|
            0 <= lane < 16 ==> PATTERNS[69][lane] == canon_entry(3, 2, 3, 1, lane));
    } else if c == 3 && d == 2 {
        assert(shape_mask(3, 2, 3, 2) == 9288);
        assert(spec_hash(9288) == 103);
        assert(PATTERNS_ID[103] == 70);
        assert(forall|lane: int|
            0 <= lane < 16 ==> PATTERNS[70][lane] == canon_entry(3, 2, 3, 2, lane));
    } else if c == 3 && d == 3 {
        assert(shape_mask(3, 2, 3, 3) == 17480);
        assert(spec_hash(17480) == 86);
        assert(PATTERNS_ID[86] == 71);
        assert(forall|lane: int|
            0 <= lane < 16 ==> PATTERNS[71][lane] == canon_entry(3, 2, 3, 3, lane));
    }
}

proof fn lemma_patterns_cover_3_3(c: int, d: int)
    requires
        1 <= c <= 3,
        1 <= d <= 3,
    ensures
        table_covers(3, 3, c, d),
{
    lemma2_to64();
    reveal_with_fuel(mask_rec, 17);
    if c == 1 && d == 1 {
        assert(shape_mask(3, 3, 1, 1) == 2696);
        assert(spec_hash(2696) == 136);
        assert(PATTERNS_ID[136] == 72);
        assert(forall|lane: int|
            0 <= lane < 16 ==> PATTERNS[72][lane] == canon_entry(3, 3, 1, 1, lane));
    } else if c == 1 && d == 2 {
        assert(shape_mask(3, 3, 1, 2) == 4744);
        assert(spec_hash(4744) == 4);
        assert(PATTERNS_ID[4] == 73);
        assert(forall|lane: int|
            0 <= lane < 16 ==> PATTERNS[73][lane] == canon_entry(3, 3, 1, 2, lane));
    } else if c == 1 && d == 3 {
        assert(shape_mask(3, 3, 1, 3) == 8840);
        assert(spec_hash(8840) == 252);
        assert(PATTERNS_ID[252] == 74);
        assert(forall|lane: int|
            0 <= lane < 16 ==> PATTERNS[74][lane] == canon_entry(3, 3, 1, 3, lane));
    } else if c == 2 && d == 1 {
        assert(shape_mask(3, 3, 2, 1) == 5256);
        assert(spec_hash(5256) == 163);
        assert(PATTERNS_ID[163] == 75);
        assert(forall|lane: int|
            0 <= lane < 16 ==> PATTERNS[75][lane] == canon_entry(3, 3, 2, 1, lane));
    } else if c == 2 && d == 2 {
        assert(shape_mask(3, 3, 2, 2) == 9352);
        assert(spec_hash(9352) == 155);
        assert(PATTERNS_ID[155] == 76);
        assert(forall|lane: int|
            0 <= lane < 16 ==> PATTERNS[76][lane] == canon_entry(3, 3, 2, 2, lane));
    } else if c == 2 && d == 3 {
        assert(shape_mask(3, 3, 2, 3) == 17544);
        assert(spec_hash(17544) == 138);
        assert(PATTERNS_ID[138] == 77);
        assert(forall|lane: int|
            0 <= lane < 16 ==> PATTERNS[77][lane] == canon_entry(3, 3, 2, 3, lane));
    } else if c == 3 && d == 1 {
        assert(shape_mask(3, 3, 3, 1) == 10376);
        assert(spec_hash(10376) == 216);
        assert(PATTERNS_ID[216] == 78);
        assert(forall|lane: int|
            0 <= lane < 16 ==> PATTERNS[78][lane] == canon_entry(3, 3, 3, 1, lane));
    } else if c == 3 && d == 2 {
        assert(shape_mask(3, 3, 3, 2) == 18568);
        assert(spec_hash(18568) == 199);
        assert(PATTERNS_ID[199] == 79);
        assert(forall|lane: int|
            0 <= lane < 16 ==> PATTERNS[79][lane] == canon_entry(3, 3, 3, 2, lane));
    } else if c == 3 && d == 3 {
        assert(shape_mask(3, 3, 3, 3) == 34952);
        assert(spec_hash(34952) == 165);
        assert(PATTERNS_ID[165] == 80);
        assert(forall|lane: int|
            0 <= lane < 16 ==> PATTERNS[80][lane] == canon_entry(3, 3, 3, 3, lane));
    }
}

/// Table coverage for every one of the 81 shapes.
pub proof fn lemma_patterns_cover(a: int, b: int, c: int, d: int)
    requires
        crate::model::shape_ok(a, b, c, d),
    ensures
        table_covers(a, b, c, d),
{
    if a == 1 && b == 1 {
        lemma_patterns_cover_1_1(c, d);
    } else if a == 1 && b == 2 {
        lemma_patterns_cover_1_2(c, d);
    } else if a == 1 && b == 3 {
        lemma_patterns_cover_1_3(c, d);
    } else if a == 2 && b == 1 {
        lemma_patterns_cover_2_1(c, d);
    } else if a == 2 && b == 2 {
        lemma_patterns_cover_2_2(c, d);
    } else if a == 2 && b == 3 {
        lemma_patterns_cover_2_3(c, d);
    } else if a == 3 && b == 1 {
        lemma_patterns_cover_3_1(c, d);
    } else if a == 3 && b == 2 {
        lemma_patterns_cover_3_2(c, d);
    } else if a == 3 && b == 3 {
        lemma_patterns_cover_3_3(c, d);
    }
}

/// The hash is perfect on the valid shapes: no two distinct shapes share
/// a hash code.
pub proof fn lemma_hash_perfect(
    a1: int,
    b1: int,
    c1: int,
    d1: int,
    a2: int,
    b2: int,
    c2: int,
    d2: int,
)
    requires
        crate::model::shape_ok(a1, b1, c1, d1),
        crate::model::shape_ok(a2, b2, c2, d2),
        spec_hash(shape_mask(a1, b1, c1, d1)) == spec_hash(shape_mask(a2, b2, c2, d2)),
    ensures
        a1 == a2 && b1 == b2 && c1 == c2 && d1 == d2,
{
    lemma_patterns_cover(a1, b1, c1, d1);
    lemma_patterns_cover(a2, b2, c2, d2);
    let h = spec_hash(shape_mask(a1, b1, c1, d1));
    let id = PATTERNS_ID[h] as int;
    assert(PATTERNS[id][1] == canon_entry(a1, b1, c1, d1, 1));
    assert(PATTERNS[id][1] == canon_entry(a2, b2, c2, d2, 1));
    assert(PATTERNS[id][8] == canon_entry(a1, b1, c1, d1, 8));
    assert(PATTERNS[id][8] == canon_entry(a2, b2, c2, d2, 8));
    assert(a1 == a2);
    assert(PATTERNS[id][3] == canon_entry(a1, b1, c1, d1, 3));
    assert(PATTERNS[id][3] == canon_entry(a2, b2, c2, d2, 3));
    assert(PATTERNS[id][10] == canon_entry(a1, b1, c1, d1, 10));
    assert(PATTERNS[id][10] == canon_entry(a2, b2, c2, d2, 10));
    assert(b1 == b2);
    assert(PATTERNS[id][5] == canon_entry(a1, b1, c1, d1, 5));
    assert(PATTERNS[id][5] == canon_entry(a2, b2, c2, d2, 5));
    assert(PATTERNS[id][12] == canon_entry(a1, b1, c1, d1, 12));
    assert(PATTERNS[id][12] == canon_entry(a2, b2, c2, d2, 12));
    assert(c1 == c2);
    assert(PATTERNS[id][7] == canon_entry(a1, b1, c1, d1, 7));
    assert(PATTERNS[id][7] == canon_entry(a2, b2, c2, d2, 7));
    assert(PATTERNS[id][14] == canon_entry(a1, b1, c1, d1, 14));
    assert(PATTERNS[id][14] == canon_entry(a2, b2, c2, d2, 14));
    assert(d1 == d2);
}

} // verus!
