//! The portable 16-lane backend of the parser.
//!
//! Each stage of the pipeline — separator location, hash dispatch, lane
//! gather, validation and weighted summation — is written as a loop over a
//! fixed 16-element array, the scalar rendering of a 16-lane byte vector.
//! The dispatcher certifies only the shape of the input, so after the
//! descriptor is selected the backend re-derives the shape it encodes and
//! checks descriptor and bitmap against it; every later stage is then
//! proved against the canonical lane layout.

use vstd::prelude::*;

verus! {

use vstd::arithmetic::power2::pow2;
use vstd::arithmetic::power2::lemma2_to64;
use vstd::arithmetic::power2::lemma_pow2_unfold;
use vstd::arithmetic::power2::lemma_pow2_strictly_increases;
use crate::model::DOT;
use crate::model::DIGIT_ZERO;
use crate::model::DIGIT_NINE;
use crate::model::is_digit;
use crate::model::digit_val;
use crate::mask::mask_rec;
use crate::mask::dot_indicator;
use crate::mask::spec_dotmask;
use crate::mask::shape_mask;
use crate::mask::spec_hash;
use crate::mask::lemma_mask_rec_bound;
use crate::mask::lemma_mask_rec_step;
use crate::mask::lemma_shape_mask_value;
use crate::pattern::canon_entry;

/// Byte `i` of the 16-byte read window: the input byte, or zero past the
/// input's end.
pub open spec fn win_byte(s: Seq<u8>, i: int) -> u8 {
    if 0 <= i < s.len() {
        s[i]
    } else {
        0
    }
}

/// Copy the input into a zero-padded 16-byte window, so that no later
/// stage ever reads past the caller's bytes.
fn fill_window(s: &[u8]) -> (w: [u8; 16])
    requires
        s@.len() <= 15,
    ensures
        forall|i: int| 0 <= i < 16 ==> w@[i] == win_byte(s@, i),
{
    let mut w = [0u8; 16];
    let mut i: usize = 0;
    while i < s.len()
        invariant
            0 <= i <= s@.len() <= 15,
            w@.len() == 16,
            forall|j: int| 0 <= j < i ==> w@[j] == s@[j],
            forall|j: int| i <= j < 16 ==> w@[j] == 0,
        decreases s@.len() - i,
    {
        w[i] = s[i];
        i = i + 1;
    }
    w
}

/// Locate the separators: build the presence bitmap of the dot character,
/// one bit per input byte, with the guard bit forced on at the length.
fn locate_dots(s: &[u8]) -> (m: u16)
    requires
        s@.len() <= 15,
    ensures
        m == spec_dotmask(s@),
{
    let ghost f = dot_indicator(s@);
    let len = s.len();
    let mut acc: u16 = 0;
    let mut bit: u16 = 1;
    let mut i: usize = 0;
    proof {
        lemma2_to64();
    }
    while i < len
        invariant
            0 <= i <= len,
            len == s@.len() <= 15,
            bit == pow2(i as nat),
            acc == mask_rec(f, i as int),
            f == dot_indicator(s@),
        decreases len - i,
    {
        proof {
            lemma_mask_rec_bound(f, i as int);
            lemma2_to64();
            if i < 14 {
                lemma_pow2_strictly_increases(i as nat, 14);
            }
            lemma_pow2_unfold((i + 1) as nat);
        }
        if s[i] == DOT {
            acc = acc + bit;
        }
        bit = bit * 2;
        i = i + 1;
    }
    proof {
        lemma_mask_rec_bound(f, len as int);
        lemma2_to64();
        if (len as nat) < 15 {
            lemma_pow2_strictly_increases(len as nat, 15);
        }
        assert(mask_rec(f, len + 1) == mask_rec(f, len as int) + pow2(len as nat));
        lemma_mask_rec_step(f, len as int + 1, 16);
    }
    acc + bit
}

/// The multiplicative perfect hash of a separator bitmap, reduced to a
/// table slot.
fn hash_bitmap(m: u16) -> (h: usize)
    ensures
        h == spec_hash(m as int),
        h < 256,
{
    ((6639u32 * (m as u32)) / 8192 % 256) as usize
}

/// `pow2` on small exponents, for assembling an expected bitmap.
fn pow2_u16(e: usize) -> (r: u16)
    requires
        e <= 15,
    ensures
        r == pow2(e as nat),
{
    let mut r: u16 = 1;
    let mut j: usize = 0;
    proof {
        lemma2_to64();
    }
    while j < e
        invariant
            0 <= j <= e <= 15,
            r == pow2(j as nat),
        decreases e - j,
    {
        proof {
            lemma2_to64();
            if j < 14 {
                lemma_pow2_strictly_increases(j as nat, 14);
            }
            lemma_pow2_unfold((j + 1) as nat);
        }
        r = r * 2;
        j = j + 1;
    }
    r
}

/// The bitmap that an input of shape `(a, b, c, d)` must have produced:
/// three dots and the guard bit.
fn expected_mask(a: usize, b: usize, c: usize, d: usize) -> (m: u16)
    requires
        crate::model::shape_ok(a as int, b as int, c as int, d as int),
    ensures
        m == shape_mask(a as int, b as int, c as int, d as int),
{
    proof {
        lemma_shape_mask_value(a as int, b as int, c as int, d as int);
        lemma2_to64();
    }
    pow2_u16(a) + pow2_u16(a + b + 1) + pow2_u16(a + b + c + 2) + pow2_u16(a + b + c + d + 3)
}

/// Lane `lane` of the canonical descriptor for shape `(a, b, c, d)`.
fn canon_entry_exec(a: usize, b: usize, c: usize, d: usize, lane: usize) -> (r: u8)
    requires
        crate::model::shape_ok(a as int, b as int, c as int, d as int),
        lane < 16,
    ensures
        r as int == canon_entry(a as int, b as int, c as int, d as int, lane as int),
{
    let g = if lane < 8 {
        lane / 2
    } else {
        (lane - 8) / 2
    };
    let l = if g == 0 {
        a
    } else if g == 1 {
        b
    } else if g == 2 {
        c
    } else {
        d
    };
    let start = if g == 0 {
        0
    } else if g == 1 {
        a + 1
    } else if g == 2 {
        a + b + 2
    } else {
        a + b + c + 3
    };
    let end = start + l;
    if lane < 8 {
        if lane % 2 == 0 {
            (end - 1) as u8
        } else if l >= 2 {
            (end - 2) as u8
        } else {
            crate::pattern::MISS
        }
    } else {
        if lane % 2 == 0 {
            if l == 3 {
                start as u8
            } else {
                crate::pattern::MISS
            }
        } else if l >= 2 {
            start as u8
        } else {
            crate::pattern::MISS
        }
    }
}

/// Does the selected descriptor equal the canonical descriptor of the
/// shape it claims to encode?
fn descriptor_matches(pat: &[u8; 16], a: usize, b: usize, c: usize, d: usize) -> (ok: bool)
    requires
        crate::model::shape_ok(a as int, b as int, c as int, d as int),
    ensures
        ok <==> forall|lane: int|
            0 <= lane < 16 ==> pat@[lane] == canon_entry(a as int, b as int, c as int, d as int, lane),
{
    let mut lane: usize = 0;
    let mut ok = true;
    while lane < 16
        invariant
            0 <= lane <= 16,
            crate::model::shape_ok(a as int, b as int, c as int, d as int),
            ok <==> forall|l: int|
                0 <= l < lane ==> pat@[l] == canon_entry(a as int, b as int, c as int, d as int, l),
        decreases 16 - lane,
    {
        if pat[lane] != canon_entry_exec(a, b, c, d, lane) {
            ok = false;
        }
        lane = lane + 1;
    }
    ok
}

/// Rearrange the window's bytes into the descriptor's lane layout,
/// zero-filling every miss lane.
fn gather(w: &[u8; 16], pat: &[u8; 16]) -> (out: [u8; 16])
    ensures
        forall|lane: int|
            0 <= lane < 16 ==> out@[lane] == (if pat@[lane] < 16 {
                w@[pat@[lane] as int]
            } else {
                0u8
            }),
{
    let mut out = [0u8; 16];
    let mut lane: usize = 0;
    while lane < 16
        invariant
            0 <= lane <= 16,
            out@.len() == 16,
            forall|l: int|
                0 <= l < lane ==> out@[l] == (if pat@[l] < 16 {
                    w@[pat@[l] as int]
                } else {
                    0u8
                }),
            forall|l: int| lane <= l < 16 ==> out@[l] == 0,
        decreases 16 - lane,
    {
        let e = pat[lane];
        if e < 16 {
            out[lane] = w[e as usize];
        }
        lane = lane + 1;
    }
    out
}

/// One converted lane: a read lane must carry a digit and yields its
/// value, a miss lane yields zero.
pub open spec fn digit_lane_ok(p: u8, g: u8, v: u8) -> bool {
    if p < 16 {
        is_digit(g) && v == digit_val(g)
    } else {
        v == 0
    }
}

/// Canonicalize the gathered lanes to digit values 0..=9, rejecting any
/// read lane that does not hold an ASCII digit.
fn to_digits(gat: &[u8; 16], pat: &[u8; 16]) -> (r: Option<[u8; 16]>)
    ensures
        match r {
            Some(vals) => forall|l: int|
                0 <= l < 16 ==> #[trigger] digit_lane_ok(pat@[l], gat@[l], vals@[l]),
            None => exists|l: int| 0 <= l < 16 && pat@[l] < 16 && !is_digit(gat@[l]),
        },
{
    let mut vals = [0u8; 16];
    let mut lane: usize = 0;
    while lane < 16
        invariant
            0 <= lane <= 16,
            vals@.len() == 16,
            forall|l: int| 0 <= l < lane ==> #[trigger] digit_lane_ok(pat@[l], gat@[l], vals@[l]),
            forall|l: int| lane <= l < 16 ==> vals@[l] == 0,
        decreases 16 - lane,
    {
        let p = pat[lane];
        if p < 16 {
            let ch = gat[lane];
            if ch < DIGIT_ZERO || ch > DIGIT_NINE {
                return None;
            }
            vals[lane] = ch - DIGIT_ZERO;
        }
        lane = lane + 1;
    }
    Some(vals)
}

/// If a valid literal produced this bitmap, its shape is the one the
/// bitmap encodes.
proof fn lemma_valid_same_shape(s: Seq<u8>, a: int, b: int, c: int, d: int)
    requires
        crate::model::spec_valid(s),
        crate::model::shape_ok(a, b, c, d),
        spec_dotmask(s) == shape_mask(a, b, c, d),
    ensures
        crate::model::valid_shape(s, a, b, c, d),
{
    reveal(crate::model::spec_valid);
    let (a2, b2, c2, d2) = choose|a2: int, b2: int, c2: int, d2: int|
        crate::model::valid_shape(s, a2, b2, c2, d2);
    crate::mask::lemma_valid_dotmask(s, a2, b2, c2, d2);
    crate::mask::lemma_shape_mask_inj(a2, b2, c2, d2, a, b, c, d);
}

/// Every read lane of a canonical descriptor points at a digit position of
/// its literal.
proof fn lemma_canon_reads_digit(s: Seq<u8>, a: int, b: int, c: int, d: int, lane: int)
    requires
        crate::model::valid_shape(s, a, b, c, d),
        0 <= lane < 16,
        canon_entry(a, b, c, d, lane) < 16,
    ensures
        0 <= canon_entry(a, b, c, d, lane) < s.len(),
        is_digit(s[canon_entry(a, b, c, d, lane)]),
{
    let e = canon_entry(a, b, c, d, lane);
    let g = if lane < 8 {
        lane / 2
    } else {
        (lane - 8) / 2
    };
    if g == 0 {
        assert(0 <= e < a);
        assert(is_digit(s.subrange(0, a)[e]));
    } else if g == 1 {
        assert(a + 1 <= e < a + b + 1);
        assert(is_digit(s.subrange(a + 1, a + b + 1)[e - a - 1]));
    } else if g == 2 {
        assert(a + b + 2 <= e < a + b + c + 2);
        assert(is_digit(s.subrange(a + b + 2, a + b + c + 2)[e - a - b - 2]));
    } else {
        assert(a + b + c + 3 <= e < a + b + c + d + 3);
        assert(is_digit(s.subrange(a + b + c + 3, a + b + c + d + 3)[e - a - b - c - 3]));
    }
}

/// The lane that repeats a group's most significant digit never gathers
/// the digit zero from a valid literal: multi-digit groups have no leading
/// zero, and single-digit groups leave the lane zero-filled.
proof fn lemma_no_leading_zero(s: Seq<u8>, a: int, b: int, c: int, d: int, k: int, ch: u8)
    requires
        crate::model::valid_shape(s, a, b, c, d),
        0 <= k < 4,
        ch == (if canon_entry(a, b, c, d, 9 + 2 * k) < 16 {
            win_byte(s, canon_entry(a, b, c, d, 9 + 2 * k))
        } else {
            0u8
        }),
    ensures
        ch != DIGIT_ZERO,
{
    let l = if k == 0 {
        a
    } else if k == 1 {
        b
    } else if k == 2 {
        c
    } else {
        d
    };
    let start = if k == 0 {
        0
    } else if k == 1 {
        a + 1
    } else if k == 2 {
        a + b + 2
    } else {
        a + b + c + 3
    };
    if l >= 2 {
        assert(canon_entry(a, b, c, d, 9 + 2 * k) == start);
        assert(ch == s[start]);
        if k == 0 {
            assert(s.subrange(0, a)[0] != DIGIT_ZERO);
        } else if k == 1 {
            assert(s.subrange(a + 1, a + b + 1)[0] != DIGIT_ZERO);
        } else if k == 2 {
            assert(s.subrange(a + b + 2, a + b + c + 2)[0] != DIGIT_ZERO);
        } else {
            assert(s.subrange(a + b + c + 3, a + b + c + d + 3)[0] != DIGIT_ZERO);
        }
    } else {
        assert(canon_entry(a, b, c, d, 9 + 2 * k) == crate::pattern::MISS);
    }
}

/// The descriptor is, lane for lane, the canonical descriptor of shape
/// `(a, b, c, d)`.
pub open spec fn canon_all(pat: Seq<u8>, a: int, b: int, c: int, d: int) -> bool {
    forall|lane: int| 0 <= lane < 16 ==> pat[lane] == canon_entry(a, b, c, d, lane)
}

/// The gathered lanes hold exactly what the descriptor selects from the
/// zero-padded window over `s`.
pub open spec fn gathered_ok(s: Seq<u8>, pat: Seq<u8>, gat: Seq<u8>) -> bool {
    &&& pat.len() == 16
    &&& gat.len() == 16
    &&& forall|lane: int|
        0 <= lane < 16 ==> gat[lane] == (if pat[lane] < 16 {
            win_byte(s, pat[lane] as int)
        } else {
            0u8
        })
}

/// The group length a descriptor encodes at a tens and a hundreds lane:
/// one digit, plus one for each of the two lanes that is a read lane.
pub open spec fn derived_len(pat: Seq<u8>, tens: int, hund: int) -> int {
    1 + (if pat[tens] < 16 {
        1int
    } else {
        0int
    }) + (if pat[hund] < 16 {
        1int
    } else {
        0int
    })
}

/// The weighted digit sum of group `g` over the converted lanes.
pub open spec fn lane_sum(vals: Seq<u8>, g: int) -> int {
    vals[2 * g] + 10 * vals[2 * g + 1] + 100 * vals[8 + 2 * g]
}

/// An input too long to be a literal is not one.
proof fn lemma_reject_too_long(s: Seq<u8>)
    requires
        s.len() > 15,
    ensures
        !crate::model::spec_valid(s),
{
    reveal(crate::model::spec_valid);
    if crate::model::spec_valid(s) {
        let (a2, b2, c2, d2) = choose|a2: int, b2: int, c2: int, d2: int|
            crate::model::valid_shape(s, a2, b2, c2, d2);
        assert(s.len() == a2 + b2 + c2 + d2 + 3 <= 15);
    }
}

/// An input whose bitmap hashes to a rejection slot has no valid shape:
/// the tables route every valid shape to a descriptor.
proof fn lemma_reject_slot(s: Seq<u8>)
    requires
        s.len() <= 15,
        crate::pattern::PATTERNS_ID[spec_hash(spec_dotmask(s))] >= 81,
    ensures
        !crate::model::spec_valid(s),
{
    reveal(crate::model::spec_valid);
    if crate::model::spec_valid(s) {
        let (a2, b2, c2, d2) = choose|a2: int, b2: int, c2: int, d2: int|
            crate::model::valid_shape(s, a2, b2, c2, d2);
        crate::mask::lemma_valid_dotmask(s, a2, b2, c2, d2);
        crate::pattern::lemma_patterns_cover(a2, b2, c2, d2);
    }
}

/// For a valid input, the selected descriptor is canonical for the shape
/// re-derived from its own lanes, and the input's bitmap is that shape's.
proof fn lemma_dispatch_valid(s: Seq<u8>, pat: Seq<u8>, a: int, b: int, c: int, d: int)
    requires
        crate::model::spec_valid(s),
        pat == crate::pattern::PATTERNS[crate::pattern::PATTERNS_ID[spec_hash(
            spec_dotmask(s),
        )] as int]@,
        a == derived_len(pat, 1, 8),
        b == derived_len(pat, 3, 10),
        c == derived_len(pat, 5, 12),
        d == derived_len(pat, 7, 14),
    ensures
        canon_all(pat, a, b, c, d),
        spec_dotmask(s) == shape_mask(a, b, c, d),
        crate::model::valid_shape(s, a, b, c, d),
{
    reveal(crate::model::spec_valid);
    let (a2, b2, c2, d2) = choose|a2: int, b2: int, c2: int, d2: int|
        crate::model::valid_shape(s, a2, b2, c2, d2);
    crate::mask::lemma_valid_dotmask(s, a2, b2, c2, d2);
    crate::pattern::lemma_patterns_cover(a2, b2, c2, d2);
    assert(canon_all(pat, a2, b2, c2, d2));
    assert(pat[1] == canon_entry(a2, b2, c2, d2, 1));
    assert(pat[8] == canon_entry(a2, b2, c2, d2, 8));
    assert(a == a2);
    assert(pat[3] == canon_entry(a2, b2, c2, d2, 3));
    assert(pat[10] == canon_entry(a2, b2, c2, d2, 10));
    assert(b == b2);
    assert(pat[5] == canon_entry(a2, b2, c2, d2, 5));
    assert(pat[12] == canon_entry(a2, b2, c2, d2, 12));
    assert(c == c2);
    assert(pat[7] == canon_entry(a2, b2, c2, d2, 7));
    assert(pat[14] == canon_entry(a2, b2, c2, d2, 14));
    assert(d == d2);
}

/// A valid input never trips the leading-zero gate.
proof fn lemma_reject_leading_zero(
    s: Seq<u8>,
    a: int,
    b: int,
    c: int,
    d: int,
    pat: Seq<u8>,
    gat: Seq<u8>,
)
    requires
        s.len() <= 15,
        crate::model::shape_ok(a, b, c, d),
        canon_all(pat, a, b, c, d),
        spec_dotmask(s) == shape_mask(a, b, c, d),
        gathered_ok(s, pat, gat),
        gat[9] == DIGIT_ZERO || gat[11] == DIGIT_ZERO || gat[13] == DIGIT_ZERO || gat[15]
            == DIGIT_ZERO,
    ensures
        !crate::model::spec_valid(s),
{
    reveal(crate::model::spec_valid);
    if crate::model::spec_valid(s) {
        lemma_valid_same_shape(s, a, b, c, d);
        lemma_no_leading_zero(s, a, b, c, d, 0, gat[9]);
        lemma_no_leading_zero(s, a, b, c, d, 1, gat[11]);
        lemma_no_leading_zero(s, a, b, c, d, 2, gat[13]);
        lemma_no_leading_zero(s, a, b, c, d, 3, gat[15]);
    }
}

/// A valid input never leaves a non-digit in a read lane.
proof fn lemma_reject_nondigit(
    s: Seq<u8>,
    a: int,
    b: int,
    c: int,
    d: int,
    pat: Seq<u8>,
    gat: Seq<u8>,
)
    requires
        s.len() <= 15,
        crate::model::shape_ok(a, b, c, d),
        canon_all(pat, a, b, c, d),
        spec_dotmask(s) == shape_mask(a, b, c, d),
        gathered_ok(s, pat, gat),
        exists|l: int| 0 <= l < 16 && pat[l] < 16 && !is_digit(gat[l]),
    ensures
        !crate::model::spec_valid(s),
{
    reveal(crate::model::spec_valid);
    if crate::model::spec_valid(s) {
        lemma_valid_same_shape(s, a, b, c, d);
        let lane = choose|l: int| 0 <= l < 16 && pat[l] < 16 && !is_digit(gat[l]);
        lemma_canon_reads_digit(s, a, b, c, d, lane);
        assert(gat[lane] == win_byte(s, canon_entry(a, b, c, d, lane)));
    }
}

/// Once the shape, gather and digit stages have passed, each group of the
/// input reads back as digits whose weighted lane sum is its decimal
/// value.
proof fn lemma_group_sums(
    s: Seq<u8>,
    a: int,
    b: int,
    c: int,
    d: int,
    pat: Seq<u8>,
    gat: Seq<u8>,
    vals: Seq<u8>,
)
    requires
        s.len() <= 15,
        crate::model::shape_ok(a, b, c, d),
        canon_all(pat, a, b, c, d),
        spec_dotmask(s) == shape_mask(a, b, c, d),
        gathered_ok(s, pat, gat),
        vals.len() == 16,
        forall|l: int| 0 <= l < 16 ==> #[trigger] digit_lane_ok(pat[l], gat[l], vals[l]),
    ensures
        s.len() == a + b + c + d + 3,
        s[a] == DOT && s[a + b + 1] == DOT && s[a + b + c + 2] == DOT,
        crate::model::all_digits(s.subrange(0, a)),
        crate::model::all_digits(s.subrange(a + 1, a + b + 1)),
        crate::model::all_digits(s.subrange(a + b + 2, a + b + c + 2)),
        crate::model::all_digits(s.subrange(a + b + c + 3, a + b + c + d + 3)),
        crate::model::group_val(s.subrange(0, a)) == lane_sum(vals, 0),
        crate::model::group_val(s.subrange(a + 1, a + b + 1)) == lane_sum(vals, 1),
        crate::model::group_val(s.subrange(a + b + 2, a + b + c + 2)) == lane_sum(vals, 2),
        crate::model::group_val(s.subrange(a + b + c + 3, a + b + c + d + 3)) == lane_sum(vals, 3),
{
    crate::mask::lemma_mask_match(s, a, b, c, d);
    assert(digit_lane_ok(pat[0], gat[0], vals[0]));
    assert(digit_lane_ok(pat[1], gat[1], vals[1]));
    assert(digit_lane_ok(pat[8], gat[8], vals[8]));
    crate::model::lemma_group_value(s, 0, a, vals[0], vals[1], vals[8]);
    assert(digit_lane_ok(pat[2], gat[2], vals[2]));
    assert(digit_lane_ok(pat[3], gat[3], vals[3]));
    assert(digit_lane_ok(pat[10], gat[10], vals[10]));
    crate::model::lemma_group_value(s, a + 1, b, vals[2], vals[3], vals[10]);
    assert(digit_lane_ok(pat[4], gat[4], vals[4]));
    assert(digit_lane_ok(pat[5], gat[5], vals[5]));
    assert(digit_lane_ok(pat[12], gat[12], vals[12]));
    crate::model::lemma_group_value(s, a + b + 2, c, vals[4], vals[5], vals[12]);
    assert(digit_lane_ok(pat[6], gat[6], vals[6]));
    assert(digit_lane_ok(pat[7], gat[7], vals[7]));
    assert(digit_lane_ok(pat[14], gat[14], vals[14]));
    crate::model::lemma_group_value(s, a + b + c + 3, d, vals[6], vals[7], vals[14]);
}

/// A valid input never trips the per-group overflow gate.
proof fn lemma_reject_overflow(
    s: Seq<u8>,
    a: int,
    b: int,
    c: int,
    d: int,
    pat: Seq<u8>,
    gat: Seq<u8>,
    vals: Seq<u8>,
)
    requires
        s.len() <= 15,
        crate::model::shape_ok(a, b, c, d),
        canon_all(pat, a, b, c, d),
        spec_dotmask(s) == shape_mask(a, b, c, d),
        gathered_ok(s, pat, gat),
        vals.len() == 16,
        forall|l: int| 0 <= l < 16 ==> #[trigger] digit_lane_ok(pat[l], gat[l], vals[l]),
        lane_sum(vals, 0) > 255 || lane_sum(vals, 1) > 255 || lane_sum(vals, 2) > 255 || lane_sum(
            vals,
            3,
        ) > 255,
    ensures
        !crate::model::spec_valid(s),
{
    reveal(crate::model::spec_valid);
    if crate::model::spec_valid(s) {
        lemma_valid_same_shape(s, a, b, c, d);
        lemma_group_sums(s, a, b, c, d, pat, gat, vals);
    }
}

/// Every gate has passed: the input is a valid literal and its packed
/// value is the weighted lane sums assembled least-significant group
/// first.
proof fn lemma_accept(
    s: Seq<u8>,
    a: int,
    b: int,
    c: int,
    d: int,
    pat: Seq<u8>,
    gat: Seq<u8>,
    vals: Seq<u8>,
)
    requires
        s.len() <= 15,
        crate::model::shape_ok(a, b, c, d),
        canon_all(pat, a, b, c, d),
        spec_dotmask(s) == shape_mask(a, b, c, d),
        gathered_ok(s, pat, gat),
        vals.len() == 16,
        forall|l: int| 0 <= l < 16 ==> #[trigger] digit_lane_ok(pat[l], gat[l], vals[l]),
        gat[9] != DIGIT_ZERO && gat[11] != DIGIT_ZERO && gat[13] != DIGIT_ZERO && gat[15]
            != DIGIT_ZERO,
        lane_sum(vals, 0) <= 255 && lane_sum(vals, 1) <= 255 && lane_sum(vals, 2) <= 255
            && lane_sum(vals, 3) <= 255,
    ensures
        crate::model::spec_valid(s),
        crate::model::spec_value(s) == lane_sum(vals, 0) + 256 * lane_sum(vals, 1) + 65536
            * lane_sum(vals, 2) + 16777216 * lane_sum(vals, 3),
        0 <= crate::model::spec_value(s) <= 0xFFFF_FFFF,
{
    lemma_group_sums(s, a, b, c, d, pat, gat, vals);
    crate::model::lemma_group_val_nonneg(s.subrange(0, a));
    crate::model::lemma_group_val_nonneg(s.subrange(a + 1, a + b + 1));
    crate::model::lemma_group_val_nonneg(s.subrange(a + b + 2, a + b + c + 2));
    crate::model::lemma_group_val_nonneg(s.subrange(a + b + c + 3, a + b + c + d + 3));
    // no leading zero: the duplicate most-significant-digit lanes carry the
    // first byte of every multi-digit group
    if a >= 2 {
        assert(gat[9] == win_byte(s, canon_entry(a, b, c, d, 9)));
        assert(s.subrange(0, a)[0] == s[0]);
    }
    if b >= 2 {
        assert(gat[11] == win_byte(s, canon_entry(a, b, c, d, 11)));
        assert(s.subrange(a + 1, a + b + 1)[0] == s[a + 1]);
    }
    if c >= 2 {
        assert(gat[13] == win_byte(s, canon_entry(a, b, c, d, 13)));
        assert(s.subrange(a + b + 2, a + b + c + 2)[0] == s[a + b + 2]);
    }
    if d >= 2 {
        assert(gat[15] == win_byte(s, canon_entry(a, b, c, d, 15)));
        assert(s.subrange(a + b + c + 3, a + b + c + d + 3)[0] == s[a + b + c + 3]);
    }
    assert(crate::model::valid_shape(s, a, b, c, d));
    crate::model::lemma_value_unique(s, a, b, c, d);
}

/// The whole pipeline: locate the separators, dispatch on the perfect
/// hash, re-derive and check the shape the selected descriptor encodes,
/// gather the digit lanes, validate leading zeros, digits and group
/// ranges, and pack the four group values with the first group in the
/// least-significant byte.
#[verifier::rlimit(60)]
#[verifier::spinoff_prover]
pub(crate) fn inet_aton_impl(s: &[u8]) -> (r: Option<u32>)
    ensures
        r == crate::model::spec_parse(s@),
{
    if s.len() > 15 {
        proof {
            lemma_reject_too_long(s@);
        }
        return None;
    }
    let m = locate_dots(s);
    let h = hash_bitmap(m);
    let id = crate::pattern::PATTERNS_ID[h];
    if id >= 81 {
        proof {
            lemma_reject_slot(s@);
        }
        return None;
    }
    let pat: &[u8; 16] = &crate::pattern::PATTERNS[id as usize];
    // the shape the descriptor claims: a group is longer where its tens
    // and hundreds lanes are read lanes rather than misses
    let a: usize = 1 + (if pat[1] < 16 { 1 } else { 0 }) + (if pat[8] < 16 { 1 } else { 0 });
    let b: usize = 1 + (if pat[3] < 16 { 1 } else { 0 }) + (if pat[10] < 16 { 1 } else { 0 });
    let c: usize = 1 + (if pat[5] < 16 { 1 } else { 0 }) + (if pat[12] < 16 { 1 } else { 0 });
    let d: usize = 1 + (if pat[7] < 16 { 1 } else { 0 }) + (if pat[14] < 16 { 1 } else { 0 });
    let ghost ai = a as int;
    let ghost bi = b as int;
    let ghost ci = c as int;
    let ghost di = d as int;
    proof {
        assert(ai == derived_len(pat@, 1, 8));
        assert(bi == derived_len(pat@, 3, 10));
        assert(ci == derived_len(pat@, 5, 12));
        assert(di == derived_len(pat@, 7, 14));
    }
    let ok = descriptor_matches(pat, a, b, c, d);
    let em = expected_mask(a, b, c, d);
    if !ok || m != em {
        proof {
            if crate::model::spec_valid(s@) {
                lemma_dispatch_valid(s@, pat@, ai, bi, ci, di);
            }
        }
        return None;
    }
    proof {
        assert(canon_all(pat@, ai, bi, ci, di));
    }
    let w = fill_window(s);
    let gat = gather(&w, pat);
    proof {
        assert(gathered_ok(s@, pat@, gat@));
    }
    if gat[9] == DIGIT_ZERO || gat[11] == DIGIT_ZERO || gat[13] == DIGIT_ZERO || gat[15]
        == DIGIT_ZERO {
        proof {
            lemma_reject_leading_zero(s@, ai, bi, ci, di, pat@, gat@);
        }
        return None;
    }
    let vals = match to_digits(&gat, pat) {
        Some(v) => v,
        None => {
            proof {
                lemma_reject_nondigit(s@, ai, bi, ci, di, pat@, gat@);
            }
            return None;
        },
    };
    let s0: u16 = vals[0] as u16 + 10 * (vals[1] as u16) + 100 * (vals[8] as u16);
    let s1: u16 = vals[2] as u16 + 10 * (vals[3] as u16) + 100 * (vals[10] as u16);
    let s2: u16 = vals[4] as u16 + 10 * (vals[5] as u16) + 100 * (vals[12] as u16);
    let s3: u16 = vals[6] as u16 + 10 * (vals[7] as u16) + 100 * (vals[14] as u16);
    proof {
        assert(digit_lane_ok(pat@[0], gat@[0], vals@[0]) && digit_lane_ok(
            pat@[1],
            gat@[1],
            vals@[1],
        ) && digit_lane_ok(pat@[8], gat@[8], vals@[8]));
        assert(s0 == lane_sum(vals@, 0) && s1 == lane_sum(vals@, 1) && s2 == lane_sum(vals@, 2)
            && s3 == lane_sum(vals@, 3));
    }
    if s0 > 255 || s1 > 255 || s2 > 255 || s3 > 255 {
        proof {
            lemma_reject_overflow(s@, ai, bi, ci, di, pat@, gat@, vals@);
        }
        return None;
    }
    let r: u32 = s0 as u32 + 256 * (s1 as u32) + 65536 * (s2 as u32) + 16777216 * (s3 as u32);
    proof {
        lemma_accept(s@, ai, bi, ci, di, pat@, gat@, vals@);
        assert(r == crate::model::spec_value(s@));
    }
    Some(r)
}

} // verus!
