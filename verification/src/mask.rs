//! The separator bitmap and the perfect-hash code computed from it.
//!
//! Bit `i` of the bitmap records whether byte `i` of the input is the
//! separator; one guard bit is forced on at the input length, folding the
//! length into the bitmap.  The bitmap is modelled as a weighted sum of
//! powers of two over an indicator function, which keeps every proof in
//! ordinary arithmetic.

use vstd::prelude::*;

verus! {

use vstd::arithmetic::power2::pow2;
use vstd::arithmetic::power2::lemma_pow2_unfold;
use vstd::arithmetic::power2::lemma_pow2_pos;
use crate::model::DOT;

/// Sum of `pow2(i)` over all `i` in `[0, n)` where `f(i)` holds.
pub open spec fn mask_rec(f: spec_fn(int) -> bool, n: int) -> int
    decreases n,
{
    if n <= 0 {
        0
    } else {
        mask_rec(f, n - 1) + if f(n - 1) {
            pow2((n - 1) as nat) as int
        } else {
            0
        }
    }
}

/// Bit `i` of the separator bitmap of `s`: a dot at byte `i`, or the guard
/// bit at the input length.
pub open spec fn dot_indicator(s: Seq<u8>) -> spec_fn(int) -> bool {
    |i: int| (0 <= i < s.len() && s[i] == DOT) || i == s.len()
}

/// The separator bitmap of an input of at most 15 bytes.
pub open spec fn spec_dotmask(s: Seq<u8>) -> int {
    mask_rec(dot_indicator(s), 16)
}

/// Bit `i` of the bitmap every literal of shape `(a, b, c, d)` produces:
/// the three dot positions and the guard bit at the total length.
pub open spec fn shape_indicator(a: int, b: int, c: int, d: int) -> spec_fn(int) -> bool {
    |i: int| i == a || i == a + b + 1 || i == a + b + c + 2 || i == a + b + c + d + 3
}

/// The separator bitmap shared by all literals of shape `(a, b, c, d)`.
pub open spec fn shape_mask(a: int, b: int, c: int, d: int) -> int {
    mask_rec(shape_indicator(a, b, c, d), 16)
}

/// The multiplicative hash of a separator bitmap.
pub open spec fn spec_hash(m: int) -> int {
    (6639 * m) / 8192 % 256
}

pub proof fn lemma_mask_rec_bound(f: spec_fn(int) -> bool, n: int)
    requires
        n >= 0,
    ensures
        0 <= mask_rec(f, n) < pow2(n as nat),
    decreases n,
{
    if n == 0 {
        lemma_pow2_pos(0);
    } else {
        lemma_mask_rec_bound(f, n - 1);
        lemma_pow2_unfold(n as nat);
    }
}

/// Two indicator functions with the same bitmap agree below `n`: a bitmap
/// determines its bits.
pub proof fn lemma_mask_rec_inj(f: spec_fn(int) -> bool, g: spec_fn(int) -> bool, n: int)
    requires
        n >= 0,
        mask_rec(f, n) == mask_rec(g, n),
    ensures
        forall|i: int| 0 <= i < n ==> #[trigger] f(i) == g(i),
    decreases n,
{
    if n > 0 {
        lemma_mask_rec_bound(f, n - 1);
        lemma_mask_rec_bound(g, n - 1);
        assert(f(n - 1) == g(n - 1));
        lemma_mask_rec_inj(f, g, n - 1);
    }
}

/// Indicator functions that agree below `n` have the same bitmap.
pub proof fn lemma_mask_rec_ext(f: spec_fn(int) -> bool, g: spec_fn(int) -> bool, n: int)
    requires
        forall|i: int| 0 <= i < n ==> #[trigger] f(i) == g(i),
    ensures
        mask_rec(f, n) == mask_rec(g, n),
    decreases n,
{
    if n > 0 {
        lemma_mask_rec_ext(f, g, n - 1);
    }
}

/// Bits at or above `n` contribute nothing below `n`.
pub proof fn lemma_mask_rec_step(f: spec_fn(int) -> bool, m: int, n: int)
    requires
        0 <= m <= n,
        forall|i: int| m <= i < n ==> !#[trigger] f(i),
    ensures
        mask_rec(f, n) == mask_rec(f, m),
    decreases n,
{
    if n > m {
        lemma_mask_rec_step(f, m, n - 1);
    }
}

/// A valid literal's separator bitmap is exactly its shape's bitmap.
pub proof fn lemma_valid_dotmask(s: Seq<u8>, a: int, b: int, c: int, d: int)
    requires
        crate::model::valid_shape(s, a, b, c, d),
    ensures
        spec_dotmask(s) == shape_mask(a, b, c, d),
{
    let f = dot_indicator(s);
    let g = shape_indicator(a, b, c, d);
    assert forall|i: int| 0 <= i < 16 implies #[trigger] f(i) == g(i) by {
        lemma_valid_indicator(s, a, b, c, d, i);
    }
    lemma_mask_rec_ext(f, g, 16);
}

proof fn lemma_valid_indicator(s: Seq<u8>, a: int, b: int, c: int, d: int, i: int)
    requires
        crate::model::valid_shape(s, a, b, c, d),
        0 <= i < 16,
    ensures
        dot_indicator(s)(i) == shape_indicator(a, b, c, d)(i),
{
    let n = s.len() as int;
    if 0 <= i < n && !(i == a || i == a + b + 1 || i == a + b + c + 2) {
        // every position off the dots lies inside one of the four groups
        if i < a {
            assert(crate::model::is_digit(s.subrange(0, a)[i]));
        } else if i < a + b + 1 {
            assert(crate::model::is_digit(s.subrange(a + 1, a + b + 1)[i - a - 1]));
        } else if i < a + b + c + 2 {
            assert(crate::model::is_digit(s.subrange(a + b + 2, a + b + c + 2)[i - a - b - 2]));
        } else {
            assert(crate::model::is_digit(
                s.subrange(a + b + c + 3, a + b + c + d + 3)[i - a - b - c - 3],
            ));
        }
        assert(s[i] != DOT);
    }
}

/// A shape's bitmap written out: one power of two per dot and one for the
/// guard bit at the total length.
pub proof fn lemma_shape_mask_value(a: int, b: int, c: int, d: int)
    requires
        crate::model::shape_ok(a, b, c, d),
    ensures
        shape_mask(a, b, c, d) == pow2(a as nat) + pow2((a + b + 1) as nat) + pow2(
            (a + b + c + 2) as nat,
        ) + pow2((a + b + c + d + 3) as nat),
{
    let g = shape_indicator(a, b, c, d);
    let p0 = a;
    let p1 = a + b + 1;
    let p2 = a + b + c + 2;
    let t = a + b + c + d + 3;
    lemma_mask_rec_step(g, t + 1, 16);
    assert(mask_rec(g, t + 1) == mask_rec(g, t) + pow2(t as nat));
    lemma_mask_rec_step(g, p2 + 1, t);
    assert(mask_rec(g, p2 + 1) == mask_rec(g, p2) + pow2(p2 as nat));
    lemma_mask_rec_step(g, p1 + 1, p2);
    assert(mask_rec(g, p1 + 1) == mask_rec(g, p1) + pow2(p1 as nat));
    lemma_mask_rec_step(g, p0 + 1, p1);
    assert(mask_rec(g, p0 + 1) == mask_rec(g, p0) + pow2(p0 as nat));
    lemma_mask_rec_step(g, 0, p0);
}

/// Distinct shapes have distinct bitmaps.
pub proof fn lemma_shape_mask_inj(
    a1: int,
    b1: int,
    c1: int,
    d1: int,
    a2: int,
    b2: int,
    c2: int,
    d2: int,
)
    requires
        crate::model::shape_ok(a1, b1, c1, d1),
        crate::model::shape_ok(a2, b2, c2, d2),
        shape_mask(a1, b1, c1, d1) == shape_mask(a2, b2, c2, d2),
    ensures
        a1 == a2 && b1 == b2 && c1 == c2 && d1 == d2,
{
    let f = shape_indicator(a1, b1, c1, d1);
    let g = shape_indicator(a2, b2, c2, d2);
    lemma_mask_rec_inj(f, g, 16);
    assert(f(a1) == g(a1) && f(a2) == g(a2));
    assert(a1 == a2);
    assert(f(a1 + b1 + 1) == g(a1 + b1 + 1) && f(a2 + b2 + 1) == g(a2 + b2 + 1));
    assert(b1 == b2);
    assert(f(a1 + b1 + c1 + 2) == g(a1 + b1 + c1 + 2) && f(a2 + b2 + c2 + 2) == g(
        a2 + b2 + c2 + 2,
    ));
    assert(c1 == c2);
    assert(f(a1 + b1 + c1 + d1 + 3) == g(a1 + b1 + c1 + d1 + 3));
    assert(d1 == d2);
}

/// A bitmap that matches a shape's bitmap pins the input down: the length
/// is the shape's total length and the dots sit exactly after the first
/// three groups.
pub proof fn lemma_mask_match(s: Seq<u8>, a: int, b: int, c: int, d: int)
    requires
        s.len() <= 15,
        crate::model::shape_ok(a, b, c, d),
        spec_dotmask(s) == shape_mask(a, b, c, d),
    ensures
        s.len() == a + b + c + d + 3,
        s[a] == DOT,
        s[a + b + 1] == DOT,
        s[a + b + c + 2] == DOT,
        forall|i: int|
            0 <= i < s.len() && s[i] == DOT ==> (i == a || i == a + b + 1 || i == a + b + c + 2),
{
    let f = dot_indicator(s);
    let g = shape_indicator(a, b, c, d);
    let n = s.len() as int;
    let t = a + b + c + d + 3;
    lemma_mask_rec_inj(f, g, 16);
    assert(f(n) && g(t));
    assert(f(t));
    if t != n {
        assert(0 <= t < n && s[t as int] == DOT);
        assert(g(n));
        assert(n == a || n == a + b + 1 || n == a + b + c + 2);
        assert(false);
    }
    assert(f(a) && f(a + b + 1) && f(a + b + c + 2));
    assert forall|i: int|
        0 <= i < s.len() && s[i] == DOT implies (i == a || i == a + b + 1 || i
        == a + b + c + 2) by {
        assert(f(i) == g(i));
    }
}

} // verus!
