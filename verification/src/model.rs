//! The mathematical meaning of a dotted-decimal IPv4 literal.
//!
//! A byte sequence is a valid literal when it splits into exactly four
//! decimal groups separated by three dots, each group one to three digits
//! long, free of leading zeros, and no larger than 255.  The parsed value
//! packs the first group into the least-significant byte of a 32-bit word.

use vstd::prelude::*;

verus! {

/// ASCII code of the separator character '.'.
pub const DOT: u8 = 46;

/// ASCII code of the digit '0'.
pub const DIGIT_ZERO: u8 = 48;

/// ASCII code of the digit '9'.
pub const DIGIT_NINE: u8 = 57;

pub open spec fn is_digit(ch: u8) -> bool {
    DIGIT_ZERO <= ch && ch <= DIGIT_NINE
}

/// Numeric value of an ASCII digit.
pub open spec fn digit_val(ch: u8) -> int {
    ch - DIGIT_ZERO
}

/// Numeric value of a digit string, most significant digit first.
pub open spec fn group_val(g: Seq<u8>) -> int
    decreases g.len(),
{
    if g.len() == 0 {
        0
    } else {
        group_val(g.drop_last()) * 10 + digit_val(g.last())
    }
}

pub open spec fn all_digits(g: Seq<u8>) -> bool {
    forall|i: int| 0 <= i < g.len() ==> is_digit(#[trigger] g[i])
}

/// A well-formed decimal group: one to three digits, no leading zero in a
/// multi-digit group, value at most 255.
pub open spec fn group_ok(g: Seq<u8>) -> bool {
    &&& 1 <= g.len() <= 3
    &&& all_digits(g)
    &&& g.len() > 1 ==> g[0] != DIGIT_ZERO
    &&& group_val(g) <= 255
}

/// The four group lengths each lie in 1..=3.
pub open spec fn shape_ok(a: int, b: int, c: int, d: int) -> bool {
    &&& 1 <= a <= 3
    &&& 1 <= b <= 3
    &&& 1 <= c <= 3
    &&& 1 <= d <= 3
}

/// `s` is a dotted quad whose groups have lengths `a`, `b`, `c`, `d`:
/// dots stand exactly after each of the first three groups and every
/// group is well formed.
pub open spec fn valid_shape(s: Seq<u8>, a: int, b: int, c: int, d: int) -> bool {
    &&& shape_ok(a, b, c, d)
    &&& s.len() == a + b + c + d + 3
    &&& s[a] == DOT
    &&& s[a + b + 1] == DOT
    &&& s[a + b + c + 2] == DOT
    &&& group_ok(s.subrange(0, a))
    &&& group_ok(s.subrange(a + 1, a + b + 1))
    &&& group_ok(s.subrange(a + b + 2, a + b + c + 2))
    &&& group_ok(s.subrange(a + b + c + 3, a + b + c + d + 3))
}

/// `s` is a valid dotted-decimal IPv4 literal.
#[verifier::opaque]
pub open spec fn spec_valid(s: Seq<u8>) -> bool {
    exists|a: int, b: int, c: int, d: int| valid_shape(s, a, b, c, d)
}

/// The packed 32-bit value of a literal of the given shape: the first
/// group occupies the least-significant byte.
pub open spec fn value_of_shape(s: Seq<u8>, a: int, b: int, c: int, d: int) -> int {
    group_val(s.subrange(0, a)) + 256 * group_val(s.subrange(a + 1, a + b + 1)) + 65536 * group_val(
        s.subrange(a + b + 2, a + b + c + 2),
    ) + 16777216 * group_val(s.subrange(a + b + c + 3, a + b + c + d + 3))
}

/// The packed value of a valid literal.
#[verifier::opaque]
pub open spec fn spec_value(s: Seq<u8>) -> int {
    let (a, b, c, d) = choose|a: int, b: int, c: int, d: int| valid_shape(s, a, b, c, d);
    value_of_shape(s, a, b, c, d)
}

/// What parsing returns: the packed value of a valid literal, nothing
/// otherwise.
pub open spec fn spec_parse(s: Seq<u8>) -> Option<u32> {
    if spec_valid(s) {
        Some(spec_value(s) as u32)
    } else {
        None
    }
}

/// A digit is never the separator, so the dots of a valid literal are
/// recoverable: the shape of a literal is unique.
pub proof fn lemma_shape_unique(
    s: Seq<u8>,
    a1: int,
    b1: int,
    c1: int,
    d1: int,
    a2: int,
    b2: int,
    c2: int,
    d2: int,
)
    requires
        valid_shape(s, a1, b1, c1, d1),
        valid_shape(s, a2, b2, c2, d2),
    ensures
        a1 == a2 && b1 == b2 && c1 == c2 && d1 == d2,
{
    if a1 < a2 {
        assert(is_digit(s.subrange(0, a2)[a1]));
    }
    if a2 < a1 {
        assert(is_digit(s.subrange(0, a1)[a2]));
    }
    if b1 < b2 {
        assert(is_digit(s.subrange(a1 + 1, a1 + b2 + 1)[b1]));
    }
    if b2 < b1 {
        assert(is_digit(s.subrange(a1 + 1, a1 + b1 + 1)[b2]));
    }
    if c1 < c2 {
        assert(is_digit(s.subrange(a1 + b1 + 2, a1 + b1 + c2 + 2)[c1]));
    }
    if c2 < c1 {
        assert(is_digit(s.subrange(a1 + b1 + 2, a1 + b1 + c1 + 2)[c2]));
    }
}

/// The value of a well-formed group, written out for each group length.
pub proof fn lemma_group_val_small(g: Seq<u8>)
    requires
        1 <= g.len() <= 3,
    ensures
        g.len() == 1 ==> group_val(g) == digit_val(g[0]),
        g.len() == 2 ==> group_val(g) == 10 * digit_val(g[0]) + digit_val(g[1]),
        g.len() == 3 ==> group_val(g) == 100 * digit_val(g[0]) + 10 * digit_val(g[1]) + digit_val(
            g[2],
        ),
{
    reveal_with_fuel(group_val, 4);
    if g.len() == 1 {
        assert(g.drop_last() =~= Seq::<u8>::empty());
    } else if g.len() == 2 {
        assert(g.drop_last().drop_last() =~= Seq::<u8>::empty());
        assert(g.drop_last()[0] == g[0]);
    } else {
        assert(g.drop_last().drop_last().drop_last() =~= Seq::<u8>::empty());
        assert(g.drop_last().drop_last()[0] == g[0]);
        assert(g.drop_last()[0] == g[0]);
        assert(g.drop_last()[1] == g[1]);
    }
}

/// A valid literal's packed value is the one determined by its (unique)
/// shape.
pub proof fn lemma_value_unique(s: Seq<u8>, ga: int, gb: int, gc: int, gd: int)
    requires
        valid_shape(s, ga, gb, gc, gd),
    ensures
        spec_valid(s),
        spec_value(s) == value_of_shape(s, ga, gb, gc, gd),
{
    reveal(spec_valid);
    reveal(spec_value);
    assert(spec_valid(s));
    let (a, b, c, d) = choose|a: int, b: int, c: int, d: int| valid_shape(s, a, b, c, d);
    lemma_shape_unique(s, a, b, c, d, ga, gb, gc, gd);
}

/// A group read lane by lane: if the ones, tens and hundreds digit places
/// hold digit values (zero where the group is too short), the group is all
/// digits and its value is their weighted sum.
pub proof fn lemma_group_value(s: Seq<u8>, start: int, l: int, v_ones: u8, v_tens: u8, v_hund: u8)
    requires
        1 <= l <= 3,
        0 <= start,
        start + l <= s.len(),
        is_digit(s[start + l - 1]),
        v_ones == digit_val(s[start + l - 1]),
        l >= 2 ==> is_digit(s[start + l - 2]) && v_tens == digit_val(s[start + l - 2]),
        l == 1 ==> v_tens == 0,
        l == 3 ==> is_digit(s[start]) && v_hund == digit_val(s[start]),
        l < 3 ==> v_hund == 0,
    ensures
        all_digits(s.subrange(start, start + l)),
        group_val(s.subrange(start, start + l)) == 100 * v_hund + 10 * v_tens + v_ones,
{
    let g = s.subrange(start, start + l);
    assert(forall|i: int| 0 <= i < l ==> g[i] == s[start + i]);
    lemma_group_val_small(g);
}

/// A digit string's value is not negative.
pub proof fn lemma_group_val_nonneg(g: Seq<u8>)
    requires
        all_digits(g),
    ensures
        group_val(g) >= 0,
    decreases g.len(),
{
    if g.len() > 0 {
        assert(all_digits(g.drop_last())) by {
            assert(forall|i: int| 0 <= i < g.len() - 1 ==> g.drop_last()[i] == g[i]);
        }
        lemma_group_val_nonneg(g.drop_last());
        assert(is_digit(g[g.len() - 1]));
    }
}

} // verus!
