//! The laws of the parser, stated over the model: what must be rejected,
//! phrased without reference to the pipeline's own vocabulary.

use vstd::prelude::*;

verus! {

use crate::model::DOT;
use crate::model::DIGIT_ZERO;
use crate::model::is_digit;
use crate::model::group_val;
use crate::model::valid_shape;
use crate::model::spec_valid;
use crate::model::spec_parse;

/// `s` splits on exactly three dots at `i < j < k` into four non-empty
/// runs of digits (of any length).
pub open spec fn quad_split(s: Seq<u8>, i: int, j: int, k: int) -> bool {
    &&& 1 <= i
    &&& i + 1 < j
    &&& j + 1 < k
    &&& k + 1 < s.len()
    &&& s[i] == DOT
    &&& s[j] == DOT
    &&& s[k] == DOT
    &&& forall|p: int| 0 <= p < s.len() && p != i && p != j && p != k ==> is_digit(#[trigger] s[p])
}

/// Any input longer than 15 bytes parses to nothing.
pub proof fn lemma_too_long_rejected(s: Seq<u8>)
    requires
        s.len() > 15,
    ensures
        spec_parse(s) is None,
{
    reveal(spec_valid);
    if spec_valid(s) {
        let (a, b, c, d) = choose|a: int, b: int, c: int, d: int| valid_shape(s, a, b, c, d);
        assert(s.len() == a + b + c + d + 3 <= 15);
    }
}

/// Any input that is not exactly four non-empty decimal groups separated
/// by exactly three dots parses to nothing.
pub proof fn lemma_not_quad_rejected(s: Seq<u8>)
    requires
        !(exists|i: int, j: int, k: int| quad_split(s, i, j, k)),
    ensures
        spec_parse(s) is None,
{
    reveal(spec_valid);
    if spec_valid(s) {
        let (a, b, c, d) = choose|a: int, b: int, c: int, d: int| valid_shape(s, a, b, c, d);
        let i = a;
        let j = a + b + 1;
        let k = a + b + c + 2;
        assert forall|p: int|
            0 <= p < s.len() && p != i && p != j && p != k implies is_digit(#[trigger] s[p]) by {
            if p < a {
                assert(is_digit(s.subrange(0, a)[p]));
            } else if p < j {
                assert(is_digit(s.subrange(a + 1, a + b + 1)[p - a - 1]));
            } else if p < k {
                assert(is_digit(s.subrange(a + b + 2, a + b + c + 2)[p - a - b - 2]));
            } else {
                assert(is_digit(s.subrange(a + b + c + 3, a + b + c + d + 3)[p - a - b - c - 3]));
            }
        }
        assert(quad_split(s, i, j, k));
    }
}

/// A valid literal's dots are the unique quad split of its text.
proof fn lemma_split_is_shape(s: Seq<u8>, i: int, j: int, k: int, a: int, b: int, c: int, d: int)
    requires
        quad_split(s, i, j, k),
        valid_shape(s, a, b, c, d),
    ensures
        i == a,
        j == a + b + 1,
        k == a + b + c + 2,
{
    // the shape's dots must be among {i, j, k}: everything else is a digit
    assert(a == i || a == j || a == k);
    assert(a + b + 1 == i || a + b + 1 == j || a + b + 1 == k);
    assert(a + b + c + 2 == i || a + b + c + 2 == j || a + b + c + 2 == k);
    // and the quad split's dots lie on the shape's dots: a group byte is a digit
    if i != a && i != a + b + 1 && i != a + b + c + 2 {
        if i < a {
            assert(is_digit(s.subrange(0, a)[i]));
        } else if i < a + b + 1 {
            assert(is_digit(s.subrange(a + 1, a + b + 1)[i - a - 1]));
        } else if i < a + b + c + 2 {
            assert(is_digit(s.subrange(a + b + 2, a + b + c + 2)[i - a - b - 2]));
        } else {
            assert(is_digit(s.subrange(a + b + c + 3, a + b + c + d + 3)[i - a - b - c - 3]));
        }
    }
    if j != a && j != a + b + 1 && j != a + b + c + 2 {
        if j < a {
            assert(is_digit(s.subrange(0, a)[j]));
        } else if j < a + b + 1 {
            assert(is_digit(s.subrange(a + 1, a + b + 1)[j - a - 1]));
        } else if j < a + b + c + 2 {
            assert(is_digit(s.subrange(a + b + 2, a + b + c + 2)[j - a - b - 2]));
        } else {
            assert(is_digit(s.subrange(a + b + c + 3, a + b + c + d + 3)[j - a - b - c - 3]));
        }
    }
    if k != a && k != a + b + 1 && k != a + b + c + 2 {
        if k < a {
            assert(is_digit(s.subrange(0, a)[k]));
        } else if k < a + b + 1 {
            assert(is_digit(s.subrange(a + 1, a + b + 1)[k - a - 1]));
        } else if k < a + b + c + 2 {
            assert(is_digit(s.subrange(a + b + 2, a + b + c + 2)[k - a - b - 2]));
        } else {
            assert(is_digit(s.subrange(a + b + c + 3, a + b + c + d + 3)[k - a - b - c - 3]));
        }
    }
}

/// A multi-digit group with a leading zero makes the whole input parse to
/// nothing, whichever of the four groups it is.
pub proof fn lemma_leading_zero_rejected(s: Seq<u8>, i: int, j: int, k: int)
    requires
        quad_split(s, i, j, k),
        (i >= 2 && s[0] == DIGIT_ZERO) || (j - i > 2 && s[i + 1] == DIGIT_ZERO) || (k - j > 2
            && s[j + 1] == DIGIT_ZERO) || (s.len() - k > 2 && s[k + 1] == DIGIT_ZERO),
    ensures
        spec_parse(s) is None,
{
    reveal(spec_valid);
    if spec_valid(s) {
        let (a, b, c, d) = choose|a: int, b: int, c: int, d: int| valid_shape(s, a, b, c, d);
        lemma_split_is_shape(s, i, j, k, a, b, c, d);
        assert(s.subrange(0, a)[0] == s[0]);
        assert(s.subrange(a + 1, a + b + 1)[0] == s[i + 1]);
        assert(s.subrange(a + b + 2, a + b + c + 2)[0] == s[j + 1]);
        assert(s.subrange(a + b + c + 3, a + b + c + d + 3)[0] == s[k + 1]);
    }
}

/// A group whose decimal value exceeds 255 makes the whole input parse to
/// nothing, whichever of the four groups it is.
pub proof fn lemma_overflow_rejected(s: Seq<u8>, i: int, j: int, k: int)
    requires
        quad_split(s, i, j, k),
        group_val(s.subrange(0, i)) > 255 || group_val(s.subrange(i + 1, j)) > 255 || group_val(
            s.subrange(j + 1, k),
        ) > 255 || group_val(s.subrange(k + 1, s.len() as int)) > 255,
    ensures
        spec_parse(s) is None,
{
    reveal(spec_valid);
    if spec_valid(s) {
        let (a, b, c, d) = choose|a: int, b: int, c: int, d: int| valid_shape(s, a, b, c, d);
        lemma_split_is_shape(s, i, j, k, a, b, c, d);
        assert(s.subrange(0, i) =~= s.subrange(0, a));
        assert(s.subrange(i + 1, j) =~= s.subrange(a + 1, a + b + 1));
        assert(s.subrange(j + 1, k) =~= s.subrange(a + b + 2, a + b + c + 2));
        assert(s.subrange(k + 1, s.len() as int) =~= s.subrange(
            a + b + c + 3,
            a + b + c + d + 3,
        ));
    }
}

} // verus!
