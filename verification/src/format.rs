//! The canonical dotted-decimal text of a packed address, and the
//! round-trip law: formatting a parsed value and reparsing it gives the
//! value back.

use vstd::prelude::*;

verus! {

use vstd::arithmetic::div_mod::lemma_fundamental_div_mod;
use vstd::arithmetic::div_mod::lemma_div_denominator;
use crate::model::DOT;
use crate::model::DIGIT_ZERO;
use crate::model::all_digits;
use crate::model::group_ok;
use crate::model::group_val;
use crate::model::lemma_group_val_small;
use crate::model::lemma_value_unique;
use crate::model::valid_shape;
use crate::model::spec_parse;

/// The ASCII digit with value `n`.
pub open spec fn digit_ch(n: int) -> u8 {
    (48 + n) as u8
}

/// The canonical decimal text of one octet value: one to three digits, no
/// leading zero.
pub open spec fn fmt_group(n: int) -> Seq<u8> {
    if n < 10 {
        seq![digit_ch(n)]
    } else if n < 100 {
        seq![digit_ch(n / 10), digit_ch(n % 10)]
    } else {
        seq![digit_ch(n / 100), digit_ch(n / 10 % 10), digit_ch(n % 10)]
    }
}

/// The canonical dotted-decimal text of a packed address, with the
/// least-significant byte as the first group.
pub open spec fn spec_format(v: u32) -> Seq<u8> {
    fmt_group(v as int % 256) + seq![DOT] + fmt_group(v as int / 256 % 256) + seq![DOT] + fmt_group(
        v as int / 65536 % 256,
    ) + seq![DOT] + fmt_group(v as int / 16777216)
}

/// The formatted text of one octet is a well-formed group with that value.
proof fn lemma_fmt_group(n: int)
    requires
        0 <= n <= 255,
    ensures
        group_ok(fmt_group(n)),
        group_val(fmt_group(n)) == n,
        n < 10 ==> fmt_group(n).len() == 1,
        10 <= n < 100 ==> fmt_group(n).len() == 2,
        100 <= n ==> fmt_group(n).len() == 3,
{
    let g = fmt_group(n);
    lemma_group_val_small(g);
    if n < 10 {
        assert(group_val(g) == n);
    } else if n < 100 {
        lemma_fundamental_div_mod(n, 10);
        assert(group_val(g) == 10 * (n / 10) + n % 10);
    } else {
        lemma_fundamental_div_mod(n, 10);
        lemma_fundamental_div_mod(n / 10, 10);
        lemma_div_denominator(n, 10, 10);
        assert(n / 10 / 10 == n / 100);
        assert(n / 10 == 10 * (n / 10 / 10) + n / 10 % 10);
        assert(group_val(g) == 100 * (n / 100) + 10 * (n / 10 % 10) + n % 10);
    }
}

/// Round trip: the canonical text of any 32-bit value parses back to that
/// value.
pub proof fn lemma_format_roundtrip(v: u32)
    ensures
        spec_parse(spec_format(v)) == Some(v),
{
    let n = v as int;
    let g0 = n % 256;
    let g1 = n / 256 % 256;
    let g2 = n / 65536 % 256;
    let g3 = n / 16777216;
    assert(0 <= g0 <= 255 && 0 <= g1 <= 255 && 0 <= g2 <= 255 && 0 <= g3 <= 255);
    lemma_fmt_group(g0);
    lemma_fmt_group(g1);
    lemma_fmt_group(g2);
    lemma_fmt_group(g3);
    let s = spec_format(v);
    let a = fmt_group(g0).len() as int;
    let b = fmt_group(g1).len() as int;
    let c = fmt_group(g2).len() as int;
    let d = fmt_group(g3).len() as int;
    assert(s.len() == a + b + c + d + 3);
    assert(s.subrange(0, a) =~= fmt_group(g0));
    assert(s[a] == DOT);
    assert(s.subrange(a + 1, a + b + 1) =~= fmt_group(g1));
    assert(s[a + b + 1] == DOT);
    assert(s.subrange(a + b + 2, a + b + c + 2) =~= fmt_group(g2));
    assert(s[a + b + c + 2] == DOT);
    assert(s.subrange(a + b + c + 3, a + b + c + d + 3) =~= fmt_group(g3));
    assert(valid_shape(s, a, b, c, d));
    lemma_value_unique(s, a, b, c, d);
    // the four octets reassemble the value
    lemma_fundamental_div_mod(n, 256);
    lemma_fundamental_div_mod(n / 256, 256);
    lemma_div_denominator(n, 256, 256);
    lemma_fundamental_div_mod(n / 65536, 256);
    lemma_div_denominator(n, 65536, 256);
    assert(n / 256 / 256 == n / 65536);
    assert(n / 65536 / 256 == n / 16777216);
    assert(n == g0 + 256 * g1 + 65536 * g2 + 16777216 * g3);
    assert(crate::model::spec_value(s) == n);
}

} // verus!
