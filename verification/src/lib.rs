//! A branchless parser for ASCII dotted-decimal IPv4 literals.
//!
//! One pipeline turns text such as `192.168.0.1` into its 32-bit value:
//! the separators are compressed into a bitmap, a multiplicative perfect
//! hash of that bitmap selects one of 81 precomputed lane descriptors, the
//! descriptor gathers the digit characters into fixed lanes, and the lanes
//! are validated and folded into four place-value sums.  Anything that is
//! not a strictly valid literal — wrong shape, a leading zero in a
//! multi-digit group, a non-digit byte, a group over 255, more than 15
//! bytes of input — parses to nothing.
//!
//! The parsed value packs the first dotted group into the least-significant
//! byte, the opposite of network byte order; callers that need network
//! order must swap the bytes.

use vstd::prelude::*;

pub mod backend;
pub mod format;
pub mod laws;
pub mod mask;
pub mod model;
pub mod pattern;

verus! {

/// Convert an ASCII dotted-decimal IPv4 literal to its packed 32-bit
/// value, first group in the least-significant byte.  Returns `None` for
/// every input that is not a strictly valid literal.
pub fn inet_aton(s: &[u8]) -> (r: Option<u32>)
    ensures
        r == crate::model::spec_parse(s@),
        r is Some <==> crate::model::spec_valid(s@),
{
    crate::backend::inet_aton_impl(s)
}

} // verus!
