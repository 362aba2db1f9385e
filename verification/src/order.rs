//! The order of texts, as the standard library compares them.

use crate::text::text_order;
use std::cmp::Ordering;
use vstd::prelude::*;

verus! {

/// Calls `Ord::cmp` on two string slices, which orders them by their bytes and
/// so by the codes of their characters.
#[verifier::external_body]
pub(crate) fn compare_text(a: &str, b: &str) -> (r: Ordering)
    ensures
        r is Less <==> text_order(a@, b@) < 0,
        r is Equal <==> text_order(a@, b@) == 0,
        r is Greater <==> text_order(a@, b@) > 0,
{
    a.cmp(b)
}

} // verus!
