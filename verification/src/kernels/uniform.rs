//! Shared helper for uniform domains: the sample position at an index.

use vstd::prelude::*;

use crate::parameters::uniform_pos;
use crate::scalar::Scalar;

verus! {

/// Position `i` of a uniform domain, as a scalar.
pub open spec fn uniform_pos_scalar(start: int, step: int, i: int) -> Scalar {
    Scalar { bits: uniform_pos(start, step, i) as i64 }
}

/// Compute the sample position `start + step * i`.
pub(crate) fn pos_at(start: Scalar, step: Scalar, i: u64) -> (r: Scalar)
    ensures
        r == uniform_pos_scalar(start@, step@, i as int),
        r@ == uniform_pos(start@, step@, i as int),
{
    let r = start.add(step.mul(Scalar::from_uint(i)));
    proof {
        assert(r.bits as int == uniform_pos(start@, step@, i as int));
    }
    r
}

} // verus!
