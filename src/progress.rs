use vstd::prelude::*;
use vstd::arithmetic::div_mod::lemma_fundamental_div_mod_converse;

verus! {

/// Scale of funding progress: a fully funded company stands at this value.
pub const PROGRESS_SCALE: u32 = 10000;

/// Progress towards `target`, in hundredths of a percent: `current * 10000 /
/// target`, truncated; 0 where the target is not positive.
pub open spec fn progress_spec(current: int, target: int) -> int {
    if target > 0 {
        (current * PROGRESS_SCALE) / target
    } else {
        0
    }
}

/// Computes `progress_spec(current, target)`.
///
/// The quotient is built by adding `current` to a running remainder
/// `PROGRESS_SCALE` times, so that `current * PROGRESS_SCALE` never has to fit
/// in a machine integer.
pub fn funding_progress(current: i128, target: i128) -> (r: u32)
    requires
        0 <= current,
        target > 0 ==> current <= target,
    ensures
        r as int == progress_spec(current as int, target as int),
        r <= PROGRESS_SCALE,
{
    if target <= 0 {
        return 0;
    }
    let c: u128 = current as u128;
    let t: u128 = target as u128;
    let mut q: u32 = 0;
    let mut rem: u128 = 0;
    let mut j: u32 = 0;
    while j < PROGRESS_SCALE
        invariant
            c <= t,
            0 < t <= i128::MAX,
            j <= PROGRESS_SCALE,
            q <= j,
            rem < t,
            c as int * j as int == q as int * t as int + rem as int,
        decreases PROGRESS_SCALE - j,
    {
        proof {
            assert(c as int * (j as int + 1) == c as int * j as int + c as int) by (nonlinear_arith);
        }
        rem = rem + c;
        if rem >= t {
            rem = rem - t;
            q = q + 1;
            proof {
                assert((q as int - 1) * t as int + t as int == q as int * t as int)
                    by (nonlinear_arith);
            }
        }
        j = j + 1;
    }
    proof {
        lemma_fundamental_div_mod_converse(
            c as int * PROGRESS_SCALE as int,
            t as int,
            q as int,
            rem as int,
        );
    }
    q
}

} // verus!
