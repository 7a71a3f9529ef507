//! Integer arithmetic helpers: range predicates and checked integer powers.

use vstd::prelude::*;

verus! {

/// `x` lies within the range of an `i64`.
pub open spec fn fits_i64(x: int) -> bool {
    i64::MIN <= x <= i64::MAX
}

/// Mathematical integer power: `b` multiplied into `1`, `e` times.
pub open spec fn pow_int(b: int, e: nat) -> int
    decreases e,
{
    if e == 0 {
        1
    } else {
        pow_int(b, (e - 1) as nat) * b
    }
}

/// Every power of `b` up to and including `e` fits in an `i64`. The staged
/// checked multiplications of `ipow_checked` succeed in exactly this case.
pub open spec fn pow_all_fits(b: int, e: int) -> bool {
    forall|k: int| 0 <= k <= e ==> fits_i64(#[trigger] pow_int(b, k as nat))
}

/// `base` raised to `exp` by repeated checked multiplication; `None` exactly
/// when some intermediate power leaves the `i64` range.
pub fn ipow_checked(base: i64, exp: i64) -> (r: Option<i64>)
    requires
        exp >= 0,
    ensures
        r is Some <==> pow_all_fits(base as int, exp as int),
        match r {
            Some(p) => p == pow_int(base as int, exp as nat),
            None => true,
        },
{
    let mut acc: i64 = 1;
    let mut k: i64 = 0;
    while k < exp
        invariant
            0 <= k <= exp,
            acc == pow_int(base as int, k as nat),
            forall|j: int| 0 <= j <= k ==> fits_i64(#[trigger] pow_int(base as int, j as nat)),
        decreases exp - k,
    {
        proof {
            assert(pow_int(base as int, (k + 1) as nat) == pow_int(base as int, k as nat) * base);
        }
        match acc.checked_mul(base) {
            Some(next) => {
                acc = next;
                k = k + 1;
            },
            None => {
                proof {
                    assert(!fits_i64(pow_int(base as int, (k + 1) as nat)));
                    assert(!pow_all_fits(base as int, exp as int));
                }
                return None;
            },
        }
    }
    Some(acc)
}

} // verus!
