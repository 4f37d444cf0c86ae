//! Fixed-point arithmetic with eighteen decimal places, the scale the
//! payout multiplier is expressed in.

use vstd::prelude::*;

use crate::error::ContractError;

verus! {

/// One, in fixed-point atomics.
pub const DECIMAL_SCALE: u128 = 1_000_000_000_000_000_000;

/// A third, rounded down: the equilibrium share of one stat category.
pub const TARGET_RATIO: u128 = 333_333_333_333_333_333;

/// Below this efficiency a harvest pays nothing.
pub const SHADOW_THRESHOLD: u128 = 800_000_000_000_000_000;

/// The multiplier granted when a category is globally extinct.
pub const SCARCITY_CAP: u128 = 5 * DECIMAL_SCALE;

/// `floor(a * b / DECIMAL_SCALE)` over unbounded integers.
pub open spec fn spec_mul_floor(a: u128, b: u128) -> int {
    (a * b) / (DECIMAL_SCALE as int)
}

/// Multiplies an amount by a fixed-point factor, rounding down, exact
/// over the full 128-bit range. Fails only when the true product
/// exceeds the range.
pub fn mul_floor_scaled(a: u128, b: u128) -> (r: Result<u128, ContractError>)
    ensures
        r is Ok <==> spec_mul_floor(a, b) <= u128::MAX,
        r matches Ok(v) ==> v == spec_mul_floor(a, b),
        r is Err ==> r matches Err(ContractError::Overflow {  }),
{
    let s: u128 = DECIMAL_SCALE;
    let qa = a / s;
    let ra = a % s;
    let qb = b / s;
    let rb = b % s;
    proof {
        vstd::arithmetic::div_mod::lemma_fundamental_div_mod(a as int, s as int);
        vstd::arithmetic::div_mod::lemma_fundamental_div_mod(b as int, s as int);
        assert(a * b == s * (qa * b + ra * qb) + ra * rb) by (nonlinear_arith)
            requires
                a == s * qa + ra,
                b == s * qb + rb;
        assert(ra * rb < s * s) by (nonlinear_arith)
            requires ra < s && rb < s && s > 0;
        vstd::arithmetic::div_mod::lemma_hoist_over_denominator(
            (ra * rb) as int,
            (qa * b + ra * qb) as int,
            s as nat,
        );
        assert(spec_mul_floor(a, b) == qa * b + ra * qb + (ra * rb) / (s as int));
        assert((ra * rb) / (s as int) >= 0) by {
            vstd::arithmetic::div_mod::lemma_div_pos_is_pos((ra * rb) as int, s as int);
        }
        assert(qa * b >= 0 && ra * qb >= 0) by (nonlinear_arith)
            requires qa >= 0 && b >= 0 && ra >= 0 && qb >= 0;
    }
    let t3 = (ra * rb) / s;
    let term1 = match qa.checked_mul(b) {
        Some(v) => v,
        None => {
            return Err(ContractError::Overflow {  });
        },
    };
    let term2 = match ra.checked_mul(qb) {
        Some(v) => v,
        None => {
            return Err(ContractError::Overflow {  });
        },
    };
    let partial = match term1.checked_add(term2) {
        Some(v) => v,
        None => {
            return Err(ContractError::Overflow {  });
        },
    };
    match partial.checked_add(t3) {
        Some(v) => Ok(v),
        None => Err(ContractError::Overflow {  }),
    }
}

} // verus!
