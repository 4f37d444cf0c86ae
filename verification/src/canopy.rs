//! The canopy multiplier: a per-entity payout factor derived from how
//! scarce the entity's genetic make-up is in the whole ecosystem.
//! Computed on demand from the current biomass, never cached.

use vstd::prelude::*;

use crate::error::ContractError;
use crate::fixed::DECIMAL_SCALE;
use crate::fixed::SCARCITY_CAP;
use crate::fixed::SHADOW_THRESHOLD;
use crate::fixed::TARGET_RATIO;
use crate::genetics::TraitExtension;

verus! {

/// Ecosystem-wide aggregate of the base stats of every live entity,
/// maintained incrementally on creation and removal.
#[derive(Clone, Copy, Debug, PartialEq, Eq, Structural)]
pub struct GlobalBiomass {
    pub total_base_cap: u128,
    pub total_base_stem: u128,
    pub total_base_spores: u128,
}

/// The whole ecosystem's mass: the three category masses summed, over
/// unbounded integers.
pub open spec fn spec_total_mass(b: GlobalBiomass) -> int {
    b.total_base_cap + b.total_base_stem + b.total_base_spores
}

/// An entity's own base-stat total.
pub open spec fn spec_user_base_total(t: TraitExtension) -> int {
    t.base_cap + t.base_stem + t.base_spores
}

/// The scarcity multiplier of one category, in fixed-point atomics:
/// the equilibrium ratio (one third) divided by the category's actual
/// share of the total mass, capped when the category is extinct.
/// Fails when the category's share cannot be formed in 128 bits, or
/// rounds to zero.
pub open spec fn spec_trait_multiplier(mass: u128, total: int) -> Result<u128, ContractError> {
    if mass == 0 {
        Ok(SCARCITY_CAP)
    } else if mass > u128::MAX as int / DECIMAL_SCALE as int {
        Err(ContractError::Overflow {  })
    } else {
        let actual = (mass * DECIMAL_SCALE) / total;
        if actual == 0 {
            Err(ContractError::DivideByZero {  })
        } else {
            Ok((((TARGET_RATIO * DECIMAL_SCALE) as int / actual)) as u128)
        }
    }
}

/// Computes one category's scarcity multiplier.
pub fn trait_multiplier(mass: u128, total: u128) -> (r: Result<u128, ContractError>)
    requires
        total > 0,
        mass <= total,
    ensures
        r == spec_trait_multiplier(mass, total as int),
        r matches Ok(v) ==> v <= TARGET_RATIO * DECIMAL_SCALE,
{
    if mass == 0 {
        proof {
            assert(SCARCITY_CAP <= TARGET_RATIO * DECIMAL_SCALE);
        }
        return Ok(SCARCITY_CAP);
    }
    if mass > u128::MAX / DECIMAL_SCALE {
        return Err(ContractError::Overflow {  });
    }
    proof {
        vstd::arithmetic::div_mod::lemma_fundamental_div_mod(
            u128::MAX as int,
            DECIMAL_SCALE as int,
        );
        assert(mass * DECIMAL_SCALE <= (u128::MAX as int / DECIMAL_SCALE as int) * DECIMAL_SCALE)
            by (nonlinear_arith)
            requires mass <= u128::MAX as int / DECIMAL_SCALE as int;
    }
    let scaled: u128 = mass * DECIMAL_SCALE;
    let actual: u128 = scaled / total;
    if actual == 0 {
        return Err(ContractError::DivideByZero {  });
    }
    let numerator: u128 = TARGET_RATIO * DECIMAL_SCALE;
    proof {
        vstd::arithmetic::div_mod::lemma_div_is_ordered_by_denominator(
            numerator as int,
            1,
            actual as int,
        );
    }
    Ok(numerator / actual)
}

/// A base stat weighted by a scarcity multiplier stays within a third
/// of the 128-bit range, so the three scores sum without overflow.
proof fn lemma_mul_le_bounds(base: int, mult: int)
    requires
        0 <= base <= 255,
        0 <= mult <= TARGET_RATIO * DECIMAL_SCALE,
    ensures
        0 <= base * mult <= 255 * 333_333_333_333_333_333_000_000_000_000_000_000,
{
    assert(TARGET_RATIO * DECIMAL_SCALE == 333_333_333_333_333_333_000_000_000_000_000_000);
    assert(base * mult <= 255 * 333_333_333_333_333_333_000_000_000_000_000_000)
        by (nonlinear_arith)
        requires
            0 <= base <= 255,
            0 <= mult <= 333_333_333_333_333_333_000_000_000_000_000_000;
    assert(base * mult >= 0) by (nonlinear_arith)
        requires base >= 0 && mult >= 0;
}

/// The canopy multiplier of one entity, in fixed-point atomics.
///
/// Exactly one when the ecosystem is empty or the entity has no base
/// stats; otherwise the entity's efficiency — the scarcity-weighted
/// base-stat total divided by the plain base-stat total — or zero in
/// the shadow zone below the efficiency threshold.
pub open spec fn spec_canopy_multiplier(b: GlobalBiomass, t: TraitExtension) -> Result<
    u128,
    ContractError,
> {
    let total = spec_total_mass(b);
    if total > u128::MAX {
        Err(ContractError::Overflow {  })
    } else if total == 0 {
        Ok(DECIMAL_SCALE)
    } else if spec_user_base_total(t) == 0 {
        Ok(DECIMAL_SCALE)
    } else {
        match spec_trait_multiplier(b.total_base_cap, total) {
            Err(e) => Err(e),
            Ok(mc) => match spec_trait_multiplier(b.total_base_stem, total) {
                Err(e) => Err(e),
                Ok(ms) => match spec_trait_multiplier(b.total_base_spores, total) {
                    Err(e) => Err(e),
                    Ok(msp) => {
                        let score = t.base_cap * mc + t.base_stem * ms + t.base_spores * msp;
                        let eff = score / spec_user_base_total(t);
                        if eff < SHADOW_THRESHOLD {
                            Ok(0)
                        } else {
                            Ok(eff as u128)
                        }
                    },
                },
            },
        }
    }
}

/// Computes an entity's canopy multiplier from the current biomass.
pub fn calculate_canopy_multiplier(biomass: &GlobalBiomass, traits: &TraitExtension) -> (r: Result<
    u128,
    ContractError,
>)
    ensures
        r == spec_canopy_multiplier(*biomass, *traits),
        spec_total_mass(*biomass) == 0 ==> r == Ok::<u128, ContractError>(DECIMAL_SCALE),
        (spec_total_mass(*biomass) <= u128::MAX && spec_user_base_total(*traits) == 0) ==> r
            == Ok::<u128, ContractError>(DECIMAL_SCALE),
{
    let partial = match biomass.total_base_cap.checked_add(biomass.total_base_stem) {
        Some(v) => v,
        None => {
            return Err(ContractError::Overflow {  });
        },
    };
    let total = match partial.checked_add(biomass.total_base_spores) {
        Some(v) => v,
        None => {
            return Err(ContractError::Overflow {  });
        },
    };
    if total == 0 {
        return Ok(DECIMAL_SCALE);
    }
    let user_base_total: u64 = (traits.base_cap as u64) + (traits.base_stem as u64) + (
    traits.base_spores as u64);
    if user_base_total == 0 {
        return Ok(DECIMAL_SCALE);
    }
    let mc = match trait_multiplier(biomass.total_base_cap, total) {
        Ok(v) => v,
        Err(e) => {
            return Err(e);
        },
    };
    let ms = match trait_multiplier(biomass.total_base_stem, total) {
        Ok(v) => v,
        Err(e) => {
            return Err(e);
        },
    };
    let msp = match trait_multiplier(biomass.total_base_spores, total) {
        Ok(v) => v,
        Err(e) => {
            return Err(e);
        },
    };
    proof {
        lemma_mul_le_bounds(traits.base_cap as int, mc as int);
        lemma_mul_le_bounds(traits.base_stem as int, ms as int);
        lemma_mul_le_bounds(traits.base_spores as int, msp as int);
    }
    let score: u128 = (traits.base_cap as u128) * mc + (traits.base_stem as u128) * ms + (
    traits.base_spores as u128) * msp;
    let eff: u128 = score / (user_base_total as u128);
    if eff < SHADOW_THRESHOLD {
        Ok(0)
    } else {
        Ok(eff)
    }
}

} // verus!
