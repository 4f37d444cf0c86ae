//! Share valuation: the pure function from an entity's trait state to
//! its weight in the global reward pool. Quadratic in the stat total,
//! scaled by the prestige tier, floored so no live entity weighs
//! nothing.

use vstd::prelude::*;

use crate::genetics::TraitExtension;

verus! {

/// Raw power over bare stat values: the stat total, floored at 1 so
/// no live entity ever weighs nothing.
pub open spec fn spec_raw_power_of(
    cap: i8,
    stem: i8,
    spores: i8,
    base_cap: u8,
    base_stem: u8,
    base_spores: u8,
) -> int {
    let sum = (cap + base_cap) + (stem + base_stem) + (spores + base_spores);
    if sum < 1 {
        1
    } else {
        sum
    }
}

/// Raw power of a trait state.
pub open spec fn spec_raw_power(t: TraitExtension) -> int {
    spec_raw_power_of(t.cap, t.stem, t.spores, t.base_cap, t.base_stem, t.base_spores)
}

/// Prestige multiplier: 1 + tier for tiers 0 through 4, a flat 8 at
/// tier 5 and above.
pub open spec fn spec_substrate_multiplier(substrate: u8) -> int {
    if substrate <= 4 {
        1 + substrate as int
    } else {
        8
    }
}

/// Share weight over bare stat values: raw power squared, times the
/// prestige multiplier.
pub open spec fn spec_shares_of(
    cap: i8,
    stem: i8,
    spores: i8,
    substrate: u8,
    base_cap: u8,
    base_stem: u8,
    base_spores: u8,
) -> int {
    let p = spec_raw_power_of(cap, stem, spores, base_cap, base_stem, base_spores);
    p * p * spec_substrate_multiplier(substrate)
}

/// Share weight of a trait state: raw power squared, times the
/// prestige multiplier.
pub open spec fn spec_shares(t: TraitExtension) -> int {
    spec_shares_of(t.cap, t.stem, t.spores, t.substrate, t.base_cap, t.base_stem, t.base_spores)
}

/// Share weight is always at least 1 and far below `u128::MAX`.
pub proof fn lemma_spec_shares_of_bounds(
    cap: i8,
    stem: i8,
    spores: i8,
    substrate: u8,
    base_cap: u8,
    base_stem: u8,
    base_spores: u8,
)
    ensures
        1 <= spec_shares_of(cap, stem, spores, substrate, base_cap, base_stem, base_spores)
            <= 0x7fffffff,
{
    let p = spec_raw_power_of(cap, stem, spores, base_cap, base_stem, base_spores);
    assert(1 <= p <= 1146);
    let m = spec_substrate_multiplier(substrate);
    assert(1 <= m <= 8);
    assert(p * p <= 1146 * 1146) by (nonlinear_arith)
        requires 1 <= p <= 1146;
    assert(1 <= p * p) by (nonlinear_arith)
        requires 1 <= p;
    assert(p * p * m <= 1313316 * 8) by (nonlinear_arith)
        requires 1 <= p * p <= 1313316 && 1 <= m <= 8;
    assert(1 <= p * p * m) by (nonlinear_arith)
        requires 1 <= p * p && 1 <= m;
}

/// Share weight of a whole trait state is bounded the same way.
pub proof fn lemma_spec_shares_bounds(t: TraitExtension)
    ensures
        1 <= spec_shares(t) <= 0x7fffffff,
{
    lemma_spec_shares_of_bounds(
        t.cap,
        t.stem,
        t.spores,
        t.substrate,
        t.base_cap,
        t.base_stem,
        t.base_spores,
    );
}

/// Share weight of a trait state, as stored in the ledger.
pub fn calculate_shares(traits: &TraitExtension) -> (r: u128)
    ensures
        r == spec_shares(*traits),
{
    let cap_score = (traits.cap as i64) + (traits.base_cap as i64);
    let stem_score = (traits.stem as i64) + (traits.base_stem as i64);
    let spores_score = (traits.spores as i64) + (traits.base_spores as i64);
    let sum = cap_score + stem_score + spores_score;
    let raw_power: i64 = if sum < 1 { 1 } else { sum };
    proof {
        assert(raw_power * raw_power <= 1146 * 1146) by (nonlinear_arith)
            requires 1 <= raw_power <= 1146;
    }
    let quadratic: i64 = raw_power * raw_power;
    let multiplier: u128 = if traits.substrate <= 4 {
        1 + (traits.substrate as u128)
    } else {
        8
    };
    proof {
        lemma_spec_shares_bounds(*traits);
        assert(quadratic * multiplier == spec_shares(*traits)) by (nonlinear_arith)
            requires
                quadratic == spec_raw_power(*traits) * spec_raw_power(*traits),
                multiplier == spec_substrate_multiplier(traits.substrate),
                spec_shares(*traits) == spec_raw_power(*traits) * spec_raw_power(*traits)
                    * spec_substrate_multiplier(traits.substrate);
    }
    (quadratic as u128) * multiplier
}

} // verus!
