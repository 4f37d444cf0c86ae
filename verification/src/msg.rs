//! Message-level types: the spin target, the randomness-oracle query
//! the engine asks its host to send, and the query-surface responses.

use vstd::prelude::*;

use crate::canopy::GlobalBiomass;
use crate::state::LeaderboardEntry;

verus! {

/// Which volatile stat a spin targets.
#[derive(Clone, Copy, Debug, PartialEq, Eq, Structural)]
pub enum TraitTarget {
    Cap,
    Stem,
    Spores,
}

/// The query the engine needs its host to put to the randomness
/// oracle when a spin is resolved.
#[derive(Clone, Copy, Debug, PartialEq, Eq, Structural)]
pub enum OracleQueryMsg {
    GetRandomness { round: u64 },
}

/// Whether an entity has a spin awaiting resolution, and for which
/// randomness round.
#[derive(Clone, Copy, Debug, PartialEq, Eq, Structural)]
pub struct PendingSpinResponse {
    pub is_pending: bool,
    pub target_round: u64,
}

/// A pending-reward estimate: the raw accumulated amount, the current
/// canopy multiplier in fixed-point atomics, and the payout a harvest
/// now would yield.
#[derive(Clone, Copy, Debug, PartialEq, Eq, Structural)]
pub struct PendingRewardsResponse {
    pub accumulated_rewards: u128,
    pub canopy_multiplier: u128,
    pub estimated_payout: u128,
}

/// Ecosystem-wide scarcity metrics: the aggregate biomass and the
/// per-category multipliers in fixed-point atomics.
#[derive(Clone, Copy, Debug, PartialEq, Eq, Structural)]
pub struct EcosystemMetricsResponse {
    pub total_biomass: GlobalBiomass,
    pub cap_multiplier: u128,
    pub stem_multiplier: u128,
    pub spores_multiplier: u128,
}

/// A statistics snapshot together with the derived current supply.
#[derive(Clone, Copy, Debug, PartialEq, Eq, Structural)]
pub struct GameStatsResponse {
    pub total_minted: u64,
    pub total_burned: u64,
    pub current_supply: u64,
    pub total_spins: u64,
    pub total_rewards_distributed: u128,
    pub total_biomass: GlobalBiomass,
    pub total_mint_volume: u128,
    pub total_spin_volume: u128,
    pub total_rewards_recycled: u128,
    pub total_harvests: u64,
    pub total_splices: u64,
    pub total_ascensions: u64,
}

/// The current bonding-curve mint price.
#[derive(Clone, Copy, Debug, PartialEq, Eq, Structural)]
pub struct MintPriceResponse {
    pub price: u128,
}

/// Aggregates over one page of a player's entities.
#[derive(Clone, Debug)]
pub struct PlayerProfileResponse {
    pub total_mushrooms: u64,
    pub total_shares: u128,
    pub total_pending_rewards: u128,
    pub best_mushroom_id: Option<u64>,
    pub last_scanned_id: Option<u64>,
}

/// The leaderboard snapshot.
#[derive(Clone, Debug)]
pub struct LeaderboardResponse {
    pub entries: Vec<LeaderboardEntry>,
}

} // verus!
