//! Persistent state of the game engine, modelled as plain values: the
//! global ledger, per-entity accounts, configuration, statistics,
//! pending spins and the leaderboard.

use vstd::prelude::*;

use crate::msg::TraitTarget;

verus! {

/// A payment: an amount of one denomination.
#[derive(Clone, Debug)]
pub struct Coin {
    pub denom: String,
    pub amount: u128,
}

/// Static configuration chosen at instantiation.
#[derive(Clone, Debug)]
pub struct GameConfig {
    pub payment_denom: String,
    pub spin_cost: u128,
    pub mint_cost: u128,
    pub mint_cost_increment: u128,
    pub cw721_addr: String,
    pub oracle_addr: String,
}

/// The global reward ledger: the share total, the monotonically
/// non-decreasing reward-per-share index, and the randomness nonce.
#[derive(Clone, Copy, Debug, PartialEq, Eq, Structural)]
pub struct GlobalState {
    pub total_shares: u128,
    pub global_reward_index: u128,
    pub spin_nonce: u64,
}

/// Per-entity reward bookkeeping.
#[derive(Clone, Copy, Debug, PartialEq, Eq, Structural)]
pub struct TokenInfo {
    pub current_shares: u128,
    pub reward_debt: u128,
    pub pending_rewards: u128,
}

/// One entity's ledger account, keyed by its numeric id.
#[derive(Clone, Copy, Debug, PartialEq, Eq, Structural)]
pub struct AccountEntry {
    pub token_id: u64,
    pub info: TokenInfo,
}

/// Cumulative counters. Observational only: they carry no invariant
/// beyond monotonic increase, and advance saturating.
#[derive(Clone, Copy, Debug, PartialEq, Eq, Structural)]
pub struct GameStats {
    pub total_minted: u64,
    pub total_burned: u64,
    pub total_spins: u64,
    pub total_rewards_distributed: u128,
    pub total_mint_volume: u128,
    pub total_spin_volume: u128,
    pub total_rewards_recycled: u128,
    pub total_harvests: u64,
    pub total_splices: u64,
    pub total_ascensions: u64,
}

/// A spin awaiting its randomness round: exists only between request
/// and resolve, at most one per entity.
#[derive(Clone, Debug)]
pub struct PendingSpin {
    pub token_id: u64,
    pub player: String,
    pub target: TraitTarget,
    pub bid_amount: u128,
    pub target_round: u64,
}

/// One leaderboard slot: an entity and the score it held when it was
/// last upserted.
#[derive(Clone, Copy, Debug, PartialEq, Eq, Structural)]
pub struct LeaderboardEntry {
    pub token_id: u64,
    pub score: u128,
}

impl GameStats {
    /// Every counter at zero.
    pub open spec fn spec_zero() -> GameStats {
        GameStats {
            total_minted: 0,
            total_burned: 0,
            total_spins: 0,
            total_rewards_distributed: 0,
            total_mint_volume: 0,
            total_spin_volume: 0,
            total_rewards_recycled: 0,
            total_harvests: 0,
            total_splices: 0,
            total_ascensions: 0,
        }
    }

    /// Fresh statistics: every counter at zero.
    pub fn new() -> (r: GameStats)
        ensures
            r == GameStats::spec_zero(),
    {
        GameStats {
            total_minted: 0,
            total_burned: 0,
            total_spins: 0,
            total_rewards_distributed: 0,
            total_mint_volume: 0,
            total_spin_volume: 0,
            total_rewards_recycled: 0,
            total_harvests: 0,
            total_splices: 0,
            total_ascensions: 0,
        }
    }
}

} // verus!
