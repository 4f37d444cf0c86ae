//! Verified game engine for a population of mutable, ownable digital
//! specimens: lazy proportional reward distribution with O(1)
//! bookkeeping, probabilistic trait mutation, prestige progression,
//! breeding, a scarcity-based payout multiplier, a bounded leaderboard
//! and a bonding-curve mint price.
//!
//! The engine is a pure state machine: every operation takes the world
//! state and plain input values, and either commits all of its effects
//! or returns a typed error having changed nothing. Reads of the
//! entity registry, payment transfer and the randomness oracle are the
//! host's business; the engine only consumes their plain results and
//! tells the host which commands to send.

use vstd::prelude::*;

pub mod attributes;
pub mod canopy;
pub mod engine;
pub mod error;
pub mod fixed;
pub mod genetics;
pub mod leaderboard;
pub mod msg;
pub mod rand;
pub mod state;
pub mod valuation;

pub use attributes::parse_traits;
pub use attributes::traits_to_attributes;
pub use attributes::TraitAttr;
pub use canopy::calculate_canopy_multiplier;
pub use canopy::GlobalBiomass;
pub use engine::GameState;
pub use error::ContractError;
pub use genetics::count_primordial;
pub use genetics::validate_traits;
pub use genetics::TraitExtension;
pub use leaderboard::remove_from_leaderboard;
pub use leaderboard::update_leaderboard;
pub use msg::OracleQueryMsg;
pub use msg::PendingSpinResponse;
pub use msg::TraitTarget;
pub use rand::randomness_byte;
pub use state::GameConfig;
pub use state::GlobalState;
pub use state::TokenInfo;
pub use valuation::calculate_shares;

verus! {

} // verus!
