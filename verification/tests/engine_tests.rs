use spore_fates::engine::GameState;
use spore_fates::error::ContractError;
use spore_fates::msg::TraitTarget;
use spore_fates::state::AccountEntry;
use spore_fates::state::Coin;
use spore_fates::state::GameConfig;
use spore_fates::state::TokenInfo;
use spore_fates::canopy::GlobalBiomass;
use spore_fates::genetics::TraitExtension;

const PAYMENT_DENOM: &str = "factory/creator/shroom";
const MOCK_TIME_NANOS: u64 = 1_571_797_419_879_305_533;
const MOCK_HEIGHT: u64 = 12_345;
const DRAND_GENESIS: u64 = 1_692_803_367;

fn config(spin_cost: u128, mint_cost: u128, mint_cost_increment: u128) -> GameConfig {
    GameConfig {
        payment_denom: PAYMENT_DENOM.to_string(),
        spin_cost,
        mint_cost,
        mint_cost_increment,
        cw721_addr: "cw721".to_string(),
        oracle_addr: "pyth".to_string(),
    }
}

fn setup_contract() -> GameState {
    GameState::new(config(1_000_000, 0, 0))
}

fn coins(amount: u128, denom: &str) -> Vec<Coin> {
    vec![Coin { denom: denom.to_string(), amount }]
}

fn default_traits() -> TraitExtension {
    TraitExtension {
        cap: 0,
        stem: 0,
        spores: 0,
        substrate: 0,
        genes: vec![0; 8],
        base_cap: 0,
        base_stem: 0,
        base_spores: 0,
    }
}

fn seed_account(state: &mut GameState, token_id: u64, info: TokenInfo) {
    state.ledger.total_shares += info.current_shares;
    state.accounts.push(AccountEntry { token_id, info });
}

#[test]
fn test_instantiate() {
    let state = setup_contract();

    assert_eq!(state.config.payment_denom, PAYMENT_DENOM);
    assert_eq!(state.config.spin_cost, 1_000_000);

    assert_eq!(state.ledger.total_shares, 0);
    assert_eq!(state.ledger.global_reward_index, 0);
    assert_eq!(state.ledger.spin_nonce, 0);

    assert_eq!(state.mint_counter, 1);
    assert_eq!(state.biomass.total_base_cap, 0);
    assert_eq!(state.stats.total_minted, 0);
}

#[test]
fn test_mint_bonding_curve() {
    let mut state = GameState::new(config(100, 100, 10));

    // Mint #1 at the base price.
    let res = state
        .execute_mint(&coins(100, PAYMENT_DENOM), MOCK_TIME_NANOS, MOCK_HEIGHT)
        .unwrap();
    assert_eq!(res.token_id, 1);
    assert_eq!(res.price_paid, 100);

    // Price went up.
    let price = state.query_current_mint_price().unwrap();
    assert_eq!(price.price, 110);

    // Mint #2 at the new price.
    let res = state
        .execute_mint(&coins(110, PAYMENT_DENOM), MOCK_TIME_NANOS, MOCK_HEIGHT)
        .unwrap();
    assert_eq!(res.token_id, 2);

    // And up again.
    let price = state.query_current_mint_price().unwrap();
    assert_eq!(price.price, 120);
}

#[test]
fn test_splice_success() {
    let mut state = setup_contract();
    let user = "user".to_string();

    // Each parent's recorded weight matches its trait valuation: one
    // share apiece for all-zero stats.
    let unit = TokenInfo { current_shares: 1, reward_debt: 0, pending_rewards: 0 };
    seed_account(&mut state, 1, unit);
    seed_account(&mut state, 2, unit);
    state.mint_counter = 2;

    let parent_1 = TraitExtension { genes: vec![1; 8], ..default_traits() };
    let parent_2 = TraitExtension { genes: vec![2; 8], ..default_traits() };

    let res = state
        .execute_splice(
            1,
            2,
            &user,
            &user,
            &user,
            &parent_1,
            &parent_2,
            MOCK_TIME_NANOS,
            MOCK_HEIGHT,
        )
        .unwrap();

    assert_eq!(res.parent_1_id, 1);
    assert_eq!(res.parent_2_id, 2);
    assert_eq!(res.child_id, 2);
    assert_eq!(res.child_traits.genes.len(), 8);

    // Both parents are gone; the child account exists.
    assert!(state.query_token_info(1).is_none());
    assert!(state.query_token_info(2).is_some());
}

#[test]
fn test_ascend_success() {
    let mut state = setup_contract();
    let user = "user".to_string();

    seed_account(
        &mut state,
        1,
        TokenInfo { current_shares: 100, reward_debt: 0, pending_rewards: 500 },
    );

    let traits = TraitExtension { cap: 3, stem: 3, spores: 3, ..default_traits() };

    let res = state.execute_ascend(1, &user, &user, &traits, 0, MOCK_HEIGHT);
    assert!(res.is_ok());
    let out = res.unwrap();
    assert_eq!(out.burned, 500);
    assert_eq!(out.new_traits.cap, 0);
    assert_eq!(out.new_traits.stem, 0);
    assert_eq!(out.new_traits.spores, 0);
}

#[test]
fn test_harvest_success() {
    let mut state = setup_contract();
    let user = "user".to_string();

    seed_account(
        &mut state,
        1,
        TokenInfo { current_shares: 100, reward_debt: 0, pending_rewards: 1000 },
    );
    state.biomass = GlobalBiomass {
        total_base_cap: 100,
        total_base_stem: 100,
        total_base_spores: 100,
    };

    let res = state.execute_harvest(1, &user, &user, &default_traits()).unwrap();

    assert_eq!(res.payout, 1000);
    assert_eq!(res.forfeited, 0);

    // The pending balance was consumed.
    let info = state.query_token_info(1).unwrap();
    assert_eq!(info.pending_rewards, 0);
}

#[test]
fn test_calculate_shares() {
    // All traits zero: the floor keeps the entity at weight one.
    let traits = default_traits();
    assert_eq!(spore_fates::calculate_shares(&traits), 1);

    // Positive traits: (2 + 1 + 3)^2 = 36.
    let traits = TraitExtension { cap: 2, stem: 1, spores: 3, ..default_traits() };
    assert_eq!(spore_fates::calculate_shares(&traits), 36);

    // With the substrate multiplier: 3^2 * 3 = 27.
    let traits = TraitExtension { cap: 1, stem: 1, spores: 1, substrate: 2, ..default_traits() };
    assert_eq!(spore_fates::calculate_shares(&traits), 27);

    // Negative traits floor at one before squaring.
    let traits = TraitExtension { cap: -2, stem: -1, spores: -3, ..default_traits() };
    assert_eq!(spore_fates::calculate_shares(&traits), 1);
}

#[test]
fn test_spin_insufficient_funds() {
    let mut state = setup_contract();
    let owner = "owner".to_string();

    let err = state
        .execute_spin(
            1,
            TraitTarget::Cap,
            &owner,
            &owner,
            &default_traits(),
            &coins(500_000, PAYMENT_DENOM),
            DRAND_GENESIS + 30,
        )
        .unwrap_err();

    assert!(matches!(err, ContractError::InsufficientFunds {}));
}

#[test]
fn test_spin_invalid_payment_denom() {
    let mut state = setup_contract();
    let owner = "owner".to_string();

    let err = state
        .execute_spin(
            1,
            TraitTarget::Cap,
            &owner,
            &owner,
            &default_traits(),
            &coins(1_000_000, "wrong_denom"),
            DRAND_GENESIS + 30,
        )
        .unwrap_err();

    assert!(matches!(err, ContractError::InvalidPayment {}));
}

#[test]
fn test_spin_success() {
    let mut state = setup_contract();
    let owner = "owner".to_string();

    seed_account(
        &mut state,
        1,
        TokenInfo { current_shares: 100, reward_debt: 0, pending_rewards: 0 },
    );

    // Phase one: request a spin bound to the next round.
    let res = state
        .execute_spin(
            1,
            TraitTarget::Cap,
            &owner,
            &owner,
            &default_traits(),
            &coins(1_000_000, PAYMENT_DENOM),
            DRAND_GENESIS + 30,
        )
        .unwrap();
    assert_eq!(res.token_id, 1);
    assert_eq!(res.required_payment, 1_000_000);
    assert_eq!(res.target_round, 30 / 3 + 1);

    let pending = state.query_pending_spin(1);
    assert!(pending.is_pending);

    // Phase two: resolve against the published round seed.
    let seed: Vec<u8> = vec![123u8; 32];
    let res = state.execute_resolve_spin(1, &seed, &default_traits()).unwrap();

    assert_eq!(res.token_id, 1);
    assert_eq!(res.target, TraitTarget::Cap);
    assert_eq!(res.old_value, 0);

    // The pending spin is consumed.
    let pending = state.query_pending_spin(1);
    assert!(!pending.is_pending);
}

#[test]
fn test_harvest_unauthorized() {
    let mut state = setup_contract();
    let owner = "owner".to_string();
    let other = "other".to_string();

    let err = state.execute_harvest(1, &owner, &other, &default_traits()).unwrap_err();
    assert!(matches!(err, ContractError::Unauthorized {}));
}

#[test]
fn test_harvest_no_rewards() {
    let mut state = setup_contract();
    let owner = "owner".to_string();

    seed_account(
        &mut state,
        1,
        TokenInfo { current_shares: 100, reward_debt: 0, pending_rewards: 0 },
    );

    let err = state.execute_harvest(1, &owner, &owner, &default_traits()).unwrap_err();
    assert!(matches!(err, ContractError::NoRewards {}));
}

#[test]
fn test_ascend_not_max_level() {
    let mut state = setup_contract();
    let owner = "owner".to_string();

    let traits = TraitExtension { cap: 2, stem: 3, spores: 3, ..default_traits() };
    let err = state
        .execute_ascend(1, &owner, &owner, &traits, MOCK_TIME_NANOS, MOCK_HEIGHT)
        .unwrap_err();
    assert!(matches!(err, ContractError::NotMaxLevel {}));
}

#[test]
fn test_ascend_max_substrate() {
    let mut state = setup_contract();
    let owner = "owner".to_string();

    let traits = TraitExtension { cap: 3, stem: 3, spores: 3, substrate: 4, ..default_traits() };
    let err = state
        .execute_ascend(1, &owner, &owner, &traits, MOCK_TIME_NANOS, MOCK_HEIGHT)
        .unwrap_err();
    assert!(matches!(err, ContractError::MaxSubstrate {}));
}

#[test]
fn test_query_token_info() {
    let mut state = setup_contract();

    seed_account(
        &mut state,
        1,
        TokenInfo { current_shares: 150, reward_debt: 50, pending_rewards: 100 },
    );

    let info = state.query_token_info(1);
    assert!(info.is_some());
    let info = info.unwrap();
    assert_eq!(info.current_shares, 150);
    assert_eq!(info.pending_rewards, 100);
}

#[test]
fn test_randomness_generation() {
    let random1 = spore_fates::randomness_byte(MOCK_TIME_NANOS, MOCK_HEIGHT, 0);
    let random2 = spore_fates::randomness_byte(MOCK_TIME_NANOS, MOCK_HEIGHT, 1);
    let random3 = spore_fates::randomness_byte(MOCK_TIME_NANOS, MOCK_HEIGHT, 2);

    // Different nonces draw different bytes.
    assert_ne!(random1, random2);
    assert_ne!(random2, random3);
}

#[test]
fn test_leaderboard_mechanics() {
    let mut leaderboard = Vec::new();

    for i in 1u64..=12 {
        spore_fates::update_leaderboard(&mut leaderboard, i, i as u128 * 10);
    }

    // Capped at ten, sorted descending: scores 120 down to 30.
    assert_eq!(leaderboard.len(), 10);
    assert_eq!(leaderboard[0].token_id, 12);
    assert_eq!(leaderboard[0].score, 120);
    assert_eq!(leaderboard[9].token_id, 3);
    assert_eq!(leaderboard[9].score, 30);

    // The top score drops to zero: the next entry is promoted and the
    // updated one sinks to the bottom.
    spore_fates::update_leaderboard(&mut leaderboard, 12, 0);
    assert_eq!(leaderboard[0].token_id, 11);
    assert_eq!(leaderboard[9].token_id, 12);
    assert_eq!(leaderboard[9].score, 0);

    // Removal shortens the list by exactly one without reordering.
    spore_fates::remove_from_leaderboard(&mut leaderboard, 11);
    assert_eq!(leaderboard.len(), 9);
    assert_eq!(leaderboard[0].token_id, 10);
}

#[test]
fn test_invalid_trait_values() {
    // Cap out of range.
    let invalid = TraitExtension { cap: 4, ..default_traits() };
    let err = spore_fates::validate_traits(&invalid).unwrap_err();
    assert!(matches!(err, ContractError::InvalidTrait { .. }));

    // Substrate out of range.
    let invalid = TraitExtension { substrate: 5, ..default_traits() };
    let err = spore_fates::validate_traits(&invalid).unwrap_err();
    assert!(matches!(err, ContractError::InvalidTrait { .. }));
}
