use sha2::Digest;
use spore_fates::attributes::parse_traits;
use spore_fates::attributes::traits_to_attributes;
use spore_fates::attributes::TraitAttr;
use spore_fates::canopy::calculate_canopy_multiplier;
use spore_fates::canopy::GlobalBiomass;
use spore_fates::engine::spin_new_value;
use spore_fates::engine::GameState;
use spore_fates::error::ContractError;
use spore_fates::fixed::mul_floor_scaled;
use spore_fates::fixed::DECIMAL_SCALE;
use spore_fates::genetics::child_substrate;
use spore_fates::genetics::count_primordial;
use spore_fates::genetics::TraitExtension;
use spore_fates::msg::TraitTarget;
use spore_fates::state::AccountEntry;
use spore_fates::state::Coin;
use spore_fates::state::GameConfig;
use spore_fates::state::TokenInfo;

const PAYMENT_DENOM: &str = "ushroom";
const DRAND_GENESIS: u64 = 1_692_803_367;

fn config() -> GameConfig {
    GameConfig {
        payment_denom: PAYMENT_DENOM.to_string(),
        spin_cost: 1_000,
        mint_cost: 100,
        mint_cost_increment: 10,
        cw721_addr: "cw721".to_string(),
        oracle_addr: "oracle".to_string(),
    }
}

fn blank_traits() -> TraitExtension {
    TraitExtension {
        cap: 0,
        stem: 0,
        spores: 0,
        substrate: 0,
        genes: vec![0; 8],
        base_cap: 0,
        base_stem: 0,
        base_spores: 0,
    }
}

fn attr(key: &str, value: &str) -> TraitAttr {
    TraitAttr {
        display_type: None,
        trait_type: key.to_string(),
        value: value.to_string(),
    }
}

fn sum_account_shares(state: &GameState) -> u128 {
    let mut sum: u128 = 0;
    for entry in &state.accounts {
        sum += entry.info.current_shares;
    }
    sum
}

#[test]
fn shares_conserved_across_operations() {
    let mut state = GameState::new(config());
    let user = "player".to_string();
    let funds = vec![Coin { denom: PAYMENT_DENOM.to_string(), amount: 1_000_000 }];

    // Mint two entities.
    let m1 = state.execute_mint(&funds, 7, 11).unwrap();
    assert_eq!(sum_account_shares(&state), state.ledger.total_shares);
    let m2 = state.execute_mint(&funds, 8, 12).unwrap();
    assert_eq!(sum_account_shares(&state), state.ledger.total_shares);

    // Spin and resolve the first.
    state
        .execute_spin(
            m1.token_id,
            TraitTarget::Cap,
            &user,
            &user,
            &m1.traits,
            &funds,
            DRAND_GENESIS + 9,
        )
        .unwrap();
    assert_eq!(sum_account_shares(&state), state.ledger.total_shares);
    let seed: Vec<u8> = vec![42u8; 32];
    let resolved = state.execute_resolve_spin(m1.token_id, &seed, &m1.traits).unwrap();
    assert_eq!(sum_account_shares(&state), state.ledger.total_shares);

    // Splice both into a child.
    state
        .execute_splice(
            m1.token_id,
            m2.token_id,
            &user,
            &user,
            &user,
            &resolved.new_traits,
            &m2.traits,
            9,
            13,
        )
        .unwrap();
    assert_eq!(sum_account_shares(&state), state.ledger.total_shares);
}

#[test]
fn reward_index_never_decreases() {
    let mut state = GameState::new(config());
    let funds = vec![Coin { denom: PAYMENT_DENOM.to_string(), amount: 1_000_000 }];

    let mut last_index = state.ledger.global_reward_index;
    for step in 0..4u64 {
        state.execute_mint(&funds, step, step + 1).unwrap();
        assert!(state.ledger.global_reward_index >= last_index);
        last_index = state.ledger.global_reward_index;
    }
}

#[test]
fn pending_query_idempotent() {
    let mut state = GameState::new(config());
    state.accounts.push(AccountEntry {
        token_id: 5,
        info: TokenInfo { current_shares: 40, reward_debt: 0, pending_rewards: 70 },
    });
    state.ledger.total_shares = 40;
    state.ledger.global_reward_index = 3;

    let traits = blank_traits();
    let first = state.query_pending_rewards(5, &traits).unwrap();
    let second = state.query_pending_rewards(5, &traits).unwrap();

    assert_eq!(first.accumulated_rewards, second.accumulated_rewards);
    assert_eq!(first.canopy_multiplier, second.canopy_multiplier);
    assert_eq!(first.estimated_payout, second.estimated_payout);
    // Raw pending: 70 stored plus 40 shares times index 3.
    assert_eq!(first.accumulated_rewards, 190);
}

#[test]
fn canopy_multiplier_is_one_for_empty_ecosystem() {
    let biomass = GlobalBiomass { total_base_cap: 0, total_base_stem: 0, total_base_spores: 0 };
    let mut traits = blank_traits();
    traits.base_cap = 5;
    let mult = calculate_canopy_multiplier(&biomass, &traits).unwrap();
    assert_eq!(mult, DECIMAL_SCALE);
}

#[test]
fn canopy_multiplier_is_one_for_zero_base_entity() {
    let biomass = GlobalBiomass {
        total_base_cap: 100,
        total_base_stem: 50,
        total_base_spores: 25,
    };
    let mult = calculate_canopy_multiplier(&biomass, &blank_traits()).unwrap();
    assert_eq!(mult, DECIMAL_SCALE);
}

#[test]
fn canopy_multiplier_is_one_at_equilibrium() {
    let biomass = GlobalBiomass {
        total_base_cap: 100,
        total_base_stem: 100,
        total_base_spores: 100,
    };
    let mut traits = blank_traits();
    traits.base_cap = 1;
    traits.base_stem = 1;
    traits.base_spores = 1;
    let mult = calculate_canopy_multiplier(&biomass, &traits).unwrap();
    assert_eq!(mult, DECIMAL_SCALE);
}

#[test]
fn canopy_shadow_zone_zeroes_the_multiplier() {
    // The whole ecosystem is cap mass, and so is this entity: its
    // efficiency is a third, far below the threshold.
    let biomass = GlobalBiomass { total_base_cap: 300, total_base_stem: 0, total_base_spores: 0 };
    let mut traits = blank_traits();
    traits.base_cap = 3;
    let mult = calculate_canopy_multiplier(&biomass, &traits).unwrap();
    assert_eq!(mult, 0);
}

#[test]
fn canopy_divide_by_zero_on_vanishing_ratio() {
    // One unit of cap mass in an ecosystem so large its share rounds
    // to zero atomics.
    let biomass = GlobalBiomass {
        total_base_cap: 1,
        total_base_stem: 2_000_000_000_000_000_000,
        total_base_spores: 0,
    };
    let mut traits = blank_traits();
    traits.base_cap = 1;
    let err = calculate_canopy_multiplier(&biomass, &traits).unwrap_err();
    assert!(matches!(err, ContractError::DivideByZero {}));
}

#[test]
fn shadow_zone_harvest_forfeits_everything() {
    let mut state = GameState::new(config());
    let user = "player".to_string();
    state.accounts.push(AccountEntry {
        token_id: 1,
        info: TokenInfo { current_shares: 100, reward_debt: 0, pending_rewards: 900 },
    });
    state.ledger.total_shares = 100;
    state.biomass = GlobalBiomass { total_base_cap: 300, total_base_stem: 0, total_base_spores: 0 };

    let mut traits = blank_traits();
    traits.base_cap = 3;

    let res = state.execute_harvest(1, &user, &user, &traits).unwrap();
    assert_eq!(res.payout, 0);
    assert_eq!(res.multiplier, 0);
    assert_eq!(res.forfeited, 900);

    // The forfeited amount was recycled into the index, pro rata.
    assert_eq!(state.ledger.global_reward_index, 9);
    assert_eq!(state.query_token_info(1).unwrap().pending_rewards, 0);
}

#[test]
fn spin_outcome_rules() {
    // A -1 stat flips straight to +1 on success — never zero.
    assert_eq!(spin_new_value(-1, 0, 0, 0, 200), 1);
    // A +1 stat survives a failure at tier two and above.
    assert_eq!(spin_new_value(1, 0, 2, 0, 50), 1);
    // Without that protection, +1 whipsaws to -1.
    assert_eq!(spin_new_value(1, 0, 0, 0, 50), -1);
    // A maxed base stat protects against the loss.
    assert_eq!(spin_new_value(0, 10, 0, 0, 50), 0);
    // A stable genome (three primordial genes) protects too.
    assert_eq!(spin_new_value(2, 0, 0, 3, 50), 2);
    // Ordinary win: one step up, clamped at the top.
    assert_eq!(spin_new_value(3, 0, 0, 0, 200), 3);
    // Ordinary loss: one step down, clamped at the bottom.
    assert_eq!(spin_new_value(-3, 0, 0, 0, 50), -3);
    // Tier four doubles the win when the byte lands on a ten.
    assert_eq!(spin_new_value(0, 0, 4, 0, 200), 2);
    // Wins come easier from tier three up: a byte of 120 loses at
    // tier zero but wins at tier three.
    assert_eq!(spin_new_value(0, 0, 0, 0, 120), -1);
    assert_eq!(spin_new_value(0, 0, 3, 0, 120), 1);
}

#[test]
fn ascend_burns_the_checkpointed_total() {
    let mut state = GameState::new(config());
    let user = "player".to_string();
    // Nothing stored, but the shares have accrued 10 * 5 = 50 since
    // the last checkpoint; ascend checkpoints first and burns it all.
    state.accounts.push(AccountEntry {
        token_id: 1,
        info: TokenInfo { current_shares: 10, reward_debt: 0, pending_rewards: 0 },
    });
    state.ledger.total_shares = 10;
    state.ledger.global_reward_index = 5;

    let traits = TraitExtension { cap: 3, stem: 3, spores: 3, ..blank_traits() };
    let out = state.execute_ascend(1, &user, &user, &traits, 0, 0).unwrap();
    assert_eq!(out.burned, 50);
    assert_eq!(state.query_token_info(1).unwrap().pending_rewards, 0);
}

#[test]
fn spin_rejects_second_request() {
    let mut state = GameState::new(config());
    let owner = "owner".to_string();
    let funds = vec![Coin { denom: PAYMENT_DENOM.to_string(), amount: 1_000_000 }];

    state
        .execute_spin(1, TraitTarget::Cap, &owner, &owner, &blank_traits(), &funds, DRAND_GENESIS)
        .unwrap();
    let err = state
        .execute_spin(1, TraitTarget::Stem, &owner, &owner, &blank_traits(), &funds, DRAND_GENESIS)
        .unwrap_err();
    assert!(matches!(err, ContractError::HasPendingSpin {}));
}

#[test]
fn resolve_without_pending_fails() {
    let mut state = GameState::new(config());
    state.accounts.push(AccountEntry {
        token_id: 1,
        info: TokenInfo { current_shares: 1, reward_debt: 0, pending_rewards: 0 },
    });
    state.ledger.total_shares = 1;

    let seed: Vec<u8> = vec![0u8; 32];
    let err = state.execute_resolve_spin(1, &seed, &blank_traits()).unwrap_err();
    assert!(matches!(err, ContractError::NoPendingSpin {}));
}

#[test]
fn splice_rejects_identical_parents() {
    let mut state = GameState::new(config());
    let user = "u".to_string();
    let t = blank_traits();
    let err = state
        .execute_splice(3, 3, &user, &user, &user, &t, &t, 0, 0)
        .unwrap_err();
    assert!(matches!(err, ContractError::InvalidParents {}));
}

#[test]
fn harvest_unknown_entity_fails() {
    let mut state = GameState::new(config());
    let user = "u".to_string();
    let err = state.execute_harvest(9, &user, &user, &blank_traits()).unwrap_err();
    assert!(matches!(err, ContractError::NotFound {}));
}

#[test]
fn mint_price_overflow_is_typed() {
    let mut state = GameState::new(GameConfig {
        payment_denom: PAYMENT_DENOM.to_string(),
        spin_cost: 0,
        mint_cost: 1,
        mint_cost_increment: u128::MAX,
        cw721_addr: "cw721".to_string(),
        oracle_addr: "oracle".to_string(),
    });
    state.stats.total_minted = 2;

    let err = state.query_current_mint_price().unwrap_err();
    assert!(matches!(err, ContractError::Overflow {}));
}

#[test]
fn fixed_point_mul_floor_is_exact() {
    assert_eq!(mul_floor_scaled(1000, DECIMAL_SCALE).unwrap(), 1000);
    assert_eq!(mul_floor_scaled(1000, DECIMAL_SCALE / 2).unwrap(), 500);
    assert_eq!(mul_floor_scaled(3, DECIMAL_SCALE / 3).unwrap(), 0);
    // Values far beyond 64 bits stay exact.
    let big = 123_456_789_012_345_678_901_234_567_890u128;
    assert_eq!(mul_floor_scaled(big, DECIMAL_SCALE).unwrap(), big);
    assert_eq!(mul_floor_scaled(big, 2 * DECIMAL_SCALE).unwrap(), 2 * big);
    // A product past the 128-bit range is a typed overflow.
    assert!(matches!(
        mul_floor_scaled(u128::MAX, 2 * DECIMAL_SCALE),
        Err(ContractError::Overflow {})
    ));
}

#[test]
fn randomness_matches_direct_digest() {
    let time: u64 = 123_456_789;
    let height: u64 = 42;
    let nonce: u64 = 7;

    let mut message = Vec::new();
    message.extend_from_slice(&time.to_le_bytes());
    message.extend_from_slice(&height.to_le_bytes());
    message.extend_from_slice(&nonce.to_le_bytes());
    let digest = sha2::Sha256::digest(&message);

    assert_eq!(spore_fates::randomness_byte(time, height, nonce), digest[0]);
}

#[test]
fn resolve_byte_matches_direct_digest() {
    let mut state = GameState::new(config());
    let owner = "owner".to_string();
    let funds = vec![Coin { denom: PAYMENT_DENOM.to_string(), amount: 1_000_000 }];
    state.accounts.push(AccountEntry {
        token_id: 1,
        info: TokenInfo { current_shares: 1, reward_debt: 0, pending_rewards: 0 },
    });
    state.ledger.total_shares = 1;

    state
        .execute_spin(1, TraitTarget::Spores, &owner, &owner, &blank_traits(), &funds, DRAND_GENESIS)
        .unwrap();

    let seed: Vec<u8> = vec![9u8; 32];
    let res = state.execute_resolve_spin(1, &seed, &blank_traits()).unwrap();

    let mut message = seed.clone();
    message.extend_from_slice(b"1");
    let digest = sha2::Sha256::digest(&message);
    assert_eq!(res.random_value, digest[0]);
    assert_eq!(res.success, digest[0] >= 128);
    assert_eq!(
        res.new_value,
        spin_new_value(0, 0, 0, 0, digest[0])
    );
}

#[test]
fn parse_traits_reads_known_keys() {
    let attrs = Some(vec![
        attr("cap", "2"),
        attr("stem", "-1"),
        attr("spores", "3"),
        attr("substrate", "1"),
        attr("base_cap", "10"),
        attr("base_stem", "0"),
        attr("base_spores", "6"),
        attr("genome", "[1, 2, 0, 4, 3, 3, 1, 0]"),
    ]);
    let t = parse_traits(&attrs);
    assert_eq!(t.cap, 2);
    assert_eq!(t.stem, -1);
    assert_eq!(t.spores, 3);
    assert_eq!(t.substrate, 1);
    assert_eq!(t.base_cap, 10);
    assert_eq!(t.base_stem, 0);
    assert_eq!(t.base_spores, 6);
    assert_eq!(t.genes, vec![1, 2, 0, 4, 3, 3, 1, 0]);
}

#[test]
fn parse_traits_defaults_missing_and_malformed() {
    // Nothing at all: everything defaults; the genome falls back to
    // eight rot genes.
    let t = parse_traits(&None);
    assert_eq!(t.cap, 0);
    assert_eq!(t.substrate, 0);
    assert_eq!(t.genes, vec![0; 8]);

    let attrs = Some(vec![
        attr("cap", "abc"),
        attr("stem", "999"),
        attr("spores", "+2"),
        attr("substrate", "-1"),
        attr("genome", "[]"),
    ]);
    let t = parse_traits(&attrs);
    assert_eq!(t.cap, 0); // not a number
    assert_eq!(t.stem, 0); // out of range
    assert_eq!(t.spores, 2); // explicit plus is fine
    assert_eq!(t.substrate, 0); // negative rejected for unsigned
    assert_eq!(t.genes, vec![0; 8]); // empty brackets

    let attrs = Some(vec![attr("genome", "[x, 3,5]")]);
    let t = parse_traits(&attrs);
    assert_eq!(t.genes, vec![0, 3, 5]);
}

#[test]
fn attributes_round_trip() {
    let traits = TraitExtension {
        cap: -2,
        stem: 3,
        spores: 0,
        substrate: 4,
        genes: vec![4, 0, 1, 2, 3, 3, 2, 1],
        base_cap: 1,
        base_stem: 3,
        base_spores: 10,
    };
    let attrs = traits_to_attributes(&traits);
    assert_eq!(attrs.len(), 8);
    assert_eq!(attrs[0].trait_type, "cap");
    assert_eq!(attrs[0].value, "-2");
    assert_eq!(attrs[7].trait_type, "genome");
    assert_eq!(attrs[7].value, "[4, 0, 1, 2, 3, 3, 2, 1]");

    let back = parse_traits(&Some(attrs));
    assert_eq!(back.cap, traits.cap);
    assert_eq!(back.stem, traits.stem);
    assert_eq!(back.spores, traits.spores);
    assert_eq!(back.substrate, traits.substrate);
    assert_eq!(back.genes, traits.genes);
    assert_eq!(back.base_cap, traits.base_cap);
    assert_eq!(back.base_stem, traits.base_stem);
    assert_eq!(back.base_spores, traits.base_spores);
}

#[test]
fn base_stats_follow_the_gene_table() {
    let mut t = TraitExtension {
        cap: 0,
        stem: 0,
        spores: 0,
        substrate: 0,
        genes: vec![1; 8],
        base_cap: 0,
        base_stem: 0,
        base_spores: 0,
    };
    t.recalculate_base_stats();
    assert_eq!(t.base_cap, 10);
    assert_eq!(t.base_stem, 0);
    assert_eq!(t.base_spores, 0);

    // Primordial genes feed every category.
    t.genes = vec![4, 4, 4, 4, 4, 0, 0, 0];
    t.recalculate_base_stats();
    assert_eq!(t.base_cap, 3);
    assert_eq!(t.base_stem, 3);
    assert_eq!(t.base_spores, 3);

    // Three cap genes earn the first bonus step.
    t.genes = vec![1, 1, 1, 0, 0, 0, 0, 0];
    t.recalculate_base_stats();
    assert_eq!(t.base_cap, 1);

    // Seven earn six.
    t.genes = vec![2; 7];
    t.recalculate_base_stats();
    assert_eq!(t.base_stem, 6);
}

#[test]
fn primordial_count_counts_the_rare_gene() {
    assert_eq!(count_primordial(&vec![4, 4, 0, 1, 4]), 3);
    assert_eq!(count_primordial(&vec![0, 1, 2, 3]), 0);
    assert_eq!(count_primordial(&vec![]), 0);
}

#[test]
fn child_substrate_averages_and_boosts() {
    // Floor of the average.
    assert_eq!(child_substrate(3, 0, 255), 1);
    // Equal nonzero tiers with a low synergy byte go one up.
    assert_eq!(child_substrate(2, 2, 50), 3);
    // A high synergy byte does not.
    assert_eq!(child_substrate(2, 2, 51), 2);
    // Zero tiers never boost.
    assert_eq!(child_substrate(0, 0, 0), 0);
    // The boost is capped at the top tier.
    assert_eq!(child_substrate(5, 5, 0), 5);
}

#[test]
fn mint_distributes_price_to_existing_pool() {
    let mut state = GameState::new(config());
    let funds = vec![Coin { denom: PAYMENT_DENOM.to_string(), amount: 1_000_000 }];

    // First mint: empty pool, nothing distributed.
    let first = state.execute_mint(&funds, 1, 2).unwrap();
    assert_eq!(state.ledger.global_reward_index, 0);
    let first_shares = state.query_token_info(first.token_id).unwrap().current_shares;

    // Second mint: its price of 110 spreads over the existing pool
    // before the newcomer joins.
    let expected_bump = 110 / first_shares;
    state.execute_mint(&funds, 3, 4).unwrap();
    assert_eq!(state.ledger.global_reward_index, expected_bump);

    // The first entity can now claim its slice; the second cannot.
    let pending = state
        .query_pending_rewards(first.token_id, &first.traits)
        .unwrap();
    assert_eq!(
        pending.accumulated_rewards as u128,
        first_shares * expected_bump
    );
}

#[test]
fn recycle_forfeits_outright_but_splice_recycles() {
    let user = "player".to_string();

    // Recycle: the pending reward vanishes and the index stays put.
    let mut state = GameState::new(config());
    state.accounts.push(AccountEntry {
        token_id: 1,
        info: TokenInfo { current_shares: 1, reward_debt: 0, pending_rewards: 500 },
    });
    state.accounts.push(AccountEntry {
        token_id: 2,
        info: TokenInfo { current_shares: 99, reward_debt: 0, pending_rewards: 0 },
    });
    state.ledger.total_shares = 100;
    let t = blank_traits(); // weight one, matching the account
    state.execute_recycle(1, &user, &user, &t).unwrap();
    assert_eq!(state.ledger.global_reward_index, 0);
    assert_eq!(state.ledger.total_shares, 99);

    // Splice: both parents' pending reward is recycled to survivors.
    let mut state = GameState::new(config());
    state.accounts.push(AccountEntry {
        token_id: 1,
        info: TokenInfo { current_shares: 1, reward_debt: 0, pending_rewards: 300 },
    });
    state.accounts.push(AccountEntry {
        token_id: 2,
        info: TokenInfo { current_shares: 1, reward_debt: 0, pending_rewards: 100 },
    });
    state.accounts.push(AccountEntry {
        token_id: 3,
        info: TokenInfo { current_shares: 98, reward_debt: 0, pending_rewards: 0 },
    });
    state.ledger.total_shares = 100;
    state.mint_counter = 4;
    let res = state
        .execute_splice(1, 2, &user, &user, &user, &t, &t, 5, 6)
        .unwrap();
    assert_eq!(res.recycled, 400);
    // 400 spread over the 98 surviving shares: 4 per share.
    assert_eq!(state.ledger.global_reward_index, 400 / 98);
}
