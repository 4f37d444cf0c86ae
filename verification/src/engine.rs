//! The mutation engine: the whole game state as one explicit value,
//! and every operation as a transactional step on it. An operation
//! either commits all of its effects or returns a typed error having
//! changed nothing.

use vstd::prelude::*;

use crate::canopy::calculate_canopy_multiplier;
use crate::canopy::spec_canopy_multiplier;
use crate::canopy::GlobalBiomass;
use crate::error::ContractError;
use crate::canopy::spec_total_mass;
use crate::fixed::mul_floor_scaled;
use crate::fixed::spec_mul_floor;
use crate::fixed::DECIMAL_SCALE;
use crate::msg::EcosystemMetricsResponse;
use crate::msg::GameStatsResponse;
use crate::msg::LeaderboardResponse;
use crate::msg::MintPriceResponse;
use crate::msg::PendingRewardsResponse;
use crate::msg::PendingSpinResponse;
use crate::msg::PlayerProfileResponse;
use crate::genetics::category_count;
use crate::genetics::count_matching;
use crate::genetics::gene_or_rot;
use crate::genetics::spec_child_gene;
use crate::genetics::spec_child_substrate;
use crate::genetics::genes_from_digest;
use crate::genetics::PRIMORDIAL_GENE;
use crate::genetics::spec_mint_gene;
use crate::genetics::spec_stat_bonus;
use crate::genetics::TraitExtension;
use crate::leaderboard::lb_upsert;
use crate::leaderboard::lb_wf;
use crate::leaderboard::update_leaderboard;
use crate::msg::TraitTarget;
use crate::rand::sha256;
use crate::rand::sha256_of;
use crate::rand::spec_randomness_msg;
use crate::rand::spec_u64_be;
use crate::rand::spec_u64_dec_bytes;
use crate::rand::randomness_byte;
use crate::rand::u64_be_bytes;
use crate::rand::u64_dec_bytes;
use crate::valuation::calculate_shares;
use crate::valuation::spec_shares;
use crate::valuation::spec_shares_of;
use crate::state::AccountEntry;
use crate::state::Coin;
use crate::state::GameConfig;
use crate::state::GameStats;
use crate::state::GlobalState;
use crate::state::LeaderboardEntry;
use crate::state::PendingSpin;
use crate::state::TokenInfo;

verus! {

/// The whole world state the engine owns: configuration, the global
/// ledger, the biomass aggregate, statistics, the mint counter, every
/// entity account, the pending spins and the leaderboard.
pub struct GameState {
    pub config: GameConfig,
    pub ledger: GlobalState,
    pub biomass: GlobalBiomass,
    pub stats: GameStats,
    pub mint_counter: u64,
    pub accounts: Vec<AccountEntry>,
    pub pending_spins: Vec<PendingSpin>,
    pub leaderboard: Vec<LeaderboardEntry>,
}

/// The share total over a run of accounts.
pub open spec fn sum_shares(s: Seq<AccountEntry>) -> int
    decreases s.len(),
{
    if s.len() == 0 {
        0
    } else {
        sum_shares(s.drop_last()) + s.last().info.current_shares
    }
}

/// No entity has two accounts.
pub open spec fn accounts_unique(s: Seq<AccountEntry>) -> bool {
    forall|i: int, j: int| 0 <= i < j < s.len() ==> s[i].token_id != s[j].token_id
}

/// No entity has two pending spins.
pub open spec fn pending_unique(s: Seq<PendingSpin>) -> bool {
    forall|i: int, j: int| 0 <= i < j < s.len() ==> s[i].token_id != s[j].token_id
}

/// Whether an entity has an account.
pub open spec fn has_account(s: Seq<AccountEntry>, token_id: u64) -> bool {
    exists|i: int| 0 <= i < s.len() && s[i].token_id == token_id
}

/// The position of an entity's account.
pub open spec fn spec_account_index(s: Seq<AccountEntry>, token_id: u64) -> int {
    choose|i: int| 0 <= i < s.len() && s[i].token_id == token_id
}

/// The account of an entity that has one.
pub open spec fn account_of(s: Seq<AccountEntry>, token_id: u64) -> TokenInfo {
    s[spec_account_index(s, token_id)].info
}

/// Whether an entity has a spin awaiting resolution.
pub open spec fn has_pending(s: Seq<PendingSpin>, token_id: u64) -> bool {
    exists|i: int| 0 <= i < s.len() && s[i].token_id == token_id
}

/// The position of an entity's pending spin.
pub open spec fn spec_pending_index(s: Seq<PendingSpin>, token_id: u64) -> int {
    choose|i: int| 0 <= i < s.len() && s[i].token_id == token_id
}

/// The pending spin of an entity that has one.
pub open spec fn pending_of(s: Seq<PendingSpin>, token_id: u64) -> PendingSpin {
    s[spec_pending_index(s, token_id)]
}

impl GameState {
    /// The state invariant: every entity has at most one account and
    /// at most one pending spin; the recorded share total is exactly
    /// the sum of the accounts' shares; no recorded debt exceeds what
    /// the entity's shares are worth at the current index; and the
    /// leaderboard is bounded, sorted and duplicate-free.
    pub open spec fn wf(self) -> bool {
        &&& accounts_unique(self.accounts@)
        &&& sum_shares(self.accounts@) == self.ledger.total_shares
        &&& forall|i: int|
            0 <= i < self.accounts@.len() ==> (#[trigger] self.accounts@[i]).info.reward_debt
                <= self.accounts@[i].info.current_shares * self.ledger.global_reward_index
        &&& pending_unique(self.pending_spins@)
        &&& lb_wf(self.leaderboard@)
    }

    /// Opens a fresh world: zeroed ledger, biomass and statistics, an
    /// empty population, and the mint counter at one.
    pub fn new(config: GameConfig) -> (r: GameState)
        ensures
            r.wf(),
            r.config == config,
            r.ledger.total_shares == 0,
            r.ledger.global_reward_index == 0,
            r.ledger.spin_nonce == 0,
            r.biomass.total_base_cap == 0 && r.biomass.total_base_stem == 0
                && r.biomass.total_base_spores == 0,
            r.mint_counter == 1,
            r.accounts@.len() == 0,
            r.pending_spins@.len() == 0,
            r.leaderboard@.len() == 0,
            r.stats == GameStats::spec_zero(),
    {
        GameState {
            config,
            ledger: GlobalState { total_shares: 0, global_reward_index: 0, spin_nonce: 0 },
            biomass: GlobalBiomass {
                total_base_cap: 0,
                total_base_stem: 0,
                total_base_spores: 0,
            },
            stats: GameStats::new(),
            mint_counter: 1,
            accounts: Vec::new(),
            pending_spins: Vec::new(),
            leaderboard: Vec::new(),
        }
    }
}

/// The sum of a run of accounts is never negative.
pub proof fn lemma_sum_shares_nonneg(s: Seq<AccountEntry>)
    ensures
        sum_shares(s) >= 0,
    decreases s.len(),
{
    if s.len() > 0 {
        lemma_sum_shares_nonneg(s.drop_last());
    }
}

/// Any one account's shares are covered by the sum.
pub proof fn lemma_sum_shares_le(s: Seq<AccountEntry>, i: int)
    requires
        0 <= i < s.len(),
    ensures
        s[i].info.current_shares <= sum_shares(s),
    decreases s.len(),
{
    if i == s.len() - 1 {
        lemma_sum_shares_nonneg(s.drop_last());
    } else {
        lemma_sum_shares_le(s.drop_last(), i);
        assert(s.drop_last()[i] == s[i]);
    }
}

/// Appending an account adds its shares to the sum.
pub proof fn lemma_sum_shares_push(s: Seq<AccountEntry>, e: AccountEntry)
    ensures
        sum_shares(s.push(e)) == sum_shares(s) + e.info.current_shares,
{
    assert(s.push(e).drop_last() =~= s);
}

/// Replacing an account swaps its shares in the sum.
pub proof fn lemma_sum_shares_update(s: Seq<AccountEntry>, i: int, e: AccountEntry)
    requires
        0 <= i < s.len(),
    ensures
        sum_shares(s.update(i, e)) == sum_shares(s) - s[i].info.current_shares
            + e.info.current_shares,
    decreases s.len(),
{
    if i == s.len() - 1 {
        assert(s.update(i, e).drop_last() =~= s.drop_last());
        assert(s.update(i, e).last() == e);
    } else {
        assert(s.update(i, e).drop_last() =~= s.drop_last().update(i, e));
        assert(s.update(i, e).last() == s.last());
        lemma_sum_shares_update(s.drop_last(), i, e);
        assert(s.drop_last()[i] == s[i]);
    }
}

/// Deleting an account takes its shares out of the sum.
pub proof fn lemma_sum_shares_remove(s: Seq<AccountEntry>, i: int)
    requires
        0 <= i < s.len(),
    ensures
        sum_shares(s.remove(i)) == sum_shares(s) - s[i].info.current_shares,
    decreases s.len(),
{
    if i == s.len() - 1 {
        assert(s.remove(i) =~= s.drop_last());
    } else {
        assert(s.remove(i).drop_last() =~= s.drop_last().remove(i));
        assert(s.remove(i).last() == s.last());
        lemma_sum_shares_remove(s.drop_last(), i);
        assert(s.drop_last()[i] == s[i]);
    }
}

/// Deleting an element keeps the remaining ids unique, for accounts.
pub proof fn lemma_accounts_unique_remove(s: Seq<AccountEntry>, i: int)
    requires
        accounts_unique(s),
        0 <= i < s.len(),
    ensures
        accounts_unique(s.remove(i)),
{
    let r = s.remove(i);
    assert forall|a: int, b: int| 0 <= a < b < r.len() implies r[a].token_id != r[b].token_id by {
        let oa: int = if a < i { a } else { a + 1 };
        let ob: int = if b < i { b } else { b + 1 };
        assert(r[a] == s[oa] && r[b] == s[ob]);
    }
}

/// Deleting an element keeps the remaining ids unique, for pending
/// spins.
pub proof fn lemma_pending_unique_remove(s: Seq<PendingSpin>, i: int)
    requires
        pending_unique(s),
        0 <= i < s.len(),
    ensures
        pending_unique(s.remove(i)),
{
    let r = s.remove(i);
    assert forall|a: int, b: int| 0 <= a < b < r.len() implies r[a].token_id != r[b].token_id by {
        let oa: int = if a < i { a } else { a + 1 };
        let ob: int = if b < i { b } else { b + 1 };
        assert(r[a] == s[oa] && r[b] == s[ob]);
    }
}

/// Reward newly accrued to an account since its last checkpoint: its
/// shares valued at the current index, less the recorded debt, floored
/// at zero.
pub open spec fn spec_accrued(info: TokenInfo, index: u128) -> int {
    if info.current_shares * index >= info.reward_debt {
        info.current_shares * index - info.reward_debt
    } else {
        0
    }
}

/// All reward an account could claim right now: stored pending plus
/// newly accrued.
pub open spec fn spec_pending_total(info: TokenInfo, index: u128) -> int {
    info.pending_rewards + spec_accrued(info, index)
}

/// Net supply: everything minted less everything burned.
pub open spec fn spec_supply(stats: GameStats) -> int {
    if stats.total_minted >= stats.total_burned {
        stats.total_minted - stats.total_burned
    } else {
        0
    }
}

/// The bonding-curve mint price: base price plus increment times net
/// supply.
pub open spec fn spec_mint_price(config: GameConfig, stats: GameStats) -> int {
    config.mint_cost + config.mint_cost_increment * spec_supply(stats)
}

/// The reward index after distributing an amount over the pool: the
/// amount per share, rounded down, is added — unless the pool is
/// empty, in which case the revenue is not distributed anywhere.
pub open spec fn spec_distribute(index: int, amount: int, total: int) -> int {
    if total > 0 {
        index + amount / total
    } else {
        index
    }
}

/// Finds the position of an entity's account.
pub fn find_account(accounts: &Vec<AccountEntry>, token_id: u64) -> (r: Option<usize>)
    ensures
        r matches Some(i) ==> i < accounts@.len() && accounts@[i as int].token_id == token_id,
        r is Some <==> has_account(accounts@, token_id),
        r matches Some(i) ==> (accounts_unique(accounts@) ==> i == spec_account_index(
            accounts@,
            token_id,
        ) && accounts@[i as int].info == account_of(accounts@, token_id)),
{
    let n = accounts.len();
    let mut i: usize = 0;
    while i < n
        invariant
            i <= n,
            n == accounts@.len(),
            forall|j: int| 0 <= j < i ==> accounts@[j].token_id != token_id,
        decreases n - i,
    {
        if accounts[i].token_id == token_id {
            proof {
                if accounts_unique(accounts@) {
                    let j = spec_account_index(accounts@, token_id);
                    assert(0 <= j < accounts@.len() && accounts@[j].token_id == token_id);
                    if i < j {
                        assert(accounts@[i as int].token_id != accounts@[j].token_id);
                    } else if j < i {
                        assert(accounts@[j].token_id != accounts@[i as int].token_id);
                    }
                }
            }
            return Some(i);
        }
        i = i + 1;
    }
    None
}

/// Finds the position of an entity's pending spin.
pub fn find_pending(pending: &Vec<PendingSpin>, token_id: u64) -> (r: Option<usize>)
    ensures
        r matches Some(i) ==> i < pending@.len() && pending@[i as int].token_id == token_id,
        r is Some <==> has_pending(pending@, token_id),
        r matches Some(i) ==> (pending_unique(pending@) ==> i == spec_pending_index(
            pending@,
            token_id,
        ) && pending@[i as int] == pending_of(pending@, token_id)),
{
    let n = pending.len();
    let mut i: usize = 0;
    while i < n
        invariant
            i <= n,
            n == pending@.len(),
            forall|j: int| 0 <= j < i ==> pending@[j].token_id != token_id,
        decreases n - i,
    {
        if pending[i].token_id == token_id {
            proof {
                if pending_unique(pending@) {
                    let j = spec_pending_index(pending@, token_id);
                    assert(0 <= j < pending@.len() && pending@[j].token_id == token_id);
                    if i < j {
                        assert(pending@[i as int].token_id != pending@[j].token_id);
                    } else if j < i {
                        assert(pending@[j].token_id != pending@[i as int].token_id);
                    }
                }
            }
            return Some(i);
        }
        i = i + 1;
    }
    None
}

/// The first payment of a denomination, if any.
pub open spec fn first_matching_coin(funds: Seq<Coin>, denom: Seq<char>) -> Option<Coin>
    decreases funds.len(),
{
    if funds.len() == 0 {
        None
    } else if funds[0].denom@ == denom {
        Some(funds[0])
    } else {
        first_matching_coin(funds.drop_first(), denom)
    }
}

/// A left-to-right scan that stops at the first matching denomination
/// finds exactly the first matching payment.
proof fn lemma_first_coin_scan(funds: Seq<Coin>, denom: Seq<char>, i: int)
    requires
        0 <= i <= funds.len(),
        forall|j: int| 0 <= j < i ==> (#[trigger] funds[j]).denom@ != denom,
        i < funds.len() ==> funds[i].denom@ == denom,
    ensures
        i < funds.len() ==> first_matching_coin(funds, denom) == Some(funds[i]),
        i == funds.len() ==> first_matching_coin(funds, denom) is None,
    decreases i, funds.len(),
{
    if funds.len() == 0 {
    } else if i == 0 {
    } else {
        assert(funds[0].denom@ != denom);
        assert forall|j: int| 0 <= j < i - 1 implies (#[trigger] funds.drop_first()[j]).denom@
            != denom by {
            assert(funds.drop_first()[j] == funds[j + 1]);
        }
        if i - 1 < funds.drop_first().len() {
            assert(funds.drop_first()[i - 1] == funds[i]);
        }
        lemma_first_coin_scan(funds.drop_first(), denom, i - 1);
    }
}

/// Finds the first payment of the given denomination.
pub fn find_coin<'a>(funds: &'a Vec<Coin>, denom: &String) -> (r: Option<&'a Coin>)
    ensures
        r matches Some(c) ==> first_matching_coin(funds@, denom@) == Some(*c),
        r is None ==> first_matching_coin(funds@, denom@) is None,
{
    let n = funds.len();
    let mut i: usize = 0;
    while i < n
        invariant
            i <= n,
            n == funds@.len(),
            forall|j: int| 0 <= j < i ==> (#[trigger] funds@[j]).denom@ != denom@,
        decreases n - i,
    {
        if funds[i].denom == *denom {
            proof {
                lemma_first_coin_scan(funds@, denom@, i as int);
            }
            return Some(&funds[i]);
        }
        i = i + 1;
    }
    proof {
        lemma_first_coin_scan(funds@, denom@, n as int);
    }
    None
}

/// Genesis timestamp of the randomness beacon, in seconds.
pub const DRAND_GENESIS: u64 = 1692803367;

/// Seconds between randomness rounds.
pub const DRAND_PERIOD: u64 = 3;

/// How much a spin costs relative to the base cost, by prestige tier:
/// high tiers pay steeply for their high-weight mutations.
pub open spec fn spec_spin_cost_multiplier(substrate: u8) -> int {
    if substrate == 0 {
        1
    } else if substrate == 1 {
        2
    } else if substrate == 2 {
        3
    } else if substrate == 3 {
        5
    } else if substrate == 4 {
        10
    } else {
        20
    }
}

/// The digest byte a spin must reach to succeed: a fair coin below
/// tier three, and a lower bar — easier wins — from tier three up,
/// by the same twelve-point margin the fee curve already charges for.
pub open spec fn spec_spin_threshold(substrate: u8) -> u8 {
    if substrate >= 3 {
        116
    } else {
        128
    }
}

/// A winning spin's new stat value: a double increment at tier four
/// and above when the digest byte lands on a multiple of ten,
/// otherwise a straight flip from -1 to +1, otherwise one step up,
/// clamped at +3.
pub open spec fn spec_spin_success_value(cur: i8, substrate: u8, rv: u8) -> i8 {
    if substrate >= 4 && rv % 10 == 0 {
        if cur + 2 > 3 {
            3
        } else {
            (cur + 2) as i8
        }
    } else if cur == -1 {
        1
    } else if cur + 1 > 3 {
        3
    } else {
        (cur + 1) as i8
    }
}

/// A losing spin's new stat value: unchanged under any protection — a
/// stable genome (three or more primordial genes), a maxed base stat,
/// or a +1 stat at tier two and above — else a whipsaw from +1 to -1,
/// else one step down, clamped at -3.
pub open spec fn spec_spin_failure_value(cur: i8, base: u8, substrate: u8, primordial: int) -> i8 {
    if primordial >= 3 {
        cur
    } else if base >= 10 || (cur == 1 && substrate >= 2) {
        cur
    } else if cur == 1 {
        (-1) as i8
    } else if cur - 1 < -3 {
        (-3) as i8
    } else {
        (cur - 1) as i8
    }
}

/// The stat value a resolved spin leaves, from the digest byte and the
/// entity's state.
pub open spec fn spec_spin_new_value(
    cur: i8,
    base: u8,
    substrate: u8,
    primordial: int,
    rv: u8,
) -> i8 {
    if rv >= spec_spin_threshold(substrate) {
        spec_spin_success_value(cur, substrate, rv)
    } else {
        spec_spin_failure_value(cur, base, substrate, primordial)
    }
}

/// Computes the stat value a resolved spin leaves. Takes the digest
/// byte as a plain argument, so the whole outcome rule is checkable on
/// chosen values.
pub fn spin_new_value(
    cur: i8,
    base: u8,
    substrate: u8,
    primordial_count: usize,
    random_value: u8,
) -> (r: i8)
    ensures
        r == spec_spin_new_value(cur, base, substrate, primordial_count as int, random_value),
{
    let threshold: u8 = if substrate >= 3 {
        116
    } else {
        128
    };
    if random_value >= threshold {
        if substrate >= 4 && random_value % 10 == 0 {
            if cur >= 1 {
                3
            } else {
                cur + 2
            }
        } else if cur == -1 {
            1
        } else if cur >= 3 {
            3
        } else {
            cur + 1
        }
    } else {
        if primordial_count >= 3 {
            cur
        } else if base >= 10 || (cur == 1 && substrate >= 2) {
            cur
        } else if cur == 1 {
            -1
        } else if cur <= -3 {
            -3
        } else {
            cur - 1
        }
    }
}

/// On success a -1 stat flips straight to +1, never stopping at zero;
/// on failure a +1 stat survives at tier two and above.
pub proof fn lemma_spin_whipsaw_and_safety(base: u8, substrate: u8, primordial: int, rv: u8)
    ensures
        rv >= spec_spin_threshold(substrate) ==> spec_spin_new_value(
            (-1) as i8,
            base,
            substrate,
            primordial,
            rv,
        ) == 1,
        (rv < spec_spin_threshold(substrate) && substrate >= 2) ==> spec_spin_new_value(
            1,
            base,
            substrate,
            primordial,
            rv,
        ) == 1,
{
}

/// All reward an account could claim right now: stored pending plus
/// what its shares have accrued since the last checkpoint. Fails when
/// valuing the shares at the index, or adding the accrual, leaves 128
/// bits.
pub fn accrue(info: &TokenInfo, index: u128) -> (r: Result<u128, ContractError>)
    ensures
        r is Ok <==> (info.current_shares * index <= u128::MAX && spec_pending_total(*info, index)
            <= u128::MAX),
        r matches Ok(v) ==> v == spec_pending_total(*info, index),
        r is Err ==> r matches Err(ContractError::Overflow {  }),
{
    let valued = match info.current_shares.checked_mul(index) {
        Some(v) => v,
        None => {
            return Err(ContractError::Overflow {  });
        },
    };
    let accrued: u128 = if valued >= info.reward_debt {
        valued - info.reward_debt
    } else {
        0
    };
    match info.pending_rewards.checked_add(accrued) {
        Some(v) => Ok(v),
        None => Err(ContractError::Overflow {  }),
    }
}

/// What a mint commits: the fresh entity's id, the price charged, and
/// the trait state handed to the registry.
#[derive(Clone, Debug)]
pub struct MintOutcome {
    pub token_id: u64,
    pub price_paid: u128,
    pub traits: TraitExtension,
}

/// The pseudo-random byte a mint draws from block data and the nonce.
pub open spec fn spec_block_seed(s: GameState, time_nanos: u64, height: u64) -> u8 {
    sha256_of(spec_randomness_msg(time_nanos, height, s.ledger.spin_nonce))[0]
}

/// The digest a mint derives its genome from: the seed byte, the
/// block time big-endian, and the new entity's decimal id.
pub open spec fn spec_mint_digest(s: GameState, time_nanos: u64, height: u64) -> Seq<u8> {
    sha256_of(
        seq![spec_block_seed(s, time_nanos, height)] + spec_u64_be(time_nanos)
            + spec_u64_dec_bytes(s.mint_counter),
    )
}

/// The genome a digest mints: one gene per byte, primordial excluded.
pub open spec fn spec_genes_of_digest(digest: Seq<u8>) -> Seq<u8> {
    Seq::new(8, |i: int| spec_mint_gene(digest[i]))
}

/// The base stat one category earns from a genome.
pub open spec fn spec_base_of(genes: Seq<u8>, sym: u8) -> u8 {
    spec_stat_bonus(category_count(genes, sym))
}

/// The share weight of a freshly derived genome: zero volatile stats
/// and tier zero, so the weight comes from the base stats alone.
pub open spec fn spec_fresh_shares(genes: Seq<u8>) -> int {
    spec_shares_of(
        0,
        0,
        0,
        0,
        spec_base_of(genes, 1),
        spec_base_of(genes, 2),
        spec_base_of(genes, 3),
    )
}

/// Whether every ledger write a mint makes fits in 128 bits.
pub open spec fn spec_mint_fits(s: GameState, price: int, time_nanos: u64, height: u64) -> bool {
    let genes = spec_genes_of_digest(spec_mint_digest(s, time_nanos, height));
    let shares = spec_fresh_shares(genes);
    let idx2 = spec_distribute(
        s.ledger.global_reward_index as int,
        price,
        s.ledger.total_shares as int,
    );
    &&& idx2 <= u128::MAX
    &&& shares * idx2 <= u128::MAX
    &&& s.ledger.total_shares + shares <= u128::MAX
    &&& s.biomass.total_base_cap + spec_base_of(genes, 1) <= u128::MAX
    &&& s.biomass.total_base_stem + spec_base_of(genes, 2) <= u128::MAX
    &&& s.biomass.total_base_spores + spec_base_of(genes, 3) <= u128::MAX
}

/// Whether a mint's payment passes: nothing is owed, or the first
/// payment of the configured denomination covers the price.
pub open spec fn spec_mint_payment_ok(s: GameState, funds: Seq<Coin>, price: int) -> bool {
    price <= 0 || (first_matching_coin(funds, s.config.payment_denom@) matches Some(c) && c.amount
        >= price)
}

impl GameState {
    /// Mints a new entity: charges the bonding-curve price,
    /// distributes it to the existing pool before the newcomer's
    /// shares join (so the minter earns no cut of its own purchase),
    /// derives a genome from block data, and opens the account at the
    /// post-distribution index.
    pub fn execute_mint(
        &mut self,
        funds: &Vec<Coin>,
        block_time_nanos: u64,
        block_height: u64,
    ) -> (r: Result<MintOutcome, ContractError>)
        requires
            old(self).wf(),
            old(self).mint_counter < u64::MAX,
            old(self).ledger.spin_nonce < u64::MAX,
            !has_account(old(self).accounts@, old(self).mint_counter),
        ensures
            final(self).wf(),
            r is Err ==> *final(self) == *old(self),
            ({
                let price = spec_mint_price(old(self).config, old(self).stats);
                &&& (price > u128::MAX ==> r == Err::<MintOutcome, ContractError>(
                    ContractError::Overflow {  },
                ))
                &&& (price <= u128::MAX && price > 0 && first_matching_coin(
                    funds@,
                    old(self).config.payment_denom@,
                ) is None ==> r == Err::<MintOutcome, ContractError>(
                    ContractError::InvalidPayment {  },
                ))
                &&& (price <= u128::MAX && price > 0 && (first_matching_coin(
                    funds@,
                    old(self).config.payment_denom@,
                ) matches Some(c) && c.amount < price) ==> r == Err::<MintOutcome, ContractError>(
                    ContractError::InsufficientFunds {  },
                ))
                &&& (price <= u128::MAX && spec_mint_payment_ok(*old(self), funds@, price)
                    && !spec_mint_fits(*old(self), price, block_time_nanos, block_height) ==> r
                    == Err::<MintOutcome, ContractError>(ContractError::Overflow {  }))
                &&& (r is Ok <==> price <= u128::MAX && spec_mint_payment_ok(
                    *old(self),
                    funds@,
                    price,
                ) && spec_mint_fits(*old(self), price, block_time_nanos, block_height))
            }),
            r matches Ok(out) ==> ({
                let price = spec_mint_price(old(self).config, old(self).stats);
                let genes = spec_genes_of_digest(
                    spec_mint_digest(*old(self), block_time_nanos, block_height),
                );
                let shares = spec_fresh_shares(genes);
                let idx2 = spec_distribute(
                    old(self).ledger.global_reward_index as int,
                    price,
                    old(self).ledger.total_shares as int,
                );
                &&& out.token_id == old(self).mint_counter
                &&& out.price_paid == price
                &&& out.traits.cap == 0 && out.traits.stem == 0 && out.traits.spores == 0
                    && out.traits.substrate == 0
                &&& out.traits.genes@ == genes
                &&& out.traits.base_cap == spec_base_of(genes, 1)
                &&& out.traits.base_stem == spec_base_of(genes, 2)
                &&& out.traits.base_spores == spec_base_of(genes, 3)
                &&& final(self).mint_counter == old(self).mint_counter + 1
                &&& final(self).ledger.spin_nonce == old(self).ledger.spin_nonce + 1
                &&& final(self).ledger.global_reward_index == idx2
                &&& final(self).ledger.total_shares == old(self).ledger.total_shares + shares
                &&& final(self).biomass.total_base_cap == old(self).biomass.total_base_cap
                    + spec_base_of(genes, 1)
                &&& final(self).biomass.total_base_stem == old(self).biomass.total_base_stem
                    + spec_base_of(genes, 2)
                &&& final(self).biomass.total_base_spores == old(self).biomass.total_base_spores
                    + spec_base_of(genes, 3)
                &&& final(self).accounts@ == old(self).accounts@.push(
                    AccountEntry {
                        token_id: old(self).mint_counter,
                        info: TokenInfo {
                            current_shares: shares as u128,
                            reward_debt: (shares * idx2) as u128,
                            pending_rewards: 0,
                        },
                    },
                )
                &&& final(self).leaderboard@ == lb_upsert(
                    old(self).leaderboard@,
                    old(self).mint_counter,
                    shares as u128,
                )
                &&& final(self).pending_spins == old(self).pending_spins
                &&& final(self).config == old(self).config
                &&& final(self).stats.total_minted == old(self).stats.total_minted.saturating_add(
                    1,
                )
                &&& final(self).stats.total_mint_volume
                    == old(self).stats.total_mint_volume.saturating_add(price as u128)
                &&& final(self).stats.total_burned == old(self).stats.total_burned
                &&& final(self).stats.total_spins == old(self).stats.total_spins
            }),
    {
        let ghost pre = *self;
        // Bonding-curve price.
        let supply: u64 = self.stats.total_minted.saturating_sub(self.stats.total_burned);
        let increment_total = match self.config.mint_cost_increment.checked_mul(supply as u128) {
            Some(v) => v,
            None => {
                return Err(ContractError::Overflow {  });
            },
        };
        let price = match self.config.mint_cost.checked_add(increment_total) {
            Some(v) => v,
            None => {
                return Err(ContractError::Overflow {  });
            },
        };
        // Payment validation.
        if price > 0 {
            let payment = match find_coin(funds, &self.config.payment_denom) {
                Some(c) => c,
                None => {
                    return Err(ContractError::InvalidPayment {  });
                },
            };
            if payment.amount < price {
                return Err(ContractError::InsufficientFunds {  });
            }
        }
        // Genome from block data.
        let token_id = self.mint_counter;
        let seed = randomness_byte(block_time_nanos, block_height, self.ledger.spin_nonce);
        let mut hash_input: Vec<u8> = Vec::new();
        hash_input.push(seed);
        let time_bytes = u64_be_bytes(block_time_nanos);
        let id_bytes = u64_dec_bytes(token_id);
        hash_input.extend_from_slice(time_bytes.as_slice());
        hash_input.extend_from_slice(id_bytes.as_slice());
        proof {
            assert(hash_input@ =~= seq![
                spec_block_seed(pre, block_time_nanos, block_height),
            ] + spec_u64_be(block_time_nanos) + spec_u64_dec_bytes(pre.mint_counter));
        }
        let digest = sha256(&hash_input);
        let genes = genes_from_digest(&digest);
        proof {
            assert(genes@ =~= spec_genes_of_digest(
                spec_mint_digest(pre, block_time_nanos, block_height),
            ));
        }
        let mut new_traits = TraitExtension {
            cap: 0,
            stem: 0,
            spores: 0,
            substrate: 0,
            genes,
            base_cap: 0,
            base_stem: 0,
            base_spores: 0,
        };
        new_traits.recalculate_base_stats();
        let shares = calculate_shares(&new_traits);
        // Distribute the price to the existing pool, then fit checks.
        let old_index = self.ledger.global_reward_index;
        let idx2: u128 = if self.ledger.total_shares > 0 && price > 0 {
            let per_share = price / self.ledger.total_shares;
            match old_index.checked_add(per_share) {
                Some(v) => v,
                None => {
                    return Err(ContractError::Overflow {  });
                },
            }
        } else {
            old_index
        };
        let debt = match shares.checked_mul(idx2) {
            Some(v) => v,
            None => {
                return Err(ContractError::Overflow {  });
            },
        };
        let new_total = match self.ledger.total_shares.checked_add(shares) {
            Some(v) => v,
            None => {
                return Err(ContractError::Overflow {  });
            },
        };
        let bio_cap = match self.biomass.total_base_cap.checked_add(new_traits.base_cap as u128) {
            Some(v) => v,
            None => {
                return Err(ContractError::Overflow {  });
            },
        };
        let bio_stem = match self.biomass.total_base_stem.checked_add(
            new_traits.base_stem as u128,
        ) {
            Some(v) => v,
            None => {
                return Err(ContractError::Overflow {  });
            },
        };
        let bio_spores = match self.biomass.total_base_spores.checked_add(
            new_traits.base_spores as u128,
        ) {
            Some(v) => v,
            None => {
                return Err(ContractError::Overflow {  });
            },
        };
        // Commit.
        self.mint_counter = token_id + 1;
        self.ledger.spin_nonce = self.ledger.spin_nonce + 1;
        self.ledger.global_reward_index = idx2;
        self.ledger.total_shares = new_total;
        self.biomass = GlobalBiomass {
            total_base_cap: bio_cap,
            total_base_stem: bio_stem,
            total_base_spores: bio_spores,
        };
        self.stats.total_minted = self.stats.total_minted.saturating_add(1);
        self.stats.total_mint_volume = self.stats.total_mint_volume.saturating_add(price);
        let info = TokenInfo { current_shares: shares, reward_debt: debt, pending_rewards: 0 };
        self.accounts.push(AccountEntry { token_id, info });
        update_leaderboard(&mut self.leaderboard, token_id, shares);
        proof {
            lemma_sum_shares_push(pre.accounts@, AccountEntry { token_id, info });
            assert(accounts_unique(self.accounts@)) by {
                assert forall|a: int, b: int|
                    0 <= a < b < self.accounts@.len() implies self.accounts@[a].token_id
                    != self.accounts@[b].token_id by {
                    if b < pre.accounts@.len() {
                        assert(self.accounts@[a] == pre.accounts@[a]);
                        assert(self.accounts@[b] == pre.accounts@[b]);
                    } else {
                        assert(self.accounts@[a] == pre.accounts@[a]);
                        assert(!(pre.accounts@[a].token_id == token_id));
                    }
                }
            }
            assert forall|i: int|
                0 <= i < self.accounts@.len() implies (
            #[trigger] self.accounts@[i]).info.reward_debt <= self.accounts@[i].info.current_shares
                * self.ledger.global_reward_index by {
                if i < pre.accounts@.len() {
                    assert(self.accounts@[i] == pre.accounts@[i]);
                    vstd::arithmetic::mul::lemma_mul_inequality(
                        pre.ledger.global_reward_index as int,
                        idx2 as int,
                        pre.accounts@[i].info.current_shares as int,
                    );
                    vstd::arithmetic::mul::lemma_mul_is_commutative(
                        pre.ledger.global_reward_index as int,
                        pre.accounts@[i].info.current_shares as int,
                    );
                    vstd::arithmetic::mul::lemma_mul_is_commutative(
                        idx2 as int,
                        pre.accounts@[i].info.current_shares as int,
                    );
                }
            }
        }
        Ok(MintOutcome { token_id, price_paid: price, traits: new_traits })
    }
}

/// What a spin request commits: the entity, the randomness round the
/// spin is bound to, and the fee taken.
#[derive(Clone, Copy, Debug, PartialEq, Eq, Structural)]
pub struct SpinOutcome {
    pub token_id: u64,
    pub target_round: u64,
    pub required_payment: u128,
}

/// The volatile stat a target names.
pub open spec fn spec_stat_of(t: TraitExtension, target: TraitTarget) -> i8 {
    match target {
        TraitTarget::Cap => t.cap,
        TraitTarget::Stem => t.stem,
        TraitTarget::Spores => t.spores,
    }
}

/// The base stat a target names.
pub open spec fn spec_base_stat_of(t: TraitExtension, target: TraitTarget) -> u8 {
    match target {
        TraitTarget::Cap => t.base_cap,
        TraitTarget::Stem => t.base_stem,
        TraitTarget::Spores => t.base_spores,
    }
}

/// The share weight after one volatile stat is replaced.
pub open spec fn spec_shares_with(t: TraitExtension, target: TraitTarget, nv: i8) -> int {
    spec_shares_of(
        if target is Cap {
            nv
        } else {
            t.cap
        },
        if target is Stem {
            nv
        } else {
            t.stem
        },
        if target is Spores {
            nv
        } else {
            t.spores
        },
        t.substrate,
        t.base_cap,
        t.base_stem,
        t.base_spores,
    )
}

impl GameState {
    /// Requests a spin: rejects a second spin while one is pending,
    /// checks ownership and payment (the fee scales with the prestige
    /// tier), checkpoints the entity's pending reward, and records a
    /// spin bound to the round after the currently revealable one — so
    /// the outcome cannot be foreseen.
    pub fn execute_spin(
        &mut self,
        token_id: u64,
        trait_target: TraitTarget,
        sender: &String,
        owner: &String,
        traits: &TraitExtension,
        funds: &Vec<Coin>,
        block_time_seconds: u64,
    ) -> (r: Result<SpinOutcome, ContractError>)
        requires
            old(self).wf(),
            block_time_seconds >= DRAND_GENESIS,
        ensures
            final(self).wf(),
            r is Err ==> *final(self) == *old(self),
            has_pending(old(self).pending_spins@, token_id) ==> r == Err::<
                SpinOutcome,
                ContractError,
            >(ContractError::HasPendingSpin {  }),
            ({
                let hp = has_pending(old(self).pending_spins@, token_id);
                let cost = old(self).config.spin_cost * spec_spin_cost_multiplier(
                    traits.substrate,
                );
                let coin = first_matching_coin(funds@, old(self).config.payment_denom@);
                let acct_ok = !has_account(old(self).accounts@, token_id) || (account_of(
                    old(self).accounts@,
                    token_id,
                ).current_shares * old(self).ledger.global_reward_index <= u128::MAX
                    && spec_pending_total(
                    account_of(old(self).accounts@, token_id),
                    old(self).ledger.global_reward_index,
                ) <= u128::MAX);
                &&& (!hp && owner@ != sender@ ==> r == Err::<SpinOutcome, ContractError>(
                    ContractError::Unauthorized {  },
                ))
                &&& (!hp && owner@ == sender@ && cost > u128::MAX ==> r == Err::<
                    SpinOutcome,
                    ContractError,
                >(ContractError::Overflow {  }))
                &&& (!hp && owner@ == sender@ && cost <= u128::MAX && coin is None ==> r == Err::<
                    SpinOutcome,
                    ContractError,
                >(ContractError::InvalidPayment {  }))
                &&& (!hp && owner@ == sender@ && cost <= u128::MAX && (coin matches Some(c)
                    && c.amount < cost) ==> r == Err::<SpinOutcome, ContractError>(
                    ContractError::InsufficientFunds {  },
                ))
                &&& (!hp && owner@ == sender@ && cost <= u128::MAX && (coin matches Some(c)
                    && c.amount >= cost) && !acct_ok ==> r == Err::<SpinOutcome, ContractError>(
                    ContractError::Overflow {  },
                ))
                &&& (r is Ok <==> !hp && owner@ == sender@ && cost <= u128::MAX && (
                coin matches Some(c) && c.amount >= cost) && acct_ok)
            }),
            r matches Ok(out) ==> ({
                let cost = old(self).config.spin_cost * spec_spin_cost_multiplier(
                    traits.substrate,
                );
                let round = ((block_time_seconds - DRAND_GENESIS) as int / DRAND_PERIOD as int)
                    + 1;
                let old_pending = old(self).pending_spins@;
                &&& out.token_id == token_id
                &&& out.target_round == round
                &&& out.required_payment == cost
                &&& final(self).pending_spins@.len() == old_pending.len() + 1
                &&& (forall|j: int|
                    0 <= j < old_pending.len() ==> final(self).pending_spins@[j]
                        == old_pending[j])
                &&& final(self).pending_spins@.last().token_id == token_id
                &&& final(self).pending_spins@.last().player@ == sender@
                &&& final(self).pending_spins@.last().target == trait_target
                &&& final(self).pending_spins@.last().bid_amount == cost
                &&& final(self).pending_spins@.last().target_round == round
                &&& (has_account(old(self).accounts@, token_id) ==> final(self).accounts@
                    == old(self).accounts@.update(
                    spec_account_index(old(self).accounts@, token_id),
                    AccountEntry {
                        token_id,
                        info: TokenInfo {
                            current_shares: account_of(
                                old(self).accounts@,
                                token_id,
                            ).current_shares,
                            reward_debt: (account_of(old(self).accounts@, token_id).current_shares
                                * old(self).ledger.global_reward_index) as u128,
                            pending_rewards: spec_pending_total(
                                account_of(old(self).accounts@, token_id),
                                old(self).ledger.global_reward_index,
                            ) as u128,
                        },
                    },
                ))
                &&& (!has_account(old(self).accounts@, token_id) ==> final(self).accounts@
                    == old(self).accounts@)
                &&& final(self).ledger == old(self).ledger
                &&& final(self).biomass == old(self).biomass
                &&& final(self).leaderboard == old(self).leaderboard
                &&& final(self).mint_counter == old(self).mint_counter
                &&& final(self).config == old(self).config
                &&& final(self).stats.total_spin_volume
                    == old(self).stats.total_spin_volume.saturating_add(cost as u128)
                &&& final(self).stats.total_spins == old(self).stats.total_spins
                &&& final(self).stats.total_minted == old(self).stats.total_minted
            }),
    {
        let ghost pre = *self;
        // At most one pending spin per entity.
        if find_pending(&self.pending_spins, token_id).is_some() {
            return Err(ContractError::HasPendingSpin {  });
        }
        // Ownership.
        if !(*owner == *sender) {
            return Err(ContractError::Unauthorized {  });
        }
        // Cost scales with the prestige tier.
        let cost_multiplier: u128 = if traits.substrate == 0 {
            1
        } else if traits.substrate == 1 {
            2
        } else if traits.substrate == 2 {
            3
        } else if traits.substrate == 3 {
            5
        } else if traits.substrate == 4 {
            10
        } else {
            20
        };
        let required_payment = match self.config.spin_cost.checked_mul(cost_multiplier) {
            Some(v) => v,
            None => {
                return Err(ContractError::Overflow {  });
            },
        };
        // Payment.
        let payment = match find_coin(funds, &self.config.payment_denom) {
            Some(c) => c,
            None => {
                return Err(ContractError::InvalidPayment {  });
            },
        };
        if payment.amount < required_payment {
            return Err(ContractError::InsufficientFunds {  });
        }
        // Checkpoint the entity's pending reward at the current index.
        let index = self.ledger.global_reward_index;
        let checkpointed: Option<(usize, TokenInfo)> = match find_account(
            &self.accounts,
            token_id,
        ) {
            Some(ai) => {
                let acct = self.accounts[ai].info;
                let pending = match accrue(&acct, index) {
                    Ok(v) => v,
                    Err(e) => {
                        return Err(e);
                    },
                };
                let debt = acct.current_shares * index;
                Some(
                    (
                        ai,
                        TokenInfo {
                            current_shares: acct.current_shares,
                            reward_debt: debt,
                            pending_rewards: pending,
                        },
                    ),
                )
            },
            None => None,
        };
        // Bind to the round after the currently revealable one.
        let current_round = (block_time_seconds - DRAND_GENESIS) / DRAND_PERIOD;
        let target_round = current_round + 1;
        // Commit.
        match checkpointed {
            Some((ai, info)) => {
                proof {
                    lemma_sum_shares_update(
                        pre.accounts@,
                        ai as int,
                        AccountEntry { token_id, info },
                    );
                    assert forall|a: int, b: int|
                        0 <= a < b < pre.accounts@.update(
                            ai as int,
                            AccountEntry { token_id, info },
                        ).len() implies pre.accounts@.update(
                        ai as int,
                        AccountEntry { token_id, info },
                    )[a].token_id != pre.accounts@.update(
                        ai as int,
                        AccountEntry { token_id, info },
                    )[b].token_id by {
                        assert(pre.accounts@[a].token_id != pre.accounts@[b].token_id);
                    }
                }
                self.accounts.set(ai, AccountEntry { token_id, info });
            },
            None => {},
        }
        let spin = PendingSpin {
            token_id,
            player: sender.clone(),
            target: trait_target,
            bid_amount: required_payment,
            target_round,
        };
        self.pending_spins.push(spin);
        self.stats.total_spin_volume = self.stats.total_spin_volume.saturating_add(
            required_payment,
        );
        proof {
            assert forall|a: int, b: int|
                0 <= a < b < self.pending_spins@.len() implies self.pending_spins@[a].token_id
                != self.pending_spins@[b].token_id by {
                if b < pre.pending_spins@.len() {
                    assert(self.pending_spins@[a] == pre.pending_spins@[a]);
                    assert(self.pending_spins@[b] == pre.pending_spins@[b]);
                } else {
                    assert(self.pending_spins@[a] == pre.pending_spins@[a]);
                    assert(!(pre.pending_spins@[a].token_id == token_id));
                }
            }
        }
        Ok(SpinOutcome { token_id, target_round, required_payment })
    }
}

/// What a harvest commits: the amount paid out, the multiplier it was
/// scaled by, the amount forfeited to the pool, and the reset trait
/// state to write back to the registry.
#[derive(Clone, Debug)]
pub struct HarvestOutcome {
    pub token_id: u64,
    pub payout: u128,
    pub multiplier: u128,
    pub forfeited: u128,
    pub new_traits: TraitExtension,
}

/// Which stat a harvest's tier perk raises: drawn from the payout, or
/// from the length of the harvester's address when nothing was paid.
pub open spec fn spec_harvest_bonus(payout: u128, sender_len: int) -> int {
    (if payout == 0 {
        sender_len
    } else {
        payout as int
    }) % 3
}

/// The volatile stats a harvest leaves: all zero, except that at tier
/// one and above the drawn stat is set to one.
pub open spec fn spec_harvest_stat(substrate: u8, bonus: int, slot: int) -> i8 {
    if substrate >= 1 && bonus == slot {
        1
    } else {
        0
    }
}

/// Whether every ledger write a harvest makes fits in 128 bits, and
/// the canopy arithmetic goes through.
pub open spec fn spec_harvest_fits(
    s: GameState,
    token_id: u64,
    t: TraitExtension,
    sender_len: int,
) -> bool {
    let acct = account_of(s.accounts@, token_id);
    let index = s.ledger.global_reward_index;
    let pending = spec_pending_total(acct, index);
    &&& acct.current_shares * index <= u128::MAX
    &&& pending <= u128::MAX
    &&& (pending > 0 ==> ({
        let mult = spec_canopy_multiplier(s.biomass, t);
        &&& mult is Ok
        &&& ({
            let payout = spec_mul_floor(pending as u128, mult->Ok_0);
            let forfeited: int = if payout < pending {
                pending - payout
            } else {
                0
            };
            let idx2 = spec_distribute(index as int, forfeited, s.ledger.total_shares as int);
            let bonus = spec_harvest_bonus(payout as u128, sender_len);
            let new_shares = spec_shares_of(
                spec_harvest_stat(t.substrate, bonus, 0),
                spec_harvest_stat(t.substrate, bonus, 1),
                spec_harvest_stat(t.substrate, bonus, 2),
                t.substrate,
                t.base_cap,
                t.base_stem,
                t.base_spores,
            );
            &&& payout <= u128::MAX
            &&& idx2 <= u128::MAX
            &&& s.ledger.total_shares - acct.current_shares + new_shares <= u128::MAX
            &&& new_shares * idx2 <= u128::MAX
        })
    }))
}

impl GameState {
    /// Harvests an entity's pending reward: scales it by the current
    /// canopy multiplier, recycles any shortfall into the pool
    /// pro-rata to all holders, resets the volatile stats (a tier perk
    /// re-seeds one of them), revalues the entity and zeroes its
    /// pending balance. In the shadow zone the whole balance is
    /// forfeited and recycled. The distributed-rewards counter
    /// advances both when the payout is queued and when totals are
    /// finalised.
    pub fn execute_harvest(
        &mut self,
        token_id: u64,
        sender: &String,
        owner: &String,
        traits: &TraitExtension,
    ) -> (r: Result<HarvestOutcome, ContractError>)
        requires
            old(self).wf(),
        ensures
            final(self).wf(),
            r is Err ==> *final(self) == *old(self),
            owner@ != sender@ ==> r == Err::<HarvestOutcome, ContractError>(
                ContractError::Unauthorized {  },
            ),
            owner@ == sender@ && !has_account(old(self).accounts@, token_id) ==> r == Err::<
                HarvestOutcome,
                ContractError,
            >(ContractError::NotFound {  }),
            ({
                let acct = account_of(old(self).accounts@, token_id);
                let index = old(self).ledger.global_reward_index;
                owner@ == sender@ && has_account(old(self).accounts@, token_id)
                    && acct.current_shares * index <= u128::MAX && spec_pending_total(acct, index)
                    == 0 ==> r == Err::<HarvestOutcome, ContractError>(ContractError::NoRewards {  })
            }),
            ({
                let acct = account_of(old(self).accounts@, token_id);
                let index = old(self).ledger.global_reward_index;
                let accrue_fits = acct.current_shares * index <= u128::MAX && spec_pending_total(
                    acct,
                    index,
                ) <= u128::MAX;
                let domain_ok = owner@ == sender@ && has_account(old(self).accounts@, token_id);
                &&& (domain_ok && !accrue_fits ==> r == Err::<HarvestOutcome, ContractError>(
                    ContractError::Overflow {  },
                ))
                &&& (domain_ok && accrue_fits && spec_pending_total(acct, index) > 0
                    && spec_canopy_multiplier(old(self).biomass, *traits) is Err ==> r == Err::<
                    HarvestOutcome,
                    ContractError,
                >(spec_canopy_multiplier(old(self).biomass, *traits)->Err_0))
                &&& (domain_ok && accrue_fits && spec_pending_total(acct, index) > 0
                    && spec_canopy_multiplier(old(self).biomass, *traits) is Ok
                    && !spec_harvest_fits(*old(self), token_id, *traits, sender@.len() as int)
                    ==> r == Err::<HarvestOutcome, ContractError>(ContractError::Overflow {  }))
                &&& (r is Ok <==> domain_ok && spec_harvest_fits(
                    *old(self),
                    token_id,
                    *traits,
                    sender@.len() as int,
                ) && spec_pending_total(acct, index) > 0)
            }),
            r matches Ok(out) ==> ({
                let acct = account_of(old(self).accounts@, token_id);
                let index = old(self).ledger.global_reward_index;
                let pending = spec_pending_total(acct, index);
                let mult = spec_canopy_multiplier(old(self).biomass, *traits)->Ok_0;
                let payout = spec_mul_floor(pending as u128, mult);
                let forfeited: int = if payout < pending {
                    pending - payout
                } else {
                    0
                };
                let idx2 = spec_distribute(
                    index as int,
                    forfeited,
                    old(self).ledger.total_shares as int,
                );
                let bonus = spec_harvest_bonus(payout as u128, sender@.len() as int);
                let new_shares = spec_shares_of(
                    spec_harvest_stat(traits.substrate, bonus, 0),
                    spec_harvest_stat(traits.substrate, bonus, 1),
                    spec_harvest_stat(traits.substrate, bonus, 2),
                    traits.substrate,
                    traits.base_cap,
                    traits.base_stem,
                    traits.base_spores,
                );
                let total2 = old(self).ledger.total_shares - acct.current_shares + new_shares;
                &&& out.token_id == token_id
                &&& out.payout == payout
                &&& out.multiplier == mult
                &&& out.forfeited == forfeited
                &&& out.new_traits.cap == spec_harvest_stat(traits.substrate, bonus, 0)
                &&& out.new_traits.stem == spec_harvest_stat(traits.substrate, bonus, 1)
                &&& out.new_traits.spores == spec_harvest_stat(traits.substrate, bonus, 2)
                &&& out.new_traits.substrate == traits.substrate
                &&& out.new_traits.genes@ == traits.genes@
                &&& out.new_traits.base_cap == traits.base_cap
                &&& out.new_traits.base_stem == traits.base_stem
                &&& out.new_traits.base_spores == traits.base_spores
                &&& final(self).ledger.total_shares == total2
                &&& final(self).ledger.global_reward_index == idx2
                &&& final(self).ledger.spin_nonce == old(self).ledger.spin_nonce
                &&& final(self).accounts@ == old(self).accounts@.update(
                    spec_account_index(old(self).accounts@, token_id),
                    AccountEntry {
                        token_id,
                        info: TokenInfo {
                            current_shares: new_shares as u128,
                            reward_debt: (new_shares * idx2) as u128,
                            pending_rewards: 0,
                        },
                    },
                )
                &&& final(self).leaderboard@ == lb_upsert(
                    old(self).leaderboard@,
                    token_id,
                    new_shares as u128,
                )
                &&& final(self).pending_spins == old(self).pending_spins
                &&& final(self).biomass == old(self).biomass
                &&& final(self).mint_counter == old(self).mint_counter
                &&& final(self).config == old(self).config
                &&& final(self).stats.total_harvests == old(self).stats.total_harvests.saturating_add(1)
                &&& final(self).stats.total_rewards_recycled
                    == old(self).stats.total_rewards_recycled.saturating_add(forfeited as u128)
                &&& final(self).stats.total_rewards_distributed == (if payout > 0 {
                    old(self).stats.total_rewards_distributed.saturating_add(
                        payout as u128,
                    ).saturating_add(payout as u128)
                } else {
                    old(self).stats.total_rewards_distributed
                })
                &&& final(self).stats.total_minted == old(self).stats.total_minted
                &&& final(self).stats.total_burned == old(self).stats.total_burned
            }),
    {
        let ghost pre = *self;
        // Ownership.
        if !(*owner == *sender) {
            return Err(ContractError::Unauthorized {  });
        }
        // The account.
        let ai = match find_account(&self.accounts, token_id) {
            Some(i) => i,
            None => {
                return Err(ContractError::NotFound {  });
            },
        };
        let acct = self.accounts[ai].info;
        let index = self.ledger.global_reward_index;
        // Checkpoint.
        let pending = match accrue(&acct, index) {
            Ok(v) => v,
            Err(e) => {
                return Err(e);
            },
        };
        if pending == 0 {
            return Err(ContractError::NoRewards {  });
        }
        // The weather: the canopy multiplier over the current biomass.
        let multiplier = match calculate_canopy_multiplier(&self.biomass, traits) {
            Ok(v) => v,
            Err(e) => {
                return Err(e);
            },
        };
        let payout = match mul_floor_scaled(pending, multiplier) {
            Ok(v) => v,
            Err(e) => {
                return Err(e);
            },
        };
        // What the weather withheld is recycled to the whole pool.
        let forfeited: u128 = if payout < pending {
            pending - payout
        } else {
            0
        };
        let idx2: u128 = if forfeited > 0 && self.ledger.total_shares > 0 {
            let per_share = forfeited / self.ledger.total_shares;
            match index.checked_add(per_share) {
                Some(v) => v,
                None => {
                    return Err(ContractError::Overflow {  });
                },
            }
        } else {
            index
        };
        // Reset volatile stats; a tier perk re-seeds one of them.
        let seed: u128 = if payout == 0 {
            sender.as_str().unicode_len() as u128
        } else {
            payout
        };
        let bonus = (seed % 3) as u8;
        let new_traits = TraitExtension {
            cap: if traits.substrate >= 1 && bonus == 0 {
                1
            } else {
                0
            },
            stem: if traits.substrate >= 1 && bonus == 1 {
                1
            } else {
                0
            },
            spores: if traits.substrate >= 1 && bonus == 2 {
                1
            } else {
                0
            },
            substrate: traits.substrate,
            genes: crate::genetics::clone_genes(&traits.genes),
            base_cap: traits.base_cap,
            base_stem: traits.base_stem,
            base_spores: traits.base_spores,
        };
        let new_shares = calculate_shares(&new_traits);
        proof {
            lemma_sum_shares_le(pre.accounts@, ai as int);
        }
        let reduced = self.ledger.total_shares - acct.current_shares;
        let total2 = match reduced.checked_add(new_shares) {
            Some(v) => v,
            None => {
                return Err(ContractError::Overflow {  });
            },
        };
        let debt2 = match new_shares.checked_mul(idx2) {
            Some(v) => v,
            None => {
                return Err(ContractError::Overflow {  });
            },
        };
        // Commit.
        let entry = AccountEntry {
            token_id,
            info: TokenInfo {
                current_shares: new_shares,
                reward_debt: debt2,
                pending_rewards: 0,
            },
        };
        proof {
            lemma_sum_shares_update(pre.accounts@, ai as int, entry);
            assert forall|a: int, b: int|
                0 <= a < b < pre.accounts@.update(ai as int, entry).len() implies pre.accounts@
                .update(ai as int, entry)[a].token_id != pre.accounts@.update(
                ai as int,
                entry,
            )[b].token_id by {
                assert(pre.accounts@[a].token_id != pre.accounts@[b].token_id);
            }
        }
        self.accounts.set(ai, entry);
        self.ledger.total_shares = total2;
        self.ledger.global_reward_index = idx2;
        update_leaderboard(&mut self.leaderboard, token_id, new_shares);
        if payout > 0 {
            self.stats.total_rewards_distributed =
            self.stats.total_rewards_distributed.saturating_add(payout);
        }
        self.stats.total_rewards_distributed = self.stats.total_rewards_distributed.saturating_add(
            payout,
        );
        self.stats.total_harvests = self.stats.total_harvests.saturating_add(1);
        self.stats.total_rewards_recycled = self.stats.total_rewards_recycled.saturating_add(
            forfeited,
        );
        proof {
            assert forall|i: int|
                0 <= i < self.accounts@.len() implies (
            #[trigger] self.accounts@[i]).info.reward_debt <= self.accounts@[i].info.current_shares
                * self.ledger.global_reward_index by {
                if i != ai as int {
                    assert(self.accounts@[i] == pre.accounts@[i]);
                    vstd::arithmetic::mul::lemma_mul_inequality(
                        pre.ledger.global_reward_index as int,
                        idx2 as int,
                        pre.accounts@[i].info.current_shares as int,
                    );
                    vstd::arithmetic::mul::lemma_mul_is_commutative(
                        pre.ledger.global_reward_index as int,
                        pre.accounts@[i].info.current_shares as int,
                    );
                    vstd::arithmetic::mul::lemma_mul_is_commutative(
                        idx2 as int,
                        pre.accounts@[i].info.current_shares as int,
                    );
                }
            }
        }
        Ok(HarvestOutcome { token_id, payout, multiplier, forfeited, new_traits })
    }
}

/// What an ascend commits: whether the tier rose, the new tier, the
/// reward burned as the cost, and the reset trait state.
#[derive(Clone, Debug)]
pub struct AscendOutcome {
    pub token_id: u64,
    pub success: bool,
    pub new_substrate: u8,
    pub burned: u128,
    pub new_traits: TraitExtension,
}

/// Whether every ledger write an ascend makes fits in 128 bits,
/// checkpointing included.
pub open spec fn spec_ascend_fits(
    s: GameState,
    token_id: u64,
    t: TraitExtension,
    time_nanos: u64,
    height: u64,
) -> bool {
    let acct = account_of(s.accounts@, token_id);
    let index = s.ledger.global_reward_index;
    let burned = spec_pending_total(acct, index);
    let rv = spec_block_seed(s, time_nanos, height);
    let s2: u8 = if rv % 5 == 0 {
        (t.substrate + 1) as u8
    } else {
        t.substrate
    };
    let new_shares = spec_shares_of(0, 0, 0, s2, t.base_cap, t.base_stem, t.base_spores);
    let total2 = s.ledger.total_shares - acct.current_shares + new_shares;
    let idx2 = spec_distribute(index as int, burned, total2);
    &&& acct.current_shares * index <= u128::MAX
    &&& burned <= u128::MAX
    &&& total2 <= u128::MAX
    &&& idx2 <= u128::MAX
    &&& new_shares * idx2 <= u128::MAX
}

impl GameState {
    /// Ascends an entity whose three volatile stats all stand at +3:
    /// its pending reward is checkpointed first, and the whole
    /// checkpointed total is burned as the cost — recycled into the
    /// index for the post-reset pool, not paid out — a one-in-five
    /// draw raises the prestige tier, and the volatile stats reset to
    /// zero either way.
    pub fn execute_ascend(
        &mut self,
        token_id: u64,
        sender: &String,
        owner: &String,
        traits: &TraitExtension,
        block_time_nanos: u64,
        block_height: u64,
    ) -> (r: Result<AscendOutcome, ContractError>)
        requires
            old(self).wf(),
            old(self).ledger.spin_nonce < u64::MAX,
        ensures
            final(self).wf(),
            r is Err ==> *final(self) == *old(self),
            owner@ != sender@ ==> r == Err::<AscendOutcome, ContractError>(
                ContractError::Unauthorized {  },
            ),
            owner@ == sender@ && !(traits.cap == 3 && traits.stem == 3 && traits.spores == 3) ==> r
                == Err::<AscendOutcome, ContractError>(ContractError::NotMaxLevel {  }),
            owner@ == sender@ && traits.cap == 3 && traits.stem == 3 && traits.spores == 3
                && traits.substrate >= 4 ==> r == Err::<AscendOutcome, ContractError>(
                ContractError::MaxSubstrate {  },
            ),
            owner@ == sender@ && traits.cap == 3 && traits.stem == 3 && traits.spores == 3
                && traits.substrate < 4 && !has_account(old(self).accounts@, token_id) ==> r
                == Err::<AscendOutcome, ContractError>(ContractError::NotFound {  }),
            ({
                let acct = account_of(old(self).accounts@, token_id);
                let index = old(self).ledger.global_reward_index;
                let accrue_fits = acct.current_shares * index <= u128::MAX && spec_pending_total(
                    acct,
                    index,
                ) <= u128::MAX;
                let domain_ok = owner@ == sender@ && traits.cap == 3 && traits.stem == 3
                    && traits.spores == 3 && traits.substrate < 4 && has_account(
                    old(self).accounts@,
                    token_id,
                );
                &&& (domain_ok && !accrue_fits ==> r == Err::<AscendOutcome, ContractError>(
                    ContractError::Overflow {  },
                ))
                &&& (domain_ok && accrue_fits && spec_pending_total(acct, index) == 0 ==> r
                    == Err::<AscendOutcome, ContractError>(ContractError::NoRewards {  }))
                &&& (domain_ok && accrue_fits && spec_pending_total(acct, index) > 0
                    && !spec_ascend_fits(
                    *old(self),
                    token_id,
                    *traits,
                    block_time_nanos,
                    block_height,
                ) ==> r == Err::<AscendOutcome, ContractError>(ContractError::Overflow {  }))
                &&& (r is Ok <==> domain_ok && spec_pending_total(acct, index) > 0
                    && spec_ascend_fits(
                    *old(self),
                    token_id,
                    *traits,
                    block_time_nanos,
                    block_height,
                ))
            }),
            r matches Ok(out) ==> ({
                let acct = account_of(old(self).accounts@, token_id);
                let index = old(self).ledger.global_reward_index;
                let burned = spec_pending_total(acct, index);
                let rv = spec_block_seed(*old(self), block_time_nanos, block_height);
                let success = rv % 5 == 0;
                let s2: u8 = if success {
                    (traits.substrate + 1) as u8
                } else {
                    traits.substrate
                };
                let new_shares = spec_shares_of(
                    0,
                    0,
                    0,
                    s2,
                    traits.base_cap,
                    traits.base_stem,
                    traits.base_spores,
                );
                let total2 = old(self).ledger.total_shares - acct.current_shares + new_shares;
                let idx2 = spec_distribute(index as int, burned, total2);
                &&& out.token_id == token_id
                &&& out.success == success
                &&& out.new_substrate == s2
                &&& out.burned == burned
                &&& out.new_traits.cap == 0 && out.new_traits.stem == 0 && out.new_traits.spores
                    == 0
                &&& out.new_traits.substrate == s2
                &&& out.new_traits.genes@ == traits.genes@
                &&& out.new_traits.base_cap == traits.base_cap
                &&& out.new_traits.base_stem == traits.base_stem
                &&& out.new_traits.base_spores == traits.base_spores
                &&& final(self).ledger.total_shares == total2
                &&& final(self).ledger.global_reward_index == idx2
                &&& final(self).ledger.spin_nonce == old(self).ledger.spin_nonce + 1
                &&& final(self).accounts@ == old(self).accounts@.update(
                    spec_account_index(old(self).accounts@, token_id),
                    AccountEntry {
                        token_id,
                        info: TokenInfo {
                            current_shares: new_shares as u128,
                            reward_debt: (new_shares * idx2) as u128,
                            pending_rewards: 0,
                        },
                    },
                )
                &&& final(self).leaderboard@ == lb_upsert(
                    old(self).leaderboard@,
                    token_id,
                    new_shares as u128,
                )
                &&& final(self).pending_spins == old(self).pending_spins
                &&& final(self).biomass == old(self).biomass
                &&& final(self).mint_counter == old(self).mint_counter
                &&& final(self).config == old(self).config
                &&& final(self).stats.total_ascensions
                    == old(self).stats.total_ascensions.saturating_add(1)
                &&& final(self).stats.total_rewards_recycled
                    == old(self).stats.total_rewards_recycled.saturating_add(burned as u128)
                &&& final(self).stats.total_harvests == old(self).stats.total_harvests
                &&& final(self).stats.total_minted == old(self).stats.total_minted
            }),
    {
        let ghost pre = *self;
        // Ownership.
        if !(*owner == *sender) {
            return Err(ContractError::Unauthorized {  });
        }
        // All three volatile stats must stand at +3.
        if traits.cap != 3 || traits.stem != 3 || traits.spores != 3 {
            return Err(ContractError::NotMaxLevel {  });
        }
        // The tier must be below its cap.
        if traits.substrate >= 4 {
            return Err(ContractError::MaxSubstrate {  });
        }
        // The account, and the checkpointed reward that funds the
        // attempt.
        let ai = match find_account(&self.accounts, token_id) {
            Some(i) => i,
            None => {
                return Err(ContractError::NotFound {  });
            },
        };
        let acct = self.accounts[ai].info;
        let index = self.ledger.global_reward_index;
        let burned = match accrue(&acct, index) {
            Ok(v) => v,
            Err(e) => {
                return Err(e);
            },
        };
        if burned == 0 {
            return Err(ContractError::NoRewards {  });
        }
        // One-in-five draw from block data.
        let rv = randomness_byte(block_time_nanos, block_height, self.ledger.spin_nonce);
        let success = rv % 5 == 0;
        let new_substrate: u8 = if success {
            traits.substrate + 1
        } else {
            traits.substrate
        };
        let new_traits = TraitExtension {
            cap: 0,
            stem: 0,
            spores: 0,
            substrate: new_substrate,
            genes: crate::genetics::clone_genes(&traits.genes),
            base_cap: traits.base_cap,
            base_stem: traits.base_stem,
            base_spores: traits.base_spores,
        };
        let new_shares = calculate_shares(&new_traits);
        proof {
            lemma_sum_shares_le(pre.accounts@, ai as int);
        }
        let reduced = self.ledger.total_shares - acct.current_shares;
        let total2 = match reduced.checked_add(new_shares) {
            Some(v) => v,
            None => {
                return Err(ContractError::Overflow {  });
            },
        };
        // The burned reward is recycled into the post-reset pool.
        let idx2: u128 = if total2 > 0 {
            let per_share = burned / total2;
            match index.checked_add(per_share) {
                Some(v) => v,
                None => {
                    return Err(ContractError::Overflow {  });
                },
            }
        } else {
            index
        };
        let debt2 = match new_shares.checked_mul(idx2) {
            Some(v) => v,
            None => {
                return Err(ContractError::Overflow {  });
            },
        };
        // Commit.
        let entry = AccountEntry {
            token_id,
            info: TokenInfo {
                current_shares: new_shares,
                reward_debt: debt2,
                pending_rewards: 0,
            },
        };
        proof {
            lemma_sum_shares_update(pre.accounts@, ai as int, entry);
            assert forall|a: int, b: int|
                0 <= a < b < pre.accounts@.update(ai as int, entry).len() implies pre.accounts@
                .update(ai as int, entry)[a].token_id != pre.accounts@.update(
                ai as int,
                entry,
            )[b].token_id by {
                assert(pre.accounts@[a].token_id != pre.accounts@[b].token_id);
            }
        }
        self.accounts.set(ai, entry);
        self.ledger.total_shares = total2;
        self.ledger.global_reward_index = idx2;
        self.ledger.spin_nonce = self.ledger.spin_nonce + 1;
        update_leaderboard(&mut self.leaderboard, token_id, new_shares);
        self.stats.total_ascensions = self.stats.total_ascensions.saturating_add(1);
        self.stats.total_rewards_recycled = self.stats.total_rewards_recycled.saturating_add(
            burned,
        );
        proof {
            assert forall|i: int|
                0 <= i < self.accounts@.len() implies (
            #[trigger] self.accounts@[i]).info.reward_debt <= self.accounts@[i].info.current_shares
                * self.ledger.global_reward_index by {
                if i != ai as int {
                    assert(self.accounts@[i] == pre.accounts@[i]);
                    vstd::arithmetic::mul::lemma_mul_inequality(
                        pre.ledger.global_reward_index as int,
                        idx2 as int,
                        pre.accounts@[i].info.current_shares as int,
                    );
                    vstd::arithmetic::mul::lemma_mul_is_commutative(
                        pre.ledger.global_reward_index as int,
                        pre.accounts@[i].info.current_shares as int,
                    );
                    vstd::arithmetic::mul::lemma_mul_is_commutative(
                        idx2 as int,
                        pre.accounts@[i].info.current_shares as int,
                    );
                }
            }
        }
        Ok(AscendOutcome { token_id, success, new_substrate, burned, new_traits })
    }
}

/// What a recycle commits: the entity whose registry record the host
/// must burn.
#[derive(Clone, Copy, Debug, PartialEq, Eq, Structural)]
pub struct RecycleOutcome {
    pub token_id: u64,
}

impl GameState {
    /// Recycles an entity: removes its shares and base stats from the
    /// global aggregates and deletes its account. Any unclaimed
    /// pending reward is forfeited outright — unlike splice, nothing
    /// is recycled to the survivors.
    pub fn execute_recycle(
        &mut self,
        token_id: u64,
        sender: &String,
        owner: &String,
        traits: &TraitExtension,
    ) -> (r: Result<RecycleOutcome, ContractError>)
        requires
            old(self).wf(),
            has_account(old(self).accounts@, token_id),
            account_of(old(self).accounts@, token_id).current_shares == spec_shares(*traits),
        ensures
            final(self).wf(),
            r is Err ==> *final(self) == *old(self),
            owner@ != sender@ <==> r == Err::<RecycleOutcome, ContractError>(
                ContractError::Unauthorized {  },
            ),
            r is Ok <==> owner@ == sender@,
            r matches Ok(out) ==> ({
                &&& out.token_id == token_id
                &&& final(self).accounts@ == old(self).accounts@.remove(
                    spec_account_index(old(self).accounts@, token_id),
                )
                &&& final(self).ledger.total_shares == old(self).ledger.total_shares - spec_shares(
                    *traits,
                )
                &&& final(self).ledger.global_reward_index
                    == old(self).ledger.global_reward_index
                &&& final(self).ledger.spin_nonce == old(self).ledger.spin_nonce
                &&& final(self).biomass.total_base_cap
                    == old(self).biomass.total_base_cap.saturating_sub(traits.base_cap as u128)
                &&& final(self).biomass.total_base_stem
                    == old(self).biomass.total_base_stem.saturating_sub(traits.base_stem as u128)
                &&& final(self).biomass.total_base_spores
                    == old(self).biomass.total_base_spores.saturating_sub(
                    traits.base_spores as u128,
                )
                &&& final(self).leaderboard@ == crate::leaderboard::lb_remove(
                    old(self).leaderboard@,
                    token_id,
                )
                &&& final(self).pending_spins == old(self).pending_spins
                &&& final(self).mint_counter == old(self).mint_counter
                &&& final(self).config == old(self).config
                &&& final(self).stats.total_burned == old(self).stats.total_burned.saturating_add(
                    1,
                )
                &&& final(self).stats.total_minted == old(self).stats.total_minted
            }),
    {
        let ghost pre = *self;
        // Ownership.
        if !(*owner == *sender) {
            return Err(ContractError::Unauthorized {  });
        }
        let ai = match find_account(&self.accounts, token_id) {
            Some(i) => i,
            None => {
                proof {
                    assert(false);
                }
                return Err(ContractError::NotFound {  });
            },
        };
        let shares = calculate_shares(traits);
        proof {
            lemma_sum_shares_le(pre.accounts@, ai as int);
            lemma_sum_shares_remove(pre.accounts@, ai as int);
            lemma_accounts_unique_remove(pre.accounts@, ai as int);
        }
        // Remove the entity from every global aggregate.
        self.ledger.total_shares = self.ledger.total_shares.saturating_sub(shares);
        self.biomass = GlobalBiomass {
            total_base_cap: self.biomass.total_base_cap.saturating_sub(traits.base_cap as u128),
            total_base_stem: self.biomass.total_base_stem.saturating_sub(traits.base_stem as u128),
            total_base_spores: self.biomass.total_base_spores.saturating_sub(
                traits.base_spores as u128,
            ),
        };
        self.accounts.remove(ai);
        crate::leaderboard::remove_from_leaderboard(&mut self.leaderboard, token_id);
        self.stats.total_burned = self.stats.total_burned.saturating_add(1);
        proof {
            assert forall|i: int|
                0 <= i < self.accounts@.len() implies (
            #[trigger] self.accounts@[i]).info.reward_debt <= self.accounts@[i].info.current_shares
                * self.ledger.global_reward_index by {
                let oi: int = if i < ai as int {
                    i
                } else {
                    i + 1
                };
                assert(self.accounts@[i] == pre.accounts@[oi]);
            }
        }
        Ok(RecycleOutcome { token_id })
    }
}

/// What a splice commits: the two parents the host must burn, the
/// fresh child and its trait state, and the forfeited reward recycled
/// to the survivors.
#[derive(Clone, Debug)]
pub struct SpliceOutcome {
    pub parent_1_id: u64,
    pub parent_2_id: u64,
    pub child_id: u64,
    pub recycled: u128,
    pub child_traits: TraitExtension,
}

/// The digest a splice breeds from: the block seed byte, then both
/// parents' decimal ids.
pub open spec fn spec_splice_digest(
    s: GameState,
    p1: u64,
    p2: u64,
    time_nanos: u64,
    height: u64,
) -> Seq<u8> {
    sha256_of(
        seq![spec_block_seed(s, time_nanos, height)] + spec_u64_dec_bytes(p1)
            + spec_u64_dec_bytes(p2),
    )
}

/// A splice child's genome, slot by slot from the breeding digest.
pub open spec fn spec_child_genes(digest: Seq<u8>, g1: Seq<u8>, g2: Seq<u8>) -> Seq<u8> {
    Seq::new(8, |i: int| spec_child_gene(digest[i], gene_or_rot(g1, i), gene_or_rot(g2, i)))
}

/// The accounts left when both parents are gone.
pub open spec fn spec_after_parents(
    s: Seq<AccountEntry>,
    p1: u64,
    p2: u64,
) -> Seq<AccountEntry> {
    let a1 = s.remove(spec_account_index(s, p1));
    a1.remove(spec_account_index(a1, p2))
}

/// Whether every ledger write a splice makes fits in 128 bits.
pub open spec fn spec_splice_fits(
    s: GameState,
    p1: u64,
    p2: u64,
    t1: TraitExtension,
    t2: TraitExtension,
    time_nanos: u64,
    height: u64,
) -> bool {
    let acct1 = account_of(s.accounts@, p1);
    let acct2 = account_of(s.accounts@, p2);
    let index = s.ledger.global_reward_index;
    let f1 = spec_pending_total(acct1, index);
    let f2 = spec_pending_total(acct2, index);
    let digest = spec_splice_digest(s, p1, p2, time_nanos, height);
    let genes = spec_child_genes(digest, t1.genes@, t2.genes@);
    let sub = spec_child_substrate(t1.substrate, t2.substrate, digest[8]);
    let child_shares = spec_shares_of(
        0,
        0,
        0,
        sub,
        spec_base_of(genes, 1),
        spec_base_of(genes, 2),
        spec_base_of(genes, 3),
    );
    let totalr = s.ledger.total_shares - acct1.current_shares - acct2.current_shares;
    let idx2 = spec_distribute(index as int, f1 + f2, totalr);
    let bio_cap = s.biomass.total_base_cap.saturating_sub(
        t1.base_cap as u128,
    ).saturating_sub(t2.base_cap as u128);
    let bio_stem = s.biomass.total_base_stem.saturating_sub(
        t1.base_stem as u128,
    ).saturating_sub(t2.base_stem as u128);
    let bio_spores = s.biomass.total_base_spores.saturating_sub(
        t1.base_spores as u128,
    ).saturating_sub(t2.base_spores as u128);
    &&& acct1.current_shares * index <= u128::MAX
    &&& f1 <= u128::MAX
    &&& acct2.current_shares * index <= u128::MAX
    &&& f2 <= u128::MAX
    &&& f1 + f2 <= u128::MAX
    &&& idx2 <= u128::MAX
    &&& bio_cap + spec_base_of(genes, 1) <= u128::MAX
    &&& bio_stem + spec_base_of(genes, 2) <= u128::MAX
    &&& bio_spores + spec_base_of(genes, 3) <= u128::MAX
    &&& totalr + child_shares <= u128::MAX
    &&& child_shares * idx2 <= u128::MAX
}

impl GameState {
    /// Splices two distinct entities of one owner into a child: both
    /// parents' shares and base stats leave the global aggregates
    /// before their combined forfeited reward is recycled, so the
    /// survivors — never the parents — receive it; the child's genome
    /// is bred from the two parents under the breeding digest, and its
    /// account opens at the post-recycle index so it claims none of
    /// the recycled reward.
    pub fn execute_splice(
        &mut self,
        parent_1_id: u64,
        parent_2_id: u64,
        sender: &String,
        owner_1: &String,
        owner_2: &String,
        traits_1: &TraitExtension,
        traits_2: &TraitExtension,
        block_time_nanos: u64,
        block_height: u64,
    ) -> (r: Result<SpliceOutcome, ContractError>)
        requires
            old(self).wf(),
            old(self).mint_counter < u64::MAX,
            old(self).ledger.spin_nonce < u64::MAX,
            has_account(old(self).accounts@, parent_1_id) ==> account_of(
                old(self).accounts@,
                parent_1_id,
            ).current_shares == spec_shares(*traits_1),
            has_account(old(self).accounts@, parent_2_id) ==> account_of(
                old(self).accounts@,
                parent_2_id,
            ).current_shares == spec_shares(*traits_2),
            !has_account(old(self).accounts@, old(self).mint_counter) || old(self).mint_counter
                == parent_1_id || old(self).mint_counter == parent_2_id,
        ensures
            final(self).wf(),
            r is Err ==> *final(self) == *old(self),
            parent_1_id == parent_2_id ==> r == Err::<SpliceOutcome, ContractError>(
                ContractError::InvalidParents {  },
            ),
            parent_1_id != parent_2_id && (owner_1@ != sender@ || owner_2@ != sender@) ==> r
                == Err::<SpliceOutcome, ContractError>(ContractError::Unauthorized {  }),
            parent_1_id != parent_2_id && owner_1@ == sender@ && owner_2@ == sender@ && (
            !has_account(old(self).accounts@, parent_1_id) || !has_account(
                old(self).accounts@,
                parent_2_id,
            )) ==> r == Err::<SpliceOutcome, ContractError>(ContractError::NotFound {  }),
            parent_1_id != parent_2_id && owner_1@ == sender@ && owner_2@ == sender@
                && has_account(old(self).accounts@, parent_1_id) && has_account(
                old(self).accounts@,
                parent_2_id,
            ) && !spec_splice_fits(
                *old(self),
                parent_1_id,
                parent_2_id,
                *traits_1,
                *traits_2,
                block_time_nanos,
                block_height,
            ) ==> r == Err::<SpliceOutcome, ContractError>(ContractError::Overflow {  }),
            r is Ok <==> (parent_1_id != parent_2_id && owner_1@ == sender@ && owner_2@ == sender@
                && has_account(old(self).accounts@, parent_1_id) && has_account(
                old(self).accounts@,
                parent_2_id,
            ) && spec_splice_fits(
                *old(self),
                parent_1_id,
                parent_2_id,
                *traits_1,
                *traits_2,
                block_time_nanos,
                block_height,
            )),
            r matches Ok(out) ==> ({
                let acct1 = account_of(old(self).accounts@, parent_1_id);
                let acct2 = account_of(old(self).accounts@, parent_2_id);
                let index = old(self).ledger.global_reward_index;
                let forfeited = spec_pending_total(acct1, index) + spec_pending_total(
                    acct2,
                    index,
                );
                let digest = spec_splice_digest(
                    *old(self),
                    parent_1_id,
                    parent_2_id,
                    block_time_nanos,
                    block_height,
                );
                let genes = spec_child_genes(digest, traits_1.genes@, traits_2.genes@);
                let sub = spec_child_substrate(traits_1.substrate, traits_2.substrate, digest[8]);
                let child_shares = spec_shares_of(
                    0,
                    0,
                    0,
                    sub,
                    spec_base_of(genes, 1),
                    spec_base_of(genes, 2),
                    spec_base_of(genes, 3),
                );
                let totalr = old(self).ledger.total_shares - acct1.current_shares
                    - acct2.current_shares;
                let idx2 = spec_distribute(index as int, forfeited, totalr);
                &&& out.parent_1_id == parent_1_id
                &&& out.parent_2_id == parent_2_id
                &&& out.child_id == old(self).mint_counter
                &&& out.recycled == forfeited
                &&& out.child_traits.cap == 0 && out.child_traits.stem == 0
                    && out.child_traits.spores == 0
                &&& out.child_traits.substrate == sub
                &&& out.child_traits.genes@ == genes
                &&& out.child_traits.base_cap == spec_base_of(genes, 1)
                &&& out.child_traits.base_stem == spec_base_of(genes, 2)
                &&& out.child_traits.base_spores == spec_base_of(genes, 3)
                &&& final(self).accounts@ == spec_after_parents(
                    old(self).accounts@,
                    parent_1_id,
                    parent_2_id,
                ).push(
                    AccountEntry {
                        token_id: old(self).mint_counter,
                        info: TokenInfo {
                            current_shares: child_shares as u128,
                            reward_debt: (child_shares * idx2) as u128,
                            pending_rewards: 0,
                        },
                    },
                )
                &&& final(self).ledger.total_shares == totalr + child_shares
                &&& final(self).ledger.global_reward_index == idx2
                &&& final(self).ledger.spin_nonce == old(self).ledger.spin_nonce + 1
                &&& final(self).mint_counter == old(self).mint_counter + 1
                &&& final(self).biomass.total_base_cap
                    == old(self).biomass.total_base_cap.saturating_sub(
                    traits_1.base_cap as u128,
                ).saturating_sub(traits_2.base_cap as u128) + spec_base_of(genes, 1)
                &&& final(self).biomass.total_base_stem
                    == old(self).biomass.total_base_stem.saturating_sub(
                    traits_1.base_stem as u128,
                ).saturating_sub(traits_2.base_stem as u128) + spec_base_of(genes, 2)
                &&& final(self).biomass.total_base_spores
                    == old(self).biomass.total_base_spores.saturating_sub(
                    traits_1.base_spores as u128,
                ).saturating_sub(traits_2.base_spores as u128) + spec_base_of(genes, 3)
                &&& final(self).leaderboard@ == lb_upsert(
                    crate::leaderboard::lb_remove(
                        crate::leaderboard::lb_remove(old(self).leaderboard@, parent_1_id),
                        parent_2_id,
                    ),
                    old(self).mint_counter,
                    child_shares as u128,
                )
                &&& final(self).pending_spins == old(self).pending_spins
                &&& final(self).config == old(self).config
                &&& final(self).stats.total_burned == old(self).stats.total_burned.saturating_add(
                    2,
                )
                &&& final(self).stats.total_minted == old(self).stats.total_minted.saturating_add(
                    1,
                )
                &&& final(self).stats.total_splices
                    == old(self).stats.total_splices.saturating_add(1)
                &&& final(self).stats.total_rewards_recycled
                    == old(self).stats.total_rewards_recycled.saturating_add(forfeited as u128)
                &&& final(self).stats.total_harvests == old(self).stats.total_harvests
            }),
    {
        let ghost pre = *self;
        // Distinct parents, one owner.
        if parent_1_id == parent_2_id {
            return Err(ContractError::InvalidParents {  });
        }
        if !(*owner_1 == *sender) {
            return Err(ContractError::Unauthorized {  });
        }
        if !(*owner_2 == *sender) {
            return Err(ContractError::Unauthorized {  });
        }
        // Both parents' forfeitable reward, checkpointed at the
        // current index.
        let ai1 = match find_account(&self.accounts, parent_1_id) {
            Some(i) => i,
            None => {
                return Err(ContractError::NotFound {  });
            },
        };
        let ai2 = match find_account(&self.accounts, parent_2_id) {
            Some(i) => i,
            None => {
                return Err(ContractError::NotFound {  });
            },
        };
        let acct1 = self.accounts[ai1].info;
        let acct2 = self.accounts[ai2].info;
        let index = self.ledger.global_reward_index;
        let f1 = match accrue(&acct1, index) {
            Ok(v) => v,
            Err(e) => {
                return Err(e);
            },
        };
        let f2 = match accrue(&acct2, index) {
            Ok(v) => v,
            Err(e) => {
                return Err(e);
            },
        };
        let total_forfeited = match f1.checked_add(f2) {
            Some(v) => v,
            None => {
                return Err(ContractError::Overflow {  });
            },
        };
        // Both parents leave the pool before anything is recycled.
        let shares1 = calculate_shares(traits_1);
        let shares2 = calculate_shares(traits_2);
        proof {
            lemma_sum_shares_le(pre.accounts@, ai1 as int);
            lemma_sum_shares_remove(pre.accounts@, ai1 as int);
            lemma_accounts_unique_remove(pre.accounts@, ai1 as int);
        }
        let ghost a1 = pre.accounts@.remove(ai1 as int);
        let ai2r: usize = if ai2 < ai1 {
            ai2
        } else {
            ai2 - 1
        };
        proof {
            assert(a1[ai2r as int] == pre.accounts@[ai2 as int]);
            lemma_sum_shares_le(a1, ai2r as int);
            lemma_sum_shares_remove(a1, ai2r as int);
            lemma_accounts_unique_remove(a1, ai2r as int);
            let j = spec_account_index(a1, parent_2_id);
            assert(0 <= j < a1.len() && a1[j].token_id == parent_2_id);
            if ai2r as int != j {
                if (ai2r as int) < j {
                    assert(a1[ai2r as int].token_id != a1[j].token_id);
                } else {
                    assert(a1[j].token_id != a1[ai2r as int].token_id);
                }
            }
        }
        let totalr = self.ledger.total_shares.saturating_sub(shares1).saturating_sub(shares2);
        // Recycle the forfeited reward over the reduced pool.
        let idx2: u128 = if total_forfeited > 0 && totalr > 0 {
            let per_share = total_forfeited / totalr;
            match index.checked_add(per_share) {
                Some(v) => v,
                None => {
                    return Err(ContractError::Overflow {  });
                },
            }
        } else {
            index
        };
        // Breed the child.
        let seed = randomness_byte(block_time_nanos, block_height, self.ledger.spin_nonce);
        let mut hash_input: Vec<u8> = Vec::new();
        hash_input.push(seed);
        let p1_bytes = u64_dec_bytes(parent_1_id);
        let p2_bytes = u64_dec_bytes(parent_2_id);
        hash_input.extend_from_slice(p1_bytes.as_slice());
        hash_input.extend_from_slice(p2_bytes.as_slice());
        proof {
            assert(hash_input@ =~= seq![
                spec_block_seed(pre, block_time_nanos, block_height),
            ] + spec_u64_dec_bytes(parent_1_id) + spec_u64_dec_bytes(parent_2_id));
        }
        let digest = sha256(&hash_input);
        let child_genes = crate::genetics::splice_child_genes(
            &digest,
            &traits_1.genes,
            &traits_2.genes,
        );
        proof {
            assert(child_genes@ =~= spec_child_genes(
                spec_splice_digest(pre, parent_1_id, parent_2_id, block_time_nanos, block_height),
                traits_1.genes@,
                traits_2.genes@,
            ));
        }
        let child_sub = crate::genetics::child_substrate(
            traits_1.substrate,
            traits_2.substrate,
            digest[8],
        );
        let mut child_traits = TraitExtension {
            cap: 0,
            stem: 0,
            spores: 0,
            substrate: child_sub,
            genes: child_genes,
            base_cap: 0,
            base_stem: 0,
            base_spores: 0,
        };
        child_traits.recalculate_base_stats();
        let child_shares = calculate_shares(&child_traits);
        // Fit checks for the child's entry into the aggregates.
        let bio_cap_r = self.biomass.total_base_cap.saturating_sub(
            traits_1.base_cap as u128,
        ).saturating_sub(traits_2.base_cap as u128);
        let bio_stem_r = self.biomass.total_base_stem.saturating_sub(
            traits_1.base_stem as u128,
        ).saturating_sub(traits_2.base_stem as u128);
        let bio_spores_r = self.biomass.total_base_spores.saturating_sub(
            traits_1.base_spores as u128,
        ).saturating_sub(traits_2.base_spores as u128);
        let bio_cap = match bio_cap_r.checked_add(child_traits.base_cap as u128) {
            Some(v) => v,
            None => {
                return Err(ContractError::Overflow {  });
            },
        };
        let bio_stem = match bio_stem_r.checked_add(child_traits.base_stem as u128) {
            Some(v) => v,
            None => {
                return Err(ContractError::Overflow {  });
            },
        };
        let bio_spores = match bio_spores_r.checked_add(child_traits.base_spores as u128) {
            Some(v) => v,
            None => {
                return Err(ContractError::Overflow {  });
            },
        };
        let total2 = match totalr.checked_add(child_shares) {
            Some(v) => v,
            None => {
                return Err(ContractError::Overflow {  });
            },
        };
        let child_debt = match child_shares.checked_mul(idx2) {
            Some(v) => v,
            None => {
                return Err(ContractError::Overflow {  });
            },
        };
        // Commit.
        let child_id = self.mint_counter;
        let child_entry = AccountEntry {
            token_id: child_id,
            info: TokenInfo {
                current_shares: child_shares,
                reward_debt: child_debt,
                pending_rewards: 0,
            },
        };
        self.accounts.remove(ai1);
        self.accounts.remove(ai2r);
        let ghost a2 = a1.remove(ai2r as int);
        proof {
            lemma_sum_shares_push(a2, child_entry);
        }
        self.accounts.push(child_entry);
        self.ledger.total_shares = total2;
        self.ledger.global_reward_index = idx2;
        self.ledger.spin_nonce = self.ledger.spin_nonce + 1;
        self.mint_counter = child_id + 1;
        self.biomass = GlobalBiomass {
            total_base_cap: bio_cap,
            total_base_stem: bio_stem,
            total_base_spores: bio_spores,
        };
        crate::leaderboard::remove_from_leaderboard(&mut self.leaderboard, parent_1_id);
        crate::leaderboard::remove_from_leaderboard(&mut self.leaderboard, parent_2_id);
        update_leaderboard(&mut self.leaderboard, child_id, child_shares);
        self.stats.total_burned = self.stats.total_burned.saturating_add(2);
        self.stats.total_minted = self.stats.total_minted.saturating_add(1);
        self.stats.total_splices = self.stats.total_splices.saturating_add(1);
        self.stats.total_rewards_recycled = self.stats.total_rewards_recycled.saturating_add(
            total_forfeited,
        );
        proof {
            // The child's id collides with no survivor.
            assert forall|a: int, b: int|
                0 <= a < b < self.accounts@.len() implies self.accounts@[a].token_id
                != self.accounts@[b].token_id by {
                if b < a2.len() {
                    assert(self.accounts@[a] == a2[a] && self.accounts@[b] == a2[b]);
                } else {
                    assert(self.accounts@[a] == a2[a]);
                    let oi1: int = if a < ai2r as int {
                        a
                    } else {
                        a + 1
                    };
                    assert(a2[a] == a1[oi1]);
                    let oi0: int = if oi1 < ai1 as int {
                        oi1
                    } else {
                        oi1 + 1
                    };
                    assert(a1[oi1] == pre.accounts@[oi0]);
                    if a2[a].token_id == child_id {
                        if child_id == parent_1_id {
                            assert(pre.accounts@[oi0].token_id == pre.accounts@[ai1 as int].token_id);
                            assert(oi0 != ai1 as int);
                        } else if child_id == parent_2_id {
                            assert(pre.accounts@[oi0].token_id == pre.accounts@[ai2 as int].token_id);
                            assert(oi0 != ai2 as int);
                        } else {
                            assert(has_account(pre.accounts@, child_id));
                        }
                    }
                }
            }
            // Surviving debts stay covered as the index rises.
            assert forall|i: int|
                0 <= i < self.accounts@.len() implies (
            #[trigger] self.accounts@[i]).info.reward_debt <= self.accounts@[i].info.current_shares
                * self.ledger.global_reward_index by {
                if i < a2.len() {
                    assert(self.accounts@[i] == a2[i]);
                    let oi1: int = if i < ai2r as int {
                        i
                    } else {
                        i + 1
                    };
                    assert(a2[i] == a1[oi1]);
                    let oi0: int = if oi1 < ai1 as int {
                        oi1
                    } else {
                        oi1 + 1
                    };
                    assert(a1[oi1] == pre.accounts@[oi0]);
                    vstd::arithmetic::mul::lemma_mul_inequality(
                        pre.ledger.global_reward_index as int,
                        idx2 as int,
                        pre.accounts@[oi0].info.current_shares as int,
                    );
                    vstd::arithmetic::mul::lemma_mul_is_commutative(
                        pre.ledger.global_reward_index as int,
                        pre.accounts@[oi0].info.current_shares as int,
                    );
                    vstd::arithmetic::mul::lemma_mul_is_commutative(
                        idx2 as int,
                        pre.accounts@[oi0].info.current_shares as int,
                    );
                }
            }
        }
        Ok(
            SpliceOutcome {
                parent_1_id,
                parent_2_id,
                child_id,
                recycled: total_forfeited,
                child_traits,
            },
        )
    }
}

/// What a resolve commits: the digest byte, win or loss, the stat
/// moved and its old and new values, and the trait state to write
/// back to the registry.
#[derive(Clone, Debug)]
pub struct ResolveOutcome {
    pub token_id: u64,
    pub random_value: u8,
    pub success: bool,
    pub target: TraitTarget,
    pub old_value: i8,
    pub new_value: i8,
    pub new_traits: TraitExtension,
}

/// The digest a resolve draws its byte from: the published round seed
/// followed by the entity's decimal id, so entities spinning on the
/// same round get distinct outcomes.
pub open spec fn spec_resolve_digest(seed: Seq<u8>, token_id: u64) -> Seq<u8> {
    sha256_of(seed + spec_u64_dec_bytes(token_id))
}

/// Whether every ledger write a resolve makes fits in 128 bits.
pub open spec fn spec_resolve_fits(
    s: GameState,
    token_id: u64,
    t: TraitExtension,
    seed: Seq<u8>,
) -> bool {
    let acct = account_of(s.accounts@, token_id);
    let ps = pending_of(s.pending_spins@, token_id);
    let index = s.ledger.global_reward_index;
    let rv = spec_resolve_digest(seed, token_id)[0];
    let nv = spec_spin_new_value(
        spec_stat_of(t, ps.target),
        spec_base_stat_of(t, ps.target),
        t.substrate,
        count_matching(t.genes@, PRIMORDIAL_GENE),
        rv,
    );
    let new_shares = spec_shares_with(t, ps.target, nv);
    let total2 = s.ledger.total_shares - acct.current_shares + new_shares;
    let idx2 = spec_distribute(index as int, ps.bid_amount as int, total2);
    let pending1 = spec_pending_total(acct, index);
    let credit = new_shares * (idx2 - index);
    &&& acct.current_shares * index <= u128::MAX
    &&& pending1 <= u128::MAX
    &&& total2 <= u128::MAX
    &&& idx2 <= u128::MAX
    &&& credit <= u128::MAX
    &&& pending1 + credit <= u128::MAX
    &&& new_shares * idx2 <= u128::MAX
}

impl GameState {
    /// Resolves a pending spin once its randomness round is published.
    /// Callable by anyone: the outcome is fixed by the round seed.
    /// Draws the digest byte, moves the targeted stat, revalues the
    /// entity, distributes the held fee to the post-mutation pool, and
    /// credits the spinner its own post-mutation slice of that fee.
    pub fn execute_resolve_spin(
        &mut self,
        token_id: u64,
        round_seed: &Vec<u8>,
        traits: &TraitExtension,
    ) -> (r: Result<ResolveOutcome, ContractError>)
        requires
            old(self).wf(),
            has_account(old(self).accounts@, token_id),
        ensures
            final(self).wf(),
            r is Err ==> *final(self) == *old(self),
            !has_pending(old(self).pending_spins@, token_id) ==> r == Err::<
                ResolveOutcome,
                ContractError,
            >(ContractError::NoPendingSpin {  }),
            r is Ok <==> has_pending(old(self).pending_spins@, token_id) && spec_resolve_fits(
                *old(self),
                token_id,
                *traits,
                round_seed@,
            ),
            has_pending(old(self).pending_spins@, token_id) && !spec_resolve_fits(
                *old(self),
                token_id,
                *traits,
                round_seed@,
            ) ==> r == Err::<ResolveOutcome, ContractError>(ContractError::Overflow {  }),
            r matches Ok(out) ==> ({
                let acct = account_of(old(self).accounts@, token_id);
                let ps = pending_of(old(self).pending_spins@, token_id);
                let index = old(self).ledger.global_reward_index;
                let rv = spec_resolve_digest(round_seed@, token_id)[0];
                let nv = spec_spin_new_value(
                    spec_stat_of(*traits, ps.target),
                    spec_base_stat_of(*traits, ps.target),
                    traits.substrate,
                    count_matching(traits.genes@, PRIMORDIAL_GENE),
                    rv,
                );
                let new_shares = spec_shares_with(*traits, ps.target, nv);
                let total2 = old(self).ledger.total_shares - acct.current_shares + new_shares;
                let idx2 = spec_distribute(index as int, ps.bid_amount as int, total2);
                let pending1 = spec_pending_total(acct, index);
                let credit = new_shares * (idx2 - index);
                &&& out.token_id == token_id
                &&& out.random_value == rv
                &&& out.success == (rv >= spec_spin_threshold(traits.substrate))
                &&& out.target == ps.target
                &&& out.old_value == spec_stat_of(*traits, ps.target)
                &&& out.new_value == nv
                &&& out.new_traits.cap == (if ps.target is Cap {
                    nv
                } else {
                    traits.cap
                })
                &&& out.new_traits.stem == (if ps.target is Stem {
                    nv
                } else {
                    traits.stem
                })
                &&& out.new_traits.spores == (if ps.target is Spores {
                    nv
                } else {
                    traits.spores
                })
                &&& out.new_traits.substrate == traits.substrate
                &&& out.new_traits.genes@ == traits.genes@
                &&& out.new_traits.base_cap == traits.base_cap
                &&& out.new_traits.base_stem == traits.base_stem
                &&& out.new_traits.base_spores == traits.base_spores
                &&& final(self).ledger.total_shares == total2
                &&& final(self).ledger.global_reward_index == idx2
                &&& final(self).ledger.spin_nonce == old(self).ledger.spin_nonce
                &&& final(self).accounts@ == old(self).accounts@.update(
                    spec_account_index(old(self).accounts@, token_id),
                    AccountEntry {
                        token_id,
                        info: TokenInfo {
                            current_shares: new_shares as u128,
                            reward_debt: (new_shares * idx2) as u128,
                            pending_rewards: (pending1 + credit) as u128,
                        },
                    },
                )
                &&& final(self).pending_spins@ == old(self).pending_spins@.remove(
                    spec_pending_index(old(self).pending_spins@, token_id),
                )
                &&& final(self).leaderboard@ == lb_upsert(
                    old(self).leaderboard@,
                    token_id,
                    new_shares as u128,
                )
                &&& final(self).biomass == old(self).biomass
                &&& final(self).mint_counter == old(self).mint_counter
                &&& final(self).config == old(self).config
                &&& final(self).stats.total_spins == old(self).stats.total_spins.saturating_add(1)
                &&& final(self).stats.total_spin_volume == old(self).stats.total_spin_volume
            }),
    {
        let ghost pre = *self;
        // The pending spin.
        let pi = match find_pending(&self.pending_spins, token_id) {
            Some(i) => i,
            None => {
                return Err(ContractError::NoPendingSpin {  });
            },
        };
        let target = self.pending_spins[pi].target;
        let bid_amount = self.pending_spins[pi].bid_amount;
        // The digest byte: round seed, then the entity's decimal id.
        let mut hash_input: Vec<u8> = Vec::new();
        hash_input.extend_from_slice(round_seed.as_slice());
        let id_bytes = u64_dec_bytes(token_id);
        hash_input.extend_from_slice(id_bytes.as_slice());
        proof {
            assert(hash_input@ =~= round_seed@ + spec_u64_dec_bytes(token_id));
        }
        let digest = sha256(&hash_input);
        let random_value = digest[0];
        // The account.
        let ai = match find_account(&self.accounts, token_id) {
            Some(i) => i,
            None => {
                proof {
                    assert(false);
                }
                return Err(ContractError::NotFound {  });
            },
        };
        let acct = self.accounts[ai].info;
        let index = self.ledger.global_reward_index;
        // Checkpoint.
        let pending1 = match accrue(&acct, index) {
            Ok(v) => v,
            Err(e) => {
                return Err(e);
            },
        };
        // Win or loss, and the stat's move.
        let threshold: u8 = if traits.substrate >= 3 {
            116
        } else {
            128
        };
        let success = random_value >= threshold;
        let (current_val, current_base) = match target {
            TraitTarget::Cap => (traits.cap, traits.base_cap),
            TraitTarget::Stem => (traits.stem, traits.base_stem),
            TraitTarget::Spores => (traits.spores, traits.base_spores),
        };
        let primordial = crate::genetics::count_primordial(&traits.genes);
        let new_val = spin_new_value(
            current_val,
            current_base,
            traits.substrate,
            primordial,
            random_value,
        );
        let new_traits = TraitExtension {
            cap: if matches!(target, TraitTarget::Cap) {
                new_val
            } else {
                traits.cap
            },
            stem: if matches!(target, TraitTarget::Stem) {
                new_val
            } else {
                traits.stem
            },
            spores: if matches!(target, TraitTarget::Spores) {
                new_val
            } else {
                traits.spores
            },
            substrate: traits.substrate,
            genes: crate::genetics::clone_genes(&traits.genes),
            base_cap: traits.base_cap,
            base_stem: traits.base_stem,
            base_spores: traits.base_spores,
        };
        let new_shares = calculate_shares(&new_traits);
        // Revalue the pool.
        proof {
            lemma_sum_shares_le(pre.accounts@, ai as int);
        }
        let reduced = self.ledger.total_shares - acct.current_shares;
        let total2 = match reduced.checked_add(new_shares) {
            Some(v) => v,
            None => {
                return Err(ContractError::Overflow {  });
            },
        };
        // Distribute the held fee over the post-mutation pool.
        let idx2: u128 = if total2 > 0 {
            let per_share = bid_amount / total2;
            match index.checked_add(per_share) {
                Some(v) => v,
                None => {
                    return Err(ContractError::Overflow {  });
                },
            }
        } else {
            index
        };
        let index_increase = idx2 - index;
        // The spinner's own slice of its fee, at post-mutation weight.
        let credit = match new_shares.checked_mul(index_increase) {
            Some(v) => v,
            None => {
                return Err(ContractError::Overflow {  });
            },
        };
        let pending2 = match pending1.checked_add(credit) {
            Some(v) => v,
            None => {
                return Err(ContractError::Overflow {  });
            },
        };
        let debt2 = match new_shares.checked_mul(idx2) {
            Some(v) => v,
            None => {
                return Err(ContractError::Overflow {  });
            },
        };
        // Commit.
        let entry = AccountEntry {
            token_id,
            info: TokenInfo {
                current_shares: new_shares,
                reward_debt: debt2,
                pending_rewards: pending2,
            },
        };
        proof {
            lemma_sum_shares_update(pre.accounts@, ai as int, entry);
            assert forall|a: int, b: int|
                0 <= a < b < pre.accounts@.update(ai as int, entry).len() implies pre.accounts@
                .update(ai as int, entry)[a].token_id != pre.accounts@.update(
                ai as int,
                entry,
            )[b].token_id by {
                assert(pre.accounts@[a].token_id != pre.accounts@[b].token_id);
            }
            lemma_pending_unique_remove(pre.pending_spins@, pi as int);
        }
        self.accounts.set(ai, entry);
        self.ledger.total_shares = total2;
        self.ledger.global_reward_index = idx2;
        self.pending_spins.remove(pi);
        update_leaderboard(&mut self.leaderboard, token_id, new_shares);
        self.stats.total_spins = self.stats.total_spins.saturating_add(1);
        proof {
            assert forall|i: int|
                0 <= i < self.accounts@.len() implies (
            #[trigger] self.accounts@[i]).info.reward_debt <= self.accounts@[i].info.current_shares
                * self.ledger.global_reward_index by {
                if i != ai as int {
                    assert(self.accounts@[i] == pre.accounts@[i]);
                    vstd::arithmetic::mul::lemma_mul_inequality(
                        pre.ledger.global_reward_index as int,
                        idx2 as int,
                        pre.accounts@[i].info.current_shares as int,
                    );
                    vstd::arithmetic::mul::lemma_mul_is_commutative(
                        pre.ledger.global_reward_index as int,
                        pre.accounts@[i].info.current_shares as int,
                    );
                    vstd::arithmetic::mul::lemma_mul_is_commutative(
                        idx2 as int,
                        pre.accounts@[i].info.current_shares as int,
                    );
                }
            }
        }
        Ok(ResolveOutcome {
            token_id,
            random_value,
            success,
            target,
            old_value: current_val,
            new_value: new_val,
            new_traits,
        })
    }
}

/// What a pending-reward query answers, as a pure function of the
/// state and the entity's trait state: the raw accumulated amount,
/// the current multiplier, and the estimated payout — or the error
/// the arithmetic would hit.
pub open spec fn spec_query_pending_rewards(
    s: GameState,
    token_id: u64,
    t: TraitExtension,
) -> Result<PendingRewardsResponse, ContractError> {
    if !has_account(s.accounts@, token_id) {
        Ok(
            PendingRewardsResponse {
                accumulated_rewards: 0,
                canopy_multiplier: DECIMAL_SCALE,
                estimated_payout: 0,
            },
        )
    } else {
        let acct = account_of(s.accounts@, token_id);
        let index = s.ledger.global_reward_index;
        let pending = spec_pending_total(acct, index);
        if acct.current_shares * index > u128::MAX || pending > u128::MAX {
            Err(ContractError::Overflow {  })
        } else if pending == 0 {
            Ok(
                PendingRewardsResponse {
                    accumulated_rewards: 0,
                    canopy_multiplier: DECIMAL_SCALE,
                    estimated_payout: 0,
                },
            )
        } else {
            match spec_canopy_multiplier(s.biomass, t) {
                Err(e) => Err(e),
                Ok(mult) => {
                    let payout = spec_mul_floor(pending as u128, mult);
                    if payout > u128::MAX {
                        Err(ContractError::Overflow {  })
                    } else {
                        Ok(
                            PendingRewardsResponse {
                                accumulated_rewards: pending as u128,
                                canopy_multiplier: mult,
                                estimated_payout: payout as u128,
                            },
                        )
                    }
                },
            }
        }
    }
}

/// Aggregates over one page of a player's entities, accumulated in
/// order.
pub struct ProfileAcc {
    pub shares: int,
    pub rewards: int,
    pub best: Option<u64>,
    pub best_shares: int,
}

/// One entity's contribution to a profile page: ids without accounts
/// contribute nothing; an entity whose shares strictly beat the best
/// so far becomes the best.
pub open spec fn spec_profile_step(
    s: GameState,
    acc: ProfileAcc,
    token_id: u64,
) -> Result<ProfileAcc, ContractError> {
    if !has_account(s.accounts@, token_id) {
        Ok(acc)
    } else {
        let info = account_of(s.accounts@, token_id);
        let index = s.ledger.global_reward_index;
        let pending = spec_pending_total(info, index);
        if info.current_shares * index > u128::MAX || pending > u128::MAX {
            Err(ContractError::Overflow {  })
        } else if acc.shares + info.current_shares > u128::MAX || acc.rewards + pending
            > u128::MAX {
            Err(ContractError::Overflow {  })
        } else {
            Ok(
                ProfileAcc {
                    shares: acc.shares + info.current_shares,
                    rewards: acc.rewards + pending,
                    best: if info.current_shares > acc.best_shares {
                        Some(token_id)
                    } else {
                        acc.best
                    },
                    best_shares: if info.current_shares > acc.best_shares {
                        info.current_shares as int
                    } else {
                        acc.best_shares
                    },
                },
            )
        }
    }
}

/// A profile page folded over its ids, in order.
pub open spec fn spec_profile_fold(s: GameState, ids: Seq<u64>) -> Result<
    ProfileAcc,
    ContractError,
>
    decreases ids.len(),
{
    if ids.len() == 0 {
        Ok(ProfileAcc { shares: 0, rewards: 0, best: None, best_shares: 0 })
    } else {
        match spec_profile_fold(s, ids.drop_last()) {
            Err(e) => Err(e),
            Ok(acc) => spec_profile_step(s, acc, ids.last()),
        }
    }
}

/// Once a profile fold fails on a prefix, it fails on the whole page.
proof fn lemma_profile_fold_err(s: GameState, ids: Seq<u64>, k: int)
    requires
        0 <= k <= ids.len(),
        spec_profile_fold(s, ids.subrange(0, k)) is Err,
    ensures
        spec_profile_fold(s, ids) is Err,
    decreases ids.len() - k,
{
    if k == ids.len() {
        assert(ids.subrange(0, k) =~= ids);
    } else {
        assert(ids.subrange(0, k + 1).drop_last() =~= ids.subrange(0, k));
        lemma_profile_fold_err(s, ids, k + 1);
    }
}

/// One category's metric multiplier: exactly one for an empty
/// ecosystem, otherwise the scarcity multiplier.
pub open spec fn spec_metric_multiplier(mass: u128, total: int) -> Result<u128, ContractError> {
    if total == 0 {
        Ok(DECIMAL_SCALE)
    } else {
        crate::canopy::spec_trait_multiplier(mass, total)
    }
}

impl GameState {
    /// The entity's ledger account, if it has one.
    pub fn query_token_info(&self, token_id: u64) -> (r: Option<TokenInfo>)
        ensures
            r is Some <==> has_account(self.accounts@, token_id),
            accounts_unique(self.accounts@) ==> (r matches Some(v) ==> v == account_of(
                self.accounts@,
                token_id,
            )),
    {
        match find_account(&self.accounts, token_id) {
            Some(i) => Some(self.accounts[i].info),
            None => None,
        }
    }

    /// Whether the entity has a spin awaiting resolution, and the
    /// round it is bound to.
    pub fn query_pending_spin(&self, token_id: u64) -> (r: PendingSpinResponse)
        ensures
            r.is_pending <==> has_pending(self.pending_spins@, token_id),
            pending_unique(self.pending_spins@) ==> r.target_round == (if has_pending(
                self.pending_spins@,
                token_id,
            ) {
                pending_of(self.pending_spins@, token_id).target_round
            } else {
                0
            }),
    {
        match find_pending(&self.pending_spins, token_id) {
            Some(i) => PendingSpinResponse {
                is_pending: true,
                target_round: self.pending_spins[i].target_round,
            },
            None => PendingSpinResponse { is_pending: false, target_round: 0 },
        }
    }

    /// A statistics snapshot with the derived net supply.
    pub fn query_game_stats(&self) -> (r: GameStatsResponse)
        ensures
            r.total_minted == self.stats.total_minted,
            r.total_burned == self.stats.total_burned,
            r.current_supply == spec_supply(self.stats),
            r.total_spins == self.stats.total_spins,
            r.total_rewards_distributed == self.stats.total_rewards_distributed,
            r.total_biomass == self.biomass,
            r.total_mint_volume == self.stats.total_mint_volume,
            r.total_spin_volume == self.stats.total_spin_volume,
            r.total_rewards_recycled == self.stats.total_rewards_recycled,
            r.total_harvests == self.stats.total_harvests,
            r.total_splices == self.stats.total_splices,
            r.total_ascensions == self.stats.total_ascensions,
    {
        GameStatsResponse {
            total_minted: self.stats.total_minted,
            total_burned: self.stats.total_burned,
            current_supply: self.stats.total_minted.saturating_sub(self.stats.total_burned),
            total_spins: self.stats.total_spins,
            total_rewards_distributed: self.stats.total_rewards_distributed,
            total_biomass: self.biomass,
            total_mint_volume: self.stats.total_mint_volume,
            total_spin_volume: self.stats.total_spin_volume,
            total_rewards_recycled: self.stats.total_rewards_recycled,
            total_harvests: self.stats.total_harvests,
            total_splices: self.stats.total_splices,
            total_ascensions: self.stats.total_ascensions,
        }
    }

    /// The price the next mint will charge.
    pub fn query_current_mint_price(&self) -> (r: Result<MintPriceResponse, ContractError>)
        ensures
            r is Ok <==> spec_mint_price(self.config, self.stats) <= u128::MAX,
            r matches Ok(resp) ==> resp.price == spec_mint_price(self.config, self.stats),
            r is Err ==> r matches Err(ContractError::Overflow {  }),
    {
        let supply: u64 = self.stats.total_minted.saturating_sub(self.stats.total_burned);
        let increment_total = match self.config.mint_cost_increment.checked_mul(supply as u128) {
            Some(v) => v,
            None => {
                return Err(ContractError::Overflow {  });
            },
        };
        match self.config.mint_cost.checked_add(increment_total) {
            Some(v) => Ok(MintPriceResponse { price: v }),
            None => Err(ContractError::Overflow {  }),
        }
    }

    /// The leaderboard snapshot.
    pub fn query_leaderboard(&self) -> (r: LeaderboardResponse)
        ensures
            r.entries@ == self.leaderboard@,
    {
        let n = self.leaderboard.len();
        let mut entries: Vec<LeaderboardEntry> = Vec::new();
        let mut i: usize = 0;
        while i < n
            invariant
                i <= n,
                n == self.leaderboard@.len(),
                entries@ == self.leaderboard@.subrange(0, i as int),
            decreases n - i,
        {
            entries.push(self.leaderboard[i]);
            proof {
                assert(entries@ =~= self.leaderboard@.subrange(0, i + 1));
            }
            i = i + 1;
        }
        proof {
            assert(self.leaderboard@.subrange(0, n as int) =~= self.leaderboard@);
        }
        LeaderboardResponse { entries }
    }

    /// An entity's claimable reward right now: the raw accumulated
    /// amount, the canopy multiplier it would be scaled by, and the
    /// estimated payout. Reads nothing but the state, so repeated
    /// queries with no intervening mutation answer identically.
    pub fn query_pending_rewards(&self, token_id: u64, traits: &TraitExtension) -> (r: Result<
        PendingRewardsResponse,
        ContractError,
    >)
        requires
            accounts_unique(self.accounts@),
        ensures
            r == spec_query_pending_rewards(*self, token_id, *traits),
    {
        let ai = match find_account(&self.accounts, token_id) {
            Some(i) => i,
            None => {
                return Ok(
                    PendingRewardsResponse {
                        accumulated_rewards: 0,
                        canopy_multiplier: DECIMAL_SCALE,
                        estimated_payout: 0,
                    },
                );
            },
        };
        let acct = self.accounts[ai].info;
        let pending = match accrue(&acct, self.ledger.global_reward_index) {
            Ok(v) => v,
            Err(e) => {
                return Err(e);
            },
        };
        if pending == 0 {
            return Ok(
                PendingRewardsResponse {
                    accumulated_rewards: 0,
                    canopy_multiplier: DECIMAL_SCALE,
                    estimated_payout: 0,
                },
            );
        }
        let multiplier = match calculate_canopy_multiplier(&self.biomass, traits) {
            Ok(v) => v,
            Err(e) => {
                return Err(e);
            },
        };
        match mul_floor_scaled(pending, multiplier) {
            Ok(payout) => Ok(
                PendingRewardsResponse {
                    accumulated_rewards: pending,
                    canopy_multiplier: multiplier,
                    estimated_payout: payout,
                },
            ),
            Err(e) => Err(e),
        }
    }

    /// Ecosystem scarcity metrics: the biomass aggregate and each
    /// category's multiplier.
    pub fn query_ecosystem_metrics(&self) -> (r: Result<EcosystemMetricsResponse, ContractError>)
        ensures
            spec_total_mass(self.biomass) > u128::MAX ==> r == Err::<
                EcosystemMetricsResponse,
                ContractError,
            >(ContractError::Overflow {  }),
            spec_total_mass(self.biomass) <= u128::MAX ==> ({
                let total = spec_total_mass(self.biomass);
                let mc = spec_metric_multiplier(self.biomass.total_base_cap, total);
                let ms = spec_metric_multiplier(self.biomass.total_base_stem, total);
                let msp = spec_metric_multiplier(self.biomass.total_base_spores, total);
                &&& (mc is Err ==> r == Err::<EcosystemMetricsResponse, ContractError>(
                    mc->Err_0,
                ))
                &&& (mc is Ok && ms is Err ==> r == Err::<EcosystemMetricsResponse, ContractError>(
                    ms->Err_0,
                ))
                &&& (mc is Ok && ms is Ok && msp is Err ==> r == Err::<
                    EcosystemMetricsResponse,
                    ContractError,
                >(msp->Err_0))
                &&& (mc is Ok && ms is Ok && msp is Ok ==> (r matches Ok(resp)
                    && resp.total_biomass == self.biomass && resp.cap_multiplier == mc->Ok_0
                    && resp.stem_multiplier == ms->Ok_0 && resp.spores_multiplier == msp->Ok_0))
            }),
    {
        let partial = match self.biomass.total_base_cap.checked_add(self.biomass.total_base_stem) {
            Some(v) => v,
            None => {
                return Err(ContractError::Overflow {  });
            },
        };
        let total = match partial.checked_add(self.biomass.total_base_spores) {
            Some(v) => v,
            None => {
                return Err(ContractError::Overflow {  });
            },
        };
        let cap_multiplier = match self.metric_multiplier(self.biomass.total_base_cap, total) {
            Ok(v) => v,
            Err(e) => {
                return Err(e);
            },
        };
        let stem_multiplier = match self.metric_multiplier(self.biomass.total_base_stem, total) {
            Ok(v) => v,
            Err(e) => {
                return Err(e);
            },
        };
        let spores_multiplier = match self.metric_multiplier(self.biomass.total_base_spores, total) {
            Ok(v) => v,
            Err(e) => {
                return Err(e);
            },
        };
        Ok(
            EcosystemMetricsResponse {
                total_biomass: self.biomass,
                cap_multiplier,
                stem_multiplier,
                spores_multiplier,
            },
        )
    }

    /// One category's metric multiplier.
    fn metric_multiplier(&self, mass: u128, total: u128) -> (r: Result<u128, ContractError>)
        requires
            mass <= total,
        ensures
            r == spec_metric_multiplier(mass, total as int),
    {
        if total == 0 {
            Ok(DECIMAL_SCALE)
        } else {
            crate::canopy::trait_multiplier(mass, total)
        }
    }

    /// Aggregates over one page of a player's entities: the share and
    /// pending-reward totals, the highest-weighted entity, and the
    /// cursor for the next page.
    pub fn query_player_profile(&self, token_ids: &Vec<u64>) -> (r: Result<
        PlayerProfileResponse,
        ContractError,
    >)
        requires
            accounts_unique(self.accounts@),
        ensures
            r is Ok <==> spec_profile_fold(*self, token_ids@) is Ok,
            r is Err ==> r matches Err(ContractError::Overflow {  }),
            r matches Ok(resp) ==> ({
                let acc = spec_profile_fold(*self, token_ids@)->Ok_0;
                &&& resp.total_mushrooms == token_ids@.len()
                &&& resp.total_shares == acc.shares
                &&& resp.total_pending_rewards == acc.rewards
                &&& resp.best_mushroom_id == acc.best
                &&& resp.last_scanned_id == (if token_ids@.len() > 0 {
                    Some(token_ids@.last())
                } else {
                    None::<u64>
                })
            }),
    {
        let n = token_ids.len();
        let mut total_shares: u128 = 0;
        let mut total_rewards: u128 = 0;
        let mut best_id: Option<u64> = None;
        let mut max_shares: u128 = 0;
        let mut i: usize = 0;
        while i < n
            invariant
                i <= n,
                n == token_ids@.len(),
                accounts_unique(self.accounts@),
                spec_profile_fold(*self, token_ids@.subrange(0, i as int)) == Ok::<
                    ProfileAcc,
                    ContractError,
                >(
                    ProfileAcc {
                        shares: total_shares as int,
                        rewards: total_rewards as int,
                        best: best_id,
                        best_shares: max_shares as int,
                    },
                ),
            decreases n - i,
        {
            proof {
                assert(token_ids@.subrange(0, i + 1).drop_last() =~= token_ids@.subrange(
                    0,
                    i as int,
                ));
                assert(token_ids@.subrange(0, i + 1).last() == token_ids@[i as int]);
            }
            let token_id = token_ids[i];
            match find_account(&self.accounts, token_id) {
                Some(ai) => {
                    let info = self.accounts[ai].info;
                    let pending = match accrue(&info, self.ledger.global_reward_index) {
                        Ok(v) => v,
                        Err(e) => {
                            proof {
                                lemma_profile_fold_err(*self, token_ids@, i + 1);
                            }
                            return Err(e);
                        },
                    };
                    let shares2 = match total_shares.checked_add(info.current_shares) {
                        Some(v) => v,
                        None => {
                            proof {
                                lemma_profile_fold_err(*self, token_ids@, i + 1);
                            }
                            return Err(ContractError::Overflow {  });
                        },
                    };
                    let rewards2 = match total_rewards.checked_add(pending) {
                        Some(v) => v,
                        None => {
                            proof {
                                lemma_profile_fold_err(*self, token_ids@, i + 1);
                            }
                            return Err(ContractError::Overflow {  });
                        },
                    };
                    total_shares = shares2;
                    total_rewards = rewards2;
                    if info.current_shares > max_shares {
                        max_shares = info.current_shares;
                        best_id = Some(token_id);
                    }
                },
                None => {},
            }
            i = i + 1;
        }
        proof {
            assert(token_ids@.subrange(0, n as int) =~= token_ids@);
        }
        let last_scanned_id: Option<u64> = if n > 0 {
            Some(token_ids[n - 1])
        } else {
            None
        };
        Ok(
            PlayerProfileResponse {
                total_mushrooms: n as u64,
                total_shares,
                total_pending_rewards: total_rewards,
                best_mushroom_id: best_id,
                last_scanned_id,
            },
        )
    }
}

/// Every live entity's weight is counted in the global total and
/// nowhere else: a well-formed state's share total is exactly the sum
/// of its accounts' shares.
pub proof fn lemma_shares_conserved(s: GameState)
    requires
        s.wf(),
    ensures
        sum_shares(s.accounts@) == s.ledger.total_shares,
{
}

/// Reward balances never go negative: every account's pending reward
/// and recorded debt are non-negative, and the debt never exceeds the
/// value of the shares at the current index.
pub proof fn lemma_rewards_nonnegative(s: GameState)
    requires
        s.wf(),
    ensures
        forall|i: int|
            0 <= i < s.accounts@.len() ==> (#[trigger] s.accounts@[i]).info.pending_rewards >= 0
                && s.accounts@[i].info.reward_debt >= 0 && s.accounts@[i].info.reward_debt
                <= s.accounts@[i].info.current_shares * s.ledger.global_reward_index,
{
}

/// The reward index is monotonic: distributing revenue never lowers
/// it, so — as every operation sets the index by distribution — it
/// never decreases over the life of the ledger.
pub proof fn lemma_index_never_decreases(index: int, amount: int, total: int)
    requires
        index >= 0,
        amount >= 0,
        total >= 0,
    ensures
        spec_distribute(index, amount, total) >= index,
{
    if total > 0 {
        vstd::arithmetic::div_mod::lemma_div_pos_is_pos(amount, total);
    }
}

/// Pending-reward queries are idempotent: with no intervening
/// mutation — equal states and equal trait states — repeated queries
/// answer identically.
pub proof fn lemma_pending_query_idempotent(
    s1: GameState,
    s2: GameState,
    token_id: u64,
    t1: TraitExtension,
    t2: TraitExtension,
)
    requires
        s1 == s2,
        t1 == t2,
    ensures
        spec_query_pending_rewards(s1, token_id, t1) == spec_query_pending_rewards(
            s2,
            token_id,
            t2,
        ),
{
}

} // verus!
