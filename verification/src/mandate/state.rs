use vstd::prelude::*;
use crate::arith::lemma_u64_product;
use crate::key::Key;

verus! {

/// Largest number of names on one epoch ballot.
pub const MAX_BALLOT: usize = 12;

/// ONDO (e6 USD) needed per unit of NAV (e6 USD) for a full rebate: k = 0.05, so
/// $5 of ONDO per $100 of vault NAV gives a 100% rebate.
pub const REBATE_K_E6: u64 = 50_000;

/// Cooldown between an unstake request and its completion: seven days.
pub const UNSTAKE_COOLDOWN_SECS: i64 = 7 * 24 * 60 * 60;

/// Largest rebate, in basis points of the fee.
pub const MAX_REBATE_BPS: u64 = 10_000;

/// Where idle vault cash sits.
#[derive(Clone, Copy, Debug, PartialEq, Eq, Structural)]
pub enum IdleMode {
    HoldUsdy,
    SupplyIsolated,
}

/// The epoch vault.
pub struct Vault {
    pub authority: Key,
    pub executor: Key,
    pub usdy_mint: Key,
    pub ondo_mint: Key,
    pub share_mint: Key,
    pub idle_treasury: Key,
    pub ondo_treasury: Key,
    pub nav_usd_per_usdy_e6: u64,
    pub ondo_usd_e6: u64,
    pub idle_mode: IdleMode,
    pub management_fee_bps: u16,
    pub max_name_weight_bps: u16,
    pub quorum_bps: u16,
    pub min_quorum_notional_e6: u64,
    pub epoch_length_secs: i64,
    pub vote_length_secs: i64,
    pub commit_length_secs: i64,
    pub current_epoch: u64,
    pub total_shares: u64,
    pub paused: bool,
    pub bump: u8,
}

/// One voting epoch: its calendar, ballot and tally.
pub struct Epoch {
    pub vault: Key,
    pub index: u64,
    pub phase_start: i64,
    pub commit_end: i64,
    pub vote_end: i64,
    pub epoch_end: i64,
    pub universe: Vec<Key>,
    pub labels: Vec<String>,
    pub weights: Vec<u64>,
    pub voted_power: u64,
    pub total_power: u64,
    pub winner_idx: Option<u8>,
    pub executed: bool,
    pub bump: u8,
}

impl Epoch {
    /// One tally weight per ballot name.
    pub open spec fn wf(&self) -> bool {
        self.weights@.len() == self.universe@.len()
    }
}

/// A depositor's stake in one epoch.
pub struct Position {
    pub owner: Key,
    pub vault: Key,
    pub shares: u64,
    pub vote_power: u64,
    pub lock_mult_bps: u16,
    pub epoch_index: u64,
    pub voted: bool,
}

/// ONDO staked by a user for a fee rebate.
pub struct RebateAccount {
    pub owner: Key,
    pub vault: Key,
    pub staked_ondo: u64,
    pub pending_unstake: u64,
    pub unstake_available_ts: i64,
    pub accrued_rebate_usdy: u64,
    pub last_fee_epoch: u64,
    pub bump: u8,
}

/// rebate_bps = min(10000, staked_ondo_usd / (k * user_nav) * 10000), and 0 when
/// any of the three inputs is 0.
pub open spec fn spec_rebate_bps(staked_ondo: u64, ondo_usd_e6: u64, user_nav_e6: u64) -> int {
    if staked_ondo == 0 || user_nav_e6 == 0 || ondo_usd_e6 == 0 {
        0
    } else {
        let raw = (staked_ondo * ondo_usd_e6 * 10_000) / (user_nav_e6 * REBATE_K_E6);
        if raw >= 10_000 {
            10_000
        } else {
            raw
        }
    }
}

proof fn lemma_saturated_quotient_is_large(x: int, d: int)
    requires
        x > u128::MAX,
        0 < d <= (u64::MAX as int) * 50_000,
    ensures
        (u128::MAX as int) / d >= 10_000,
        x / d >= 10_000,
{
    assert((u128::MAX as int) / d >= 10_000) by (nonlinear_arith)
        requires
            0 < d <= (u64::MAX as int) * 50_000,
    {
        assert(d * 10_000 <= u128::MAX);
        vstd::arithmetic::div_mod::lemma_div_is_ordered(d * 10_000, u128::MAX as int, d);
        vstd::arithmetic::div_mod::lemma_div_multiples_vanish(10_000, d);
    }
    vstd::arithmetic::div_mod::lemma_div_is_ordered(u128::MAX as int, x, d);
}

impl RebateAccount {
    /// Rebate in basis points of the fee, for a stake of `staked_ondo` ONDO priced at
    /// `ondo_usd_e6` against a position worth `user_nav_e6`.
    pub fn rebate_bps(staked_ondo: u64, ondo_usd_e6: u64, user_nav_e6: u64) -> (r: u16)
        ensures
            r == spec_rebate_bps(staked_ondo, ondo_usd_e6, user_nav_e6),
            r <= MAX_REBATE_BPS,
    {
        if staked_ondo == 0 || user_nav_e6 == 0 || ondo_usd_e6 == 0 {
            return 0;
        }
        proof {
            lemma_u64_product(staked_ondo, ondo_usd_e6);
            lemma_u64_product(user_nav_e6, REBATE_K_E6);
        }
        let staked_usd: u128 = (staked_ondo as u128) * (ondo_usd_e6 as u128);
        let denom: u128 = (user_nav_e6 as u128) * (REBATE_K_E6 as u128);
        assert(denom > 0) by (nonlinear_arith)
            requires
                denom == (user_nav_e6 as int) * 50_000,
                user_nav_e6 > 0,
        ;
        assert(denom <= (u64::MAX as int) * 50_000) by (nonlinear_arith)
            requires
                denom == (user_nav_e6 as int) * 50_000,
                user_nav_e6 <= u64::MAX,
        ;
        let scaled: u128 = match staked_usd.checked_mul(10_000) {
            Some(v) => v,
            None => u128::MAX,
        };
        let bps: u128 = scaled / denom;
        proof {
            let exact = (staked_usd as int) * 10_000;
            if exact > u128::MAX {
                lemma_saturated_quotient_is_large(exact, denom as int);
            }
        }
        if bps >= 10_000 {
            10_000
        } else {
            bps as u16
        }
    }
}

/// Law: staking more ONDO never lowers the rebate (price and position fixed).
pub proof fn lemma_rebate_monotone_in_stake(s1: u64, s2: u64, ondo_usd_e6: u64, user_nav_e6: u64)
    requires
        0 < s1 <= s2,
    ensures
        spec_rebate_bps(s1, ondo_usd_e6, user_nav_e6) <= spec_rebate_bps(s2, ondo_usd_e6, user_nav_e6),
{
    if user_nav_e6 != 0 && ondo_usd_e6 != 0 {
        let a = s1 * ondo_usd_e6 * 10_000;
        let b = s2 * ondo_usd_e6 * 10_000;
        assert(a <= b) by (nonlinear_arith)
            requires
                a == s1 * ondo_usd_e6 * 10_000,
                b == s2 * ondo_usd_e6 * 10_000,
                s1 <= s2,
                ondo_usd_e6 >= 0,
        ;
        let d = user_nav_e6 * REBATE_K_E6;
        assert(d > 0) by (nonlinear_arith)
            requires
                d == user_nav_e6 * 50_000,
                user_nav_e6 > 0,
        ;
        vstd::arithmetic::div_mod::lemma_div_is_ordered(a, b, d);
    }
}

/// Law: a stake worth at least k = 5% of the position's NAV earns the full rebate.
pub proof fn lemma_rebate_full_at_five_percent(staked_ondo: u64, ondo_usd_e6: u64, user_nav_e6: u64)
    requires
        staked_ondo > 0,
        ondo_usd_e6 > 0,
        user_nav_e6 > 0,
        (staked_ondo as int) * (ondo_usd_e6 as int) >= (user_nav_e6 as int) * (REBATE_K_E6 as int),
    ensures
        spec_rebate_bps(staked_ondo, ondo_usd_e6, user_nav_e6) == 10_000,
{
    let a = staked_ondo * ondo_usd_e6 * 10_000;
    let d = user_nav_e6 * REBATE_K_E6;
    assert(a >= d * 10_000) by (nonlinear_arith)
        requires
            a == staked_ondo * ondo_usd_e6 * 10_000,
            d == user_nav_e6 * 50_000,
            staked_ondo * ondo_usd_e6 >= user_nav_e6 * 50_000,
    ;
    assert(d > 0) by (nonlinear_arith)
        requires
            d == user_nav_e6 * 50_000,
            user_nav_e6 > 0,
    ;
    vstd::arithmetic::div_mod::lemma_div_is_ordered(d * 10_000, a, d);
    vstd::arithmetic::div_mod::lemma_div_multiples_vanish(10_000, d);
}

/// Law: the rebate rate is the stake's USD value over k = 5% of the position's NAV, in
/// basis points, rounded down and capped at 100%: `rate * nav * k <= stake_usd * 10000`,
/// and below the cap one more basis point would exceed the stake's value.
pub proof fn lemma_rebate_rate_is_stake_over_nav(staked_ondo: u64, ondo_usd_e6: u64, user_nav_e6: u64)
    requires
        staked_ondo > 0,
        ondo_usd_e6 > 0,
        user_nav_e6 > 0,
    ensures
        ({
            let r = spec_rebate_bps(staked_ondo, ondo_usd_e6, user_nav_e6);
            let stake_usd = (staked_ondo as int) * (ondo_usd_e6 as int);
            let k_nav = (user_nav_e6 as int) * (REBATE_K_E6 as int);
            &&& 0 <= r <= 10_000
            &&& r * k_nav <= stake_usd * 10_000
            &&& r < 10_000 ==> stake_usd * 10_000 < (r + 1) * k_nav
        }),
{
    let x = staked_ondo * ondo_usd_e6 * 10_000;
    let d = user_nav_e6 * REBATE_K_E6;
    let stake_usd = (staked_ondo as int) * (ondo_usd_e6 as int);
    assert(d > 0) by (nonlinear_arith)
        requires
            d == user_nav_e6 * 50_000,
            user_nav_e6 > 0,
    ;
    assert(x == stake_usd * 10_000 && x >= 0) by (nonlinear_arith)
        requires
            x == staked_ondo * ondo_usd_e6 * 10_000,
            stake_usd == (staked_ondo as int) * (ondo_usd_e6 as int),
            staked_ondo >= 0,
            ondo_usd_e6 >= 0,
    ;
    let q = x / d;
    vstd::arithmetic::div_mod::lemma_div_pos_is_pos(x, d);
    vstd::arithmetic::div_mod::lemma_fundamental_div_mod(x, d);
    vstd::arithmetic::div_mod::lemma_mod_pos_bound(x, d);
    let r = spec_rebate_bps(staked_ondo, ondo_usd_e6, user_nav_e6);
    assert(r <= q);
    assert(r * d <= x) by (nonlinear_arith)
        requires
            0 <= r <= q,
            d > 0,
            x == d * q + x % d,
            x % d >= 0,
    ;
    if r < 10_000 {
        assert(r == q);
        assert(x < (r + 1) * d) by (nonlinear_arith)
            requires
                r == q,
                d > 0,
                x == d * q + x % d,
                x % d < d,
        ;
    }
}

} // verus!
