use vstd::prelude::*;
use crate::key::Key;

verus! {

pub const SPY_LTV_BPS: u16 = 6_000;
pub const SPY_LIQ_BPS: u16 = 7_000;
pub const LIQ_PENALTY_BPS: u16 = 400;
/// Embedded T-bill yield of USDY, in basis points a year.
pub const USDY_NAV_APY_BPS: u16 = 355;
/// Spread of the borrow floor over the USDY NAV yield.
pub const BORROW_FLOOR_SPREAD_BPS: u16 = 75;
/// Utilization below which the borrow rate is the floor.
pub const KINK_UTIL_BPS: u16 = 5_000;
/// Utilization at which the extra rate reaches `KINK_SLOPE_BPS`.
pub const STEEP_UTIL_BPS: u16 = 8_000;
/// Extra rate at `STEEP_UTIL_BPS` utilization.
pub const KINK_SLOPE_BPS: u16 = 300;
/// Extra rate at full utilization.
pub const JUMP_SLOPE_BPS: u16 = 1_200;

pub const OPCO_BPS: u16 = 5_000;
pub const INSURANCE_BPS: u16 = 2_500;
pub const PROTOCOL_BPS: u16 = 2_500;

pub const WAD: u128 = 1_000_000_000_000;

/// One isolated credit market: one collateral ticker, USDY debt.
#[derive(Clone, Copy)]
pub struct Market {
    pub authority: Key,
    pub collateral_mint: Key,
    pub debt_mint: Key,
    pub collateral_vault: Key,
    pub debt_vault: Key,
    pub opco_treasury: Key,
    pub insurance_treasury: Key,
    pub protocol_treasury: Key,
    pub oracle: Key,
    pub ltv_bps: u16,
    pub liq_threshold_bps: u16,
    pub liq_penalty_bps: u16,
    pub collateral_price_e6: u64,
    pub usdy_price_e6: u64,
    pub price_ts: i64,
    pub max_price_age_secs: i64,
    pub borrow_index: u128,
    pub supply_index: u128,
    pub total_debt_shares: u64,
    pub total_supply_shares: u64,
    pub total_debt_assets: u64,
    pub total_supply_assets: u64,
    pub pending_opco: u64,
    pub pending_insurance: u64,
    pub pending_protocol: u64,
    pub last_accrual_ts: i64,
    pub paused: bool,
    pub ticker: [u8; 12],
    pub bump: u8,
}

/// A USDY lender's claim on the pool.
#[derive(Clone, Copy)]
pub struct Lender {
    pub owner: Key,
    pub market: Key,
    pub supply_shares: u64,
    pub bump: u8,
}

/// A borrower's collateral and debt.
#[derive(Clone, Copy)]
pub struct Borrower {
    pub owner: Key,
    pub market: Key,
    pub collateral_atoms: u64,
    pub debt_shares: u64,
    pub last_borrow_slot: u64,
    pub bump: u8,
}

/// Share of supplied USDY that is lent out, in basis points, capped at 100%.
pub open spec fn spec_utilization_bps(total_debt_assets: u64, total_supply_assets: u64) -> int {
    if total_supply_assets == 0 {
        0
    } else {
        let u = (total_debt_assets * 10_000) / (total_supply_assets as int);
        if u <= 10_000 {
            u
        } else {
            10_000
        }
    }
}

/// Extra borrow rate over the floor: none up to the 50% utilization kink, rising
/// linearly to 300 bps a year at 80% and then to 1200 bps at 100%.
pub open spec fn kink_curve(util: int) -> int {
    if util <= KINK_UTIL_BPS {
        0
    } else if util <= STEEP_UTIL_BPS {
        ((util - KINK_UTIL_BPS) * KINK_SLOPE_BPS) / (STEEP_UTIL_BPS - KINK_UTIL_BPS)
    } else {
        KINK_SLOPE_BPS + ((util - STEEP_UTIL_BPS) * (JUMP_SLOPE_BPS - KINK_SLOPE_BPS)) / (10_000 - STEEP_UTIL_BPS)
    }
}

/// Borrow APR: the floor (USDY NAV yield plus the spread) plus the kink curve.
pub open spec fn spec_borrow_apr_bps(util: int) -> int {
    USDY_NAV_APY_BPS + BORROW_FLOOR_SPREAD_BPS + kink_curve(util)
}

proof fn lemma_kink_curve_bounds(util: int)
    requires
        0 <= util <= 10_000,
    ensures
        0 <= kink_curve(util) <= 1_200,
{
    if util > 5_000 && util <= 8_000 {
        vstd::arithmetic::div_mod::lemma_div_is_ordered((util - 5_000) * 300, 900_000int, 3_000);
        vstd::arithmetic::div_mod::lemma_div_pos_is_pos((util - 5_000) * 300, 3_000);
    } else if util > 8_000 {
        vstd::arithmetic::div_mod::lemma_div_is_ordered((util - 8_000) * 900, 1_800_000int, 2_000);
        vstd::arithmetic::div_mod::lemma_div_pos_is_pos((util - 8_000) * 900, 2_000);
    }
}

/// Law: the borrow rate never falls below the USDY NAV yield plus the 75 bps spread,
/// so borrowing USDY to hold USDY never pays, and it never exceeds the floor plus
/// 1200 bps.
pub proof fn lemma_borrow_apr_floor(util: int)
    requires
        0 <= util <= 10_000,
    ensures
        USDY_NAV_APY_BPS + BORROW_FLOOR_SPREAD_BPS <= spec_borrow_apr_bps(util) <= 430 + 1_200,
        spec_borrow_apr_bps(util) > USDY_NAV_APY_BPS,
{
    lemma_kink_curve_bounds(util);
}

/// Law: the borrow rate never falls as utilization rises.
pub proof fn lemma_borrow_apr_monotone(u1: int, u2: int)
    requires
        0 <= u1 <= u2 <= 10_000,
    ensures
        spec_borrow_apr_bps(u1) <= spec_borrow_apr_bps(u2),
{
    lemma_kink_curve_bounds(u1);
    lemma_kink_curve_bounds(u2);
    if u1 > 5_000 && u2 <= 8_000 {
        vstd::arithmetic::div_mod::lemma_div_is_ordered((u1 - 5_000) * 300, (u2 - 5_000) * 300, 3_000);
    } else if u1 > 8_000 {
        vstd::arithmetic::div_mod::lemma_div_is_ordered((u1 - 8_000) * 900, (u2 - 8_000) * 900, 2_000);
    } else if u1 > 5_000 && u2 > 8_000 {
        vstd::arithmetic::div_mod::lemma_div_is_ordered((u1 - 5_000) * 300, 900_000int, 3_000);
        vstd::arithmetic::div_mod::lemma_div_pos_is_pos((u2 - 8_000) * 900, 2_000);
    }
}

impl Market {
    /// This market's utilization in basis points.
    pub open spec fn spec_util(&self) -> int {
        spec_utilization_bps(self.total_debt_assets, self.total_supply_assets)
    }

    /// This market's borrow APR in basis points.
    pub open spec fn spec_apr(&self) -> int {
        spec_borrow_apr_bps(self.spec_util())
    }

    pub fn utilization_bps(&self) -> (r: u16)
        ensures
            r == self.spec_util(),
            r <= 10_000,
    {
        if self.total_supply_assets == 0 {
            return 0;
        }
        let u: u128 = (self.total_debt_assets as u128 * 10_000) / self.total_supply_assets as u128;
        if u <= 10_000 {
            u as u16
        } else {
            10_000
        }
    }

    pub fn borrow_apr_bps(&self) -> (r: u16)
        ensures
            r == self.spec_apr(),
            430 <= r <= 1_630,
    {
        let floor: u16 = USDY_NAV_APY_BPS + BORROW_FLOOR_SPREAD_BPS;
        let util = self.utilization_bps();
        proof {
            lemma_kink_curve_bounds(util as int);
        }
        let curve: u32 = if util <= KINK_UTIL_BPS {
            0
        } else if util <= STEEP_UTIL_BPS {
            ((util - KINK_UTIL_BPS) as u32 * KINK_SLOPE_BPS as u32) / (STEEP_UTIL_BPS - KINK_UTIL_BPS) as u32
        } else {
            KINK_SLOPE_BPS as u32 + ((util - STEEP_UTIL_BPS) as u32 * (JUMP_SLOPE_BPS - KINK_SLOPE_BPS) as u32)
                / (10_000 - STEEP_UTIL_BPS) as u32
        };
        floor + curve as u16
    }
}

} // verus!
