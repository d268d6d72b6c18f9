use vstd::prelude::*;
use crate::arith::sat_sub_i64;
use crate::mandate_credit::program::{
    accrue_market, accrue_ok, accrued, assets_to_shares, borrower_after_borrow, free_liquidity, health_defined,
    healthy, less_collateral, liquidate_error, market_after_borrow, oracle_fresh, repay_amount, shares_to_assets,
    withdraw_usdy_error,
};
use crate::key::Key;
use crate::mandate_credit::state::{Borrower, Lender, Market, OPCO_BPS};

verus! {

// Each function below tells whether an instruction's arithmetic would overflow on the
// given input, so that the program shell can abort exactly where the instruction
// would; the instruction itself is only called on the other inputs.

/// Whether accruing up to `now` overflows.
pub fn accrue_traps(m: &Market, now: i64) -> (r: bool)
    ensures
        r == !accrue_ok(*m, now),
{
    let dt = sat_sub_i64(now, m.last_accrual_ts);
    if dt == 0 || m.total_debt_assets == 0 {
        return false;
    }
    if dt < 0 {
        let apr16 = m.borrow_apr_bps();
        let ghost apr = apr16 as int;
        let ghost debt = m.total_debt_assets as int;
        assert(debt * apr * dt <= 0) by (nonlinear_arith)
            requires
                debt >= 0,
                apr >= 0,
                dt < 0,
        ;
        return true;
    }
    let apr = m.borrow_apr_bps() as u128;
    let debt = m.total_debt_assets as u128;
    assert(debt * apr <= u128::MAX) by (nonlinear_arith)
        requires
            debt <= u64::MAX,
            apr <= 1_630,
    ;
    (debt * apr).checked_mul(dt as u128).is_none()
}

/// Whether the health check's products overflow.
pub fn health_traps(m: &Market, b: &Borrower, liq: bool) -> (r: bool)
    ensures
        r == !health_defined(*m, *b, liq),
{
    if b.debt_shares == 0 {
        return false;
    }
    let debt = shares_to_assets(b.debt_shares, m.total_debt_assets, m.total_debt_shares);
    let debt_usd = (debt as u128).checked_mul(m.usdy_price_e6 as u128);
    let collat_usd = (b.collateral_atoms as u128).checked_mul(m.collateral_price_e6 as u128);
    let thresh = (if liq {
        m.liq_threshold_bps
    } else {
        m.ltv_bps
    }) as u128;
    assert(debt * m.usdy_price_e6 <= u128::MAX) by (nonlinear_arith)
        requires
            debt <= u64::MAX,
            m.usdy_price_e6 <= u64::MAX,
    ;
    assert(b.collateral_atoms * m.collateral_price_e6 <= u128::MAX) by (nonlinear_arith)
        requires
            b.collateral_atoms <= u64::MAX,
            m.collateral_price_e6 <= u64::MAX,
    ;
    match (debt_usd, collat_usd) {
        (Some(d), Some(c)) => d.checked_mul(10_000).is_none() || c.checked_mul(thresh).is_none(),
        _ => true,
    }
}

/// Whether `supply_usdy` overflows.
pub fn supply_usdy_traps(m: &Market, amount: u64, now: i64) -> (r: bool)
    ensures
        r == !(!m.paused && amount > 0 ==> accrue_ok(*m, now)),
{
    !m.paused && amount > 0 && accrue_traps(m, now)
}

/// Whether `withdraw_usdy` overflows.
pub fn withdraw_usdy_traps(m: &Market, lender: &Lender, shares: u64, now: i64) -> (r: bool)
    ensures
        r == !(accrue_ok(*m, now) && (withdraw_usdy_error(accrued(*m, now), *lender, shares) is None ==> shares
            <= m.total_supply_shares)),
{
    if accrue_traps(m, now) {
        return true;
    }
    let mut m1 = *m;
    accrue_market(&mut m1, now);
    if !(shares > 0 && shares <= lender.supply_shares) {
        return false;
    }
    let assets = shares_to_assets(shares, m1.total_supply_assets, m1.total_supply_shares);
    if assets > m1.total_supply_assets.saturating_sub(m1.total_debt_assets) {
        return false;
    }
    shares > m.total_supply_shares
}

/// Whether `withdraw_collateral` overflows.
pub fn withdraw_collateral_traps(m: &Market, b: &Borrower, amount: u64, now: i64) -> (r: bool)
    ensures
        r == !(accrue_ok(*m, now) && (oracle_fresh(accrued(*m, now), now) && amount > 0 && amount
            <= b.collateral_atoms ==> health_defined(accrued(*m, now), less_collateral(*b, amount), false))),
{
    if accrue_traps(m, now) {
        return true;
    }
    let mut m1 = *m;
    accrue_market(&mut m1, now);
    if !(sat_sub_i64(now, m1.price_ts) <= m1.max_price_age_secs && amount > 0 && amount <= b.collateral_atoms) {
        return false;
    }
    let mut b1 = *b;
    b1.collateral_atoms = b1.collateral_atoms - amount;
    health_traps(&m1, &b1, false)
}

/// Whether `borrow_usdy` overflows.
pub fn borrow_usdy_traps(m: &Market, b: &Borrower, amount: u64, now: i64, slot: u64) -> (r: bool)
    ensures
        r == !((!m.paused && amount > 0 ==> accrue_ok(*m, now)) && (!m.paused && amount > 0 && oracle_fresh(
            accrued(*m, now),
            now,
        ) && amount <= free_liquidity(accrued(*m, now)) ==> health_defined(
            market_after_borrow(accrued(*m, now), amount),
            borrower_after_borrow(accrued(*m, now), *b, amount, slot),
            false,
        ))),
{
    if m.paused || amount == 0 {
        return false;
    }
    if accrue_traps(m, now) {
        return true;
    }
    let mut m1 = *m;
    accrue_market(&mut m1, now);
    if !(sat_sub_i64(now, m1.price_ts) <= m1.max_price_age_secs
        && amount <= m1.total_supply_assets.saturating_sub(m1.total_debt_assets)) {
        return false;
    }
    let shares = assets_to_shares(amount, m1.total_debt_assets, m1.total_debt_shares);
    let mut m2 = m1;
    m2.total_debt_assets = m2.total_debt_assets.saturating_add(amount);
    m2.total_debt_shares = m2.total_debt_shares.saturating_add(shares);
    let mut b2 = *b;
    b2.debt_shares = b2.debt_shares.saturating_add(shares);
    b2.last_borrow_slot = slot;
    health_traps(&m2, &b2, false)
}

/// Whether `repay_usdy` overflows.
pub fn repay_usdy_traps(m: &Market, now: i64) -> (r: bool)
    ensures
        r == !accrue_ok(*m, now),
{
    accrue_traps(m, now)
}

/// Whether `liquidate` overflows or divides by a zero collateral price.
pub fn liquidate_traps(m: &Market, market_key: Key, b: &Borrower, repay_usdy: u64, now: i64) -> (r: bool)
    ensures
        r == !({
            &&& b.market == market_key ==> accrue_ok(*m, now)
            &&& b.market == market_key && oracle_fresh(accrued(*m, now), now) ==> health_defined(accrued(*m, now), *b, true)
            &&& liquidate_error(*m, market_key, *b, repay_usdy, now) is None ==> {
                let m1 = accrued(*m, now);
                let pay = repay_amount(m1, *b, repay_usdy);
                &&& m1.collateral_price_e6 > 0
                &&& (pay * m1.usdy_price_e6) * (10_000 + m1.liq_penalty_bps) <= u128::MAX
            }
        }),
{
    if b.market != market_key {
        return false;
    }
    if accrue_traps(m, now) {
        return true;
    }
    let mut m1 = *m;
    accrue_market(&mut m1, now);
    if !(sat_sub_i64(now, m1.price_ts) <= m1.max_price_age_secs) {
        return false;
    }
    if health_traps(&m1, b, true) {
        return true;
    }
    if healthy(&m1, b, true) {
        return false;
    }
    let owed = shares_to_assets(b.debt_shares, m1.total_debt_assets, m1.total_debt_shares);
    let pay = if repay_usdy <= owed {
        repay_usdy
    } else {
        owed
    };
    if pay == 0 {
        return false;
    }
    if m1.collateral_price_e6 == 0 {
        return true;
    }
    assert(pay * m1.usdy_price_e6 <= u128::MAX) by (nonlinear_arith)
        requires
            pay <= u64::MAX,
            m1.usdy_price_e6 <= u64::MAX,
    ;
    let collat_usd = (pay as u128) * (m1.usdy_price_e6 as u128);
    collat_usd.checked_mul(10_000 + m1.liq_penalty_bps as u128).is_none()
}

/// Whether `apply_interest` overflows.
pub fn apply_interest_traps(interest: u64) -> (r: bool)
    ensures
        r == !((interest / 4) * OPCO_BPS <= u64::MAX),
{
    (interest / 4).checked_mul(OPCO_BPS as u64).is_none()
}

} // verus!
