use vstd::prelude::*;
use crate::arith::{
    lemma_u64_product,
    i64_sat_sub, max_u64, min_u64, u64_sat_add, u64_sat_sub, max_of_u64, min_of_u64, sat_add_u64,
    sat_sub_i64, sat_sub_u64,
};
use crate::key::Key;
use crate::mandate_credit::fees::{after_interest, book_interest};
use crate::mandate_credit::state::{Borrower, Lender, Market, WAD};

verus! {

/// Why a credit instruction was refused.
#[derive(Clone, Copy, Debug, PartialEq, Eq, Structural)]
pub enum CreditError {
    Paused,
    Zero,
    Utilization,
    Unhealthy,
    Healthy,
    StaleOracle,
    NoLoop,
    WrongMarket,
}

/// Parameters of a new market.
#[derive(Clone, Copy)]
pub struct InitMarketArgs {
    pub ticker: [u8; 12],
    pub ltv_bps: u16,
    pub liq_threshold_bps: u16,
    pub liq_penalty_bps: u16,
    pub collateral_price_e6: u64,
    pub usdy_price_e6: u64,
    pub max_price_age_secs: i64,
}

/// Seconds in a 365-day year.
pub const SECS_PER_YEAR: u128 = 365 * 24 * 3600;

/// Shares that `assets` buy in a pool of `total_assets` held as `total_shares`
/// (one share per asset in an empty pool), rounded down and kept to 64 bits.
pub open spec fn spec_assets_to_shares(assets: u64, total_assets: u64, total_shares: u64) -> u64 {
    if total_shares == 0 || total_assets == 0 {
        assets
    } else {
        ((assets * total_shares) / (total_assets as int)) as u64
    }
}

/// Assets that `shares` are worth in a pool of `total_assets` held as `total_shares`,
/// rounded down and kept to 64 bits.
pub open spec fn spec_shares_to_assets(shares: u64, total_assets: u64, total_shares: u64) -> u64 {
    if total_shares == 0 {
        0
    } else {
        ((shares * total_assets) / (total_shares as int)) as u64
    }
}

pub fn assets_to_shares(assets: u64, total_assets: u64, total_shares: u64) -> (r: u64)
    ensures
        r == spec_assets_to_shares(assets, total_assets, total_shares),
{
    if total_shares == 0 || total_assets == 0 {
        assets
    } else {
        proof {
            lemma_u64_product(assets, total_shares);
        }
        ((assets as u128 * total_shares as u128) / total_assets as u128) as u64
    }
}

pub fn shares_to_assets(shares: u64, total_assets: u64, total_shares: u64) -> (r: u64)
    ensures
        r == spec_shares_to_assets(shares, total_assets, total_shares),
{
    if total_shares == 0 {
        0
    } else {
        proof {
            lemma_u64_product(shares, total_assets);
        }
        ((shares as u128 * total_assets as u128) / total_shares as u128) as u64
    }
}

/// Law: converting assets to shares and back never gives the holder more than they
/// put in (rounding favours the pool, and so does keeping the shares to 64 bits), in
/// a pool that holds both assets and shares.
pub proof fn lemma_share_round_trip(assets: u64, total_assets: u64, total_shares: u64)
    requires
        total_assets > 0,
        total_shares > 0,
    ensures
        spec_shares_to_assets(spec_assets_to_shares(assets, total_assets, total_shares), total_assets, total_shares) <= assets,
{
    let a = assets as int;
    let ta = total_assets as int;
    let ts = total_shares as int;
    let x = a * ts;
    let q = x / ta;
    let sh = spec_assets_to_shares(assets, total_assets, total_shares);
    assert(x >= 0) by (nonlinear_arith)
        requires
            x == a * ts,
            a >= 0,
            ts >= 0,
    ;
    vstd::arithmetic::div_mod::lemma_div_pos_is_pos(x, ta);
    // the shares kept are at most the true quotient, truncated or not
    assert(sh <= q);
    vstd::arithmetic::div_mod::lemma_fundamental_div_mod(x, ta);
    vstd::arithmetic::div_mod::lemma_mod_pos_bound(x, ta);
    let y = (sh as int) * ta;
    assert(y <= x) by (nonlinear_arith)
        requires
            y == (sh as int) * ta,
            0 <= sh <= q,
            ta > 0,
            x == ta * q + x % ta,
            x % ta >= 0,
    ;
    assert(y >= 0) by (nonlinear_arith)
        requires
            y == (sh as int) * ta,
            sh >= 0,
            ta > 0,
    ;
    vstd::arithmetic::div_mod::lemma_div_is_ordered(y, x, ts);
    assert(x == ts * a) by (nonlinear_arith)
        requires
            x == a * ts,
    ;
    vstd::arithmetic::div_mod::lemma_div_multiples_vanish(a, ts);
    vstd::arithmetic::div_mod::lemma_div_pos_is_pos(y, ts);
    assert(y == sh * total_assets);
}

/// Seconds since the last accrual (saturating).
pub open spec fn accrual_dt(m: Market, now: i64) -> i64 {
    i64_sat_sub(now, m.last_accrual_ts)
}

/// Interest owed for the time since the last accrual: debt * APR * dt / (10000 * year),
/// kept to 64 bits.
pub open spec fn accrual_interest(m: Market, now: i64) -> u64 {
    ((m.total_debt_assets * m.spec_apr() * accrual_dt(m, now)) / (10_000 * SECS_PER_YEAR as int)) as u64
}

/// Inputs on which an accrual completes: on any other input the accrual's 128-bit
/// product overflows (a clock behind the last accrual, or a product past 128 bits).
pub open spec fn accrue_ok(m: Market, now: i64) -> bool {
    let dt = accrual_dt(m, now);
    dt == 0 || m.total_debt_assets == 0 || {
        &&& dt > 0
        &&& m.total_debt_assets * m.spec_apr() * dt <= u128::MAX
    }
}

/// The market after accruing interest up to `now`: the interest is booked through the
/// fee waterfall (see `after_interest`): debt grows by the whole interest, supply by
/// three quarters of it, and the remaining quarter is split 50/25/25 into the fee
/// buckets.
pub open spec fn accrued(m: Market, now: i64) -> Market {
    let i = accrual_interest(m, now);
    if accrual_dt(m, now) == 0 || m.total_debt_assets == 0 || i == 0 {
        Market { last_accrual_ts: now, ..m }
    } else {
        Market { last_accrual_ts: now, ..after_interest(m, i) }
    }
}

/// Accrues borrow interest up to `now`.
pub fn accrue_market(m: &mut Market, now: i64)
    requires
        accrue_ok(*old(m), now),
    ensures
        *final(m) == accrued(*old(m), now),
{
    let dt = sat_sub_i64(now, m.last_accrual_ts);
    if dt == 0 || m.total_debt_assets == 0 {
        m.last_accrual_ts = now;
        return;
    }
    let apr = m.borrow_apr_bps() as u128;
    let debt = m.total_debt_assets as u128;
    assert(debt * apr <= u128::MAX) by (nonlinear_arith)
        requires
            debt <= u64::MAX,
            apr <= 1_630,
    ;
    let interest_wide: u128 = (debt * apr * dt as u128) / (10_000u128 * 365 * 24 * 3600);
    let interest = interest_wide as u64;
    if interest == 0 {
        m.last_accrual_ts = now;
        return;
    }
    book_interest(m, interest);
    m.last_accrual_ts = now;
}

/// Accrues borrow interest up to `now` (the permissionless crank).
pub fn accrue(market: &mut Market, now: i64)
    requires
        accrue_ok(*old(market), now),
    ensures
        *final(market) == accrued(*old(market), now),
{
    accrue_market(market, now);
}

/// Whether the market's prices are no older than its maximum age at `now`.
pub open spec fn oracle_fresh(m: Market, now: i64) -> bool {
    i64_sat_sub(now, m.price_ts) <= m.max_price_age_secs
}

pub fn require_fresh_oracle(m: &Market, now: i64) -> (r: Result<(), CreditError>)
    ensures
        r == (if oracle_fresh(*m, now) {
            Ok::<(), CreditError>(())
        } else {
            Err::<(), CreditError>(CreditError::StaleOracle)
        }),
{
    if sat_sub_i64(now, m.price_ts) <= m.max_price_age_secs {
        Ok(())
    } else {
        Err(CreditError::StaleOracle)
    }
}

/// USDY that the borrower owes.
pub open spec fn borrower_debt(m: Market, b: Borrower) -> u64 {
    spec_shares_to_assets(b.debt_shares, m.total_debt_assets, m.total_debt_shares)
}

/// The LTV for borrowing and withdrawing, the liquidation threshold for liquidating.
pub open spec fn health_threshold(m: Market, liq: bool) -> u16 {
    if liq {
        m.liq_threshold_bps
    } else {
        m.ltv_bps
    }
}

/// Inputs on which the health check's 128-bit products do not overflow.
pub open spec fn health_defined(m: Market, b: Borrower, liq: bool) -> bool {
    b.debt_shares == 0 || {
        &&& borrower_debt(m, b) * m.usdy_price_e6 * 10_000 <= u128::MAX
        &&& b.collateral_atoms * m.collateral_price_e6 * health_threshold(m, liq) <= u128::MAX
    }
}

/// A position is healthy when it owes nothing or its debt value is at most
/// threshold (bps) of its collateral value.
pub open spec fn spec_healthy(m: Market, b: Borrower, liq: bool) -> bool {
    b.debt_shares == 0 || borrower_debt(m, b) * m.usdy_price_e6 * 10_000
        <= b.collateral_atoms * m.collateral_price_e6 * health_threshold(m, liq)
}

pub fn healthy(m: &Market, b: &Borrower, liq: bool) -> (r: bool)
    requires
        health_defined(*m, *b, liq),
    ensures
        r == spec_healthy(*m, *b, liq),
{
    if b.debt_shares == 0 {
        return true;
    }
    let debt = shares_to_assets(b.debt_shares, m.total_debt_assets, m.total_debt_shares);
    proof {
        lemma_u64_product(debt, m.usdy_price_e6);
        lemma_u64_product(b.collateral_atoms, m.collateral_price_e6);
    }
    let debt_usd = debt as u128 * m.usdy_price_e6 as u128;
    let collat_usd = b.collateral_atoms as u128 * m.collateral_price_e6 as u128;
    let thresh = (if liq {
        m.liq_threshold_bps
    } else {
        m.ltv_bps
    }) as u128;
    debt_usd * 10_000 <= collat_usd * thresh
}

/// A new market: unit indices, no supply or debt, prices as given (USDY at least 1),
/// priced and accrued at `now`.
pub fn init_market(
    authority: Key,
    collateral_mint: Key,
    debt_mint: Key,
    collateral_vault: Key,
    debt_vault: Key,
    opco_treasury: Key,
    insurance_treasury: Key,
    protocol_treasury: Key,
    args: InitMarketArgs,
    now: i64,
    bump: u8,
) -> (m: Market)
    ensures
        m == (Market {
            authority,
            collateral_mint,
            debt_mint,
            collateral_vault,
            debt_vault,
            opco_treasury,
            insurance_treasury,
            protocol_treasury,
            oracle: Key { lo: 0, hi: 0 },
            ltv_bps: args.ltv_bps,
            liq_threshold_bps: args.liq_threshold_bps,
            liq_penalty_bps: args.liq_penalty_bps,
            collateral_price_e6: args.collateral_price_e6,
            usdy_price_e6: max_u64(args.usdy_price_e6, 1),
            price_ts: now,
            max_price_age_secs: args.max_price_age_secs,
            borrow_index: WAD,
            supply_index: WAD,
            total_debt_shares: 0,
            total_supply_shares: 0,
            total_debt_assets: 0,
            total_supply_assets: 0,
            pending_opco: 0,
            pending_insurance: 0,
            pending_protocol: 0,
            last_accrual_ts: now,
            paused: false,
            ticker: args.ticker,
            bump,
        }),
{
    Market {
        authority,
        collateral_mint,
        debt_mint,
        collateral_vault,
        debt_vault,
        opco_treasury,
        insurance_treasury,
        protocol_treasury,
        oracle: Key::zeroed(),
        ltv_bps: args.ltv_bps,
        liq_threshold_bps: args.liq_threshold_bps,
        liq_penalty_bps: args.liq_penalty_bps,
        collateral_price_e6: args.collateral_price_e6,
        usdy_price_e6: max_of_u64(args.usdy_price_e6, 1),
        price_ts: now,
        max_price_age_secs: args.max_price_age_secs,
        borrow_index: WAD,
        supply_index: WAD,
        total_debt_shares: 0,
        total_supply_shares: 0,
        total_debt_assets: 0,
        total_supply_assets: 0,
        pending_opco: 0,
        pending_insurance: 0,
        pending_protocol: 0,
        last_accrual_ts: now,
        paused: false,
        ticker: args.ticker,
        bump,
    }
}

/// Sets both prices (each at least 1), stamped `now`.
pub fn set_prices(market: &mut Market, coll_e6: u64, usdy_e6: u64, now: i64)
    ensures
        *final(market) == (Market {
            collateral_price_e6: max_u64(coll_e6, 1),
            usdy_price_e6: max_u64(usdy_e6, 1),
            price_ts: now,
            ..*old(market)
        }),
{
    market.collateral_price_e6 = max_of_u64(coll_e6, 1);
    market.usdy_price_e6 = max_of_u64(usdy_e6, 1);
    market.price_ts = now;
}

/// Pauses or unpauses the market.
pub fn set_paused(market: &mut Market, paused: bool)
    ensures
        *final(market) == (Market { paused, ..*old(market) }),
{
    market.paused = paused;
}

/// USDY in the pool that is not lent out.
pub open spec fn free_liquidity(m: Market) -> u64 {
    u64_sat_sub(m.total_supply_assets, m.total_debt_assets)
}

/// Supply shares that `amount` USDY buys in the (accrued) market `m1`.
pub open spec fn supply_shares_minted(m1: Market, amount: u64) -> u64 {
    spec_assets_to_shares(amount, m1.total_supply_assets, m1.total_supply_shares)
}

/// The (accrued) market `m1` after `amount` USDY is supplied.
pub open spec fn market_after_supply(m1: Market, amount: u64) -> Market {
    Market {
        total_supply_assets: u64_sat_add(m1.total_supply_assets, amount),
        total_supply_shares: u64_sat_add(m1.total_supply_shares, supply_shares_minted(m1, amount)),
        ..m1
    }
}

/// Law: a lender who supplies USDY and redeems the minted shares at once gets back at
/// most what was supplied: rounding favours the pool. It fails only for a pool that
/// holds assets but no shares, whose first supplier takes those assets too.
pub proof fn lemma_supply_then_withdraw_no_gain(m1: Market, amount: u64, now: i64)
    requires
        amount > 0,
        m1.last_accrual_ts == now,
        !(m1.total_supply_shares == 0 && m1.total_supply_assets > 0),
        m1.total_supply_assets + amount <= u64::MAX,
        m1.total_supply_shares + supply_shares_minted(m1, amount) <= u64::MAX,
    ensures
        accrued(market_after_supply(m1, amount), now) == market_after_supply(m1, amount),
        spec_shares_to_assets(
            supply_shares_minted(m1, amount),
            market_after_supply(m1, amount).total_supply_assets,
            market_after_supply(m1, amount).total_supply_shares,
        ) <= amount,
{
    let a = amount as int;
    let big_a = m1.total_supply_assets as int;
    let big_s = m1.total_supply_shares as int;
    let sh = supply_shares_minted(m1, amount) as int;
    if big_s > 0 && big_a > 0 {
        lemma_u64_product(amount, m1.total_supply_shares);
        vstd::arithmetic::div_mod::lemma_fundamental_div_mod(a * big_s, big_a);
        vstd::arithmetic::div_mod::lemma_mod_pos_bound(a * big_s, big_a);
        vstd::arithmetic::div_mod::lemma_div_pos_is_pos(a * big_s, big_a);
        // the minted shares are at most the true quotient, truncated or not
        assert(sh <= (a * big_s) / big_a);
        assert(big_a * sh <= a * big_s) by (nonlinear_arith)
            requires
                0 <= sh <= (a * big_s) / big_a,
                big_a > 0,
                a * big_s == big_a * ((a * big_s) / big_a) + (a * big_s) % big_a,
                (a * big_s) % big_a >= 0,
        ;
    }
    if big_a == 0 {
        assert(big_a * sh == 0);
        assert(a * big_s >= 0) by (nonlinear_arith)
            requires
                a > 0,
                big_s >= 0,
        ;
    }
    assert(big_a * sh <= a * big_s);
    assert(sh * (big_a + a) == big_a * sh + sh * a) by (nonlinear_arith);
    assert(a * (big_s + sh) == a * big_s + sh * a) by (nonlinear_arith);
    assert(sh * (big_a + a) >= 0) by (nonlinear_arith)
        requires
            sh >= 0,
            big_a >= 0,
            a > 0,
    ;
    assert(big_s + sh > 0);
    vstd::arithmetic::div_mod::lemma_div_is_ordered(sh * (big_a + a), a * (big_s + sh), big_s + sh);
    vstd::arithmetic::div_mod::lemma_div_multiples_vanish(a, big_s + sh);
    assert(a * (big_s + sh) == (big_s + sh) * a) by (nonlinear_arith);
}

/// Supplies `amount` USDY to the pool after accruing. The caller moves `amount` USDY
/// from the user to the debt vault when this succeeds.
pub fn supply_usdy(
    market: &mut Market,
    lender: &mut Lender,
    user: Key,
    market_key: Key,
    amount: u64,
    now: i64,
    bump: u8,
) -> (r: Result<(), CreditError>)
    requires
        !old(market).paused && amount > 0 ==> accrue_ok(*old(market), now),
    ensures
        old(market).paused ==> r == Err::<(), CreditError>(CreditError::Paused)
            && *final(market) == *old(market) && *final(lender) == *old(lender),
        !old(market).paused && amount == 0 ==> r == Err::<(), CreditError>(CreditError::Zero)
            && *final(market) == *old(market) && *final(lender) == *old(lender),
        !old(market).paused && amount > 0 ==> {
            let m1 = accrued(*old(market), now);
            let shares = supply_shares_minted(m1, amount);
            &&& r is Ok
            &&& *final(market) == market_after_supply(m1, amount)
            &&& *final(lender) == (Lender {
                owner: user,
                market: market_key,
                supply_shares: u64_sat_add(old(lender).supply_shares, shares),
                bump,
            })
        },
{
    if market.paused {
        return Err(CreditError::Paused);
    }
    if amount == 0 {
        return Err(CreditError::Zero);
    }
    accrue_market(market, now);
    let shares = assets_to_shares(amount, market.total_supply_assets, market.total_supply_shares);
    market.total_supply_assets = sat_add_u64(market.total_supply_assets, amount);
    market.total_supply_shares = sat_add_u64(market.total_supply_shares, shares);
    lender.owner = user;
    lender.market = market_key;
    lender.supply_shares = sat_add_u64(lender.supply_shares, shares);
    lender.bump = bump;
    Ok(())
}

/// The refusal that `withdraw_usdy` gives after accruing, if any.
pub open spec fn withdraw_usdy_error(m1: Market, lender: Lender, shares: u64) -> Option<CreditError> {
    if !(shares > 0 && shares <= lender.supply_shares) {
        Some(CreditError::Zero)
    } else if spec_shares_to_assets(shares, m1.total_supply_assets, m1.total_supply_shares) > free_liquidity(m1) {
        Some(CreditError::Utilization)
    } else {
        None
    }
}

/// Redeems `shares` of the lender's supply for USDY after accruing, never more than
/// the pool's free liquidity. Returns the USDY that the caller moves from the debt
/// vault to the user.
pub fn withdraw_usdy(market: &mut Market, lender: &mut Lender, shares: u64, now: i64) -> (r: Result<u64, CreditError>)
    requires
        accrue_ok(*old(market), now),
        withdraw_usdy_error(accrued(*old(market), now), *old(lender), shares) is None ==> shares
            <= old(market).total_supply_shares,
    ensures
        ({
            let m1 = accrued(*old(market), now);
            match withdraw_usdy_error(m1, *old(lender), shares) {
                Some(e) => {
                    &&& r == Err::<u64, CreditError>(e)
                    &&& *final(market) == *old(market)
                    &&& *final(lender) == *old(lender)
                },
                None => {
                    let assets = spec_shares_to_assets(shares, m1.total_supply_assets, m1.total_supply_shares);
                    &&& r == Ok::<u64, CreditError>(assets)
                    &&& assets <= free_liquidity(m1)
                    &&& *final(market) == (Market {
                        total_supply_shares: (m1.total_supply_shares - shares) as u64,
                        total_supply_assets: u64_sat_sub(m1.total_supply_assets, assets),
                        ..m1
                    })
                    &&& *final(lender) == (Lender {
                        supply_shares: (old(lender).supply_shares - shares) as u64,
                        ..*old(lender)
                    })
                },
            }
        }),
{
    let mut m = *market;
    accrue_market(&mut m, now);
    if !(shares > 0 && shares <= lender.supply_shares) {
        return Err(CreditError::Zero);
    }
    let assets = shares_to_assets(shares, m.total_supply_assets, m.total_supply_shares);
    let free = sat_sub_u64(m.total_supply_assets, m.total_debt_assets);
    if assets > free {
        return Err(CreditError::Utilization);
    }
    lender.supply_shares = lender.supply_shares - shares;
    m.total_supply_shares = m.total_supply_shares - shares;
    m.total_supply_assets = sat_sub_u64(m.total_supply_assets, assets);
    *market = m;
    Ok(assets)
}

/// The refusal that `deposit_collateral` gives, if any, checked in this order.
pub open spec fn deposit_collateral_error(m: Market, b: Borrower, amount: u64, slot: u64) -> Option<CreditError> {
    if m.paused {
        Some(CreditError::Paused)
    } else if amount == 0 {
        Some(CreditError::Zero)
    } else if !(b.last_borrow_slot != slot || b.debt_shares == 0) {
        Some(CreditError::NoLoop)
    } else {
        None
    }
}

/// Posts `amount` collateral atoms. Refused in the slot of a borrow while the position
/// owes, so that borrowed USDY cannot be recycled into the same collateral at once.
/// The caller moves `amount` from the user to the collateral vault when this succeeds.
pub fn deposit_collateral(
    market: &Market,
    borrower: &mut Borrower,
    user: Key,
    market_key: Key,
    amount: u64,
    slot: u64,
    bump: u8,
) -> (r: Result<(), CreditError>)
    ensures
        match deposit_collateral_error(*market, *old(borrower), amount, slot) {
            Some(e) => r == Err::<(), CreditError>(e) && *final(borrower) == *old(borrower),
            None => {
                &&& r is Ok
                &&& *final(borrower) == (Borrower {
                    owner: user,
                    market: market_key,
                    collateral_atoms: u64_sat_add(old(borrower).collateral_atoms, amount),
                    bump,
                    ..*old(borrower)
                })
            },
        },
{
    if market.paused {
        return Err(CreditError::Paused);
    }
    if amount == 0 {
        return Err(CreditError::Zero);
    }
    if !(borrower.last_borrow_slot != slot || borrower.debt_shares == 0) {
        return Err(CreditError::NoLoop);
    }
    borrower.owner = user;
    borrower.market = market_key;
    borrower.collateral_atoms = sat_add_u64(borrower.collateral_atoms, amount);
    borrower.bump = bump;
    Ok(())
}

/// The borrower after taking out `amount` collateral atoms.
pub open spec fn less_collateral(b: Borrower, amount: u64) -> Borrower {
    Borrower { collateral_atoms: (b.collateral_atoms - amount) as u64, ..b }
}

/// The refusal that `withdraw_collateral` gives, if any, checked in this order.
pub open spec fn withdraw_collateral_error(m: Market, b: Borrower, amount: u64, now: i64) -> Option<CreditError> {
    let m1 = accrued(m, now);
    if !oracle_fresh(m1, now) {
        Some(CreditError::StaleOracle)
    } else if !(amount > 0 && amount <= b.collateral_atoms) {
        Some(CreditError::Zero)
    } else if !spec_healthy(m1, less_collateral(b, amount), false) {
        Some(CreditError::Unhealthy)
    } else {
        None
    }
}

/// Takes `amount` collateral atoms back, provided the prices are fresh and the
/// position stays within its LTV after accruing interest. The market itself is read,
/// not written: the accrual only informs the health check. The caller moves `amount`
/// from the collateral vault to the user when this succeeds.
pub fn withdraw_collateral(market: &Market, borrower: &mut Borrower, amount: u64, now: i64) -> (r: Result<(), CreditError>)
    requires
        accrue_ok(*market, now),
        oracle_fresh(accrued(*market, now), now) && amount > 0 && amount <= old(borrower).collateral_atoms
            ==> health_defined(accrued(*market, now), less_collateral(*old(borrower), amount), false),
    ensures
        match withdraw_collateral_error(*market, *old(borrower), amount, now) {
            Some(e) => r == Err::<(), CreditError>(e) && *final(borrower) == *old(borrower),
            None => r is Ok && *final(borrower) == less_collateral(*old(borrower), amount),
        },
{
    let mut m = *market;
    accrue_market(&mut m, now);
    match require_fresh_oracle(&m, now) {
        Ok(()) => {},
        Err(e) => return Err(e),
    }
    if !(amount > 0 && amount <= borrower.collateral_atoms) {
        return Err(CreditError::Zero);
    }
    let mut b = *borrower;
    b.collateral_atoms = b.collateral_atoms - amount;
    if !healthy(&m, &b, false) {
        return Err(CreditError::Unhealthy);
    }
    *borrower = b;
    Ok(())
}

/// The market after lending out `amount` (on the accrued market `m1`).
pub open spec fn market_after_borrow(m1: Market, amount: u64) -> Market {
    let shares = spec_assets_to_shares(amount, m1.total_debt_assets, m1.total_debt_shares);
    Market {
        total_debt_assets: u64_sat_add(m1.total_debt_assets, amount),
        total_debt_shares: u64_sat_add(m1.total_debt_shares, shares),
        ..m1
    }
}

/// The borrower after borrowing `amount` (on the accrued market `m1`) in `slot`.
pub open spec fn borrower_after_borrow(m1: Market, b: Borrower, amount: u64, slot: u64) -> Borrower {
    let shares = spec_assets_to_shares(amount, m1.total_debt_assets, m1.total_debt_shares);
    Borrower { debt_shares: u64_sat_add(b.debt_shares, shares), last_borrow_slot: slot, ..b }
}

/// The refusal that `borrow_usdy` gives, if any, checked in this order.
pub open spec fn borrow_error(m: Market, b: Borrower, amount: u64, now: i64, slot: u64) -> Option<CreditError> {
    let m1 = accrued(m, now);
    if m.paused {
        Some(CreditError::Paused)
    } else if amount == 0 {
        Some(CreditError::Zero)
    } else if !oracle_fresh(m1, now) {
        Some(CreditError::StaleOracle)
    } else if amount > free_liquidity(m1) {
        Some(CreditError::Utilization)
    } else if !spec_healthy(market_after_borrow(m1, amount), borrower_after_borrow(m1, b, amount, slot), false) {
        Some(CreditError::Unhealthy)
    } else {
        None
    }
}

/// Lends `amount` USDY against the borrower's collateral after accruing: the prices
/// must be fresh, the pool must hold that much free liquidity and the position must
/// stay within its LTV. The caller moves `amount` from the debt vault to the user
/// when this succeeds.
pub fn borrow_usdy(market: &mut Market, borrower: &mut Borrower, amount: u64, now: i64, slot: u64) -> (r: Result<(), CreditError>)
    requires
        !old(market).paused && amount > 0 ==> accrue_ok(*old(market), now),
        !old(market).paused && amount > 0 && oracle_fresh(accrued(*old(market), now), now)
            && amount <= free_liquidity(accrued(*old(market), now)) ==> health_defined(
            market_after_borrow(accrued(*old(market), now), amount),
            borrower_after_borrow(accrued(*old(market), now), *old(borrower), amount, slot),
            false,
        ),
    ensures
        match borrow_error(*old(market), *old(borrower), amount, now, slot) {
            Some(e) => {
                &&& r == Err::<(), CreditError>(e)
                &&& *final(market) == *old(market)
                &&& *final(borrower) == *old(borrower)
            },
            None => {
                &&& r is Ok
                &&& *final(market) == market_after_borrow(accrued(*old(market), now), amount)
                &&& *final(borrower) == borrower_after_borrow(accrued(*old(market), now), *old(borrower), amount, slot)
                &&& spec_healthy(*final(market), *final(borrower), false)
            },
        },
{
    if market.paused {
        return Err(CreditError::Paused);
    }
    if amount == 0 {
        return Err(CreditError::Zero);
    }
    let mut m = *market;
    accrue_market(&mut m, now);
    match require_fresh_oracle(&m, now) {
        Ok(()) => {},
        Err(e) => return Err(e),
    }
    let free = sat_sub_u64(m.total_supply_assets, m.total_debt_assets);
    if amount > free {
        return Err(CreditError::Utilization);
    }
    let shares = assets_to_shares(amount, m.total_debt_assets, m.total_debt_shares);
    m.total_debt_assets = sat_add_u64(m.total_debt_assets, amount);
    m.total_debt_shares = sat_add_u64(m.total_debt_shares, shares);
    let mut b = *borrower;
    b.debt_shares = sat_add_u64(b.debt_shares, shares);
    b.last_borrow_slot = slot;
    if !healthy(&m, &b, false) {
        return Err(CreditError::Unhealthy);
    }
    *market = m;
    *borrower = b;
    Ok(())
}

/// Law: a borrow of `amount` mints debt shares at the market's debt price (debt assets
/// per debt share, after accrual). The shares minted are worth at most `amount` at that
/// price, and less than one share short of it; in a market without debt, one share is
/// minted per USDY. So a position that had no debt owes at most `amount` right after
/// borrowing it.
pub proof fn lemma_borrow_mints_shares_at_debt_price(m1: Market, b: Borrower, amount: u64, slot: u64)
    ensures
        ({
            let mb = market_after_borrow(m1, amount);
            let bb = borrower_after_borrow(m1, b, amount, slot);
            let a = m1.total_debt_assets as int;
            let s = m1.total_debt_shares as int;
            let minted = bb.debt_shares - b.debt_shares;
            &&& 0 <= minted
            &&& a > 0 && s > 0 ==> minted * a <= amount * s
            &&& a > 0 && s > 0 && b.debt_shares + (amount * s) / a <= u64::MAX
                ==> amount * s < (minted + 1) * a
            &&& (a == 0 || s == 0) && b.debt_shares + amount <= u64::MAX ==> minted == amount
            &&& b.debt_shares + minted < u64::MAX && s + minted <= u64::MAX ==> mb.total_debt_shares == s + minted
            &&& a + amount <= u64::MAX ==> mb.total_debt_assets == a + amount
            &&& a > 0 && s > 0 && b.debt_shares == 0 && s + minted <= u64::MAX && a + amount <= u64::MAX
                ==> bb.debt_shares * mb.total_debt_assets <= amount * mb.total_debt_shares
        }),
{
    let bb = borrower_after_borrow(m1, b, amount, slot);
    let a = m1.total_debt_assets as int;
    let s = m1.total_debt_shares as int;
    let sh = spec_assets_to_shares(amount, m1.total_debt_assets, m1.total_debt_shares) as int;
    let minted = bb.debt_shares - b.debt_shares;
    assert(0 <= minted <= sh);
    if a > 0 && s > 0 {
        let x = (amount as int) * s;
        let q = x / a;
        lemma_u64_product(amount, m1.total_debt_shares);
        vstd::arithmetic::div_mod::lemma_div_pos_is_pos(x, a);
        vstd::arithmetic::div_mod::lemma_fundamental_div_mod(x, a);
        vstd::arithmetic::div_mod::lemma_mod_pos_bound(x, a);
        assert(sh <= q);
        assert(minted * a <= x) by (nonlinear_arith)
            requires
                0 <= minted <= q,
                a > 0,
                x == a * q + x % a,
                x % a >= 0,
        ;
        if b.debt_shares + q <= u64::MAX {
            assert(sh == q);
            assert(minted == q);
            assert(x < (minted + 1) * a) by (nonlinear_arith)
                requires
                    minted == q,
                    a > 0,
                    x == a * q + x % a,
                    x % a < a,
            ;
        }
        if b.debt_shares == 0 && s + minted <= u64::MAX && a + amount <= u64::MAX {
            let mb = market_after_borrow(m1, amount);
            assert(minted * (a + amount) <= (amount as int) * (s + minted)) by (nonlinear_arith)
                requires
                    minted * a <= (amount as int) * s,
                    minted >= 0,
            ;
            assert(bb.debt_shares == minted);
            assert(mb.total_debt_assets == a + amount);
            assert(mb.total_debt_shares == s + minted);
        }
    }
}

/// USDY that a repayment of up to `amount` actually pays: never more than owed.
pub open spec fn repay_amount(m1: Market, b: Borrower, amount: u64) -> u64 {
    min_u64(amount, borrower_debt(m1, b))
}

/// Debt shares that paying `pay` retires: all of them when the whole debt is paid.
pub open spec fn shares_retired(m1: Market, b: Borrower, pay: u64) -> u64 {
    if pay == borrower_debt(m1, b) {
        b.debt_shares
    } else {
        spec_assets_to_shares(pay, m1.total_debt_assets, m1.total_debt_shares)
    }
}

/// Repays up to `amount` of the borrower's debt after accruing. Returns the USDY paid,
/// which the caller moves from the user to the debt vault.
pub fn repay_usdy(market: &mut Market, borrower: &mut Borrower, amount: u64, now: i64) -> (r: Result<u64, CreditError>)
    requires
        accrue_ok(*old(market), now),
    ensures
        ({
            let m1 = accrued(*old(market), now);
            let pay = repay_amount(m1, *old(borrower), amount);
            let shares = shares_retired(m1, *old(borrower), pay);
            if pay == 0 {
                &&& r == Err::<u64, CreditError>(CreditError::Zero)
                &&& *final(market) == *old(market)
                &&& *final(borrower) == *old(borrower)
            } else {
                &&& r == Ok::<u64, CreditError>(pay)
                &&& *final(borrower) == (Borrower {
                    debt_shares: u64_sat_sub(old(borrower).debt_shares, shares),
                    ..*old(borrower)
                })
                &&& *final(market) == (Market {
                    total_debt_shares: u64_sat_sub(m1.total_debt_shares, shares),
                    total_debt_assets: u64_sat_sub(m1.total_debt_assets, pay),
                    ..m1
                })
            }
        }),
{
    let mut m = *market;
    accrue_market(&mut m, now);
    let owed = shares_to_assets(borrower.debt_shares, m.total_debt_assets, m.total_debt_shares);
    let pay = min_of_u64(amount, owed);
    if pay == 0 {
        return Err(CreditError::Zero);
    }
    let shares = if pay == owed {
        borrower.debt_shares
    } else {
        assets_to_shares(pay, m.total_debt_assets, m.total_debt_shares)
    };
    borrower.debt_shares = sat_sub_u64(borrower.debt_shares, shares);
    m.total_debt_shares = sat_sub_u64(m.total_debt_shares, shares);
    m.total_debt_assets = sat_sub_u64(m.total_debt_assets, pay);
    *market = m;
    Ok(pay)
}

/// Law: a repayment (or the repaying leg of a liquidation) never pays more than asked
/// nor more than the position owes at the market's debt price, and a partial payment
/// retires debt shares at that price: the shares retired are worth at most `pay`, and
/// less than one share short of it. A payment of the whole debt retires every share.
pub proof fn lemma_repay_retires_shares_at_debt_price(m1: Market, b: Borrower, amount: u64)
    requires
        b.debt_shares <= m1.total_debt_shares,
    ensures
        ({
            let pay = repay_amount(m1, b, amount);
            let retired = shares_retired(m1, b, pay);
            let a = m1.total_debt_assets as int;
            let s = m1.total_debt_shares as int;
            &&& pay <= amount
            &&& s > 0 ==> pay * s <= b.debt_shares * a
            &&& s == 0 ==> pay == 0
            &&& s > 0 && a > 0 && (pay + 1) * s <= b.debt_shares * a ==> {
                &&& pay == amount
                &&& retired * a <= pay * s
                &&& pay * s < (retired + 1) * a
            }
            &&& s > 0 && b.debt_shares * a < (pay + 1) * s ==> retired == b.debt_shares
        }),
{
    let a = m1.total_debt_assets as int;
    let s = m1.total_debt_shares as int;
    let pay = repay_amount(m1, b, amount);
    let retired = shares_retired(m1, b, pay);
    let debt = borrower_debt(m1, b) as int;
    if s > 0 {
        let y = (b.debt_shares as int) * a;
        lemma_u64_product(b.debt_shares, m1.total_debt_assets);
        vstd::arithmetic::div_mod::lemma_div_pos_is_pos(y, s);
        vstd::arithmetic::div_mod::lemma_fundamental_div_mod(y, s);
        vstd::arithmetic::div_mod::lemma_mod_pos_bound(y, s);
        // the position's debt is its shares at the debt price, rounded down
        assert(debt == y / s) by {
            assert(y / s <= y) by (nonlinear_arith)
                requires
                    y >= 0,
                    s > 0,
                    y == s * (y / s) + y % s,
                    y % s >= 0,
            ;
            // a position holds no more than all the shares, so its debt fits 64 bits
            assert(y <= s * a) by (nonlinear_arith)
                requires
                    y == (b.debt_shares as int) * a,
                    b.debt_shares <= s,
                    a >= 0,
            ;
            vstd::arithmetic::div_mod::lemma_div_is_ordered(y, s * a, s);
            vstd::arithmetic::div_mod::lemma_div_multiples_vanish(a, s);
        }
        assert(pay * s <= y) by (nonlinear_arith)
            requires
                0 <= pay <= y / s,
                s > 0,
                y == s * (y / s) + y % s,
                y % s >= 0,
        ;
        if (pay + 1) * s <= y {
            // pay < debt: a partial payment of exactly `amount`
            assert(pay + 1 <= y / s) by (nonlinear_arith)
                requires
                    (pay + 1) * s <= y,
                    s > 0,
                    y == s * (y / s) + y % s,
                    0 <= y % s < s,
            ;
            if a > 0 {
                let x = (pay as int) * s;
                let q = x / a;
                lemma_u64_product(pay, m1.total_debt_shares);
                vstd::arithmetic::div_mod::lemma_div_pos_is_pos(x, a);
                vstd::arithmetic::div_mod::lemma_fundamental_div_mod(x, a);
                vstd::arithmetic::div_mod::lemma_mod_pos_bound(x, a);
                // the true quotient stays below the position's shares, so it fits
                vstd::arithmetic::div_mod::lemma_div_is_ordered(x, y, a);
                vstd::arithmetic::div_mod::lemma_div_multiples_vanish(b.debt_shares as int, a);
                assert(y == a * (b.debt_shares as int)) by (nonlinear_arith)
                    requires
                        y == (b.debt_shares as int) * a,
                ;
                assert(retired == q);
                assert(retired * a <= x) by (nonlinear_arith)
                    requires
                        retired == q,
                        a > 0,
                        x == a * q + x % a,
                        x % a >= 0,
                ;
                assert(x < (retired + 1) * a) by (nonlinear_arith)
                    requires
                        retired == q,
                        a > 0,
                        x == a * q + x % a,
                        x % a < a,
                ;
            }
        } else {
            assert(y / s < pay + 1) by (nonlinear_arith)
                requires
                    y < (pay + 1) * s,
                    s > 0,
                    y == s * (y / s) + y % s,
                    y % s >= 0,
            ;
        }
    }
}

/// Law: repaying at least the whole debt clears the position's debt shares.
pub proof fn lemma_full_repay_clears_debt(m1: Market, b: Borrower, amount: u64)
    requires
        amount >= borrower_debt(m1, b),
        borrower_debt(m1, b) > 0,
    ensures
        repay_amount(m1, b, amount) == borrower_debt(m1, b),
        u64_sat_sub(b.debt_shares, shares_retired(m1, b, repay_amount(m1, b, amount))) == 0,
{
}

/// Law: in a market with no debt yet, a position that borrows `amount` and repays
/// `amount` at the same time pays back exactly what it borrowed, and the position and
/// the market are left without debt assets or shares.
pub proof fn lemma_borrow_then_repay(m: Market, b: Borrower, amount: u64, now: i64, slot: u64)
    requires
        m.total_debt_assets == 0,
        m.total_debt_shares == 0,
        b.debt_shares == 0,
        amount > 0,
    ensures
        ({
            let m1 = accrued(m, now);
            let mb = market_after_borrow(m1, amount);
            let bb = borrower_after_borrow(m1, b, amount, slot);
            let m2 = accrued(mb, now);
            let pay = repay_amount(m2, bb, amount);
            let shares = shares_retired(m2, bb, pay);
            &&& pay == amount
            &&& u64_sat_sub(bb.debt_shares, shares) == 0
            &&& u64_sat_sub(m2.total_debt_shares, shares) == 0
            &&& u64_sat_sub(m2.total_debt_assets, pay) == 0
        }),
{
    let m1 = accrued(m, now);
    let mb = market_after_borrow(m1, amount);
    let bb = borrower_after_borrow(m1, b, amount, slot);
    assert(m1.total_debt_assets == 0 && m1.total_debt_shares == 0);
    assert(mb.total_debt_assets == amount && mb.total_debt_shares == amount);
    assert(bb.debt_shares == amount);
    assert(accrual_dt(mb, now) == 0);
    let m2 = accrued(mb, now);
    assert(m2.total_debt_assets == amount && m2.total_debt_shares == amount);
    vstd::arithmetic::div_mod::lemma_div_multiples_vanish(amount as int, amount as int);
    assert(borrower_debt(m2, bb) == amount);
}

/// Collateral that a liquidator seizes for repaying `pay`: the repaid value plus the
/// liquidation penalty, in collateral at its price, capped at the position's
/// collateral.
pub open spec fn seized_collateral(m1: Market, b: Borrower, pay: u64) -> u64 {
    let seize_usd = (pay * m1.usdy_price_e6) * (10_000 + m1.liq_penalty_bps) / 10_000;
    min_u64((seize_usd / (m1.collateral_price_e6 as int)) as u64, b.collateral_atoms)
}

/// Law: a liquidator never takes collateral worth more than the USDY repaid plus the
/// liquidation penalty, at the market's prices.
pub proof fn lemma_seizure_bounded(m1: Market, b: Borrower, pay: u64)
    requires
        m1.collateral_price_e6 > 0,
    ensures
        seized_collateral(m1, b, pay) * m1.collateral_price_e6
            <= (pay * m1.usdy_price_e6) * (10_000 + m1.liq_penalty_bps) / 10_000,
        seized_collateral(m1, b, pay) <= b.collateral_atoms,
{
    let seize_usd = (pay * m1.usdy_price_e6) * (10_000 + m1.liq_penalty_bps) / 10_000;
    let p = m1.collateral_price_e6 as int;
    assert(seize_usd >= 0) by (nonlinear_arith)
        requires
            seize_usd == (pay * m1.usdy_price_e6) * (10_000 + m1.liq_penalty_bps) / 10_000,
            pay >= 0,
            m1.usdy_price_e6 >= 0,
            m1.liq_penalty_bps >= 0,
    ;
    let q = seize_usd / p;
    vstd::arithmetic::div_mod::lemma_fundamental_div_mod(seize_usd, p);
    vstd::arithmetic::div_mod::lemma_mod_pos_bound(seize_usd, p);
    vstd::arithmetic::div_mod::lemma_div_pos_is_pos(seize_usd, p);
    let s = seized_collateral(m1, b, pay) as int;
    if q <= u64::MAX {
        assert(s <= q);
    } else {
        assert(s <= u64::MAX);
    }
    assert(s <= q);
    assert(s * p <= q * p) by (nonlinear_arith)
        requires
            s <= q,
            p > 0,
    ;
    assert(q * p == p * q) by (nonlinear_arith);
}

/// The refusal that `liquidate` gives, if any, checked in this order: a borrower
/// opened in another market is refused before anything is accrued.
pub open spec fn liquidate_error(m: Market, market_key: Key, b: Borrower, repay: u64, now: i64) -> Option<CreditError> {
    let m1 = accrued(m, now);
    if b.market != market_key {
        Some(CreditError::WrongMarket)
    } else if !oracle_fresh(m1, now) {
        Some(CreditError::StaleOracle)
    } else if spec_healthy(m1, b, true) {
        Some(CreditError::Healthy)
    } else if repay_amount(m1, b, repay) == 0 {
        Some(CreditError::Zero)
    } else {
        None
    }
}

/// Liquidates a position of the market at `market_key` past its liquidation
/// threshold after accruing: repays up to `repay_usdy` of its debt and seizes the
/// repaid value plus penalty in collateral. Returns (USDY repaid, collateral seized);
/// the caller moves the first from the liquidator to the debt vault and the second
/// from the collateral vault to the liquidator.
pub fn liquidate(
    market: &mut Market,
    market_key: Key,
    borrower: &mut Borrower,
    repay_usdy: u64,
    now: i64,
) -> (r: Result<(u64, u64), CreditError>)
    requires
        old(borrower).market == market_key ==> accrue_ok(*old(market), now),
        old(borrower).market == market_key && oracle_fresh(accrued(*old(market), now), now)
            ==> health_defined(accrued(*old(market), now), *old(borrower), true),
        liquidate_error(*old(market), market_key, *old(borrower), repay_usdy, now) is None ==> {
            let m1 = accrued(*old(market), now);
            let pay = repay_amount(m1, *old(borrower), repay_usdy);
            &&& m1.collateral_price_e6 > 0
            &&& (pay * m1.usdy_price_e6) * (10_000 + m1.liq_penalty_bps) <= u128::MAX
        },
    ensures
        ({
            let m1 = accrued(*old(market), now);
            match liquidate_error(*old(market), market_key, *old(borrower), repay_usdy, now) {
                Some(e) => {
                    &&& r == Err::<(u64, u64), CreditError>(e)
                    &&& *final(market) == *old(market)
                    &&& *final(borrower) == *old(borrower)
                },
                None => {
                    let pay = repay_amount(m1, *old(borrower), repay_usdy);
                    let seize = seized_collateral(m1, *old(borrower), pay);
                    let shares = shares_retired(m1, *old(borrower), pay);
                    &&& !spec_healthy(m1, *old(borrower), true)
                    &&& r == Ok::<(u64, u64), CreditError>((pay, seize))
                    &&& *final(borrower) == (Borrower {
                        debt_shares: u64_sat_sub(old(borrower).debt_shares, shares),
                        collateral_atoms: u64_sat_sub(old(borrower).collateral_atoms, seize),
                        ..*old(borrower)
                    })
                    &&& *final(market) == (Market {
                        total_debt_shares: u64_sat_sub(m1.total_debt_shares, shares),
                        total_debt_assets: u64_sat_sub(m1.total_debt_assets, pay),
                        ..m1
                    })
                },
            }
        }),
{
    if borrower.market != market_key {
        return Err(CreditError::WrongMarket);
    }
    let mut m = *market;
    accrue_market(&mut m, now);
    match require_fresh_oracle(&m, now) {
        Ok(()) => {},
        Err(e) => return Err(e),
    }
    if healthy(&m, borrower, true) {
        return Err(CreditError::Healthy);
    }
    let owed = shares_to_assets(borrower.debt_shares, m.total_debt_assets, m.total_debt_shares);
    let pay = min_of_u64(repay_usdy, owed);
    if pay == 0 {
        return Err(CreditError::Zero);
    }
    proof {
        lemma_u64_product(pay, m.usdy_price_e6);
    }
    let collat_usd: u128 = (pay as u128) * (m.usdy_price_e6 as u128);
    let seize_usd: u128 = collat_usd * (10_000 + m.liq_penalty_bps as u128) / 10_000;
    let seize_raw = (seize_usd / m.collateral_price_e6 as u128) as u64;
    let seize = min_of_u64(seize_raw, borrower.collateral_atoms);
    let shares = if pay == owed {
        borrower.debt_shares
    } else {
        assets_to_shares(pay, m.total_debt_assets, m.total_debt_shares)
    };
    borrower.debt_shares = sat_sub_u64(borrower.debt_shares, shares);
    borrower.collateral_atoms = sat_sub_u64(borrower.collateral_atoms, seize);
    m.total_debt_shares = sat_sub_u64(m.total_debt_shares, shares);
    m.total_debt_assets = sat_sub_u64(m.total_debt_assets, pay);
    *market = m;
    Ok((pay, seize))
}

} // verus!
