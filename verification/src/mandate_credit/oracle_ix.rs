use vstd::prelude::*;
use crate::arith::{max_i64, min_i64, max_of_i64, min_of_i64};
use crate::key::Key;
use crate::mandate_credit::oracle::{try_read_pyth_e6, spec_read_pyth, OndoOracle};
use crate::mandate_credit::program::CreditError;
use crate::mandate_credit::state::Market;

verus! {

/// Smallest maximum price age an oracle accepts, in seconds.
pub const MIN_ORACLE_AGE_SECS: i64 = 30;

/// A new, empty price cache for `market`, tolerating prices up to `max_age_secs` old
/// (at least 30). The market records the oracle and takes over its maximum age.
pub fn init_oracle(
    market: &mut Market,
    market_key: Key,
    authority: Key,
    pyth_usdy_feed: Key,
    max_age_secs: i64,
    oracle_key: Key,
    bump: u8,
) -> (o: OndoOracle)
    ensures
        o == (OndoOracle {
            market: market_key,
            authority,
            pyth_usdy_feed,
            collat_usd_e6: 0,
            usdy_usd_e6: 0,
            collat_ts: 0,
            usdy_ts: 0,
            max_age_secs: max_i64(max_age_secs, 30),
            bump,
        }),
        *final(market) == (Market {
            oracle: oracle_key,
            max_price_age_secs: max_i64(max_age_secs, 30),
            ..*old(market)
        }),
{
    let o = OndoOracle {
        market: market_key,
        authority,
        pyth_usdy_feed,
        collat_usd_e6: 0,
        usdy_usd_e6: 0,
        collat_ts: 0,
        usdy_ts: 0,
        max_age_secs: max_of_i64(max_age_secs, MIN_ORACLE_AGE_SECS),
        bump,
    };
    market.oracle = oracle_key;
    market.max_price_age_secs = o.max_age_secs;
    o
}

/// The USDY price that the Pyth account yields, when the account passed is the
/// oracle's configured feed and a plausible price is found in it.
pub open spec fn pyth_usdy_reading(oracle: OndoOracle, pyth_key: Key, pyth_data: Seq<u8>) -> Option<u64> {
    if pyth_key == oracle.pyth_usdy_feed {
        spec_read_pyth(pyth_data)
    } else {
        None
    }
}

/// The oracle after a refresh, before the freshness check: the keeper's collateral
/// price, and the Pyth reading when there is one (else the keeper's fallback), both
/// legs stamped with the time they were posted.
pub open spec fn refreshed_oracle(oracle: OndoOracle, reading: Option<u64>, collat_e6: u64, usdy_fallback_e6: u64, now: i64) -> OndoOracle {
    let usdy = match reading {
        Some(px) => px,
        None => usdy_fallback_e6,
    };
    OndoOracle {
        collat_usd_e6: collat_e6,
        collat_ts: now,
        usdy_usd_e6: usdy,
        usdy_ts: now,
        ..oracle
    }
}

/// The market after a refresh: both prices copied, stamped with the older of the two.
pub open spec fn refreshed_market(market: Market, o: OndoOracle, now: i64) -> Market {
    Market {
        collateral_price_e6: o.collat_usd_e6,
        usdy_price_e6: o.usdy_usd_e6,
        price_ts: min_i64(min_i64(now, o.collat_ts), o.usdy_ts),
        ..market
    }
}

/// The refusal that `refresh_prices` gives, if any, checked in this order.
pub open spec fn refresh_error(oracle: OndoOracle, reading: Option<u64>, collat_e6: u64, usdy_fallback_e6: u64, now: i64) -> Option<CreditError> {
    let o = refreshed_oracle(oracle, reading, collat_e6, usdy_fallback_e6, now);
    if collat_e6 == 0 {
        Some(CreditError::Zero)
    } else if o.usdy_usd_e6 == 0 {
        Some(CreditError::StaleOracle)
    } else if !(o.spec_collat_fresh(now) && o.spec_usdy_fresh(now)) {
        Some(CreditError::StaleOracle)
    } else {
        None
    }
}

/// Records the keeper's Ondo collateral price `collat_e6` at `now`, and a USDY price
/// read from the Pyth account when it is the configured feed (else the keeper's
/// fallback price, posted now), then copies both into the market. Refused unless
/// both legs end up fresh.
pub fn refresh_prices(
    market: &mut Market,
    oracle: &mut OndoOracle,
    pyth_key: Key,
    pyth_data: &[u8],
    collat_e6: u64,
    usdy_fallback_e6: u64,
    now: i64,
) -> (r: Result<(), CreditError>)
    ensures
        ({
            let reading = pyth_usdy_reading(*old(oracle), pyth_key, pyth_data@);
            let o = refreshed_oracle(*old(oracle), reading, collat_e6, usdy_fallback_e6, now);
            match refresh_error(*old(oracle), reading, collat_e6, usdy_fallback_e6, now) {
                Some(e) => {
                    &&& r == Err::<(), CreditError>(e)
                    &&& *final(market) == *old(market)
                    &&& *final(oracle) == *old(oracle)
                },
                None => {
                    &&& r is Ok
                    &&& *final(oracle) == o
                    &&& *final(market) == refreshed_market(*old(market), o, now)
                    &&& final(oracle).spec_collat_fresh(now)
                    &&& final(oracle).spec_usdy_fresh(now)
                },
            }
        }),
{
    if collat_e6 == 0 {
        return Err(CreditError::Zero);
    }
    let mut o = *oracle;
    o.collat_usd_e6 = collat_e6;
    o.collat_ts = now;
    let mut usdy = usdy_fallback_e6;
    let mut usdy_ts = now;
    if pyth_key == o.pyth_usdy_feed {
        match try_read_pyth_e6(pyth_data, now) {
            Some((px, ts)) => {
                usdy = px;
                usdy_ts = ts;
            },
            None => {},
        }
    }
    if usdy == 0 {
        return Err(CreditError::StaleOracle);
    }
    o.usdy_usd_e6 = usdy;
    o.usdy_ts = usdy_ts;
    let mut m = *market;
    m.collateral_price_e6 = o.collat_usd_e6;
    m.usdy_price_e6 = o.usdy_usd_e6;
    m.price_ts = min_of_i64(min_of_i64(now, o.collat_ts), o.usdy_ts);
    if !(o.collat_fresh(now) && o.usdy_fresh(now)) {
        return Err(CreditError::StaleOracle);
    }
    *oracle = o;
    *market = m;
    Ok(())
}

} // verus!
