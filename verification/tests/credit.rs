use mandate::key::Key;
use mandate::mandate_credit::fees::{apply_interest, sweep, FeeBucket};
use mandate::mandate_credit::oracle::{scale_to_e6, try_read_pyth_e6};
use mandate::mandate_credit::oracle_ix::{init_oracle, refresh_prices};
use mandate::mandate_credit::program::{
    accrue, assets_to_shares, borrow_usdy, deposit_collateral, healthy, init_market, liquidate, repay_usdy,
    require_fresh_oracle, set_paused, set_prices, shares_to_assets, supply_usdy, withdraw_collateral,
    withdraw_usdy, CreditError, InitMarketArgs,
};
use mandate::mandate_credit::state::{Borrower, Lender, Market, WAD};

fn key(n: u128) -> Key {
    Key { lo: n, hi: 0 }
}

fn market() -> Market {
    let args = InitMarketArgs {
        ticker: *b"SPYon\0\0\0\0\0\0\0",
        ltv_bps: 6_000,
        liq_threshold_bps: 7_000,
        liq_penalty_bps: 400,
        collateral_price_e6: 500_000_000,
        usdy_price_e6: 1_000_000,
        max_price_age_secs: 120,
    };
    init_market(key(1), key(2), key(3), key(4), key(5), key(6), key(7), key(8), args, 1_000, 9)
}

fn lender() -> Lender {
    Lender { owner: Key::zeroed(), market: Key::zeroed(), supply_shares: 0, bump: 0 }
}

fn borrower() -> Borrower {
    Borrower { owner: Key::zeroed(), market: Key::zeroed(), collateral_atoms: 0, debt_shares: 0, last_borrow_slot: 0, bump: 0 }
}

#[test]
fn init_market_sets_indices() {
    let m = market();
    assert_eq!(m.borrow_index, WAD);
    assert_eq!(m.supply_index, WAD);
    assert_eq!(m.price_ts, 1_000);
    assert_eq!(m.last_accrual_ts, 1_000);
    assert_eq!(m.oracle, Key::zeroed());
    assert_eq!(m.ticker[0], b'S');
    assert!(!m.paused);
}

#[test]
fn init_market_floors_usdy_price() {
    let args = InitMarketArgs {
        ticker: [0u8; 12],
        ltv_bps: 1,
        liq_threshold_bps: 1,
        liq_penalty_bps: 1,
        collateral_price_e6: 0,
        usdy_price_e6: 0,
        max_price_age_secs: 1,
    };
    let m = init_market(key(1), key(2), key(3), key(4), key(5), key(6), key(7), key(8), args, 0, 0);
    assert_eq!(m.usdy_price_e6, 1);
    assert_eq!(m.collateral_price_e6, 0);
}

#[test]
fn utilization_and_apr_curve() {
    let mut m = market();
    assert_eq!(m.utilization_bps(), 0);
    assert_eq!(m.borrow_apr_bps(), 430);
    m.total_supply_assets = 100;
    m.total_debt_assets = 50;
    assert_eq!(m.utilization_bps(), 5_000);
    // no extra rate up to the 50% kink
    assert_eq!(m.borrow_apr_bps(), 430);
    m.total_debt_assets = 75;
    assert_eq!(m.borrow_apr_bps(), 680);
    m.total_debt_assets = 80;
    assert_eq!(m.borrow_apr_bps(), 730);
    m.total_debt_assets = 90;
    assert_eq!(m.borrow_apr_bps(), 1_180);
    m.total_debt_assets = 100;
    assert_eq!(m.borrow_apr_bps(), 1_630);
    m.total_debt_assets = 500;
    assert_eq!(m.utilization_bps(), 10_000);
    assert_eq!(m.borrow_apr_bps(), 1_630);
    m.total_debt_assets = 25;
    assert_eq!(m.borrow_apr_bps(), 430);
}

#[test]
fn share_conversions() {
    assert_eq!(assets_to_shares(100, 0, 0), 100);
    assert_eq!(assets_to_shares(100, 200, 100), 50);
    assert_eq!(assets_to_shares(101, 200, 100), 50);
    assert_eq!(shares_to_assets(50, 200, 100), 100);
    assert_eq!(shares_to_assets(50, 200, 0), 0);
    assert_eq!(shares_to_assets(assets_to_shares(333, 1_000, 999), 1_000, 999), 332);
}

#[test]
fn accrue_one_year_at_kink() {
    let mut m = market();
    m.total_supply_assets = 2_000_000_000_000;
    m.total_debt_assets = 1_000_000_000_000;
    accrue(&mut m, 1_000 + 31_536_000);
    // 4.3% APR at 50% utilization: 43e9 of interest, of which lenders get three
    // quarters and the remaining quarter goes 50/25/25 to the fee buckets
    assert_eq!(m.total_debt_assets, 1_043_000_000_000);
    assert_eq!(m.total_supply_assets, 2_032_250_000_000);
    assert_eq!(m.last_accrual_ts, 1_000 + 31_536_000);
    assert_eq!(m.pending_opco, 5_375_000_000);
    assert_eq!(m.pending_insurance, 2_687_500_000);
    assert_eq!(m.pending_protocol, 2_687_500_000);
}

#[test]
fn accrued_interest_reaches_the_treasuries() {
    let mut m = market();
    m.total_supply_assets = 2_000_000_000_000;
    m.total_debt_assets = 1_000_000_000_000;
    accrue(&mut m, 1_000 + 31_536_000);
    assert_eq!(
        sweep(&mut m),
        vec![
            (5_375_000_000, FeeBucket::Opco),
            (2_687_500_000, FeeBucket::Insurance),
            (2_687_500_000, FeeBucket::Protocol),
        ]
    );
    assert_eq!(m.pending_opco, 0);
    assert!(sweep(&mut m).is_empty());
}

#[test]
fn accrue_without_debt_only_moves_clock() {
    let mut m = market();
    m.total_supply_assets = 10;
    accrue(&mut m, 5_000);
    assert_eq!(m.total_supply_assets, 10);
    assert_eq!(m.last_accrual_ts, 5_000);
}

#[test]
fn supply_and_withdraw() {
    let mut m = market();
    let mut l = lender();
    assert!(matches!(supply_usdy(&mut m, &mut l, key(20), key(30), 0, 1_000, 1), Err(CreditError::Zero)));
    supply_usdy(&mut m, &mut l, key(20), key(30), 1_000, 1_000, 1).unwrap();
    assert_eq!(l.supply_shares, 1_000);
    assert_eq!(l.owner, key(20));
    assert_eq!(m.total_supply_assets, 1_000);
    assert_eq!(m.total_supply_shares, 1_000);
    assert!(matches!(withdraw_usdy(&mut m, &mut l, 0, 1_000), Err(CreditError::Zero)));
    assert!(matches!(withdraw_usdy(&mut m, &mut l, 1_001, 1_000), Err(CreditError::Zero)));
    m.total_debt_assets = 700;
    assert!(matches!(withdraw_usdy(&mut m, &mut l, 400, 1_000), Err(CreditError::Utilization)));
    m.total_debt_assets = 0;
    assert_eq!(withdraw_usdy(&mut m, &mut l, 400, 1_000).unwrap(), 400);
    assert_eq!(l.supply_shares, 600);
    assert_eq!(m.total_supply_shares, 600);
    assert_eq!(m.total_supply_assets, 600);
    set_paused(&mut m, true);
    assert!(matches!(supply_usdy(&mut m, &mut l, key(20), key(30), 5, 1_000, 1), Err(CreditError::Paused)));
}

#[test]
fn supply_then_withdraw_never_gains() {
    let mut m = market();
    m.total_supply_assets = 1_003;
    m.total_supply_shares = 997;
    let mut l = lender();
    supply_usdy(&mut m, &mut l, key(20), key(30), 777, 1_000, 1).unwrap();
    let shares = l.supply_shares;
    let back = withdraw_usdy(&mut m, &mut l, shares, 1_000).unwrap();
    assert!(back <= 777);
    assert_eq!(back, 776);
}

#[test]
fn deposit_collateral_rules() {
    let mut m = market();
    let mut b = borrower();
    assert!(matches!(deposit_collateral(&m, &mut b, key(20), key(30), 0, 5, 1), Err(CreditError::Zero)));
    deposit_collateral(&m, &mut b, key(20), key(30), 10, 5, 1).unwrap();
    assert_eq!(b.collateral_atoms, 10);
    b.debt_shares = 1;
    b.last_borrow_slot = 6;
    assert!(matches!(deposit_collateral(&m, &mut b, key(20), key(30), 10, 6, 1), Err(CreditError::NoLoop)));
    deposit_collateral(&m, &mut b, key(20), key(30), 10, 7, 1).unwrap();
    assert_eq!(b.collateral_atoms, 20);
    m.paused = true;
    assert!(matches!(deposit_collateral(&m, &mut b, key(20), key(30), 10, 7, 1), Err(CreditError::Paused)));
}

fn funded() -> (Market, Borrower) {
    let mut m = market();
    let mut l = lender();
    supply_usdy(&mut m, &mut l, key(20), key(30), 1_000_000_000, 1_000, 1).unwrap();
    let mut b = borrower();
    // 10 collateral atoms at $500 each: $5000 of collateral
    deposit_collateral(&m, &mut b, key(21), key(30), 10, 1, 1).unwrap();
    (m, b)
}

#[test]
fn borrow_limits_and_health() {
    let (mut m, mut b) = funded();
    // collateral worth 10 * 500e6 = 5e9 (e6 USD); 60% LTV allows 3e9 e6 USD = 3000 USDY atoms at $1 (e6)
    assert!(matches!(borrow_usdy(&mut m, &mut b, 0, 1_000, 2), Err(CreditError::Zero)));
    assert!(matches!(borrow_usdy(&mut m, &mut b, 1_000_000_001, 1_000, 2), Err(CreditError::Utilization)));
    assert!(matches!(borrow_usdy(&mut m, &mut b, 3_001, 1_000, 2), Err(CreditError::Unhealthy)));
    assert_eq!(b.debt_shares, 0);
    borrow_usdy(&mut m, &mut b, 3_000, 1_000, 2).unwrap();
    assert_eq!(b.debt_shares, 3_000);
    assert_eq!(b.last_borrow_slot, 2);
    assert_eq!(m.total_debt_assets, 3_000);
    assert!(healthy(&m, &b, false));
    assert!(matches!(borrow_usdy(&mut m, &mut b, 1_000_000_000, 1_000, 3), Err(CreditError::Utilization)));
    assert!(matches!(borrow_usdy(&mut m, &mut b, 1, 2_000, 3), Err(CreditError::StaleOracle)));
    m.paused = true;
    assert!(matches!(borrow_usdy(&mut m, &mut b, 1, 1_000, 3), Err(CreditError::Paused)));
}

#[test]
fn withdraw_collateral_rules() {
    let (mut m, mut b) = funded();
    borrow_usdy(&mut m, &mut b, 2_400, 1_000, 2).unwrap();
    assert!(matches!(withdraw_collateral(&m, &mut b, 0, 1_000), Err(CreditError::Zero)));
    assert!(matches!(withdraw_collateral(&m, &mut b, 11, 1_000), Err(CreditError::Zero)));
    assert!(matches!(withdraw_collateral(&m, &mut b, 3, 1_000), Err(CreditError::Unhealthy)));
    assert!(matches!(withdraw_collateral(&m, &mut b, 1, 5_000), Err(CreditError::StaleOracle)));
    withdraw_collateral(&m, &mut b, 2, 1_000).unwrap();
    assert_eq!(b.collateral_atoms, 8);
}

#[test]
fn repay_partial_and_full() {
    let (mut m, mut b) = funded();
    borrow_usdy(&mut m, &mut b, 2_000, 1_000, 2).unwrap();
    assert_eq!(repay_usdy(&mut m, &mut b, 500, 1_000).unwrap(), 500);
    assert_eq!(b.debt_shares, 1_500);
    assert_eq!(m.total_debt_assets, 1_500);
    assert_eq!(repay_usdy(&mut m, &mut b, 10_000, 1_000).unwrap(), 1_500);
    assert_eq!(b.debt_shares, 0);
    assert_eq!(m.total_debt_assets, 0);
    assert!(matches!(repay_usdy(&mut m, &mut b, 10, 1_000), Err(CreditError::Zero)));
}

#[test]
fn liquidate_unhealthy_position() {
    let (mut m, mut b) = funded();
    borrow_usdy(&mut m, &mut b, 3_000, 1_000, 2).unwrap();
    assert!(matches!(liquidate(&mut m, key(30), &mut b, 1_000, 1_000), Err(CreditError::Healthy)));
    // a borrower of another market is refused before anything else
    assert!(matches!(liquidate(&mut m, key(31), &mut b, 1_000, 1_000), Err(CreditError::WrongMarket)));
    // collateral drops to $400: 4000 collateral value vs 3000 debt is past 70%
    set_prices(&mut m, 400_000_000, 1_000_000, 1_000);
    assert!(!healthy(&m, &b, true));
    assert!(matches!(liquidate(&mut m, key(30), &mut b, 0, 1_000), Err(CreditError::Zero)));
    assert!(matches!(liquidate(&mut m, key(30), &mut b, 1_000, 2_000), Err(CreditError::StaleOracle)));
    assert!(matches!(liquidate(&mut m, key(31), &mut b, 1_000, 1_000), Err(CreditError::WrongMarket)));
    assert_eq!(b.debt_shares, 3_000);
    // repaying 1000 USDY at $1 seizes 1040 USD of collateral: 2 atoms of $400, rounded down
    assert_eq!(liquidate(&mut m, key(30), &mut b, 1_000, 1_000).unwrap(), (1_000, 2));
    assert_eq!(b.debt_shares, 2_000);
    assert_eq!(b.collateral_atoms, 8);
    assert_eq!(m.total_debt_assets, 2_000);
}

#[test]
fn oracle_freshness_gate() {
    let m = market();
    assert!(require_fresh_oracle(&m, 1_120).is_ok());
    assert!(matches!(require_fresh_oracle(&m, 1_121), Err(CreditError::StaleOracle)));
}

#[test]
fn fee_waterfall_split() {
    let mut m = market();
    apply_interest(&mut m, 1_000);
    assert_eq!(m.pending_opco, 125);
    assert_eq!(m.pending_insurance, 62);
    assert_eq!(m.pending_protocol, 63);
    assert_eq!(m.total_debt_assets, 1_000);
    assert_eq!(m.total_supply_assets, 750);
    let t = sweep(&mut m);
    assert_eq!(t, vec![(125, FeeBucket::Opco), (62, FeeBucket::Insurance), (63, FeeBucket::Protocol)]);
    assert_eq!(m.pending_opco + m.pending_insurance + m.pending_protocol, 0);
    assert!(sweep(&mut m).is_empty());
}

#[test]
fn sweep_skips_empty_buckets() {
    let mut m = market();
    m.pending_insurance = 9;
    assert_eq!(sweep(&mut m), vec![(9, FeeBucket::Insurance)]);
}

#[test]
fn scale_pyth_prices() {
    assert_eq!(scale_to_e6(114_000_000, -8), Some(1_140_000));
    assert_eq!(scale_to_e6(5, 0), Some(5_000_000));
    assert_eq!(scale_to_e6(1, -12), None);
    assert_eq!(scale_to_e6(-5, -2), None);
    assert_eq!(scale_to_e6(0, 0), None);
    assert_eq!(scale_to_e6(i64::MAX, 0), None);
}

fn pyth_buffer(off: usize, price: i64, expo: i32) -> Vec<u8> {
    let mut d = vec![0u8; 96];
    d[off..off + 8].copy_from_slice(&price.to_le_bytes());
    d[off + 8..off + 12].copy_from_slice(&expo.to_le_bytes());
    d
}

#[test]
fn read_pyth_price() {
    let d = pyth_buffer(24, 114_000_000, -8);
    assert_eq!(try_read_pyth_e6(&d, 77), Some((1_140_000, 77)));
    assert_eq!(try_read_pyth_e6(&d[..63], 77), None);
    // implausible price is skipped; a later plausible one is found
    let mut d2 = pyth_buffer(8, 100, 0);
    d2[40..48].copy_from_slice(&2_000_000i64.to_le_bytes());
    d2[48..52].copy_from_slice(&(-6i32).to_le_bytes());
    assert_eq!(try_read_pyth_e6(&d2, 5), Some((2_000_000, 5)));
    // a candidate that scales to zero stops the scan
    let mut d3 = pyth_buffer(8, 1, -12);
    d3[40..48].copy_from_slice(&2_000_000i64.to_le_bytes());
    d3[48..52].copy_from_slice(&(-6i32).to_le_bytes());
    assert_eq!(try_read_pyth_e6(&d3, 5), None);
    // an unaligned price is not seen
    let d4 = pyth_buffer(20, 114_000_000, -8);
    assert_eq!(try_read_pyth_e6(&d4, 5), None);
}

#[test]
fn oracle_init_and_refresh() {
    let mut m = market();
    let mut o = init_oracle(&mut m, key(30), key(1), key(40), 10, key(41), 2);
    assert_eq!(o.max_age_secs, 30);
    assert_eq!(m.max_price_age_secs, 30);
    assert_eq!(m.oracle, key(41));
    assert!(!o.collat_fresh(0));
    let empty: Vec<u8> = vec![];
    assert!(matches!(refresh_prices(&mut m, &mut o, key(99), &empty, 0, 1_000_000, 500), Err(CreditError::Zero)));
    assert!(matches!(refresh_prices(&mut m, &mut o, key(99), &empty, 450_000_000, 0, 500), Err(CreditError::StaleOracle)));
    assert_eq!(o.collat_usd_e6, 0);
    refresh_prices(&mut m, &mut o, key(99), &empty, 450_000_000, 1_010_000, 500).unwrap();
    assert_eq!(o.collat_usd_e6, 450_000_000);
    assert_eq!(o.usdy_usd_e6, 1_010_000);
    assert_eq!(o.usdy_ts, 500);
    assert_eq!(m.collateral_price_e6, 450_000_000);
    assert_eq!(m.usdy_price_e6, 1_010_000);
    assert_eq!(m.price_ts, 500);
    assert!(o.collat_fresh(530));
    assert!(!o.usdy_fresh(531));
    let d = pyth_buffer(16, 114_000_000, -8);
    refresh_prices(&mut m, &mut o, key(40), &d, 451_000_000, 1, 600).unwrap();
    assert_eq!(o.usdy_usd_e6, 1_140_000);
    assert_eq!(m.usdy_price_e6, 1_140_000);
    assert_eq!(o.usdy_ts, 600);
}

#[test]
fn refresh_stamps_fallback_price_now() {
    let mut m = market();
    let mut o = init_oracle(&mut m, key(30), key(1), key(40), 60, key(41), 2);
    let empty: Vec<u8> = vec![];
    refresh_prices(&mut m, &mut o, key(99), &empty, 450_000_000, 1_010_000, 500).unwrap();
    // a keeper fallback long after the last one is posted now and accepted
    refresh_prices(&mut m, &mut o, key(99), &empty, 450_000_000, 1_020_000, 600).unwrap();
    assert_eq!(o.usdy_usd_e6, 1_020_000);
    assert_eq!(o.usdy_ts, 600);
    assert_eq!(o.collat_ts, 600);
    assert_eq!(m.usdy_price_e6, 1_020_000);
    assert_eq!(m.price_ts, 600);
}
