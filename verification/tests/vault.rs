use mandate::key::Key;
use mandate::mandate::program::{
    cast_vote, complete_unstake, deposit, execute_epoch, harvest_rebate, init_rebate, initialize_vault,
    open_epoch, request_unstake, set_paused, stake_ondo, tally, update_nav, InitializeVaultArgs,
    MandateError,
};
use mandate::mandate::state::{Epoch, IdleMode, Position, RebateAccount, Vault, UNSTAKE_COOLDOWN_SECS};

fn key(n: u128) -> Key {
    Key { lo: n, hi: 0 }
}

fn args() -> InitializeVaultArgs {
    InitializeVaultArgs {
        executor: key(2),
        nav_usd_per_usdy_e6: 1_140_000,
        ondo_usd_e6: 1_000_000,
        management_fee_bps: 75,
        max_name_weight_bps: 1_000,
        quorum_bps: 1_500,
        min_quorum_notional_e6: 0,
        epoch_length_secs: 7 * 86_400,
        vote_length_secs: 2 * 86_400,
        commit_length_secs: 4 * 86_400,
    }
}

fn vault() -> Vault {
    initialize_vault(key(1), key(10), key(11), key(12), key(13), key(14), args(), 255)
}

fn epoch_at(v: &mut Vault, now: i64, names: usize) -> Epoch {
    let universe: Vec<Key> = (0..names).map(|i| key(100 + i as u128)).collect();
    let labels: Vec<String> = (0..names).map(|i| format!("N{}", i)).collect();
    open_epoch(v, key(50), universe, labels, now, 7).unwrap()
}

fn empty_position() -> Position {
    Position { owner: Key::zeroed(), vault: Key::zeroed(), shares: 0, vote_power: 0, lock_mult_bps: 0, epoch_index: 0, voted: false }
}

#[test]
fn initialize_vault_sets_defaults() {
    let v = vault();
    assert_eq!(v.authority, key(1));
    assert_eq!(v.executor, key(2));
    assert_eq!(v.idle_mode, IdleMode::HoldUsdy);
    assert_eq!(v.current_epoch, 0);
    assert_eq!(v.total_shares, 0);
    assert!(!v.paused);
    assert_eq!(v.bump, 255);
    assert_eq!(v.quorum_bps, 1_500);
}

#[test]
fn open_epoch_sets_calendar() {
    let mut v = vault();
    let e = epoch_at(&mut v, 1_000, 3);
    assert_eq!(v.current_epoch, 1);
    assert_eq!(e.index, 1);
    assert_eq!(e.vault, key(50));
    assert_eq!(e.phase_start, 1_000);
    assert_eq!(e.commit_end, 1_000 + 4 * 86_400);
    assert_eq!(e.vote_end, 1_000 + 6 * 86_400);
    assert_eq!(e.epoch_end, 1_000 + 7 * 86_400);
    assert_eq!(e.weights, vec![0, 0, 0]);
    assert_eq!(e.winner_idx, None);
    assert!(!e.executed);
}

#[test]
fn open_epoch_saturates_calendar() {
    let mut v = vault();
    let e = epoch_at(&mut v, i64::MAX - 10, 1);
    assert_eq!(e.commit_end, i64::MAX);
    assert_eq!(e.vote_end, i64::MAX);
    assert_eq!(e.epoch_end, i64::MAX);
}

#[test]
fn open_epoch_errors() {
    let mut v = vault();
    v.paused = true;
    assert!(matches!(open_epoch(&mut v, key(50), vec![key(1)], vec!["A".to_string()], 0, 1), Err(MandateError::Paused)));
    v.paused = false;
    let many: Vec<Key> = (0..13).map(|i| key(i)).collect();
    let many_labels: Vec<String> = (0..13).map(|i| format!("{}", i)).collect();
    assert!(matches!(open_epoch(&mut v, key(50), many, many_labels, 0, 1), Err(MandateError::BallotTooLarge)));
    assert!(matches!(open_epoch(&mut v, key(50), vec![], vec![], 0, 1), Err(MandateError::EmptyUniverse)));
    assert!(matches!(open_epoch(&mut v, key(50), vec![key(1)], vec![], 0, 1), Err(MandateError::WeightMismatch)));
    v.current_epoch = u64::MAX;
    assert!(matches!(open_epoch(&mut v, key(50), vec![key(1)], vec!["A".to_string()], 0, 1), Err(MandateError::Overflow)));
    assert_eq!(v.current_epoch, u64::MAX);
}

#[test]
fn deposit_scales_vote_power_by_lock() {
    let mut v = vault();
    let mut e = epoch_at(&mut v, 0, 2);
    let mut p = empty_position();
    deposit(&mut v, &mut e, &mut p, key(7), key(50), 1_000, 125, 10).unwrap();
    assert_eq!(p.shares, 1_000);
    assert_eq!(p.vote_power, 1_250);
    assert_eq!(p.owner, key(7));
    assert_eq!(p.epoch_index, 1);
    assert_eq!(v.total_shares, 1_000);
    assert_eq!(e.total_power, 1_250);
    deposit(&mut v, &mut e, &mut p, key(7), key(50), 100, 180, 20).unwrap();
    assert_eq!(p.vote_power, 1_430);
    assert_eq!(p.lock_mult_bps, 180);
    // the epoch total grows by the new deposit's power only: it stays the sum of
    // the positions' vote powers
    assert_eq!(e.total_power, 1_250 + 180);
    assert_eq!(e.total_power, p.vote_power);
}

#[test]
fn repeat_deposits_sum_epoch_power() {
    let mut v = vault();
    let mut e = epoch_at(&mut v, 0, 2);
    let mut p = empty_position();
    deposit(&mut v, &mut e, &mut p, key(7), key(50), 100, 100, 10).unwrap();
    deposit(&mut v, &mut e, &mut p, key(7), key(50), 100, 100, 20).unwrap();
    assert_eq!(p.vote_power, 200);
    assert_eq!(e.total_power, 200);
    let mut q = empty_position();
    deposit(&mut v, &mut e, &mut q, key(8), key(50), 80, 125, 30).unwrap();
    assert_eq!(q.vote_power, 100);
    assert_eq!(e.total_power, 300);
}

#[test]
fn deposit_errors() {
    let mut v = vault();
    let mut e = epoch_at(&mut v, 0, 2);
    let mut p = empty_position();
    assert!(matches!(deposit(&mut v, &mut e, &mut p, key(7), key(50), 0, 100, 10), Err(MandateError::ZeroAmount)));
    assert!(matches!(deposit(&mut v, &mut e, &mut p, key(7), key(50), 10, 150, 10), Err(MandateError::BadLock)));
    assert!(matches!(deposit(&mut v, &mut e, &mut p, key(7), key(50), 10, 100, 4 * 86_400), Err(MandateError::NotCommitPhase)));
    v.paused = true;
    assert!(matches!(deposit(&mut v, &mut e, &mut p, key(7), key(50), 10, 100, 10), Err(MandateError::Paused)));
    assert_eq!(p.shares, 0);
    assert_eq!(e.total_power, 0);
}

fn voting_setup(names: usize, power_amount: u64) -> (Vault, Epoch, Position) {
    let mut v = vault();
    let mut e = epoch_at(&mut v, 0, names);
    let mut p = empty_position();
    deposit(&mut v, &mut e, &mut p, key(7), key(50), power_amount, 100, 1).unwrap();
    (v, e, p)
}

// Like `voting_setup`, with another depositor holding nine times the power, so that
// the first position stays within the per-wallet cap of a tenth of the epoch power.
fn crowded_voting_setup(names: usize, power_amount: u64) -> (Vault, Epoch, Position) {
    let (mut v, mut e, p) = voting_setup(names, power_amount);
    let mut q = empty_position();
    deposit(&mut v, &mut e, &mut q, key(9), key(50), power_amount * 9, 100, 1).unwrap();
    (v, e, p)
}

const VOTE_TIME: i64 = 5 * 86_400;

#[test]
fn cast_vote_splits_power() {
    let (_v, mut e, mut p) = crowded_voting_setup(2, 100);
    cast_vote(&mut e, &mut p, key(7), vec![1, 3], VOTE_TIME).unwrap();
    assert_eq!(e.weights, vec![25, 75]);
    assert_eq!(e.voted_power, 100);
    assert!(p.voted);
}

#[test]
fn cast_vote_caps_a_wallet_at_a_tenth_of_epoch_power() {
    // a single position holding all 1000 of the epoch's power counts only 100
    let (_v, mut e, mut p) = voting_setup(2, 1_000);
    assert_eq!(e.total_power, 1_000);
    cast_vote(&mut e, &mut p, key(7), vec![1, 3], VOTE_TIME).unwrap();
    assert_eq!(e.weights, vec![25, 75]);
    let counted: u64 = e.weights.iter().sum();
    assert!(counted <= e.total_power / 10);
    // turnout still records the position's whole power
    assert_eq!(e.voted_power, 1_000);
}

#[test]
fn cast_vote_rounds_down_within_power() {
    let (_v, mut e, mut p) = crowded_voting_setup(3, 100);
    cast_vote(&mut e, &mut p, key(7), vec![1, 1, 1], VOTE_TIME).unwrap();
    assert_eq!(e.weights, vec![33, 33, 33]);
    let total: u64 = e.weights.iter().sum();
    assert!(total <= 100);
}

#[test]
fn cast_vote_errors() {
    let (_v, mut e, mut p) = crowded_voting_setup(2, 100);
    assert!(matches!(cast_vote(&mut e, &mut p, key(7), vec![1, 1], 10), Err(MandateError::NotVotePhase)));
    assert!(matches!(cast_vote(&mut e, &mut p, key(7), vec![1, 1], 6 * 86_400), Err(MandateError::NotVotePhase)));
    assert!(matches!(cast_vote(&mut e, &mut p, key(7), vec![1], VOTE_TIME), Err(MandateError::WeightMismatch)));
    assert!(matches!(cast_vote(&mut e, &mut p, key(8), vec![1, 1], VOTE_TIME), Err(MandateError::BadOwner)));
    assert!(matches!(cast_vote(&mut e, &mut p, key(7), vec![0, 0], VOTE_TIME), Err(MandateError::ZeroAmount)));
    p.epoch_index = 9;
    assert!(matches!(cast_vote(&mut e, &mut p, key(7), vec![1, 1], VOTE_TIME), Err(MandateError::WrongEpoch)));
    p.epoch_index = 1;
    cast_vote(&mut e, &mut p, key(7), vec![1, 1], VOTE_TIME).unwrap();
    assert!(matches!(cast_vote(&mut e, &mut p, key(7), vec![1, 1], VOTE_TIME), Err(MandateError::AlreadyVoted)));
    assert_eq!(e.weights, vec![50, 50]);
}

#[test]
fn tally_picks_first_plurality() {
    let (v, mut e, _p) = voting_setup(3, 100);
    e.weights = vec![5, 9, 9];
    e.voted_power = 100;
    tally(&v, &mut e, 6 * 86_400).unwrap();
    assert_eq!(e.winner_idx, Some(1));
}

#[test]
fn tally_all_zero_weights_picks_first() {
    let (v, mut e, _p) = voting_setup(3, 100);
    e.voted_power = 100;
    tally(&v, &mut e, 6 * 86_400).unwrap();
    assert_eq!(e.winner_idx, Some(0));
}

#[test]
fn tally_errors() {
    let (v, mut e, _p) = voting_setup(2, 100);
    assert!(matches!(tally(&v, &mut e, VOTE_TIME), Err(MandateError::VoteOpen)));
    e.voted_power = 14;
    assert!(matches!(tally(&v, &mut e, 6 * 86_400), Err(MandateError::NoQuorum)));
    e.voted_power = 15;
    tally(&v, &mut e, 6 * 86_400).unwrap();
    e.executed = true;
    assert!(matches!(tally(&v, &mut e, 6 * 86_400), Err(MandateError::AlreadyExecuted)));
}

#[test]
fn tally_needs_the_minimum_notional_too() {
    let (mut v, mut e, _p) = voting_setup(2, 100);
    v.min_quorum_notional_e6 = 50;
    // 40 of 100 clears the 15% quorum but not the notional floor
    e.voted_power = 40;
    assert!(matches!(tally(&v, &mut e, 6 * 86_400), Err(MandateError::NoQuorum)));
    assert_eq!(e.winner_idx, None);
    e.voted_power = 50;
    tally(&v, &mut e, 6 * 86_400).unwrap();
    assert_eq!(e.winner_idx, Some(0));
}

#[test]
fn execute_epoch_once() {
    let (mut v, mut e, _p) = voting_setup(2, 100);
    assert!(matches!(execute_epoch(&mut v, &mut e, key(2), [0u8; 32], 1_200_000), Err(MandateError::NotTallied)));
    e.voted_power = 100;
    tally(&v, &mut e, 6 * 86_400).unwrap();
    assert!(matches!(execute_epoch(&mut v, &mut e, key(3), [0u8; 32], 1_200_000), Err(MandateError::BadExecutor)));
    v.idle_mode = IdleMode::SupplyIsolated;
    assert!(matches!(execute_epoch(&mut v, &mut e, key(2), [0u8; 32], 1_200_000), Err(MandateError::IdleModeBlocked)));
    v.idle_mode = IdleMode::HoldUsdy;
    execute_epoch(&mut v, &mut e, key(2), [1u8; 32], 0).unwrap();
    assert!(e.executed);
    assert_eq!(v.nav_usd_per_usdy_e6, 1);
    assert!(matches!(execute_epoch(&mut v, &mut e, key(2), [0u8; 32], 5), Err(MandateError::AlreadyExecuted)));
    assert_eq!(v.nav_usd_per_usdy_e6, 1);
}

#[test]
fn rebate_bps_formula() {
    assert_eq!(RebateAccount::rebate_bps(0, 1_000_000, 100), 0);
    assert_eq!(RebateAccount::rebate_bps(5, 0, 100), 0);
    assert_eq!(RebateAccount::rebate_bps(5, 1_000_000, 0), 0);
    // $5 of ONDO per $100 of NAV: full rebate
    assert_eq!(RebateAccount::rebate_bps(5, 1_000_000, 100), 10_000);
    assert_eq!(RebateAccount::rebate_bps(25, 1_000_000, 1_000), 5_000);
    assert_eq!(RebateAccount::rebate_bps(1_000, 1_000_000, 100_000_000), 2);
    assert_eq!(RebateAccount::rebate_bps(50, 1_000_000, 100), 10_000);
    assert_eq!(RebateAccount::rebate_bps(u64::MAX, u64::MAX, 1), 10_000);
}

#[test]
fn rebate_monotone_in_stake() {
    let mut last = 0;
    for s in 1..60u64 {
        let b = RebateAccount::rebate_bps(s, 1_000_000, 1_000);
        assert!(b >= last);
        last = b;
    }
}

#[test]
fn stake_and_unstake_cycle() {
    let mut r = init_rebate(key(7), key(50), 3);
    assert_eq!(r.staked_ondo, 0);
    assert!(matches!(stake_ondo(&mut r, 0), Err(MandateError::ZeroAmount)));
    stake_ondo(&mut r, 500).unwrap();
    assert_eq!(r.staked_ondo, 500);
    assert!(matches!(request_unstake(&mut r, 0, 100), Err(MandateError::BadUnstake)));
    assert!(matches!(request_unstake(&mut r, 501, 100), Err(MandateError::BadUnstake)));
    assert!(matches!(complete_unstake(&mut r, 100), Err(MandateError::BadUnstake)));
    request_unstake(&mut r, 200, 100).unwrap();
    assert_eq!(r.staked_ondo, 300);
    assert_eq!(r.pending_unstake, 200);
    assert_eq!(r.unstake_available_ts, 100 + UNSTAKE_COOLDOWN_SECS);
    assert!(matches!(complete_unstake(&mut r, 100 + UNSTAKE_COOLDOWN_SECS - 1), Err(MandateError::Cooldown)));
    assert_eq!(complete_unstake(&mut r, 100 + UNSTAKE_COOLDOWN_SECS).unwrap(), 200);
    assert_eq!(r.pending_unstake, 0);
}

#[test]
fn harvest_rebate_credits_fee_share() {
    let mut v = vault();
    v.nav_usd_per_usdy_e6 = 1_000_000;
    v.ondo_usd_e6 = 1_000_000;
    let e = epoch_at(&mut v, 0, 1);
    // 100 USDY (6 decimals) at $1 of NAV each
    let p = Position { owner: key(7), vault: key(50), shares: 100_000_000, vote_power: 0, lock_mult_bps: 100, epoch_index: 1, voted: false };
    let mut r = init_rebate(key(7), key(50), 3);
    // $2.50 of ONDO against $100 of NAV: half of the $5 that earns the full rebate
    r.staked_ondo = 2_500_000;
    harvest_rebate(&v, &e, &p, &mut r, 1_000).unwrap();
    assert_eq!(r.accrued_rebate_usdy, 500);
    assert_eq!(r.last_fee_epoch, 1);
    let mut other = init_rebate(key(8), key(50), 3);
    assert!(matches!(harvest_rebate(&v, &e, &p, &mut other, 1_000), Err(MandateError::BadOwner)));
    assert_eq!(other.accrued_rebate_usdy, 0);
}

#[test]
fn admin_setters() {
    let mut v = vault();
    set_paused(&mut v, true);
    assert!(v.paused);
    update_nav(&mut v, 0, 2_000_000);
    assert_eq!(v.nav_usd_per_usdy_e6, 1);
    assert_eq!(v.ondo_usd_e6, 2_000_000);
}
