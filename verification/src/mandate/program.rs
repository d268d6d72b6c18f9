use vstd::prelude::*;
use crate::arith::{lemma_u64_product, min_u64, min_of_u64, i64_sat_add, u64_sat_add, u64_sat_mul, u64_sat_sub, sat_add_i64, sat_add_u64, sat_mul_u64, sat_sub_u64, max_u64, max_of_u64};
use crate::key::Key;
use crate::mandate::state::{Epoch, IdleMode, Position, RebateAccount, Vault, MAX_BALLOT, UNSTAKE_COOLDOWN_SECS, spec_rebate_bps, REBATE_K_E6};

verus! {

/// Why a vault instruction was refused.
#[derive(Clone, Copy, Debug, PartialEq, Eq, Structural)]
pub enum MandateError {
    Paused,
    BallotTooLarge,
    EmptyUniverse,
    ZeroAmount,
    BadLock,
    NotCommitPhase,
    NotVotePhase,
    WeightMismatch,
    AlreadyVoted,
    WrongEpoch,
    VoteOpen,
    AlreadyExecuted,
    NoQuorum,
    BadExecutor,
    NotTallied,
    IdleModeBlocked,
    Overflow,
    BadOwner,
    BadUnstake,
    Cooldown,
}

/// Parameters of a new vault.
pub struct InitializeVaultArgs {
    pub executor: Key,
    pub nav_usd_per_usdy_e6: u64,
    pub ondo_usd_e6: u64,
    pub management_fee_bps: u16,
    pub max_name_weight_bps: u16,
    pub quorum_bps: u16,
    pub min_quorum_notional_e6: u64,
    pub epoch_length_secs: i64,
    pub vote_length_secs: i64,
    pub commit_length_secs: i64,
}

/// A new vault, held in USDY, unpaused, with no epoch and no shares yet.
pub fn initialize_vault(
    authority: Key,
    usdy_mint: Key,
    ondo_mint: Key,
    share_mint: Key,
    idle_treasury: Key,
    ondo_treasury: Key,
    args: InitializeVaultArgs,
    bump: u8,
) -> (v: Vault)
    ensures
        v == (Vault {
            authority,
            executor: args.executor,
            usdy_mint,
            ondo_mint,
            share_mint,
            idle_treasury,
            ondo_treasury,
            nav_usd_per_usdy_e6: args.nav_usd_per_usdy_e6,
            ondo_usd_e6: args.ondo_usd_e6,
            idle_mode: IdleMode::HoldUsdy,
            management_fee_bps: args.management_fee_bps,
            max_name_weight_bps: args.max_name_weight_bps,
            quorum_bps: args.quorum_bps,
            min_quorum_notional_e6: args.min_quorum_notional_e6,
            epoch_length_secs: args.epoch_length_secs,
            vote_length_secs: args.vote_length_secs,
            commit_length_secs: args.commit_length_secs,
            current_epoch: 0,
            total_shares: 0,
            paused: false,
            bump,
        }),
{
    Vault {
        authority,
        executor: args.executor,
        usdy_mint,
        ondo_mint,
        share_mint,
        idle_treasury,
        ondo_treasury,
        nav_usd_per_usdy_e6: args.nav_usd_per_usdy_e6,
        ondo_usd_e6: args.ondo_usd_e6,
        idle_mode: IdleMode::HoldUsdy,
        management_fee_bps: args.management_fee_bps,
        max_name_weight_bps: args.max_name_weight_bps,
        quorum_bps: args.quorum_bps,
        min_quorum_notional_e6: args.min_quorum_notional_e6,
        epoch_length_secs: args.epoch_length_secs,
        vote_length_secs: args.vote_length_secs,
        commit_length_secs: args.commit_length_secs,
        current_epoch: 0,
        total_shares: 0,
        paused: false,
        bump,
    }
}

/// The refusal that `open_epoch` gives, if any, checked in this order.
pub open spec fn open_epoch_error(vault: Vault, universe_len: nat, labels_len: nat) -> Option<MandateError> {
    if vault.paused {
        Some(MandateError::Paused)
    } else if universe_len > MAX_BALLOT {
        Some(MandateError::BallotTooLarge)
    } else if universe_len == 0 {
        Some(MandateError::EmptyUniverse)
    } else if universe_len != labels_len {
        Some(MandateError::WeightMismatch)
    } else if vault.current_epoch == u64::MAX {
        Some(MandateError::Overflow)
    } else {
        None
    }
}

/// Opens the vault's next epoch at time `now`: commit phase until `now + commit`,
/// vote phase until `now + commit + vote`, the epoch ends at `now + epoch_length`
/// (each sum saturating). The ballot starts with zero weight on every name.
pub fn open_epoch(
    vault: &mut Vault,
    vault_key: Key,
    universe: Vec<Key>,
    labels: Vec<String>,
    now: i64,
    bump: u8,
) -> (r: Result<Epoch, MandateError>)
    ensures
        match open_epoch_error(*old(vault), universe@.len(), labels@.len()) {
            Some(e) => r == Err::<Epoch, MandateError>(e) && *final(vault) == *old(vault),
            None => {
                &&& *final(vault) == (Vault { current_epoch: (old(vault).current_epoch + 1) as u64, ..*old(vault) })
                &&& r is Ok
                &&& ({
                    let e = r->Ok_0;
                    &&& e == (Epoch {
                        vault: vault_key,
                        index: (old(vault).current_epoch + 1) as u64,
                        phase_start: now,
                        commit_end: i64_sat_add(now, old(vault).commit_length_secs),
                        vote_end: i64_sat_add(i64_sat_add(now, old(vault).commit_length_secs), old(vault).vote_length_secs),
                        epoch_end: i64_sat_add(now, old(vault).epoch_length_secs),
                        universe: e.universe,
                        labels: e.labels,
                        weights: e.weights,
                        voted_power: 0,
                        total_power: 0,
                        winner_idx: None,
                        executed: false,
                        bump,
                    })
                    &&& e.universe@ == universe@
                    &&& e.labels@ == labels@
                    &&& e.weights@ == Seq::new(universe@.len(), |i: int| 0u64)
                    &&& e.wf()
                })
            },
        },
{
    if vault.paused {
        return Err(MandateError::Paused);
    }
    if universe.len() > MAX_BALLOT {
        return Err(MandateError::BallotTooLarge);
    }
    if universe.len() == 0 {
        return Err(MandateError::EmptyUniverse);
    }
    if universe.len() != labels.len() {
        return Err(MandateError::WeightMismatch);
    }
    let next = match vault.current_epoch.checked_add(1) {
        Some(n) => n,
        None => return Err(MandateError::Overflow),
    };
    vault.current_epoch = next;
    let commit_end = sat_add_i64(now, vault.commit_length_secs);
    let vote_end = sat_add_i64(sat_add_i64(now, vault.commit_length_secs), vault.vote_length_secs);
    let epoch_end = sat_add_i64(now, vault.epoch_length_secs);
    let n = universe.len();
    let mut weights: Vec<u64> = Vec::new();
    let mut i: usize = 0;
    while i < n
        invariant
            i <= n,
            weights@ == Seq::new(i as nat, |j: int| 0u64),
        decreases n - i,
    {
        weights.push(0);
        i = i + 1;
    }
    Ok(Epoch {
        vault: vault_key,
        index: next,
        phase_start: now,
        commit_end,
        vote_end,
        epoch_end,
        universe,
        labels,
        weights,
        voted_power: 0,
        total_power: 0,
        winner_idx: None,
        executed: false,
        bump,
    })
}

/// The lock multipliers (in hundredths) that a deposit may choose: liquid, 30, 90 and
/// 180 days.
pub open spec fn valid_lock(lock_mult_bps: u16) -> bool {
    lock_mult_bps == 100 || lock_mult_bps == 110 || lock_mult_bps == 125 || lock_mult_bps == 180
}

/// Vote power that a deposit of `amount` adds: amount * lock_mult / 100.
pub open spec fn deposit_power(amount: u64, lock_mult_bps: u16) -> u64 {
    (u64_sat_mul(amount, lock_mult_bps as u64) / 100) as u64
}

/// The refusal that `deposit` gives, if any, checked in this order.
pub open spec fn deposit_error(vault: Vault, epoch: Epoch, amount: u64, lock_mult_bps: u16, now: i64) -> Option<MandateError> {
    if vault.paused {
        Some(MandateError::Paused)
    } else if amount == 0 {
        Some(MandateError::ZeroAmount)
    } else if !valid_lock(lock_mult_bps) {
        Some(MandateError::BadLock)
    } else if now >= epoch.commit_end {
        Some(MandateError::NotCommitPhase)
    } else {
        None
    }
}

/// Commits `amount` USDY atoms to the epoch during its commit phase. The caller moves
/// `amount` from the user to the idle treasury when this succeeds. One share is minted
/// per atom; the position's vote power and the epoch's total power both grow by
/// amount * lock_mult / 100, so the epoch power stays the sum of its positions' power.
pub fn deposit(
    vault: &mut Vault,
    epoch: &mut Epoch,
    position: &mut Position,
    user: Key,
    vault_key: Key,
    amount: u64,
    lock_mult_bps: u16,
    now: i64,
) -> (r: Result<(), MandateError>)
    ensures
        match deposit_error(*old(vault), *old(epoch), amount, lock_mult_bps, now) {
            Some(e) => {
                &&& r == Err::<(), MandateError>(e)
                &&& *final(vault) == *old(vault)
                &&& *final(epoch) == *old(epoch)
                &&& *final(position) == *old(position)
            },
            None => {
                let vp = u64_sat_add(old(position).vote_power, deposit_power(amount, lock_mult_bps));
                &&& r is Ok
                &&& *final(position) == (Position {
                    owner: user,
                    vault: vault_key,
                    shares: u64_sat_add(old(position).shares, amount),
                    vote_power: vp,
                    lock_mult_bps,
                    epoch_index: old(epoch).index,
                    voted: false,
                })
                &&& *final(vault) == (Vault { total_shares: u64_sat_add(old(vault).total_shares, amount), ..*old(vault) })
                &&& *final(epoch) == (Epoch {
                    total_power: u64_sat_add(old(epoch).total_power, deposit_power(amount, lock_mult_bps)),
                    ..*old(epoch)
                })
            },
        },
{
    if vault.paused {
        return Err(MandateError::Paused);
    }
    if amount == 0 {
        return Err(MandateError::ZeroAmount);
    }
    if !(lock_mult_bps == 100 || lock_mult_bps == 110 || lock_mult_bps == 125 || lock_mult_bps == 180) {
        return Err(MandateError::BadLock);
    }
    if now >= epoch.commit_end {
        return Err(MandateError::NotCommitPhase);
    }
    let shares = amount;
    let added = sat_mul_u64(amount, lock_mult_bps as u64) / 100;
    position.owner = user;
    position.vault = vault_key;
    position.shares = sat_add_u64(position.shares, shares);
    position.vote_power = sat_add_u64(position.vote_power, added);
    position.lock_mult_bps = lock_mult_bps;
    position.epoch_index = epoch.index;
    position.voted = false;
    vault.total_shares = sat_add_u64(vault.total_shares, shares);
    epoch.total_power = sat_add_u64(epoch.total_power, added);
    Ok(())
}

/// Law: every lock multiplier the epoch calendar offers (liquid 100, 30 days 110,
/// 90 days 125, 180 days 180) is accepted: a positive deposit into an unpaused vault
/// during the commit phase succeeds with any of them, and no other multiplier is.
pub proof fn lemma_documented_locks_accepted(vault: Vault, epoch: Epoch, amount: u64, lock_mult_bps: u16, now: i64)
    requires
        !vault.paused,
        amount > 0,
        now < epoch.commit_end,
    ensures
        (lock_mult_bps == 100 || lock_mult_bps == 110 || lock_mult_bps == 125 || lock_mult_bps == 180)
            <==> deposit_error(vault, epoch, amount, lock_mult_bps, now) is None,
        !(lock_mult_bps == 100 || lock_mult_bps == 110 || lock_mult_bps == 125 || lock_mult_bps == 180)
            ==> deposit_error(vault, epoch, amount, lock_mult_bps, now) == Some(MandateError::BadLock),
{
}

/// Law: a deposit adds the same power to the position and to the epoch, so the
/// epoch's power less the position's power is what it was before; when the epoch's
/// power was the sum of its positions' powers, it still is.
pub proof fn lemma_deposit_keeps_power_sum(total_power: u64, vote_power: u64, amount: u64, lock_mult_bps: u16)
    requires
        vote_power <= total_power,
        total_power + deposit_power(amount, lock_mult_bps) <= u64::MAX,
    ensures
        u64_sat_add(total_power, deposit_power(amount, lock_mult_bps))
            - u64_sat_add(vote_power, deposit_power(amount, lock_mult_bps)) == total_power - vote_power,
        u64_sat_add(total_power, deposit_power(amount, lock_mult_bps)) == total_power + deposit_power(amount, lock_mult_bps),
{
}

/// Sum of a sequence of weights.
pub open spec fn seq_sum(s: Seq<u64>) -> int
    decreases s.len(),
{
    if s.len() == 0 {
        0
    } else {
        seq_sum(s.drop_last()) + s.last()
    }
}

/// Share of `vote_power` that a ballot weight `w` out of `total` carries: w * power / total.
pub open spec fn vote_part(w: u64, vote_power: u64, total: int) -> int {
    (w * vote_power) / total
}

/// Sum of the shares of `vote_power` that a ballot hands out, one per name.
pub open spec fn parts_sum(w: Seq<u64>, vote_power: u64, total: int) -> int
    decreases w.len(),
{
    if w.len() == 0 {
        0
    } else {
        parts_sum(w.drop_last(), vote_power, total) + vote_part(w.last(), vote_power, total)
    }
}

proof fn lemma_seq_sum_prefix(s: Seq<u64>, i: int)
    requires
        0 <= i <= s.len(),
    ensures
        0 <= seq_sum(s.take(i)) <= seq_sum(s),
        i < s.len() ==> seq_sum(s.take(i + 1)) == seq_sum(s.take(i)) + s[i],
    decreases s.len(),
{
    if i < s.len() {
        assert(s.take(i + 1).drop_last() =~= s.take(i));
    }
    if s.len() > 0 {
        if i == s.len() {
            assert(s.take(i) =~= s);
            lemma_seq_sum_prefix(s.drop_last(), 0);
            assert(s.drop_last().take(0) =~= s.take(0));
        } else {
            lemma_seq_sum_prefix(s.drop_last(), i);
            assert(s.drop_last().take(i) =~= s.take(i));
        }
    }
}

proof fn lemma_seq_sum_elem(s: Seq<u64>, i: int)
    requires
        0 <= i < s.len(),
    ensures
        s[i] <= seq_sum(s),
{
    lemma_seq_sum_prefix(s, i);
    lemma_seq_sum_prefix(s, i + 1);
}

proof fn lemma_part_le_power(w: u64, vote_power: u64, total: int)
    requires
        0 < total,
        w <= total,
    ensures
        0 <= vote_part(w, vote_power, total) <= vote_power,
{
    assert((w as int) * (vote_power as int) <= total * (vote_power as int)) by (nonlinear_arith)
        requires
            w <= total,
            0 <= vote_power,
    ;
    assert(0 <= (w as int) * (vote_power as int)) by (nonlinear_arith)
        requires
            0 <= w,
            0 <= vote_power,
    ;
    vstd::arithmetic::div_mod::lemma_div_is_ordered(
        (w as int) * (vote_power as int),
        total * (vote_power as int),
        total,
    );
    vstd::arithmetic::div_mod::lemma_div_multiples_vanish(vote_power as int, total);
    vstd::arithmetic::div_mod::lemma_div_pos_is_pos((w as int) * (vote_power as int), total);
}

proof fn lemma_parts_scaled(w: Seq<u64>, vote_power: u64, total: int)
    requires
        0 < total,
    ensures
        parts_sum(w, vote_power, total) * total <= seq_sum(w) * vote_power,
    decreases w.len(),
{
    if w.len() > 0 {
        lemma_parts_scaled(w.drop_last(), vote_power, total);
        let a = (w.last() as int) * (vote_power as int);
        assert(0 <= a) by (nonlinear_arith)
            requires
                a == (w.last() as int) * (vote_power as int),
                0 <= w.last(),
                0 <= vote_power,
        ;
        vstd::arithmetic::div_mod::lemma_fundamental_div_mod(a, total);
        vstd::arithmetic::div_mod::lemma_mod_pos_bound(a, total);
        let p = parts_sum(w.drop_last(), vote_power, total);
        let q = a / total;
        let sp = seq_sum(w.drop_last());
        assert((p + q) * total <= (sp + w.last()) * vote_power) by (nonlinear_arith)
            requires
                p * total <= sp * vote_power,
                q * total <= a,
                a == (w.last() as int) * (vote_power as int),
        ;
    }
}

/// Law: a ballot never hands out more weight than the voter's power. The shares
/// w[i] * power / sum(w) that one vote adds to the tally add up to at most `power`.
pub proof fn lemma_vote_parts_within_power(w: Seq<u64>, vote_power: u64)
    requires
        seq_sum(w) > 0,
    ensures
        parts_sum(w, vote_power, seq_sum(w)) <= vote_power,
{
    let s = seq_sum(w);
    lemma_parts_scaled(w, vote_power, s);
    let p = parts_sum(w, vote_power, s);
    assert(p <= vote_power) by (nonlinear_arith)
        requires
            p * s <= s * vote_power,
            s > 0,
    ;
}

/// The refusal that `cast_vote` gives before it sums the ballot, if any, checked in
/// this order.
pub open spec fn cast_vote_precheck(epoch: Epoch, position: Position, user: Key, weights: Seq<u64>, now: i64) -> Option<MandateError> {
    if !(now >= epoch.commit_end && now < epoch.vote_end) {
        Some(MandateError::NotVotePhase)
    } else if weights.len() != epoch.universe@.len() {
        Some(MandateError::WeightMismatch)
    } else if position.voted {
        Some(MandateError::AlreadyVoted)
    } else if position.epoch_index != epoch.index {
        Some(MandateError::WrongEpoch)
    } else if position.owner != user {
        Some(MandateError::BadOwner)
    } else {
        None
    }
}

/// The refusal that `cast_vote` gives, if any.
pub open spec fn cast_vote_error(epoch: Epoch, position: Position, user: Key, weights: Seq<u64>, now: i64) -> Option<MandateError> {
    match cast_vote_precheck(epoch, position, user, weights, now) {
        Some(e) => Some(e),
        None => if seq_sum(weights) == 0 {
            Some(MandateError::ZeroAmount)
        } else {
            None
        },
    }
}

/// The tally weights after a vote: name i gains w[i] * power / sum(w) (saturating).
pub open spec fn voted_weights(old_weights: Seq<u64>, w: Seq<u64>, vote_power: u64) -> Seq<u64> {
    Seq::new(
        old_weights.len(),
        |i: int|
            if i < w.len() {
                u64_sat_add(old_weights[i], vote_part(w[i], vote_power, seq_sum(w)) as u64)
            } else {
                old_weights[i]
            },
    )
}

/// Largest share of the epoch's total power that one position's vote counts with:
/// 10%.
pub const WALLET_CAP_BPS: u64 = 1_000;

/// The power a vote counts with: the position's power, capped at 10% of the epoch's
/// total power.
pub open spec fn counted_power(vote_power: u64, total_power: u64) -> u64 {
    min_u64(vote_power, ((total_power * WALLET_CAP_BPS) / 10_000) as u64)
}

/// Law: one vote adds at most 10% of the epoch's total power to the tally, and at
/// most the voter's own power.
pub proof fn lemma_vote_within_wallet_cap(w: Seq<u64>, vote_power: u64, total_power: u64)
    requires
        seq_sum(w) > 0,
    ensures
        parts_sum(w, counted_power(vote_power, total_power), seq_sum(w)) <= total_power / 10,
        parts_sum(w, counted_power(vote_power, total_power), seq_sum(w)) <= vote_power,
{
    lemma_vote_parts_within_power(w, counted_power(vote_power, total_power));
    assert((total_power * 1_000) / 10_000 == total_power / 10) by {
        vstd::arithmetic::div_mod::lemma_div_denominator(total_power * 1_000, 1_000, 10);
        vstd::arithmetic::div_mod::lemma_div_multiples_vanish(total_power as int, 1_000);
    }
}

/// Casts the position's vote during the vote phase, split across the ballot in
/// proportion to `weights`. The vote counts with the position's power capped at 10%
/// of the epoch's total power; the turnout (`voted_power`) grows by the position's
/// whole power.
pub fn cast_vote(
    epoch: &mut Epoch,
    position: &mut Position,
    user: Key,
    weights: Vec<u64>,
    now: i64,
) -> (r: Result<(), MandateError>)
    requires
        cast_vote_precheck(*old(epoch), *old(position), user, weights@, now) is None ==> {
            &&& seq_sum(weights@) <= u64::MAX
            &&& old(epoch).weights@.len() >= old(epoch).universe@.len()
        },
    ensures
        match cast_vote_error(*old(epoch), *old(position), user, weights@, now) {
            Some(e) => {
                &&& r == Err::<(), MandateError>(e)
                &&& *final(epoch) == *old(epoch)
                &&& *final(position) == *old(position)
            },
            None => {
                &&& r is Ok
                &&& final(epoch).weights@ == voted_weights(
                    old(epoch).weights@,
                    weights@,
                    counted_power(old(position).vote_power, old(epoch).total_power),
                )
                &&& *final(epoch) == (Epoch {
                    weights: final(epoch).weights,
                    voted_power: u64_sat_add(old(epoch).voted_power, old(position).vote_power),
                    ..*old(epoch)
                })
                &&& *final(position) == (Position { voted: true, ..*old(position) })
            },
        },
{
    if !(now >= epoch.commit_end && now < epoch.vote_end) {
        return Err(MandateError::NotVotePhase);
    }
    if weights.len() != epoch.universe.len() {
        return Err(MandateError::WeightMismatch);
    }
    if position.voted {
        return Err(MandateError::AlreadyVoted);
    }
    if position.epoch_index != epoch.index {
        return Err(MandateError::WrongEpoch);
    }
    if position.owner != user {
        return Err(MandateError::BadOwner);
    }
    let n = weights.len();
    let mut sum: u64 = 0;
    let mut i: usize = 0;
    while i < n
        invariant
            n == weights@.len(),
            i <= n,
            sum == seq_sum(weights@.take(i as int)),
            seq_sum(weights@) <= u64::MAX,
        decreases n - i,
    {
        proof {
            lemma_seq_sum_prefix(weights@, i as int);
            lemma_seq_sum_prefix(weights@, i as int + 1);
        }
        sum = sum + weights[i];
        i = i + 1;
    }
    proof {
        assert(weights@.take(n as int) =~= weights@);
    }
    if sum == 0 {
        return Err(MandateError::ZeroAmount);
    }
    let cap: u64 = ((epoch.total_power as u128 * WALLET_CAP_BPS as u128) / 10_000) as u64;
    let vp = min_of_u64(position.vote_power, cap);
    let ghost old_weights = epoch.weights@;
    let mut i: usize = 0;
    while i < n
        invariant
            n == weights@.len(),
            i <= n,
            n <= old_weights.len(),
            sum == seq_sum(weights@),
            sum > 0,
            vp == counted_power(old(position).vote_power, old(epoch).total_power),
            epoch.weights@.len() == old_weights.len(),
            old_weights == old(epoch).weights@,
            *epoch == (Epoch { weights: epoch.weights, ..*old(epoch) }),
            *position == *old(position),
            forall|j: int| 0 <= j < i ==> epoch.weights@[j] == voted_weights(old_weights, weights@, vp)[j],
            forall|j: int| i <= j < old_weights.len() ==> epoch.weights@[j] == old_weights[j],
        decreases n - i,
    {
        let w = weights[i];
        proof {
            lemma_seq_sum_elem(weights@, i as int);
            lemma_part_le_power(w, vp, sum as int);
            lemma_u64_product(w, vp);
        }
        let part: u128 = ((w as u128) * (vp as u128)) / (sum as u128);
        let cur = epoch.weights[i];
        epoch.weights.set(i, sat_add_u64(cur, part as u64));
        i = i + 1;
    }
    proof {
        assert(epoch.weights@ =~= voted_weights(old_weights, weights@, vp));
    }
    epoch.voted_power = sat_add_u64(epoch.voted_power, position.vote_power);
    position.voted = true;
    Ok(())
}

/// Whether `cast_vote` would trap on this input: the ballot's weights overflow 64
/// bits when summed, or the epoch holds fewer tally weights than ballot names. The
/// program shell aborts on these inputs as the vote itself would.
pub fn cast_vote_traps(epoch: &Epoch, position: &Position, user: Key, weights: &Vec<u64>, now: i64) -> (r: bool)
    ensures
        r == !(cast_vote_precheck(*epoch, *position, user, weights@, now) is None ==> {
            &&& seq_sum(weights@) <= u64::MAX
            &&& epoch.weights@.len() >= epoch.universe@.len()
        }),
{
    if !(now >= epoch.commit_end && now < epoch.vote_end) || weights.len() != epoch.universe.len()
        || position.voted || position.epoch_index != epoch.index || position.owner != user {
        return false;
    }
    let n = weights.len();
    let mut sum: u64 = 0;
    let mut i: usize = 0;
    while i < n
        invariant
            n == weights@.len(),
            i <= n,
            sum == seq_sum(weights@.take(i as int)),
            cast_vote_precheck(*epoch, *position, user, weights@, now) is None,
        decreases n - i,
    {
        proof {
            lemma_seq_sum_prefix(weights@, i as int + 1);
            assert(weights@.take(i as int + 1).drop_last() =~= weights@.take(i as int));
        }
        match sum.checked_add(weights[i]) {
            Some(s) => sum = s,
            None => {
                proof {
                    lemma_seq_sum_prefix(weights@, i as int);
                    lemma_seq_sum_prefix(weights@, i as int + 1);
                }
                return true;
            },
        }
        i = i + 1;
    }
    proof {
        assert(weights@.take(n as int) =~= weights@);
    }
    epoch.weights.len() < epoch.universe.len()
}

/// Index of the first name with the largest weight (0 for an empty ballot).
pub open spec fn first_max_index(w: Seq<u64>) -> int
    decreases w.len(),
{
    if w.len() <= 1 {
        0
    } else {
        let r = first_max_index(w.drop_last());
        if w.last() > w[r] {
            w.len() - 1
        } else {
            r
        }
    }
}

/// Law: the tally winner is a plurality of weight. `first_max_index` points at a name
/// whose weight no other name beats, and every earlier name weighs strictly less.
pub proof fn lemma_first_max_index_is_plurality(w: Seq<u64>)
    requires
        w.len() > 0,
    ensures
        0 <= first_max_index(w) < w.len(),
        forall|j: int| 0 <= j < w.len() ==> #[trigger] w[j] <= w[first_max_index(w)],
        forall|j: int| 0 <= j < first_max_index(w) ==> #[trigger] w[j] < w[first_max_index(w)],
    decreases w.len(),
{
    if w.len() > 1 {
        lemma_first_max_index_is_plurality(w.drop_last());
        let r = first_max_index(w.drop_last());
        assert(forall|j: int| 0 <= j < w.len() - 1 ==> w.drop_last()[j] == w[j]);
    }
}

/// Whether the epoch's turnout meets the vault's quorum: voted power is at least
/// `quorum_bps` of total power and at least the minimum quorum notional.
pub open spec fn quorum_met(vault: Vault, epoch: Epoch) -> bool {
    &&& epoch.total_power > 0
    &&& u64_sat_mul(epoch.voted_power, 10_000) / epoch.total_power >= vault.quorum_bps
    &&& epoch.voted_power >= vault.min_quorum_notional_e6
}

/// The refusal that `tally` gives, if any, checked in this order.
pub open spec fn tally_error(vault: Vault, epoch: Epoch, now: i64) -> Option<MandateError> {
    if now < epoch.vote_end {
        Some(MandateError::VoteOpen)
    } else if epoch.executed {
        Some(MandateError::AlreadyExecuted)
    } else if !quorum_met(vault, epoch) {
        Some(MandateError::NoQuorum)
    } else {
        None
    }
}

/// After the vote phase, records the plurality winner (the first name with the
/// largest weight) if quorum was met: both the share of power and the notional.
pub fn tally(vault: &Vault, epoch: &mut Epoch, now: i64) -> (r: Result<(), MandateError>)
    ensures
        match tally_error(*vault, *old(epoch), now) {
            Some(e) => r == Err::<(), MandateError>(e) && *final(epoch) == *old(epoch),
            None => {
                &&& r is Ok
                &&& *final(epoch) == (Epoch {
                    winner_idx: Some(first_max_index(old(epoch).weights@) as u8),
                    ..*old(epoch)
                })
            },
        },
{
    if now < epoch.vote_end {
        return Err(MandateError::VoteOpen);
    }
    if epoch.executed {
        return Err(MandateError::AlreadyExecuted);
    }
    let quorum_ok = epoch.total_power > 0
        && sat_mul_u64(epoch.voted_power, 10_000) / epoch.total_power >= vault.quorum_bps as u64
        && epoch.voted_power >= vault.min_quorum_notional_e6;
    if !quorum_ok {
        return Err(MandateError::NoQuorum);
    }
    let n = epoch.weights.len();
    let mut best_i: usize = 0;
    let mut best: u64 = 0;
    let mut i: usize = 0;
    while i < n
        invariant
            n == epoch.weights@.len(),
            i <= n,
            best_i == first_max_index(epoch.weights@.take(i as int)),
            i == 0 ==> best == 0 && best_i == 0,
            i > 0 ==> best_i < i && best == epoch.weights@[best_i as int],
        decreases n - i,
    {
        let w = epoch.weights[i];
        proof {
            let s = epoch.weights@;
            assert(s.take(i as int + 1).drop_last() =~= s.take(i as int));
        }
        if w > best {
            best = w;
            best_i = i;
        }
        i = i + 1;
    }
    proof {
        assert(epoch.weights@.take(n as int) =~= epoch.weights@);
    }
    epoch.winner_idx = Some(best_i as u8);
    Ok(())
}

/// The refusal that `execute_epoch` gives, if any, checked in this order.
pub open spec fn execute_error(vault: Vault, epoch: Epoch, executor: Key) -> Option<MandateError> {
    if executor != vault.executor {
        Some(MandateError::BadExecutor)
    } else if epoch.winner_idx is None {
        Some(MandateError::NotTallied)
    } else if epoch.executed {
        Some(MandateError::AlreadyExecuted)
    } else if vault.idle_mode != IdleMode::HoldUsdy {
        Some(MandateError::IdleModeBlocked)
    } else {
        None
    }
}

/// Records the executor's fill of a tallied epoch: the epoch is marked executed (once)
/// and the vault's NAV per USDY becomes `new_nav_e6` (at least 1). The fill receipt
/// hash is not stored.
pub fn execute_epoch(
    vault: &mut Vault,
    epoch: &mut Epoch,
    executor: Key,
    fill_hash: [u8; 32],
    new_nav_e6: u64,
) -> (r: Result<(), MandateError>)
    ensures
        match execute_error(*old(vault), *old(epoch), executor) {
            Some(e) => {
                &&& r == Err::<(), MandateError>(e)
                &&& *final(vault) == *old(vault)
                &&& *final(epoch) == *old(epoch)
            },
            None => {
                &&& r is Ok
                &&& *final(epoch) == (Epoch { executed: true, ..*old(epoch) })
                &&& *final(vault) == (Vault { nav_usd_per_usdy_e6: max_u64(new_nav_e6, 1), ..*old(vault) })
            },
        },
{
    if executor != vault.executor {
        return Err(MandateError::BadExecutor);
    }
    if epoch.winner_idx.is_none() {
        return Err(MandateError::NotTallied);
    }
    if epoch.executed {
        return Err(MandateError::AlreadyExecuted);
    }
    if vault.idle_mode != IdleMode::HoldUsdy {
        return Err(MandateError::IdleModeBlocked);
    }
    epoch.executed = true;
    vault.nav_usd_per_usdy_e6 = max_of_u64(new_nav_e6, 1);
    Ok(())
}

/// A new, empty rebate account of `owner` in `vault`.
pub fn init_rebate(owner: Key, vault: Key, bump: u8) -> (r: RebateAccount)
    ensures
        r == (RebateAccount {
            owner,
            vault,
            staked_ondo: 0,
            pending_unstake: 0,
            unstake_available_ts: 0,
            accrued_rebate_usdy: 0,
            last_fee_epoch: 0,
            bump,
        }),
{
    RebateAccount {
        owner,
        vault,
        staked_ondo: 0,
        pending_unstake: 0,
        unstake_available_ts: 0,
        accrued_rebate_usdy: 0,
        last_fee_epoch: 0,
        bump,
    }
}

/// Stakes `amount` ONDO for the fee rebate. The caller moves `amount` ONDO from the
/// user to the vault's ONDO treasury when this succeeds.
pub fn stake_ondo(rebate: &mut RebateAccount, amount: u64) -> (r: Result<(), MandateError>)
    ensures
        amount == 0 ==> r == Err::<(), MandateError>(MandateError::ZeroAmount) && *final(rebate) == *old(rebate),
        amount != 0 ==> r is Ok && *final(rebate) == (RebateAccount {
            staked_ondo: u64_sat_add(old(rebate).staked_ondo, amount),
            ..*old(rebate)
        }),
{
    if amount == 0 {
        return Err(MandateError::ZeroAmount);
    }
    rebate.staked_ondo = sat_add_u64(rebate.staked_ondo, amount);
    Ok(())
}

/// The rebate account after `amount` of its stake enters the cooldown at `now`.
pub open spec fn after_request_unstake(rebate: RebateAccount, amount: u64, now: i64) -> RebateAccount {
    RebateAccount {
        staked_ondo: (rebate.staked_ondo - amount) as u64,
        pending_unstake: u64_sat_add(rebate.pending_unstake, amount),
        unstake_available_ts: i64_sat_add(now, UNSTAKE_COOLDOWN_SECS),
        ..rebate
    }
}

/// Law: ONDO whose unstake was requested at `t0` cannot be released before the
/// seven-day cooldown ends, and the request only moves ONDO from the stake to the
/// pending balance (when that balance does not saturate).
pub proof fn lemma_unstake_waits_for_cooldown(rebate: RebateAccount, amount: u64, t0: i64, t1: i64)
    requires
        0 < amount <= rebate.staked_ondo,
        t1 < i64_sat_add(t0, UNSTAKE_COOLDOWN_SECS),
    ensures
        complete_unstake_error(after_request_unstake(rebate, amount, t0), t1) == Some(MandateError::Cooldown),
        rebate.pending_unstake + amount <= u64::MAX ==> after_request_unstake(rebate, amount, t0).staked_ondo
            + after_request_unstake(rebate, amount, t0).pending_unstake == rebate.staked_ondo + rebate.pending_unstake,
{
}

/// Moves `amount` of the stake into the unstake cooldown, which ends seven days after
/// `now`.
pub fn request_unstake(rebate: &mut RebateAccount, amount: u64, now: i64) -> (r: Result<(), MandateError>)
    ensures
        !(amount > 0 && amount <= old(rebate).staked_ondo) ==> r == Err::<(), MandateError>(MandateError::BadUnstake)
            && *final(rebate) == *old(rebate),
        amount > 0 && amount <= old(rebate).staked_ondo ==> r is Ok && *final(rebate) == after_request_unstake(
            *old(rebate),
            amount,
            now,
        ),
{
    if !(amount > 0 && amount <= rebate.staked_ondo) {
        return Err(MandateError::BadUnstake);
    }
    rebate.staked_ondo = sat_sub_u64(rebate.staked_ondo, amount);
    rebate.pending_unstake = sat_add_u64(rebate.pending_unstake, amount);
    rebate.unstake_available_ts = sat_add_i64(now, UNSTAKE_COOLDOWN_SECS);
    Ok(())
}

/// The refusal that `complete_unstake` gives, if any, checked in this order.
pub open spec fn complete_unstake_error(rebate: RebateAccount, now: i64) -> Option<MandateError> {
    if rebate.pending_unstake == 0 {
        Some(MandateError::BadUnstake)
    } else if now < rebate.unstake_available_ts {
        Some(MandateError::Cooldown)
    } else {
        None
    }
}

/// Releases the whole pending unstake once its cooldown is over, returning the ONDO
/// amount that the caller moves from the ONDO treasury back to the user.
pub fn complete_unstake(rebate: &mut RebateAccount, now: i64) -> (r: Result<u64, MandateError>)
    ensures
        match complete_unstake_error(*old(rebate), now) {
            Some(e) => r == Err::<u64, MandateError>(e) && *final(rebate) == *old(rebate),
            None => {
                &&& r == Ok::<u64, MandateError>(old(rebate).pending_unstake)
                &&& *final(rebate) == (RebateAccount { pending_unstake: 0, ..*old(rebate) })
            },
        },
{
    if rebate.pending_unstake == 0 {
        return Err(MandateError::BadUnstake);
    }
    if now < rebate.unstake_available_ts {
        return Err(MandateError::Cooldown);
    }
    let amount = rebate.pending_unstake;
    rebate.pending_unstake = 0;
    Ok(amount)
}

/// Rebate credit for a fee of `gross_fee_usdy` at `bps` basis points.
pub open spec fn rebate_credit(gross_fee_usdy: u64, bps: int) -> u64 {
    (u64_sat_mul(gross_fee_usdy, bps as u64) / 10_000) as u64
}

/// USDY atoms per whole USDY (6 decimals).
pub const USDY_ATOMS_PER_UNIT: u64 = 1_000_000;

/// USD value (e6) of `shares` USDY atoms at `nav_e6` USD (e6) per USDY, kept to 64 bits.
pub open spec fn position_nav_e6(shares: u64, nav_e6: u64) -> u64 {
    let v = (shares * nav_e6) / (USDY_ATOMS_PER_UNIT as int);
    if v > u64::MAX {
        u64::MAX
    } else {
        v as u64
    }
}

/// Law: the NAV a rebate is measured against is the position's USDY at the vault's NAV
/// per USDY: `shares * nav_e6 / 1e6` USD (e6), rounded down, saturating at `u64::MAX`.
pub proof fn lemma_position_nav_is_shares_at_nav(shares: u64, nav_e6: u64)
    ensures
        position_nav_e6(shares, nav_e6) * 1_000_000 <= shares * nav_e6,
        shares * nav_e6 < (position_nav_e6(shares, nav_e6) + 1) * 1_000_000
            || position_nav_e6(shares, nav_e6) == u64::MAX,
{
    let x = (shares as int) * (nav_e6 as int);
    lemma_u64_product(shares, nav_e6);
    vstd::arithmetic::div_mod::lemma_fundamental_div_mod(x, 1_000_000);
    vstd::arithmetic::div_mod::lemma_mod_pos_bound(x, 1_000_000);
    vstd::arithmetic::div_mod::lemma_div_pos_is_pos(x, 1_000_000);
}

/// Law: at a fixed stake, ONDO price and position, the rebate rate never rises when the
/// vault's NAV per USDY rises (a richer position needs more stake for the same rate),
/// as long as the position is worth at least one micro-dollar.
pub proof fn lemma_rebate_rate_falls_as_nav_rises(staked_ondo: u64, ondo_usd_e6: u64, shares: u64, nav1: u64, nav2: u64)
    requires
        nav1 <= nav2,
        position_nav_e6(shares, nav1) > 0,
    ensures
        spec_rebate_bps(staked_ondo, ondo_usd_e6, position_nav_e6(shares, nav2))
            <= spec_rebate_bps(staked_ondo, ondo_usd_e6, position_nav_e6(shares, nav1)),
{
    let n1 = position_nav_e6(shares, nav1);
    let n2 = position_nav_e6(shares, nav2);
    let x1 = (shares as int) * (nav1 as int);
    let x2 = (shares as int) * (nav2 as int);
    assert(x1 <= x2) by (nonlinear_arith)
        requires
            x1 == (shares as int) * (nav1 as int),
            x2 == (shares as int) * (nav2 as int),
            nav1 <= nav2,
            shares >= 0,
    ;
    lemma_u64_product(shares, nav1);
    vstd::arithmetic::div_mod::lemma_div_is_ordered(x1, x2, 1_000_000);
    assert(0 < n1 <= n2);
    if staked_ondo != 0 && ondo_usd_e6 != 0 {
        let x = staked_ondo * ondo_usd_e6 * 10_000;
        assert(x >= 0) by (nonlinear_arith)
            requires
                x == staked_ondo * ondo_usd_e6 * 10_000,
                staked_ondo >= 0,
                ondo_usd_e6 >= 0,
        ;
        let d1 = n1 * REBATE_K_E6;
        let d2 = n2 * REBATE_K_E6;
        assert(1 <= d1 <= d2) by (nonlinear_arith)
            requires
                d1 == n1 * 50_000,
                d2 == n2 * 50_000,
                0 < n1 <= n2,
        ;
        vstd::arithmetic::div_mod::lemma_div_is_ordered_by_denominator(x, d1, d2);
    }
}

/// Credits the ONDO rebate on a crystallized fee of `gross_fee_usdy`: the position's
/// NAV (USD e6) is its USDY atoms times NAV per USDY over 1e6, the rebate rate is
/// `rebate_bps` of the stake against that NAV, and the credit is fee * rate / 10000.
pub fn harvest_rebate(
    vault: &Vault,
    epoch: &Epoch,
    position: &Position,
    rebate: &mut RebateAccount,
    gross_fee_usdy: u64,
) -> (r: Result<(), MandateError>)
    ensures
        position.owner != old(rebate).owner ==> r == Err::<(), MandateError>(MandateError::BadOwner)
            && *final(rebate) == *old(rebate),
        position.owner == old(rebate).owner ==> {
            let nav = position_nav_e6(position.shares, vault.nav_usd_per_usdy_e6);
            let bps = spec_rebate_bps(old(rebate).staked_ondo, vault.ondo_usd_e6, nav);
            &&& r is Ok
            &&& *final(rebate) == (RebateAccount {
                accrued_rebate_usdy: u64_sat_add(old(rebate).accrued_rebate_usdy, rebate_credit(gross_fee_usdy, bps)),
                last_fee_epoch: epoch.index,
                ..*old(rebate)
            })
        },
{
    if position.owner != rebate.owner {
        return Err(MandateError::BadOwner);
    }
    proof {
        lemma_u64_product(position.shares, vault.nav_usd_per_usdy_e6);
    }
    let nav_wide: u128 = (position.shares as u128 * vault.nav_usd_per_usdy_e6 as u128) / USDY_ATOMS_PER_UNIT as u128;
    let user_nav: u64 = if nav_wide > u64::MAX as u128 {
        u64::MAX
    } else {
        nav_wide as u64
    };
    let bps = RebateAccount::rebate_bps(rebate.staked_ondo, vault.ondo_usd_e6, user_nav);
    let credit = sat_mul_u64(gross_fee_usdy, bps as u64) / 10_000;
    rebate.accrued_rebate_usdy = sat_add_u64(rebate.accrued_rebate_usdy, credit);
    rebate.last_fee_epoch = epoch.index;
    Ok(())
}

/// Law: a harvested rebate credit never exceeds the fee it was computed from.
pub proof fn lemma_rebate_credit_within_fee(gross_fee_usdy: u64, bps: int)
    requires
        0 <= bps <= 10_000,
    ensures
        rebate_credit(gross_fee_usdy, bps) <= gross_fee_usdy,
{
    let p = (gross_fee_usdy as int) * bps;
    assert(p <= (gross_fee_usdy as int) * 10_000 && p >= 0) by (nonlinear_arith)
        requires
            p == (gross_fee_usdy as int) * bps,
            0 <= bps <= 10_000,
            gross_fee_usdy >= 0,
    ;
    vstd::arithmetic::div_mod::lemma_div_multiples_vanish(gross_fee_usdy as int, 10_000);
    if p <= u64::MAX {
        vstd::arithmetic::div_mod::lemma_div_is_ordered(p, (gross_fee_usdy as int) * 10_000, 10_000);
    } else {
        vstd::arithmetic::div_mod::lemma_div_is_ordered(u64::MAX as int, (gross_fee_usdy as int) * 10_000, 10_000);
    }
}

/// Pauses or unpauses the vault.
pub fn set_paused(vault: &mut Vault, paused: bool)
    ensures
        *final(vault) == (Vault { paused, ..*old(vault) }),
{
    vault.paused = paused;
}

/// Sets the vault's NAV per USDY and ONDO price, each at least 1.
pub fn update_nav(vault: &mut Vault, nav_e6: u64, ondo_usd_e6: u64)
    ensures
        *final(vault) == (Vault {
            nav_usd_per_usdy_e6: max_u64(nav_e6, 1),
            ondo_usd_e6: max_u64(ondo_usd_e6, 1),
            ..*old(vault)
        }),
{
    vault.nav_usd_per_usdy_e6 = max_of_u64(nav_e6, 1);
    vault.ondo_usd_e6 = max_of_u64(ondo_usd_e6, 1);
}

/// Law: an epoch is executed at most once. After a successful execution a second one
/// is refused, and so is a new tally.
pub proof fn lemma_execute_at_most_once(vault: Vault, epoch: Epoch, executor: Key, new_nav_e6: u64, now: i64)
    requires
        execute_error(vault, epoch, executor) is None,
    ensures
        execute_error(
            Vault { nav_usd_per_usdy_e6: max_u64(new_nav_e6, 1), ..vault },
            Epoch { executed: true, ..epoch },
            executor,
        ) == Some(MandateError::AlreadyExecuted),
        tally_error(Vault { nav_usd_per_usdy_e6: max_u64(new_nav_e6, 1), ..vault }, Epoch { executed: true, ..epoch }, now) is Some,
{
}

/// Law: the commit and vote phases of an epoch never overlap. At a time when a
/// deposit is accepted a vote is refused as out of phase, and at a time when a vote
/// passes its phase check the tally is refused as too early.
pub proof fn lemma_phases_disjoint(
    vault: Vault,
    epoch: Epoch,
    position: Position,
    user: Key,
    amount: u64,
    lock_mult_bps: u16,
    weights: Seq<u64>,
    now: i64,
)
    ensures
        deposit_error(vault, epoch, amount, lock_mult_bps, now) is None ==> cast_vote_precheck(
            epoch,
            position,
            user,
            weights,
            now,
        ) == Some(MandateError::NotVotePhase),
        cast_vote_precheck(epoch, position, user, weights, now) is None ==> tally_error(vault, epoch, now)
            == Some(MandateError::VoteOpen),
{
}

/// Law: a position votes once. Once its vote is recorded, every later vote with it
/// is refused.
pub proof fn lemma_one_vote_per_position(epoch: Epoch, position: Position, user: Key, weights: Seq<u64>, now: i64)
    ensures
        cast_vote_precheck(epoch, Position { voted: true, ..position }, user, weights, now) is Some,
{
}

} // verus!
