use vstd::prelude::*;
use vstd::arithmetic::power::pow;
use crate::arith::i64_sat_sub;
use crate::arith::sat_sub_i64;
use crate::key::Key;

verus! {

/// Cache of official Ondo and Pyth prices, written by a keeper.
#[derive(Clone, Copy)]
pub struct OndoOracle {
    pub market: Key,
    pub authority: Key,
    pub pyth_usdy_feed: Key,
    pub collat_usd_e6: u64,
    pub usdy_usd_e6: u64,
    pub collat_ts: i64,
    pub usdy_ts: i64,
    pub max_age_secs: i64,
    pub bump: u8,
}

impl OndoOracle {
    pub open spec fn spec_collat_fresh(&self, now: i64) -> bool {
        i64_sat_sub(now, self.collat_ts) <= self.max_age_secs && self.collat_usd_e6 > 0
    }

    pub open spec fn spec_usdy_fresh(&self, now: i64) -> bool {
        i64_sat_sub(now, self.usdy_ts) <= self.max_age_secs && self.usdy_usd_e6 > 0
    }

    /// Whether the collateral price is set and no older than the maximum age.
    pub fn collat_fresh(&self, now: i64) -> (r: bool)
        ensures
            r == self.spec_collat_fresh(now),
    {
        sat_sub_i64(now, self.collat_ts) <= self.max_age_secs && self.collat_usd_e6 > 0
    }

    /// Whether the USDY price is set and no older than the maximum age.
    pub fn usdy_fresh(&self, now: i64) -> (r: bool)
        ensures
            r == self.spec_usdy_fresh(now),
    {
        sat_sub_i64(now, self.usdy_ts) <= self.max_age_secs && self.usdy_usd_e6 > 0
    }
}

/// The unsigned little-endian value of the 8 bytes at `off`.
pub open spec fn le_u64_at(d: Seq<u8>, off: int) -> int {
    d[off] + d[off + 1] * 0x100 + d[off + 2] * 0x1_0000 + d[off + 3] * 0x100_0000 + d[off + 4] * 0x1_0000_0000
        + d[off + 5] * 0x100_0000_0000 + d[off + 6] * 0x1_0000_0000_0000 + d[off + 7] * 0x100_0000_0000_0000
}

/// The two's-complement little-endian `i64` at `off`.
pub open spec fn le_i64_at(d: Seq<u8>, off: int) -> int {
    let u = le_u64_at(d, off);
    if u < 0x8000_0000_0000_0000 {
        u
    } else {
        u - 0x1_0000_0000_0000_0000
    }
}

/// The two's-complement little-endian `i32` at `off`.
pub open spec fn le_i32_at(d: Seq<u8>, off: int) -> int {
    let u = d[off] + d[off + 1] * 0x100 + d[off + 2] * 0x1_0000 + d[off + 3] * 0x100_0000;
    if u < 0x8000_0000 {
        u
    } else {
        u - 0x1_0000_0000
    }
}

/// `price * 10^expo` expressed in millionths, rounded toward zero for a positive
/// price.
pub open spec fn scaled_e6(price: int, expo: int) -> int {
    let target = expo + 6;
    if target >= 0 {
        price * pow(10, target as nat)
    } else {
        price / pow(10, (-target) as nat)
    }
}

/// The e6 price, when it is positive and fits in 64 bits.
pub open spec fn spec_scale_to_e6(price: int, expo: int) -> Option<u64> {
    let v = scaled_e6(price, expo);
    if 0 < v <= u64::MAX {
        Some(v as u64)
    } else {
        None
    }
}

proof fn lemma_pow10_step(k: nat)
    ensures
        pow(10, k + 1) == 10 * pow(10, k),
        pow(10, k) >= 1,
{
    vstd::arithmetic::power::lemma_pow_positive(10, k);
    assert(pow(10, k + 1) == 10 * pow(10, (k + 1 - 1) as nat)) by {
        reveal(pow);
    }
}

proof fn lemma_pow10_38()
    ensures
        pow(10, 38) == 100_000_000_000_000_000_000_000_000_000_000_000_000,
{
    reveal_with_fuel(pow, 39);
}

/// 10^k for k <= 38, the largest power of ten in 128 bits.
fn pow10_u128(k: u32) -> (r: u128)
    requires
        k <= 38,
    ensures
        r == pow(10, k as nat),
        r >= 1,
{
    let mut r: u128 = 1;
    let mut i: u32 = 0;
    proof {
        reveal(pow);
    }
    while i < k
        invariant
            i <= k <= 38,
            r == pow(10, i as nat),
            r <= 100_000_000_000_000_000_000_000_000_000_000_000_000,
        decreases k - i,
    {
        proof {
            lemma_pow10_step(i as nat);
            if i < 38 {
                vstd::arithmetic::power::lemma_pow_increases(10, (i + 1) as nat, 38);
                lemma_pow10_38();
            }
        }
        r = r * 10;
        i = i + 1;
    }
    proof {
        vstd::arithmetic::power::lemma_pow_positive(10, k as nat);
    }
    r
}

proof fn lemma_nonpositive_scales_to_none(price: int, expo: int)
    requires
        price <= 0,
    ensures
        spec_scale_to_e6(price, expo) is None,
{
    let target = expo + 6;
    if target >= 0 {
        vstd::arithmetic::power::lemma_pow_positive(10, target as nat);
        assert(price * pow(10, target as nat) <= 0) by (nonlinear_arith)
            requires
                price <= 0,
                pow(10, target as nat) > 0,
        ;
    } else {
        vstd::arithmetic::power::lemma_pow_positive(10, (-target) as nat);
        vstd::arithmetic::div_mod::lemma_div_is_ordered(price, 0, pow(10, (-target) as nat));
    }
}

/// Scales a Pyth price `price * 10^expo` to millionths. `None` when the result is not
/// positive or does not fit in 64 bits.
pub fn scale_to_e6(price: i64, expo: i32) -> (r: Option<u64>)
    requires
        -44 <= expo <= 32,
    ensures
        r == spec_scale_to_e6(price as int, expo as int),
{
    if price <= 0 {
        proof {
            lemma_nonpositive_scales_to_none(price as int, expo as int);
        }
        return None;
    }
    let p = price as u128;
    let target = expo + 6;
    let scaled: u128 = if target >= 0 {
        let pw = pow10_u128(target as u32);
        match p.checked_mul(pw) {
            Some(v) => v,
            None => {
                return None;
            },
        }
    } else {
        let pw = pow10_u128((-target) as u32);
        p / pw
    };
    if scaled == 0 || scaled > u64::MAX as u128 {
        return None;
    }
    Some(scaled as u64)
}

/// Whether an e6 USDY price is plausible: between $0.10 and $50.
pub open spec fn plausible_usdy_e6(v: int) -> bool {
    (100_000 < v && v < 50_000_000) || (500_000 <= v && v <= 3_000_000)
}

/// Whether the window at `off` holds a positive price and an exponent in [-12, 0].
pub open spec fn pyth_candidate(d: Seq<u8>, off: int) -> bool {
    le_i64_at(d, off) > 0 && -12 <= le_i32_at(d, off + 8) <= 0
}

/// Scan of the 8-byte aligned windows from `off` (below `len - 16`): the first window
/// holding a candidate price decides if its e6 value fails to scale (no price) or is
/// plausible (that price); other windows are skipped.
pub open spec fn pyth_scan(d: Seq<u8>, off: int) -> Option<u64>
    decreases d.len() - off,
{
    if off < 0 || off + 16 >= d.len() {
        None
    } else if !pyth_candidate(d, off) {
        pyth_scan(d, off + 8)
    } else {
        match spec_scale_to_e6(le_i64_at(d, off), le_i32_at(d, off + 8)) {
            None => None,
            Some(v) => if plausible_usdy_e6(v as int) {
                Some(v)
            } else {
                pyth_scan(d, off + 8)
            },
        }
    }
}

/// What `try_read_pyth_e6` finds in `d`: nothing in fewer than 64 bytes.
pub open spec fn spec_read_pyth(d: Seq<u8>) -> Option<u64> {
    if d.len() < 64 {
        None
    } else {
        pyth_scan(d, 0)
    }
}

/// Best-effort read of a Pyth price-update account: scans 8-byte aligned windows for a
/// positive little-endian `i64` price followed by an `i32` exponent in [-12, 0] whose
/// e6 value is a plausible USDY price. Returns it with the read time `now`.
pub fn try_read_pyth_e6(data: &[u8], now: i64) -> (r: Option<(u64, i64)>)
    ensures
        r == (match spec_read_pyth(data@) {
            Some(v) => Some((v, now)),
            None => None::<(u64, i64)>,
        }),
{
    let len = data.len();
    if len < 64 {
        return None;
    }
    let limit = len - 16;
    let mut off: usize = 0;
    while off < limit
        invariant
            len == data@.len(),
            limit == len - 16,
            len >= 64,
            off <= limit + 7,
            pyth_scan(data@, 0) == pyth_scan(data@, off as int),
        decreases limit + 8 - off,
    {
        let d = data;
        let u: u64 = d[off] as u64 + d[off + 1] as u64 * 0x100 + d[off + 2] as u64 * 0x1_0000
            + d[off + 3] as u64 * 0x100_0000 + d[off + 4] as u64 * 0x1_0000_0000
            + d[off + 5] as u64 * 0x100_0000_0000 + d[off + 6] as u64 * 0x1_0000_0000_0000
            + d[off + 7] as u64 * 0x100_0000_0000_0000;
        let v: u64 = d[off + 8] as u64 + d[off + 9] as u64 * 0x100 + d[off + 10] as u64 * 0x1_0000
            + d[off + 11] as u64 * 0x100_0000;
        let expo: i64 = if v < 0x8000_0000 {
            v as i64
        } else {
            v as i64 - 0x1_0000_0000
        };
        assert(u == le_u64_at(data@, off as int));
        if u > 0 && u < 0x8000_0000_0000_0000 && -12 <= expo && expo <= 0 {
            match scale_to_e6(u as i64, expo as i32) {
                None => {
                    return None;
                },
                Some(e6) => {
                    if 100_000 < e6 && e6 < 50_000_000 {
                        return Some((e6, now));
                    }
                    if 500_000 <= e6 && e6 <= 3_000_000 {
                        return Some((e6, now));
                    }
                },
            }
        }
        off = off + 8;
    }
    None
}

} // verus!
