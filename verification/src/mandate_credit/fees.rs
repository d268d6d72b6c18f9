use vstd::prelude::*;
use crate::arith::{u64_sat_add, u64_sat_sub, sat_add_u64, sat_sub_u64};
use crate::mandate_credit::state::{Market, INSURANCE_BPS, OPCO_BPS};

verus! {

/// Protocol take of an interest payment: one quarter.
pub open spec fn protocol_take(interest: u64) -> u64 {
    (interest / 4) as u64
}

/// Operating company's share of the take: 50%.
pub open spec fn opco_share(take: u64) -> u64 {
    ((take * OPCO_BPS) / 10_000) as u64
}

/// Insurance share of the take: 25%.
pub open spec fn insurance_share(take: u64) -> u64 {
    ((take * INSURANCE_BPS) / 10_000) as u64
}

/// Protocol share of the take: what is left after the other two, rounding included.
pub open spec fn protocol_share(take: u64) -> u64 {
    u64_sat_sub(u64_sat_sub(take, opco_share(take)), insurance_share(take))
}

/// The market after booking an interest payment: a quarter of it is split 50/25/25
/// into the operating company, insurance and protocol buckets; the debt grows by the
/// whole interest and the supply by the rest.
pub open spec fn after_interest(m: Market, interest: u64) -> Market {
    let take = protocol_take(interest);
    Market {
        pending_opco: u64_sat_add(m.pending_opco, opco_share(take)),
        pending_insurance: u64_sat_add(m.pending_insurance, insurance_share(take)),
        pending_protocol: u64_sat_add(m.pending_protocol, protocol_share(take)),
        total_debt_assets: u64_sat_add(m.total_debt_assets, interest),
        total_supply_assets: u64_sat_add(m.total_supply_assets, (interest - take) as u64),
        ..m
    }
}

/// Books an interest payment with the waterfall split computed in 128 bits.
pub fn book_interest(m: &mut Market, interest: u64)
    ensures
        *final(m) == after_interest(*old(m), interest),
{
    let take = interest / 4;
    assert(take * 5_000 <= u128::MAX && take * 2_500 <= u128::MAX) by (nonlinear_arith)
        requires
            take <= u64::MAX,
    ;
    let opco = ((take as u128 * OPCO_BPS as u128) / 10_000) as u64;
    let ins = ((take as u128 * INSURANCE_BPS as u128) / 10_000) as u64;
    let proto = sat_sub_u64(sat_sub_u64(take, opco), ins);
    m.pending_opco = sat_add_u64(m.pending_opco, opco);
    m.pending_insurance = sat_add_u64(m.pending_insurance, ins);
    m.pending_protocol = sat_add_u64(m.pending_protocol, proto);
    m.total_debt_assets = sat_add_u64(m.total_debt_assets, interest);
    m.total_supply_assets = sat_add_u64(m.total_supply_assets, sat_sub_u64(interest, take));
}

/// Books an interest payment (see `after_interest`). Its 64-bit share computation
/// overflows on takes above `u64::MAX / 5000`.
pub fn apply_interest(m: &mut Market, interest: u64)
    requires
        (interest / 4) * OPCO_BPS <= u64::MAX,
    ensures
        *final(m) == after_interest(*old(m), interest),
{
    book_interest(m, interest);
}

/// Law: the fee waterfall hands out exactly the protocol take, half of it to the
/// operating company, a quarter (rounded down) to insurance and the rest, never less
/// than the insurance share, to the protocol; lenders keep the interest less the take.
pub proof fn lemma_waterfall_adds_up(interest: u64)
    ensures
        opco_share(protocol_take(interest)) + insurance_share(protocol_take(interest))
            + protocol_share(protocol_take(interest)) == protocol_take(interest),
        opco_share(protocol_take(interest)) == protocol_take(interest) / 2,
        insurance_share(protocol_take(interest)) == protocol_take(interest) / 4,
        protocol_share(protocol_take(interest)) >= insurance_share(protocol_take(interest)),
        (interest - protocol_take(interest)) + protocol_take(interest) == interest,
{
    let t = protocol_take(interest) as int;
    assert((t * 5_000) / 10_000 == t / 2) by {
        vstd::arithmetic::div_mod::lemma_div_denominator(t * 5_000, 5_000, 2);
        vstd::arithmetic::div_mod::lemma_div_multiples_vanish(t, 5_000);
    }
    assert((t * 2_500) / 10_000 == t / 4) by {
        vstd::arithmetic::div_mod::lemma_div_denominator(t * 2_500, 2_500, 4);
        vstd::arithmetic::div_mod::lemma_div_multiples_vanish(t, 2_500);
    }
}

/// A fee bucket's treasury.
#[derive(Clone, Copy, Debug, PartialEq, Eq, Structural)]
pub enum FeeBucket {
    Opco,
    Insurance,
    Protocol,
}

/// The transfers a sweep makes: each non-empty bucket in the order operating company,
/// insurance, protocol.
pub open spec fn sweep_transfers(m: Market) -> Seq<(u64, FeeBucket)> {
    (if m.pending_opco > 0 {
        seq![(m.pending_opco, FeeBucket::Opco)]
    } else {
        Seq::empty()
    }) + (if m.pending_insurance > 0 {
        seq![(m.pending_insurance, FeeBucket::Insurance)]
    } else {
        Seq::empty()
    }) + (if m.pending_protocol > 0 {
        seq![(m.pending_protocol, FeeBucket::Protocol)]
    } else {
        Seq::empty()
    })
}

/// Empties the three fee buckets. Returns the transfers that the caller makes from
/// the debt vault to each bucket's treasury; an empty bucket makes none.
pub fn sweep(m: &mut Market) -> (r: Vec<(u64, FeeBucket)>)
    ensures
        r@ == sweep_transfers(*old(m)),
        *final(m) == (Market { pending_opco: 0, pending_insurance: 0, pending_protocol: 0, ..*old(m) }),
{
    let mut out: Vec<(u64, FeeBucket)> = Vec::new();
    if m.pending_opco > 0 {
        out.push((m.pending_opco, FeeBucket::Opco));
    }
    if m.pending_insurance > 0 {
        out.push((m.pending_insurance, FeeBucket::Insurance));
    }
    if m.pending_protocol > 0 {
        out.push((m.pending_protocol, FeeBucket::Protocol));
    }
    proof {
        let a: Seq<(u64, FeeBucket)> = if m.pending_opco > 0 { seq![(m.pending_opco, FeeBucket::Opco)] } else { Seq::empty() };
        let b: Seq<(u64, FeeBucket)> = if m.pending_insurance > 0 { seq![(m.pending_insurance, FeeBucket::Insurance)] } else { Seq::empty() };
        let c: Seq<(u64, FeeBucket)> = if m.pending_protocol > 0 { seq![(m.pending_protocol, FeeBucket::Protocol)] } else { Seq::empty() };
        assert(out@ =~= a + b + c);
    }
    m.pending_opco = 0;
    m.pending_insurance = 0;
    m.pending_protocol = 0;
    out
}

} // verus!
