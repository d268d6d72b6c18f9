//! Verified core of the Mandate vault (epoch voting, ONDO fee rebates) and of the
//! Mandate credit sleeve (isolated USDY lending against tokenized stock collateral).
//!
//! Every instruction is a function from account state and plain inputs (signer keys,
//! the current unix time or slot) to new account state. Token transfers, clock reads
//! and account validation are left to the program shell around the library: an
//! instruction that moves tokens returns the amounts to move.

pub mod arith;
pub mod key;
pub mod mandate;
pub mod mandate_credit;
