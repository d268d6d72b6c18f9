# mandate

Verified core of Mandate, a Solana vault in which depositors vote each epoch on the
Ondo tokenized stock the vault buys, and of its credit sleeve, an isolated market
that lends USDY against a tokenized stock.

- `src/mandate/`: vault state, epoch calendar, deposits, capital-weighted votes,
  plurality tally, execution, ONDO fee rebates.
- `src/mandate_credit/`: market state, utilization and kinked borrow rate, interest
  accrual, supply/withdraw, collateral, borrow/repay, liquidation, the fee
  waterfall, the price cache and the Pyth account reader. `traps.rs` tells the
  program shell on which inputs an instruction's arithmetic would overflow.
- `app/`: the Anchor program shells: account structs and constraints, clock reads,
  token transfers, and conversions between account data and the library's types.
  The vault is an Anchor `#[program]`; the credit sleeve, a program of its own id,
  dispatches its instructions in `credit::process_instruction`.

Every instruction in `src/` is proved against its contract with Verus; the laws that
relate several instructions are the public `lemma_*` proof functions.
