pub mod fees;
pub mod oracle;
pub mod oracle_ix;
pub mod program;
pub mod state;
pub mod traps;
