pub mod program;
pub mod state;
