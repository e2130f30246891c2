//! Mining coordination engine: difficulty and target arithmetic, the
//! per-worker search state machine and the connection supervisor's decisions.

pub mod bignum;
pub mod difficulty;
pub mod hex;
pub mod block;
pub mod worker;
pub mod supervisor;
pub mod config;
