//! Engine of a cold (air-gapped) shielded wallet: checkpoint search, chain
//! sync planning, note scanning, note selection, unsigned transaction
//! assembly and the coordination of threshold signing rounds.
pub mod chain;
pub mod checkpoint;
pub mod error;
pub mod hexcodec;
pub mod keys;
pub mod multisig;
pub mod sign;
pub mod transact;
pub mod tx;
pub mod units;
