//! Block mining: the next block's base fee, the order in which pending
//! transactions are offered, and the admission loop that decides which of
//! them enter a gas-limited block.
pub mod base_fee;
pub mod cursor;
pub mod miner;
pub mod ordering;
pub mod uint;
