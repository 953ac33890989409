//! A time-locked vesting module: one deposit of a fungible token, released to
//! the owner in five equal tranches, at most one per elapsed year.

pub mod amount;
pub mod laws;
pub mod locker;

pub use amount::Amount;
pub use locker::{Release, VestingError, VestingLocker, VestingRecord};
