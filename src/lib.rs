//! An automated market maker core: 256-bit unsigned arithmetic, weighted
//! fixed-point pool math, a constant-product pool with LP accounting, and the
//! decisions of the weighted, oracle-bounded swaps.
pub mod address;
pub mod error;
pub mod fixed;
pub mod liquidity;
pub mod lp;
pub mod math;
pub mod oracle;
pub mod order;
pub mod pool;
pub mod transfer;
pub mod uint;
pub mod weighted;
