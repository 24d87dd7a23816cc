//! Accounting and pricing engine of a concentrated-liquidity exchange.
//!
//! Prices are fixed-point integers: a value `v` stands for the real number
//! `v / SCALE`. Every amount is an unsigned integer, and every division
//! truncates towards zero at the place where the contract of the function
//! says so.

pub mod errors;
pub mod wide;
pub mod math;
pub mod position;
pub mod balance;
pub mod pool;
pub mod action;
pub mod exchange;
pub mod dispatch;
pub mod royalty;
