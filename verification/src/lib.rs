//! A market-making quote engine in the Avellaneda-Stoikov style: a rolling
//! window of book-ticker observations with derived analytics, a turnover-based
//! volatility proxy, an inventory-aware quote-offset model, and a
//! stoploss/stopprofit risk state machine.
//!
//! All prices and quantities are plain integers in caller-chosen units, and
//! every derived quantity (weighted mid, imbalance, turnover, offsets,
//! unrealized PnL) is either an exact rational (numerator/denominator pair) or
//! a fixed-point value scaled by [`fixed::SCALE`]. The surrounding binary
//! converts between floating point at the exchange boundary and these
//! representations; everything in this crate is verified exact integer
//! arithmetic.

pub mod engine;
pub mod fixed;
pub mod quote;
pub mod window;
