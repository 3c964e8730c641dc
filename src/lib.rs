//! Daily nutrition log: per-date accumulators for calories, water, protein,
//! carbohydrates and fat, with lookup, reset and report rendering.
//!
//! Amounts are fixed-point integers in thousandths of a unit (milli-calories,
//! milli-fluid-ounces, milligrams), so that accumulation is exact.
pub mod order;
pub mod record;
pub mod report;
pub mod store;
pub mod text;
