//! Copies Unix permission bits from one class (user, group or other) to
//! others, following a transfer specification such as `u-g` or `g-uo`.
pub mod laws;
pub mod parse;
pub mod render;
pub mod report;
pub mod subject;
pub mod transform;
