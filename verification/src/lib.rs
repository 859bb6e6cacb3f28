//! Statistics over a chronological series of prices.
//!
//! Prices are held as integers in a fixed smallest currency unit, so every
//! computation here is exact; a mean that is not a whole number is returned
//! as an exact [`ratio::Ratio`].

pub mod ratio;
pub mod stats;

pub use ratio::Ratio;
pub use stats::{max, min, n_window_sma, price_diff};
