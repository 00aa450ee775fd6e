//! Descriptive statistics over daily closing prices.
//!
//! A closing price travels through this crate as the raw bit pattern of an
//! IEEE 754 double (`f64::to_bits`), so that the verified code can reason
//! about it as a plain 64-bit integer. The [`price`] module defines the
//! numeric order on those bit patterns; [`signals`] holds the four signal
//! calculations (minimum, maximum, price difference, windowed simple moving
//! average); [`quotes`] orders raw quotes by their timestamps.

pub mod price;
pub mod quotes;
pub mod signals;

pub use crate::price::is_nan_bits;
pub use crate::price::is_zero_bits;
pub use crate::price::price_key;
pub use crate::price::F64_MAX_BITS;
pub use crate::price::F64_MIN_BITS;
pub use crate::price::ONE_BITS;
pub use crate::quotes::closing_prices;
pub use crate::quotes::Quote;
pub use crate::signals::max;
pub use crate::signals::min;
pub use crate::signals::n_window_sma;
pub use crate::signals::price_diff;
pub use crate::signals::AsyncStockSignal;
pub use crate::signals::MaxPrice;
pub use crate::signals::MinPrice;
pub use crate::signals::PriceDifference;
pub use crate::signals::PriceDiffTerms;
pub use crate::signals::WindowedSMA;
