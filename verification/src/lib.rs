//! Live metric dashboard core: extracts numeric metrics from a stream of text
//! lines, keeps a smoothed, bounded time series per metric key, and supplies
//! the state-transition logic for the surrounding terminal application.
//!
//! Metric values are IEEE-754 double-precision numbers; inside this crate they
//! are carried as their 64-bit encodings, ordered and compared on the bit
//! level, so that every structural property of the store is verified while
//! the actual floating-point arithmetic (parsing numerals, blending for the
//! exponential moving average) is performed by the caller.

pub mod app;
pub mod event;
pub mod extract;
pub mod history;
pub mod keys;
pub mod series;
pub mod value;
