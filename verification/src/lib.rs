//! A one-feature linear model: price as a function of mileage.
//!
//! The numeric engine works on [`fx::Fx`], a fixed-point number with six
//! decimal places held in an `i64`, so every arithmetic step has an exact
//! integer meaning that the contracts state in full: addition, subtraction,
//! multiplication and division saturate at the `i64` range and truncate
//! toward zero, as [`fx::sat`] and [`fx::tdiv`] define.
//!
//! - [`model`] holds the persisted parameter record, normalization and
//!   prediction;
//! - [`stats`] computes a dataset's mean and population standard deviation;
//! - [`train`] runs fixed-iteration batch gradient descent;
//! - [`eval`] scores a fitted model against a dataset;
//! - [`codec`] writes the record out as structured text and reads it back,
//!   with a proved lossless round trip.
//!
//! Reading tabular input, writing the record to disk, command-line handling
//! and plotting are collaborators outside this crate: they hand the library
//! plain values and take plain values back.

pub mod fx;
pub mod model;
pub mod stats;
pub mod train;
pub mod eval;
pub mod codec;
