//! A streaming true-peak detector core.
//!
//! The detector is configured by sample rate and channel count. It sizes the
//! scratch region that an oversampling interpolator writes into, checks each
//! window against that size, and folds the oversampled values of every
//! channel into a running per-channel maximum.
//!
//! Samples are carried as `i64` values whose order is the order of the
//! signal's amplitudes. The interpolator itself is not part of this crate.
use vstd::prelude::*;

pub mod detector;
pub mod laws;
pub mod peaks;
