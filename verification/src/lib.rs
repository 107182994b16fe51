//! Verified core of a controller for LINAK-based motorised desks.
//!
//! Heights are kept in tenths of a millimetre throughout (`6300` is 630 mm,
//! the lowest position of the frame).
pub mod config;
pub mod decimal;
pub mod history;
pub mod position;
pub mod protocol;
pub mod session;
pub mod ui;
pub mod motion;
