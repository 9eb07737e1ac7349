//! Real-time audio routing: device resolution, route validation and planning,
//! per-route sample buffering and channel adaptation, and the start/stop
//! lifecycle of the routes.
//!
//! Samples and every other amplitude-valued quantity (gain, mix ratio, clamp
//! bounds) are carried as the bit patterns of IEEE-754 single-precision
//! numbers, so that all the decisions made here are decisions over integers.
//! The arithmetic on amplitudes is supplied by the caller as two functions.

pub mod adapter;
pub mod buffer;
pub mod config;
pub mod devices;
pub mod error;
pub mod lifecycle;
pub mod logging;
pub mod plan;
pub mod routing;
pub mod scan;
pub mod text;
pub mod wait;

