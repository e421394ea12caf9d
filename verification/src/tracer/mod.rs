//! Tracing of steps.

pub mod anomaly;
pub mod export;
pub mod laws;
