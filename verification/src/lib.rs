//! Capture core for a cursor-trajectory recorder: receives normalized
//! pointer positions, suppresses duplicates, groups points into size- or
//! time-bounded segments, and renders each segment as one text line for an
//! append-only sink.

pub mod capture;
pub mod laws;
pub mod segment;
