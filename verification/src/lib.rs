//! A background activity counter: classifies keyboard and mouse events,
//! aggregates them into a fixed table of named counters with temporal
//! de-duplication and modifier-key logic, and encodes the aggregate for
//! persistence across process restarts.
pub mod codec;
pub mod counter;
pub mod event;
pub mod label;
pub mod laws;
pub mod storage;
