//! Orbit-period bookkeeping for a swept two-body experiment: the order in
//! which launch velocities are visited, and the detector that turns a stream
//! of per-step angle observations into recorded orbit completions.
pub mod runs;
pub mod sweep;
pub mod tracker;
