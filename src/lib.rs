//! Lifecycle management and sensor-report decoding for hot-pluggable game
//! controllers: the registry that diffs one enumeration against the known
//! devices, the per-device read loop decisions, battery bucketing and the
//! online gyro calibration window.

pub mod battery;
pub mod calibration;
pub mod registry;
pub mod listen;
pub mod report;
pub mod wrapper;
