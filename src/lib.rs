//! Disk throughput sampling: aggregate sector counters of the physical block
//! devices, take the difference of two snapshots, and render and classify it.

pub mod units;
pub mod record;
pub mod sampler;
pub mod render;
pub mod poll;
