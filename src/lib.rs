//! Sampling of CPU telemetry: the `sensors -j` device report and the per-core
//! frequencies of the processor information file, turned into one snapshot.
pub mod cpu_info;
pub mod json;
pub mod sensors;
pub mod text;
pub mod outside;
