//! Benchmark collection for a compiler toolchain: the execution plan of a
//! benchmark, the instrumentation tools, the parsing of counter statistics,
//! the accumulation of measurements into runs, and the interpolation of gaps
//! in the history of results.

pub mod text;
pub mod kinds;
pub mod stats;
pub mod perf_stat;
pub mod profiler;
pub mod patch;
pub mod run;
pub mod measure;
pub mod runner;
pub mod data;
pub mod interpolate;
pub mod fill;
pub mod shim;
pub mod cargo;
pub mod profile;
pub mod select;
pub mod site;
pub mod version;
