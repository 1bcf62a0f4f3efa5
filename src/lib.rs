//! Resource sampling for a terminal dashboard: kernel counter parsing,
//! utilization ratios, and fixed-width sliding windows of samples.

pub mod cpu;
pub mod error;
pub mod memory;
pub mod sampling;
pub mod text;
pub mod utilization;
pub mod window;

pub use cpu::{calculate_cpu_usage, cpu_utilization, parse_cpu_lines, parse_cputimes, same_cpus, CpuTimes};
pub use error::ReadError;
pub use memory::{mem_usage_percentage, parse_mem_lines, MemInfo};
pub use sampling::{App, DataSets};
pub use utilization::Utilization;
pub use window::{Sample, SampleBuffer, WINDOW};
