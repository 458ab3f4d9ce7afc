pub mod cpu;
pub mod machine;

pub use cpu::CPU;
pub use machine::CpuError;
