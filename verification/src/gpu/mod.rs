//! What the machine offers: reading the reports of the GPU tools.

pub mod detector;

pub use detector::GpuInfo;
