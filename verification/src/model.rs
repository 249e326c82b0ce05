//! The plain values that the emulator exchanges with its callers.

pub mod file;
pub mod memory;
pub mod memory_range;
pub mod register;
pub mod step;

pub use file::FileResponse;
pub use memory::MemoryRangePayload;
pub use memory::MemoryValueResponse;
pub use memory_range::MemoryRange;
pub use register::RegisterValueResponse;
pub use step::StepResponse;
