//! A 64-bit Task State Segment and the exact byte image that the processor reads from it.

pub mod addr;
pub mod tss;

pub use addr::VirtAddr;
pub use tss::TaskStateSegment;
