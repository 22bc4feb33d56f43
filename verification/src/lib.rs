//! A fixed-capacity, page-aligned array that detects out-of-bounds writes by
//! hardware fault rather than software bounds-checking: immediately past its
//! usable storage sits one memory page with all access permissions revoked,
//! so any raw write past the last valid slot raises a memory-protection
//! fault instead of silently corrupting adjacent memory.

pub mod array;
pub mod pages;
pub mod region;

pub use array::GuardedArray;
pub use pages::PAGE_SIZE;
pub use region::Mapping;
pub use region::MappingFailure;
