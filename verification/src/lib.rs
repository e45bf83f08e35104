//! A minimal bump (arena) allocator, modelled over integer addresses.
//!
//! The allocator hands out monotonically increasing offsets from a fixed
//! backing region and never reclaims individual blocks.  The address
//! arithmetic, the exhaustion policy and the no-op release are all stated
//! as contracts and proved.

pub mod bump;
pub mod demo;

pub use bump::align_up;
pub use bump::BumpAllocator;
pub use demo::allocate_example;
