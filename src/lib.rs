//! Boot-time application loader: container parsing, the kernel service
//! table, the application address space, the execution window and the
//! per-application load/execute state machine.

pub mod abi;
pub mod allocator;
pub mod aspace;
pub mod dtb;
pub mod error;
pub mod hasher;
pub mod image;
pub mod loader;
pub mod window;
