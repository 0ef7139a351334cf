//! Typed, offset-chained access to the memory of another process.
//!
//! The library decides; the caller performs. Every operation is a small state
//! machine that says which bytes to copy next and takes the outcome of each
//! copy as an event, so the whole walk of a pointer chain is verified while the
//! operating-system calls stay with the caller.

pub mod arch;
pub mod bytes;
pub mod error;
pub mod memory;
pub mod process;
pub mod protocol;
pub mod resolve;
pub mod space;
pub mod transfer;
pub mod value;

pub use arch::{Arch, Auto, X32, X64};
pub use process::{Handle, ProcessBlock, ToProcessBlock};
