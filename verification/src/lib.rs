//! A verified model of a small guest program for a minimal hosting kernel.
//!
//! The crate models, as verified code, the pieces such a guest is made of:
//! a register-based syscall gateway ([`gateway`]), typed system operations
//! ([`system`]), a memory-mapped character display ([`screen`]), and the
//! one-shot demo script that drives them ([`script`]).  The kernel on the
//! other side of the trap is modelled by a simulated machine ([`machine`],
//! [`kernel`]) so that every layer, including the trap handler itself, is
//! ordinary verified code that a test harness can run without hardware.

pub mod gateway;
pub mod kernel;
pub mod machine;
pub mod screen;
pub mod script;
pub mod syscall;
pub mod system;
