//! A verified model of a kernel's earliest runtime: the privileged-call
//! trampoline, the console built on it, formatted output, a severity-filtered
//! logger, the panic path, the board's exit operations and the boot sequence.
//!
//! Nothing here touches hardware. Every operation works on a
//! [`machine::Machine`], which holds a range of physical memory and records
//! the stores and the privileged calls in the order in which they are to be
//! made. The contracts say exactly which bytes change and which effects are
//! recorded; a driver outside this library performs them.

pub mod board;
pub mod boot;
pub mod console;
pub mod fmt;
pub mod lang_items;
pub mod logging;
pub mod machine;
pub mod memory;
pub mod sbi;

pub use boot::{clear_bss, rust_main};
