//! A verified CHIP-8 virtual machine core.
//!
//! The crate models the four state containers of the machine — addressable
//! memory with the embedded glyph font, the register/stack file of the CPU,
//! the monochrome pixel framebuffer with its XOR sprite blit, and the
//! timer/keyboard latches — together with the fetch-decode-execute cycle
//! that mutates them.  Every instruction's effect is stated as a contract
//! and proved.  Windowing, rendering and input mapping live outside the
//! library and talk to it through plain values.

pub mod cpu;
pub mod display_module;
pub mod keyboard_module;
pub mod memory;
pub mod timer_module;
