//! A small 8-bit virtual machine: 16 general registers, 4 KB of memory, a
//! 64x32 monochrome display, a 16-deep call stack, a 16-key input latch and
//! two countdown timers. The interpreter executes one 2-byte big-endian
//! instruction per step; timers are stepped separately.

pub mod decode;
pub mod laws;
pub mod machine;
pub mod semantics;
pub mod state;
