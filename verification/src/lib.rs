//! A verified interpreter core for a small fixed instruction set: sixteen
//! 8-bit registers, a flat byte-addressable memory, a monochrome bitmap
//! display, a sixteen-key input device and a decrementing delay timer.
//!
//! The fetch/decode/execute engine, the sprite blit with collision
//! detection and the error taxonomy live here; the host window loop,
//! key mapping and file loading are left to the embedding program.

pub mod chip8;
pub mod cpu;
pub mod display;
pub mod error;
pub mod isa;
pub mod keyboard;
pub mod laws;
pub mod ram;

pub use chip8::Chip8;
pub use cpu::Cpu;
pub use cpu::Decode;
pub use cpu::PROGRAM_START_ADDRESS;
pub use cpu::STACK_DEPTH_LIMIT;

pub use display::Display;
pub use display::DISPLAY_CELLS;
pub use display::DISPLAY_HEIGHT;
pub use display::DISPLAY_WIDTH;
pub use error::Chip8Error;
pub use keyboard::Keyboard;
pub use ram::Ram;
pub use ram::MEMORY_SIZE;
