//! A CHIP-8 virtual machine: a 16-bit big-endian instruction decoder, an
//! execution engine over 4096 bytes of memory, sixteen 8-bit registers, an
//! index register and a call stack, and a 64x32 monochrome framebuffer.
//!
//! The decoder and the engine are pure with respect to the host: the only
//! outside effect is the random byte drawn for the `Rand` instruction.
//! Painting the framebuffer onto a terminal is left to the embedding program.

pub mod emulator;
pub mod ops;
pub mod screen;

pub use emulator::Chip8;
pub use emulator::Fault;
pub use ops::Op;
pub use ops::decode;
pub use screen::Screen;
pub use screen::SCREEN_HEIGHT;
pub use screen::SCREEN_WIDTH;
