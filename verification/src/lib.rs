//! A CHIP-8 virtual machine core: memory, call stack, display, quirks and
//! the fetch-decode-execute engine, with machine-checked contracts.
//!
//! The core is a deterministic step function. A host owns the clocks and
//! calls [`emulator::Chip8::tick_cpu`] at the instruction rate and
//! [`emulator::Chip8::tick_timers`] at 60 Hz, hands over key events, and
//! presents the display. What every operation does is stated over the
//! mathematical model in [`machine`]; [`laws`] and [`sprite`] hold what
//! follows from it.
//!
//! Where the instruction set leaves the outcome open, the core does this:
//!
//! - A call on a full stack, a return on an empty one, a fetch or a memory
//!   access beyond the 4096 bytes, and the test of a key above `0xF` are
//!   faults. A fault is reported to the host and the tick changes nothing,
//!   so the machine stays at the offending instruction.
//! - An opcode that stands for no instruction is reported and passed over.
//! - The program counter and the index register are 16-bit registers whose
//!   arithmetic wraps.

pub mod emulator;
pub mod keypad;
pub mod laws;
pub mod machine;
pub mod memory;
pub mod quirks;
pub mod sprite;
pub mod stack;
pub mod virtual_buffer;
