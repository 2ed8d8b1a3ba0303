//! A verified CHIP-8 virtual machine core.
//!
//! The interpreter state (memory, registers, call stack, program counter,
//! timers, key pad) and the monochrome display surface are plain data with
//! full contracts; the fetch-decode-execute cycle is proved against a
//! specification of every instruction's effect. Terminal rendering and
//! keyboard event polling live outside this crate.

pub mod display;
pub mod keypad;
pub mod memory;
pub mod opcode;
pub mod processor;
pub mod program_counter;
pub mod stack;
pub mod timer;

pub use display::Display;
pub use keypad::Key;
pub use keypad::Keypad;
pub use memory::Memory;
pub use memory::load_font;
pub use opcode::Opcode;
pub use processor::Chip8;
pub use processor::Chip8Error;
pub use processor::CycleOutcome;
pub use program_counter::ProgramCounter;
pub use stack::Stack;
pub use timer::Timer;
