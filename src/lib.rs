//! A CHIP-8 virtual machine whose instruction semantics are stated as
//! specification functions and proved for the executable interpreter.

pub mod decode;
pub mod emu;
pub mod error;
pub mod laws;
pub mod machine;

pub use decode::{decode, Instr};
pub use emu::Emu;
pub use error::EmuError;
pub use machine::{SCREEN_HEIGHT, SCREEN_WIDTH};
