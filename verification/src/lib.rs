//! A small 8-bit virtual machine: a CHIP-8 style interpreter with a fetch /
//! decode / execute cycle, a 64 x 32 monochrome framebuffer, sixteen byte
//! registers, a call stack, two frame timers and a blocking key-wait
//! instruction.  Every state transition is specified against a mathematical
//! model of the machine and proved.

pub mod binary_op;
pub mod chip_8;
pub mod font;
pub mod keyboard;
pub mod laws;
pub mod loader;
pub mod model;
pub mod rng;

pub use binary_op::BinaryOp;
pub use chip_8::Chip8;
pub use font::Font;
pub use keyboard::Keyboard;
pub use loader::LoadError;
pub use model::ChipState;
pub use model::Fault;
