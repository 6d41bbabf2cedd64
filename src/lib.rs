pub mod chip8;
pub mod cpu;
pub mod laws;
pub mod model;
mod random;

pub use chip8::Chip8;
