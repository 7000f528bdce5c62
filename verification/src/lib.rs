pub mod chip8;
pub mod error;
pub mod machine;
pub mod opcode;
pub mod sprite;
pub mod timing;
