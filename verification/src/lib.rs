pub mod chip8;
pub mod cpu;
pub mod ram;
