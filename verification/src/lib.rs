//! A small stack-based virtual machine: an 8/16-bit bytecode CPU with dual
//! 256-byte ring stacks and a 64 KiB address space, coupled to memory-mapped
//! devices (a System device for debug output and a Video device with a
//! dual-layer framebuffer), and a host VM that routes device I/O.

pub mod arith;
pub mod cpu;
pub mod opcodes;
pub mod stack;
pub mod system;
pub mod video;
pub mod vm;
