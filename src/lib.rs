//! Debug and rendering core of a PlayStation emulator: a GDB remote
//! stub and the primitive-buffering frontend of a hardware rasterizer.

pub mod cpu;
pub mod debugger;
pub mod gpu;
pub mod memory;
pub mod tracer;
