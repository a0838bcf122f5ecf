//! Debugger interface and the GDB remote stub.
use vstd::prelude::*;

use crate::cpu::Cpu;

pub mod gdb;
pub mod hex;
pub mod packet;
pub mod reply;

verus! {

/// Trait defining the debugger interface
pub trait Debugger {
    /// Signal a "break" which will put the emulator in debug mode at
    /// the next instruction
    fn trigger_break(&mut self);

    /// Called by the CPU when it's about to execute a new
    /// instruction. This function is called before *all* CPU
    /// instructions so it needs to be as fast as possible.
    fn pc_change<C: Cpu>(&mut self, cpu: &mut C);

    /// Called by the CPU when it's about to load a value from memory.
    fn memory_read<C: Cpu>(&mut self, cpu: &mut C, addr: u32);

    /// Called by the CPU when it's about to write a value to memory.
    fn memory_write<C: Cpu>(&mut self, cpu: &mut C, addr: u32);

    /// Leave debug mode and let the CPU run again
    fn resume(&mut self);
}

/// Dummy debugger implementation that does nothing. Can be used when
/// debugging is disabled.
impl Debugger for () {
    fn trigger_break(&mut self) {
    }

    fn pc_change<C: Cpu>(&mut self, _cpu: &mut C) {
    }

    fn memory_read<C: Cpu>(&mut self, _cpu: &mut C, _addr: u32) {
    }

    fn memory_write<C: Cpu>(&mut self, _cpu: &mut C, _addr: u32) {
    }

    fn resume(&mut self) {
    }
}

} // verus!
