//! The view of the CPU that the debugger works through.
use vstd::prelude::*;

verus! {

/// One load on the memory bus, with its address
#[derive(Clone, Copy, Debug, PartialEq, Eq, Structural)]
pub enum Access {
    Byte(u32),
    Half(u32),
    Word(u32),
}

/// Register file and memory bus of the emulated CPU. The spec functions
/// model the CPU's state: the register values, and the log of the
/// loads made on its bus with the values they returned. An
/// implementation verified against this trait defines them from its
/// own state; the bodies given here only stand for an implementation
/// that is not.
pub trait Cpu {
    /// The 32 general purpose registers
    closed spec fn regs_spec(&self) -> Seq<u32> {
        Seq::empty()
    }

    closed spec fn sr_spec(&self) -> u32 {
        0
    }

    closed spec fn lo_spec(&self) -> u32 {
        0
    }

    closed spec fn hi_spec(&self) -> u32 {
        0
    }

    closed spec fn bad_spec(&self) -> u32 {
        0
    }

    closed spec fn cause_spec(&self) -> u32 {
        0
    }

    closed spec fn pc_spec(&self) -> u32 {
        0
    }

    /// Loads made on the bus so far, oldest first, with their values
    closed spec fn bus_log(&self) -> Seq<(Access, u32)> {
        Seq::empty()
    }

    /// The 32 general purpose registers
    fn regs(&self) -> (r: &[u32; 32])
        ensures
            r@ == self.regs_spec(),
    ;

    /// Status register of coprocessor 0
    fn sr(&self) -> (r: u32)
        ensures
            r == self.sr_spec(),
    ;

    /// LO register of the multiply/divide unit
    fn lo(&self) -> (r: u32)
        ensures
            r == self.lo_spec(),
    ;

    /// HI register of the multiply/divide unit
    fn hi(&self) -> (r: u32)
        ensures
            r == self.hi_spec(),
    ;

    /// Bad virtual address register of coprocessor 0
    fn bad(&self) -> (r: u32)
        ensures
            r == self.bad_spec(),
    ;

    /// Cause register of coprocessor 0
    fn cause(&self) -> (r: u32)
        ensures
            r == self.cause_spec(),
    ;

    /// Program counter
    fn pc(&self) -> (r: u32)
        ensures
            r == self.pc_spec(),
    ;

    /// Load a byte from the bus
    fn load8(&mut self, addr: u32) -> (r: u8)
        ensures
            final(self).bus_log() == old(self).bus_log().push((Access::Byte(addr), r as u32)),
    ;

    /// Load a halfword from the bus
    fn load16(&mut self, addr: u32) -> (r: u16)
        ensures
            final(self).bus_log() == old(self).bus_log().push((Access::Half(addr), r as u32)),
    ;

    /// Load a word from the bus
    fn load32(&mut self, addr: u32) -> (r: u32)
        ensures
            final(self).bus_log() == old(self).bus_log().push((Access::Word(addr), r)),
    ;

    /// Restart execution at `pc`
    fn force_pc(&mut self, pc: u32)
        ensures
            final(self).pc_spec() == pc,
            final(self).bus_log() == old(self).bus_log(),
    ;
}

} // verus!
