use vstd::prelude::*;

verus! {

/// Interrupt sources of the console
#[derive(Clone, Copy, Debug, PartialEq, Eq, Structural)]
pub enum Interrupt {
    /// Display in vertical blanking
    VBlank,
}

/// Bit index of an interrupt in the status and mask registers
pub open spec fn interrupt_index(which: Interrupt) -> u16 {
    match which {
        Interrupt::VBlank => 0,
    }
}

impl Interrupt {
    /// Bit of this interrupt in the status and mask registers
    pub fn bit(self) -> (r: u16)
        ensures
            r == 1u16 << interrupt_index(self),
    {
        match self {
            Interrupt::VBlank => 1u16 << 0u16,
        }
    }
}

#[derive(Clone, Copy, Debug)]
pub struct InterruptState {
    /// Interrupt status
    status: u16,
    /// Interrupt mask
    mask: u16,
}

impl InterruptState {
    pub closed spec fn status_spec(self) -> u16 {
        self.status
    }

    pub closed spec fn mask_spec(self) -> u16 {
        self.mask
    }

    pub fn new() -> (r: InterruptState)
        ensures
            r.status_spec() == 0,
            r.mask_spec() == 0,
    {
        InterruptState { status: 0, mask: 0 }
    }

    /// Return true if at least one interrupt is active and not masked
    pub fn active(self) -> (r: bool)
        ensures
            r == (self.status_spec() & self.mask_spec() != 0),
    {
        (self.status & self.mask) != 0
    }

    pub fn status(self) -> (r: u16)
        ensures
            r == self.status_spec(),
    {
        self.status
    }

    /// Acknowledge interrupts by writing 0 to the corresponding bit
    pub fn ack(&mut self, ack: u16)
        ensures
            final(self).status_spec() == old(self).status_spec() & ack,
            final(self).mask_spec() == old(self).mask_spec(),
    {
        self.status = self.status & ack;
    }

    pub fn mask(self) -> (r: u16)
        ensures
            r == self.mask_spec(),
    {
        self.mask
    }

    pub fn set_mask(&mut self, mask: u16)
        ensures
            final(self).mask_spec() == mask,
            final(self).status_spec() == old(self).status_spec(),
    {
        self.mask = mask;
    }

    /// Raise the status bit of interrupt `which`
    pub fn set_high(&mut self, which: Interrupt)
        ensures
            final(self).status_spec() == old(self).status_spec() | (1u16 << interrupt_index(which)),
            final(self).mask_spec() == old(self).mask_spec(),
    {
        self.status = self.status | which.bit();
    }
}

} // verus!
