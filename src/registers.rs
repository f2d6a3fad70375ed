use vstd::prelude::*;

verus! {

/// Number of 64-bit slots in a register snapshot: d8..d15, x19..x28, the
/// link register and the stack pointer.
pub const REGISTER_SLOTS: usize = 20;

/// Slot of the link register (x30): where a restore jumps to.
pub const LINK_SLOT: usize = 18;

/// Slot of the stack pointer.
pub const SP_SLOT: usize = 19;

/// The callee-saved register state of a task, laid out as contiguous
/// 64-bit words so that the save and restore routines can index it by
/// offset: d8..d15 in slots 0..8, x19..x28 in slots 8..18, then the link
/// register and the stack pointer.
#[derive(Clone, Copy)]
pub struct Registers {
    pub slots: [u64; REGISTER_SLOTS],
}

impl Registers {
    /// The snapshot of a task that has not run yet: every callee-saved
    /// register zero, `lr` in the link register, `sp` as stack pointer.
    pub open spec fn fresh(sp: u64, lr: u64) -> Seq<u64> {
        Seq::new(REGISTER_SLOTS as nat, |i: int| if i == LINK_SLOT { lr } else if i == SP_SLOT { sp } else { 0 })
    }

    pub fn new(sp: u64, lr: u64) -> (r: Registers)
        ensures
            r.slots@ == Self::fresh(sp, lr),
    {
        let mut slots: [u64; REGISTER_SLOTS] = [0u64; REGISTER_SLOTS];
        slots[LINK_SLOT] = lr;
        slots[SP_SLOT] = sp;
        let r = Registers { slots };
        assert(r.slots@ =~= Self::fresh(sp, lr));
        r
    }

    pub fn link(&self) -> (r: u64)
        ensures
            r == self.slots@[LINK_SLOT as int],
    {
        self.slots[LINK_SLOT]
    }

    pub fn stack_pointer(&self) -> (r: u64)
        ensures
            r == self.slots@[SP_SLOT as int],
    {
        self.slots[SP_SLOT]
    }
}

} // verus!
