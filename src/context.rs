use crate::registers::Registers;
use crate::stack::Stack;
use vstd::prelude::*;

verus! {

/// A task: its saved registers, its stack, its entry function and its
/// identifier.
pub struct Context<F> {
    pub regs: Registers,
    pub stack: Stack,
    pub entry: F,
    pub id: u64,
}

impl<F> Context<F> {
    /// The same task with `regs` as its saved registers.
    pub open spec fn with_regs(self, regs: Registers) -> Self {
        Context { regs, ..self }
    }

    /// Whether this is the task that `new` builds from these arguments.
    pub open spec fn is_fresh(self, entry: F, stack: Stack, id: u64, trampoline: u64) -> bool {
        &&& self.regs.slots@ == Registers::fresh((stack.base + stack.size) as u64, trampoline)
        &&& self.stack == stack
        &&& self.entry == entry
        &&& self.id == id
    }

    /// A task that has not run yet: it starts at `trampoline` with its
    /// stack pointer at the top of `stack`.
    pub fn new(entry: F, stack: Stack, id: u64, trampoline: u64) -> (r: Self)
        requires
            stack.wf(),
        ensures
            r.is_fresh(entry, stack, id, trampoline),
    {
        let regs = Registers::new(stack.top() as u64, trampoline);
        Context { regs, stack, entry, id }
    }

    pub fn get_regs(&self) -> (r: &Registers)
        ensures
            *r == self.regs,
    {
        &self.regs
    }

    pub fn get_regs_mut(&mut self) -> (r: &mut Registers)
        ensures
            *r == old(self).regs,
            final(self).regs == *final(r),
            final(self).stack == old(self).stack,
            final(self).entry == old(self).entry,
            final(self).id == old(self).id,
    {
        &mut self.regs
    }
}

} // verus!
