use vstd::prelude::*;

verus! {

/// Size of a memory page, the unit of stack sizes and of the guard page.
pub const PAGE_SIZE: usize = 4096;

/// A stack size is usable when it is a whole number of pages and holds at
/// least the guard page and one more page.
pub open spec fn stack_size_ok(size: nat) -> bool {
    size % (PAGE_SIZE as nat) == 0 && size >= 2 * PAGE_SIZE
}

pub fn valid_stack_size(size: usize) -> (r: bool)
    ensures
        r == stack_size_ok(size as nat),
{
    size % PAGE_SIZE == 0 && size >= 2 * PAGE_SIZE
}

/// A task's stack region: its lowest address and its size in bytes. It is
/// allocated page-aligned, and its lowest page is the guard page.
#[derive(Clone, Copy, PartialEq, Eq, Structural, Debug)]
pub struct Stack {
    pub base: usize,
    pub size: usize,
}

impl Stack {
    /// Page-aligned, of a usable size, and ending within the address space.
    pub open spec fn wf(self) -> bool {
        &&& self.base as nat % (PAGE_SIZE as nat) == 0
        &&& stack_size_ok(self.size as nat)
        &&& self.base + self.size <= usize::MAX
    }

    /// Describes an allocated region, or `None` where it could not be a stack.
    pub fn new(base: usize, size: usize) -> (r: Option<Stack>)
        ensures
            r matches Some(s) ==> s == (Stack { base, size }),
            r is Some <==> (Stack { base, size }).wf(),
    {
        if base % PAGE_SIZE == 0 && valid_stack_size(size) && base <= usize::MAX - size {
            Some(Stack { base, size })
        } else {
            None
        }
    }

    /// One past the highest byte of the region: the initial stack pointer.
    pub fn top(&self) -> (r: usize)
        requires
            self.wf(),
        ensures
            r == self.base + self.size,
    {
        self.base + self.size
    }

    /// Start and length of the guard page.
    pub fn guard_page(&self) -> (r: (usize, usize))
        ensures
            r == (self.base, PAGE_SIZE),
    {
        (self.base, PAGE_SIZE)
    }

    /// Alignment the region was allocated with.
    pub fn align(&self) -> (r: usize)
        ensures
            r == PAGE_SIZE,
    {
        PAGE_SIZE
    }
}

} // verus!
