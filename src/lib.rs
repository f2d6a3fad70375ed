//! A cooperative green-thread runtime with actor-style mailboxes, as a
//! verified state machine.
//!
//! The library decides: which task runs next, where a blocked task waits,
//! which messages a task receives, which identifiers are live and which
//! stack may be released. The machine-level work (saving and restoring
//! registers, allocating stacks and protecting their guard pages) is done
//! by the program that drives these decisions.
mod context;
mod laws;
mod mailbox;
mod registers;
mod runtime;
mod stack;

pub use context::Context;
pub use laws::{
    lemma_drain_idempotent, lemma_fifo_delivery, lemma_live_count, lemma_round_robin,
    lemma_send_isolated, lemma_waiting_is_live, rotated_n,
};
pub use mailbox::{dequeued, enqueued, head_of, no_empty_queue, queue_of, MappedList};
pub use registers::{Registers, LINK_SLOT, REGISTER_SLOTS, SP_SLOT};
pub use runtime::{
    ids_in, rotated, BootstrapError, ExitStep, RecvStep, Runtime, RuntimeView,
};
pub use stack::{stack_size_ok, valid_stack_size, Stack, PAGE_SIZE};
