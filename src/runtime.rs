use std::collections::HashMap;
use std::collections::HashSet;
use vstd::prelude::*;
use crate::context::Context;
use crate::mailbox::{MappedList, enqueued, dequeued, head_of, no_empty_queue};
use crate::registers::Registers;
use crate::stack::Stack;

verus! {

broadcast use vstd::std_specs::hash::group_hash_axioms;

/// Relies on rand::random: it returns a value drawn from the thread-local
/// generator. Nothing is known of the value.
pub assume_specification<T>[ rand::random::<T> ]() -> (r: T)
    where
        rand::distributions::Standard: rand::distributions::Distribution<T>,
;

/// The identifiers of a sequence of tasks, in order.
pub open spec fn ids_in<F>(q: Seq<Context<F>>) -> Seq<u64> {
    q.map_values(|c: Context<F>| c.id)
}

/// One round-robin step: the front moves to the back. A queue of fewer
/// than two entries stays as it is.
pub open spec fn rotated<A>(q: Seq<A>) -> Seq<A> {
    if q.len() < 2 {
        q
    } else {
        q.drop_first().push(q[0])
    }
}

/// The abstract state of the runtime.
pub struct RuntimeView<F> {
    /// Runnable tasks; the front is the one executing.
    pub runnable: Seq<Context<F>>,
    /// Tasks blocked in a receive, by identifier.
    pub waiting: Map<u64, Context<F>>,
    /// Pending messages, by recipient.
    pub mailbox: Map<u64, Seq<u64>>,
    /// Identifiers of live tasks.
    pub ids: Set<u64>,
    /// The stack of a task that has exited and is not yet released.
    pub unused: Option<Stack>,
    /// The host's register snapshot, taken at bootstrap.
    pub main: Option<Registers>,
}

impl<F> RuntimeView<F> {
    pub open spec fn runnable_ids(self) -> Seq<u64> {
        ids_in(self.runnable)
    }

    /// The runtime's invariants: identifiers are unique, each waiting task
    /// is filed under its own identifier and is not runnable, and the live
    /// set is exactly the runnable and waiting identifiers.
    pub open spec fn wf(self) -> bool {
        &&& self.runnable_ids().no_duplicates()
        &&& self.waiting.dom().finite()
        &&& forall|k: u64| #[trigger] self.waiting.contains_key(k) ==> self.waiting[k].id == k
        &&& forall|k: u64|
            #[trigger] self.waiting.contains_key(k) ==> !self.runnable_ids().contains(k)
        &&& self.ids == self.runnable_ids().to_set().union(self.waiting.dom())
        &&& no_empty_queue(self.mailbox)
    }

    /// The state after the unused-stack slot is drained.
    pub open spec fn drained(self) -> RuntimeView<F> {
        RuntimeView { unused: None, ..self }
    }

    /// The state with no tasks, no messages and no live identifiers.
    pub open spec fn is_empty(self) -> bool {
        &&& self.runnable.len() == 0
        &&& self.waiting.is_empty()
        &&& self.mailbox.is_empty()
        &&& self.ids.is_empty()
    }
}

/// What a task that asked to receive must do next.
#[derive(Clone, Copy, PartialEq, Eq, Structural, Debug)]
pub enum RecvStep {
    /// No task is running: there is nobody to receive.
    Idle,
    /// The message at the head of the caller's mailbox.
    Message(u64),
    /// The caller is the only runnable task and its mailbox is empty.
    Deadlock,
    /// The caller, with this identifier, now waits; control passes to the
    /// new front of the runnable queue.
    Blocked(u64),
}

/// Where control goes when the running task has finished.
#[derive(Clone, Copy, PartialEq, Eq, Structural, Debug)]
pub enum ExitStep {
    /// To the new front of the runnable queue.
    Next,
    /// Back to the host, whose snapshot the main slot holds.
    Main,
    /// Nowhere: no task is runnable and no host snapshot is held.
    Stranded,
}

/// Why a bootstrap was refused.
#[derive(Clone, Copy, PartialEq, Eq, Structural, Debug)]
pub enum BootstrapError {
    /// A host snapshot is already held: the runtime is running.
    AlreadyRunning,
}

/// The scheduler's tables.
pub struct Runtime<F> {
    runnable: Vec<Context<F>>,
    waiting: HashMap<u64, Context<F>>,
    mailbox: MappedList<u64>,
    ids: HashSet<u64>,
    unused: Option<Stack>,
    main: Option<Registers>,
}

impl<F> View for Runtime<F> {
    type V = RuntimeView<F>;

    closed spec fn view(&self) -> RuntimeView<F> {
        RuntimeView {
            runnable: self.runnable@,
            waiting: self.waiting@,
            mailbox: self.mailbox@,
            ids: self.ids@,
            unused: self.unused,
            main: self.main,
        }
    }
}

proof fn lemma_ids_push<F>(q: Seq<Context<F>>, c: Context<F>)
    ensures
        ids_in(q.push(c)) == ids_in(q).push(c.id),
{
    assert(ids_in(q.push(c)) =~= ids_in(q).push(c.id));
}

proof fn lemma_ids_drop_first<F>(q: Seq<Context<F>>)
    requires
        q.len() > 0,
    ensures
        ids_in(q.drop_first()) == ids_in(q).drop_first(),
{
    assert(ids_in(q.drop_first()) =~= ids_in(q).drop_first());
}

proof fn lemma_push_contains(s: Seq<u64>, x: u64)
    ensures
        forall|y: u64| #[trigger] s.push(x).contains(y) <==> (s.contains(y) || y == x),
{
    assert forall|y: u64| #[trigger] s.push(x).contains(y) <==> (s.contains(y) || y == x) by {
        if s.contains(y) {
            let i = choose|i: int| 0 <= i < s.len() && s[i] == y;
            assert(s.push(x)[i] == y);
        }
        if y == x {
            assert(s.push(x)[s.len() as int] == y);
        }
        if s.push(x).contains(y) {
            let i = choose|i: int| 0 <= i < s.len() + 1 && s.push(x)[i] == y;
            if i < s.len() {
                assert(s[i] == y);
            }
        }
    }
}

proof fn lemma_push_no_duplicates(s: Seq<u64>, x: u64)
    requires
        s.no_duplicates(),
        !s.contains(x),
    ensures
        s.push(x).no_duplicates(),
{
    assert forall|i: int, j: int|
        0 <= i < s.len() + 1 && 0 <= j < s.len() + 1 && i != j implies s.push(x)[i] != s.push(x)[j] by {
        if i < s.len() && j < s.len() {
        } else if i < s.len() {
            assert(s.contains(s[i]));
        } else {
            assert(s.contains(s[j]));
        }
    }
}

proof fn lemma_drop_first(s: Seq<u64>)
    requires
        s.no_duplicates(),
        s.len() > 0,
    ensures
        s.drop_first().no_duplicates(),
        forall|y: u64| #[trigger] s.drop_first().contains(y) <==> (s.contains(y) && y != s[0]),
{
    let t = s.drop_first();
    assert forall|i: int, j: int| 0 <= i < t.len() && 0 <= j < t.len() && i != j implies t[i] != t[j] by {
        assert(t[i] == s[i + 1] && t[j] == s[j + 1]);
    }
    assert forall|y: u64| #[trigger] t.contains(y) <==> (s.contains(y) && y != s[0]) by {
        if t.contains(y) {
            let i = choose|i: int| 0 <= i < t.len() && t[i] == y;
            assert(s[i + 1] == y);
        }
        if s.contains(y) && y != s[0] {
            let i = choose|i: int| 0 <= i < s.len() && s[i] == y;
            assert(t[i - 1] == y);
        }
    }
}

impl<F> Runtime<F> {
    /// The invariants of the abstract state, and those of the mailbox.
    pub closed spec fn wf(&self) -> bool {
        self@.wf()
    }

    /// A well-formed runtime's abstract state meets the invariants that the
    /// laws on `RuntimeView` start from.
    pub proof fn lemma_view_wf(&self)
        requires
            self.wf(),
        ensures
            self@.wf(),
    {
    }

    /// An empty runtime, not yet bootstrapped.
    pub fn new() -> (r: Self)
        ensures
            r.wf(),
            r@.is_empty(),
            r@.unused is None,
            r@.main is None,
    {
        let r = Runtime {
            runnable: Vec::new(),
            waiting: HashMap::new(),
            mailbox: MappedList::new(),
            ids: HashSet::new(),
            unused: None,
            main: None,
        };
        assert(r@.runnable_ids() =~= Seq::<u64>::empty());
        assert(r@.ids =~= r@.runnable_ids().to_set().union(r@.waiting.dom()));
        r
    }

    /// Number of runnable tasks.
    pub fn runnable_len(&self) -> (r: usize)
        ensures
            r == self@.runnable.len(),
    {
        self.runnable.len()
    }

    /// Starts a run: refused while a host snapshot is held; otherwise the
    /// tables are emptied and the main slot holds a blank snapshot, for the
    /// host's registers to be saved into.
    pub fn bootstrap(&mut self) -> (r: Result<(), BootstrapError>)
        requires
            old(self).wf(),
        ensures
            final(self).wf(),
            r is Ok <==> old(self)@.main is None,
            r is Err ==> final(self)@ == old(self)@,
            r is Ok ==> {
                &&& final(self)@.is_empty()
                &&& final(self)@.unused == old(self)@.unused
                &&& final(self)@.main matches Some(m) && m.slots@ == Registers::fresh(0, 0)
            },
    {
        if self.main.is_some() {
            return Err(BootstrapError::AlreadyRunning);
        }
        self.runnable.clear();
        self.waiting.clear();
        self.mailbox.clear();
        self.ids.clear();
        self.main = Some(Registers::new(0, 0));
        proof {
            assert(self@.runnable_ids() =~= Seq::<u64>::empty());
            assert(self@.ids =~= self@.runnable_ids().to_set().union(self@.waiting.dom()));
        }
        Ok(())
    }

    /// The host's snapshot, for saving the host's registers into.
    pub fn main_regs_mut(&mut self) -> (r: &mut Registers)
        requires
            old(self)@.main is Some,
        ensures
            *r == old(self)@.main->0,
            final(self)@ == (RuntimeView { main: Some(*final(r)), ..old(self)@ }),
            final(self).wf() == old(self).wf(),
    {
        self.main.as_mut().unwrap()
    }

    /// The host's snapshot, to restore when no task is left.
    pub fn main_regs(&self) -> (r: Option<&Registers>)
        ensures
            r matches Some(m) ==> self@.main == Some(*m),
            r is None <==> self@.main is None,
    {
        match &self.main {
            Some(m) => Some(m),
            None => None,
        }
    }

    /// The running task's snapshot, for saving its registers into.
    pub fn current_regs_mut(&mut self) -> (r: &mut Registers)
        requires
            old(self)@.runnable.len() > 0,
        ensures
            *r == old(self)@.runnable[0].regs,
            final(self)@ == (RuntimeView {
                runnable: old(self)@.runnable.update(0, old(self)@.runnable[0].with_regs(*final(r))),
                ..old(self)@
            }),
            final(self).wf() == old(self).wf(),
    {
        proof {
            let q = self@.runnable;
            assert forall|x: Registers|
                #[trigger] ids_in(q.update(0, q[0].with_regs(x))) == ids_in(q) by {
                assert(ids_in(q.update(0, q[0].with_regs(x))) =~= ids_in(q));
            }
        }
        let c = &mut self.runnable[0];
        c.get_regs_mut()
    }

    /// The running task's snapshot, to restore into.
    pub fn current_regs(&self) -> (r: &Registers)
        requires
            self@.runnable.len() > 0,
        ensures
            *r == self@.runnable[0].regs,
    {
        self.runnable[0].get_regs()
    }

    /// The running task's entry function.
    pub fn current_entry(&self) -> (r: &F)
        requires
            self@.runnable.len() > 0,
        ensures
            *r == self@.runnable[0].entry,
    {
        &self.runnable[0].entry
    }

    /// The running task's identifier, if a task is running.
    pub fn current_id(&self) -> (r: Option<u64>)
        ensures
            self@.runnable.len() > 0 ==> r == Some(self@.runnable[0].id),
            self@.runnable.len() == 0 ==> r is None,
    {
        if self.runnable.len() > 0 {
            Some(self.runnable[0].id)
        } else {
            None
        }
    }

    /// One round-robin step: the running task goes to the back of the
    /// runnable queue. Returns whether another task is now at the front;
    /// with fewer than two runnable tasks nothing changes.
    pub fn schedule(&mut self) -> (switched: bool)
        requires
            old(self).wf(),
        ensures
            final(self).wf(),
            switched == (old(self)@.runnable.len() >= 2),
            final(self)@ == (RuntimeView { runnable: rotated(old(self)@.runnable), ..old(self)@ }),
    {
        if self.runnable.len() < 2 {
            return false;
        }
        let ghost q = self@.runnable;
        let c = self.runnable.remove(0);
        self.runnable.push(c);
        proof {
            assert(self@.runnable =~= rotated(q));
            let s = ids_in(q);
            lemma_ids_drop_first(q);
            lemma_ids_push(q.drop_first(), q[0]);
            lemma_drop_first(s);
            lemma_push_no_duplicates(s.drop_first(), s[0]);
            lemma_push_contains(s.drop_first(), s[0]);
            assert(self@.runnable_ids().to_set() =~= s.to_set());
        }
        true
    }

    /// Whether `candidate` is free to name a new task.
    pub fn id_available(&self, candidate: u64) -> (r: bool)
        ensures
            r == !self@.ids.contains(candidate),
    {
        !self.ids.contains(&candidate)
    }

    /// Adds a new task under the free identifier `id` at the back of the
    /// runnable queue. It will start at `trampoline` on `stack`.
    pub fn spawn_as(&mut self, id: u64, entry: F, stack: Stack, trampoline: u64)
        requires
            old(self).wf(),
            stack.wf(),
            !old(self)@.ids.contains(id),
        ensures
            final(self).wf(),
            final(self)@.runnable.len() == old(self)@.runnable.len() + 1,
            final(self)@.runnable.drop_last() == old(self)@.runnable,
            final(self)@.runnable.last().is_fresh(entry, stack, id, trampoline),
            final(self)@ == (RuntimeView {
                runnable: final(self)@.runnable,
                ids: old(self)@.ids.insert(id),
                ..old(self)@
            }),
    {
        let ghost q = self@.runnable;
        let c = Context::new(entry, stack, id, trampoline);
        self.runnable.push(c);
        self.ids.insert(id);
        proof {
            let s = ids_in(q);
            lemma_ids_push(q, c);
            assert(!s.to_set().contains(id));
            lemma_push_no_duplicates(s, id);
            lemma_push_contains(s, id);
            assert(self@.runnable.drop_last() =~= q);
            assert(self@.ids =~= self@.runnable_ids().to_set().union(self@.waiting.dom()));
        }
    }

    /// Adds a new task under an identifier drawn at random, drawing again
    /// while the draw is taken. Gives up, changing nothing, only after
    /// `u64::MAX` taken draws in a row.
    pub fn spawn(&mut self, entry: F, stack: Stack, trampoline: u64) -> (r: Option<u64>)
        requires
            old(self).wf(),
            stack.wf(),
        ensures
            final(self).wf(),
            old(self)@.ids.is_empty() ==> r is Some,
            match r {
                Some(id) => {
                    &&& !old(self)@.ids.contains(id)
                    &&& final(self)@.runnable.len() == old(self)@.runnable.len() + 1
                    &&& final(self)@.runnable.drop_last() == old(self)@.runnable
                    &&& final(self)@.runnable.last().is_fresh(entry, stack, id, trampoline)
                    &&& final(self)@ == (RuntimeView {
                        runnable: final(self)@.runnable,
                        ids: old(self)@.ids.insert(id),
                        ..old(self)@
                    })
                },
                None => final(self)@ == old(self)@,
            },
    {
        let mut attempts: u64 = 0;
        while attempts < u64::MAX
            invariant
                self.wf(),
                self@ == old(self)@,
                stack.wf(),
                old(self)@.ids.is_empty() ==> attempts == 0,
            decreases u64::MAX - attempts,
        {
            let candidate: u64 = rand::random::<u64>();
            if self.id_available(candidate) {
                self.spawn_as(candidate, entry, stack, trampoline);
                return Some(candidate);
            }
            attempts = attempts + 1;
        }
        None
    }

    /// Delivers `msg` to the mailbox of `key`. A task waiting under `key`
    /// becomes runnable, at the back of the queue.
    pub fn send(&mut self, key: u64, msg: u64)
        requires
            old(self).wf(),
        ensures
            final(self).wf(),
            final(self)@.mailbox == enqueued(old(self)@.mailbox, key, msg),
            old(self)@.waiting.contains_key(key) ==> {
                &&& final(self)@.runnable == old(self)@.runnable.push(old(self)@.waiting[key])
                &&& final(self)@.waiting == old(self)@.waiting.remove(key)
            },
            !old(self)@.waiting.contains_key(key) ==> {
                &&& final(self)@.runnable == old(self)@.runnable
                &&& final(self)@.waiting == old(self)@.waiting
            },
            final(self)@.ids == old(self)@.ids,
            final(self)@.unused == old(self)@.unused,
            final(self)@.main == old(self)@.main,
    {
        let ghost v = self@;
        self.mailbox.push_back(key, msg);
        match self.waiting.remove(&key) {
            Some(c) => {
                self.runnable.push(c);
                proof {
                    let s = ids_in(v.runnable);
                    lemma_ids_push(v.runnable, c);
                    assert(v.waiting.contains_key(key));
                    lemma_push_no_duplicates(s, key);
                    lemma_push_contains(s, key);
                    assert(self@.ids =~= self@.runnable_ids().to_set().union(self@.waiting.dom()));
                }
            },
            None => {
                assert(self@.waiting =~= v.waiting);
            },
        }
    }

    /// Receiving, for the running task: takes the head of its mailbox;
    /// with an empty mailbox, moves it to the waiting table, unless it is
    /// the only runnable task, which is a deadlock.
    pub fn recv(&mut self) -> (r: RecvStep)
        requires
            old(self).wf(),
        ensures
            final(self).wf(),
            old(self)@.runnable.len() == 0 ==> r == RecvStep::Idle && final(self)@ == old(self)@,
            old(self)@.runnable.len() > 0 ==> {
                let key = old(self)@.runnable[0].id;
                match head_of(old(self)@.mailbox, key) {
                    Some(m) => {
                        &&& r == RecvStep::Message(m)
                        &&& final(self)@ == (RuntimeView {
                            mailbox: dequeued(old(self)@.mailbox, key),
                            ..old(self)@
                        })
                    },
                    None => if old(self)@.runnable.len() == 1 {
                        &&& r == RecvStep::Deadlock
                        &&& final(self)@ == old(self)@
                    } else {
                        &&& r == RecvStep::Blocked(key)
                        &&& final(self)@ == (RuntimeView {
                            runnable: old(self)@.runnable.drop_first(),
                            waiting: old(self)@.waiting.insert(key, old(self)@.runnable[0]),
                            ..old(self)@
                        })
                    },
                }
            },
    {
        let ghost v = self@;
        if self.runnable.len() == 0 {
            return RecvStep::Idle;
        }
        let key = self.runnable[0].id;
        match self.mailbox.pop_front(key) {
            Some(m) => {
                return RecvStep::Message(m);
            },
            None => {
                assert(self@.mailbox =~= v.mailbox);
                assert(self@ == v);
            },
        }
        if self.runnable.len() == 1 {
            return RecvStep::Deadlock;
        }
        let c = self.runnable.remove(0);
        self.waiting.insert(key, c);
        proof {
            let s = ids_in(v.runnable);
            lemma_ids_drop_first(v.runnable);
            assert(v.runnable.remove(0) =~= v.runnable.drop_first());
            assert(s[0] == key);
            lemma_drop_first(s);
            assert(self@.ids =~= self@.runnable_ids().to_set().union(self@.waiting.dom()));
        }
        RecvStep::Blocked(key)
    }

    /// Takes the head of the mailbox of `id`: what a task that was blocked
    /// in a receive collects once it runs again.
    pub fn pop_message(&mut self, id: u64) -> (r: Option<u64>)
        requires
            old(self).wf(),
        ensures
            final(self).wf(),
            r == head_of(old(self)@.mailbox, id),
            final(self)@ == (RuntimeView { mailbox: dequeued(old(self)@.mailbox, id), ..old(self)@ }),
    {
        self.mailbox.pop_front(id)
    }

    /// The running task has returned from its entry function: it leaves
    /// the runnable queue, its identifier is released and its stack waits
    /// in the unused-stack slot until control has left it.
    pub fn exit_current(&mut self) -> (r: ExitStep)
        requires
            old(self).wf(),
            old(self)@.runnable.len() > 0,
            old(self)@.unused is None,
        ensures
            final(self).wf(),
            final(self)@ == (RuntimeView {
                runnable: old(self)@.runnable.drop_first(),
                ids: old(self)@.ids.remove(old(self)@.runnable[0].id),
                unused: Some(old(self)@.runnable[0].stack),
                ..old(self)@
            }),
            r == (if old(self)@.runnable.len() > 1 {
                ExitStep::Next
            } else if old(self)@.main is Some {
                ExitStep::Main
            } else {
                ExitStep::Stranded
            }),
    {
        let ghost v = self@;
        let c = self.runnable.remove(0);
        self.ids.remove(&c.id);
        self.unused = Some(c.stack);
        proof {
            let s = ids_in(v.runnable);
            lemma_ids_drop_first(v.runnable);
            assert(v.runnable.remove(0) =~= v.runnable.drop_first());
            lemma_drop_first(s);
            assert(self@.ids =~= self@.runnable_ids().to_set().union(self@.waiting.dom()));
        }
        if self.runnable.len() > 0 {
            ExitStep::Next
        } else if self.main.is_some() {
            ExitStep::Main
        } else {
            ExitStep::Stranded
        }
    }

    /// Empties the unused-stack slot and hands back what it held, for the
    /// caller to release now that control is on another stack.
    pub fn take_unused_stack(&mut self) -> (r: Option<Stack>)
        requires
            old(self).wf(),
        ensures
            final(self).wf(),
            r == old(self)@.unused,
            final(self)@ == old(self)@.drained(),
    {
        let r = self.unused;
        self.unused = None;
        r
    }

    /// Ends a run: every table is emptied and the main slot cleared. The
    /// unused-stack slot must have been drained first.
    pub fn teardown(&mut self)
        requires
            old(self)@.unused is None,
        ensures
            final(self).wf(),
            final(self)@.is_empty(),
            final(self)@.unused is None,
            final(self)@.main is None,
    {
        self.runnable.clear();
        self.waiting.clear();
        self.mailbox.clear();
        self.ids.clear();
        self.main = None;
        proof {
            assert(self@.runnable_ids() =~= Seq::<u64>::empty());
            assert(self@.ids =~= self@.runnable_ids().to_set().union(self@.waiting.dom()));
        }
    }
}

} // verus!
