use std::collections::HashMap;
use std::collections::VecDeque;
use vstd::prelude::*;

verus! {

broadcast use vstd::std_specs::hash::group_hash_axioms;

/// The queue that `m` holds for `id`; empty where it holds none.
pub open spec fn queue_of<T>(m: Map<u64, Seq<T>>, id: u64) -> Seq<T> {
    if m.contains_key(id) {
        m[id]
    } else {
        Seq::empty()
    }
}

/// `m` after `v` is appended to the queue of `id`.
pub open spec fn enqueued<T>(m: Map<u64, Seq<T>>, id: u64, v: T) -> Map<u64, Seq<T>> {
    m.insert(id, queue_of(m, id).push(v))
}

/// The value at the head of the queue of `id`, if any.
pub open spec fn head_of<T>(m: Map<u64, Seq<T>>, id: u64) -> Option<T> {
    if queue_of(m, id).len() > 0 {
        Some(queue_of(m, id)[0])
    } else {
        None
    }
}

/// `m` after the head of the queue of `id` is taken off; a queue that
/// becomes empty is dropped.
pub open spec fn dequeued<T>(m: Map<u64, Seq<T>>, id: u64) -> Map<u64, Seq<T>> {
    if queue_of(m, id).len() <= 1 {
        m.remove(id)
    } else {
        m.insert(id, queue_of(m, id).drop_first())
    }
}

/// No identifier is mapped to an empty queue.
pub open spec fn no_empty_queue<T>(m: Map<u64, Seq<T>>) -> bool {
    forall|k: u64| #[trigger] m.contains_key(k) ==> m[k].len() > 0
}

/// Per-identifier FIFO queues.
pub struct MappedList<T> {
    map: HashMap<u64, VecDeque<T>>,
}

impl<T> View for MappedList<T> {
    type V = Map<u64, Seq<T>>;

    closed spec fn view(&self) -> Map<u64, Seq<T>> {
        self.map@.map_values(|q: VecDeque<T>| q@)
    }
}

impl<T> MappedList<T> {
    /// No identifier holds an empty queue.
    pub open spec fn wf(&self) -> bool {
        no_empty_queue(self@)
    }

    pub fn new() -> (r: Self)
        ensures
            r.wf(),
            r@ == Map::<u64, Seq<T>>::empty(),
    {
        let r = MappedList { map: HashMap::new() };
        assert(r@ =~= Map::<u64, Seq<T>>::empty());
        r
    }

    /// Appends `value` to the queue of `id`.
    pub fn push_back(&mut self, id: u64, value: T)
        requires
            old(self).wf(),
        ensures
            final(self).wf(),
            final(self)@ == enqueued(old(self)@, id, value),
    {
        match self.map.remove(&id) {
            Some(mut list) => {
                list.push_back(value);
                self.map.insert(id, list);
            },
            None => {
                let mut list = VecDeque::new();
                list.push_back(value);
                self.map.insert(id, list);
            },
        }
        assert(self@ =~= enqueued(old(self)@, id, value));
    }

    /// Takes the head of the queue of `id`.
    pub fn pop_front(&mut self, id: u64) -> (r: Option<T>)
        requires
            old(self).wf(),
        ensures
            final(self).wf(),
            r == head_of(old(self)@, id),
            final(self)@ == dequeued(old(self)@, id),
    {
        match self.map.remove(&id) {
            Some(mut list) => {
                let r = list.pop_front();
                if list.len() > 0 {
                    self.map.insert(id, list);
                }
                assert(self@ =~= dequeued(old(self)@, id));
                r
            },
            None => {
                assert(self@ =~= dequeued(old(self)@, id));
                None
            },
        }
    }

    /// Drops every queue.
    pub fn clear(&mut self)
        ensures
            final(self).wf(),
            final(self)@ == Map::<u64, Seq<T>>::empty(),
    {
        self.map.clear();
        assert(self@ =~= Map::<u64, Seq<T>>::empty());
    }
}

} // verus!
