use vstd::prelude::*;

verus! {

/// Identity of a task. Two tasks made from one `TaskIds` never share one.
#[derive(Debug, Clone, Copy, PartialEq, Eq, Structural, Hash, PartialOrd, Ord)]
pub struct TaskId(pub u64);

impl TaskId {
    /// The raw value, used as the key of the executor's tables.
    pub fn as_u64(self) -> (r: u64)
        ensures
            r == self.0,
    {
        self.0
    }
}

/// Source of task identities: a counter that only moves forward, so that an
/// identity is never handed out twice, even after its task has finished.
pub struct TaskIds {
    next: u64,
}

impl TaskIds {
    /// The value the next call of `next_id` returns.
    pub closed spec fn next_value(&self) -> u64 {
        self.next
    }

    /// Every identity handed out so far.
    pub open spec fn issued(&self) -> Set<u64> {
        Set::new(|v: u64| v < self.next_value())
    }

    pub fn new() -> (ids: TaskIds)
        ensures
            ids.next_value() == 0,
            ids.issued() == Set::<u64>::empty(),
    {
        let ids = TaskIds { next: 0 };
        assert(ids.issued() =~= Set::<u64>::empty());
        ids
    }

    /// Whether another identity can still be handed out without the counter
    /// wrapping around.
    pub fn can_issue(&self) -> (r: bool)
        ensures
            r == (self.next_value() < u64::MAX),
    {
        self.next < u64::MAX
    }

    /// Hands out a fresh identity, one that was never returned before.
    pub fn next_id(&mut self) -> (id: TaskId)
        requires
            old(self).next_value() < u64::MAX,
        ensures
            id.0 == old(self).next_value(),
            !old(self).issued().contains(id.0),
            final(self).next_value() == old(self).next_value() + 1,
            final(self).issued() == old(self).issued().insert(id.0),
    {
        let id = TaskId(self.next);
        self.next = self.next + 1;
        assert(self.issued() =~= old(self).issued().insert(id.0));
        id
    }
}

} // verus!
