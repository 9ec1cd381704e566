use vstd::prelude::*;

verus! {

/// Hands out the sequence numbers of one sender: 1 first, then one more each
/// time, never one twice.
#[derive(Debug)]
pub struct SeqAllocator {
    last: i64,
}

impl SeqAllocator {
    /// The last number handed out; 0 before the first.
    pub closed spec fn last_seq(&self) -> int {
        self.last as int
    }

    /// Whether the allocator is in a state that its methods keep.
    pub closed spec fn wf(&self) -> bool {
        self.last >= 0
    }

    /// An allocator that has handed out nothing yet.
    pub fn new() -> (r: SeqAllocator)
        ensures
            r.wf(),
            r.last_seq() == 0,
    {
        SeqAllocator { last: 0 }
    }

    /// The last number handed out; 0 before the first.
    pub fn last(&self) -> (r: i64)
        ensures
            r as int == self.last_seq(),
    {
        self.last
    }

    /// The next sequence number, one more than the last; `None`, with the
    /// allocator unchanged, once the largest 64-bit number has been handed out.
    pub fn allocate(&mut self) -> (r: Option<i64>)
        requires
            old(self).wf(),
        ensures
            final(self).wf(),
            old(self).last_seq() < i64::MAX ==> r == Some((old(self).last_seq() + 1) as i64)
                && final(self).last_seq() == old(self).last_seq() + 1,
            old(self).last_seq() == i64::MAX ==> r is None && final(self).last_seq()
                == old(self).last_seq(),
    {
        if self.last == i64::MAX {
            None
        } else {
            self.last = self.last + 1;
            Some(self.last)
        }
    }
}

/// Numbers handed out one after the other by one allocator are positive and
/// strictly increasing, so none is handed out twice.
pub proof fn lemma_allocations_increase(a0: SeqAllocator, a1: SeqAllocator, a2: SeqAllocator, s1: i64, s2: i64)
    requires
        a0.wf(),
        a1.wf(),
        s1 == a0.last_seq() + 1,
        a1.last_seq() == s1,
        s2 == a1.last_seq() + 1,
        a2.last_seq() == s2,
    ensures
        0 < s1 < s2,
        a0.last_seq() < a2.last_seq(),
{
}

} // verus!
