//! A bounded queue of samples.
use vstd::prelude::*;

verus! {

/// A queue of samples in a fixed number of slots.
///
/// Samples are held as the bit patterns of floats. Capacity and fill ceiling are
/// given per ring, because rings want different answers to "what happens when
/// the reader falls behind". Monitoring wants a tight ceiling and is happy to
/// drop: a stale sample is worse than a missing one. A recording wants every
/// sample kept, and enough room that a slow frame cannot cost any.
pub struct Ring {
    slots: Vec<u32>,
    /// The slot of the oldest sample that is waiting.
    head: usize,
    /// How many samples are waiting.
    waiting: usize,
    /// Most samples allowed to wait. Pushes past this are dropped rather than
    /// overwriting what has not been read, so a reader that falls behind loses
    /// the newest sound rather than having the oldest torn out from under it.
    ceiling: usize,
}

/// The slot that is `n` places after slot `head`.
spec fn slot(head: int, n: int, slots: int) -> int {
    if head + n < slots {
        head + n
    } else {
        head + n - slots
    }
}

impl View for Ring {
    type V = Seq<u32>;

    /// The samples that are waiting, oldest first.
    closed spec fn view(&self) -> Seq<u32> {
        Seq::new(
            self.waiting as nat,
            |n: int| self.slots@[slot(self.head as int, n, self.slots@.len() as int)],
        )
    }
}

impl Ring {
    /// What holds of a ring at all times.
    pub closed spec fn wf(self) -> bool {
        &&& self.waiting <= self.ceiling <= self.slots@.len()
        &&& self.slots@.len() > 0 ==> self.head < self.slots@.len()
        &&& self.slots@.len() == 0 ==> self.head == 0
    }

    /// The most samples that may wait.
    pub closed spec fn limit(self) -> nat {
        self.ceiling as nat
    }

    /// No more samples wait than may.
    pub proof fn law_bounded(self)
        requires
            self.wf(),
        ensures
            self@.len() <= self.limit(),
    {
    }

    pub fn new(capacity: usize, ceiling: usize) -> (ring: Self)
        ensures
            ring.wf(),
            ring@ == Seq::<u32>::empty(),
            ring.limit() == (if ceiling < capacity {
                ceiling
            } else {
                capacity
            }),
    {
        let mut slots: Vec<u32> = Vec::new();
        let mut n: usize = 0;
        while n < capacity
            invariant
                n <= capacity,
                slots@.len() == n,
            decreases capacity - n,
        {
            slots.push(0);
            n = n + 1;
        }
        let ring = Ring {
            slots,
            head: 0,
            waiting: 0,
            ceiling: if ceiling < capacity {
                ceiling
            } else {
                capacity
            },
        };
        assert(ring@ =~= Seq::<u32>::empty());
        ring
    }

    /// Samples waiting.
    pub fn len(&self) -> (len: usize)
        ensures
            len == self@.len(),
    {
        self.waiting
    }

    /// Adds a sample. False when the ring was full and the sample was dropped,
    /// which the recording tape cares about and monitoring does not.
    pub fn push(&mut self, sample: u32) -> (taken: bool)
        requires
            old(self).wf(),
        ensures
            final(self).wf(),
            final(self).limit() == old(self).limit(),
            taken == (old(self)@.len() < old(self).limit()),
            final(self)@ == (if taken {
                old(self)@.push(sample)
            } else {
                old(self)@
            }),
    {
        if self.waiting >= self.ceiling {
            return false;
        }
        let room: usize = self.slots.len() - self.head;
        let at: usize = if self.waiting < room {
            self.head + self.waiting
        } else {
            self.waiting - room
        };
        self.slots[at] = sample;
        self.waiting = self.waiting + 1;
        proof {
            assert(at == slot(old(self).head as int, old(self).waiting as int, self.slots@.len() as int));
            assert(self@ =~= old(self)@.push(sample));
        }
        true
    }

    /// Takes the oldest sample. `None` means the ring ran dry.
    pub fn pop(&mut self) -> (sample: Option<u32>)
        requires
            old(self).wf(),
        ensures
            final(self).wf(),
            final(self).limit() == old(self).limit(),
            match sample {
                Some(s) => old(self)@.len() > 0 && s == old(self)@[0] && final(self)@
                    == old(self)@.skip(1),
                None => old(self)@.len() == 0 && final(self)@ == old(self)@,
            },
    {
        if self.waiting == 0 {
            return None;
        }
        let sample: u32 = self.slots[self.head];
        self.head = if self.head < self.slots.len() - 1 {
            self.head + 1
        } else {
            0
        };
        self.waiting = self.waiting - 1;
        assert(self@ =~= old(self)@.skip(1));
        Some(sample)
    }

    /// Throws away whatever is waiting, and says how much that was: pausing a
    /// preview rewinds by exactly that count.
    pub fn clear(&mut self) -> (dropped: usize)
        requires
            old(self).wf(),
        ensures
            final(self).wf(),
            final(self).limit() == old(self).limit(),
            final(self)@ == Seq::<u32>::empty(),
            dropped == old(self)@.len(),
    {
        let dropped: usize = self.waiting;
        self.waiting = 0;
        assert(self@ =~= Seq::<u32>::empty());
        dropped
    }
}

/// The ring once some samples were pushed: it takes them in order for as long as
/// there is room, and drops the rest.
pub open spec fn pushed(waiting: Seq<u32>, limit: nat, samples: Seq<u32>) -> Seq<u32>
    decreases samples.len(),
{
    if samples.len() == 0 {
        waiting
    } else {
        let before = pushed(waiting, limit, samples.drop_last());
        if before.len() < limit {
            before.push(samples.last())
        } else {
            before
        }
    }
}

/// A ring hands samples over in order: what is waiting after some pushes is what
/// waited before, followed by the first of the new samples, as many as fit.
pub proof fn law_ring_keeps_order(waiting: Seq<u32>, limit: nat, samples: Seq<u32>)
    requires
        waiting.len() <= limit,
    ensures
        pushed(waiting, limit, samples) == waiting + samples.take(
            if samples.len() <= limit - waiting.len() {
                samples.len() as int
            } else {
                limit - waiting.len()
            },
        ),
    decreases samples.len(),
{
    if samples.len() > 0 {
        law_ring_keeps_order(waiting, limit, samples.drop_last());
        let room = limit - waiting.len();
        let shorter = samples.drop_last();
        if shorter.len() < room {
            assert(samples.take(samples.len() as int) =~= samples);
            assert(shorter.take(shorter.len() as int) =~= shorter);
            assert(waiting + samples =~= (waiting + shorter).push(samples.last()));
        } else {
            assert(shorter.take(room) =~= samples.take(room));
        }
    } else {
        assert(waiting + samples.take(0) =~= waiting);
    }
}

} // verus!
