use vstd::prelude::*;

verus! {

/// A single ordered hand-off lane: work is submitted by the producer and
/// carried out later, one item at a time, strictly in submission order.
pub struct OrderedLane<T> {
    pub pending: Vec<T>,
    pub taken: Ghost<Seq<T>>,
    pub submitted: Ghost<Seq<T>>,
}

impl<T> OrderedLane<T> {
    /// Everything submitted so far, in submission order.
    pub open spec fn submitted(&self) -> Seq<T> {
        self.submitted@
    }

    /// What was taken out to be carried out, oldest first.
    pub open spec fn taken(&self) -> Seq<T> {
        self.taken@
    }

    /// Nothing is lost or reordered: what was taken out, followed by what
    /// still waits, is exactly what was submitted.
    pub open spec fn wf(&self) -> bool {
        self.taken@ + self.pending@ == self.submitted@
    }

    pub fn new() -> (r: Self)
        ensures
            r.wf(),
            r.submitted() == Seq::<T>::empty(),
            r.pending@ == Seq::<T>::empty(),
            r.taken() == Seq::<T>::empty(),
    {
        OrderedLane { pending: Vec::new(), taken: Ghost(Seq::empty()), submitted: Ghost(Seq::empty()) }
    }

    /// Hands `item` off; it returns at once.
    pub fn submit(&mut self, item: T)
        requires
            old(self).wf(),
        ensures
            final(self).wf(),
            final(self).submitted() == old(self).submitted().push(item),
            final(self).pending@ == old(self).pending@.push(item),
            final(self).taken() == old(self).taken(),
    {
        let ghost before = self.submitted@;
        self.pending.push(item);
        self.submitted = Ghost(before.push(item));
        assert(self.taken@ + self.pending@ =~= self.submitted@);
    }

    /// The number of items that wait.
    pub fn num_pending(&self) -> (r: usize)
        ensures
            r == self.pending@.len(),
    {
        self.pending.len()
    }

    /// Takes the oldest waiting item out of the lane, to be carried out.
    pub fn take_next(&mut self) -> (r: Option<T>)
        requires
            old(self).wf(),
        ensures
            old(self).pending@.len() == 0 ==> r is None && *final(self) == *old(self),
            old(self).pending@.len() > 0 ==> r == Some(old(self).pending@[0])
                && final(self).pending@ == old(self).pending@.drop_first()
                && final(self).taken() == old(self).taken().push(old(self).pending@[0])
                && final(self).submitted() == old(self).submitted()
                && final(self).wf(),
    {
        if self.pending.len() == 0 {
            None
        } else {
            let item = self.pending.remove(0);
            let ghost t = self.taken@;
            self.taken = Ghost(t.push(item));
            assert(self.pending@ =~= old(self).pending@.drop_first());
            assert(self.taken@ + self.pending@ =~= self.submitted@);
            Some(item)
        }
    }
}

/// Work is carried out in submission order: in every well-formed lane, what
/// was taken out is a prefix of what was submitted, and the `i`-th item taken
/// is the `i`-th submitted.
pub proof fn lemma_taken_in_order<T>(lane: OrderedLane<T>)
    requires
        lane.wf(),
    ensures
        lane.taken().len() <= lane.submitted().len(),
        lane.taken() == lane.submitted().subrange(0, lane.taken().len() as int),
        forall|i: int| 0 <= i < lane.taken().len() ==> lane.taken()[i] == lane.submitted()[i],
{
    assert(lane.taken() =~= (lane.taken() + lane.pending@).subrange(
        0,
        lane.taken().len() as int,
    ));
}

} // verus!
