use vstd::prelude::*;

use crate::dashboard::{event_fits, points_of, records_of, Dashboard, Event, Metrics, Split, MetricReading};
use crate::ordered::{lemma_taken_in_order, OrderedLane};

verus! {

/// A dashboard fed through an ordered lane: the driver emits events without
/// waiting, and they are delivered later, one at a time, in emission order.
pub struct AsyncCallback {
    pub dashboard: Dashboard,
    pub lane: OrderedLane<Event>,
}

impl AsyncCallback {
    /// The dashboard's output is exactly that of the delivered events, in
    /// emission order.
    pub open spec fn wf(&self) -> bool {
        &&& self.lane.wf()
        &&& forall|i: int|
            0 <= i < self.lane.pending@.len() ==> event_fits(
                self.dashboard.metrics,
                #[trigger] self.lane.pending@[i],
            )
        &&& self.dashboard.log@ == records_of(self.dashboard.metrics, self.lane.taken())
        &&& self.dashboard.points@ == points_of(self.dashboard.metrics, self.lane.taken())
    }

    pub open spec fn metrics(&self) -> Metrics {
        self.dashboard.metrics
    }

    pub fn new(metrics: Metrics) -> (r: Self)
        ensures
            r.wf(),
            r.metrics() == metrics,
            r.lane.submitted().len() == 0,
    {
        let r = AsyncCallback { dashboard: Dashboard::new(metrics), lane: OrderedLane::new() };
        assert(r.dashboard.log@ =~= records_of(r.dashboard.metrics, r.lane.taken()));
        assert(r.dashboard.points@ =~= points_of(r.dashboard.metrics, r.lane.taken()));
        r
    }

    /// Emits the readings of one step, one per metric registered for `split`;
    /// returns without delivering.
    pub fn on_step(&mut self, split: Split, readings: Vec<MetricReading>)
        requires
            old(self).wf(),
            readings@.len() == old(self).metrics().of(split).len(),
        ensures
            final(self).wf(),
            final(self).metrics() == old(self).metrics(),
            final(self).lane.submitted() == old(self).lane.submitted().push(
                Event::Step { split, readings },
            ),
            final(self).dashboard == old(self).dashboard,
    {
        self.lane.submit(Event::Step { split, readings });
    }

    /// Emits the end of an epoch of `split`; returns without delivering.
    pub fn on_epoch_end(&mut self, split: Split)
        requires
            old(self).wf(),
        ensures
            final(self).wf(),
            final(self).metrics() == old(self).metrics(),
            final(self).lane.submitted() == old(self).lane.submitted().push(
                Event::EpochEnd { split },
            ),
            final(self).dashboard == old(self).dashboard,
    {
        self.lane.submit(Event::EpochEnd { split });
    }

    /// Delivers the oldest waiting event; returns whether there was one.
    pub fn deliver_next(&mut self) -> (r: bool)
        requires
            old(self).wf(),
        ensures
            final(self).wf(),
            final(self).metrics() == old(self).metrics(),
            final(self).lane.submitted() == old(self).lane.submitted(),
            r == (old(self).lane.pending@.len() > 0),
            r ==> final(self).lane.pending@ == old(self).lane.pending@.drop_first(),
            !r ==> final(self).lane.pending@.len() == 0,
    {
        match self.lane.take_next() {
            None => false,
            Some(e) => {
                let ghost t = self.lane.taken();
                assert(t.drop_last() =~= old(self).lane.taken());
                self.dashboard.on_event(e);
                true
            },
        }
    }

    /// Delivers every waiting event, in emission order; nothing is dropped.
    pub fn drain(&mut self)
        requires
            old(self).wf(),
        ensures
            final(self).wf(),
            final(self).metrics() == old(self).metrics(),
            final(self).lane.submitted() == old(self).lane.submitted(),
            final(self).lane.pending@.len() == 0,
            final(self).dashboard.log@ == records_of(old(self).metrics(), old(self).lane.submitted()),
            final(self).dashboard.points@ == points_of(
                old(self).metrics(),
                old(self).lane.submitted(),
            ),
    {
        while self.lane.num_pending() > 0
            invariant
                self.wf(),
                self.metrics() == old(self).metrics(),
                self.lane.submitted() == old(self).lane.submitted(),
            decreases self.lane.pending@.len(),
        {
            self.deliver_next();
        }
        assert(self.lane.taken() =~= self.lane.submitted());
    }
}

/// The logger output keeps emission order: at every moment it is the output
/// of the first events emitted, each event's records together and in the
/// order the events were emitted.
pub proof fn lemma_log_in_emission_order(c: AsyncCallback)
    requires
        c.wf(),
    ensures
        c.lane.taken().len() <= c.lane.submitted().len(),
        c.dashboard.log@ == records_of(
            c.metrics(),
            c.lane.submitted().subrange(0, c.lane.taken().len() as int),
        ),
{
    lemma_taken_in_order(c.lane);
}

} // verus!
