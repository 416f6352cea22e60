use vstd::prelude::*;

use crate::checkpoint::{bytes_result, lemma_retention_keeps_latest, latest_index_of, retain_after_save, saves_applied, without_epoch, ArtifactKind, CheckpointError, Checkpointer};
use crate::ordered::{lemma_taken_in_order, OrderedLane};

verus! {

/// A save handed to the background lane of one artifact kind.
pub struct SaveJob {
    pub epoch: usize,
    pub bytes: Vec<u8>,
}

/// A checkpointer whose saves return at once and are written later, one at a
/// time, in the order they were issued.
pub struct AsyncCheckpointer {
    pub inner: Checkpointer,
    pub lane: OrderedLane<SaveJob>,
    /// Epochs whose save has been carried out, in completion order.
    pub completions: Vec<usize>,
}

impl AsyncCheckpointer {
    /// Epochs of every save issued so far, in issue order.
    pub open spec fn issued_epochs(&self) -> Seq<usize> {
        self.lane.submitted().map_values(|j: SaveJob| j.epoch)
    }

    /// The saves still waiting, oldest first, as (epoch, bytes).
    pub open spec fn pending_saves(&self) -> Seq<(usize, Seq<u8>)> {
        self.lane.pending@.map_values(|j: SaveJob| (j.epoch, j.bytes@))
    }

    pub open spec fn wf(&self) -> bool {
        &&& self.inner.wf()
        &&& self.lane.wf()
        &&& self.completions@ == self.lane.taken().map_values(|j: SaveJob| j.epoch)
    }

    pub fn new(inner: Checkpointer) -> (r: Self)
        requires
            inner.wf(),
        ensures
            r.wf(),
            r.inner == inner,
            r.lane.pending@.len() == 0,
            r.issued_epochs().len() == 0,
            r.completions@.len() == 0,
    {
        let r = AsyncCheckpointer { inner, lane: OrderedLane::new(), completions: Vec::new() };
        assert(r.completions@ =~= r.lane.taken().map_values(|j: SaveJob| j.epoch));
        r
    }

    pub fn kind(&self) -> (r: ArtifactKind)
        ensures
            r == self.inner.kind,
    {
        self.inner.kind
    }

    /// Issues a save of `bytes` as the checkpoint of `epoch`; it returns
    /// without writing.
    pub fn save(&mut self, epoch: usize, bytes: Vec<u8>)
        requires
            old(self).wf(),
        ensures
            final(self).wf(),
            final(self).inner == old(self).inner,
            final(self).completions@ == old(self).completions@,
            final(self).issued_epochs() == old(self).issued_epochs().push(epoch),
            final(self).lane.pending@ == old(self).lane.pending@.push(SaveJob { epoch, bytes }),
    {
        let job = SaveJob { epoch, bytes };
        self.lane.submit(job);
        assert(self.issued_epochs() =~= old(self).issued_epochs().push(epoch));
    }

    /// Carries out the oldest issued save that is still waiting. Returns the
    /// epoch written and the epoch that retention pruned, if any.
    pub fn process_next(&mut self) -> (r: Option<(usize, Option<usize>)>)
        requires
            old(self).wf(),
        ensures
            final(self).wf(),
            final(self).issued_epochs() == old(self).issued_epochs(),
            final(self).inner.kind == old(self).inner.kind,
            final(self).inner.num_keep == old(self).inner.num_keep,
            old(self).lane.pending@.len() == 0 ==> r is None && final(self).inner == old(self).inner
                && final(self).completions@ == old(self).completions@,
            old(self).lane.pending@.len() > 0 ==> {
                let job = old(self).lane.pending@[0];
                &&& r is Some
                &&& r->Some_0.0 == job.epoch
                &&& final(self).inner@ == retain_after_save(
                    old(self).inner@,
                    job.epoch,
                    job.bytes@,
                    old(self).inner.num_keep as nat,
                )
                &&& final(self).completions@ == old(self).completions@.push(job.epoch)
                &&& final(self).lane.pending@ == old(self).lane.pending@.drop_first()
            },
    {
        match self.lane.take_next() {
            None => None,
            Some(job) => {
                let epoch = job.epoch;
                let pruned = self.inner.save(epoch, job.bytes);
                self.completions.push(epoch);
                assert(self.completions@ =~= self.lane.taken().map_values(|j: SaveJob| j.epoch));
                assert(self.issued_epochs() =~= old(self).issued_epochs());
                Some((epoch, pruned))
            },
        }
    }

    /// Carries out every waiting save, in issue order: the store ends as if
    /// each had been saved in turn.
    pub fn drain(&mut self)
        requires
            old(self).wf(),
        ensures
            final(self).wf(),
            final(self).inner@ == saves_applied(
                old(self).inner@,
                old(self).pending_saves(),
                old(self).inner.num_keep as nat,
            ),
            final(self).lane.pending@.len() == 0,
            final(self).issued_epochs() == old(self).issued_epochs(),
            final(self).completions@ == final(self).issued_epochs(),
            final(self).inner.kind == old(self).inner.kind,
            final(self).inner.num_keep == old(self).inner.num_keep,
    {
        let ghost jobs = old(self).pending_saves();
        let ghost k: int = 0;
        assert(self.pending_saves() =~= jobs.subrange(0, jobs.len() as int));
        assert(jobs.subrange(0, 0) =~= Seq::<(usize, Seq<u8>)>::empty());
        while self.lane.num_pending() > 0
            invariant
                self.wf(),
                self.issued_epochs() == old(self).issued_epochs(),
                self.inner.kind == old(self).inner.kind,
                self.inner.num_keep == old(self).inner.num_keep,
                0 <= k <= jobs.len(),
                self.pending_saves() == jobs.subrange(k, jobs.len() as int),
                self.inner@ == saves_applied(
                    old(self).inner@,
                    jobs.subrange(0, k),
                    old(self).inner.num_keep as nat,
                ),
            decreases self.lane.pending@.len(),
        {
            assert(self.pending_saves().len() == self.lane.pending@.len());
            let ghost next = self.pending_saves()[0];
            let ghost pre = self.pending_saves();
            assert(next == jobs[k]);
            self.process_next();
            proof {
                assert(jobs.subrange(0, k + 1).drop_last() =~= jobs.subrange(0, k));
                assert(self.pending_saves() =~= pre.drop_first());
                assert(pre.drop_first() =~= jobs.subrange(k + 1, jobs.len() as int));
                k = k + 1;
            }
        }
        assert(jobs.subrange(0, k) =~= jobs);
        assert(self.lane.taken() =~= self.lane.submitted());
    }

    /// Removes the written checkpoints of `epoch`; waiting saves are kept.
    pub fn delete(&mut self, epoch: usize) -> (r: Result<(), CheckpointError>)
        requires
            old(self).wf(),
        ensures
            final(self).wf(),
            final(self).lane == old(self).lane,
            final(self).completions == old(self).completions,
            final(self).inner.kind == old(self).inner.kind,
            final(self).inner.num_keep == old(self).inner.num_keep,
            latest_index_of(old(self).inner@, epoch) == -1 ==> r == Err::<(), CheckpointError>(
                CheckpointError::NotFound,
            ) && final(self).inner@ == old(self).inner@,
            latest_index_of(old(self).inner@, epoch) >= 0 ==> r is Ok && final(self).inner@
                == without_epoch(old(self).inner@, epoch),
    {
        self.inner.delete(epoch)
    }

    /// Reads back a written checkpoint; waiting saves are not consulted.
    pub fn restore(&self, epoch: usize) -> (r: Result<Vec<u8>, CheckpointError>)
        ensures
            bytes_result(r) == self.inner.restore_spec(epoch),
    {
        self.inner.restore(epoch)
    }
}

/// Completions are reported in the order the saves were issued: a slow save
/// is never overtaken by a later one of the same kind.
pub proof fn lemma_completions_in_issue_order(c: AsyncCheckpointer)
    requires
        c.wf(),
    ensures
        c.completions@.len() <= c.issued_epochs().len(),
        c.completions@ == c.issued_epochs().subrange(0, c.completions@.len() as int),
{
    lemma_taken_in_order(c.lane);
    assert(c.completions@ =~= c.issued_epochs().subrange(0, c.completions@.len() as int));
}

/// Retention through the background lane: when an empty store drains more
/// waiting saves than it keeps, it ends holding exactly the latest
/// `num_keep` of them, in issue order; with no more than that, it holds all.
pub proof fn lemma_drain_keeps_latest(before: AsyncCheckpointer, after: AsyncCheckpointer)
    requires
        before.wf(),
        before.inner@.len() == 0,
        after.inner@ == saves_applied(
            before.inner@,
            before.pending_saves(),
            before.inner.num_keep as nat,
        ),
    ensures
        ({
            let s = before.pending_saves();
            let r = before.inner.num_keep as int;
            &&& s.len() > r ==> after.inner@ == s.subrange(s.len() - r, s.len() as int)
                && after.inner@.len() == r
            &&& s.len() <= r ==> after.inner@ == s
        }),
{
    assert(before.inner@ =~= Seq::<(usize, Seq<u8>)>::empty());
    lemma_retention_keeps_latest(before.pending_saves(), before.inner.num_keep as nat);
}

} // verus!
