use vstd::prelude::*;

use crate::async_callback::AsyncCallback;
use crate::async_checkpoint::{AsyncCheckpointer, SaveJob};
use crate::checkpoint::{
    bytes_result, latest_index_of, retain_after_save, saves_applied, without_epoch, ArtifactKind, CheckpointError,
};
use crate::dashboard::records_of;

verus! {

/// Where a split's metric logger writes.
pub enum LoggerSlot<L> {
    /// The default file logger, rooted at `directory`.
    File { directory: String },
    /// A logger supplied by the user.
    Custom(L),
}

/// Which renderer draws the dashboard.
pub enum RendererSlot<R> {
    /// The default console renderer.
    Cli,
    /// A renderer supplied by the user.
    Custom(R),
}

/// A fully wired training session, driven by an outside training loop.
pub struct Learner<D, L, R, M, O, S> {
    pub model: M,
    pub optim: O,
    pub lr_scheduler: S,
    pub num_epochs: usize,
    pub callback: AsyncCallback,
    pub checkpoint: Option<usize>,
    pub checkpointer_model: Option<AsyncCheckpointer>,
    pub checkpointer_optimizer: Option<AsyncCheckpointer>,
    pub checkpointer_scheduler: Option<AsyncCheckpointer>,
    pub grad_accumulation: Option<usize>,
    pub devices: Vec<D>,
    pub logger_train: LoggerSlot<L>,
    pub logger_valid: LoggerSlot<L>,
    pub renderer: RendererSlot<R>,
    /// The file that captures the run's log, when capturing is on.
    pub log_file: Option<String>,
    /// The directory that holds the checkpoint files, when checkpointing is on.
    pub checkpoint_directory: Option<String>,
}

pub open spec fn checkpointer_wf(c: Option<AsyncCheckpointer>, kind: ArtifactKind) -> bool {
    match c {
        Some(c) => c.wf() && c.inner.kind == kind,
        None => true,
    }
}

impl<D, L, R, M, O, S> Learner<D, L, R, M, O, S> {
    /// The checkpointer of `kind`, if that kind is checkpointed.
    pub open spec fn checkpointer_of(&self, kind: ArtifactKind) -> Option<AsyncCheckpointer> {
        match kind {
            ArtifactKind::Model => self.checkpointer_model,
            ArtifactKind::Optimizer => self.checkpointer_optimizer,
            ArtifactKind::Scheduler => self.checkpointer_scheduler,
        }
    }

    pub open spec fn wf(&self) -> bool {
        &&& self.callback.wf()
        &&& forall|k: ArtifactKind| checkpointer_wf(#[trigger] self.checkpointer_of(k), k)
    }

    /// Everything but the checkpointers is left as it was.
    pub open spec fn same_but_checkpointers(&self, other: &Self) -> bool {
        &&& self.callback == other.callback
        &&& self.same_setup(other)
    }

    /// The parts, settings and wiring are left as they were; only the
    /// background lanes, the dashboard's output and the stores may differ.
    pub open spec fn same_setup(&self, other: &Self) -> bool {
        &&& self.callback.metrics() == other.callback.metrics()
        &&& self.model == other.model
        &&& self.optim == other.optim
        &&& self.lr_scheduler == other.lr_scheduler
        &&& self.num_epochs == other.num_epochs
        &&& self.checkpoint == other.checkpoint
        &&& self.grad_accumulation == other.grad_accumulation
        &&& self.devices == other.devices
        &&& self.logger_train == other.logger_train
        &&& self.logger_valid == other.logger_valid
        &&& self.renderer == other.renderer
        &&& self.log_file == other.log_file
        &&& self.checkpoint_directory == other.checkpoint_directory
    }

    fn checkpointer_mut(&mut self, kind: ArtifactKind) -> (r: &mut Option<AsyncCheckpointer>)
        ensures
            *r == old(self).checkpointer_of(kind),
            final(self).checkpointer_of(kind) == *final(r),
            forall|k: ArtifactKind| k != kind ==> final(self).checkpointer_of(k) == old(
                self,
            ).checkpointer_of(k),
            final(self).same_but_checkpointers(old(self)),
    {
        match kind {
            ArtifactKind::Model => &mut self.checkpointer_model,
            ArtifactKind::Optimizer => &mut self.checkpointer_optimizer,
            ArtifactKind::Scheduler => &mut self.checkpointer_scheduler,
        }
    }

    /// Issues a save of `bytes` as the `epoch` checkpoint of `kind`, without
    /// waiting for it; nothing happens when `kind` is not checkpointed. The
    /// other kinds' checkpoints are never touched.
    pub fn save_checkpoint(&mut self, kind: ArtifactKind, epoch: usize, bytes: Vec<u8>) -> (r:
        bool)
        requires
            old(self).wf(),
        ensures
            final(self).wf(),
            final(self).same_but_checkpointers(old(self)),
            r == old(self).checkpointer_of(kind) is Some,
            forall|k: ArtifactKind| k != kind ==> final(self).checkpointer_of(k) == old(
                self,
            ).checkpointer_of(k),
            r ==> {
                let c0 = old(self).checkpointer_of(kind)->Some_0;
                let c1 = final(self).checkpointer_of(kind)->Some_0;
                &&& final(self).checkpointer_of(kind) is Some
                &&& c1.inner == c0.inner
                &&& c1.issued_epochs() == c0.issued_epochs().push(epoch)
                &&& c1.lane.pending@ == c0.lane.pending@.push(SaveJob { epoch, bytes })
                &&& c1.completions@ == c0.completions@
            },
            !r ==> final(self).checkpointer_of(kind) == old(self).checkpointer_of(kind),
    {
        let slot = self.checkpointer_mut(kind);
        match slot {
            Some(c) => {
                c.save(epoch, bytes);
                true
            },
            None => false,
        }
    }

    /// Removes the written `epoch` checkpoint of `kind`. The other kinds'
    /// checkpoints are never touched.
    pub fn delete_checkpoint(&mut self, kind: ArtifactKind, epoch: usize) -> (r: Result<
        (),
        CheckpointError,
    >)
        requires
            old(self).wf(),
        ensures
            final(self).wf(),
            final(self).same_but_checkpointers(old(self)),
            forall|k: ArtifactKind| k != kind ==> final(self).checkpointer_of(k) == old(
                self,
            ).checkpointer_of(k),
            old(self).checkpointer_of(kind) is None ==> r == Err::<(), CheckpointError>(
                CheckpointError::NotFound,
            ) && final(self).checkpointer_of(kind) is None,
            old(self).checkpointer_of(kind) is Some ==> {
                let c0 = old(self).checkpointer_of(kind)->Some_0;
                let c1 = final(self).checkpointer_of(kind)->Some_0;
                &&& final(self).checkpointer_of(kind) is Some
                &&& c1.lane == c0.lane
                &&& c1.completions == c0.completions
                &&& c1.inner.num_keep == c0.inner.num_keep
                &&& latest_index_of(c0.inner@, epoch) == -1 ==> r == Err::<(), CheckpointError>(
                    CheckpointError::NotFound,
                ) && c1.inner@ == c0.inner@
                &&& latest_index_of(c0.inner@, epoch) >= 0 ==> r is Ok && c1.inner@
                    == without_epoch(c0.inner@, epoch)
            },
    {
        let slot = self.checkpointer_mut(kind);
        match slot {
            Some(c) => c.delete(epoch),
            None => Err(CheckpointError::NotFound),
        }
    }

    /// Carries out the oldest waiting save of `kind`, which may prune that
    /// kind's oldest checkpoint. The other kinds' checkpoints are never
    /// touched.
    pub fn process_checkpoint(&mut self, kind: ArtifactKind) -> (r: Option<(usize, Option<usize>)>)
        requires
            old(self).wf(),
        ensures
            final(self).wf(),
            final(self).same_but_checkpointers(old(self)),
            forall|k: ArtifactKind| k != kind ==> final(self).checkpointer_of(k) == old(
                self,
            ).checkpointer_of(k),
            old(self).checkpointer_of(kind) is None ==> r is None && final(self).checkpointer_of(
                kind,
            ) is None,
            old(self).checkpointer_of(kind) is Some ==> {
                let c0 = old(self).checkpointer_of(kind)->Some_0;
                let c1 = final(self).checkpointer_of(kind)->Some_0;
                &&& final(self).checkpointer_of(kind) is Some
                &&& c1.issued_epochs() == c0.issued_epochs()
                &&& c0.lane.pending@.len() == 0 ==> r is None && c1.inner == c0.inner
                &&& c0.lane.pending@.len() > 0 ==> {
                    let job = c0.lane.pending@[0];
                    &&& r is Some
                    &&& r->Some_0.0 == job.epoch
                    &&& c1.inner@ == retain_after_save(
                        c0.inner@,
                        job.epoch,
                        job.bytes@,
                        c0.inner.num_keep as nat,
                    )
                    &&& c1.completions@ == c0.completions@.push(job.epoch)
                    &&& c1.lane.pending@ == c0.lane.pending@.drop_first()
                }
            },
    {
        let slot = self.checkpointer_mut(kind);
        match slot {
            Some(c) => c.process_next(),
            None => None,
        }
    }

    /// Tears the session's background work down: every waiting event is
    /// delivered and every waiting save of every kind is written, each in
    /// the order it was issued.
    pub fn drain(&mut self)
        requires
            old(self).wf(),
        ensures
            final(self).wf(),
            final(self).same_setup(old(self)),
            final(self).callback.lane.pending@.len() == 0,
            final(self).callback.lane.submitted() == old(self).callback.lane.submitted(),
            final(self).callback.dashboard.log@ == records_of(
                old(self).callback.metrics(),
                old(self).callback.lane.submitted(),
            ),
            forall|k: ArtifactKind| #[trigger] final(self).checkpointer_of(k) is Some == old(
                self,
            ).checkpointer_of(k) is Some,
            forall|k: ArtifactKind| #[trigger] final(self).checkpointer_of(k) is Some ==> {
                let c = final(self).checkpointer_of(k)->Some_0;
                &&& c.lane.pending@.len() == 0
                &&& c.issued_epochs() == old(self).checkpointer_of(k)->Some_0.issued_epochs()
                &&& c.inner.num_keep == old(self).checkpointer_of(k)->Some_0.inner.num_keep
                &&& c.inner@ == saves_applied(
                    old(self).checkpointer_of(k)->Some_0.inner@,
                    old(self).checkpointer_of(k)->Some_0.pending_saves(),
                    old(self).checkpointer_of(k)->Some_0.inner.num_keep as nat,
                )
                &&& c.completions@ == c.issued_epochs()
            },
    {
        self.callback.drain();
        assert(forall|k: ArtifactKind| #[trigger] self.checkpointer_of(k) == old(self).checkpointer_of(k));
        self.drain_kind(ArtifactKind::Model);
        self.drain_kind(ArtifactKind::Optimizer);
        self.drain_kind(ArtifactKind::Scheduler);
    }

    fn drain_kind(&mut self, kind: ArtifactKind)
        requires
            old(self).wf(),
        ensures
            final(self).wf(),
            final(self).same_but_checkpointers(old(self)),
            forall|k: ArtifactKind| k != kind ==> final(self).checkpointer_of(k) == old(
                self,
            ).checkpointer_of(k),
            final(self).checkpointer_of(kind) is Some == old(self).checkpointer_of(kind) is Some,
            final(self).checkpointer_of(kind) is Some ==> {
                let c = final(self).checkpointer_of(kind)->Some_0;
                &&& c.lane.pending@.len() == 0
                &&& c.issued_epochs() == old(self).checkpointer_of(kind)->Some_0.issued_epochs()
                &&& c.inner.num_keep == old(self).checkpointer_of(kind)->Some_0.inner.num_keep
                &&& c.inner@ == saves_applied(
                    old(self).checkpointer_of(kind)->Some_0.inner@,
                    old(self).checkpointer_of(kind)->Some_0.pending_saves(),
                    old(self).checkpointer_of(kind)->Some_0.inner.num_keep as nat,
                )
                &&& c.completions@ == c.issued_epochs()
            },
    {
        let slot = self.checkpointer_mut(kind);
        match slot {
            Some(c) => c.drain(),
            None => {},
        }
    }

    /// Reads back the written `epoch` checkpoint of `kind`.
    pub fn restore_checkpoint(&self, kind: ArtifactKind, epoch: usize) -> (r: Result<
        Vec<u8>,
        CheckpointError,
    >)
        ensures
            self.checkpointer_of(kind) is None ==> r == Err::<Vec<u8>, CheckpointError>(
                CheckpointError::NotFound,
            ),
            self.checkpointer_of(kind) is Some ==> bytes_result(r) == self.checkpointer_of(
                kind,
            )->Some_0.inner.restore_spec(epoch),
    {
        let slot = match kind {
            ArtifactKind::Model => &self.checkpointer_model,
            ArtifactKind::Optimizer => &self.checkpointer_optimizer,
            ArtifactKind::Scheduler => &self.checkpointer_scheduler,
        };
        match slot {
            Some(c) => c.restore(epoch),
            None => Err(CheckpointError::NotFound),
        }
    }
}

} // verus!
