use vstd::prelude::*;
use vstd::string::StringExecFns;

use crate::async_callback::AsyncCallback;
use crate::async_checkpoint::AsyncCheckpointer;
use crate::checkpoint::{ArtifactKind, Checkpointer};
use crate::dashboard::{Metrics, RegisteredMetric, Split};
use crate::learner::{Learner, LoggerSlot, RendererSlot};

verus! {

/// A configuration the builder refuses to turn into a session.
#[derive(Clone, Copy, Debug, PartialEq, Eq, Structural)]
pub enum ConfigError {
    /// File checkpointing was asked for with a retention count of zero.
    InvalidRetention,
    /// The device list is empty.
    InvalidDeviceList,
}

pub open spec fn train_dir(directory: Seq<char>) -> Seq<char> {
    directory + "/train"@
}

pub open spec fn valid_dir(directory: Seq<char>) -> Seq<char> {
    directory + "/valid"@
}

pub open spec fn checkpoint_dir(directory: Seq<char>) -> Seq<char> {
    directory + "/checkpoint"@
}

pub open spec fn experiment_log_path(directory: Seq<char>) -> Seq<char> {
    directory + "/experiment.log"@
}

/// The logger a session gets: the one given, or a file logger at `default`.
pub open spec fn logger_resolved<L>(slot: LoggerSlot<L>, given: Option<L>, default: Seq<char>) -> bool {
    match given {
        Some(l) => slot == LoggerSlot::<L>::Custom(l),
        None => match slot {
            LoggerSlot::File { directory } => directory@ == default,
            LoggerSlot::Custom(_) => false,
        },
    }
}

/// The renderer a session gets: the one given, or the console renderer.
pub open spec fn renderer_resolved<R>(slot: RendererSlot<R>, given: Option<R>) -> bool {
    match given {
        Some(r) => slot == RendererSlot::<R>::Custom(r),
        None => slot == RendererSlot::<R>::Cli,
    }
}

/// The checkpointer a session gets for `kind`: none without file
/// checkpointing, else an empty one keeping `num_keep` checkpoints.
pub open spec fn checkpointer_resolved(
    c: Option<AsyncCheckpointer>,
    kind: ArtifactKind,
    num_keep: Option<usize>,
) -> bool {
    match num_keep {
        None => c is None,
        Some(n) => match c {
            Some(c) => {
                &&& c.wf()
                &&& c.inner.kind == kind
                &&& c.inner.num_keep == n
                &&& c.inner@.len() == 0
                &&& c.lane.pending@.len() == 0
                &&& c.issued_epochs().len() == 0
            },
            None => false,
        },
    }
}

/// Configures and creates a [`Learner`].
pub struct LearnerBuilder<D, L, R> {
    /// The retention count of file checkpointing, when it is on.
    pub checkpoint_keep: Option<usize>,
    pub num_epochs: usize,
    pub checkpoint: Option<usize>,
    pub directory: String,
    pub grad_accumulation: Option<usize>,
    pub devices: Vec<D>,
    pub metric_logger_train: Option<L>,
    pub metric_logger_valid: Option<L>,
    pub renderer: Option<R>,
    pub metrics: Metrics,
    pub log_to_file: bool,
}

impl<D, L, R> LearnerBuilder<D, L, R> {
    /// Everything but the metrics is left as it was.
    pub open spec fn same_except_metrics(&self, other: &Self) -> bool {
        &&& self.checkpoint_keep == other.checkpoint_keep
        &&& self.num_epochs == other.num_epochs
        &&& self.checkpoint == other.checkpoint
        &&& self.directory == other.directory
        &&& self.grad_accumulation == other.grad_accumulation
        &&& self.devices == other.devices
        &&& self.metric_logger_train == other.metric_logger_train
        &&& self.metric_logger_valid == other.metric_logger_valid
        &&& self.renderer == other.renderer
        &&& self.log_to_file == other.log_to_file
    }

    /// The two configurations differ at most in their directory.
    pub open spec fn same_except_directory(&self, other: &Self) -> bool {
        &&& self.checkpoint_keep == other.checkpoint_keep
        &&& self.num_epochs == other.num_epochs
        &&& self.checkpoint == other.checkpoint
        &&& self.grad_accumulation == other.grad_accumulation
        &&& self.devices == other.devices
        &&& self.metric_logger_train == other.metric_logger_train
        &&& self.metric_logger_valid == other.metric_logger_valid
        &&& self.renderer == other.renderer
        &&& self.metrics == other.metrics
        &&& self.log_to_file == other.log_to_file
    }

    /// What `build` yields on success: the configuration with its defaults
    /// resolved and every background lane empty.
    pub open spec fn built_as<M, O, S>(
        &self,
        l: Learner<D, L, R, M, O, S>,
        model: M,
        optim: O,
        lr_scheduler: S,
    ) -> bool {
        let dir = self.directory@;
        &&& l.wf()
        &&& l.model == model
        &&& l.optim == optim
        &&& l.lr_scheduler == lr_scheduler
        &&& l.num_epochs == self.num_epochs
        &&& l.checkpoint == self.checkpoint
        &&& l.grad_accumulation == self.grad_accumulation
        &&& l.devices == self.devices
        &&& l.callback.metrics() == self.metrics
        &&& l.callback.lane.submitted().len() == 0
        &&& l.callback.dashboard.log@.len() == 0
        &&& l.callback.dashboard.points@.len() == 0
        &&& logger_resolved(l.logger_train, self.metric_logger_train, train_dir(dir))
        &&& logger_resolved(l.logger_valid, self.metric_logger_valid, valid_dir(dir))
        &&& renderer_resolved(l.renderer, self.renderer)
        &&& checkpointer_resolved(l.checkpointer_model, ArtifactKind::Model, self.checkpoint_keep)
        &&& checkpointer_resolved(
            l.checkpointer_optimizer,
            ArtifactKind::Optimizer,
            self.checkpoint_keep,
        )
        &&& checkpointer_resolved(
            l.checkpointer_scheduler,
            ArtifactKind::Scheduler,
            self.checkpoint_keep,
        )
        &&& match self.checkpoint_keep {
            Some(_) => l.checkpoint_directory is Some && l.checkpoint_directory->Some_0@
                == checkpoint_dir(dir),
            None => l.checkpoint_directory is None,
        }
        &&& if self.log_to_file {
            l.log_file is Some && l.log_file->Some_0@ == experiment_log_path(dir)
        } else {
            l.log_file is None
        }
    }
}

impl<D: Default, L, R> LearnerBuilder<D, L, R> {
    /// A builder that writes under `directory`: one epoch, the default
    /// device, default loggers and renderer, no metrics, no checkpointing,
    /// and the run's log captured to a file.
    pub fn new(directory: &str) -> (r: Self)
        ensures
            r.directory@ == directory@,
            r.num_epochs == 1,
            r.checkpoint is None,
            r.checkpoint_keep is None,
            r.grad_accumulation is None,
            r.devices@.len() == 1,
            call_ensures(D::default, (), r.devices@[0]),
            r.metric_logger_train is None,
            r.metric_logger_valid is None,
            r.renderer is None,
            r.metrics.train@.len() == 0,
            r.metrics.valid@.len() == 0,
            r.log_to_file,
    {
        let mut devices: Vec<D> = Vec::new();
        devices.push(D::default());
        LearnerBuilder {
            checkpoint_keep: None,
            num_epochs: 1,
            checkpoint: None,
            directory: String::from_str(directory),
            grad_accumulation: None,
            devices,
            metric_logger_train: None,
            metric_logger_valid: None,
            renderer: None,
            metrics: Metrics::new(),
            log_to_file: true,
        }
    }
}

impl<D, L, R> LearnerBuilder<D, L, R> {
    /// Replaces the default file loggers with the given ones.
    pub fn metric_loggers(self, logger_train: L, logger_valid: L) -> (r: Self)
        ensures
            r == (Self {
                metric_logger_train: Some(logger_train),
                metric_logger_valid: Some(logger_valid),
                ..self
            }),
    {
        LearnerBuilder {
            metric_logger_train: Some(logger_train),
            metric_logger_valid: Some(logger_valid),
            ..self
        }
    }

    /// Replaces the default console renderer with the given one.
    pub fn renderer(self, renderer: R) -> (r: Self)
        ensures
            r == (Self { renderer: Some(renderer), ..self }),
    {
        LearnerBuilder { renderer: Some(renderer), ..self }
    }

    fn register(self, split: Split, name: String, plot: bool) -> (r: Self)
        ensures
            r.same_except_metrics(&self),
            r.metrics.of(split) == self.metrics.of(split).push(
                RegisteredMetric { name, plot },
            ),
            split == Split::Train ==> r.metrics.valid@ == self.metrics.valid@,
            split == Split::Valid ==> r.metrics.train@ == self.metrics.train@,
    {
        let mut b = self;
        b.metrics.register(split, name, plot);
        b
    }

    /// Registers a training metric, logged only.
    pub fn metric_train(self, name: String) -> (r: Self)
        ensures
            r.same_except_metrics(&self),
            r.metrics.train@ == self.metrics.train@.push(
                RegisteredMetric { name, plot: false },
            ),
            r.metrics.valid@ == self.metrics.valid@,
    {
        self.register(Split::Train, name, false)
    }

    /// Registers a validation metric, logged only.
    pub fn metric_valid(self, name: String) -> (r: Self)
        ensures
            r.same_except_metrics(&self),
            r.metrics.valid@ == self.metrics.valid@.push(
                RegisteredMetric { name, plot: false },
            ),
            r.metrics.train@ == self.metrics.train@,
    {
        self.register(Split::Valid, name, false)
    }

    /// Enables gradient accumulation over `accumulation` steps.
    pub fn grads_accumulation(self, accumulation: usize) -> (r: Self)
        ensures
            r == (Self { grad_accumulation: Some(accumulation), ..self }),
    {
        LearnerBuilder { grad_accumulation: Some(accumulation), ..self }
    }

    /// Registers a numeric training metric, logged and plotted. A metric of
    /// the same name plotted for validation shares its series.
    pub fn metric_train_plot(self, name: String) -> (r: Self)
        ensures
            r.same_except_metrics(&self),
            r.metrics.train@ == self.metrics.train@.push(
                RegisteredMetric { name, plot: true },
            ),
            r.metrics.valid@ == self.metrics.valid@,
    {
        self.register(Split::Train, name, true)
    }

    /// Registers a numeric validation metric, logged and plotted. A metric of
    /// the same name plotted for training shares its series.
    pub fn metric_valid_plot(self, name: String) -> (r: Self)
        ensures
            r.same_except_metrics(&self),
            r.metrics.valid@ == self.metrics.valid@.push(
                RegisteredMetric { name, plot: true },
            ),
            r.metrics.train@ == self.metrics.train@,
    {
        self.register(Split::Valid, name, true)
    }

    /// The number of epochs the training lasts.
    pub fn num_epochs(self, num_epochs: usize) -> (r: Self)
        ensures
            r == (Self { num_epochs, ..self }),
    {
        LearnerBuilder { num_epochs, ..self }
    }

    /// The devices the training runs on.
    pub fn devices(self, devices: Vec<D>) -> (r: Self)
        ensures
            r == (Self { devices, ..self }),
    {
        LearnerBuilder { devices, ..self }
    }

    /// The epoch from which the training resumes.
    pub fn checkpoint(self, checkpoint: usize) -> (r: Self)
        ensures
            r == (Self { checkpoint: Some(checkpoint), ..self }),
    {
        LearnerBuilder { checkpoint: Some(checkpoint), ..self }
    }

    /// Whether the run's log is captured to `experiment.log`.
    pub fn log_to_file(self, enabled: bool) -> (r: Self)
        ensures
            r == (Self { log_to_file: enabled, ..self }),
    {
        LearnerBuilder { log_to_file: enabled, ..self }
    }

    /// Turns on file checkpointing of the model, the optimizer and the
    /// scheduler, each keeping its `num_keep` latest checkpoints. Two or more
    /// are advised: saves and deletions run in the background, and a crash
    /// may leave the newest checkpoint unusable.
    pub fn with_file_checkpointer(self, num_keep: usize) -> (r: Self)
        ensures
            r == (Self { checkpoint_keep: Some(num_keep), ..self }),
    {
        LearnerBuilder { checkpoint_keep: Some(num_keep), ..self }
    }
}

impl<D, L, R> LearnerBuilder<D, L, R> {
    /// The file that captures the run's log.
    fn init_logger(&self) -> (r: String)
        ensures
            r@ == experiment_log_path(self.directory@),
    {
        self.directory.clone().concat("/experiment.log")
    }

    fn wrap_checkpointer(kind: ArtifactKind, num_keep: Option<usize>) -> (r: Option<
        AsyncCheckpointer,
    >)
        requires
            num_keep != Some(0usize),
        ensures
            checkpointer_resolved(r, kind, num_keep),
    {
        match num_keep {
            Some(n) => {
                let c = AsyncCheckpointer::new(Checkpointer::new(kind, n));
                Some(c)
            },
            None => None,
        }
    }

    /// Creates the [`Learner`] from a model, an optimizer and a learning-rate
    /// scheduler: resolves the default loggers and renderer, and gives each
    /// artifact kind an empty background checkpointer when file
    /// checkpointing is on. Fails on a retention count of zero, then on an
    /// empty device list.
    pub fn build<M, O, S>(self, model: M, optim: O, lr_scheduler: S) -> (r: Result<
        Learner<D, L, R, M, O, S>,
        ConfigError,
    >)
        ensures
            self.checkpoint_keep == Some(0usize) ==> r == Err::<Learner<D, L, R, M, O, S>, ConfigError>(
                ConfigError::InvalidRetention,
            ),
            self.checkpoint_keep != Some(0usize) && self.devices@.len() == 0 ==> r == Err::<
                Learner<D, L, R, M, O, S>,
                ConfigError,
            >(ConfigError::InvalidDeviceList),
            self.checkpoint_keep != Some(0usize) && self.devices@.len() > 0 ==> r is Ok
                && self.built_as(r->Ok_0, model, optim, lr_scheduler),
    {
        match self.checkpoint_keep {
            Some(n) => {
                if n == 0 {
                    return Err(ConfigError::InvalidRetention);
                }
            },
            None => {},
        }
        if self.devices.len() == 0 {
            return Err(ConfigError::InvalidDeviceList);
        }
        let ghost old_self = self;
        let log_file = if self.log_to_file {
            Some(self.init_logger())
        } else {
            None
        };
        let renderer = match self.renderer {
            Some(r) => RendererSlot::Custom(r),
            None => RendererSlot::Cli,
        };
        let logger_train = match self.metric_logger_train {
            Some(l) => LoggerSlot::Custom(l),
            None => LoggerSlot::File { directory: self.directory.clone().concat("/train") },
        };
        let logger_valid = match self.metric_logger_valid {
            Some(l) => LoggerSlot::Custom(l),
            None => LoggerSlot::File { directory: self.directory.clone().concat("/valid") },
        };
        let callback = AsyncCallback::new(self.metrics);
        let checkpointer_model = Self::wrap_checkpointer(ArtifactKind::Model, self.checkpoint_keep);
        let checkpointer_optimizer = Self::wrap_checkpointer(
            ArtifactKind::Optimizer,
            self.checkpoint_keep,
        );
        let checkpointer_scheduler = Self::wrap_checkpointer(
            ArtifactKind::Scheduler,
            self.checkpoint_keep,
        );
        let checkpoint_directory = match self.checkpoint_keep {
            Some(_) => Some(self.directory.clone().concat("/checkpoint")),
            None => None,
        };
        let learner = Learner {
            model,
            optim,
            lr_scheduler,
            num_epochs: self.num_epochs,
            callback,
            checkpoint: self.checkpoint,
            checkpointer_model,
            checkpointer_optimizer,
            checkpointer_scheduler,
            grad_accumulation: self.grad_accumulation,
            devices: self.devices,
            logger_train,
            logger_valid,
            renderer,
            log_file,
            checkpoint_directory,
        };
        assert(forall|k: ArtifactKind| crate::learner::checkpointer_wf(#[trigger] learner.checkpointer_of(k), k)) by {
            assert forall|k: ArtifactKind| crate::learner::checkpointer_wf(#[trigger] learner.checkpointer_of(k), k) by {
                match k {
                    ArtifactKind::Model => {},
                    ArtifactKind::Optimizer => {},
                    ArtifactKind::Scheduler => {},
                }
            }
        }
        Ok(learner)
    }
}

/// Two logger slots are wired alike: the same user logger, or file loggers
/// (whatever their paths).
pub open spec fn logger_same_shape<L>(a: LoggerSlot<L>, b: LoggerSlot<L>) -> bool {
    match (a, b) {
        (LoggerSlot::File { .. }, LoggerSlot::File { .. }) => true,
        (LoggerSlot::Custom(x), LoggerSlot::Custom(y)) => x == y,
        _ => false,
    }
}

/// Two checkpointer slots are wired alike: both absent, or both present for
/// the same kind and retention count, empty and with nothing waiting.
pub open spec fn checkpointer_same_shape(a: Option<AsyncCheckpointer>, b: Option<AsyncCheckpointer>) -> bool {
    match (a, b) {
        (None, None) => true,
        (Some(x), Some(y)) => {
            &&& x.inner.kind == y.inner.kind
            &&& x.inner.num_keep == y.inner.num_keep
            &&& x.inner@ == y.inner@
            &&& x.lane.pending@ == y.lane.pending@
            &&& x.issued_epochs() == y.issued_epochs()
        },
        _ => false,
    }
}

proof fn lemma_resolved_checkpointers_same_shape(
    a: Option<AsyncCheckpointer>,
    b: Option<AsyncCheckpointer>,
    kind: ArtifactKind,
    num_keep: Option<usize>,
)
    requires
        checkpointer_resolved(a, kind, num_keep),
        checkpointer_resolved(b, kind, num_keep),
    ensures
        checkpointer_same_shape(a, b),
{
    if a is Some {
        let (x, y) = (a->Some_0, b->Some_0);
        assert(x.inner@ =~= y.inner@);
        assert(x.lane.pending@ =~= y.lane.pending@);
        assert(x.issued_epochs() =~= y.issued_epochs());
    }
}

/// Defaults do not depend on the directory: two sessions built from
/// configurations that differ only in their directory are wired alike
/// (loggers, renderer, metrics, checkpointers, log capture), and differ only
/// in paths, each of which lies under its own directory.
pub proof fn lemma_defaults_differ_only_by_path<D, L, R, M, O, S>(
    b1: LearnerBuilder<D, L, R>,
    b2: LearnerBuilder<D, L, R>,
    l1: Learner<D, L, R, M, O, S>,
    l2: Learner<D, L, R, M, O, S>,
    model: M,
    optim: O,
    lr_scheduler: S,
)
    requires
        b1.same_except_directory(&b2),
        b1.built_as(l1, model, optim, lr_scheduler),
        b2.built_as(l2, model, optim, lr_scheduler),
    ensures
        logger_same_shape(l1.logger_train, l2.logger_train),
        logger_same_shape(l1.logger_valid, l2.logger_valid),
        l1.renderer == l2.renderer,
        l1.callback.metrics() == l2.callback.metrics(),
        l1.num_epochs == l2.num_epochs,
        l1.devices == l2.devices,
        l1.checkpoint == l2.checkpoint,
        l1.grad_accumulation == l2.grad_accumulation,
        checkpointer_same_shape(l1.checkpointer_model, l2.checkpointer_model),
        checkpointer_same_shape(l1.checkpointer_optimizer, l2.checkpointer_optimizer),
        checkpointer_same_shape(l1.checkpointer_scheduler, l2.checkpointer_scheduler),
        l1.log_file is Some == l2.log_file is Some,
        l1.checkpoint_directory is Some == l2.checkpoint_directory is Some,
        l1.logger_train is File ==> l1.logger_train->directory@ == train_dir(b1.directory@)
            && l2.logger_train->directory@ == train_dir(b2.directory@),
        l1.logger_valid is File ==> l1.logger_valid->directory@ == valid_dir(b1.directory@)
            && l2.logger_valid->directory@ == valid_dir(b2.directory@),
        l1.log_file is Some ==> l1.log_file->Some_0@ == experiment_log_path(b1.directory@)
            && l2.log_file->Some_0@ == experiment_log_path(b2.directory@),
        l1.checkpoint_directory is Some ==> l1.checkpoint_directory->Some_0@ == checkpoint_dir(
            b1.directory@,
        ) && l2.checkpoint_directory->Some_0@ == checkpoint_dir(b2.directory@),
{
    lemma_resolved_checkpointers_same_shape(l1.checkpointer_model, l2.checkpointer_model, ArtifactKind::Model, b1.checkpoint_keep);
    lemma_resolved_checkpointers_same_shape(l1.checkpointer_optimizer, l2.checkpointer_optimizer, ArtifactKind::Optimizer, b1.checkpoint_keep);
    lemma_resolved_checkpointers_same_shape(l1.checkpointer_scheduler, l2.checkpointer_scheduler, ArtifactKind::Scheduler, b1.checkpoint_keep);
}

} // verus!
