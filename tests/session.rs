use burn_train::builder::{ConfigError, LearnerBuilder};
use burn_train::checkpoint::{ArtifactKind, CheckpointError};
use burn_train::dashboard::{Dashboard, LogRecord, MetricReading, Metrics, Split};
use burn_train::async_callback::AsyncCallback;
use burn_train::learner::{Learner, LoggerSlot, RendererSlot};

type Session = Learner<u32, u8, u8, &'static str, &'static str, &'static str>;

fn reading(text: &str, value: i64) -> MetricReading {
    MetricReading { text: text.to_string(), value }
}

fn build(b: LearnerBuilder<u32, u8, u8>) -> Result<Session, ConfigError> {
    b.build("model", "optim", "lr")
}

fn file_dir(slot: &LoggerSlot<u8>) -> Option<String> {
    match slot {
        LoggerSlot::File { directory } => Some(directory.clone()),
        LoggerSlot::Custom(_) => None,
    }
}

#[test]
fn new_builder_has_documented_defaults() {
    let b: LearnerBuilder<u32, u8, u8> = LearnerBuilder::new("/tmp/run");
    assert_eq!(b.directory, "/tmp/run");
    assert_eq!(b.num_epochs, 1);
    assert_eq!(b.devices, vec![0]);
    assert_eq!(b.checkpoint, None);
    assert_eq!(b.checkpoint_keep, None);
    assert_eq!(b.grad_accumulation, None);
    assert!(b.log_to_file);
}

#[test]
fn build_resolves_default_wiring() {
    let l = build(LearnerBuilder::new("runs/a")).ok().unwrap();
    assert_eq!(file_dir(&l.logger_train), Some("runs/a/train".to_string()));
    assert_eq!(file_dir(&l.logger_valid), Some("runs/a/valid".to_string()));
    assert!(matches!(l.renderer, RendererSlot::Cli));
    assert_eq!(l.log_file, Some("runs/a/experiment.log".to_string()));
    assert!(l.checkpointer_model.is_none());
    assert!(l.checkpointer_optimizer.is_none());
    assert!(l.checkpointer_scheduler.is_none());
    assert_eq!(l.checkpoint_directory, None);
    assert_eq!(l.model, "model");
    assert_eq!(l.num_epochs, 1);
}

#[test]
fn build_keeps_custom_parts_and_settings() {
    let b = LearnerBuilder::new("d")
        .metric_loggers(1u8, 2u8)
        .renderer(9u8)
        .num_epochs(10)
        .devices(vec![3, 4])
        .checkpoint(3)
        .grads_accumulation(4)
        .log_to_file(false)
        .with_file_checkpointer(2);
    let l = build(b).ok().unwrap();
    assert!(matches!(l.logger_train, LoggerSlot::Custom(1)));
    assert!(matches!(l.logger_valid, LoggerSlot::Custom(2)));
    assert!(matches!(l.renderer, RendererSlot::Custom(9)));
    assert_eq!(l.num_epochs, 10);
    assert_eq!(l.devices, vec![3, 4]);
    assert_eq!(l.checkpoint, Some(3));
    assert_eq!(l.grad_accumulation, Some(4));
    assert_eq!(l.log_file, None);
    assert_eq!(l.checkpoint_directory, Some("d/checkpoint".to_string()));
    let kinds: Vec<ArtifactKind> = [&l.checkpointer_model, &l.checkpointer_optimizer, &l.checkpointer_scheduler]
        .iter()
        .map(|c| c.as_ref().unwrap().kind())
        .collect();
    assert_eq!(kinds, vec![ArtifactKind::Model, ArtifactKind::Optimizer, ArtifactKind::Scheduler]);
    assert_eq!(l.checkpointer_model.as_ref().unwrap().inner.num_keep, 2);
}

#[test]
fn zero_retention_is_refused() {
    let r = build(LearnerBuilder::new("d").with_file_checkpointer(0));
    assert_eq!(r.err(), Some(ConfigError::InvalidRetention));
}

#[test]
fn empty_device_list_is_refused() {
    let r = build(LearnerBuilder::new("d").devices(vec![]));
    assert_eq!(r.err(), Some(ConfigError::InvalidDeviceList));
    let r = build(LearnerBuilder::new("d").devices(vec![]).with_file_checkpointer(0));
    assert_eq!(r.err(), Some(ConfigError::InvalidRetention));
}

#[test]
fn defaults_differ_only_by_directory() {
    let a = build(LearnerBuilder::new("x").with_file_checkpointer(3)).ok().unwrap();
    let b = build(LearnerBuilder::new("y/z").with_file_checkpointer(3)).ok().unwrap();
    assert_eq!(file_dir(&a.logger_train), Some("x/train".to_string()));
    assert_eq!(file_dir(&b.logger_train), Some("y/z/train".to_string()));
    assert_eq!(file_dir(&a.logger_valid), Some("x/valid".to_string()));
    assert_eq!(file_dir(&b.logger_valid), Some("y/z/valid".to_string()));
    assert!(matches!(a.renderer, RendererSlot::Cli) && matches!(b.renderer, RendererSlot::Cli));
    assert_eq!(a.log_file, Some("x/experiment.log".to_string()));
    assert_eq!(b.log_file, Some("y/z/experiment.log".to_string()));
    assert_eq!(a.checkpoint_directory, Some("x/checkpoint".to_string()));
    assert_eq!(b.checkpoint_directory, Some("y/z/checkpoint".to_string()));
    assert_eq!(a.checkpointer_model.as_ref().unwrap().inner.num_keep, b.checkpointer_model.as_ref().unwrap().inner.num_keep);
}

#[test]
fn pruning_one_kind_leaves_other_kinds() {
    let mut l = build(LearnerBuilder::new("d").with_file_checkpointer(2)).ok().unwrap();
    assert!(l.save_checkpoint(ArtifactKind::Optimizer, 1, vec![11]));
    l.process_checkpoint(ArtifactKind::Optimizer);
    for e in 1..=4usize {
        l.save_checkpoint(ArtifactKind::Model, e, vec![e as u8]);
    }
    l.drain();
    assert_eq!(l.restore_checkpoint(ArtifactKind::Model, 1), Err(CheckpointError::NotFound));
    assert_eq!(l.restore_checkpoint(ArtifactKind::Optimizer, 1), Ok(vec![11]));
    assert_eq!(l.delete_checkpoint(ArtifactKind::Model, 4), Ok(()));
    assert_eq!(l.restore_checkpoint(ArtifactKind::Optimizer, 1), Ok(vec![11]));
    assert_eq!(l.restore_checkpoint(ArtifactKind::Scheduler, 1), Err(CheckpointError::NotFound));
}

#[test]
fn kinds_without_checkpointing_are_skipped() {
    let mut l = build(LearnerBuilder::new("d")).ok().unwrap();
    assert!(!l.save_checkpoint(ArtifactKind::Model, 1, vec![1]));
    assert_eq!(l.process_checkpoint(ArtifactKind::Model), None);
    assert_eq!(l.restore_checkpoint(ArtifactKind::Model, 1), Err(CheckpointError::NotFound));
    assert_eq!(l.delete_checkpoint(ArtifactKind::Model, 1), Err(CheckpointError::NotFound));
}

#[test]
fn resume_after_crash_finds_every_kind_at_one_epoch() {
    let kinds = [ArtifactKind::Model, ArtifactKind::Optimizer, ArtifactKind::Scheduler];
    let mut l = build(LearnerBuilder::new("d").num_epochs(10).with_file_checkpointer(2)).ok().unwrap();
    for epoch in 1..=5usize {
        for (i, k) in kinds.iter().enumerate() {
            l.save_checkpoint(*k, epoch, vec![epoch as u8, i as u8]);
        }
        // The background writers keep up until epoch 3; the saves of epochs
        // 4 and 5 are still waiting when the run crashes.
        if epoch <= 3 {
            for k in kinds.iter() {
                l.process_checkpoint(*k);
            }
        }
    }
    let crashed = l;
    for (i, k) in kinds.iter().enumerate() {
        assert_eq!(crashed.restore_checkpoint(*k, 3), Ok(vec![3, i as u8]));
        assert_eq!(crashed.restore_checkpoint(*k, 5), Err(CheckpointError::NotFound));
    }
}

#[test]
fn plotted_metric_shares_one_series_across_splits() {
    let b: LearnerBuilder<u32, u8, u8> = LearnerBuilder::new("d")
        .metric_train_plot("loss".to_string())
        .metric_valid_plot("loss".to_string());
    let mut l = build(b).ok().unwrap();
    l.callback.on_step(Split::Train, vec![reading("0.5", 5)]);
    l.callback.on_step(Split::Valid, vec![reading("0.7", 7)]);
    l.drain();
    let series = l.callback.dashboard.series(&"loss".to_string());
    assert_eq!(series, vec![(Split::Train, 5), (Split::Valid, 7)]);
}

#[test]
fn logged_only_metrics_are_not_plotted() {
    let mut m = Metrics::new();
    m.register(Split::Train, "acc".to_string(), false);
    m.register(Split::Train, "loss".to_string(), true);
    let mut d = Dashboard::new(m);
    d.on_step(Split::Train, &vec![reading("90", 90), reading("0.1", 1)]);
    assert_eq!(d.series(&"acc".to_string()), vec![]);
    assert_eq!(d.series(&"loss".to_string()), vec![(Split::Train, 1)]);
    assert_eq!(d.log.len(), 2);
    // A step of the other split, with no registered metric, logs nothing.
    d.on_step(Split::Valid, &vec![]);
    assert_eq!(d.log.len(), 2);
}

#[test]
fn callback_log_keeps_emission_order() {
    let mut m = Metrics::new();
    m.register(Split::Train, "loss".to_string(), false);
    m.register(Split::Valid, "loss".to_string(), false);
    let mut c = AsyncCallback::new(m);
    c.on_step(Split::Train, vec![reading("a", 0)]);
    c.on_step(Split::Train, vec![reading("b", 0)]);
    c.on_epoch_end(Split::Train);
    c.on_step(Split::Valid, vec![reading("c", 0)]);
    assert!(c.dashboard.log.is_empty());
    assert!(c.deliver_next());
    assert_eq!(c.dashboard.log.len(), 1);
    c.drain();
    assert!(!c.deliver_next());
    let value = |split, text: &str| LogRecord::Value { split, name: "loss".to_string(), text: text.to_string() };
    assert_eq!(
        c.dashboard.log,
        vec![
            value(Split::Train, "a"),
            value(Split::Train, "b"),
            LogRecord::EpochEnd { split: Split::Train },
            value(Split::Valid, "c"),
        ]
    );
}

#[test]
fn teardown_stores_every_waiting_save() {
    let kinds = [ArtifactKind::Model, ArtifactKind::Optimizer, ArtifactKind::Scheduler];
    let mut l = build(LearnerBuilder::new("d").with_file_checkpointer(2)).ok().unwrap();
    for epoch in 1..=3usize {
        for k in kinds.iter() {
            l.save_checkpoint(*k, epoch, vec![epoch as u8, 7]);
        }
    }
    l.callback.on_epoch_end(Split::Train);
    l.drain();
    for k in kinds.iter() {
        assert_eq!(l.restore_checkpoint(*k, 1), Err(CheckpointError::NotFound));
        assert_eq!(l.restore_checkpoint(*k, 2), Ok(vec![2, 7]));
        assert_eq!(l.restore_checkpoint(*k, 3), Ok(vec![3, 7]));
    }
    assert_eq!(l.callback.dashboard.log, vec![LogRecord::EpochEnd { split: Split::Train }]);
    assert_eq!(l.num_epochs, 1);
    assert_eq!(l.model, "model");
}
