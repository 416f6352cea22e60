use burn_train::async_checkpoint::AsyncCheckpointer;
use burn_train::checkpoint::{checkpoint_file_name, decimal, ArtifactKind, CheckpointError, Checkpointer};
use burn_train::ordered::OrderedLane;

fn epochs(c: &Checkpointer) -> Vec<usize> {
    c.entries.iter().map(|e| e.epoch).collect()
}

#[test]
fn retention_keeps_the_latest_checkpoints() {
    let mut c = Checkpointer::new(ArtifactKind::Model, 2);
    assert_eq!(c.save(1, vec![1]), None);
    assert_eq!(c.save(2, vec![2]), None);
    assert_eq!(c.save(3, vec![3]), Some(1));
    assert_eq!(c.save(4, vec![4]), Some(2));
    assert_eq!(c.save(5, vec![5]), Some(3));
    assert_eq!(epochs(&c), vec![4, 5]);
}

#[test]
fn retention_of_three_after_seven_saves() {
    let mut c = Checkpointer::new(ArtifactKind::Optimizer, 3);
    for e in 1..=7usize {
        c.save(e, vec![e as u8]);
    }
    assert_eq!(epochs(&c), vec![5, 6, 7]);
}

#[test]
fn fewer_saves_than_retention_keeps_all() {
    let mut c = Checkpointer::new(ArtifactKind::Scheduler, 4);
    c.save(1, vec![]);
    c.save(2, vec![]);
    assert_eq!(epochs(&c), vec![1, 2]);
}

#[test]
fn save_then_restore_gives_back_the_bytes() {
    let mut c = Checkpointer::new(ArtifactKind::Model, 2);
    c.save(7, vec![9, 8, 7]);
    assert_eq!(c.restore(7), Ok(vec![9, 8, 7]));
    c.save(7, vec![1]);
    assert_eq!(c.restore(7), Ok(vec![1]));
}

#[test]
fn restore_of_missing_epoch_is_not_found() {
    let mut c = Checkpointer::new(ArtifactKind::Model, 2);
    assert_eq!(c.restore(1), Err(CheckpointError::NotFound));
    c.save(1, vec![1]);
    c.save(2, vec![2]);
    c.save(3, vec![3]);
    assert_eq!(c.restore(1), Err(CheckpointError::NotFound));
    assert_eq!(c.restore(2), Ok(vec![2]));
}

#[test]
fn delete_removes_only_that_epoch() {
    let mut c = Checkpointer::new(ArtifactKind::Model, 3);
    c.save(1, vec![1]);
    c.save(2, vec![2]);
    c.save(3, vec![3]);
    assert_eq!(c.delete(2), Ok(()));
    assert_eq!(epochs(&c), vec![1, 3]);
    assert_eq!(c.delete(2), Err(CheckpointError::NotFound));
    assert_eq!(epochs(&c), vec![1, 3]);
}

#[test]
fn kind_names_prefix_the_files() {
    assert_eq!(ArtifactKind::Model.name(), "model");
    assert_eq!(ArtifactKind::Optimizer.name(), "optim");
    assert_eq!(ArtifactKind::Scheduler.name(), "scheduler");
}

#[test]
fn lane_hands_out_in_submission_order() {
    let mut lane = OrderedLane::new();
    lane.submit(3u32);
    lane.submit(1u32);
    lane.submit(2u32);
    assert_eq!(lane.num_pending(), 3);
    assert_eq!(lane.take_next(), Some(3));
    assert_eq!(lane.take_next(), Some(1));
    assert_eq!(lane.take_next(), Some(2));
    assert_eq!(lane.take_next(), None);
}

#[test]
fn async_saves_complete_in_issue_order() {
    let mut c = AsyncCheckpointer::new(Checkpointer::new(ArtifactKind::Model, 2));
    c.save(1, vec![1]);
    c.save(2, vec![2]);
    c.save(3, vec![3]);
    // Nothing is written before the background step runs.
    assert_eq!(c.restore(1), Err(CheckpointError::NotFound));
    assert_eq!(c.process_next(), Some((1, None)));
    assert_eq!(c.completions, vec![1]);
    assert_eq!(c.restore(1), Ok(vec![1]));
    c.drain();
    assert_eq!(c.completions, vec![1, 2, 3]);
    assert_eq!(epochs(&c.inner), vec![2, 3]);
    assert_eq!(c.process_next(), None);
}

#[test]
fn async_delete_passes_through() {
    let mut c = AsyncCheckpointer::new(Checkpointer::new(ArtifactKind::Scheduler, 2));
    c.save(4, vec![4]);
    c.drain();
    assert_eq!(c.kind(), ArtifactKind::Scheduler);
    assert_eq!(c.delete(4), Ok(()));
    assert_eq!(c.restore(4), Err(CheckpointError::NotFound));
    assert_eq!(c.delete(4), Err(CheckpointError::NotFound));
}

#[test]
fn decimal_writes_every_digit() {
    assert_eq!(decimal(0), "0");
    assert_eq!(decimal(7), "7");
    assert_eq!(decimal(10), "10");
    assert_eq!(decimal(305), "305");
    assert_eq!(decimal(usize::MAX), usize::MAX.to_string());
}

#[test]
fn checkpoint_files_are_named_by_kind_and_epoch() {
    assert_eq!(checkpoint_file_name(ArtifactKind::Model, 12), "model-12");
    assert_eq!(checkpoint_file_name(ArtifactKind::Optimizer, 3), "optim-3");
    assert_eq!(checkpoint_file_name(ArtifactKind::Scheduler, 0), "scheduler-0");
}

#[test]
fn async_drain_writes_the_waiting_bytes() {
    let mut c = AsyncCheckpointer::new(Checkpointer::new(ArtifactKind::Optimizer, 3));
    c.save(1, vec![10]);
    c.save(2, vec![20, 21]);
    c.drain();
    assert_eq!(c.restore(1), Ok(vec![10]));
    assert_eq!(c.restore(2), Ok(vec![20, 21]));
    assert_eq!(epochs(&c.inner), vec![1, 2]);
}
