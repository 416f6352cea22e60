use vstd::prelude::*;
use vstd::string::StringExecFns;

verus! {

/// The independent artifact streams of a training session.
#[derive(Clone, Copy, Debug, PartialEq, Eq, Structural)]
pub enum ArtifactKind {
    Model,
    Optimizer,
    Scheduler,
}

impl ArtifactKind {
    pub open spec fn name_spec(&self) -> Seq<char> {
        match self {
            ArtifactKind::Model => "model"@,
            ArtifactKind::Optimizer => "optim"@,
            ArtifactKind::Scheduler => "scheduler"@,
        }
    }

    /// The prefix of this kind's checkpoint files.
    pub fn name(&self) -> (r: &'static str)
        ensures
            r@ == self.name_spec(),
    {
        match self {
            ArtifactKind::Model => "model",
            ArtifactKind::Optimizer => "optim",
            ArtifactKind::Scheduler => "scheduler",
        }
    }
}

pub open spec fn digit_spec(d: nat) -> Seq<char> {
    seq![(('0' as u8) + (d % 10) as u8) as char]
}

/// The decimal digits of `n`, most significant first.
pub open spec fn decimal_spec(n: nat) -> Seq<char>
    decreases n,
{
    if n < 10 {
        digit_spec(n)
    } else {
        decimal_spec(n / 10) + digit_spec(n % 10)
    }
}

fn digit(d: usize) -> (r: &'static str)
    requires
        d < 10,
    ensures
        r@ == digit_spec(d as nat),
{
    let r = match d {
        0 => "0",
        1 => "1",
        2 => "2",
        3 => "3",
        4 => "4",
        5 => "5",
        6 => "6",
        7 => "7",
        8 => "8",
        _ => "9",
    };
    proof {
        reveal_strlit("0");
        reveal_strlit("1");
        reveal_strlit("2");
        reveal_strlit("3");
        reveal_strlit("4");
        reveal_strlit("5");
        reveal_strlit("6");
        reveal_strlit("7");
        reveal_strlit("8");
        reveal_strlit("9");
        assert(r@ =~= digit_spec(d as nat));
    }
    r
}

/// `n` written in decimal.
pub fn decimal(n: usize) -> (r: String)
    ensures
        r@ == decimal_spec(n as nat),
    decreases n,
{
    if n < 10 {
        String::from_str(digit(n))
    } else {
        let mut s = decimal(n / 10);
        s.append(digit(n % 10));
        s
    }
}

/// The name of the file of the `epoch` checkpoint of `kind`:
/// `{kind}-{epoch}`.
pub fn checkpoint_file_name(kind: ArtifactKind, epoch: usize) -> (r: String)
    ensures
        r@ == kind.name_spec() + "-"@ + decimal_spec(epoch as nat),
{
    let s = String::from_str(kind.name()).concat("-");
    let d = decimal(epoch);
    s.concat(d.as_str())
}

/// Failures of a checkpoint store.
#[derive(Clone, Copy, Debug, PartialEq, Eq, Structural)]
pub enum CheckpointError {
    /// No checkpoint of the requested epoch is retained for this kind.
    NotFound,
    /// The stored bytes could not be decoded into an artifact.
    Corrupt,
    /// The storage backend failed.
    IOFailure,
}

/// One retained checkpoint: the epoch it was taken at and the encoded artifact.
pub struct SavedArtifact {
    pub epoch: usize,
    pub bytes: Vec<u8>,
}

impl SavedArtifact {
    pub open spec fn view(&self) -> (usize, Seq<u8>) {
        (self.epoch, self.bytes@)
    }
}

/// The retention step: append the new checkpoint, then drop the oldest one
/// when more than `num_keep` are retained.
pub open spec fn retain_after_save(
    entries: Seq<(usize, Seq<u8>)>,
    epoch: usize,
    bytes: Seq<u8>,
    num_keep: nat,
) -> Seq<(usize, Seq<u8>)> {
    let s = entries.push((epoch, bytes));
    if s.len() > num_keep {
        s.drop_first()
    } else {
        s
    }
}

/// Index of the most recently saved checkpoint of `epoch`, or -1.
pub open spec fn latest_index_of(entries: Seq<(usize, Seq<u8>)>, epoch: usize) -> int
    decreases entries.len(),
{
    if entries.len() == 0 {
        -1
    } else if entries.last().0 == epoch {
        entries.len() - 1
    } else {
        latest_index_of(entries.drop_last(), epoch)
    }
}

/// All retained checkpoints except those of `epoch`.
pub open spec fn without_epoch(entries: Seq<(usize, Seq<u8>)>, epoch: usize) -> Seq<
    (usize, Seq<u8>),
> {
    entries.filter(|e: (usize, Seq<u8>)| e.0 != epoch)
}

proof fn lemma_without_epoch_push(
    entries: Seq<(usize, Seq<u8>)>,
    entry: (usize, Seq<u8>),
    epoch: usize,
)
    ensures
        without_epoch(entries.push(entry), epoch) == if entry.0 != epoch {
            without_epoch(entries, epoch).push(entry)
        } else {
            without_epoch(entries, epoch)
        },
{
    reveal(Seq::filter);
    assert(entries.push(entry).drop_last() =~= entries);
}

pub proof fn lemma_latest_index_of_bounds(entries: Seq<(usize, Seq<u8>)>, epoch: usize)
    ensures
        -1 <= latest_index_of(entries, epoch) < entries.len(),
        latest_index_of(entries, epoch) >= 0 ==> entries[latest_index_of(entries, epoch)].0
            == epoch,
        latest_index_of(entries, epoch) == -1 <==> forall|i: int|
            0 <= i < entries.len() ==> entries[i].0 != epoch,
    decreases entries.len(),
{
    if entries.len() > 0 && entries.last().0 != epoch {
        lemma_latest_index_of_bounds(entries.drop_last(), epoch);
        let d = entries.drop_last();
        if latest_index_of(d, epoch) == -1 {
            assert forall|i: int| 0 <= i < entries.len() implies entries[i].0 != epoch by {
                if i < entries.len() - 1 {
                    assert(entries[i] == d[i]);
                }
            }
        } else {
            assert(entries[latest_index_of(d, epoch)] == d[latest_index_of(d, epoch)]);
        }
    }
}

/// The checkpoints retained after saving each of `saves` in turn, oldest
/// first, into a store that holds `entries`.
pub open spec fn saves_applied(
    entries: Seq<(usize, Seq<u8>)>,
    saves: Seq<(usize, Seq<u8>)>,
    num_keep: nat,
) -> Seq<(usize, Seq<u8>)>
    decreases saves.len(),
{
    if saves.len() == 0 {
        entries
    } else {
        let prev = saves_applied(entries, saves.drop_last(), num_keep);
        retain_after_save(prev, saves.last().0, saves.last().1, num_keep)
    }
}

/// The checkpoints retained after saving each of `saves` in turn into an
/// empty store.
pub open spec fn retained_after_saves(saves: Seq<(usize, Seq<u8>)>, num_keep: nat) -> Seq<
    (usize, Seq<u8>),
> {
    saves_applied(Seq::empty(), saves, num_keep)
}

/// Retention keeps the latest checkpoints: after any sequence of saves into
/// an empty store, what remains is the last `num_keep` of them, in order; so
/// after more saves than `num_keep`, exactly `num_keep` checkpoints remain.
pub proof fn lemma_retention_keeps_latest(saves: Seq<(usize, Seq<u8>)>, num_keep: nat)
    requires
        num_keep >= 1,
    ensures
        saves.len() > num_keep ==> retained_after_saves(saves, num_keep) == saves.subrange(
            saves.len() - num_keep,
            saves.len() as int,
        ),
        saves.len() <= num_keep ==> retained_after_saves(saves, num_keep) == saves,
        saves.len() > num_keep ==> retained_after_saves(saves, num_keep).len() == num_keep,
    decreases saves.len(),
{
    if saves.len() > 0 {
        let n = saves.len() as int;
        let d = saves.drop_last();
        lemma_retention_keeps_latest(d, num_keep);
        if d.len() > num_keep {
            assert(d.subrange(n - 1 - num_keep, n - 1).push(saves.last()).drop_first()
                =~= saves.subrange(n - num_keep, n));
        } else if d.len() == num_keep {
            assert(d.push(saves.last()).drop_first() =~= saves.subrange(n - num_keep, n));
        } else {
            assert(d.push(saves.last()) =~= saves);
        }
    }
}

/// A result over bytes, seen as a sequence.
pub open spec fn bytes_result(r: Result<Vec<u8>, CheckpointError>) -> Result<
    Seq<u8>,
    CheckpointError,
> {
    match r {
        Ok(b) => Ok(b@),
        Err(e) => Err(e),
    }
}

/// The checkpoints of one artifact kind, pruned to a retention window.
pub struct Checkpointer {
    pub kind: ArtifactKind,
    pub num_keep: usize,
    pub entries: Vec<SavedArtifact>,
}

impl Checkpointer {
    /// The retained checkpoints, oldest first.
    pub open spec fn view(&self) -> Seq<(usize, Seq<u8>)> {
        self.entries@.map_values(|e: SavedArtifact| e@)
    }

    pub open spec fn wf(&self) -> bool {
        self.num_keep > 0 && self.entries.len() <= self.num_keep
    }

    /// An empty store for `kind` that keeps at most `num_keep` checkpoints.
    pub fn new(kind: ArtifactKind, num_keep: usize) -> (r: Self)
        requires
            num_keep > 0,
        ensures
            r.wf(),
            r.kind == kind,
            r.num_keep == num_keep,
            r@ == Seq::<(usize, Seq<u8>)>::empty(),
    {
        Checkpointer { kind, num_keep, entries: Vec::new() }
    }

    /// Stores `bytes` as the checkpoint of `epoch`, then prunes the oldest
    /// checkpoint when the window overflows. Returns the pruned epoch.
    pub fn save(&mut self, epoch: usize, bytes: Vec<u8>) -> (pruned: Option<usize>)
        requires
            old(self).wf(),
        ensures
            final(self).wf(),
            final(self).kind == old(self).kind,
            final(self).num_keep == old(self).num_keep,
            final(self)@ == retain_after_save(old(self)@, epoch, bytes@, old(self).num_keep as nat),
            pruned == (if old(self)@.len() + 1 > old(self).num_keep {
                Some(old(self)@.push((epoch, bytes@))[0].0)
            } else {
                None::<usize>
            }),
    {
        let ghost before = self@;
        self.entries.push(SavedArtifact { epoch, bytes });
        assert(self@ =~= before.push((epoch, bytes@)));
        if self.entries.len() > self.num_keep {
            let oldest = self.entries.remove(0);
            assert(self@ =~= before.push((epoch, bytes@)).drop_first());
            Some(oldest.epoch)
        } else {
            None
        }
    }

    /// What `restore(epoch)` gives: the bytes of the most recently saved
    /// checkpoint of `epoch`, or `NotFound`.
    pub open spec fn restore_spec(&self, epoch: usize) -> Result<Seq<u8>, CheckpointError> {
        let i = latest_index_of(self@, epoch);
        if i == -1 {
            Err(CheckpointError::NotFound)
        } else {
            Ok(self@[i].1)
        }
    }

    /// The most recently saved checkpoint of `epoch`.
    pub fn restore(&self, epoch: usize) -> (r: Result<Vec<u8>, CheckpointError>)
        ensures
            bytes_result(r) == self.restore_spec(epoch),
    {
        proof {
            lemma_latest_index_of_bounds(self@, epoch);
        }
        let mut i: usize = self.entries.len();
        assert(self@.subrange(0, i as int) =~= self@);
        while i > 0
            invariant
                0 <= i <= self.entries.len(),
                latest_index_of(self@, epoch) == latest_index_of(self@.subrange(0, i as int), epoch),
            decreases i,
        {
            let ghost pre = self@.subrange(0, i as int);
            assert(pre.last() == self@[i - 1]);
            if self.entries[i - 1].epoch == epoch {
                let bytes = self.entries[i - 1].bytes.clone();
                assert(bytes@ =~= self.entries[i - 1].bytes@);
                return Ok(bytes);
            }
            assert(pre.drop_last() =~= self@.subrange(0, i - 1));
            i = i - 1;
        }
        Err(CheckpointError::NotFound)
    }

    /// Removes every checkpoint of `epoch`.
    pub fn delete(&mut self, epoch: usize) -> (r: Result<(), CheckpointError>)
        requires
            old(self).wf(),
        ensures
            final(self).wf(),
            final(self).kind == old(self).kind,
            final(self).num_keep == old(self).num_keep,
            latest_index_of(old(self)@, epoch) == -1 ==> r == Err::<(), CheckpointError>(
                CheckpointError::NotFound,
            ) && final(self)@ == old(self)@,
            latest_index_of(old(self)@, epoch) >= 0 ==> r is Ok && final(self)@ == without_epoch(
                old(self)@,
                epoch,
            ),
    {
        proof {
            lemma_latest_index_of_bounds(self@, epoch);
        }
        let ghost before = self@;
        let mut rest: Vec<SavedArtifact> = Vec::new();
        std::mem::swap(&mut rest, &mut self.entries);
        let ghost all = rest@;
        let n = rest.len();
        let mut found = false;
        let mut k: usize = 0;
        while rest.len() > 0
            invariant
                all.map_values(|e: SavedArtifact| e@) == before,
                k + rest.len() == all.len(),
                all.len() == n,
                rest@ == all.subrange(k as int, all.len() as int),
                self.num_keep == old(self).num_keep,
                self.kind == old(self).kind,
                self.num_keep > 0,
                self.entries.len() <= k,
                self@ == without_epoch(before.subrange(0, k as int), epoch),
                found == exists|j: int| 0 <= j < k && before[j].0 == epoch,
                !found ==> self@ == before.subrange(0, k as int),
            decreases rest.len(),
        {
            let e = rest.remove(0);
            proof {
                assert(e == all[k as int]);
                assert(e@ == before[k as int]);
                assert(before.subrange(0, k + 1) =~= before.subrange(0, k as int).push(e@));
                lemma_without_epoch_push(before.subrange(0, k as int), e@, epoch);
                assert(rest@ =~= all.subrange(k + 1, all.len() as int));
            }
            let ghost pre = self@;
            if e.epoch == epoch {
                found = true;
            } else {
                self.entries.push(e);
            }
            k = k + 1;
            assert(self@ =~= without_epoch(before.subrange(0, k as int), epoch));
            assert(!found ==> self@ =~= before.subrange(0, k as int));
        }
        assert(before.subrange(0, k as int) =~= before);
        if found {
            Ok(())
        } else {
            Err(CheckpointError::NotFound)
        }
    }
}

/// Saving a checkpoint and restoring its epoch gives back the saved bytes:
/// a store that `save(epoch, bytes)` turned from `before` into `after`
/// restores exactly `bytes` for `epoch`.
pub proof fn lemma_save_then_restore(
    before: Checkpointer,
    after: Checkpointer,
    epoch: usize,
    bytes: Seq<u8>,
)
    requires
        before.wf(),
        after@ == retain_after_save(before@, epoch, bytes, before.num_keep as nat),
    ensures
        after.restore_spec(epoch) == Ok::<Seq<u8>, CheckpointError>(bytes),
{
    assert(after@.last() == (epoch, bytes));
    assert(latest_index_of(after@, epoch) == after@.len() - 1);
}

} // verus!
