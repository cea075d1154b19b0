use vstd::prelude::*;

verus! {

/// Why a save did not complete.
#[derive(Clone, Copy, PartialEq, Eq, Structural, Debug)]
pub enum PersistError {
    /// The current file could not be copied aside; nothing was written.
    BackupFailed,
    /// Writing the new contents failed (the previous contents were restored when possible).
    WriteFailed,
    /// The new contents were written but the back-up could not be removed.
    BackupNotRemoved,
}

/// How a save ended.
#[derive(Clone, Copy, PartialEq, Eq, Structural, Debug)]
pub enum SaveOutcome {
    Saved,
    Failed(PersistError),
}

/// The file operation the caller performs next.
#[derive(Clone, Copy, PartialEq, Eq, Structural, Debug)]
pub enum SaveAction {
    /// Copy `<path>` to `<path>.bak`.
    CopyToBackup,
    /// Write the new contents to `<path>`.
    WriteTarget,
    /// Copy `<path>.bak` back over `<path>`.
    RestoreFromBackup,
    /// Delete `<path>.bak`.
    RemoveBackup,
    /// The save is over, with this result.
    Finish(SaveOutcome),
}

#[derive(Clone, Copy, PartialEq, Eq, Structural, Debug)]
pub enum SavePhase {
    CopyingBackup,
    Writing,
    Restoring,
    RemovingBackup,
    Done(SaveOutcome),
}

/// Where a back-up-and-overwrite save stands.
#[derive(Clone, Copy, PartialEq, Eq, Structural, Debug)]
pub struct SaveProtocol {
    pub phase: SavePhase,
    /// `<path>.bak` now holds the previous contents of `<path>`.
    pub backup_made: bool,
    /// A `<path>.bak` was there before the save began.
    pub stale_backup: bool,
}

/// The action that goes with a phase.
pub open spec fn action_of(p: SaveProtocol) -> SaveAction {
    match p.phase {
        SavePhase::CopyingBackup => SaveAction::CopyToBackup,
        SavePhase::Writing => SaveAction::WriteTarget,
        SavePhase::Restoring => SaveAction::RestoreFromBackup,
        SavePhase::RemovingBackup => SaveAction::RemoveBackup,
        SavePhase::Done(r) => SaveAction::Finish(r),
    }
}

pub open spec fn begin_spec(target_exists: bool, backup_exists: bool) -> SaveProtocol {
    if target_exists {
        SaveProtocol { phase: SavePhase::CopyingBackup, backup_made: false, stale_backup: backup_exists }
    } else {
        SaveProtocol { phase: SavePhase::Writing, backup_made: false, stale_backup: backup_exists }
    }
}

/// The phase after the current action ended, successfully or not.
pub open spec fn step_spec(p: SaveProtocol, ok: bool) -> SaveProtocol {
    match p.phase {
        SavePhase::CopyingBackup => if ok {
            SaveProtocol { phase: SavePhase::Writing, backup_made: true, ..p }
        } else {
            SaveProtocol { phase: SavePhase::Done(SaveOutcome::Failed(PersistError::BackupFailed)), ..p }
        },
        SavePhase::Writing => if ok {
            if p.backup_made || p.stale_backup {
                SaveProtocol { phase: SavePhase::RemovingBackup, ..p }
            } else {
                SaveProtocol { phase: SavePhase::Done(SaveOutcome::Saved), ..p }
            }
        } else if p.backup_made {
            SaveProtocol { phase: SavePhase::Restoring, ..p }
        } else {
            SaveProtocol { phase: SavePhase::Done(SaveOutcome::Failed(PersistError::WriteFailed)), ..p }
        },
        SavePhase::Restoring => SaveProtocol {
            phase: SavePhase::Done(SaveOutcome::Failed(PersistError::WriteFailed)),
            ..p
        },
        SavePhase::RemovingBackup => if ok {
            SaveProtocol { phase: SavePhase::Done(SaveOutcome::Saved), ..p }
        } else {
            SaveProtocol { phase: SavePhase::Done(SaveOutcome::Failed(PersistError::BackupNotRemoved)), ..p }
        },
        SavePhase::Done(_) => p,
    }
}

impl SaveProtocol {
    /// Starts a save, given whether `<path>` and `<path>.bak` exist: the current file is copied
    /// aside first when there is one.
    pub fn begin(target_exists: bool, backup_exists: bool) -> (r: (SaveProtocol, SaveAction))
        ensures
            r.0 == begin_spec(target_exists, backup_exists),
            r.1 == action_of(r.0),
    {
        let p = if target_exists {
            SaveProtocol { phase: SavePhase::CopyingBackup, backup_made: false, stale_backup: backup_exists }
        } else {
            SaveProtocol { phase: SavePhase::Writing, backup_made: false, stale_backup: backup_exists }
        };
        (p, p.action())
    }

    /// The action for the current phase.
    pub fn action(&self) -> (r: SaveAction)
        ensures
            r == action_of(*self),
    {
        match self.phase {
            SavePhase::CopyingBackup => SaveAction::CopyToBackup,
            SavePhase::Writing => SaveAction::WriteTarget,
            SavePhase::Restoring => SaveAction::RestoreFromBackup,
            SavePhase::RemovingBackup => SaveAction::RemoveBackup,
            SavePhase::Done(r) => SaveAction::Finish(r),
        }
    }

    /// Moves on once the current action ended; `ok` says whether it succeeded.
    pub fn step(self, ok: bool) -> (r: (SaveProtocol, SaveAction))
        ensures
            r.0 == step_spec(self, ok),
            r.1 == action_of(r.0),
    {
        let p = match self.phase {
            SavePhase::CopyingBackup => if ok {
                SaveProtocol { phase: SavePhase::Writing, backup_made: true, ..self }
            } else {
                SaveProtocol { phase: SavePhase::Done(SaveOutcome::Failed(PersistError::BackupFailed)), ..self }
            },
            SavePhase::Writing => if ok {
                if self.backup_made || self.stale_backup {
                    SaveProtocol { phase: SavePhase::RemovingBackup, ..self }
                } else {
                    SaveProtocol { phase: SavePhase::Done(SaveOutcome::Saved), ..self }
                }
            } else if self.backup_made {
                SaveProtocol { phase: SavePhase::Restoring, ..self }
            } else {
                SaveProtocol { phase: SavePhase::Done(SaveOutcome::Failed(PersistError::WriteFailed)), ..self }
            },
            SavePhase::Restoring => SaveProtocol {
                phase: SavePhase::Done(SaveOutcome::Failed(PersistError::WriteFailed)),
                ..self
            },
            SavePhase::RemovingBackup => if ok {
                SaveProtocol { phase: SavePhase::Done(SaveOutcome::Saved), ..self }
            } else {
                SaveProtocol { phase: SavePhase::Done(SaveOutcome::Failed(PersistError::BackupNotRemoved)), ..self }
            },
            SavePhase::Done(_) => self,
        };
        (p, p.action())
    }
}

/// The two files of a save: `<path>` and `<path>.bak`, each absent or with its bytes.
pub type Files = (Option<Seq<u8>>, Option<Seq<u8>>);

/// What the files may be after `a` ended (successfully when `ok`), writing `new` to `<path>`.
/// A failed copy or write may leave its destination in any state.
pub open spec fn file_effect(f: Files, a: SaveAction, ok: bool, new: Seq<u8>, g: Files) -> bool {
    match a {
        SaveAction::CopyToBackup => if ok {
            g == (f.0, f.0)
        } else {
            g.0 == f.0
        },
        SaveAction::WriteTarget => if ok {
            g == (Some(new), f.1)
        } else {
            g.1 == f.1
        },
        SaveAction::RestoreFromBackup => if ok {
            g == (f.1, f.1)
        } else {
            g.1 == f.1
        },
        SaveAction::RemoveBackup => if ok {
            g == (f.0, None::<Seq<u8>>)
        } else {
            g == f
        },
        SaveAction::Finish(_) => g == f,
    }
}

/// What holds of the files in each phase of a save that began with `<path>` holding `prev`.
pub open spec fn save_invariant(p: SaveProtocol, f: Files, prev: Option<Seq<u8>>, new: Seq<u8>) -> bool {
    match p.phase {
        SavePhase::CopyingBackup => prev is Some && f.0 == prev,
        SavePhase::Writing => (p.backup_made ==> prev is Some && f.1 == prev) && (!p.backup_made
            ==> prev is None && (p.stale_backup <==> f.1 is Some)),
        SavePhase::Restoring => prev is Some && f.1 == prev,
        SavePhase::RemovingBackup => f.0 == Some(new) && (p.backup_made ==> f.1 == prev) && (
        !p.backup_made ==> prev is None),
        SavePhase::Done(SaveOutcome::Saved) => f.0 == Some(new) && f.1 is None,
        SavePhase::Done(SaveOutcome::Failed(_)) => prev is Some ==> (f.0 == prev || f.1 == prev),
    }
}

/// A save starts in a state that meets its invariant.
pub proof fn lemma_save_begins_safely(f: Files, new: Seq<u8>)
    ensures
        save_invariant(begin_spec(f.0 is Some, f.1 is Some), f, f.0, new),
{
}

/// Each step of a save keeps the invariant, whatever the file operation did.
pub proof fn lemma_save_step_safe(p: SaveProtocol, f: Files, ok: bool, g: Files, prev: Option<Seq<u8>>, new: Seq<u8>)
    requires
        save_invariant(p, f, prev, new),
        file_effect(f, action_of(p), ok, new, g),
    ensures
        save_invariant(step_spec(p, ok), g, prev, new),
{
}

/// After a save that succeeded `<path>.bak` is gone and `<path>` holds the new contents; after one
/// that failed, when `<path>` existed before, `<path>` or `<path>.bak` holds its old contents.
pub proof fn lemma_save_outcome(p: SaveProtocol, f: Files, prev: Option<Seq<u8>>, new: Seq<u8>)
    requires
        save_invariant(p, f, prev, new),
        p.phase is Done,
    ensures
        p.phase == SavePhase::Done(SaveOutcome::Saved) ==> f.1 is None && f.0 == Some(new),
        (p.phase is Done && p.phase->Done_0 is Failed && prev is Some) ==> (f.0 == prev || f.1 == prev),
{
}

} // verus!
