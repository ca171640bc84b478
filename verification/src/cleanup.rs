//! The asset lifecycle manager: background cleanup of the on-disk asset
//! tree after catalog deletions.
//!
//! Asset files live under `root/{grouping}/{entry}/{asset_key}`. The
//! manager decides; the surrounding runtime touches the filesystem. Entry
//! cleanup is a fixed plan of actions. Grouping cleanup is a state machine
//! with a budget of five removal attempts and the documented backoff
//! between them; the runtime feeds each outcome back and asks for the next
//! action until the machine finishes.

use vstd::prelude::*;

verus! {

/// What kind of cleanup a job asks for.
#[derive(Debug, Clone, PartialEq, Eq)]
pub enum CleanupKind {
    /// Remove one entry's asset directory.
    Item,
    /// Remove a grouping's whole asset tree, with retries.
    Collection,
    /// Sweep grouping directories that hold nothing.
    OrphanSweep,
}

/// A cleanup job, created when a delete completes and consumed by a
/// background worker; never persisted.
#[derive(Debug, Clone, PartialEq, Eq)]
pub struct CleanupJob {
    /// The grouping whose assets are affected.
    pub collection_id: String,
    /// The entry whose assets are affected, for entry cleanup.
    pub item_id: Option<String>,
    /// What to do.
    pub kind: CleanupKind,
}

/// One filesystem action a cleanup asks the runtime to perform. Paths are
/// segment lists under the asset root.
#[derive(Debug, Clone, PartialEq, Eq)]
pub enum FsAction {
    /// Wait the given milliseconds before going on.
    Sleep { millis: u64 },
    /// Test whether the directory exists.
    CheckExists { path: Vec<String> },
    /// Remove the directory tree in one call.
    RemoveTree { path: Vec<String> },
    /// Remove the directory only if it holds nothing.
    RemoveDirIfEmpty { path: Vec<String> },
    /// Walk the directory's immediate children, deleting files and
    /// recursing into subdirectories one by one.
    RemoveChildren { path: Vec<String> },
}

/// The plan for cleaning one entry's assets: remove the entry's directory
/// tree in a single attempt, then remove the grouping's directory when it
/// is now empty. Failures are logged only; there is no retry.
pub fn entry_cleanup_actions(collection_id: &str, item_id: &str) -> (r: Vec<FsAction>)
    ensures
        r@.len() == 2,
        (r@[0] matches FsAction::RemoveTree { path } && path@.len() == 2 && path@[0]@
            == collection_id@ && path@[1]@ == item_id@),
        (r@[1] matches FsAction::RemoveDirIfEmpty { path } && path@.len() == 1 && path@[0]@
            == collection_id@),
{
    let mut tree_path: Vec<String> = Vec::new();
    tree_path.push(collection_id.to_owned());
    tree_path.push(item_id.to_owned());
    let mut parent_path: Vec<String> = Vec::new();
    parent_path.push(collection_id.to_owned());
    let mut actions: Vec<FsAction> = Vec::new();
    actions.push(FsAction::RemoveTree { path: tree_path });
    actions.push(FsAction::RemoveDirIfEmpty { path: parent_path });
    actions
}

/// The grouping directories an orphan sweep removes: exactly those the
/// walk found empty, in walk order. The sweep never consults the catalog;
/// emptiness alone decides.
pub open spec fn spec_orphan_removals(dirs: Seq<(String, bool)>) -> Seq<String>
    decreases dirs.len(),
{
    if dirs.len() == 0 {
        Seq::empty()
    } else {
        spec_orphan_removals(dirs.drop_last()) + (if dirs.last().1 {
            seq![dirs.last().0]
        } else {
            Seq::<String>::empty()
        })
    }
}

/// Picks, from the walked grouping directories paired with their emptiness,
/// the ones to remove.
pub fn orphan_removals(dirs: Vec<(String, bool)>) -> (r: Vec<String>)
    ensures
        r@ == spec_orphan_removals(dirs@),
{
    let ghost orig = dirs@;
    let mut input = dirs;
    let mut out: Vec<String> = Vec::new();
    let ghost mut i: int = 0;
    proof {
        assert(orig.take(0) =~= Seq::<(String, bool)>::empty());
        assert(orig.skip(0) =~= orig);
    }
    while input.len() > 0
        invariant
            0 <= i <= orig.len(),
            input@ == orig.skip(i),
            out@ == spec_orphan_removals(orig.take(i)),
        decreases input@.len(),
    {
        let x = input.remove(0);
        proof {
            assert(x == orig[i]);
            assert(orig.skip(i).remove(0) =~= orig.skip(i + 1));
            assert(orig.take(i + 1).drop_last() =~= orig.take(i));
            assert(orig.take(i + 1).last() == orig[i]);
        }
        let (id, empty) = x;
        if empty {
            let ghost pre = out@;
            let ghost idv = id;
            out.push(id);
            proof {
                assert(out@ =~= pre + seq![idv]);
            }
        } else {
            proof {
                assert(spec_orphan_removals(orig.take(i + 1)) =~= spec_orphan_removals(
                    orig.take(i),
                ) + Seq::<String>::empty());
            }
        }
        proof {
            i = i + 1;
        }
    }
    proof {
        assert(orig.take(i) =~= orig);
    }
    out
}

/// Where a grouping cleanup stands.
#[derive(Debug, Clone, PartialEq, Eq)]
pub enum CleanupPhase {
    /// About to wait the initial grace period.
    Starting,
    /// Waiting for the initial existence check.
    CheckingExists,
    /// About to try removing the whole tree.
    Removing,
    /// A removal call returned success; checking the directory is gone.
    Verifying,
    /// The verification still saw the directory; waiting before retrying.
    BackoffAfterVerify,
    /// A removal call failed; waiting before the fallback.
    BackoffAfterError,
    /// Deleting the directory's children one by one.
    Fallback,
    /// Waiting after the fallback walk before retrying the whole tree.
    FallbackPause,
    /// Finished; `removed` tells whether the directory is known gone.
    Finished { removed: bool },
}

/// What the runtime reports back after performing an action.
#[derive(Debug, Clone, PartialEq, Eq)]
pub enum CleanupEvent {
    /// The sleep elapsed.
    Slept,
    /// The existence check answered.
    Exists { exists: bool },
    /// The whole-tree removal call returned.
    RemoveResult { ok: bool },
    /// The child walk finished.
    ChildrenRemoved,
}

/// The retry budget: the whole-tree removal is attempted at most this many
/// times.
pub const MAX_CLEANUP_ATTEMPTS: u8 = 5;

/// The grouping cleanup state machine. It asks for one action at a time
/// and moves on the reported outcome; it never exceeds its attempt budget,
/// and it reports the directory removed only after a check saw it gone.
#[derive(Debug, PartialEq, Eq)]
pub struct GroupingCleanup {
    /// The grouping whose tree is being removed.
    pub collection_id: String,
    /// Whole-tree removal calls made so far.
    pub attempts: u8,
    /// Where the cleanup stands.
    pub phase: CleanupPhase,
}

impl GroupingCleanup {
    /// The machine's invariant: the budget holds, and another removal is
    /// pending only while budget remains.
    pub open spec fn wf(&self) -> bool {
        &&& self.attempts <= MAX_CLEANUP_ATTEMPTS
        &&& (self.phase == CleanupPhase::Removing ==> self.attempts < MAX_CLEANUP_ATTEMPTS)
        &&& (self.phase == CleanupPhase::BackoffAfterVerify ==> self.attempts
            < MAX_CLEANUP_ATTEMPTS)
        &&& (self.phase == CleanupPhase::BackoffAfterError ==> self.attempts
            < MAX_CLEANUP_ATTEMPTS)
        &&& (self.phase == CleanupPhase::Fallback ==> self.attempts < MAX_CLEANUP_ATTEMPTS)
        &&& (self.phase == CleanupPhase::FallbackPause ==> self.attempts < MAX_CLEANUP_ATTEMPTS)
        &&& (self.phase == CleanupPhase::Starting ==> self.attempts == 0)
        &&& (self.phase == CleanupPhase::CheckingExists ==> self.attempts == 0)
    }

    /// A fresh cleanup for one grouping.
    pub fn new(collection_id: String) -> (r: GroupingCleanup)
        ensures
            r.wf(),
            r.collection_id == collection_id,
            r.attempts == 0,
            r.phase == CleanupPhase::Starting,
    {
        GroupingCleanup { collection_id, attempts: 0, phase: CleanupPhase::Starting }
    }

    /// The next action to perform, or nothing once the cleanup finished.
    /// The initial grace period is a tenth of a second; a retry after a
    /// removal that claimed success but left the directory waits half a
    /// second; a retry after an error waits a full second, walks the
    /// children, and waits another half second.
    pub fn next_action(&self) -> (r: Option<FsAction>)
        ensures
            (r is None) <==> (self.phase is Finished),
            self.phase == CleanupPhase::Starting ==> r == Some(FsAction::Sleep { millis: 100u64 }),
            self.phase == CleanupPhase::BackoffAfterVerify ==> r == Some(
                FsAction::Sleep { millis: 500u64 },
            ),
            self.phase == CleanupPhase::BackoffAfterError ==> r == Some(
                FsAction::Sleep { millis: 1000u64 },
            ),
            self.phase == CleanupPhase::FallbackPause ==> r == Some(
                FsAction::Sleep { millis: 500u64 },
            ),
            self.phase == CleanupPhase::CheckingExists || self.phase == CleanupPhase::Verifying
                ==> (r matches Some(FsAction::CheckExists { path }) && path@.len() == 1
                && path@[0]@ == self.collection_id@),
            self.phase == CleanupPhase::Removing ==> (r matches Some(
                FsAction::RemoveTree { path },
            ) && path@.len() == 1 && path@[0]@ == self.collection_id@),
            self.phase == CleanupPhase::Fallback ==> (r matches Some(
                FsAction::RemoveChildren { path },
            ) && path@.len() == 1 && path@[0]@ == self.collection_id@),
    {
        match &self.phase {
            CleanupPhase::Starting => Some(FsAction::Sleep { millis: 100 }),
            CleanupPhase::CheckingExists => Some(
                FsAction::CheckExists { path: self.dir_path() },
            ),
            CleanupPhase::Removing => Some(FsAction::RemoveTree { path: self.dir_path() }),
            CleanupPhase::Verifying => Some(FsAction::CheckExists { path: self.dir_path() }),
            CleanupPhase::BackoffAfterVerify => Some(FsAction::Sleep { millis: 500 }),
            CleanupPhase::BackoffAfterError => Some(FsAction::Sleep { millis: 1000 }),
            CleanupPhase::Fallback => Some(FsAction::RemoveChildren { path: self.dir_path() }),
            CleanupPhase::FallbackPause => Some(FsAction::Sleep { millis: 500 }),
            CleanupPhase::Finished { .. } => None,
        }
    }

    fn dir_path(&self) -> (r: Vec<String>)
        ensures
            r@.len() == 1,
            r@[0]@ == self.collection_id@,
    {
        let mut path: Vec<String> = Vec::new();
        path.push(self.collection_id.clone());
        path
    }

    /// Whether an event answers the pending action.
    pub open spec fn accepts(&self, event: CleanupEvent) -> bool {
        match self.phase {
            CleanupPhase::Starting => event is Slept,
            CleanupPhase::CheckingExists => event is Exists,
            CleanupPhase::Removing => event is RemoveResult,
            CleanupPhase::Verifying => event is Exists,
            CleanupPhase::BackoffAfterVerify => event is Slept,
            CleanupPhase::BackoffAfterError => event is Slept,
            CleanupPhase::Fallback => event is ChildrenRemoved,
            CleanupPhase::FallbackPause => event is Slept,
            CleanupPhase::Finished { .. } => false,
        }
    }

    /// The phase an event moves the machine to.
    pub open spec fn spec_step(&self, event: CleanupEvent) -> CleanupPhase {
        match self.phase {
            CleanupPhase::Starting => CleanupPhase::CheckingExists,
            CleanupPhase::CheckingExists => if event->Exists_exists {
                CleanupPhase::Removing
            } else {
                CleanupPhase::Finished { removed: true }
            },
            CleanupPhase::Removing => if event->RemoveResult_ok {
                CleanupPhase::Verifying
            } else if self.attempts + 1 < MAX_CLEANUP_ATTEMPTS {
                CleanupPhase::BackoffAfterError
            } else {
                CleanupPhase::Finished { removed: false }
            },
            CleanupPhase::Verifying => if !event->Exists_exists {
                CleanupPhase::Finished { removed: true }
            } else if self.attempts < MAX_CLEANUP_ATTEMPTS {
                CleanupPhase::BackoffAfterVerify
            } else {
                CleanupPhase::Finished { removed: false }
            },
            CleanupPhase::BackoffAfterVerify => CleanupPhase::Removing,
            CleanupPhase::BackoffAfterError => CleanupPhase::Fallback,
            CleanupPhase::Fallback => CleanupPhase::FallbackPause,
            CleanupPhase::FallbackPause => CleanupPhase::Removing,
            CleanupPhase::Finished { removed } => CleanupPhase::Finished { removed },
        }
    }

    /// Feeds the outcome of the last action back into the machine. One
    /// whole-tree removal call is counted per reported removal result, and
    /// the budget is never exceeded.
    pub fn observe(&mut self, event: CleanupEvent)
        requires
            old(self).wf(),
            old(self).accepts(event),
        ensures
            final(self).wf(),
            final(self).collection_id == old(self).collection_id,
            final(self).phase == old(self).spec_step(event),
            final(self).attempts == (if old(self).phase is Removing {
                (old(self).attempts + 1) as u8
            } else {
                old(self).attempts
            }),
    {
        let next = match (&self.phase, &event) {
            (CleanupPhase::Starting, _) => CleanupPhase::CheckingExists,
            (CleanupPhase::CheckingExists, CleanupEvent::Exists { exists }) => {
                if *exists {
                    CleanupPhase::Removing
                } else {
                    CleanupPhase::Finished { removed: true }
                }
            },
            (CleanupPhase::Removing, CleanupEvent::RemoveResult { ok }) => {
                self.attempts = self.attempts + 1;
                if *ok {
                    CleanupPhase::Verifying
                } else if self.attempts < MAX_CLEANUP_ATTEMPTS {
                    CleanupPhase::BackoffAfterError
                } else {
                    CleanupPhase::Finished { removed: false }
                }
            },
            (CleanupPhase::Verifying, CleanupEvent::Exists { exists }) => {
                if !*exists {
                    CleanupPhase::Finished { removed: true }
                } else if self.attempts < MAX_CLEANUP_ATTEMPTS {
                    CleanupPhase::BackoffAfterVerify
                } else {
                    CleanupPhase::Finished { removed: false }
                }
            },
            (CleanupPhase::BackoffAfterVerify, _) => CleanupPhase::Removing,
            (CleanupPhase::BackoffAfterError, _) => CleanupPhase::Fallback,
            (CleanupPhase::Fallback, _) => CleanupPhase::FallbackPause,
            (CleanupPhase::FallbackPause, _) => CleanupPhase::Removing,
            (CleanupPhase::Finished { removed }, _) => CleanupPhase::Finished {
                removed: *removed,
            },
            _ => {
                proof {
                    assert(false);
                }
                CleanupPhase::Finished { removed: false }
            },
        };
        self.phase = next;
    }

    /// Whether the cleanup has finished, and with what outcome.
    pub fn finished(&self) -> (r: Option<bool>)
        ensures
            (r is Some) <==> (self.phase is Finished),
            self.phase matches CleanupPhase::Finished { removed } ==> r == Some(removed),
    {
        match &self.phase {
            CleanupPhase::Finished { removed } => Some(*removed),
            _ => None,
        }
    }
}

/// The machine reports the directory removed as soon as a check sees it
/// gone: a verification that finds the directory absent finishes the
/// cleanup successfully, whatever the attempt count.
pub proof fn lemma_verify_absent_finishes(m: GroupingCleanup)
    requires
        m.wf(),
        m.phase == CleanupPhase::Verifying,
    ensures
        m.spec_step(CleanupEvent::Exists { exists: false }) == (CleanupPhase::Finished {
            removed: true,
        }),
{
}

/// A removal is attempted only while the budget lasts: from any reachable
/// state, the machine asks for another whole-tree removal only when fewer
/// than the budget of calls were made.
pub proof fn lemma_attempts_bounded(m: GroupingCleanup)
    requires
        m.wf(),
    ensures
        m.attempts <= MAX_CLEANUP_ATTEMPTS,
        m.phase == CleanupPhase::Removing ==> m.attempts < MAX_CLEANUP_ATTEMPTS,
{
}

} // verus!
