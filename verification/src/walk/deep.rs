//! The deep walk: every `.proto` file below one directory, found lazily and
//! without recursion, passing over what is excluded.

use vstd::prelude::*;
use vstd::string::*;
use crate::walk::directory::{directory_item, opened_after, DirEvent, Directory, EntryType};
use crate::walk::{ExcludeSet, WalkError};

verus! {

/// A walk below one directory. It keeps the directories that are still to be
/// exhausted; the first of them is the one being read.
#[derive(Debug, PartialEq, Eq)]
pub struct DeepProtoWalker {
    children: Vec<Directory>,
    exclude: ExcludeSet,
}

/// What a deep walk is made of.
pub struct WalkerState {
    /// The directories still to be exhausted; the first is being read.
    pub pending: Seq<Directory>,
    /// The paths that the walk passes over.
    pub exclude: Set<Seq<char>>,
}

/// What one step of a walk came to.
#[derive(Clone, Debug, PartialEq, Eq)]
pub enum Progress {
    /// A proto source was found.
    Yielded(String),
    /// The walk failed; what it does afterwards is of no use.
    Failed(WalkError),
    /// Nothing to hand on yet: the walk wants the next entry.
    Pending,
    /// The walk is over; the event was not looked at.
    Finished,
}

/// `pending` once `event` has come back for its first directory.
pub open spec fn marked(pending: Seq<Directory>, event: DirEvent) -> Seq<Directory> {
    pending.update(
        0,
        Directory { path: pending[0].path, opened: opened_after(pending[0].opened, event) },
    )
}

/// `pending` without its first directory, whose place the last one takes.
pub open spec fn retired(pending: Seq<Directory>) -> Seq<Directory> {
    pending.update(0, pending.last()).drop_last()
}

/// One step of a walk: the state after `event` has come back for the
/// directory being read, and what the step hands on.
///
/// A proto source that is not excluded is yielded. A directory that is not
/// excluded is put behind the others. A directory at its end is retired. A
/// failure is handed on. Everything else is passed over.
pub open spec fn step(state: WalkerState, event: DirEvent) -> (WalkerState, Progress) {
    if state.pending.len() == 0 {
        (state, Progress::Finished)
    } else {
        let seen = marked(state.pending, event);
        let kept = WalkerState { pending: seen, exclude: state.exclude };
        match directory_item(event) {
            None => (
                WalkerState { pending: retired(seen), exclude: state.exclude },
                Progress::Pending,
            ),
            Some(Err(e)) => (kept, Progress::Failed(e)),
            Some(Ok(EntryType::Dir(path))) => if state.exclude.contains(path@) {
                (kept, Progress::Pending)
            } else {
                (
                    WalkerState {
                        pending: seen.push(Directory { path, opened: false }),
                        exclude: state.exclude,
                    },
                    Progress::Pending,
                )
            },
            Some(Ok(EntryType::Proto(path))) => if state.exclude.contains(path@) {
                (kept, Progress::Pending)
            } else {
                (kept, Progress::Yielded(path))
            },
            Some(Ok(EntryType::Unknown(_))) => (kept, Progress::Pending),
        }
    }
}

/// Whether none of the directories that wait behind the one being read is
/// excluded.
pub open spec fn waiting_clear(state: WalkerState) -> bool {
    forall|i: int| 1 <= i < state.pending.len() ==> !state.exclude.contains(
        (#[trigger] state.pending[i]).path@,
    )
}

/// Whether none of the directories of the walk is excluded.
pub open spec fn all_clear(state: WalkerState) -> bool {
    forall|i: int| 0 <= i < state.pending.len() ==> !state.exclude.contains(
        (#[trigger] state.pending[i]).path@,
    )
}

/// A walk never yields an excluded path and never takes up an excluded
/// directory: whatever comes back, a yielded path is not excluded, the
/// exclude set stays as it is, and the directories that wait stay clear of
/// it. Where the directory that the walk began with is not excluded either,
/// no directory of the walk ever is.
pub proof fn lemma_step_avoids_excluded(state: WalkerState, event: DirEvent)
    ensures
        step(state, event).0.exclude == state.exclude,
        step(state, event).1 matches Progress::Yielded(path) ==> !state.exclude.contains(path@),
        waiting_clear(state) ==> waiting_clear(step(state, event).0),
        all_clear(state) ==> all_clear(step(state, event).0),
{
    let next = step(state, event).0;
    if state.pending.len() > 0 {
        let seen = marked(state.pending, event);
        assert(forall|i: int| 0 <= i < seen.len() ==> (#[trigger] seen[i]).path
            == state.pending[i].path);
        if waiting_clear(state) {
            assert forall|i: int| 1 <= i < next.pending.len() implies !next.exclude.contains(
                (#[trigger] next.pending[i]).path@,
            ) by {
                if i < seen.len() {
                    assert(seen[i].path == state.pending[i].path);
                }
            }
        }
        if all_clear(state) {
            assert forall|i: int| 0 <= i < next.pending.len() implies !next.exclude.contains(
                (#[trigger] next.pending[i]).path@,
            ) by {
                if i < seen.len() {
                    assert(seen[i].path == state.pending[i].path);
                    assert(seen[seen.len() - 1].path == state.pending[seen.len() - 1].path);
                }
            }
        }
    }
}

impl View for DeepProtoWalker {
    type V = WalkerState;

    closed spec fn view(&self) -> WalkerState {
        WalkerState { pending: self.children@, exclude: self.exclude@ }
    }
}

impl DeepProtoWalker {
    /// A walk below `path` that passes over the paths of `exclude`.
    pub fn new(path: String, exclude: ExcludeSet) -> (out: DeepProtoWalker)
        ensures
            out@ == (WalkerState {
                pending: seq![Directory { path, opened: false }],
                exclude: exclude@,
            }),
    {
        let mut children: Vec<Directory> = Vec::new();
        children.push(Directory::new(path));
        let out = DeepProtoWalker { children, exclude };
        assert(out@.pending =~= seq![Directory { path, opened: false }]);
        out
    }

    /// Tells whether the walk passes over `path`.
    pub fn should_skip(&self, path: &str) -> (out: bool)
        ensures
            out == self@.exclude.contains(path@),
    {
        self.exclude.contains(path)
    }

    /// The directory whose next entry the walk wants, or nothing where the
    /// walk is over.
    pub fn current(&self) -> (out: Option<&Directory>)
        ensures
            out is None <==> self@.pending.len() == 0,
            out matches Some(directory) ==> *directory == self@.pending[0],
    {
        if self.children.len() == 0 {
            None
        } else {
            Some(&self.children[0])
        }
    }

    /// Takes what came back for the directory being read and makes one step.
    pub fn next(&mut self, event: DirEvent) -> (out: Progress)
        ensures
            (final(self)@, out) == step(old(self)@, event),
    {
        if self.children.len() == 0 {
            return Progress::Finished;
        }
        let item = self.children[0].next(event);
        assert(self.children@ =~= marked(old(self).children@, event));
        match item {
            None => {
                self.children.swap_remove(0);
                Progress::Pending
            },
            Some(Err(e)) => Progress::Failed(e),
            Some(Ok(EntryType::Dir(path))) => {
                if !self.should_skip(path.as_str()) {
                    self.children.push(Directory::new(path));
                }
                Progress::Pending
            },
            Some(Ok(EntryType::Proto(path))) => {
                if self.should_skip(path.as_str()) {
                    Progress::Pending
                } else {
                    Progress::Yielded(path)
                }
            },
            Some(Ok(EntryType::Unknown(_))) => Progress::Pending,
        }
    }
}

} // verus!
