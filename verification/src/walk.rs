//! Discovery of `.proto` sources. The walkers here never touch the file system:
//! each says which directory it wants read next, and is handed what was found
//! there, one entry at a time.

pub mod deep;
pub mod directory;
pub mod tree;

use vstd::prelude::*;
use vstd::string::*;
use crate::path::{absolute, is_absolute, join_path, joined, normalize, normalized, same_path};
use crate::text::{copy_texts, texts};
use crate::walk::deep::{DeepProtoWalker, WalkerState};
use crate::walk::directory::{opened_after, DirEvent, Directory, FileKind};

verus! {

/// Why a walk stopped.
#[derive(Clone, Debug, PartialEq, Eq)]
pub enum WalkError {
    /// A directory could not be read, or an entry could not be inspected; the
    /// text says what the system reported.
    Io(String),
    /// An exclude path was absolute where a path relative to the root is
    /// expected.
    InvalidExclude,
    /// The path of a directory is not text.
    NotText,
}

/// What a `WalkError` says.
pub open spec fn walk_message(e: WalkError) -> Seq<char> {
    match e {
        WalkError::Io(message) => message@,
        WalkError::InvalidExclude => "related path expected"@,
        WalkError::NotText => "utf-8 path expected"@,
    }
}

impl WalkError {
    /// Says what went wrong.
    pub fn message(&self) -> (out: String)
        ensures
            out@ == walk_message(*self),
    {
        match self {
            WalkError::Io(message) => message.clone(),
            WalkError::InvalidExclude => String::from_str("related path expected"),
            WalkError::NotText => String::from_str("utf-8 path expected"),
        }
    }

    /// A copy of this error.
    pub fn duplicate(&self) -> (out: WalkError)
        ensures
            out == *self,
    {
        match self {
            WalkError::Io(message) => WalkError::Io(message.clone()),
            WalkError::InvalidExclude => WalkError::InvalidExclude,
            WalkError::NotText => WalkError::NotText,
        }
    }
}

/// The set of paths that a walk passes over. A path is excluded exactly when
/// it is the same path as one of the set: texts that differ only in a `/` at
/// the end, in a `/` written twice or in a segment `.` are the same path.
/// Nothing is excluded for lying below an excluded path.
#[derive(Clone, Debug, PartialEq, Eq)]
pub struct ExcludeSet {
    paths: Vec<String>,
}

/// The texts that are the same path as one of `paths`.
pub open spec fn excluding(paths: Seq<Seq<char>>) -> Set<Seq<char>> {
    Set::new(
        |p: Seq<char>| exists|i: int| 0 <= i < paths.len() && same_path(p, #[trigger] paths[i]),
    )
}

/// Each of `relative` placed below `root`.
pub open spec fn placed(root: Seq<char>, relative: Seq<Seq<char>>) -> Seq<Seq<char>> {
    Seq::new(relative.len(), |i: int| joined(root, relative[i]))
}

/// What is excluded by the paths `relative`, each resolved against `root`.
pub open spec fn resolved(root: Seq<char>, relative: Seq<Seq<char>>) -> Set<Seq<char>> {
    excluding(placed(root, relative))
}

/// Whether some path of `paths` is absolute.
pub open spec fn any_absolute(paths: Seq<Seq<char>>) -> bool {
    exists|i: int| 0 <= i < paths.len() && is_absolute(#[trigger] paths[i])
}

impl View for ExcludeSet {
    type V = Set<Seq<char>>;

    closed spec fn view(&self) -> Set<Seq<char>> {
        Set::new(|p: Seq<char>| texts(self.paths@).contains(normalized(p)))
    }
}

impl ExcludeSet {
    /// The set that excludes nothing.
    pub fn empty() -> (out: ExcludeSet)
        ensures
            out@ == Set::<Seq<char>>::empty(),
    {
        let out = ExcludeSet { paths: Vec::new() };
        assert(out@ =~= Set::<Seq<char>>::empty());
        out
    }

    /// The set that holds the normal forms `kept` of the paths `paths`.
    fn of_normal_forms(kept: Vec<String>, Ghost(paths): Ghost<Seq<Seq<char>>>) -> (out: ExcludeSet)
        requires
            kept@.len() == paths.len(),
            forall|k: int| 0 <= k < paths.len() ==> (#[trigger] kept@[k])@ == normalized(paths[k]),
        ensures
            out@ == excluding(paths),
    {
        let out = ExcludeSet { paths: kept };
        proof {
            assert forall|p: Seq<char>| out@.contains(p) <==> excluding(paths).contains(p) by {
                if out@.contains(p) {
                    let k = choose|k: int|
                        0 <= k < kept@.len() && texts(kept@)[k] == normalized(p);
                    assert(same_path(p, paths[k]));
                }
                if excluding(paths).contains(p) {
                    let k = choose|k: int|
                        0 <= k < paths.len() && same_path(p, #[trigger] paths[k]);
                    assert(texts(kept@)[k] == normalized(p));
                }
            }
            assert(out@ =~= excluding(paths));
        }
        out
    }

    /// The set of exactly the given paths, taken as they are.
    pub fn from_paths(paths: &Vec<String>) -> (out: ExcludeSet)
        ensures
            out@ == excluding(texts(paths@)),
    {
        let mut kept: Vec<String> = Vec::new();
        let mut i: usize = 0;
        while i < paths.len()
            invariant
                i <= paths.len(),
                kept@.len() == i,
                forall|k: int| 0 <= k < i ==> (#[trigger] kept@[k])@ == normalized(paths@[k]@),
            decreases paths.len() - i,
        {
            kept.push(normalize(paths[i].as_str()));
            i = i + 1;
        }
        ExcludeSet::of_normal_forms(kept, Ghost(texts(paths@)))
    }

    /// Builds the set from paths relative to `root`, each resolved against it.
    /// An absolute path among them is refused, and then no set is built.
    pub fn resolve(root: &str, relative: &Vec<String>) -> (out: Result<ExcludeSet, WalkError>)
        ensures
            out is Err <==> any_absolute(texts(relative@)),
            out matches Err(e) ==> e == WalkError::InvalidExclude,
            out matches Ok(set) ==> set@ == resolved(root@, texts(relative@)),
    {
        let mut kept: Vec<String> = Vec::new();
        let mut i: usize = 0;
        while i < relative.len()
            invariant
                i <= relative.len(),
                kept@.len() == i,
                forall|k: int| 0 <= k < i ==> !is_absolute(#[trigger] texts(relative@)[k]),
                forall|k: int|
                    0 <= k < i ==> (#[trigger] kept@[k])@ == normalized(
                        joined(root@, relative@[k]@),
                    ),
            decreases relative.len() - i,
        {
            if absolute(relative[i].as_str()) {
                assert(is_absolute(texts(relative@)[i as int]));
                return Err(WalkError::InvalidExclude);
            }
            kept.push(normalize(join_path(root, relative[i].as_str()).as_str()));
            i = i + 1;
        }
        Ok(ExcludeSet::of_normal_forms(kept, Ghost(placed(root@, texts(relative@)))))
    }

    /// Tells whether `path` is excluded.
    pub fn contains(&self, path: &str) -> (out: bool)
        ensures
            out == self@.contains(path@),
    {
        let probe = normalize(path);
        let mut i: usize = 0;
        while i < self.paths.len()
            invariant
                i <= self.paths.len(),
                probe@ == normalized(path@),
                forall|k: int| 0 <= k < i ==> texts(self.paths@)[k] != probe@,
            decreases self.paths.len() - i,
        {
            if self.paths[i] == probe {
                assert(texts(self.paths@)[i as int] == probe@);
                return true;
            }
            i = i + 1;
        }
        false
    }

    /// A copy of this set.
    pub fn duplicate(&self) -> (out: ExcludeSet)
        ensures
            out@ == self@,
    {
        ExcludeSet { paths: copy_texts(&self.paths) }
    }
}

/// The walk over the pages of a project: the directories directly below its
/// root, each handed out as a deep walk of its own.
#[derive(Debug)]
pub struct PagingProtoWalker {
    path: String,
    opened: bool,
    exclude: ExcludeSet,
}

/// What a paging walk is made of.
pub struct PagingState {
    /// The project root.
    pub path: Seq<char>,
    /// Whether the root's listing has been opened.
    pub opened: bool,
    /// The paths that every page passes over.
    pub exclude: Set<Seq<char>>,
}

/// What one step of a paging walk came to.
#[derive(Debug)]
pub enum PageStep {
    /// The next page.
    Page(DeepProtoWalker),
    /// The root could not be read; what the walk does afterwards is of no use.
    Failed(WalkError),
    /// The entry was no directory: the walk wants the next one.
    Pending,
    /// The root has no further entry.
    Finished,
}

/// What a step of a paging walk came to, a page being taken by its state.
pub enum PageOutcome {
    /// The next page.
    Page(WalkerState),
    /// The root could not be read.
    Failed(WalkError),
    /// The entry was no directory.
    Pending,
    /// The root has no further entry.
    Finished,
}

impl View for PageStep {
    type V = PageOutcome;

    open spec fn view(&self) -> PageOutcome {
        match *self {
            PageStep::Page(walker) => PageOutcome::Page(walker@),
            PageStep::Failed(e) => PageOutcome::Failed(e),
            PageStep::Pending => PageOutcome::Pending,
            PageStep::Finished => PageOutcome::Finished,
        }
    }
}

/// The state in which the deep walk of the page at `path` begins.
pub open spec fn page_at(path: String, exclude: Set<Seq<char>>) -> WalkerState {
    WalkerState { pending: seq![Directory { path, opened: false }], exclude }
}

/// One step of a paging walk: an entry of the root that is a directory
/// becomes a page, whatever its name and whether or not it is excluded; any
/// other entry is passed over. A directory whose path is not text is a
/// failure.
pub open spec fn paging_step(state: PagingState, event: DirEvent) -> (PagingState, PageOutcome) {
    let next = PagingState {
        path: state.path,
        opened: opened_after(state.opened, event),
        exclude: state.exclude,
    };
    let outcome = match event {
        DirEvent::OpenFailed(message) => PageOutcome::Failed(WalkError::Io(message)),
        DirEvent::ReadFailed(message) => PageOutcome::Failed(WalkError::Io(message)),
        DirEvent::End => PageOutcome::Finished,
        DirEvent::Entry(entry) => if entry.kind == FileKind::Dir {
            PageOutcome::Page(page_at(entry.path, state.exclude))
        } else {
            PageOutcome::Pending
        },
        DirEvent::NotText { path, kind } => if kind == FileKind::Dir {
            PageOutcome::Failed(WalkError::NotText)
        } else {
            PageOutcome::Pending
        },
    };
    (next, outcome)
}

impl View for PagingProtoWalker {
    type V = PagingState;

    closed spec fn view(&self) -> PagingState {
        PagingState { path: self.path@, opened: self.opened, exclude: self.exclude@ }
    }
}

impl PagingProtoWalker {
    /// A paging walk over the project at `path` that excludes nothing.
    pub fn new(path: String) -> (out: PagingProtoWalker)
        ensures
            out@ == (PagingState { path: path@, opened: false, exclude: Set::empty() }),
    {
        PagingProtoWalker { path, opened: false, exclude: ExcludeSet::empty() }
    }

    /// The project root.
    pub fn path(&self) -> (out: &str)
        ensures
            out@ == self@.path,
    {
        self.path.as_str()
    }

    /// Whether the root's listing has been opened.
    pub fn is_open(&self) -> (out: bool)
        ensures
            out == self@.opened,
    {
        self.opened
    }

    /// Sets the paths that every page passes over, each given relative to the
    /// root. An absolute path among them is refused, and the walk then keeps
    /// the set that it had.
    pub fn set_exclude(&mut self, relative: &Vec<String>) -> (out: Result<(), WalkError>)
        ensures
            out is Err <==> any_absolute(texts(relative@)),
            out matches Err(e) ==> e == WalkError::InvalidExclude && final(self)@ == old(self)@,
            out is Ok ==> final(self)@ == (PagingState {
                exclude: resolved(old(self)@.path, texts(relative@)),
                ..old(self)@
            }),
    {
        match ExcludeSet::resolve(self.path.as_str(), relative) {
            Ok(set) => {
                self.exclude = set;
                Ok(())
            },
            Err(e) => Err(e),
        }
    }

    /// Takes what came back for the root and makes one step.
    pub fn next(&mut self, event: DirEvent) -> (out: PageStep)
        ensures
            (final(self)@, out@) == paging_step(old(self)@, event),
    {
        match event {
            DirEvent::OpenFailed(message) => PageStep::Failed(WalkError::Io(message)),
            DirEvent::ReadFailed(message) => {
                self.opened = true;
                PageStep::Failed(WalkError::Io(message))
            },
            DirEvent::End => {
                self.opened = true;
                PageStep::Finished
            },
            DirEvent::Entry(entry) => {
                self.opened = true;
                match entry.kind {
                    FileKind::Dir => PageStep::Page(
                        DeepProtoWalker::new(entry.path, self.exclude.duplicate()),
                    ),
                    _ => PageStep::Pending,
                }
            },
            DirEvent::NotText { path, kind } => {
                self.opened = true;
                match kind {
                    FileKind::Dir => PageStep::Failed(WalkError::NotText),
                    _ => PageStep::Pending,
                }
            },
        }
    }

    /// A walk over the same root with the same exclude set, which begins
    /// anew: its listing is not opened, and no exclude path is resolved again.
    pub fn restart(&self) -> (out: PagingProtoWalker)
        ensures
            out@ == (PagingState { opened: false, ..self@ }),
    {
        PagingProtoWalker {
            path: self.path.clone(),
            opened: false,
            exclude: self.exclude.duplicate(),
        }
    }
}

} // verus!
