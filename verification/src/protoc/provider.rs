//! Providing the compiler: a cache directory for each version, filled from a
//! release archive when it lacks the compiler.

pub mod github;

use vstd::prelude::*;
use vstd::string::*;
use crate::config::{version_text, Version};
use crate::path::{
    enclose, enclosed, join_path, joined, lemma_enclosed_stays_below, parent, parent_of,
    stays_below,
};
use crate::protoc::layout::{
    binary_path_of, include_path_of, platform_of, push_binary_path, push_include_path,
    target_platform, Target,
};
use crate::text::{ends_with, has_suffix};

verus! {

/// Why the compiler could not be provided.
#[derive(Clone, Debug, PartialEq, Eq)]
pub enum DownloadError {
    /// The file system failed, or the archive could not be read; the text
    /// says how.
    Io(String),
    /// The request to the release registry failed; the text says how.
    Request(String),
    /// The release has no asset for the platform.
    NotFound,
    /// The archive was unpacked, but the compiler or its include directory is
    /// not where it should be.
    Corrupted,
}

/// A `DownloadError` with its texts as sequences of characters.
pub enum DownloadFailure {
    /// The file system failed, or the archive could not be read.
    Io(Seq<char>),
    /// The request failed.
    Request(Seq<char>),
    /// The release has no asset for the platform.
    NotFound,
    /// The compiler or its include directory is missing.
    Corrupted,
}

impl View for DownloadError {
    type V = DownloadFailure;

    open spec fn view(&self) -> DownloadFailure {
        match *self {
            DownloadError::Io(message) => DownloadFailure::Io(message@),
            DownloadError::Request(message) => DownloadFailure::Request(message@),
            DownloadError::NotFound => DownloadFailure::NotFound,
            DownloadError::Corrupted => DownloadFailure::Corrupted,
        }
    }
}

/// What a `DownloadError` says.
pub open spec fn download_message(e: DownloadFailure) -> Seq<char> {
    match e {
        DownloadFailure::Io(message) => message,
        DownloadFailure::Request(message) => message,
        DownloadFailure::NotFound => "not found"@,
        DownloadFailure::Corrupted => "corrupted"@,
    }
}

impl DownloadError {
    /// Says what went wrong.
    pub fn message(&self) -> (out: String)
        ensures
            out@ == download_message(self@),
    {
        match self {
            DownloadError::Io(message) => message.clone(),
            DownloadError::Request(message) => message.clone(),
            DownloadError::NotFound => String::from_str("not found"),
            DownloadError::Corrupted => String::from_str("corrupted"),
        }
    }
}

/// What lies at a path.
#[derive(Clone, Copy, Debug, PartialEq, Eq, Structural)]
pub enum PathKind {
    /// Nothing.
    Missing,
    /// A regular file.
    File,
    /// A directory.
    Dir,
    /// Something else.
    Other,
}

/// One entry of an archive, as it was read.
#[derive(Clone, Debug, PartialEq, Eq)]
pub struct ArchiveEntry {
    /// The entry's name as the archive holds it.
    pub name: String,
    /// The entry's Unix permission bits, where the archive holds them.
    pub mode: Option<u32>,
    /// The entry's contents.
    pub data: Vec<u8>,
}

/// What is to be written for one entry of an archive.
#[derive(Clone, Debug, PartialEq, Eq)]
pub struct Extraction {
    /// The path to write to.
    pub path: String,
    /// The directory to make first, with those above it, where it is missing.
    pub parent: String,
    /// Whether a directory is to be made at the path, and not a file written.
    pub directory: bool,
    /// The contents of the file.
    pub data: Vec<u8>,
    /// The permission bits to set afterwards, on systems that have them.
    pub mode: Option<u32>,
}

/// Whether `extraction` is what is to be written for `entry` below `cache`:
/// the entry's name, made a relative path that leads nowhere else, placed
/// below `cache`; a directory where the name ends with `/`; with the entry's
/// contents and permission bits.
pub open spec fn extracts(extraction: Extraction, entry: ArchiveEntry, cache: Seq<char>) -> bool {
    &&& extraction.path@ == joined(cache, enclosed(entry.name@))
    &&& extraction.parent@ == parent_of(extraction.path@)
    &&& extraction.directory == has_suffix(entry.name@, "/"@)
    &&& extraction.data@ == entry.data@
    &&& extraction.mode == entry.mode
}

/// Whether `plan` unpacks `entries` below `cache`: one extraction for each
/// entry, in order.
pub open spec fn unpacks_all(
    plan: Seq<Extraction>,
    entries: Seq<ArchiveEntry>,
    cache: Seq<char>,
) -> bool {
    plan.len() == entries.len() && forall|i: int|
        0 <= i < plan.len() ==> extracts(#[trigger] plan[i], entries[i], cache)
}

/// Nothing is unpacked outside the cache directory: whatever the names in the
/// archive, every path of a plan lies below the directory that the plan was
/// made for.
pub proof fn lemma_plan_stays_below(
    plan: Seq<Extraction>,
    entries: Seq<ArchiveEntry>,
    cache: Seq<char>,
)
    requires
        unpacks_all(plan, entries, cache),
    ensures
        forall|i: int| 0 <= i < plan.len() ==> stays_below((#[trigger] plan[i]).path@, cache),
{
    assert forall|i: int| 0 <= i < plan.len() implies stays_below(
        (#[trigger] plan[i]).path@,
        cache,
    ) by {
        assert(extracts(plan[i], entries[i], cache));
        lemma_enclosed_stays_below(cache, entries[i].name@);
    }
}

/// Says what is to be written for `entry` below the directory `cache`.
pub fn extraction_of(entry: ArchiveEntry, cache: &str) -> (out: Extraction)
    ensures
        extracts(out, entry, cache@),
{
    let target = enclose(entry.name.as_str());
    let path = join_path(cache, target.as_str());
    let parent = parent(path.as_str());
    let directory = ends_with(entry.name.as_str(), "/");
    Extraction { path, parent, directory, data: entry.data, mode: entry.mode }
}

/// Plans the unpacking of the entries of an archive below the directory
/// `cache`: one extraction for each entry, in the archive's order.
pub fn extract_zip(entries: Vec<ArchiveEntry>, cache: &str) -> (out: Vec<Extraction>)
    ensures
        unpacks_all(out@, entries@, cache@),
{
    let mut rest = entries;
    let mut plan: Vec<Extraction> = Vec::new();
    while rest.len() > 0
        invariant
            plan@.len() + rest@.len() == entries@.len(),
            rest@ == entries@.subrange(plan@.len() as int, entries@.len() as int),
            forall|k: int|
                0 <= k < plan@.len() ==> extracts(#[trigger] plan@[k], entries@[k], cache@),
        decreases rest.len(),
    {
        let ghost done = plan@.len() as int;
        let entry = rest.remove(0);
        assert(entry == entries@[done]);
        assert(rest@ =~= entries@.subrange(done + 1, entries@.len() as int));
        plan.push(extraction_of(entry, cache));
    }
    plan
}

/// The provider of one version of the compiler below a cache directory.
#[derive(Debug)]
pub struct ProtocProvider {
    version: String,
    caches_path: String,
    binary_path: String,
    include_path: String,
    target: Target,
}

/// What a provider is made of.
pub struct ProviderView {
    /// The tag of the release: `v` and the version.
    pub version: Seq<char>,
    /// The cache directory of this version.
    pub caches_path: Seq<char>,
    /// Where the compiler's binary is to lie.
    pub binary_path: Seq<char>,
    /// Where the compiler's include directory is to lie.
    pub include_path: Seq<char>,
    /// What the run is built for.
    pub target: Target,
}

/// The provider of `version` for `target` below the cache root `caches`: its
/// directory is named by the release tag, and the compiler's files lie below
/// that.
pub open spec fn provider_of(version: Version, caches: Seq<char>, target: Target) -> ProviderView {
    let tag = "v"@ + version_text(version);
    let cache = joined(caches, tag);
    ProviderView {
        version: tag,
        caches_path: cache,
        binary_path: binary_path_of(cache, target.os),
        include_path: include_path_of(cache),
        target,
    }
}

/// Whether the cache holds the compiler: a regular file lies where the binary
/// is to lie, and a directory where the include directory is to lie.
pub open spec fn satisfied(binary: PathKind, includes: PathKind) -> bool {
    binary == PathKind::File && includes == PathKind::Dir
}

/// How far the provisioning has come.
#[derive(Clone, Copy, Debug, PartialEq, Eq, Structural)]
pub enum Stage {
    /// Nothing was done yet.
    Idle,
    /// The cache directory is being cleared.
    Cleaning,
    /// The release archive is being fetched.
    Fetching,
    /// The archive is being read from the cache directory.
    Loading,
    /// The archive is being unpacked.
    Unpacking,
    /// It is being looked up what lies where the compiler's files should.
    Checking,
    /// The provisioning is over.
    Finished,
}

/// What came of the step that the provisioning asked for.
#[derive(Debug, PartialEq, Eq)]
pub enum ProvisionEvent {
    /// The provisioning is to begin.
    Start,
    /// The cache directory was cleared, or could not be.
    Cleaned(Result<(), String>),
    /// The archive was fetched into the cache directory under the given name,
    /// or could not be.
    Fetched(Result<String, DownloadError>),
    /// The archive was read: these are its entries, in its order. Or it could
    /// not be read.
    Loaded(Result<Vec<ArchiveEntry>, String>),
    /// The plan was carried out, or could not be.
    Unpacked(Result<(), String>),
    /// What lies where the compiler's files should.
    Checked {
        /// What lies at the binary's path.
        binary: PathKind,
        /// What lies at the include directory's path.
        includes: PathKind,
    },
}

/// What the provisioning asks for next.
#[derive(Debug, PartialEq, Eq)]
pub enum ProvisionStep {
    /// Remove everything in the directory.
    Clean {
        /// The directory to clear.
        dir: String,
    },
    /// Fetch the release asset of the tag for the platform into the directory.
    Fetch {
        /// The release tag.
        tag: String,
        /// The platform token.
        platform: String,
        /// The directory to put the archive in.
        dir: String,
    },
    /// Read the archive: its entries in its order, each with its name, its
    /// permission bits and its contents.
    Load {
        /// Where the archive lies.
        path: String,
    },
    /// Carry out the plan, in order.
    Unpack {
        /// What to write.
        plan: Vec<Extraction>,
    },
    /// Look up what lies at the two paths.
    Check {
        /// The binary's path.
        binary: String,
        /// The include directory's path.
        includes: String,
    },
    /// Nothing: the provisioning is over, and this is how it ended.
    Done(Result<(), DownloadError>),
}

/// A `ProvisionStep` with its texts as sequences of characters.
pub enum StepView {
    /// Clear the directory.
    Clean { dir: Seq<char> },
    /// Fetch the asset.
    Fetch { tag: Seq<char>, platform: Seq<char>, dir: Seq<char> },
    /// Read the archive.
    Load { path: Seq<char> },
    /// Carry out the plan.
    Unpack { plan: Seq<Extraction> },
    /// Look up what lies at the two paths.
    Check { binary: Seq<char>, includes: Seq<char> },
    /// The provisioning is over: with this failure, or with none.
    Done(Option<DownloadFailure>),
}

impl View for ProvisionStep {
    type V = StepView;

    open spec fn view(&self) -> StepView {
        match *self {
            ProvisionStep::Clean { dir } => StepView::Clean { dir: dir@ },
            ProvisionStep::Fetch { tag, platform, dir } => StepView::Fetch {
                tag: tag@,
                platform: platform@,
                dir: dir@,
            },
            ProvisionStep::Load { path } => StepView::Load { path: path@ },
            ProvisionStep::Unpack { plan } => StepView::Unpack { plan: plan@ },
            ProvisionStep::Check { binary, includes } => StepView::Check {
                binary: binary@,
                includes: includes@,
            },
            ProvisionStep::Done(Ok(_)) => StepView::Done(None),
            ProvisionStep::Done(Err(e)) => StepView::Done(Some(e@)),
        }
    }
}

/// Whether `step` asks to unpack `entries` below `cache`, one extraction for
/// each entry in order.
pub open spec fn unpacks(step: StepView, entries: Seq<ArchiveEntry>, cache: Seq<char>) -> bool {
    step matches StepView::Unpack { plan } && unpacks_all(plan, entries, cache)
}

/// Whether the provisioning of `provider`, at `stage` and told `event`, goes
/// on to `next` and asks for `step`.
///
/// It clears the cache directory, has the archive fetched, reads and unpacks
/// it, and ends well exactly when the cache then holds the compiler. The
/// first failure ends it. So does an event that the stage did not ask for.
pub open spec fn provisions(
    provider: ProviderView,
    stage: Stage,
    event: ProvisionEvent,
    next: Stage,
    step: StepView,
) -> bool {
    match (stage, event) {
        (Stage::Idle, ProvisionEvent::Start) => next == Stage::Cleaning && step
            == (StepView::Clean { dir: provider.caches_path }),
        (Stage::Cleaning, ProvisionEvent::Cleaned(Ok(_))) => next == Stage::Fetching && step == (
            StepView::Fetch {
                tag: provider.version,
                platform: platform_of(provider.target),
                dir: provider.caches_path,
            }),
        (Stage::Cleaning, ProvisionEvent::Cleaned(Err(message))) => next == Stage::Finished
            && step == StepView::Done(Some(DownloadFailure::Io(message@))),
        (Stage::Fetching, ProvisionEvent::Fetched(Ok(name))) => next == Stage::Loading && step == (
            StepView::Load { path: joined(provider.caches_path, name@) }),
        (Stage::Fetching, ProvisionEvent::Fetched(Err(e))) => next == Stage::Finished && step
            == StepView::Done(Some(e@)),
        (Stage::Loading, ProvisionEvent::Loaded(Ok(entries))) => next == Stage::Unpacking
            && unpacks(step, entries@, provider.caches_path),
        (Stage::Loading, ProvisionEvent::Loaded(Err(message))) => next == Stage::Finished && step
            == StepView::Done(Some(DownloadFailure::Io(message@))),
        (Stage::Unpacking, ProvisionEvent::Unpacked(Ok(_))) => next == Stage::Checking && step == (
            StepView::Check { binary: provider.binary_path, includes: provider.include_path }),
        (Stage::Unpacking, ProvisionEvent::Unpacked(Err(message))) => next == Stage::Finished
            && step == StepView::Done(Some(DownloadFailure::Io(message@))),
        (Stage::Checking, ProvisionEvent::Checked { binary, includes }) => next == Stage::Finished
            && step == StepView::Done(
            if satisfied(binary, includes) {
                None
            } else {
                Some(DownloadFailure::Corrupted)
            },
        ),
        _ => next == Stage::Finished && step == StepView::Done(
            Some(DownloadFailure::Io("event out of turn"@)),
        ),
    }
}

/// The provisioning ends well only from the last look at the cache, and only
/// if that found the compiler: a regular file where its binary is to lie and
/// a directory where its include directory is to lie, both at once.
pub proof fn lemma_success_means_present(
    provider: ProviderView,
    stage: Stage,
    event: ProvisionEvent,
    next: Stage,
    step: StepView,
)
    requires
        provisions(provider, stage, event, next, step),
        step == StepView::Done(None),
    ensures
        stage == Stage::Checking,
        next == Stage::Finished,
        event is Checked,
        satisfied(event->binary, event->includes),
{
}

/// A release without an asset for the platform ends the provisioning at
/// once: nothing is read and nothing unpacked, and the compiler is reported
/// as not found.
pub proof fn lemma_not_found_ends(provider: ProviderView, next: Stage, step: StepView)
    requires
        provisions(
            provider,
            Stage::Fetching,
            ProvisionEvent::Fetched(Err(DownloadError::NotFound)),
            next,
            step,
        ),
    ensures
        next == Stage::Finished,
        step == StepView::Done(Some(DownloadFailure::NotFound)),
{
}

/// Once the provisioning is over it stays over: whatever it is told then, it
/// asks for nothing more.
pub proof fn lemma_finished_stays(
    provider: ProviderView,
    event: ProvisionEvent,
    next: Stage,
    step: StepView,
)
    requires
        provisions(provider, Stage::Finished, event, next, step),
    ensures
        next == Stage::Finished,
        step is Done,
{
}

/// Where every step does what it is asked for and the cache then holds the
/// compiler, the provisioning goes through its stages in order and ends
/// well: it clears the cache directory, has the asset for the platform
/// fetched into it, reads the archive from there, has it unpacked, and looks
/// at the paths of the compiler's binary and include directory.
pub proof fn lemma_provisioning_path(
    provider: ProviderView,
    name: String,
    entries: Vec<ArchiveEntry>,
    stages: Seq<Stage>,
    steps: Seq<StepView>,
)
    requires
        stages.len() == 6,
        steps.len() == 6,
        provisions(provider, Stage::Idle, ProvisionEvent::Start, stages[0], steps[0]),
        provisions(provider, stages[0], ProvisionEvent::Cleaned(Ok(())), stages[1], steps[1]),
        provisions(provider, stages[1], ProvisionEvent::Fetched(Ok(name)), stages[2], steps[2]),
        provisions(provider, stages[2], ProvisionEvent::Loaded(Ok(entries)), stages[3], steps[3]),
        provisions(provider, stages[3], ProvisionEvent::Unpacked(Ok(())), stages[4], steps[4]),
        provisions(
            provider,
            stages[4],
            ProvisionEvent::Checked { binary: PathKind::File, includes: PathKind::Dir },
            stages[5],
            steps[5],
        ),
    ensures
        stages == seq![
            Stage::Cleaning,
            Stage::Fetching,
            Stage::Loading,
            Stage::Unpacking,
            Stage::Checking,
            Stage::Finished,
        ],
        steps[0] == (StepView::Clean { dir: provider.caches_path }),
        steps[1] == (StepView::Fetch {
            tag: provider.version,
            platform: platform_of(provider.target),
            dir: provider.caches_path,
        }),
        steps[2] == (StepView::Load { path: joined(provider.caches_path, name@) }),
        unpacks(steps[3], entries@, provider.caches_path),
        steps[4] == (StepView::Check {
            binary: provider.binary_path,
            includes: provider.include_path,
        }),
        steps[5] == StepView::Done(None),
{
    assert(stages =~= seq![
        Stage::Cleaning,
        Stage::Fetching,
        Stage::Loading,
        Stage::Unpacking,
        Stage::Checking,
        Stage::Finished,
    ]);
}

/// Nothing is fetched into a cache directory that was not cleared first, and
/// nothing unpacked that was not fetched: the provisioning asks for the
/// archive only when it is told that the directory is clear, and for the
/// unpacking only when it is handed the archive.
pub proof fn lemma_steps_in_order(
    provider: ProviderView,
    stage: Stage,
    event: ProvisionEvent,
    next: Stage,
    step: StepView,
)
    requires
        provisions(provider, stage, event, next, step),
    ensures
        step is Fetch ==> stage == Stage::Cleaning && event is Cleaned && event->Cleaned_0 is Ok,
        step is Load ==> stage == Stage::Fetching && event is Fetched,
        step is Unpack ==> stage == Stage::Loading && event is Loaded,
        step is Check ==> stage == Stage::Unpacking && event is Unpacked && event->Unpacked_0
            is Ok,
{
}

impl View for ProtocProvider {
    type V = ProviderView;

    closed spec fn view(&self) -> ProviderView {
        ProviderView {
            version: self.version@,
            caches_path: self.caches_path@,
            binary_path: self.binary_path@,
            include_path: self.include_path@,
            target: self.target,
        }
    }
}

fn out_of_turn() -> (out: (Stage, ProvisionStep))
    ensures
        out.0 == Stage::Finished,
        out.1@ == StepView::Done(Some(DownloadFailure::Io("event out of turn"@))),
{
    (
        Stage::Finished,
        ProvisionStep::Done(Err(DownloadError::Io(String::from_str("event out of turn")))),
    )
}

fn failed(message: String) -> (out: (Stage, ProvisionStep))
    ensures
        out.0 == Stage::Finished,
        out.1@ == StepView::Done(Some(DownloadFailure::Io(message@))),
{
    (Stage::Finished, ProvisionStep::Done(Err(DownloadError::Io(message))))
}

impl ProtocProvider {
    /// The provider of `version` for `target` below the cache root
    /// `caches_path`.
    pub fn new(version: &Version, caches_path: String, target: Target) -> (out: ProtocProvider)
        ensures
            out@ == provider_of(*version, caches_path@, target),
    {
        let mut tag = String::from_str("v");
        tag.append(version.render().as_str());
        let cache = join_path(caches_path.as_str(), tag.as_str());
        let mut binary_path = cache.clone();
        push_binary_path(&mut binary_path, target.os);
        let mut include_path = cache.clone();
        push_include_path(&mut include_path);
        ProtocProvider { version: tag, caches_path: cache, binary_path, include_path, target }
    }

    /// Where the compiler's binary is to lie.
    pub fn binary_location(&self) -> (out: &str)
        ensures
            out@ == self@.binary_path,
    {
        self.binary_path.as_str()
    }

    /// Where the compiler's include directory is to lie.
    pub fn include_location(&self) -> (out: &str)
        ensures
            out@ == self@.include_path,
    {
        self.include_path.as_str()
    }

    /// The path of the compiler's binary, if `found`, which is what lies
    /// there now, is a regular file.
    pub fn binary_path(&self, found: PathKind) -> (out: Option<&str>)
        ensures
            out is Some <==> found == PathKind::File,
            out matches Some(path) ==> path@ == self@.binary_path,
    {
        match found {
            PathKind::File => Some(self.binary_path.as_str()),
            _ => None,
        }
    }

    /// The path of the compiler's include directory, if `found`, which is
    /// what lies there now, is a directory.
    pub fn include_path(&self, found: PathKind) -> (out: Option<&str>)
        ensures
            out is Some <==> found == PathKind::Dir,
            out matches Some(path) ==> path@ == self@.include_path,
    {
        match found {
            PathKind::Dir => Some(self.include_path.as_str()),
            _ => None,
        }
    }

    /// Makes one step of the provisioning: takes what came of the step before
    /// and says what is to be done next.
    pub fn download(&self, stage: Stage, event: ProvisionEvent) -> (out: (Stage, ProvisionStep))
        ensures
            provisions(self@, stage, event, out.0, out.1@),
    {
        match stage {
            Stage::Idle => match event {
                ProvisionEvent::Start => (
                    Stage::Cleaning,
                    ProvisionStep::Clean { dir: self.caches_path.clone() },
                ),
                _ => out_of_turn(),
            },
            Stage::Cleaning => match event {
                ProvisionEvent::Cleaned(Ok(_)) => (
                    Stage::Fetching,
                    ProvisionStep::Fetch {
                        tag: self.version.clone(),
                        platform: String::from_str(target_platform(self.target)),
                        dir: self.caches_path.clone(),
                    },
                ),
                ProvisionEvent::Cleaned(Err(message)) => failed(message),
                _ => out_of_turn(),
            },
            Stage::Fetching => match event {
                ProvisionEvent::Fetched(Ok(name)) => (
                    Stage::Loading,
                    ProvisionStep::Load {
                        path: join_path(self.caches_path.as_str(), name.as_str()),
                    },
                ),
                ProvisionEvent::Fetched(Err(e)) => (Stage::Finished, ProvisionStep::Done(Err(e))),
                _ => out_of_turn(),
            },
            Stage::Loading => match event {
                ProvisionEvent::Loaded(Ok(entries)) => (
                    Stage::Unpacking,
                    ProvisionStep::Unpack {
                        plan: extract_zip(entries, self.caches_path.as_str()),
                    },
                ),
                ProvisionEvent::Loaded(Err(message)) => failed(message),
                _ => out_of_turn(),
            },
            Stage::Unpacking => match event {
                ProvisionEvent::Unpacked(Ok(_)) => (
                    Stage::Checking,
                    ProvisionStep::Check {
                        binary: self.binary_path.clone(),
                        includes: self.include_path.clone(),
                    },
                ),
                ProvisionEvent::Unpacked(Err(message)) => failed(message),
                _ => out_of_turn(),
            },
            Stage::Checking => match event {
                ProvisionEvent::Checked { binary, includes } => {
                    match (self.binary_path(binary), self.include_path(includes)) {
                        (Some(_), Some(_)) => (Stage::Finished, ProvisionStep::Done(Ok(()))),
                        _ => (
                            Stage::Finished,
                            ProvisionStep::Done(Err(DownloadError::Corrupted)),
                        ),
                    }
                },
                _ => out_of_turn(),
            },
            Stage::Finished => out_of_turn(),
        }
    }
}

} // verus!
