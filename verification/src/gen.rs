//! The run: for each plugin a compiler, for each page of the project one
//! invocation. The generator decides; the caller provisions, walks and
//! spawns, and tells the generator what came of it.

use vstd::prelude::*;
use vstd::string::*;
use crate::config::Config;
use crate::protoc::compiler::go::{
    go_message, made, Ancestor, GoCompiler, GoError, GoView,
};
use crate::protoc::compiler::plain::{
    command_line, first_failure, found_paths, lemma_first_failure_bound, CompilerView,
    PlainCompiler,
};
use crate::protoc::compiler::{
    any_included, plugin_of, AnyCompiler, AnyView, Plugin, PluginView,
};
use crate::protoc::layout::Target;
use crate::protoc::provider::{
    download_message, provider_of, satisfied, DownloadError, PathKind, ProtocProvider,
    ProviderView,
};
use crate::walk::deep::{DeepProtoWalker, WalkerState};
use crate::text::{copy_texts, same_text, texts};
use crate::walk::{
    any_absolute, excluding, resolved, walk_message, PagingProtoWalker, PagingState, WalkError,
};

verus! {

/// Why a run ended early.
#[derive(Clone, Debug, PartialEq, Eq)]
pub enum GenerateError {
    /// The compiler could not be provided.
    NoProtoc(String),
    /// The project could not be walked.
    ReadDirFailed(String),
    /// No invocation could be made up.
    InvocationFailed(String),
    /// The compiler could not be run, or an include path not be taken up.
    ProtocFailed(String),
}

/// A `GenerateError` with its text as a sequence of characters.
pub enum GenerateFailure {
    /// The compiler could not be provided.
    NoProtoc(Seq<char>),
    /// The project could not be walked.
    ReadDirFailed(Seq<char>),
    /// No invocation could be made up.
    InvocationFailed(Seq<char>),
    /// The compiler could not be run, or an include path not be taken up.
    ProtocFailed(Seq<char>),
}

impl View for GenerateError {
    type V = GenerateFailure;

    open spec fn view(&self) -> GenerateFailure {
        match *self {
            GenerateError::NoProtoc(message) => GenerateFailure::NoProtoc(message@),
            GenerateError::ReadDirFailed(message) => GenerateFailure::ReadDirFailed(message@),
            GenerateError::InvocationFailed(message) => GenerateFailure::InvocationFailed(message@),
            GenerateError::ProtocFailed(message) => GenerateFailure::ProtocFailed(message@),
        }
    }
}

/// What a `GenerateError` says.
pub open spec fn generate_message(e: GenerateFailure) -> Seq<char> {
    match e {
        GenerateFailure::NoProtoc(message) => "Proto compiler not found: "@ + message,
        GenerateFailure::ReadDirFailed(message) => "Failed to read directory: "@ + message,
        GenerateFailure::InvocationFailed(message) => "Protoc invocation failed: "@ + message,
        GenerateFailure::ProtocFailed(message) => "Protoc returned error: "@ + message,
    }
}

impl GenerateError {
    /// Says what went wrong.
    pub fn message(&self) -> (out: String)
        ensures
            out@ == generate_message(self@),
    {
        match self {
            GenerateError::NoProtoc(message) => {
                let mut out = String::from_str("Proto compiler not found: ");
                out.append(message.as_str());
                out
            },
            GenerateError::ReadDirFailed(message) => {
                let mut out = String::from_str("Failed to read directory: ");
                out.append(message.as_str());
                out
            },
            GenerateError::InvocationFailed(message) => {
                let mut out = String::from_str("Protoc invocation failed: ");
                out.append(message.as_str());
                out
            },
            GenerateError::ProtocFailed(message) => {
                let mut out = String::from_str("Protoc returned error: ");
                out.append(message.as_str());
                out
            },
        }
    }

    /// The failure of a run that a failed provisioning makes.
    pub fn from_download(e: DownloadError) -> (out: GenerateError)
        ensures
            out@ == GenerateFailure::NoProtoc(download_message(e@)),
    {
        GenerateError::NoProtoc(e.message())
    }

    /// The failure of a run that a Go compiler that could not be made makes.
    pub fn from_go(e: GoError) -> (out: GenerateError)
        ensures
            out@ == GenerateFailure::InvocationFailed(go_message(e@)),
    {
        GenerateError::InvocationFailed(e.message())
    }
}

/// What was found out for a Go plugin's output directory.
#[derive(Debug, PartialEq, Eq)]
pub struct GoProbe {
    /// What the module query printed in the output directory, or why it
    /// could not be run.
    pub module_query: Result<Vec<u8>, String>,
    /// What was found at the output directory and at each directory above
    /// it, in this order.
    pub ancestors: Vec<Ancestor>,
}

/// Whether `plugin` is the Go plugin, for which the Go compiler is made.
pub open spec fn is_go(plugin: PluginView) -> bool {
    plugin.name == "go"@
}

/// The texts of `paths`, or none where there are no paths.
pub open spec fn texts_or_none(paths: Option<Vec<String>>) -> Seq<Seq<char>> {
    match paths {
        Some(paths) => texts(paths@),
        None => Seq::empty(),
    }
}

/// The text of `path`, if there is one.
pub open spec fn text_of(path: Option<String>) -> Option<Seq<char>> {
    match path {
        Some(path) => Some(path@),
        None => None,
    }
}

/// The Go compiler that a run makes from the compiler `go` as it is first
/// made: it knows the compiler's own include path, where that is present, and
/// passes over the configured exclude paths, where there are any.
pub open spec fn go_for_run(
    go: GoView,
    includes: Option<Seq<char>>,
    excludes: Option<Vec<String>>,
) -> GoView {
    GoView {
        compiler_includes: includes,
        output_excludes: match excludes {
            Some(paths) => excluding(texts(paths@)),
            None => go.output_excludes,
        },
        ..go
    }
}

/// The include paths of a run, in the order in which they are added: the
/// compiler's own where it is present, the project root, then the configured
/// ones.
pub open spec fn include_order(
    own: Option<Seq<char>>,
    root: Seq<char>,
    configured: Seq<Seq<char>>,
) -> Seq<Seq<char>> {
    (match own {
        Some(path) => seq![path],
        None => Seq::empty(),
    }) + seq![root] + configured
}

/// The compiler that a run makes for `plugin`, or why it makes none: the Go
/// compiler for the plugin `go`, for which the module of its output
/// directory must have been found out, and the plain compiler for any other.
pub open spec fn compiler_made(
    plugin: PluginView,
    protoc_path: Seq<char>,
    own: Option<Seq<char>>,
    excludes: Option<Vec<String>>,
    go: Option<GoProbe>,
) -> Result<AnyView, GenerateFailure> {
    if !is_go(plugin) {
        Ok(
            AnyView::Plain(
                CompilerView {
                    path: protoc_path,
                    includes: Seq::empty(),
                    plugin,
                    protos: Seq::empty(),
                },
            ),
        )
    } else {
        match go {
            None => Err(GenerateFailure::InvocationFailed("no module query"@)),
            Some(probe) => match made(protoc_path, plugin, probe.module_query, probe.ancestors@) {
                Ok(go) => Ok(AnyView::Go(go_for_run(go, own, excludes))),
                Err(e) => Err(GenerateFailure::InvocationFailed(go_message(e))),
            },
        }
    }
}

/// The run of a code generation over one project.
#[derive(Debug)]
pub struct Generator {
    root_path: String,
    config: Config,
    provider: Option<ProtocProvider>,
}

impl Generator {
    /// The run over the project at `root_path` as `config` describes it, for
    /// `target`, with the compiler provided below the cache root
    /// `caches_path`, if there is one.
    pub fn new(
        root_path: String,
        config: Config,
        caches_path: Option<String>,
        target: Target,
    ) -> (out: Generator)
        ensures
            out.root() == root_path@,
            out.config() == config,
            out.provider() == match caches_path {
                Some(caches) => Some(provider_of(config.protoc.version, caches@, target)),
                None => None,
            },
    {
        let provider = match caches_path {
            Some(caches) => Some(ProtocProvider::new(&config.protoc.version, caches, target)),
            None => None,
        };
        Generator { root_path, config, provider }
    }

    /// The provider of the configured version of the compiler, if the run
    /// has a cache root.
    pub closed spec fn provider(&self) -> Option<ProviderView> {
        match self.provider {
            Some(provider) => Some(provider@),
            None => None,
        }
    }

    /// The number of plugins of the run.
    pub closed spec fn plugins(&self) -> nat {
        self.config.plugins@.len()
    }

    /// The provider of the configured version of the compiler, if the run
    /// has a cache root.
    pub fn protoc_provider(&self) -> (out: Option<&ProtocProvider>)
        ensures
            out is Some <==> self.provider() is Some,
            out matches Some(provider) ==> Some(provider@) == self.provider(),
    {
        self.provider.as_ref()
    }

    /// The project root.
    pub closed spec fn root(&self) -> Seq<char> {
        self.root_path@
    }

    /// The configuration of the run.
    pub closed spec fn config(&self) -> Config {
        self.config
    }

    /// The project root.
    pub fn root_path(&self) -> (out: &str)
        ensures
            out@ == self.root(),
    {
        self.root_path.as_str()
    }

    /// The configuration of the run.
    pub fn configuration(&self) -> (out: &Config)
        ensures
            *out == self.config(),
    {
        &self.config
    }

    /// Makes the walk over the pages of the project, which passes over the
    /// configured exclude paths. An absolute path among them fails the run.
    pub fn make_walker(&self) -> (out: Result<PagingProtoWalker, GenerateError>)
        ensures
            out is Err <==> any_absolute(texts_or_none(self.config().protoc.excludes)),
            out matches Err(e) ==> e@ == GenerateFailure::ReadDirFailed(
                walk_message(WalkError::InvalidExclude),
            ),
            out matches Ok(walker) ==> walker@ == (PagingState {
                path: self.root(),
                opened: false,
                exclude: match self.config().protoc.excludes {
                    Some(paths) => resolved(self.root(), texts(paths@)),
                    None => Set::empty(),
                },
            }),
    {
        let mut walker = PagingProtoWalker::new(self.root_path.clone());
        match &self.config.protoc.excludes {
            Some(excludes) => match walker.set_exclude(excludes) {
                Err(e) => {
                    return Err(GenerateError::ReadDirFailed(e.message()));
                },
                Ok(()) => {},
            },
            None => {},
        }
        Ok(walker)
    }

    /// Tells whether `plugin` is the Go plugin, for whose compiler the module
    /// of its output directory has to be found out.
    pub fn needs_module(&self, plugin: &Plugin) -> (out: bool)
        ensures
            out == is_go(plugin@),
    {
        same_text(plugin.name(), "go")
    }

    /// Makes the compiler for `plugin`: the Go compiler for the plugin `go`,
    /// the plain compiler for any other. `protoc_path` is where the
    /// compiler's binary lies and `includes` its own include directory, where
    /// that is present; `go` is what was found out for the output directory of
    /// a Go plugin, which without it gets no compiler.
    pub fn make_compiler(
        &self,
        plugin: Plugin,
        protoc_path: String,
        includes: Option<String>,
        go: Option<GoProbe>,
    ) -> (out: Result<AnyCompiler, GenerateError>)
        ensures
            (match out {
                Ok(compiler) => Ok(compiler@),
                Err(e) => Err(e@),
            }) == compiler_made(
                plugin@,
                protoc_path@,
                text_of(includes),
                self.config().protoc.excludes,
                go,
            ),
    {
        if !self.needs_module(&plugin) {
            return Ok(AnyCompiler::Plain(PlainCompiler::new(protoc_path, plugin)));
        }
        let probe = match go {
            Some(probe) => probe,
            None => {
                return Err(GenerateError::InvocationFailed(String::from_str("no module query")));
            },
        };
        let mut compiler = match GoCompiler::new(
            protoc_path,
            plugin,
            probe.module_query,
            &probe.ancestors,
        ) {
            Ok(compiler) => compiler,
            Err(e) => {
                return Err(GenerateError::from_go(e));
            },
        };
        match includes {
            Some(path) => {
                compiler.set_compiler_includes(path);
            },
            None => {},
        }
        match &self.config.protoc.excludes {
            Some(paths) => {
                compiler.set_output_exludes(paths);
            },
            None => {},
        }
        Ok(AnyCompiler::Go(compiler))
    }

    /// The include paths to add to a compiler, in order: the compiler's own
    /// where it is present, the project root, then the configured ones.
    pub fn include_paths(&self, own: Option<&str>) -> (out: Vec<String>)
        ensures
            texts(out@) == include_order(
                match own {
                    Some(path) => Some(path@),
                    None => None,
                },
                self.root(),
                texts_or_none(self.config().protoc.includes),
            ),
    {
        let mut out: Vec<String> = Vec::new();
        match own {
            Some(path) => {
                out.push(String::from_str(path));
            },
            None => {},
        }
        out.push(self.root_path.clone());
        let ghost head = texts(out@);
        match &self.config.protoc.includes {
            Some(paths) => {
                let mut configured = copy_texts(paths);
                out.append(&mut configured);
                assert(texts(out@) =~= head + texts(paths@));
            },
            None => {
                assert(texts(out@) =~= head + Seq::<Seq<char>>::empty());
            },
        }
        out
    }

    /// Makes up the invocation of `compiler` for a page of which the deep
    /// walk yielded `page`: the compiler's invocation with the paths of `page`
    /// as its proto sources. A failure in `page` fails the walk; an invocation
    /// without a single argument is none.
    pub fn command_for_page(
        &self,
        compiler: AnyCompiler,
        page: &Vec<Result<String, WalkError>>,
    ) -> (out: Result<Vec<String>, GenerateError>)
        ensures
            out is Ok <==> first_failure(page@) == page@.len(),
            out matches Ok(argv) ==> texts(argv@) == command_line(
                CompilerView { protos: found_paths(page@), ..compiler@.plain() },
            ),
            out matches Err(e) ==> e@ == GenerateFailure::ReadDirFailed(
                walk_message(page@[first_failure(page@) as int]->Err_0),
            ),
    {
        let mut compiler = compiler;
        match compiler.set_protos(page) {
            Err(e) => {
                return Err(GenerateError::ReadDirFailed(e.message()));
            },
            Ok(()) => {},
        }
        let raw_command = compiler.command();
        if raw_command.len() == 0 {
            assert(texts(raw_command@).len() == 0);
            return Err(GenerateError::InvocationFailed(String::from_str("empty invocation")));
        }
        Ok(raw_command)
    }
}

impl Generator {
    /// Adds the include path `path` to `compiler`, `found` being what the
    /// walk that the compiler asked for yielded. A path that the compiler
    /// does not take up fails the run.
    pub fn add_include(
        &self,
        compiler: &mut AnyCompiler,
        path: String,
        found: &Vec<Result<String, WalkError>>,
    ) -> (out: Result<(), GenerateError>)
        ensures
            final(compiler)@ == any_included(old(compiler)@, path@, found@).0,
            out is Ok <==> any_included(old(compiler)@, path@, found@).1 is None,
            out matches Err(e) ==> e@ == GenerateFailure::ProtocFailed(
                go_message(any_included(old(compiler)@, path@, found@).1.unwrap()),
            ),
    {
        match compiler.add_include(path, found) {
            Ok(()) => Ok(()),
            Err(e) => Err(GenerateError::ProtocFailed(e.message())),
        }
    }
}

/// Where a run stands.
#[derive(Clone, Copy, Debug, PartialEq, Eq, Structural)]
pub enum Phase {
    /// Nothing was done yet.
    Idle,
    /// It is being looked up whether the cache holds the compiler, for the
    /// plugin at the position.
    Inspecting(usize),
    /// The compiler is being provided for the plugin at the position.
    Provisioning(usize),
    /// The compiler was provided, and it is being looked up where it lies, for
    /// the plugin at the position.
    Resolving(usize),
    /// The compiler for the plugin at the position is being made and given its
    /// include paths.
    BuildingCompiler(usize),
    /// The next page is being walked for the plugin at the position.
    Walking(usize),
    /// The compiler is running on a page for the plugin at the position.
    Invoking(usize),
    /// Every plugin was run on every page.
    Done,
    /// The compiler could not be provided.
    ProvisioningFailed,
    /// The project could not be walked.
    WalkFailed,
    /// An invocation could not be made up, or could not be run.
    InvocationFailed,
}

/// What came of the action that the run asked for.
#[derive(Debug, PartialEq, Eq)]
pub enum RunEvent {
    /// The run is to begin.
    Start,
    /// What lies where the compiler's files should.
    Inspected {
        /// What lies at the binary's path.
        binary: PathKind,
        /// What lies at the include directory's path.
        includes: PathKind,
    },
    /// The compiler is provided, or could not be.
    Provisioned(Result<(), DownloadError>),
    /// What was found out for the output directory of the Go plugin.
    ModuleProbed(GoProbe),
    /// The deep walk below the include path yielded these, up to its end or to
    /// its first failure.
    IncludeWalked(Vec<Result<String, WalkError>>),
    /// The deep walk of the next page yielded these, up to its end or to its
    /// first failure.
    Page(Vec<Result<String, WalkError>>),
    /// The project has no further page.
    PagesExhausted,
    /// The project root could not be read.
    PageFailed(WalkError),
    /// The compiler ran and ended, with this exit code if it has one, or it
    /// could not be run or waited for. The run goes on whatever the exit
    /// code: only a compiler that could not be run ends it.
    Invoked(Result<Option<i32>, String>),
}

/// What a run asks for next.
#[derive(Debug, PartialEq, Eq)]
pub enum RunAction {
    /// Look up what lies at the two paths.
    Inspect {
        /// The path of the compiler's binary.
        binary: String,
        /// The path of the compiler's include directory.
        includes: String,
    },
    /// Provide the compiler: run the provisioning of the run's provider.
    Provision,
    /// Ask for the module of the Go plugin's output directory, and look at
    /// that directory and at every directory above it.
    ProbeModule {
        /// The output directory.
        output: String,
    },
    /// Run the deep walk to its end or to its first failure.
    WalkInclude {
        /// The walk below the include path that is to be added next.
        walker: DeepProtoWalker,
    },
    /// Walk the next page of the project; begin the walk over the project
    /// anew first where `fresh` is set.
    Walk {
        /// Whether the walk over the project begins anew.
        fresh: bool,
    },
    /// Run the compiler and wait for it to end.
    Spawn {
        /// The invocation: the binary, then its arguments.
        argv: Vec<String>,
        /// The directory to run it in.
        dir: String,
    },
    /// Nothing: the run is over, and this is how it ended.
    Finish(Result<(), GenerateError>),
}

/// A `RunAction` with its texts as sequences of characters.
pub enum ActionView {
    /// Look up what lies at the two paths.
    Inspect { binary: Seq<char>, includes: Seq<char> },
    /// Provide the compiler.
    Provision,
    /// Find out the module of the output directory.
    ProbeModule { output: Seq<char> },
    /// Run the deep walk that begins at `root` and passes over `exclude`.
    WalkInclude { root: Seq<char>, exclude: Set<Seq<char>> },
    /// Run a deep walk that is under way already.
    WalkOn,
    /// Walk the next page.
    Walk { fresh: bool },
    /// Run the compiler.
    Spawn { argv: Seq<Seq<char>>, dir: Seq<char> },
    /// The run is over: with this failure, or with none.
    Finish(Option<GenerateFailure>),
}

/// Whether the deep walk in `state` is about to begin.
pub open spec fn begins(state: WalkerState) -> bool {
    state.pending.len() == 1 && !state.pending[0].opened
}

impl View for RunAction {
    type V = ActionView;

    open spec fn view(&self) -> ActionView {
        match *self {
            RunAction::Inspect { binary, includes } => ActionView::Inspect {
                binary: binary@,
                includes: includes@,
            },
            RunAction::Provision => ActionView::Provision,
            RunAction::ProbeModule { output } => ActionView::ProbeModule { output: output@ },
            RunAction::WalkInclude { walker } => if begins(walker@) {
                ActionView::WalkInclude {
                    root: walker@.pending[0].path@,
                    exclude: walker@.exclude,
                }
            } else {
                ActionView::WalkOn
            },
            RunAction::Walk { fresh } => ActionView::Walk { fresh },
            RunAction::Spawn { argv, dir } => ActionView::Spawn { argv: texts(argv@), dir: dir@ },
            RunAction::Finish(Ok(_)) => ActionView::Finish(None),
            RunAction::Finish(Err(e)) => ActionView::Finish(Some(e@)),
        }
    }
}

/// The state of a run.
#[derive(Debug)]
pub struct Run {
    phase: Phase,
    compiler: Option<AnyCompiler>,
    own: Option<String>,
    pending: Vec<String>,
}

/// What the state of a run is made of.
pub struct RunView {
    /// Where the run stands.
    pub phase: Phase,
    /// The compiler of the plugin that is being run, once it is made.
    pub compiler: Option<AnyView>,
    /// The compiler's own include path, where it is present.
    pub own: Option<Seq<char>>,
    /// The include paths that the compiler has yet to be given, in order.
    pub pending: Seq<Seq<char>>,
}

impl View for Run {
    type V = RunView;

    closed spec fn view(&self) -> RunView {
        RunView {
            phase: self.phase,
            compiler: match self.compiler {
                Some(compiler) => Some(compiler@),
                None => None,
            },
            own: text_of(self.own),
            pending: texts(self.pending@),
        }
    }
}

/// The phase in which a run ends with the failure `e`.
pub open spec fn failure_phase(e: GenerateFailure) -> Phase {
    match e {
        GenerateFailure::NoProtoc(_) => Phase::ProvisioningFailed,
        GenerateFailure::ReadDirFailed(_) => Phase::WalkFailed,
        _ => Phase::InvocationFailed,
    }
}

/// Whether a run is over in `phase`.
pub open spec fn is_over(phase: Phase) -> bool {
    phase == Phase::Done || phase == Phase::ProvisioningFailed || phase == Phase::WalkFailed
        || phase == Phase::InvocationFailed
}

/// A run in `phase` that has no compiler.
pub open spec fn blank(phase: Phase) -> RunView {
    RunView { phase, compiler: None, own: None, pending: Seq::empty() }
}

/// A run that ends with the failure `e`.
pub open spec fn ended(run: RunView, e: GenerateFailure) -> (RunView, ActionView) {
    (RunView { phase: failure_phase(e), ..run }, ActionView::Finish(Some(e)))
}

/// A run that is told something it did not ask for: it ends, if it was not
/// over already.
pub open spec fn refused(run: RunView) -> (RunView, ActionView) {
    (
        RunView {
            phase: if is_over(run.phase) {
                run.phase
            } else {
                Phase::InvocationFailed
            },
            ..run
        },
        ActionView::Finish(Some(GenerateFailure::InvocationFailed("event out of turn"@))),
    )
}

/// Whether `compiler` wants the proto sources below `path` before it takes
/// `path` up: the Go compiler does, but for its own include path.
pub open spec fn wants_walk(compiler: AnyView, path: Seq<char>) -> bool {
    compiler matches AnyView::Go(go) && go.compiler_includes != Some(path)
}

/// The paths that the walk below an include path of `compiler` passes over.
pub open spec fn walk_excludes(compiler: AnyView) -> Set<Seq<char>> {
    match compiler {
        AnyView::Go(go) => go.output_excludes,
        AnyView::Plain(_) => Set::empty(),
    }
}

/// A run that goes on with the include paths it has yet to give its
/// compiler: those that need no walk are added one after another; for the
/// first that needs one the walk is asked for; and when none is left the walk
/// over the project begins.
pub open spec fn include_next(run: RunView, plugin: usize) -> (RunView, ActionView)
    decreases run.pending.len(), 1nat,
{
    if run.compiler is None {
        ended(run, GenerateFailure::InvocationFailed("no compiler"@))
    } else if run.pending.len() == 0 {
        (RunView { phase: Phase::Walking(plugin), ..run }, ActionView::Walk { fresh: true })
    } else if wants_walk(run.compiler.unwrap(), run.pending[0]) {
        (
            run,
            ActionView::WalkInclude {
                root: run.pending[0],
                exclude: walk_excludes(run.compiler.unwrap()),
            },
        )
    } else {
        include_taken(run, plugin, Seq::empty())
    }
}

/// A run that gives its compiler the first of the include paths it has yet to
/// give, `found` being what the walk below that path yielded, and goes on
/// with the rest. A path that the compiler does not take up ends the run.
pub open spec fn include_taken(
    run: RunView,
    plugin: usize,
    found: Seq<Result<String, WalkError>>,
) -> (RunView, ActionView)
    decreases run.pending.len(), 0nat,
{
    if run.compiler is None || run.pending.len() == 0 {
        refused(run)
    } else {
        let taken = any_included(run.compiler.unwrap(), run.pending[0], found);
        let after = RunView {
            compiler: Some(taken.0),
            pending: run.pending.drop_first(),
            ..run
        };
        match taken.1 {
            Some(e) => ended(after, GenerateFailure::ProtocFailed(go_message(e))),
            None => include_next(after, plugin),
        }
    }
}

/// What a run does with a page of which the deep walk yielded `page`: a page
/// without a single item is passed over, and the next page is asked for; for
/// any other the compiler is run on its proto sources in the project root.
pub open spec fn page_step(
    root: Seq<char>,
    run: RunView,
    plugin: usize,
    page: Seq<Result<String, WalkError>>,
) -> (RunView, ActionView) {
    if page.len() == 0 {
        (run, ActionView::Walk { fresh: false })
    } else if run.compiler is None {
        ended(run, GenerateFailure::InvocationFailed("no compiler"@))
    } else if first_failure(page) < page.len() {
        ended(
            run,
            GenerateFailure::ReadDirFailed(walk_message(page[first_failure(page) as int]->Err_0)),
        )
    } else {
        (
            RunView { phase: Phase::Invoking(plugin), ..run },
            ActionView::Spawn {
                argv: command_line(
                    CompilerView { protos: found_paths(page), ..run.compiler.unwrap().plain() },
                ),
                dir: root,
            },
        )
    }
}

/// A run that turns to the plugin at position `plugin`: without a cache root
/// it ends; with one it asks what the cache holds.
pub open spec fn plugin_begun(generator: Generator, run: RunView, plugin: usize) -> (
    RunView,
    ActionView,
) {
    match generator.provider() {
        None => ended(
            blank(run.phase),
            GenerateFailure::NoProtoc("can't create protoc cache"@),
        ),
        Some(provider) => (
            blank(Phase::Inspecting(plugin)),
            ActionView::Inspect {
                binary: provider.binary_path,
                includes: provider.include_path,
            },
        ),
    }
}

/// A run that makes the compiler for the plugin at position `plugin`, `own`
/// being the compiler's own include path where it is present and `go` what
/// was found out for the output directory of a Go plugin: the run ends where
/// no compiler can be made, and else goes on to give the compiler its include
/// paths: its own, the project root and the configured ones.
pub open spec fn built_step(
    generator: Generator,
    run: RunView,
    plugin: usize,
    own: Option<Seq<char>>,
    go: Option<GoProbe>,
) -> (RunView, ActionView)
    recommends
        generator.provider() is Some,
        plugin < generator.plugins(),
{
    let begun = RunView {
        phase: Phase::BuildingCompiler(plugin),
        compiler: None,
        own,
        pending: include_order(
            own,
            generator.root(),
            texts_or_none(generator.config().protoc.includes),
        ),
    };
    match compiler_made(
        plugin_of(generator.config().plugins@[plugin as int]),
        generator.provider().unwrap().binary_path,
        own,
        generator.config().protoc.excludes,
        go,
    ) {
        Err(e) => ended(begun, e),
        Ok(compiler) => include_next(RunView { compiler: Some(compiler), ..begun }, plugin),
    }
}

/// A run that knows what lies where the compiler's files should: without
/// the binary it ends. Otherwise the compiler for the plugin is made: for
/// the Go plugin the module of its output directory is asked for first; for
/// any other plugin the plain compiler is made and given its include paths.
pub open spec fn resolved_step(
    generator: Generator,
    run: RunView,
    plugin: usize,
    binary: PathKind,
    includes: PathKind,
) -> (RunView, ActionView) {
    if generator.provider() is None || binary != PathKind::File {
        ended(run, GenerateFailure::NoProtoc("no protoc binary found"@))
    } else if plugin >= generator.plugins() {
        ended(run, GenerateFailure::InvocationFailed("no such plugin"@))
    } else {
        let provider = generator.provider().unwrap();
        let own = if includes == PathKind::Dir {
            Some(provider.include_path)
        } else {
            None
        };
        let described = plugin_of(generator.config().plugins@[plugin as int]);
        if is_go(described) {
            (
                RunView {
                    phase: Phase::BuildingCompiler(plugin),
                    compiler: None,
                    own,
                    pending: Seq::empty(),
                },
                ActionView::ProbeModule { output: described.output },
            )
        } else {
            built_step(generator, run, plugin, own, None)
        }
    }
}

/// A run that knows the module of the Go plugin's output directory: the
/// compiler is made and given its include paths.
pub open spec fn module_step(generator: Generator, run: RunView, plugin: usize, probe: GoProbe) -> (
    RunView,
    ActionView,
) {
    if run.compiler is Some || generator.provider() is None || plugin >= generator.plugins() {
        refused(run)
    } else {
        built_step(generator, run, plugin, run.own, Some(probe))
    }
}

/// One step of the run of `generator`: the state after `event`, and what the
/// run asks for next.
///
/// The plugins are run one after another. For each, the compiler is provided
/// unless the cache holds it, then made and given its include paths; then
/// every page of the project is walked and, but for the pages without proto
/// sources, compiled. The first failure ends the run; so does an event that
/// the run did not ask for. A compiler that ran and ended lets the run go on,
/// whatever its exit code.
pub open spec fn run_step(generator: Generator, run: RunView, event: RunEvent) -> (
    RunView,
    ActionView,
) {
    match (run.phase, event) {
        (Phase::Idle, RunEvent::Start) => if any_absolute(
            texts_or_none(generator.config().protoc.excludes),
        ) {
            ended(run, GenerateFailure::ReadDirFailed(walk_message(WalkError::InvalidExclude)))
        } else if generator.plugins() == 0 {
            (blank(Phase::Done), ActionView::Finish(None))
        } else {
            plugin_begun(generator, run, 0)
        },
        (Phase::Inspecting(plugin), RunEvent::Inspected { binary, includes }) => if satisfied(
            binary,
            includes,
        ) {
            resolved_step(generator, run, plugin, binary, includes)
        } else {
            (RunView { phase: Phase::Provisioning(plugin), ..run }, ActionView::Provision)
        },
        (Phase::Provisioning(plugin), RunEvent::Provisioned(Ok(_))) => match generator.provider() {
            None => refused(run),
            Some(provider) => (
                RunView { phase: Phase::Resolving(plugin), ..run },
                ActionView::Inspect {
                    binary: provider.binary_path,
                    includes: provider.include_path,
                },
            ),
        },
        (Phase::Provisioning(_), RunEvent::Provisioned(Err(e))) => ended(
            run,
            GenerateFailure::NoProtoc(download_message(e@)),
        ),
        (Phase::Resolving(plugin), RunEvent::Inspected { binary, includes }) => resolved_step(
            generator,
            run,
            plugin,
            binary,
            includes,
        ),
        (Phase::BuildingCompiler(plugin), RunEvent::ModuleProbed(probe)) => module_step(
            generator,
            run,
            plugin,
            probe,
        ),
        (Phase::BuildingCompiler(plugin), RunEvent::IncludeWalked(found)) => include_taken(
            run,
            plugin,
            found@,
        ),
        (Phase::Walking(plugin), RunEvent::Page(page)) => page_step(
            generator.root(),
            run,
            plugin,
            page@,
        ),
        (Phase::Walking(plugin), RunEvent::PagesExhausted) => if plugin + 1
            < generator.plugins() {
            plugin_begun(generator, run, (plugin + 1) as usize)
        } else {
            (blank(Phase::Done), ActionView::Finish(None))
        },
        (Phase::Walking(_), RunEvent::PageFailed(e)) => ended(
            run,
            GenerateFailure::ReadDirFailed(walk_message(e)),
        ),
        (Phase::Invoking(plugin), RunEvent::Invoked(Ok(_))) => (
            RunView { phase: Phase::Walking(plugin), ..run },
            ActionView::Walk { fresh: false },
        ),
        (Phase::Invoking(_), RunEvent::Invoked(Err(message))) => ended(
            run,
            GenerateFailure::ProtocFailed(message@),
        ),
        _ => refused(run),
    }
}

/// Whether a step comes to what giving a compiler its include paths can come
/// to: a walk below an include path is asked for, or the walk over the
/// project begins, or the run ends with a failure.
pub open spec fn settles(out: (RunView, ActionView)) -> bool {
    ||| out.1 is WalkInclude
    ||| out.1 == (ActionView::Walk { fresh: true })
    ||| out.1 matches ActionView::Finish(Some(_)) && is_over(out.0.phase)
}

/// Giving a compiler its include paths comes to nothing else than a walk
/// below one of them, the walk over the project, or a failure.
pub proof fn lemma_including_settles(
    run: RunView,
    plugin: usize,
    found: Seq<Result<String, WalkError>>,
)
    ensures
        settles(include_next(run, plugin)),
        settles(include_taken(run, plugin, found)),
    decreases run.pending.len(), 2nat,
{
    if run.compiler is Some && run.pending.len() > 0 {
        let taken = any_included(run.compiler.unwrap(), run.pending[0], found);
        lemma_including_settles(
            RunView { compiler: Some(taken.0), pending: run.pending.drop_first(), ..run },
            plugin,
            found,
        );
        let added = any_included(run.compiler.unwrap(), run.pending[0], Seq::empty());
        lemma_including_settles(
            RunView { compiler: Some(added.0), pending: run.pending.drop_first(), ..run },
            plugin,
            found,
        );
    }
}

/// Making a compiler and giving it its include paths comes to nothing else
/// than a walk below one of them, the walk over the project, or a failure.
pub proof fn lemma_building_settles(
    generator: Generator,
    run: RunView,
    plugin: usize,
    own: Option<Seq<char>>,
    go: Option<GoProbe>,
)
    ensures
        settles(built_step(generator, run, plugin, own, go)),
{
    let begun = RunView {
        phase: Phase::BuildingCompiler(plugin),
        compiler: None,
        own,
        pending: include_order(
            own,
            generator.root(),
            texts_or_none(generator.config().protoc.includes),
        ),
    };
    match compiler_made(
        plugin_of(generator.config().plugins@[plugin as int]),
        generator.provider().unwrap().binary_path,
        own,
        generator.config().protoc.excludes,
        go,
    ) {
        Err(_) => {},
        Ok(compiler) => {
            lemma_including_settles(
                RunView { compiler: Some(compiler), ..begun },
                plugin,
                Seq::empty(),
            );
        },
    }
}

/// What a run does once it knows what lies where the compiler's files
/// should: it asks for the module of a Go plugin, or comes to what making a
/// compiler comes to.
pub proof fn lemma_resolving_settles(
    generator: Generator,
    run: RunView,
    plugin: usize,
    binary: PathKind,
    includes: PathKind,
)
    ensures
        resolved_step(generator, run, plugin, binary, includes).1 is ProbeModule || settles(
            resolved_step(generator, run, plugin, binary, includes),
        ),
{
    if generator.provider() is Some {
        lemma_building_settles(
            generator,
            run,
            plugin,
            if includes == PathKind::Dir {
                Some(generator.provider().unwrap().include_path)
            } else {
                None
            },
            None,
        );
    }
}

/// What a step of a run can come to while its compiler is made.
proof fn lemma_step_settles(generator: Generator, run: RunView, event: RunEvent)
    ensures
        (run.phase is Resolving && event is Inspected) || (run.phase is BuildingCompiler && (
        event is ModuleProbed || event is IncludeWalked)) ==> run_step(
            generator,
            run,
            event,
        ).1 is ProbeModule || settles(run_step(generator, run, event)),
        run.phase is Inspecting && event is Inspected ==> run_step(generator, run, event).1
            is Provision || run_step(generator, run, event).1 is ProbeModule || settles(
            run_step(generator, run, event),
        ),
{
    match (run.phase, event) {
        (Phase::Inspecting(plugin), RunEvent::Inspected { binary, includes }) => {
            lemma_resolving_settles(generator, run, plugin, binary, includes);
        },
        (Phase::Resolving(plugin), RunEvent::Inspected { binary, includes }) => {
            lemma_resolving_settles(generator, run, plugin, binary, includes);
        },
        (Phase::BuildingCompiler(plugin), RunEvent::ModuleProbed(probe)) => {
            lemma_building_settles(generator, run, plugin, run.own, Some(probe));
        },
        (Phase::BuildingCompiler(plugin), RunEvent::IncludeWalked(found)) => {
            lemma_including_settles(run, plugin, found@);
        },
        _ => {},
    }
}

/// The exit code of the compiler is not looked at: the run goes on in the
/// same way whichever code the compiler ended with.
pub proof fn lemma_exit_code_ignored(
    generator: Generator,
    run: RunView,
    one: Option<i32>,
    other: Option<i32>,
)
    ensures
        run_step(generator, run, RunEvent::Invoked(Ok(one))) == run_step(
            generator,
            run,
            RunEvent::Invoked(Ok(other)),
        ),
{
}

/// A run that is over stays over: whatever it is told then, it stays where it
/// stands and asks for nothing more.
pub proof fn lemma_over_stays_over(generator: Generator, run: RunView, event: RunEvent)
    requires
        is_over(run.phase),
    ensures
        run_step(generator, run, event).0 == run,
        run_step(generator, run, event).1 is Finish,
{
}

/// A failure ends the run: whenever the run hands on a failure, it is over.
pub proof fn lemma_failure_ends_run(generator: Generator, run: RunView, event: RunEvent)
    requires
        run_step(generator, run, event).1 matches ActionView::Finish(Some(_)),
    ensures
        is_over(run_step(generator, run, event).0.phase),
{
    lemma_step_settles(generator, run, event);
}

/// The compiler is provided only where the cache lacks it: a run that finds
/// the compiler's binary and its include directory in the cache does not ask
/// for the provisioning.
pub proof fn lemma_satisfied_cache_is_kept(generator: Generator, run: RunView, plugin: usize)
    requires
        run.phase == Phase::Inspecting(plugin),
    ensures
        !(run_step(
            generator,
            run,
            RunEvent::Inspected { binary: PathKind::File, includes: PathKind::Dir },
        ).1 is Provision),
{
    lemma_resolving_settles(generator, run, plugin, PathKind::File, PathKind::Dir);
}

/// A page without proto sources has no compiler run on it: whatever the state
/// of the run, for whichever plugin, the run does not ask for the compiler to
/// be run when it is told of a page of which the walk yielded nothing.
pub proof fn lemma_empty_page_not_compiled(
    generator: Generator,
    run: RunView,
    page: Vec<Result<String, WalkError>>,
)
    requires
        page@.len() == 0,
    ensures
        !(run_step(generator, run, RunEvent::Page(page)).1 is Spawn),
{
}

/// The compiler is only ever run for a page of proto sources: the run asks
/// for it only while it walks, when it is told of a page of which the walk
/// yielded something and nothing but paths, and then it is run on exactly
/// those paths in the project root.
pub proof fn lemma_compiled_only_for_pages(generator: Generator, run: RunView, event: RunEvent)
    requires
        run_step(generator, run, event).1 is Spawn,
    ensures
        run.phase is Walking,
        run.compiler is Some,
        event is Page,
        event->Page_0@.len() > 0,
        first_failure(event->Page_0@) == event->Page_0@.len(),
        run_step(generator, run, event).1 == (ActionView::Spawn {
            argv: command_line(
                CompilerView {
                    protos: found_paths(event->Page_0@),
                    ..run.compiler.unwrap().plain()
                },
            ),
            dir: generator.root(),
        }),
{
    if event is Page {
        lemma_first_failure_bound(event->Page_0@);
    }
    lemma_step_settles(generator, run, event);
}

impl Run {
    /// A run that has not begun.
    pub fn new() -> (out: Run)
        ensures
            out@ == blank(Phase::Idle),
    {
        let out = Run { phase: Phase::Idle, compiler: None, own: None, pending: Vec::new() };
        assert(out@.pending =~= Seq::empty());
        out
    }

    /// Where the run stands.
    pub fn phase(&self) -> (out: Phase)
        ensures
            out == self@.phase,
    {
        self.phase
    }

    fn clear(&mut self, phase: Phase)
        ensures
            final(self)@ == blank(phase),
    {
        self.phase = phase;
        self.compiler = None;
        self.own = None;
        self.pending = Vec::new();
        assert(self@.pending =~= Seq::empty());
    }

    fn end(&mut self, e: GenerateError) -> (out: RunAction)
        ensures
            (final(self)@, out@) == ended(old(self)@, e@),
    {
        self.phase = match &e {
            GenerateError::NoProtoc(_) => Phase::ProvisioningFailed,
            GenerateError::ReadDirFailed(_) => Phase::WalkFailed,
            _ => Phase::InvocationFailed,
        };
        RunAction::Finish(Err(e))
    }

    fn refuse(&mut self) -> (out: RunAction)
        ensures
            (final(self)@, out@) == refused(old(self)@),
    {
        match self.phase {
            Phase::Done | Phase::ProvisioningFailed | Phase::WalkFailed
            | Phase::InvocationFailed => {},
            _ => {
                self.phase = Phase::InvocationFailed;
            },
        }
        RunAction::Finish(
            Err(GenerateError::InvocationFailed(String::from_str("event out of turn"))),
        )
    }
}

impl Generator {
    fn include_next(&self, run: &mut Run, plugin: usize) -> (out: RunAction)
        ensures
            (final(run)@, out@) == include_next(old(run)@, plugin),
    {
        loop
            invariant
                include_next(run@, plugin) == include_next(old(run)@, plugin),
            decreases run.pending.len(),
        {
            let mut compiler = match run.compiler.take() {
                Some(compiler) => compiler,
                None => {
                    return run.end(
                        GenerateError::InvocationFailed(String::from_str("no compiler")),
                    );
                },
            };
            if run.pending.len() == 0 {
                run.compiler = Some(compiler);
                run.phase = Phase::Walking(plugin);
                return RunAction::Walk { fresh: true };
            }
            match compiler.include_walker(run.pending[0].as_str()) {
                Some(walker) => {
                    run.compiler = Some(compiler);
                    return RunAction::WalkInclude { walker };
                },
                None => {
                    let ghost before = run@.pending;
                    let path = run.pending.remove(0);
                    assert(texts(run.pending@) =~= before.drop_first());
                    let nothing: Vec<Result<String, WalkError>> = Vec::new();
                    let taken = self.add_include(&mut compiler, path, &nothing);
                    run.compiler = Some(compiler);
                    match taken {
                        Ok(()) => {},
                        Err(e) => {
                            return run.end(e);
                        },
                    }
                },
            }
        }
    }

    fn include_taken(
        &self,
        run: &mut Run,
        plugin: usize,
        found: &Vec<Result<String, WalkError>>,
    ) -> (out: RunAction)
        ensures
            (final(run)@, out@) == include_taken(old(run)@, plugin, found@),
    {
        if run.pending.len() == 0 {
            return run.refuse();
        }
        let mut compiler = match run.compiler.take() {
            Some(compiler) => compiler,
            None => {
                return run.refuse();
            },
        };
        let ghost before = run@.pending;
        let path = run.pending.remove(0);
        assert(texts(run.pending@) =~= before.drop_first());
        let taken = self.add_include(&mut compiler, path, found);
        run.compiler = Some(compiler);
        match taken {
            Ok(()) => self.include_next(run, plugin),
            Err(e) => run.end(e),
        }
    }

    fn begin_plugin(&self, run: &mut Run, plugin: usize) -> (out: RunAction)
        ensures
            (final(run)@, out@) == plugin_begun(*self, old(run)@, plugin),
    {
        match &self.provider {
            None => {
                let phase = run.phase;
                run.clear(phase);
                run.end(GenerateError::NoProtoc(String::from_str("can't create protoc cache")))
            },
            Some(provider) => {
                run.clear(Phase::Inspecting(plugin));
                RunAction::Inspect {
                    binary: String::from_str(provider.binary_location()),
                    includes: String::from_str(provider.include_location()),
                }
            },
        }
    }

    fn build(
        &self,
        run: &mut Run,
        plugin: usize,
        own: Option<String>,
        go: Option<GoProbe>,
    ) -> (out: RunAction)
        requires
            self.provider() is Some,
            plugin < self.plugins(),
        ensures
            (final(run)@, out@) == built_step(*self, old(run)@, plugin, text_of(own), go),
    {
        let provider = match &self.provider {
            Some(provider) => provider,
            None => {
                return run.refuse();
            },
        };
        run.phase = Phase::BuildingCompiler(plugin);
        run.compiler = None;
        run.pending = self.include_paths(
            match &own {
                Some(path) => Some(path.as_str()),
                None => None,
            },
        );
        run.own = match &own {
            Some(path) => Some(path.clone()),
            None => None,
        };
        match self.make_compiler(
            Plugin::of(&self.config.plugins[plugin]),
            String::from_str(provider.binary_location()),
            own,
            go,
        ) {
            Err(e) => run.end(e),
            Ok(compiler) => {
                run.compiler = Some(compiler);
                self.include_next(run, plugin)
            },
        }
    }

    fn resolve(
        &self,
        run: &mut Run,
        plugin: usize,
        binary: PathKind,
        includes: PathKind,
    ) -> (out: RunAction)
        ensures
            (final(run)@, out@) == resolved_step(*self, old(run)@, plugin, binary, includes),
    {
        let provider = match &self.provider {
            Some(provider) => provider,
            None => {
                return run.end(
                    GenerateError::NoProtoc(String::from_str("no protoc binary found")),
                );
            },
        };
        if provider.binary_path(binary).is_none() {
            return run.end(GenerateError::NoProtoc(String::from_str("no protoc binary found")));
        }
        if plugin >= self.config.plugins.len() {
            return run.end(GenerateError::InvocationFailed(String::from_str("no such plugin")));
        }
        let own = match provider.include_path(includes) {
            Some(path) => Some(String::from_str(path)),
            None => None,
        };
        let described = Plugin::of(&self.config.plugins[plugin]);
        if self.needs_module(&described) {
            run.phase = Phase::BuildingCompiler(plugin);
            run.compiler = None;
            run.own = own;
            run.pending = Vec::new();
            assert(run@.pending =~= Seq::empty());
            return RunAction::ProbeModule { output: String::from_str(described.output()) };
        }
        self.build(run, plugin, own, None)
    }

    fn module_probed(&self, run: &mut Run, plugin: usize, probe: GoProbe) -> (out: RunAction)
        ensures
            (final(run)@, out@) == module_step(*self, old(run)@, plugin, probe),
    {
        if run.compiler.is_some() || self.provider.is_none() || plugin
            >= self.config.plugins.len() {
            return run.refuse();
        }
        let own = match &run.own {
            Some(path) => Some(path.clone()),
            None => None,
        };
        self.build(run, plugin, own, Some(probe))
    }

    fn page_action(
        &self,
        run: &mut Run,
        plugin: usize,
        page: &Vec<Result<String, WalkError>>,
    ) -> (out: RunAction)
        ensures
            (final(run)@, out@) == page_step(self.root(), old(run)@, plugin, page@),
    {
        if page.len() == 0 {
            return RunAction::Walk { fresh: false };
        }
        proof {
            lemma_first_failure_bound(page@);
        }
        let compiler = match &run.compiler {
            Some(compiler) => compiler.duplicate(),
            None => {
                return run.end(GenerateError::InvocationFailed(String::from_str("no compiler")));
            },
        };
        match self.command_for_page(compiler, page) {
            Ok(argv) => {
                run.phase = Phase::Invoking(plugin);
                RunAction::Spawn { argv, dir: self.root_path.clone() }
            },
            Err(e) => run.end(e),
        }
    }

    /// Makes one step of the run: takes what came of the action before and
    /// says what is to be done next.
    pub fn generate(&self, run: &mut Run, event: RunEvent) -> (out: RunAction)
        ensures
            (final(run)@, out@) == run_step(*self, old(run)@, event),
    {
        match run.phase {
            Phase::Idle => match event {
                RunEvent::Start => match self.make_walker() {
                    Err(e) => run.end(e),
                    Ok(_) => {
                        if self.config.plugins.len() == 0 {
                            run.clear(Phase::Done);
                            RunAction::Finish(Ok(()))
                        } else {
                            self.begin_plugin(run, 0)
                        }
                    },
                },
                _ => run.refuse(),
            },
            Phase::Inspecting(plugin) => match event {
                RunEvent::Inspected { binary, includes } => {
                    if binary == PathKind::File && includes == PathKind::Dir {
                        self.resolve(run, plugin, binary, includes)
                    } else {
                        run.phase = Phase::Provisioning(plugin);
                        RunAction::Provision
                    }
                },
                _ => run.refuse(),
            },
            Phase::Provisioning(plugin) => match event {
                RunEvent::Provisioned(Ok(_)) => match &self.provider {
                    None => run.refuse(),
                    Some(provider) => {
                        run.phase = Phase::Resolving(plugin);
                        RunAction::Inspect {
                            binary: String::from_str(provider.binary_location()),
                            includes: String::from_str(provider.include_location()),
                        }
                    },
                },
                RunEvent::Provisioned(Err(e)) => run.end(GenerateError::from_download(e)),
                _ => run.refuse(),
            },
            Phase::Resolving(plugin) => match event {
                RunEvent::Inspected { binary, includes } => self.resolve(
                    run,
                    plugin,
                    binary,
                    includes,
                ),
                _ => run.refuse(),
            },
            Phase::BuildingCompiler(plugin) => match event {
                RunEvent::ModuleProbed(probe) => self.module_probed(run, plugin, probe),
                RunEvent::IncludeWalked(found) => self.include_taken(run, plugin, &found),
                _ => run.refuse(),
            },
            Phase::Walking(plugin) => match event {
                RunEvent::Page(page) => self.page_action(run, plugin, &page),
                RunEvent::PagesExhausted => {
                    let count = self.config.plugins.len();
                    if plugin < count && plugin + 1 < count {
                        self.begin_plugin(run, plugin + 1)
                    } else {
                        run.clear(Phase::Done);
                        RunAction::Finish(Ok(()))
                    }
                },
                RunEvent::PageFailed(e) => run.end(GenerateError::ReadDirFailed(e.message())),
                _ => run.refuse(),
            },
            Phase::Invoking(plugin) => match event {
                RunEvent::Invoked(Ok(_)) => {
                    run.phase = Phase::Walking(plugin);
                    RunAction::Walk { fresh: false }
                },
                RunEvent::Invoked(Err(message)) => run.end(GenerateError::ProtocFailed(message)),
                _ => run.refuse(),
            },
            _ => run.refuse(),
        }
    }
}

} // verus!
