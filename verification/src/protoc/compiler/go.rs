//! The compiler for the Go plugin, which has to be told for every proto source
//! of an include path which Go package it belongs to.

use vstd::prelude::*;
use vstd::string::*;
use vstd::utf8::{decode_utf8, valid_utf8};
use crate::path::{parent, parent_of, relative_to, strip_base};
use crate::protoc::compiler::plain::{
    command_line, first_failure, found_paths, CompilerView, PlainCompiler,
};
use crate::protoc::compiler::{Plugin, PluginView};
use crate::text::{ends_with, has_suffix, join, join_with, same_text, texts};
use crate::walk::deep::DeepProtoWalker;
use crate::walk::{excluding, ExcludeSet, WalkError};

verus! {

/// Why no Go compiler could be made, or no include path added to one.
#[derive(Clone, Debug, PartialEq, Eq)]
pub enum GoError {
    /// No `go.mod` lies in the output directory or above it.
    NoModules,
    /// The module could not be asked for, or a directory could not be read;
    /// the text says what the system reported.
    Io(String),
    /// Something that should be text is none, or a path is not where it
    /// should be; the text says what.
    Parsing(String),
}

/// A `GoError` with its texts as sequences of characters.
pub enum GoFailure {
    /// No `go.mod` was found.
    NoModules,
    /// What the system reported.
    Io(Seq<char>),
    /// What could not be read.
    Parsing(Seq<char>),
}

impl View for GoError {
    type V = GoFailure;

    open spec fn view(&self) -> GoFailure {
        match *self {
            GoError::NoModules => GoFailure::NoModules,
            GoError::Io(message) => GoFailure::Io(message@),
            GoError::Parsing(message) => GoFailure::Parsing(message@),
        }
    }
}

/// What a `GoError` says.
pub open spec fn go_message(e: GoFailure) -> Seq<char> {
    match e {
        GoFailure::NoModules => "no go.mod found"@,
        GoFailure::Io(message) => message,
        GoFailure::Parsing(message) => message,
    }
}

impl GoError {
    /// Says what went wrong.
    pub fn message(&self) -> (out: String)
        ensures
            out@ == go_message(self@),
    {
        match self {
            GoError::NoModules => String::from_str("no go.mod found"),
            GoError::Io(message) => message.clone(),
            GoError::Parsing(message) => message.clone(),
        }
    }
}

/// The last segment of a directory's path.
#[derive(Clone, Debug, PartialEq, Eq)]
pub enum Segment {
    /// The segment, where it is text.
    Text(String),
    /// The segment is not text.
    NotText,
    /// The directory is the root of the file system and has no last segment.
    Root,
}

/// What was found at a directory on the way from the output directory up to
/// the root of the file system.
#[derive(Clone, Debug, PartialEq, Eq)]
pub struct Ancestor {
    /// The names of the directory's entries, as far as they could be read.
    pub names: Vec<String>,
    /// What stopped the reading, if anything did.
    pub failure: Option<String>,
    /// The last segment of the directory's path.
    pub segment: Segment,
}

/// Whether `names` holds the file that marks the root of a module.
pub open spec fn has_marker(names: Seq<String>) -> bool {
    exists|i: int| 0 <= i < names.len() && (#[trigger] names[i])@ == "go.mod"@
}

/// The search for the module's root, from the directory at position `from`
/// upwards, `below` being the segments passed so far, innermost first. The
/// first directory that holds the marker ends it, and `below` is the result.
/// A directory that could not be read to its end and showed no marker, or a
/// segment that is not text, fails it. So does the root of the file system
/// without a marker, and the end of the directories.
pub open spec fn search(ancestors: Seq<Ancestor>, from: nat, below: Seq<Seq<char>>) -> Result<
    Seq<Seq<char>>,
    GoFailure,
>
    decreases ancestors.len() - from,
{
    if from >= ancestors.len() {
        Err(GoFailure::NoModules)
    } else {
        let ancestor = ancestors[from as int];
        if has_marker(ancestor.names@) {
            Ok(below)
        } else if ancestor.failure is Some {
            Err(GoFailure::Io(ancestor.failure.unwrap()@))
        } else {
            match ancestor.segment {
                Segment::Text(name) => search(ancestors, from + 1, below.push(name@)),
                Segment::NotText => Err(GoFailure::Parsing("failed to convert Path to String"@)),
                Segment::Root => Err(GoFailure::NoModules),
            }
        }
    }
}

/// The module's name as the module query prints it: the output without the
/// line break at its end, if it has one.
pub open spec fn module_identity(output: Seq<char>) -> Seq<char> {
    if has_suffix(output, "\n"@) {
        output.drop_last()
    } else {
        output
    }
}

/// The Go import path of the output directory: the module's name, then the
/// segments from the module's root down to the directory, joined by `/`.
pub open spec fn import_path_of(module: Seq<char>, below: Seq<Seq<char>>) -> Seq<char> {
    join_with(seq![module] + below.reverse(), "/"@)
}

/// The result of a function that may fail with a `GoError`, the error taken
/// by its view.
pub open spec fn failure_of<T>(out: Result<T, GoError>) -> Option<GoFailure> {
    match out {
        Ok(_) => None,
        Err(e) => Some(e@),
    }
}

/// `String::from_utf8` of std: the text that `bytes` encode in UTF-8, or
/// nothing where they encode none.
#[verifier::external_body]
fn text_of(bytes: Vec<u8>) -> (out: Option<String>)
    ensures
        out is Some <==> valid_utf8(bytes@),
        out matches Some(text) ==> text@ == decode_utf8(bytes@),
{
    String::from_utf8(bytes).ok()
}

fn holds_marker(names: &Vec<String>) -> (out: bool)
    ensures
        out == has_marker(names@),
{
    let marker = String::from_str("go.mod");
    let mut i: usize = 0;
    while i < names.len()
        invariant
            i <= names.len(),
            marker@ == "go.mod"@,
            forall|k: int| 0 <= k < i ==> (#[trigger] names@[k])@ != "go.mod"@,
        decreases names.len() - i,
    {
        if names[i] == marker {
            return true;
        }
        i = i + 1;
    }
    false
}

/// Reads the module's name off the output of the module query. Output that
/// is not text is refused.
pub fn derive_module(output: Vec<u8>) -> (out: Result<String, GoError>)
    ensures
        out is Ok <==> valid_utf8(output@),
        out matches Ok(module) ==> module@ == module_identity(decode_utf8(output@)),
        out matches Err(e) ==> e@ == GoFailure::Parsing("module name is not text"@),
{
    match text_of(output) {
        None => Err(GoError::Parsing(String::from_str("module name is not text"))),
        Some(text) => {
            if ends_with(text.as_str(), "\n") {
                proof {
                    reveal_strlit("\n");
                }
                let n = text.as_str().unicode_len();
                Ok(String::from_str(text.as_str().substring_char(0, n - 1)))
            } else {
                Ok(text)
            }
        },
    }
}

/// Finds the segments between the module's root and the output directory,
/// innermost first, from what was found at the output directory and at each
/// directory above it, in this order.
pub fn package_path(ancestors: &Vec<Ancestor>) -> (out: Result<Vec<String>, GoError>)
    ensures
        out matches Ok(below) ==> search(ancestors@, 0, Seq::empty()) == Ok::<
            Seq<Seq<char>>,
            GoFailure,
        >(texts(below@)),
        out matches Err(e) ==> search(ancestors@, 0, Seq::empty()) == Err::<
            Seq<Seq<char>>,
            GoFailure,
        >(e@),
{
    let mut below: Vec<String> = Vec::new();
    let mut i: usize = 0;
    assert(texts(below@) =~= Seq::empty());
    while i < ancestors.len()
        invariant
            i <= ancestors.len(),
            search(ancestors@, 0, Seq::empty()) == search(ancestors@, i as nat, texts(below@)),
        decreases ancestors.len() - i,
    {
        let ancestor = &ancestors[i];
        if holds_marker(&ancestor.names) {
            return Ok(below);
        }
        match &ancestor.failure {
            Some(message) => {
                return Err(GoError::Io(message.clone()));
            },
            None => {},
        }
        match &ancestor.segment {
            Segment::Text(name) => {
                let ghost before = texts(below@);
                below.push(name.clone());
                assert(texts(below@) =~= before.push(name@));
            },
            Segment::NotText => {
                return Err(
                    GoError::Parsing(String::from_str("failed to convert Path to String")),
                );
            },
            Segment::Root => {
                return Err(GoError::NoModules);
            },
        }
        i = i + 1;
    }
    Err(GoError::NoModules)
}

/// Renders the Go import path of the output directory.
pub fn import_path(module: String, below: &Vec<String>) -> (out: String)
    ensures
        out@ == import_path_of(module@, texts(below@)),
{
    let mut parts: Vec<String> = Vec::new();
    parts.push(module);
    let mut i: usize = below.len();
    while i > 0
        invariant
            i <= below.len(),
            texts(parts@) == seq![module@] + texts(below@).reverse().take(below.len() - i),
        decreases i,
    {
        let ghost before = texts(parts@);
        parts.push(below[i - 1].clone());
        proof {
            let reversed = texts(below@).reverse();
            assert(reversed[below.len() - i] == below@[i - 1]@);
            assert(texts(parts@) =~= before.push(below@[i - 1]@));
            assert(reversed.take(below.len() - i + 1) =~= reversed.take(below.len() - i).push(
                below@[i - 1]@,
            ));
            assert(texts(parts@) =~= seq![module@] + reversed.take(below.len() - i + 1));
        }
        i = i - 1;
    }
    assert(texts(below@).reverse().take(below.len() as int) =~= texts(below@).reverse());
    join(&parts, "/")
}

/// A compiler for the Go plugin. Every include path that is added to it, but
/// for the compiler's own, brings one option for each proto source below it.
#[derive(Clone, Debug, PartialEq, Eq)]
pub struct GoCompiler {
    compiler: PlainCompiler,
    import_path: String,
    output_excludes: Option<ExcludeSet>,
    compiler_includes: Option<String>,
}

/// What a Go compiler is made of.
pub struct GoView {
    /// The plain compiler that is invoked.
    pub compiler: CompilerView,
    /// The Go import path of the plugin's output directory.
    pub import_path: Seq<char>,
    /// The paths that are passed over when an include path is searched.
    pub output_excludes: Set<Seq<char>>,
    /// The include path that the compiler brings itself, if it is known;
    /// nothing below it is mapped.
    pub compiler_includes: Option<Seq<char>>,
}

/// The option that tells the Go plugin which package the proto source at
/// `relative`, a path relative to its include path, belongs to.
pub open spec fn mapping_option(import_path: Seq<char>, relative: Seq<char>) -> Seq<char> {
    "M"@ + relative + "="@ + import_path + "/"@ + parent_of(relative)
}

/// Whether `item` can be mapped: it is a path, and it lies below `base`.
pub open spec fn mappable(base: Seq<char>, item: Result<String, WalkError>) -> bool {
    item matches Ok(path) && relative_to(path@, base) is Some
}

/// How many of `items`, from the first on, can be mapped one after another.
pub open spec fn mapped_count(base: Seq<char>, items: Seq<Result<String, WalkError>>) -> nat
    decreases items.len(),
{
    if items.len() == 0 || !mappable(base, items[0]) {
        0
    } else {
        1 + mapped_count(base, items.drop_first())
    }
}

/// The options for the first `count` of `items`.
pub open spec fn mappings(
    import_path: Seq<char>,
    base: Seq<char>,
    items: Seq<Result<String, WalkError>>,
    count: nat,
) -> Seq<Seq<char>> {
    Seq::new(
        count,
        |i: int| mapping_option(import_path, relative_to(items[i]->Ok_0@, base).unwrap()),
    )
}

/// Why `item` cannot be mapped.
pub open spec fn mapping_failure(item: Result<String, WalkError>) -> GoFailure {
    match item {
        Err(WalkError::Io(message)) => GoFailure::Io(message@),
        Err(WalkError::InvalidExclude) => GoFailure::Io("related path expected"@),
        Err(WalkError::NotText) => GoFailure::Parsing("utf-8 path expected"@),
        Ok(_) => GoFailure::Parsing("unrelated proto"@),
    }
}

/// `mapped_count` is the least position that cannot be mapped.
pub proof fn lemma_mapped_count(base: Seq<char>, items: Seq<Result<String, WalkError>>, at: nat)
    requires
        at <= items.len(),
        forall|k: int| 0 <= k < at ==> mappable(base, #[trigger] items[k]),
        at < items.len() ==> !mappable(base, items[at as int]),
    ensures
        mapped_count(base, items) == at,
    decreases items.len(),
{
    if items.len() > 0 && at > 0 {
        let rest = items.drop_first();
        assert(mappable(base, items[0]));
        assert forall|k: int| 0 <= k < at - 1 implies mappable(base, #[trigger] rest[k]) by {
            assert(rest[k] == items[k + 1]);
        }
        lemma_mapped_count(base, rest, (at - 1) as nat);
    }
}

/// A Go compiler after the proto sources `found` below `base` have been
/// mapped, and why the mapping stopped, if it did: the options for the
/// sources before the first that cannot be mapped are added in any case.
pub open spec fn mapped(go: GoView, base: Seq<char>, found: Seq<Result<String, WalkError>>) -> (
    GoView,
    Option<GoFailure>,
) {
    let count = mapped_count(base, found);
    let after = GoView {
        compiler: CompilerView {
            plugin: PluginView {
                options: go.compiler.plugin.options + mappings(go.import_path, base, found, count),
                ..go.compiler.plugin
            },
            ..go.compiler
        },
        ..go
    };
    if count == found.len() {
        (after, None)
    } else {
        (after, Some(mapping_failure(found[count as int])))
    }
}

/// A Go compiler after the include path `path` has been added, `found` being
/// what a deep walk below `path` yielded: the compiler's own include path is
/// added as it is; any other is added once all of `found` has been mapped.
pub open spec fn included(go: GoView, path: Seq<char>, found: Seq<Result<String, WalkError>>) -> (
    GoView,
    Option<GoFailure>,
) {
    let prepared = if go.compiler_includes == Some(path) {
        (go, None)
    } else {
        mapped(go, path, found)
    };
    if prepared.1 is Some {
        prepared
    } else {
        (
            GoView {
                compiler: CompilerView {
                    includes: prepared.0.compiler.includes.push(path),
                    ..prepared.0.compiler
                },
                ..prepared.0
            },
            None,
        )
    }
}

/// A Go compiler as it is first made.
pub open spec fn go_compiler_of(
    path: Seq<char>,
    plugin: PluginView,
    import_path: Seq<char>,
) -> GoView {
    GoView {
        compiler: CompilerView { path, includes: Seq::empty(), plugin, protos: Seq::empty() },
        import_path,
        output_excludes: Set::empty(),
        compiler_includes: None,
    }
}

/// What making a Go compiler comes to: a module query that could not be run
/// fails it, then one that printed something that is not text, then the
/// search for the module's root.
pub open spec fn made(
    path: Seq<char>,
    plugin: PluginView,
    module_query: Result<Vec<u8>, String>,
    ancestors: Seq<Ancestor>,
) -> Result<GoView, GoFailure> {
    match module_query {
        Err(message) => Err(GoFailure::Io(message@)),
        Ok(output) => if !valid_utf8(output@) {
            Err(GoFailure::Parsing("module name is not text"@))
        } else {
            match search(ancestors, 0, Seq::empty()) {
                Err(e) => Err(e),
                Ok(below) => Ok(
                    go_compiler_of(
                        path,
                        plugin,
                        import_path_of(module_identity(decode_utf8(output@)), below),
                    ),
                ),
            }
        },
    }
}

fn failure_from(e: &WalkError) -> (out: GoError)
    ensures
        out@ == mapping_failure(Err(*e)),
{
    match e {
        WalkError::Io(message) => GoError::Io(message.clone()),
        WalkError::InvalidExclude => GoError::Io(String::from_str("related path expected")),
        WalkError::NotText => GoError::Parsing(String::from_str("utf-8 path expected")),
    }
}

impl View for GoCompiler {
    type V = GoView;

    closed spec fn view(&self) -> GoView {
        GoView {
            compiler: self.compiler@,
            import_path: self.import_path@,
            output_excludes: match self.output_excludes {
                Some(set) => set@,
                None => Set::empty(),
            },
            compiler_includes: match self.compiler_includes {
                Some(path) => Some(path@),
                None => None,
            },
        }
    }
}

impl GoCompiler {
    /// Makes the compiler at `path` for the Go plugin `plugin`, from what the
    /// module query in the plugin's output directory printed, or why it could
    /// not be run, and from what was found at the output directory and at each
    /// directory above it.
    pub fn new(
        path: String,
        plugin: Plugin,
        module_query: Result<Vec<u8>, String>,
        ancestors: &Vec<Ancestor>,
    ) -> (out: Result<GoCompiler, GoError>)
        ensures
            (match out {
                Ok(go) => Ok(go@),
                Err(e) => Err(e@),
            }) == made(path@, plugin@, module_query, ancestors@),
    {
        let output = match module_query {
            Ok(output) => output,
            Err(message) => {
                return Err(GoError::Io(message));
            },
        };
        let module = match derive_module(output) {
            Ok(module) => module,
            Err(e) => {
                return Err(e);
            },
        };
        let below = match package_path(ancestors) {
            Ok(below) => below,
            Err(e) => {
                return Err(e);
            },
        };
        let import_path = import_path(module, &below);
        Ok(
            GoCompiler {
                compiler: PlainCompiler::new(path, plugin),
                import_path,
                output_excludes: None,
                compiler_includes: None,
            },
        )
    }

    /// The Go import path of the plugin's output directory.
    pub fn import_path(&self) -> (out: &str)
        ensures
            out@ == self@.import_path,
    {
        self.import_path.as_str()
    }

    /// Says which include path the compiler brings itself.
    pub fn set_compiler_includes(&mut self, includes: String)
        ensures
            final(self)@ == (GoView { compiler_includes: Some(includes@), ..old(self)@ }),
    {
        self.compiler_includes = Some(includes);
    }

    /// Sets the paths that are passed over when an include path is searched,
    /// each taken as it is given.
    pub fn set_output_exludes(&mut self, excludes: &Vec<String>)
        ensures
            final(self)@ == (GoView {
                output_excludes: excluding(texts(excludes@)),
                ..old(self)@
            }),
    {
        self.output_excludes = Some(ExcludeSet::from_paths(excludes));
    }

    /// The deep walk whose yield `add_include` is to be given for `path`, or
    /// nothing where `path` is the compiler's own include path, below which
    /// nothing is searched.
    pub fn include_walker(&self, path: &str) -> (out: Option<DeepProtoWalker>)
        ensures
            out is None <==> self@.compiler_includes == Some(path@),
            out matches Some(walker) ==> walker@.exclude == self@.output_excludes
                && walker@.pending.len() == 1 && walker@.pending[0].path@ == path@
                && !walker@.pending[0].opened,
    {
        let own = match &self.compiler_includes {
            Some(own) => same_text(own.as_str(), path),
            None => false,
        };
        if own {
            None
        } else {
            let exclude = match &self.output_excludes {
                Some(set) => set.duplicate(),
                None => ExcludeSet::empty(),
            };
            Some(DeepProtoWalker::new(String::from_str(path), exclude))
        }
    }

    /// Adds one option for each proto source of `found`, in order, each
    /// source being a path below `path`; stops at the first that is a failure
    /// or does not lie below `path`, and hands that on.
    pub fn map_packages(&mut self, path: &str, found: &Vec<Result<String, WalkError>>) -> (out:
        Result<(), GoError>)
        ensures
            (final(self)@, failure_of(out)) == mapped(old(self)@, path@, found@),
    {
        let ghost start = self@;
        let mut i: usize = 0;
        assert(self@.compiler.plugin.options =~= start.compiler.plugin.options + mappings(
            start.import_path,
            path@,
            found@,
            0,
        ));
        while i < found.len()
            invariant
                i <= found.len(),
                start == old(self)@,
                forall|k: int| 0 <= k < i ==> mappable(path@, #[trigger] found@[k]),
                self@ == (GoView {
                    compiler: CompilerView {
                        plugin: PluginView {
                            options: start.compiler.plugin.options + mappings(
                                start.import_path,
                                path@,
                                found@,
                                i as nat,
                            ),
                            ..start.compiler.plugin
                        },
                        ..start.compiler
                    },
                    ..start
                }),
            decreases found.len() - i,
        {
            let relative = match &found[i] {
                Err(e) => {
                    proof {
                        lemma_mapped_count(path@, found@, i as nat);
                    }
                    return Err(failure_from(e));
                },
                Ok(proto) => match strip_base(proto.as_str(), path) {
                    None => {
                        proof {
                            lemma_mapped_count(path@, found@, i as nat);
                        }
                        return Err(GoError::Parsing(String::from_str("unrelated proto")));
                    },
                    Some(relative) => relative,
                },
            };
            let mut mapping = String::from_str("M");
            mapping.append(relative.as_str());
            mapping.append("=");
            mapping.append(self.import_path.as_str());
            mapping.append("/");
            let directory = parent(relative.as_str());
            mapping.append(directory.as_str());
            assert(mapping@ =~= mapping_option(start.import_path, relative@));
            let ghost before = self@.compiler.plugin.options;
            self.compiler.add_plugin_option(mapping);
            assert(before.push(mapping@) =~= start.compiler.plugin.options + mappings(
                start.import_path,
                path@,
                found@,
                (i + 1) as nat,
            ));
            i = i + 1;
        }
        proof {
            lemma_mapped_count(path@, found@, found@.len());
        }
        Ok(())
    }

    /// Adds the include path `path`, `found` being what the walk of
    /// `include_walker` yielded for it. The compiler's own include path is
    /// added as it is. For any other, the proto sources of `found` are mapped
    /// first, and the path is added only if all of them were.
    pub fn add_include(&mut self, path: String, found: &Vec<Result<String, WalkError>>) -> (out:
        Result<(), GoError>)
        ensures
            (final(self)@, failure_of(out)) == included(old(self)@, path@, found@),
    {
        let own = match &self.compiler_includes {
            Some(own) => same_text(own.as_str(), path.as_str()),
            None => false,
        };
        if !own {
            match self.map_packages(path.as_str(), found) {
                Ok(()) => {},
                Err(e) => {
                    return Err(e);
                },
            }
        }
        self.compiler.add_include(path);
        Ok(())
    }

    /// Replaces the proto sources of the next invocation, as the plain
    /// compiler does.
    pub fn set_protos(&mut self, protos: &Vec<Result<String, WalkError>>) -> (out: Result<
        (),
        WalkError,
    >)
        ensures
            out is Ok <==> first_failure(protos@) == protos@.len(),
            out is Ok ==> final(self)@ == (GoView {
                compiler: CompilerView { protos: found_paths(protos@), ..old(self)@.compiler },
                ..old(self)@
            }),
            out matches Err(e) ==> e == protos@[first_failure(protos@) as int]->Err_0,
            out is Err ==> final(self)@ == old(self)@,
    {
        self.compiler.set_protos(protos)
    }

    /// A copy of this compiler.
    pub fn duplicate(&self) -> (out: GoCompiler)
        ensures
            out@ == self@,
    {
        GoCompiler {
            compiler: self.compiler.duplicate(),
            import_path: self.import_path.clone(),
            output_excludes: match &self.output_excludes {
                Some(set) => Some(set.duplicate()),
                None => None,
            },
            compiler_includes: match &self.compiler_includes {
                Some(path) => Some(path.clone()),
                None => None,
            },
        }
    }

    /// Renders the invocation, which is that of the plain compiler.
    pub fn command(self) -> (out: Vec<String>)
        ensures
            texts(out@) == command_line(self@.compiler),
    {
        self.compiler.command()
    }
}

} // verus!
