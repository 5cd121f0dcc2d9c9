//! Output plugins and the compilers that are invoked for them.

pub mod go;
pub mod plain;

use vstd::prelude::*;
use vstd::string::*;
use crate::config;
use crate::protoc::compiler::go::{failure_of, included, GoCompiler, GoError, GoFailure, GoView};
use crate::protoc::compiler::plain::{
    command_line, first_failure, found_paths, CompilerView, PlainCompiler,
};
use crate::text::{copy_texts, join, join_with, split, split_on, texts};
use crate::walk::deep::DeepProtoWalker;
use crate::walk::WalkError;

verus! {

/// One output plugin of the compiler.
#[derive(Clone, Debug, PartialEq, Eq)]
pub struct Plugin {
    name: String,
    path: Option<String>,
    output: String,
    options: Vec<String>,
}

/// What a plugin is made of.
pub struct PluginView {
    /// The plugin's name: `go` for `protoc-gen-go`.
    pub name: Seq<char>,
    /// Where the plugin's binary lies, if that is given.
    pub path: Option<Seq<char>>,
    /// The directory that the plugin writes to.
    pub output: Seq<char>,
    /// The plugin's options, in order.
    pub options: Seq<Seq<char>>,
}

/// The argument that names the plugin, with its binary's path where one is
/// given.
pub open spec fn plugin_flag(plugin: PluginView) -> Seq<char> {
    "--plugin=protoc-gen-"@ + plugin.name + match plugin.path {
        Some(path) => "="@ + path,
        None => Seq::empty(),
    }
}

/// The argument that names the plugin's output directory.
pub open spec fn output_flag(plugin: PluginView) -> Seq<char> {
    "--"@ + plugin.name + "_out="@ + plugin.output
}

/// The argument that hands the plugin its options, joined by commas.
pub open spec fn options_flag(plugin: PluginView) -> Seq<char> {
    "--"@ + plugin.name + "_opt="@ + join_with(plugin.options, ","@)
}

/// The arguments that a plugin contributes to an invocation: the plugin, its
/// output directory and, only where it has options, its options.
pub open spec fn plugin_args(plugin: PluginView) -> Seq<Seq<char>> {
    if plugin.options.len() == 0 {
        seq![plugin_flag(plugin), output_flag(plugin)]
    } else {
        seq![plugin_flag(plugin), output_flag(plugin), options_flag(plugin)]
    }
}

/// The plugin that a configuration entry describes: its options are the
/// pieces between the commas of the entry's option text, if it has one.
pub open spec fn plugin_of(entry: config::Plugin) -> PluginView {
    PluginView {
        name: entry.name@,
        path: match entry.path {
            Some(path) => Some(path@),
            None => None,
        },
        output: entry.output@,
        options: match entry.options {
            Some(options) => split_on(options@, ','),
            None => Seq::empty(),
        },
    }
}

impl View for Plugin {
    type V = PluginView;

    closed spec fn view(&self) -> PluginView {
        PluginView {
            name: self.name@,
            path: match self.path {
                Some(path) => Some(path@),
                None => None,
            },
            output: self.output@,
            options: texts(self.options@),
        }
    }
}

impl Plugin {
    /// The plugin `name` writing to `output`, with no options and no path to
    /// its binary.
    pub fn new(name: String, output: String) -> (out: Plugin)
        ensures
            out@ == (PluginView {
                name: name@,
                path: None,
                output: output@,
                options: Seq::empty(),
            }),
    {
        let out = Plugin { name, path: None, output, options: Vec::new() };
        assert(out@.options =~= Seq::empty());
        out
    }

    /// The plugin's name.
    pub fn name(&self) -> (out: &str)
        ensures
            out@ == self@.name,
    {
        self.name.as_str()
    }

    /// The directory that the plugin writes to.
    pub fn output(&self) -> (out: &str)
        ensures
            out@ == self@.output,
    {
        self.output.as_str()
    }

    /// Adds `option` behind the options that the plugin has.
    pub fn add_option(&mut self, option: String)
        ensures
            final(self)@ == (PluginView {
                options: old(self)@.options.push(option@),
                ..old(self)@
            }),
    {
        self.options.push(option);
        assert(texts(self.options@) =~= texts(old(self).options@).push(option@));
    }

    /// Says where the plugin's binary lies.
    pub fn set_path(&mut self, path: String)
        ensures
            final(self)@ == (PluginView { path: Some(path@), ..old(self)@ }),
    {
        self.path = Some(path);
    }

    /// A copy of this plugin.
    pub fn duplicate(&self) -> (out: Plugin)
        ensures
            out@ == self@,
    {
        let out = Plugin {
            name: self.name.clone(),
            path: match &self.path {
                Some(path) => Some(path.clone()),
                None => None,
            },
            output: self.output.clone(),
            options: copy_texts(&self.options),
        };
        assert(out@.options =~= self@.options);
        out
    }

    /// Renders the arguments that the plugin contributes to an invocation.
    pub fn args(self) -> (out: Vec<String>)
        ensures
            texts(out@) == plugin_args(self@),
    {
        let mut plugin = String::from_str("--plugin=protoc-gen-");
        plugin.append(self.name.as_str());
        match &self.path {
            Some(path) => {
                plugin.append("=");
                plugin.append(path.as_str());
            },
            None => {},
        }
        assert(plugin@ =~= plugin_flag(self@));
        let mut output = String::from_str("--");
        output.append(self.name.as_str());
        output.append("_out=");
        output.append(self.output.as_str());
        assert(output@ =~= output_flag(self@));
        let mut out: Vec<String> = Vec::new();
        out.push(plugin);
        out.push(output);
        if self.options.len() > 0 {
            let mut options = String::from_str("--");
            options.append(self.name.as_str());
            options.append("_opt=");
            let joined = join(&self.options, ",");
            options.append(joined.as_str());
            assert(options@ =~= options_flag(self@));
            out.push(options);
        }
        assert(texts(out@) =~= plugin_args(self@));
        out
    }

    /// The plugin that the configuration entry `entry` describes.
    pub fn of(entry: &config::Plugin) -> (out: Plugin)
        ensures
            out@ == plugin_of(*entry),
    {
        let mut plugin = Plugin::new(entry.name.clone(), entry.output.clone());
        match &entry.path {
            Some(path) => {
                plugin.set_path(path.clone());
            },
            None => {},
        }
        match &entry.options {
            Some(options) => {
                let pieces = split(options.as_str(), ',');
                plugin.options = pieces;
            },
            None => {},
        }
        assert(plugin@.options =~= plugin_of(*entry).options);
        plugin
    }

    /// The plugin that a configuration entry describes.
    pub fn from(entry: config::Plugin) -> (out: Plugin)
        ensures
            out@ == plugin_of(entry),
    {
        Plugin::of(&entry)
    }
}

/// The compiler for a plugin: the Go compiler for the plugin `go`, the plain
/// compiler for any other.
#[derive(Clone, Debug, PartialEq, Eq)]
pub enum AnyCompiler {
    /// The plain compiler.
    Plain(PlainCompiler),
    /// The Go compiler.
    Go(GoCompiler),
}

/// What a compiler of either kind is made of.
pub enum AnyView {
    /// A plain compiler.
    Plain(CompilerView),
    /// A Go compiler.
    Go(GoView),
}

impl AnyView {
    /// The plain compiler that is invoked in the end.
    pub open spec fn plain(self) -> CompilerView {
        match self {
            AnyView::Plain(compiler) => compiler,
            AnyView::Go(go) => go.compiler,
        }
    }

    /// This compiler with `compiler` as the plain compiler that is invoked.
    pub open spec fn with_plain(self, compiler: CompilerView) -> AnyView {
        match self {
            AnyView::Plain(_) => AnyView::Plain(compiler),
            AnyView::Go(go) => AnyView::Go(GoView { compiler, ..go }),
        }
    }
}

/// A compiler after the include path `path` has been added, `found` being
/// what a deep walk below `path` yielded, and why it was not added, if it was
/// not. The plain compiler adds any path; the Go compiler maps `found` first.
pub open spec fn any_included(
    compiler: AnyView,
    path: Seq<char>,
    found: Seq<Result<String, WalkError>>,
) -> (AnyView, Option<GoFailure>) {
    match compiler {
        AnyView::Plain(plain) => (
            AnyView::Plain(CompilerView { includes: plain.includes.push(path), ..plain }),
            None,
        ),
        AnyView::Go(go) => (AnyView::Go(included(go, path, found).0), included(go, path, found).1),
    }
}

impl View for AnyCompiler {
    type V = AnyView;

    open spec fn view(&self) -> AnyView {
        match *self {
            AnyCompiler::Plain(compiler) => AnyView::Plain(compiler@),
            AnyCompiler::Go(compiler) => AnyView::Go(compiler@),
        }
    }
}

impl AnyCompiler {
    /// The deep walk whose yield `add_include` is to be given for `path`:
    /// nothing for a plain compiler, and for a Go compiler what it says.
    pub fn include_walker(&self, path: &str) -> (out: Option<DeepProtoWalker>)
        ensures
            self@ is Plain ==> out is None,
            self@ matches AnyView::Go(go) ==> (out is None <==> go.compiler_includes == Some(
                path@,
            )),
            self@ matches AnyView::Go(go) ==> (out matches Some(walker) ==> walker@.exclude
                == go.output_excludes && walker@.pending.len() == 1 && walker@.pending[0].path@
                == path@ && !walker@.pending[0].opened),
    {
        match self {
            AnyCompiler::Plain(_) => None,
            AnyCompiler::Go(compiler) => compiler.include_walker(path),
        }
    }

    /// Adds the include path `path`, `found` being what the walk of
    /// `include_walker` yielded for it, or nothing where there was none.
    pub fn add_include(&mut self, path: String, found: &Vec<Result<String, WalkError>>) -> (out:
        Result<(), GoError>)
        ensures
            (final(self)@, failure_of(out)) == any_included(old(self)@, path@, found@),
    {
        match self {
            AnyCompiler::Plain(compiler) => {
                compiler.add_include(path);
                Ok(())
            },
            AnyCompiler::Go(compiler) => compiler.add_include(path, found),
        }
    }

    /// Replaces the proto sources of the next invocation by the paths of
    /// `protos`, if none of them is a failure. Otherwise hands on the first
    /// failure and keeps the sources that the compiler had.
    pub fn set_protos(&mut self, protos: &Vec<Result<String, WalkError>>) -> (out: Result<
        (),
        WalkError,
    >)
        ensures
            out is Ok <==> first_failure(protos@) == protos@.len(),
            out is Ok ==> final(self)@ == old(self)@.with_plain(
                CompilerView { protos: found_paths(protos@), ..old(self)@.plain() },
            ),
            out matches Err(e) ==> e == protos@[first_failure(protos@) as int]->Err_0,
            out is Err ==> final(self)@ == old(self)@,
    {
        match self {
            AnyCompiler::Plain(compiler) => compiler.set_protos(protos),
            AnyCompiler::Go(compiler) => compiler.set_protos(protos),
        }
    }

    /// A copy of this compiler.
    pub fn duplicate(&self) -> (out: AnyCompiler)
        ensures
            out@ == self@,
    {
        match self {
            AnyCompiler::Plain(compiler) => AnyCompiler::Plain(compiler.duplicate()),
            AnyCompiler::Go(compiler) => AnyCompiler::Go(compiler.duplicate()),
        }
    }

    /// Renders the invocation.
    pub fn command(self) -> (out: Vec<String>)
        ensures
            texts(out@) == command_line(self@.plain()),
    {
        match self {
            AnyCompiler::Plain(compiler) => compiler.command(),
            AnyCompiler::Go(compiler) => compiler.command(),
        }
    }
}

} // verus!
