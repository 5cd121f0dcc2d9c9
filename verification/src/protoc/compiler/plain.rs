//! The plain compiler: a binary, its include paths, one plugin and the proto
//! sources of one invocation.

use vstd::prelude::*;
use vstd::string::*;
use crate::protoc::compiler::{plugin_args, Plugin, PluginView};
use crate::text::{copy_texts, texts};
use crate::walk::WalkError;

verus! {

/// A compiler that is invoked for one plugin.
#[derive(Clone, Debug, PartialEq, Eq)]
pub struct PlainCompiler {
    path: String,
    include_paths: Vec<String>,
    plugin: Plugin,
    proto_paths: Vec<String>,
}

/// What a compiler is made of.
pub struct CompilerView {
    /// Where the compiler's binary lies.
    pub path: Seq<char>,
    /// The include paths, in the order in which they were added.
    pub includes: Seq<Seq<char>>,
    /// The plugin that the compiler is invoked for.
    pub plugin: PluginView,
    /// The proto sources of the next invocation.
    pub protos: Seq<Seq<char>>,
}

/// The arguments that hand on `includes` from position `from` on: `-I` and
/// the path, for each in order.
pub open spec fn include_args(includes: Seq<Seq<char>>, from: nat) -> Seq<Seq<char>>
    decreases includes.len() - from,
{
    if from >= includes.len() {
        Seq::empty()
    } else {
        seq!["-I"@, includes[from as int]] + include_args(includes, from + 1)
    }
}

/// The invocation of a compiler: its binary, the include paths, the plugin's
/// arguments and the proto sources, in this order.
pub open spec fn command_line(compiler: CompilerView) -> Seq<Seq<char>> {
    seq![compiler.path] + include_args(compiler.includes, 0) + plugin_args(compiler.plugin)
        + compiler.protos
}

/// The position of the first failure in `items`, or their number where none
/// of them failed.
pub open spec fn first_failure(items: Seq<Result<String, WalkError>>) -> nat
    decreases items.len(),
{
    if items.len() == 0 {
        0
    } else if items[0] is Err {
        0
    } else {
        1 + first_failure(items.drop_first())
    }
}

/// The paths of `items`, which all are found paths.
pub open spec fn found_paths(items: Seq<Result<String, WalkError>>) -> Seq<Seq<char>> {
    Seq::new(items.len(), |i: int| items[i]->Ok_0@)
}

/// `first_failure` is a position of `items`, or their number.
pub proof fn lemma_first_failure_bound(items: Seq<Result<String, WalkError>>)
    ensures
        first_failure(items) <= items.len(),
        first_failure(items) < items.len() ==> items[first_failure(items) as int] is Err,
    decreases items.len(),
{
    if items.len() > 0 && items[0] is Ok {
        lemma_first_failure_bound(items.drop_first());
    }
}

/// `first_failure` is the least position that holds a failure.
pub proof fn lemma_first_failure(items: Seq<Result<String, WalkError>>, at: nat)
    requires
        at <= items.len(),
        forall|k: int| 0 <= k < at ==> items[k] is Ok,
        at < items.len() ==> items[at as int] is Err,
    ensures
        first_failure(items) == at,
    decreases items.len(),
{
    if items.len() > 0 && at > 0 {
        let rest = items.drop_first();
        assert forall|k: int| 0 <= k < at - 1 implies rest[k] is Ok by {
            assert(rest[k] == items[k + 1]);
        }
        lemma_first_failure(rest, (at - 1) as nat);
    }
}

impl View for PlainCompiler {
    type V = CompilerView;

    closed spec fn view(&self) -> CompilerView {
        CompilerView {
            path: self.path@,
            includes: texts(self.include_paths@),
            plugin: self.plugin@,
            protos: texts(self.proto_paths@),
        }
    }
}

impl PlainCompiler {
    /// The compiler at `path`, invoked for `plugin`, with no include path and
    /// no proto source yet.
    pub fn new(path: String, plugin: Plugin) -> (out: PlainCompiler)
        ensures
            out@ == (CompilerView {
                path: path@,
                includes: Seq::empty(),
                plugin: plugin@,
                protos: Seq::empty(),
            }),
    {
        let out = PlainCompiler {
            path,
            include_paths: Vec::new(),
            plugin,
            proto_paths: Vec::new(),
        };
        assert(out@.includes =~= Seq::empty());
        assert(out@.protos =~= Seq::empty());
        out
    }

    /// Adds `option` behind the options of the compiler's plugin.
    pub fn add_plugin_option(&mut self, option: String)
        ensures
            final(self)@ == (CompilerView {
                plugin: PluginView {
                    options: old(self)@.plugin.options.push(option@),
                    ..old(self)@.plugin
                },
                ..old(self)@
            }),
    {
        self.plugin.add_option(option);
    }

    /// Adds `path` behind the include paths that the compiler has. A path
    /// that it has already is added again.
    pub fn add_include(&mut self, path: String)
        ensures
            final(self)@ == (CompilerView {
                includes: old(self)@.includes.push(path@),
                ..old(self)@
            }),
    {
        self.include_paths.push(path);
        assert(texts(self.include_paths@) =~= texts(old(self).include_paths@).push(path@));
    }

    /// Replaces the proto sources by the paths of `protos`, if none of them is
    /// a failure. Otherwise hands on the first failure and keeps the sources
    /// that the compiler had.
    pub fn set_protos(&mut self, protos: &Vec<Result<String, WalkError>>) -> (out: Result<
        (),
        WalkError,
    >)
        ensures
            out is Ok <==> first_failure(protos@) == protos@.len(),
            out is Ok ==> final(self)@ == (CompilerView {
                protos: found_paths(protos@),
                ..old(self)@
            }),
            out matches Err(e) ==> e == protos@[first_failure(protos@) as int]->Err_0,
            out is Err ==> final(self)@ == old(self)@,
    {
        let mut buf: Vec<String> = Vec::new();
        let mut i: usize = 0;
        while i < protos.len()
            invariant
                i <= protos.len(),
                buf@.len() == i,
                forall|k: int| 0 <= k < i ==> protos@[k] is Ok,
                forall|k: int| 0 <= k < i ==> (#[trigger] buf@[k])@ == protos@[k]->Ok_0@,
            decreases protos.len() - i,
        {
            match &protos[i] {
                Ok(path) => {
                    buf.push(path.clone());
                },
                Err(e) => {
                    proof {
                        lemma_first_failure(protos@, i as nat);
                    }
                    return Err(e.duplicate());
                },
            }
            i = i + 1;
        }
        proof {
            lemma_first_failure(protos@, protos@.len());
            assert(texts(buf@) =~= found_paths(protos@));
        }
        self.proto_paths = buf;
        Ok(())
    }

    /// A copy of this compiler.
    pub fn duplicate(&self) -> (out: PlainCompiler)
        ensures
            out@ == self@,
    {
        PlainCompiler {
            path: self.path.clone(),
            include_paths: copy_texts(&self.include_paths),
            plugin: self.plugin.duplicate(),
            proto_paths: copy_texts(&self.proto_paths),
        }
    }

    /// Renders the invocation.
    pub fn command(self) -> (out: Vec<String>)
        ensures
            texts(out@) == command_line(self@),
    {
        let ghost view = self@;
        let mut buf: Vec<String> = Vec::new();
        buf.push(self.path);
        let includes = self.include_paths;
        let mut i: usize = 0;
        while i < includes.len()
            invariant
                i <= includes.len(),
                texts(includes@) == view.includes,
                texts(buf@) + include_args(view.includes, i as nat) == seq![view.path]
                    + include_args(view.includes, 0),
            decreases includes.len() - i,
        {
            let ghost before = texts(buf@);
            buf.push(String::from_str("-I"));
            buf.push(includes[i].clone());
            proof {
                assert(texts(buf@) =~= before + seq!["-I"@, view.includes[i as int]]);
                assert(before + include_args(view.includes, i as nat) =~= texts(buf@)
                    + include_args(view.includes, (i + 1) as nat));
            }
            i = i + 1;
        }
        assert(texts(buf@) =~= seq![view.path] + include_args(view.includes, 0));
        let mut plugin_part = self.plugin.args();
        let ghost with_includes = texts(buf@);
        buf.append(&mut plugin_part);
        assert(texts(buf@) =~= with_includes + plugin_args(view.plugin));
        let mut protos = self.proto_paths;
        let ghost with_plugin = texts(buf@);
        buf.append(&mut protos);
        assert(texts(buf@) =~= with_plugin + view.protos);
        buf
    }
}

} // verus!
