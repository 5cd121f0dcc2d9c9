//! What a run is configured with.

use vstd::prelude::*;
use vstd::string::*;
use crate::text::{decimal, render_decimal};

verus! {

/// The version of a compiler release.
#[derive(Clone, Debug, PartialEq, Eq)]
pub struct Version {
    /// The major number.
    pub major: u64,
    /// The minor number.
    pub minor: u64,
    /// The patch number.
    pub patch: u64,
    /// The pre-release identifiers, empty where the version has none.
    pub pre: String,
    /// The build metadata, empty where the version has none.
    pub build: String,
}

/// What the compiler is configured with.
#[derive(Clone, Debug, PartialEq, Eq)]
pub struct Protoc {
    /// The version of the compiler.
    pub version: Version,
    /// Further include paths.
    pub includes: Option<Vec<String>>,
    /// Paths, relative to the project root, that no walk goes into.
    pub excludes: Option<Vec<String>>,
}

/// One plugin as the configuration describes it.
#[derive(Clone, Debug, PartialEq, Eq)]
pub struct Plugin {
    /// The plugin's name.
    pub name: String,
    /// The directory that the plugin writes to.
    pub output: String,
    /// The plugin's options in one text, separated by commas.
    pub options: Option<String>,
    /// Where the plugin's binary lies, if it is not to be looked up.
    pub path: Option<String>,
}

/// The configuration of a run.
#[derive(Clone, Debug, PartialEq, Eq)]
pub struct Config {
    /// The compiler.
    pub protoc: Protoc,
    /// The plugins, in the order in which they are run.
    pub plugins: Vec<Plugin>,
}

/// The parts of the semantic version that `text` is, in the order major,
/// minor, patch, pre-release, build; or nothing where `text` is none.
pub uninterp spec fn semver_parts(text: Seq<char>) -> Option<(u64, u64, u64, Seq<char>, Seq<char>)>;

/// The parts of a version, its texts as sequences of characters.
pub open spec fn version_parts(version: Version) -> (u64, u64, u64, Seq<char>, Seq<char>) {
    (version.major, version.minor, version.patch, version.pre@, version.build@)
}

/// A version as it is written: the three numbers with dots between them,
/// then the pre-release behind a hyphen and the build metadata behind a plus
/// sign, each only where the version has it.
pub open spec fn version_text(version: Version) -> Seq<char> {
    decimal(version.major as nat) + "."@ + decimal(version.minor as nat) + "."@ + decimal(
        version.patch as nat,
    ) + (if version.pre@.len() > 0 {
        "-"@ + version.pre@
    } else {
        Seq::empty()
    }) + (if version.build@.len() > 0 {
        "+"@ + version.build@
    } else {
        Seq::empty()
    })
}

/// `semver::Version::parse`: the version that `text` is by the rules of
/// semantic versioning, in its parts, or nothing where `text` is no such
/// version.
#[verifier::external_body]
fn parse_semver(text: &str) -> (out: Option<Version>)
    ensures
        out is Some <==> semver_parts(text@) is Some,
        out matches Some(version) ==> version_parts(version) == semver_parts(text@).unwrap(),
{
    semver::Version::parse(text).ok().map(
        |v| Version {
            major: v.major,
            minor: v.minor,
            patch: v.patch,
            pre: v.pre.as_str().to_owned(),
            build: v.build.as_str().to_owned(),
        },
    )
}

impl Version {
    /// Reads a semantic version.
    pub fn parse(text: &str) -> (out: Option<Version>)
        ensures
            out is Some <==> semver_parts(text@) is Some,
            out matches Some(version) ==> version_parts(version) == semver_parts(text@).unwrap(),
    {
        parse_semver(text)
    }

    /// Writes the version out.
    pub fn render(&self) -> (out: String)
        ensures
            out@ == version_text(*self),
    {
        let mut out = render_decimal(self.major);
        out.append(".");
        out.append(render_decimal(self.minor).as_str());
        out.append(".");
        out.append(render_decimal(self.patch).as_str());
        if self.pre.as_str().unicode_len() > 0 {
            out.append("-");
            out.append(self.pre.as_str());
        }
        if self.build.as_str().unicode_len() > 0 {
            out.append("+");
            out.append(self.build.as_str());
        }
        assert(out@ =~= version_text(*self));
        out
    }
}

} // verus!
