//! Where the compiler's files lie below a cache directory, and which release
//! asset holds them for a target.

use vstd::prelude::*;
use vstd::string::*;
use crate::path::{join_path, joined};

verus! {

/// An operating system that the compiler is released for.
#[derive(Clone, Copy, Debug, PartialEq, Eq, Structural)]
pub enum Os {
    /// Windows.
    Windows,
    /// Linux.
    Linux,
    /// macOS.
    MacOs,
}

/// A processor architecture that the compiler is released for.
#[derive(Clone, Copy, Debug, PartialEq, Eq, Structural)]
pub enum Arch {
    /// 64-bit x86.
    X86_64,
    /// 32-bit x86.
    X86,
}

/// What a run is built for.
#[derive(Clone, Copy, Debug, PartialEq, Eq, Structural)]
pub struct Target {
    /// The operating system.
    pub os: Os,
    /// The processor architecture.
    pub arch: Arch,
}

/// The name of the compiler's binary on `os`.
pub open spec fn binary_name_of(os: Os) -> Seq<char> {
    match os {
        Os::Windows => "protoc.exe"@,
        _ => "protoc"@,
    }
}

/// The platform token by which the release assets for `target` are named.
pub open spec fn platform_of(target: Target) -> Seq<char> {
    match (target.os, target.arch) {
        (Os::Windows, Arch::X86_64) => "win64"@,
        (Os::Windows, Arch::X86) => "win32"@,
        (Os::Linux, Arch::X86_64) => "linux-x86_64"@,
        (Os::Linux, Arch::X86) => "linux-x86_32"@,
        (Os::MacOs, Arch::X86_64) => "osx-x86_64"@,
        (Os::MacOs, Arch::X86) => "osx-x86_32"@,
    }
}

/// The path of the compiler's binary below the cache directory `cache`.
pub open spec fn binary_path_of(cache: Seq<char>, os: Os) -> Seq<char> {
    joined(joined(cache, "bin"@), binary_name_of(os))
}

/// The path of the compiler's include directory below the cache directory
/// `cache`.
pub open spec fn include_path_of(cache: Seq<char>) -> Seq<char> {
    joined(cache, "include"@)
}

/// Gives the name of the compiler's binary on `os`.
pub fn binary_name(os: Os) -> (out: &'static str)
    ensures
        out@ == binary_name_of(os),
{
    match os {
        Os::Windows => "protoc.exe",
        _ => "protoc",
    }
}

/// Gives the platform token of `target`.
pub fn platform(target: Target) -> (out: &'static str)
    ensures
        out@ == platform_of(target),
{
    match (target.os, target.arch) {
        (Os::Windows, Arch::X86_64) => "win64",
        (Os::Windows, Arch::X86) => "win32",
        (Os::Linux, Arch::X86_64) => "linux-x86_64",
        (Os::Linux, Arch::X86) => "linux-x86_32",
        (Os::MacOs, Arch::X86_64) => "osx-x86_64",
        (Os::MacOs, Arch::X86) => "osx-x86_32",
    }
}

/// Gives the platform token by which the release asset for `target` is
/// chosen.
pub fn target_platform(target: Target) -> (out: &'static str)
    ensures
        out@ == platform_of(target),
{
    platform(target)
}

/// Extends the cache directory `path` to the path of the compiler's binary.
pub fn push_binary_path(path: &mut String, os: Os)
    ensures
        final(path)@ == binary_path_of(old(path)@, os),
{
    let bin = join_path(path.as_str(), "bin");
    *path = join_path(bin.as_str(), binary_name(os));
}

/// Extends the cache directory `path` to the path of the compiler's include
/// directory.
pub fn push_include_path(path: &mut String)
    ensures
        final(path)@ == include_path_of(old(path)@),
{
    *path = join_path(path.as_str(), "include");
}

} // verus!
