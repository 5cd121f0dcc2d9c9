//! One directory of a walk, and what its entries are taken for.

use vstd::prelude::*;
use vstd::string::*;
use crate::text::{ends_with, has_suffix};
use crate::walk::WalkError;

verus! {

/// What the file system says an entry is.
#[derive(Clone, Copy, Debug, PartialEq, Eq, Structural)]
pub enum FileKind {
    /// A directory.
    Dir,
    /// A regular file.
    File,
    /// Anything else: a link, a device, a socket.
    Other,
}

/// One entry of a directory, as it was found.
#[derive(Clone, Debug, PartialEq, Eq)]
pub struct DirEntry {
    /// The entry's full path.
    pub path: String,
    /// The entry's own name, where it could be read as text.
    pub file_name: Option<String>,
    /// What the entry is.
    pub kind: FileKind,
}

/// What came of asking a directory for its next entry.
#[derive(Clone, Debug, PartialEq, Eq)]
pub enum DirEvent {
    /// The directory could not be opened.
    OpenFailed(String),
    /// The directory is open, but its next entry could not be read or
    /// inspected.
    ReadFailed(String),
    /// The next entry.
    Entry(DirEntry),
    /// The next entry, whose path is not text.
    NotText {
        /// The path as far as text can render it.
        path: String,
        /// What the entry is.
        kind: FileKind,
    },
    /// The directory has no further entry.
    End,
}

/// What a walk takes an entry for.
#[derive(Clone, Debug, PartialEq, Eq)]
pub enum EntryType {
    /// A regular file whose name ends with `.proto`.
    Proto(String),
    /// A directory.
    Dir(String),
    /// Anything else.
    Unknown(String),
}

/// A directory that a walk has yet to exhaust.
#[derive(Clone, Debug, PartialEq, Eq)]
pub struct Directory {
    /// Where the directory is.
    pub path: String,
    /// Whether its listing has been opened.
    pub opened: bool,
}

/// Whether an entry's name marks a proto source.
pub open spec fn is_proto_name(file_name: Option<String>) -> bool {
    file_name matches Some(name) && has_suffix(name@, ".proto"@)
}

/// What `entry` is taken for: a directory by its kind, a proto source where it
/// is a regular file named `*.proto`, and unknown otherwise.
pub open spec fn classify(entry: DirEntry) -> EntryType {
    match entry.kind {
        FileKind::Dir => EntryType::Dir(entry.path),
        FileKind::Other => EntryType::Unknown(entry.path),
        FileKind::File => if is_proto_name(entry.file_name) {
            EntryType::Proto(entry.path)
        } else {
            EntryType::Unknown(entry.path)
        },
    }
}

/// What a directory hands on for `event`: the entry as what it is taken for,
/// a failure, or nothing at its end. A directory whose path is not text is a
/// failure, since nothing below it could be named; any other entry whose path
/// is not text is unknown.
pub open spec fn directory_item(event: DirEvent) -> Option<Result<EntryType, WalkError>> {
    match event {
        DirEvent::OpenFailed(message) => Some(Err(WalkError::Io(message))),
        DirEvent::ReadFailed(message) => Some(Err(WalkError::Io(message))),
        DirEvent::Entry(entry) => Some(Ok(classify(entry))),
        DirEvent::NotText { path, kind } => if kind == FileKind::Dir {
            Some(Err(WalkError::NotText))
        } else {
            Some(Ok(EntryType::Unknown(path)))
        },
        DirEvent::End => None,
    }
}

/// Whether a directory's listing is open once `event` has come back for it.
pub open spec fn opened_after(opened: bool, event: DirEvent) -> bool {
    match event {
        DirEvent::OpenFailed(_) => opened,
        _ => true,
    }
}

impl Directory {
    /// A directory at `path` whose listing has not been opened.
    pub fn new(path: String) -> (out: Directory)
        ensures
            out == (Directory { path, opened: false }),
    {
        Directory { path, opened: false }
    }

    /// Says what `entry` is taken for.
    pub fn inspect_entry(&self, entry: DirEntry) -> (out: EntryType)
        ensures
            out == classify(entry),
    {
        match entry.kind {
            FileKind::Dir => EntryType::Dir(entry.path),
            FileKind::Other => EntryType::Unknown(entry.path),
            FileKind::File => {
                let proto = match &entry.file_name {
                    Some(name) => ends_with(name.as_str(), ".proto"),
                    None => false,
                };
                if proto {
                    EntryType::Proto(entry.path)
                } else {
                    EntryType::Unknown(entry.path)
                }
            },
        }
    }

    /// Takes what came back for this directory and hands on the entry, the
    /// failure, or nothing at its end. The listing counts as open afterwards
    /// unless opening it failed.
    pub fn next(&mut self, event: DirEvent) -> (out: Option<Result<EntryType, WalkError>>)
        ensures
            final(self).path == old(self).path,
            final(self).opened == opened_after(old(self).opened, event),
            out == directory_item(event),
    {
        match event {
            DirEvent::OpenFailed(message) => Some(Err(WalkError::Io(message))),
            DirEvent::ReadFailed(message) => {
                self.opened = true;
                Some(Err(WalkError::Io(message)))
            },
            DirEvent::Entry(entry) => {
                self.opened = true;
                Some(Ok(self.inspect_entry(entry)))
            },
            DirEvent::NotText { path, kind } => {
                self.opened = true;
                match kind {
                    FileKind::Dir => Some(Err(WalkError::NotText)),
                    _ => Some(Ok(EntryType::Unknown(path))),
                }
            },
            DirEvent::End => {
                self.opened = true;
                None
            },
        }
    }
}

} // verus!
