//! The file store as the handlers see it: what a request needs from the
//! served directory, and what came of it.

use vstd::prelude::*;
use crate::text::{ascii, literal, same};

verus! {

/// What the served directory is asked to do for a request.
pub enum FileActionView {
    Nothing,
    Read(Seq<u8>),
    Write(Seq<u8>, Seq<u8>),
}

/// What the served directory is asked to do for a request.
#[derive(Debug)]
pub enum FileAction {
    /// The request needs no file.
    Nothing,
    /// Read the file of this name. A missing file is to be reported as
    /// such without an attempt to read it.
    Read(Vec<u8>),
    /// Write these contents to the file of this name, creating or
    /// truncating it.
    Write(Vec<u8>, Vec<u8>),
}

impl View for FileAction {
    type V = FileActionView;

    open spec fn view(&self) -> FileActionView {
        match *self {
            FileAction::Nothing => FileActionView::Nothing,
            FileAction::Read(name) => FileActionView::Read(name@),
            FileAction::Write(name, contents) => FileActionView::Write(name@, contents@),
        }
    }
}

/// What came of a file action.
pub enum FileEventView {
    NotAsked,
    Missing,
    Contents(Seq<u8>),
    Written,
    Failed,
}

/// What came of a file action.
#[derive(Debug)]
pub enum FileEvent {
    /// No file action was performed.
    NotAsked,
    /// The file to read does not exist.
    Missing,
    /// The file was read; these are its contents.
    Contents(Vec<u8>),
    /// The file was written.
    Written,
    /// Reading or writing failed.
    Failed,
}

impl View for FileEvent {
    type V = FileEventView;

    open spec fn view(&self) -> FileEventView {
        match *self {
            FileEvent::NotAsked => FileEventView::NotAsked,
            FileEvent::Missing => FileEventView::Missing,
            FileEvent::Contents(contents) => FileEventView::Contents(contents@),
            FileEvent::Written => FileEventView::Written,
            FileEvent::Failed => FileEventView::Failed,
        }
    }
}

/// Whether a path segment names a file inside the served directory. A
/// segment holds no slash, so only `.` and `..` lead elsewhere.
pub open spec fn safe_name(name: Seq<u8>) -> bool {
    name != ascii(".") && name != ascii("..")
}

/// Whether a path segment names a file inside the served directory.
pub fn is_safe_name(name: &[u8]) -> (r: bool)
    ensures
        r == safe_name(name@),
{
    let dot = literal(".");
    let dots = literal("..");
    !same(name, dot.as_slice()) && !same(name, dots.as_slice())
}

} // verus!
