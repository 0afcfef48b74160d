//! The protocol between the session core and a front end.
//!
//! The core never touches the filesystem or spawns a process. Instead it
//! hands the front end an [`Action`] naming the one outside step to perform;
//! the front end answers with the [`Event`] that describes what the
//! filesystem or the process loader reported, and the core steps on.

use vstd::prelude::*;

verus! {

/// One directory entry as a front end reports it: the bare name and whether
/// the entry is itself a directory.
#[derive(Clone, PartialEq, Eq, Debug)]
pub struct DirEntry {
    pub name: String,
    pub is_dir: bool,
}

impl View for DirEntry {
    type V = (Seq<char>, bool);

    open spec fn view(&self) -> (Seq<char>, bool) {
        (self.name@, self.is_dir)
    }
}

impl DeepView for DirEntry {
    type V = (Seq<char>, bool);

    open spec fn deep_view(&self) -> (Seq<char>, bool) {
        self.view()
    }
}

/// What a path names on the filesystem. Anything that exists and is not a
/// directory counts as a file here.
#[derive(Clone, Copy, PartialEq, Eq, Debug)]
pub enum PathKind {
    Missing,
    File,
    Dir,
}

/// How the session tracks its current directory: the operating system's
/// working directory is authoritative, or the session owns a canonicalized
/// path of its own.
#[derive(Clone, Copy, PartialEq, Eq, Debug)]
pub enum DirectoryTrackingMode {
    OsManaged,
    OwnedCanonicalized,
}

/// The one outside step the front end must perform next. `Done` means the
/// entered line is fully processed.
#[derive(Clone, PartialEq, Eq, Debug)]
pub enum Action {
    Done,
    /// Report what `path` names, as an [`Event::Kind`].
    Stat { path: String },
    /// List the entries of `path`, as [`Event::Entries`] or
    /// [`Event::DirError`].
    ReadDir { path: String },
    /// Create the directory `path`; answer [`Event::OpOk`] or
    /// [`Event::OpErr`].
    CreateDir { path: String },
    /// Remove the file `path`; answer [`Event::OpOk`] or [`Event::OpErr`].
    RemoveFileAt { path: String },
    /// Remove the empty directory `path`; answer [`Event::OpOk`] or
    /// [`Event::OpErr`].
    RemoveDirAt { path: String },
    /// Remove the directory `path` and everything under it; answer
    /// [`Event::OpOk`] or [`Event::OpErr`].
    RemoveTreeAt { path: String },
    /// Canonicalize `path`; answer [`Event::CanonicalOk`] or
    /// [`Event::CanonicalErr`].
    Canonicalize { path: String },
    /// Make `path` the process working directory; answer [`Event::CwdOk`]
    /// with the new working directory, or [`Event::CwdErr`].
    SetCwd { path: String },
    /// Report the process working directory; answer [`Event::CwdOk`] or
    /// [`Event::CwdErr`].
    QueryCwd,
    /// Clear the real terminal screen. No answering event is expected.
    ClearScreen,
    /// Run an external command with its output captured; answer
    /// [`Event::RunOut`] or [`Event::RunErr`].
    Run { program: String, args: Vec<String> },
    /// Run an external command on the inherited standard streams; answer
    /// [`Event::RunExit`] or [`Event::RunErr`].
    RunInteractive { program: String, args: Vec<String> },
    /// Stop reading input and end the session.
    Exit,
}

/// The front end's answer to the previous [`Action`].
#[derive(Clone, PartialEq, Eq, Debug)]
pub enum Event {
    /// What the stated path names.
    Kind { kind: PathKind },
    /// The entries of the listed directory, in whatever order the
    /// filesystem returned them.
    Entries { entries: Vec<DirEntry> },
    /// The directory could not be read; the operating system's error text.
    DirError { message: String },
    /// The requested operation succeeded.
    OpOk,
    /// The requested operation failed; the operating system's error text.
    OpErr { message: String },
    /// The canonical form of the path.
    CanonicalOk { path: String },
    /// Canonicalization failed; the operating system's error text.
    CanonicalErr { message: String },
    /// The (new) process working directory.
    CwdOk { path: String },
    /// The working directory query or change failed.
    CwdErr { message: String },
    /// A captured run finished: the lines it wrote to standard output and
    /// to standard error.
    RunOut { stdout_lines: Vec<String>, stderr_lines: Vec<String> },
    /// An interactive run finished with this status. `code` is absent when
    /// the process was ended by a signal.
    RunExit { success: bool, code: Option<i32> },
    /// The command could not be launched; the operating system's error text.
    RunErr { message: String },
}

/// What `rm` does with one target once its kind is known.
#[derive(Clone, Copy, PartialEq, Eq, Debug)]
pub enum RmDecision {
    /// Complain that the target does not exist.
    ReportMissing,
    /// Remove the directory recursively.
    RemoveTree,
    /// Complain that the target is a directory and no `-r` was given.
    ReportIsDirectory,
    /// Remove the file.
    RemoveFile,
    /// Do nothing, quietly.
    Skip,
}

/// The `rm` rule: a missing target is an error unless `-f` was given; a
/// directory is removed only under `-r`, otherwise refused; a file is
/// removed.
pub open spec fn rm_decision(force: bool, recursive: bool, kind: PathKind) -> RmDecision {
    match kind {
        PathKind::Missing => if force {
            RmDecision::Skip
        } else {
            RmDecision::ReportMissing
        },
        PathKind::Dir => if recursive {
            RmDecision::RemoveTree
        } else {
            RmDecision::ReportIsDirectory
        },
        PathKind::File => RmDecision::RemoveFile,
    }
}

/// Executable mirror of [`rm_decision`].
pub fn rm_decide(force: bool, recursive: bool, kind: PathKind) -> (r: RmDecision)
    ensures
        r == rm_decision(force, recursive, kind),
{
    match kind {
        PathKind::Missing => if force {
            RmDecision::Skip
        } else {
            RmDecision::ReportMissing
        },
        PathKind::Dir => if recursive {
            RmDecision::RemoveTree
        } else {
            RmDecision::ReportIsDirectory
        },
        PathKind::File => RmDecision::RemoveFile,
    }
}

/// What `cd` does once the kind of the resolved path is known.
#[derive(Clone, Copy, PartialEq, Eq, Debug)]
pub enum CdDecision {
    /// The path is a directory: the change may proceed.
    Proceed,
    /// The path exists but is not a directory.
    ReportNotADirectory,
    /// The path does not exist.
    ReportNotFound,
}

/// The `cd` rule: only a directory can become the current directory; an
/// existing non-directory fails differently from a missing path.
pub open spec fn cd_decision(kind: PathKind) -> CdDecision {
    match kind {
        PathKind::Dir => CdDecision::Proceed,
        PathKind::File => CdDecision::ReportNotADirectory,
        PathKind::Missing => CdDecision::ReportNotFound,
    }
}

/// Executable mirror of [`cd_decision`].
pub fn cd_decide(kind: PathKind) -> (r: CdDecision)
    ensures
        r == cd_decision(kind),
{
    match kind {
        PathKind::Dir => CdDecision::Proceed,
        PathKind::File => CdDecision::ReportNotADirectory,
        PathKind::Missing => CdDecision::ReportNotFound,
    }
}

/// What `rmdir` does with one target once its kind is known.
#[derive(Clone, Copy, PartialEq, Eq, Debug)]
pub enum RmdirDecision {
    /// Complain that the target does not exist.
    ReportMissing,
    /// Complain that the target is not a directory.
    ReportNotADirectory,
    /// Try to remove the (empty) directory.
    RemoveDir,
}

/// The `rmdir` rule: only an existing directory is attempted; emptiness is
/// the filesystem's to judge.
pub open spec fn rmdir_decision(kind: PathKind) -> RmdirDecision {
    match kind {
        PathKind::Missing => RmdirDecision::ReportMissing,
        PathKind::File => RmdirDecision::ReportNotADirectory,
        PathKind::Dir => RmdirDecision::RemoveDir,
    }
}

/// Executable mirror of [`rmdir_decision`].
pub fn rmdir_decide(kind: PathKind) -> (r: RmdirDecision)
    ensures
        r == rmdir_decision(kind),
{
    match kind {
        PathKind::Missing => RmdirDecision::ReportMissing,
        PathKind::File => RmdirDecision::ReportNotADirectory,
        PathKind::Dir => RmdirDecision::RemoveDir,
    }
}

/// The `mkdir` rule: a path that already exists, whatever it is, is refused.
pub open spec fn mkdir_rejected(kind: PathKind) -> bool {
    kind != PathKind::Missing
}

/// Executable mirror of [`mkdir_rejected`].
pub fn mkdir_rejects(kind: PathKind) -> (r: bool)
    ensures
        r == mkdir_rejected(kind),
{
    match kind {
        PathKind::Missing => false,
        _ => true,
    }
}

} // verus!
