//! An abstract filesystem, used to state what the command decisions do and
//! do not touch: a map from paths to what they name.

use vstd::prelude::*;
use crate::proto::{PathKind, RmDecision, mkdir_rejected, rm_decision};

verus! {

/// What a path names in the abstract filesystem.
pub enum FsEntry {
    FileEntry,
    DirEntry,
}

/// What a stat of `p` reports against the abstract filesystem `fs`.
pub open spec fn fs_kind(fs: Map<Seq<char>, FsEntry>, p: Seq<char>) -> PathKind {
    if !fs.dom().contains(p) {
        PathKind::Missing
    } else if fs[p] is DirEntry {
        PathKind::Dir
    } else {
        PathKind::File
    }
}

/// `q` lies strictly under the directory `p`.
pub open spec fn is_under(q: Seq<char>, p: Seq<char>) -> bool {
    q.len() > p.len() + 1 && q.take(p.len() as int + 1) == p.push('/')
}

/// `fs` with `p` and everything under it gone.
pub open spec fn remove_tree(fs: Map<Seq<char>, FsEntry>, p: Seq<char>) -> Map<Seq<char>, FsEntry> {
    Map::new(|q: Seq<char>| fs.dom().contains(q) && q != p && !is_under(q, p), |q: Seq<char>| fs[q])
}

/// Whether an `rm` decision reports an error line.
pub open spec fn rm_reports(d: RmDecision) -> bool {
    d is ReportMissing || d is ReportIsDirectory
}

/// What an `rm` decision on target `p` does to the abstract filesystem.
/// Reports and quiet skips touch nothing.
pub open spec fn apply_rm(fs: Map<Seq<char>, FsEntry>, p: Seq<char>, d: RmDecision) -> Map<
    Seq<char>,
    FsEntry,
> {
    match d {
        RmDecision::RemoveFile => fs.remove(p),
        RmDecision::RemoveTree => remove_tree(fs, p),
        RmDecision::ReportMissing => fs,
        RmDecision::ReportIsDirectory => fs,
        RmDecision::Skip => fs,
    }
}

/// What a `mkdir` of `p` does: a rejected target leaves the filesystem as
/// it was, otherwise the directory appears.
pub open spec fn apply_mkdir(fs: Map<Seq<char>, FsEntry>, p: Seq<char>, rejected: bool) -> Map<
    Seq<char>,
    FsEntry,
> {
    if rejected {
        fs
    } else {
        fs.insert(p, FsEntry::DirEntry)
    }
}

/// `rm -f` on a path that does not exist: no error is reported and the
/// filesystem is left exactly as it was, whatever else was on the command
/// line.
pub proof fn lemma_rm_force_missing(fs: Map<Seq<char>, FsEntry>, p: Seq<char>, recursive: bool)
    requires
        !fs.dom().contains(p),
    ensures
        rm_decision(true, recursive, fs_kind(fs, p)) == RmDecision::Skip,
        !rm_reports(RmDecision::Skip),
        apply_rm(fs, p, rm_decision(true, recursive, fs_kind(fs, p))) == fs,
{
}

/// `rm` without `-f` on a path that does not exist: the miss is always
/// reported (the message quotes `No such file or directory`) and the
/// filesystem is left exactly as it was.
pub proof fn lemma_rm_missing_reported(fs: Map<Seq<char>, FsEntry>, p: Seq<char>, recursive: bool)
    requires
        !fs.dom().contains(p),
    ensures
        rm_decision(false, recursive, fs_kind(fs, p)) == RmDecision::ReportMissing,
        rm_reports(RmDecision::ReportMissing),
        apply_rm(fs, p, rm_decision(false, recursive, fs_kind(fs, p))) == fs,
{
}

/// `mkdir x` twice: the first call creates the directory, the second is
/// rejected (the message quotes `File exists`) and the directory of the
/// first call still stands unchanged.
pub proof fn lemma_mkdir_twice(fs: Map<Seq<char>, FsEntry>, p: Seq<char>)
    requires
        !fs.dom().contains(p),
    ensures
        !mkdir_rejected(fs_kind(fs, p)),
        ({
            let fs1 = apply_mkdir(fs, p, false);
            &&& fs_kind(fs1, p) == PathKind::Dir
            &&& mkdir_rejected(fs_kind(fs1, p))
            &&& apply_mkdir(fs1, p, true) == fs1
            &&& apply_mkdir(fs1, p, true)[p] is DirEntry
        }),
{
}

} // verus!
