use vstd::prelude::*;

verus! {

/// Per-entry version-control state, used both for single files and for
/// directories whose status aggregates the statuses of their contents.
#[derive(Debug, Clone, Copy, PartialEq, Eq, Structural)]
pub enum VcsStatus {
    /// Tracked, no pending changes.
    Clean,
    /// A directory with changed tracked contents somewhere below it.
    DirChanged,
    /// A directory with untracked contents somewhere below it.
    DirUntracked,
    /// An untracked directory with no contents at all.
    DirEmptyUntracked,
    /// Matched by an ignore rule.
    Ignored,
    /// Present in the worktree, unknown to the repository.
    Untracked,
    /// Changed in the index only.
    Staged,
    /// Changed in the worktree only.
    WorkTreeChanged,
    /// Changed in both the index and the worktree.
    BothChanged,
    /// Outside any repository.
    Absent,
}

/// Severity rank of a status: when several signals compete for one entry,
/// the highest rank wins.
pub open spec fn spec_status_priority(status: VcsStatus) -> u8 {
    match status {
        VcsStatus::Untracked | VcsStatus::DirUntracked | VcsStatus::DirEmptyUntracked => 4u8,
        VcsStatus::BothChanged | VcsStatus::WorkTreeChanged | VcsStatus::DirChanged => 3u8,
        VcsStatus::Staged => 2u8,
        VcsStatus::Clean => 1u8,
        VcsStatus::Ignored | VcsStatus::Absent => 0u8,
    }
}

#[verifier::when_used_as_spec(spec_status_priority_ref)]
pub fn status_priority(status: &VcsStatus) -> (r: u8)
    ensures
        r == spec_status_priority(*status),
{
    match status {
        VcsStatus::Untracked | VcsStatus::DirUntracked | VcsStatus::DirEmptyUntracked => 4,
        VcsStatus::BothChanged | VcsStatus::WorkTreeChanged | VcsStatus::DirChanged => 3,
        VcsStatus::Staged => 2,
        VcsStatus::Clean => 1,
        VcsStatus::Ignored | VcsStatus::Absent => 0,
    }
}

pub open spec fn spec_status_priority_ref(status: &VcsStatus) -> u8 {
    spec_status_priority(*status)
}

/// Raw per-path flags as reported by the status source for one path.
#[derive(Debug, Clone, Copy, PartialEq, Eq, Structural)]
pub struct RawPathStatus {
    pub ignored: bool,
    pub wt_new: bool,
    pub wt_modified: bool,
    pub wt_deleted: bool,
    pub wt_renamed: bool,
    pub wt_typechange: bool,
    pub index_new: bool,
    pub index_modified: bool,
    pub index_deleted: bool,
    pub index_renamed: bool,
    pub index_typechange: bool,
}

impl RawPathStatus {
    /// Flags with nothing set: a path with no pending changes.
    pub fn clean() -> (r: RawPathStatus)
        ensures
            r == RawPathStatus::spec_clean(),
    {
        RawPathStatus {
            ignored: false,
            wt_new: false,
            wt_modified: false,
            wt_deleted: false,
            wt_renamed: false,
            wt_typechange: false,
            index_new: false,
            index_modified: false,
            index_deleted: false,
            index_renamed: false,
            index_typechange: false,
        }
    }

    pub open spec fn spec_clean() -> RawPathStatus {
        RawPathStatus {
            ignored: false,
            wt_new: false,
            wt_modified: false,
            wt_deleted: false,
            wt_renamed: false,
            wt_typechange: false,
            index_new: false,
            index_modified: false,
            index_deleted: false,
            index_renamed: false,
            index_typechange: false,
        }
    }
}

/// Some change is pending in the index.
pub open spec fn spec_index_changed(f: RawPathStatus) -> bool {
    f.index_new || f.index_modified || f.index_deleted || f.index_renamed || f.index_typechange
}

/// Some change is pending in the worktree (other than a brand-new path).
pub open spec fn spec_wt_changed(f: RawPathStatus) -> bool {
    f.wt_modified || f.wt_deleted || f.wt_renamed || f.wt_typechange
}

/// File-level classification of one path's raw flags, by precedence:
/// `ignored` wins over everything, then a new worktree path wins over any
/// index flag, then the index/worktree change combination decides.
pub open spec fn spec_classify(f: RawPathStatus) -> VcsStatus {
    if f.ignored {
        VcsStatus::Ignored
    } else if f.wt_new {
        VcsStatus::Untracked
    } else if spec_index_changed(f) && spec_wt_changed(f) {
        VcsStatus::BothChanged
    } else if spec_index_changed(f) {
        VcsStatus::Staged
    } else if spec_wt_changed(f) {
        VcsStatus::WorkTreeChanged
    } else {
        VcsStatus::Clean
    }
}

/// The statuses that describe one file (as opposed to an aggregated
/// directory or an entry outside any repository).
pub open spec fn spec_is_file_kind(s: VcsStatus) -> bool {
    s == VcsStatus::Ignored || s == VcsStatus::Untracked || s == VcsStatus::BothChanged
        || s == VcsStatus::Staged || s == VcsStatus::WorkTreeChanged || s == VcsStatus::Clean
}

#[verifier::when_used_as_spec(spec_classify_ref)]
pub fn classify(f: &RawPathStatus) -> (r: VcsStatus)
    ensures
        r == spec_classify(*f),
{
    if f.ignored {
        return VcsStatus::Ignored;
    }
    if f.wt_new {
        return VcsStatus::Untracked;
    }
    let index_changed = f.index_new || f.index_modified || f.index_deleted || f.index_renamed
        || f.index_typechange;
    let wt_changed = f.wt_modified || f.wt_deleted || f.wt_renamed || f.wt_typechange;
    if index_changed && wt_changed {
        VcsStatus::BothChanged
    } else if index_changed {
        VcsStatus::Staged
    } else if wt_changed {
        VcsStatus::WorkTreeChanged
    } else {
        VcsStatus::Clean
    }
}

pub open spec fn spec_classify_ref(f: &RawPathStatus) -> VcsStatus {
    spec_classify(*f)
}

/// Classification is a total function into the file-level kinds; the
/// `ignored` flag always wins, and a new worktree path wins over any
/// combination of index flags.
pub proof fn lemma_classify_precedence(f: RawPathStatus)
    ensures
        spec_is_file_kind(spec_classify(f)),
        f.ignored ==> spec_classify(f) == VcsStatus::Ignored,
        !f.ignored && f.wt_new ==> spec_classify(f) == VcsStatus::Untracked,
{
}

/// git2's per-path status bitfield, declared so that values of it can
/// pass through the library's signatures.
#[verifier::external_type_specification]
#[verifier::external_body]
pub struct ExGitStatus(git2::Status);

/// Relies on git2::Status's flag accessors (`is_ignored`, `is_wt_new`,
/// `is_index_new`, ...), each of which reports whether one bit of the
/// status bitfield is set.
#[verifier::external_body]
fn status_flags(status: &git2::Status) -> RawPathStatus {
    RawPathStatus {
        ignored: status.is_ignored(),
        wt_new: status.is_wt_new(),
        wt_modified: status.is_wt_modified(),
        wt_deleted: status.is_wt_deleted(),
        wt_renamed: status.is_wt_renamed(),
        wt_typechange: status.is_wt_typechange(),
        index_new: status.is_index_new(),
        index_modified: status.is_index_modified(),
        index_deleted: status.is_index_deleted(),
        index_renamed: status.is_index_renamed(),
        index_typechange: status.is_index_typechange(),
    }
}

/// File-level status of one path as the repository reports it.
pub fn git2_status_to_vcs(status: git2::Status) -> (r: VcsStatus)
    ensures
        spec_is_file_kind(r),
{
    let flags = status_flags(&status);
    classify(&flags)
}

/// The severity ranking is a total order on the closed status set:
/// the untracked family outranks the changed family, which outranks
/// `Staged`, which outranks `Clean`, which outranks `Ignored` and `Absent`.
pub proof fn lemma_priority_total_order()
    ensures
        forall|a: VcsStatus, b: VcsStatus|
            spec_status_priority(a) < spec_status_priority(b)
            || spec_status_priority(b) < spec_status_priority(a)
            || spec_status_priority(a) == spec_status_priority(b),
        spec_status_priority(VcsStatus::Untracked) == 4,
        spec_status_priority(VcsStatus::DirUntracked) == 4,
        spec_status_priority(VcsStatus::DirEmptyUntracked) == 4,
        spec_status_priority(VcsStatus::BothChanged) == 3,
        spec_status_priority(VcsStatus::WorkTreeChanged) == 3,
        spec_status_priority(VcsStatus::DirChanged) == 3,
        spec_status_priority(VcsStatus::Staged) == 2,
        spec_status_priority(VcsStatus::Clean) == 1,
        spec_status_priority(VcsStatus::Ignored) == 0,
        spec_status_priority(VcsStatus::Absent) == 0,
{
}

} // verus!
