//! What the program knows about a repository.

use vstd::prelude::*;

use crate::path::{path_opt, same_path, FsPath};
use crate::text::number::{decimal, push_decimal};
use crate::text::strings::{copied, text_opt, texts};

verus! {

/// A copy of an optional string.
pub fn clone_opt(s: &Option<String>) -> (r: Option<String>)
    ensures
        text_opt(r) == text_opt(*s),
{
    match s {
        Some(s) => Some(s.clone()),
        None => None,
    }
}

/// A copy of an optional path.
pub fn clone_path_opt(p: &Option<FsPath>) -> (r: Option<FsPath>)
    ensures
        path_opt(r) == path_opt(*p),
{
    match p {
        Some(p) => Some(p.clone()),
        None => None,
    }
}

/// A repository found under the workdir, with paths resolved once at discovery.
#[derive(Debug, PartialEq, Eq)]
pub struct RepoLocation {
    /// Working tree root (or the git dir itself for bare repos).
    pub root: FsPath,
    /// Display name: path relative to the workdir, `/`-separated.
    pub name: String,
    /// Per-worktree git dir (HEAD, index, FETCH_HEAD, rebase state live here).
    pub git_dir: FsPath,
    /// Shared git dir (refs, objects, config). Equal to `git_dir` unless a linked worktree.
    pub common_dir: FsPath,
    pub bare: bool,
}

#[verifier::ext_equal]
pub ghost struct LocationView {
    pub root: Seq<u8>,
    pub name: Seq<char>,
    pub git_dir: Seq<u8>,
    pub common_dir: Seq<u8>,
    pub bare: bool,
}

impl View for RepoLocation {
    type V = LocationView;

    open spec fn view(&self) -> LocationView {
        LocationView {
            root: self.root@,
            name: self.name@,
            git_dir: self.git_dir@,
            common_dir: self.common_dir@,
            bare: self.bare,
        }
    }
}

/// The views of some repositories.
pub open spec fn location_views(repos: Seq<RepoLocation>) -> Seq<LocationView> {
    repos.map_values(|r: RepoLocation| r@)
}

impl Clone for RepoLocation {
    fn clone(&self) -> (r: Self)
        ensures
            r@ == self@,
    {
        RepoLocation {
            root: self.root.clone(),
            name: self.name.clone(),
            git_dir: self.git_dir.clone(),
            common_dir: self.common_dir.clone(),
            bare: self.bare,
        }
    }
}

impl RepoLocation {
    /// Whether this is a linked worktree of another repository.
    pub fn is_linked_worktree(&self) -> (r: bool)
        ensures
            r == !same_path(self@.git_dir, self@.common_dir),
    {
        !self.git_dir.same(&self.common_dir)
    }
}

/// What is checked out.
#[derive(Debug, PartialEq, Eq)]
pub enum Head {
    Branch(String),
    /// Detached at the given (full) commit id.
    Detached(String),
    /// A branch with no commits yet.
    Unborn(String),
}

#[verifier::ext_equal]
pub ghost enum HeadView {
    Branch(Seq<char>),
    Detached(Seq<char>),
    Unborn(Seq<char>),
}

impl View for Head {
    type V = HeadView;

    open spec fn view(&self) -> HeadView {
        match self {
            Head::Branch(name) => HeadView::Branch(name@),
            Head::Detached(oid) => HeadView::Detached(oid@),
            Head::Unborn(name) => HeadView::Unborn(name@),
        }
    }
}

impl HeadView {
    /// The branch that is checked out, with or without commits.
    pub open spec fn branch(self) -> Option<Seq<char>> {
        match self {
            HeadView::Branch(name) => Some(name),
            HeadView::Unborn(name) => Some(name),
            HeadView::Detached(_) => None,
        }
    }
}

impl Clone for Head {
    fn clone(&self) -> (r: Self)
        ensures
            r@ == self@,
    {
        match self {
            Head::Branch(name) => Head::Branch(name.clone()),
            Head::Detached(oid) => Head::Detached(oid.clone()),
            Head::Unborn(name) => Head::Unborn(name.clone()),
        }
    }
}

impl Head {
    /// The branch that is checked out.
    pub fn branch_name(&self) -> (r: Option<&str>)
        ensures
            match r {
                Some(name) => self@.branch() == Some(name@),
                None => self@.branch() is None,
            },
    {
        match self {
            Head::Branch(name) => Some(name.as_str()),
            Head::Unborn(name) => Some(name.as_str()),
            Head::Detached(_) => None,
        }
    }
}

/// A branch's upstream.
#[derive(Debug, PartialEq, Eq)]
pub enum Upstream {
    Unset,
    Tracking { name: String, ahead: u32, behind: u32 },
    /// Configured upstream whose remote branch no longer exists.
    Gone { name: String },
}

#[verifier::ext_equal]
pub ghost enum UpstreamView {
    Unset,
    Tracking { name: Seq<char>, ahead: u32, behind: u32 },
    Gone { name: Seq<char> },
}

impl View for Upstream {
    type V = UpstreamView;

    open spec fn view(&self) -> UpstreamView {
        match self {
            Upstream::Unset => UpstreamView::Unset,
            Upstream::Tracking { name, ahead, behind } => UpstreamView::Tracking {
                name: name@,
                ahead: *ahead,
                behind: *behind,
            },
            Upstream::Gone { name } => UpstreamView::Gone { name: name@ },
        }
    }
}

impl Clone for Upstream {
    fn clone(&self) -> (r: Self)
        ensures
            r@ == self@,
    {
        match self {
            Upstream::Unset => Upstream::Unset,
            Upstream::Tracking { name, ahead, behind } => Upstream::Tracking {
                name: name.clone(),
                ahead: *ahead,
                behind: *behind,
            },
            Upstream::Gone { name } => Upstream::Gone { name: name.clone() },
        }
    }
}

/// Divergence of HEAD from the repo's default branch (e.g. `origin/main`).
#[derive(Debug, PartialEq, Eq)]
pub struct BaseDivergence {
    /// Short ref name, e.g. `origin/main`.
    pub base: String,
    pub ahead: u32,
    pub behind: u32,
}

#[verifier::ext_equal]
pub ghost struct BaseView {
    pub base: Seq<char>,
    pub ahead: u32,
    pub behind: u32,
}

impl View for BaseDivergence {
    type V = BaseView;

    open spec fn view(&self) -> BaseView {
        BaseView { base: self.base@, ahead: self.ahead, behind: self.behind }
    }
}

impl Clone for BaseDivergence {
    fn clone(&self) -> (r: Self)
        ensures
            r@ == self@,
    {
        BaseDivergence { base: self.base.clone(), ahead: self.ahead, behind: self.behind }
    }
}

/// How many files have changes of each kind.
#[derive(Clone, Copy, Debug, PartialEq, Eq, Structural)]
pub struct ChangeCounts {
    /// Distinct changed files.
    pub files: u32,
    pub staged: u32,
    pub unstaged: u32,
    pub untracked: u32,
    pub conflicted: u32,
}

impl Default for ChangeCounts {
    fn default() -> (r: Self)
        ensures
            r == no_changes(),
    {
        ChangeCounts { files: 0, staged: 0, unstaged: 0, untracked: 0, conflicted: 0 }
    }
}

/// The counts of a clean working tree.
pub open spec fn no_changes() -> ChangeCounts {
    ChangeCounts { files: 0, staged: 0, unstaged: 0, untracked: 0, conflicted: 0 }
}

impl ChangeCounts {
    pub fn is_clean(&self) -> (r: bool)
        ensures
            r == (*self == no_changes()),
    {
        self.files == 0 && self.staged == 0 && self.unstaged == 0 && self.untracked == 0
            && self.conflicted == 0
    }

    /// Staged, unstaged or conflicted changes to tracked files. Untracked files don't
    /// count: they stay put across checkouts, and git refuses if one would be overwritten.
    pub fn has_tracked_changes(&self) -> (r: bool)
        ensures
            r == (self.staged + self.unstaged + self.conflicted > 0),
    {
        self.staged > 0 || self.unstaged > 0 || self.conflicted > 0
    }
}

/// What git is in the middle of.
#[derive(Debug, PartialEq, Eq)]
pub enum RepoOp {
    /// `branch` is the branch being rebased (HEAD is detached meanwhile).
    Rebasing { step: Option<(u32, u32)>, branch: Option<String> },
    Merging,
    CherryPicking,
    Reverting,
    Bisecting,
    ApplyingMailbox,
}

#[verifier::ext_equal]
pub ghost enum OpView {
    Rebasing { step: Option<(u32, u32)>, branch: Option<Seq<char>> },
    Merging,
    CherryPicking,
    Reverting,
    Bisecting,
    ApplyingMailbox,
}

impl View for RepoOp {
    type V = OpView;

    open spec fn view(&self) -> OpView {
        match self {
            RepoOp::Rebasing { step, branch } => OpView::Rebasing {
                step: *step,
                branch: text_opt(*branch),
            },
            RepoOp::Merging => OpView::Merging,
            RepoOp::CherryPicking => OpView::CherryPicking,
            RepoOp::Reverting => OpView::Reverting,
            RepoOp::Bisecting => OpView::Bisecting,
            RepoOp::ApplyingMailbox => OpView::ApplyingMailbox,
        }
    }
}

/// The view of an optional operation.
pub open spec fn op_opt(op: Option<RepoOp>) -> Option<OpView> {
    match op {
        Some(op) => Some(op@),
        None => None,
    }
}

impl OpView {
    /// How the operation is shown.
    pub open spec fn label(self) -> Seq<char> {
        match self {
            OpView::Rebasing { step, branch } => match step {
                Some((n, total)) => "rebasing "@ + decimal(n as nat) + "/"@ + decimal(total as nat),
                None => "rebasing"@,
            },
            OpView::Merging => "merging"@,
            OpView::CherryPicking => "cherry-picking"@,
            OpView::Reverting => "reverting"@,
            OpView::Bisecting => "bisecting"@,
            OpView::ApplyingMailbox => "applying"@,
        }
    }
}

impl Clone for RepoOp {
    fn clone(&self) -> (r: Self)
        ensures
            r@ == self@,
    {
        match self {
            RepoOp::Rebasing { step, branch } => RepoOp::Rebasing {
                step: *step,
                branch: clone_opt(branch),
            },
            RepoOp::Merging => RepoOp::Merging,
            RepoOp::CherryPicking => RepoOp::CherryPicking,
            RepoOp::Reverting => RepoOp::Reverting,
            RepoOp::Bisecting => RepoOp::Bisecting,
            RepoOp::ApplyingMailbox => RepoOp::ApplyingMailbox,
        }
    }
}

impl RepoOp {
    pub fn label(&self) -> (r: String)
        ensures
            r@ == self@.label(),
    {
        match self {
            RepoOp::Rebasing { step, branch: _ } => match step {
                Some((n, total)) => {
                    let mut out = "rebasing ".to_owned();
                    push_decimal(&mut out, *n as u64);
                    out.push_str("/");
                    push_decimal(&mut out, *total as u64);
                    out
                },
                None => "rebasing".to_owned(),
            },
            RepoOp::Merging => "merging".to_owned(),
            RepoOp::CherryPicking => "cherry-picking".to_owned(),
            RepoOp::Reverting => "reverting".to_owned(),
            RepoOp::Bisecting => "bisecting".to_owned(),
            RepoOp::ApplyingMailbox => "applying".to_owned(),
        }
    }
}

/// The branch a repo's work is measured against, e.g. `origin/main`.
#[derive(Debug, PartialEq, Eq)]
pub struct DefaultBranch {
    /// Full ref, e.g. `refs/remotes/origin/main` or `refs/heads/main`.
    pub full_ref: String,
    /// Display name, e.g. `origin/main`.
    pub short: String,
}

#[verifier::ext_equal]
pub ghost struct DefaultView {
    pub full_ref: Seq<char>,
    pub short: Seq<char>,
}

impl View for DefaultBranch {
    type V = DefaultView;

    open spec fn view(&self) -> DefaultView {
        DefaultView { full_ref: self.full_ref@, short: self.short@ }
    }
}

/// The view of an optional default branch.
pub open spec fn default_opt(d: Option<DefaultBranch>) -> Option<DefaultView> {
    match d {
        Some(d) => Some(d@),
        None => None,
    }
}

impl Clone for DefaultBranch {
    fn clone(&self) -> (r: Self)
        ensures
            r@ == self@,
    {
        DefaultBranch { full_ref: self.full_ref.clone(), short: self.short.clone() }
    }
}

/// Everything the Repos panel and overview need about one repo. Times are seconds since
/// 1970.
#[derive(Debug, PartialEq, Eq)]
pub struct RepoSummary {
    pub head: Head,
    pub upstream: Upstream,
    pub base: Option<BaseDivergence>,
    pub changes: ChangeCounts,
    pub stash_count: u32,
    pub op: Option<RepoOp>,
    pub last_fetch: Option<u64>,
    pub remotes: Vec<String>,
    pub default_branch: Option<DefaultBranch>,
    pub shallow: bool,
}

#[verifier::ext_equal]
pub ghost struct SummaryView {
    pub head: HeadView,
    pub upstream: UpstreamView,
    pub base: Option<BaseView>,
    pub changes: ChangeCounts,
    pub stash_count: u32,
    pub op: Option<OpView>,
    pub last_fetch: Option<u64>,
    pub remotes: Seq<Seq<char>>,
    pub default_branch: Option<DefaultView>,
    pub shallow: bool,
}

/// The view of an optional divergence.
pub open spec fn base_opt(b: Option<BaseDivergence>) -> Option<BaseView> {
    match b {
        Some(b) => Some(b@),
        None => None,
    }
}

impl View for RepoSummary {
    type V = SummaryView;

    open spec fn view(&self) -> SummaryView {
        SummaryView {
            head: self.head@,
            upstream: self.upstream@,
            base: base_opt(self.base),
            changes: self.changes,
            stash_count: self.stash_count,
            op: op_opt(self.op),
            last_fetch: self.last_fetch,
            remotes: texts(self.remotes@),
            default_branch: default_opt(self.default_branch),
            shallow: self.shallow,
        }
    }
}

impl SummaryView {
    /// Whether nothing needs the user's attention.
    pub open spec fn settled(self) -> bool {
        &&& self.changes == no_changes()
        &&& self.op is None
        &&& self.upstream matches UpstreamView::Tracking { ahead, behind, .. } && ahead == 0 && behind
            == 0
    }
}

impl Clone for RepoSummary {
    fn clone(&self) -> (r: Self)
        ensures
            r@ == self@,
    {
        RepoSummary {
            head: self.head.clone(),
            upstream: self.upstream.clone(),
            base: match &self.base {
                Some(b) => Some(b.clone()),
                None => None,
            },
            changes: self.changes,
            stash_count: self.stash_count,
            op: match &self.op {
                Some(op) => Some(op.clone()),
                None => None,
            },
            last_fetch: self.last_fetch,
            remotes: copied(&self.remotes),
            default_branch: match &self.default_branch {
                Some(d) => Some(d.clone()),
                None => None,
            },
            shallow: self.shallow,
        }
    }
}

impl RepoSummary {
    pub fn has_remote(&self) -> (r: bool)
        ensures
            r == (self@.remotes.len() > 0),
    {
        self.remotes.len() > 0
    }

    /// True when nothing needs the user's attention.
    pub fn is_settled(&self) -> (r: bool)
        ensures
            r == self@.settled(),
    {
        self.changes.is_clean() && self.op.is_none() && match &self.upstream {
            Upstream::Tracking { name: _, ahead, behind } => *ahead == 0 && *behind == 0,
            _ => false,
        }
    }
}

/// What kind of change a file has.
#[derive(Clone, Copy, Debug, PartialEq, Eq, Structural)]
pub enum FileKind {
    Ordinary,
    Renamed,
    Unmerged,
    Untracked,
}

/// One entry of `git status --porcelain=v2`.
#[derive(Debug, PartialEq, Eq)]
pub struct FileEntry {
    pub path: String,
    /// Source path for renames/copies.
    pub orig_path: Option<String>,
    /// Index status (`X`), `.` when unchanged, `?` for untracked.
    pub index: char,
    /// Worktree status (`Y`), `.` when unchanged, `?` for untracked.
    pub worktree: char,
    pub kind: FileKind,
}

#[verifier::ext_equal]
pub ghost struct FileView {
    pub path: Seq<char>,
    pub orig_path: Option<Seq<char>>,
    pub index: char,
    pub worktree: char,
    pub kind: FileKind,
}

impl View for FileEntry {
    type V = FileView;

    open spec fn view(&self) -> FileView {
        FileView {
            path: self.path@,
            orig_path: text_opt(self.orig_path),
            index: self.index,
            worktree: self.worktree,
            kind: self.kind,
        }
    }
}

/// The views of some files.
pub open spec fn file_views(files: Seq<FileEntry>) -> Seq<FileView> {
    files.map_values(|f: FileEntry| f@)
}

impl Clone for FileEntry {
    fn clone(&self) -> (r: Self)
        ensures
            r@ == self@,
    {
        FileEntry {
            path: self.path.clone(),
            orig_path: clone_opt(&self.orig_path),
            index: self.index,
            worktree: self.worktree,
            kind: self.kind,
        }
    }
}

/// A copy of a list of files.
pub fn copied_files(files: &Vec<FileEntry>) -> (r: Vec<FileEntry>)
    ensures
        file_views(r@) == file_views(files@),
{
    let ghost all = file_views(files@);
    let mut out: Vec<FileEntry> = Vec::new();
    let mut i: usize = 0;
    assert(file_views(out@) =~= all.take(0));
    while i < files.len()
        invariant
            i <= files@.len(),
            all == file_views(files@),
            file_views(out@) == all.take(i as int),
        decreases files@.len() - i,
    {
        let ghost before = file_views(out@);
        let file = files[i].clone();
        out.push(file);
        assert(file_views(out@) =~= before.push(file@));
        assert(all.take(i + 1) =~= all.take(i as int).push(all[i as int]));
        i = i + 1;
    }
    assert(all.take(all.len() as int) =~= all);
    out
}

impl FileView {
    /// Whether git knows the file and has no conflict in it.
    pub open spec fn merged(self) -> bool {
        self.kind == FileKind::Ordinary || self.kind == FileKind::Renamed
    }

    pub open spec fn staged(self) -> bool {
        self.merged() && self.index != '.'
    }

    pub open spec fn unstaged(self) -> bool {
        !self.merged() || self.worktree != '.'
    }

    /// Whether the file counts as unstaged: an unstaged change to a tracked file.
    pub open spec fn counts_unstaged(self) -> bool {
        self.merged() && self.worktree != '.'
    }

    /// The two status letters, with a space for no change.
    pub open spec fn short(self) -> Seq<char> {
        seq![
            if self.index == '.' {
                ' '
            } else {
                self.index
            },
            if self.worktree == '.' {
                ' '
            } else {
                self.worktree
            },
        ]
    }
}

impl FileEntry {
    pub fn has_staged(&self) -> (r: bool)
        ensures
            r == self@.staged(),
    {
        match self.kind {
            FileKind::Ordinary => self.index != '.',
            FileKind::Renamed => self.index != '.',
            _ => false,
        }
    }

    pub fn has_unstaged(&self) -> (r: bool)
        ensures
            r == self@.unstaged(),
    {
        match self.kind {
            FileKind::Untracked => true,
            FileKind::Unmerged => true,
            FileKind::Ordinary => self.worktree != '.',
            FileKind::Renamed => self.worktree != '.',
        }
    }

    /// Two-letter short status, e.g. `M `, ` M`, `??`, `UU`.
    pub fn short_status(&self) -> (r: String)
        ensures
            r@ == self@.short(),
    {
        let mut out = String::new();
        out.push(
            if self.index == '.' {
                ' '
            } else {
                self.index
            },
        );
        out.push(
            if self.worktree == '.' {
                ' '
            } else {
                self.worktree
            },
        );
        assert(out@ =~= self@.short());
        out
    }
}

/// Parsed output of `git status --porcelain=v2 --branch --show-stash -z`.
#[derive(Debug, PartialEq, Eq)]
pub struct StatusReport {
    /// `None` when HEAD is unborn (`(initial)`).
    pub oid: Option<String>,
    /// `None` when detached.
    pub branch: Option<String>,
    pub upstream: Option<String>,
    /// `(ahead, behind)`; absent when there is no upstream or it is gone.
    pub ahead_behind: Option<(u32, u32)>,
    pub stash_count: u32,
    pub files: Vec<FileEntry>,
}

#[verifier::ext_equal]
pub ghost struct StatusView {
    pub oid: Option<Seq<char>>,
    pub branch: Option<Seq<char>>,
    pub upstream: Option<Seq<char>>,
    pub ahead_behind: Option<(u32, u32)>,
    pub stash_count: u32,
    pub files: Seq<FileView>,
}

impl View for StatusReport {
    type V = StatusView;

    open spec fn view(&self) -> StatusView {
        StatusView {
            oid: text_opt(self.oid),
            branch: text_opt(self.branch),
            upstream: text_opt(self.upstream),
            ahead_behind: self.ahead_behind,
            stash_count: self.stash_count,
            files: file_views(self.files@),
        }
    }
}

/// How many files a predicate holds of.
pub open spec fn count_files(files: Seq<FileView>, pred: spec_fn(FileView) -> bool) -> nat
    decreases files.len(),
{
    if files.len() == 0 {
        0
    } else {
        count_files(files.drop_last(), pred) + (if pred(files.last()) {
            1nat
        } else {
            0
        })
    }
}

impl StatusView {
    /// A report of nothing.
    pub open spec fn empty() -> StatusView {
        StatusView {
            oid: None,
            branch: None,
            upstream: None,
            ahead_behind: None,
            stash_count: 0,
            files: Seq::empty(),
        }
    }

    /// What is checked out.
    pub open spec fn head(self) -> HeadView {
        match (self.branch, self.oid) {
            (Some(branch), Some(_)) => HeadView::Branch(branch),
            (Some(branch), None) => HeadView::Unborn(branch),
            (None, Some(oid)) => HeadView::Detached(oid),
            (None, None) => HeadView::Detached(Seq::empty()),
        }
    }

    /// The upstream; gone when git counts no commits against it.
    pub open spec fn tracking(self) -> UpstreamView {
        match (self.upstream, self.ahead_behind) {
            (None, _) => UpstreamView::Unset,
            (Some(name), Some((ahead, behind))) => UpstreamView::Tracking { name, ahead, behind },
            (Some(name), None) => UpstreamView::Gone { name },
        }
    }

    /// How many files have changes of each kind.
    pub open spec fn counts(self) -> ChangeCounts {
        ChangeCounts {
            files: self.files.len() as u32,
            staged: count_files(self.files, |f: FileView| f.staged()) as u32,
            unstaged: count_files(self.files, |f: FileView| f.counts_unstaged()) as u32,
            untracked: count_files(self.files, |f: FileView| f.kind == FileKind::Untracked) as u32,
            conflicted: count_files(self.files, |f: FileView| f.kind == FileKind::Unmerged) as u32,
        }
    }
}

impl Default for StatusReport {
    fn default() -> (r: Self)
        ensures
            r@ == StatusView::empty(),
    {
        let r = StatusReport {
            oid: None,
            branch: None,
            upstream: None,
            ahead_behind: None,
            stash_count: 0,
            files: Vec::new(),
        };
        assert(file_views(r.files@) =~= Seq::<FileView>::empty());
        r
    }
}

/// No more files are counted than there are.
pub proof fn lemma_count_files(files: Seq<FileView>, pred: spec_fn(FileView) -> bool)
    ensures
        count_files(files, pred) <= files.len(),
    decreases files.len(),
{
    if files.len() > 0 {
        lemma_count_files(files.drop_last(), pred);
    }
}

/// The sum of every kind of change covers the files: each changed file counts as staged,
/// unstaged, untracked or conflicted, or has no change in either place.
pub proof fn law_counts_cover_the_files(s: StatusView)
    requires
        s.files.len() <= u32::MAX,
        forall|i: int|
            0 <= i < s.files.len() ==> (#[trigger] s.files[i]).staged() || s.files[i].unstaged(),
    ensures
        s.counts().staged + s.counts().unstaged + s.counts().untracked + s.counts().conflicted
            >= s.counts().files,
        (s.counts() == no_changes()) == (s.files.len() == 0),
{
    let files = s.files;
    lemma_counts_cover(files);
    lemma_count_files(files, |f: FileView| f.staged());
    lemma_count_files(files, |f: FileView| f.counts_unstaged());
    lemma_count_files(files, |f: FileView| f.kind == FileKind::Untracked);
    lemma_count_files(files, |f: FileView| f.kind == FileKind::Unmerged);
}

proof fn lemma_counts_cover(files: Seq<FileView>)
    requires
        forall|i: int| 0 <= i < files.len() ==> (#[trigger] files[i]).staged() || files[i].unstaged(),
    ensures
        count_files(files, |f: FileView| f.staged()) + count_files(
            files,
            |f: FileView| f.counts_unstaged(),
        ) + count_files(files, |f: FileView| f.kind == FileKind::Untracked) + count_files(
            files,
            |f: FileView| f.kind == FileKind::Unmerged,
        ) >= files.len(),
    decreases files.len(),
{
    if files.len() > 0 {
        let rest = files.drop_last();
        assert forall|i: int| 0 <= i < rest.len() implies (#[trigger] rest[i]).staged()
            || rest[i].unstaged() by {
            assert(rest[i] == files[i]);
        }
        lemma_counts_cover(rest);
        assert(files[files.len() - 1] == files.last());
    }
}

impl StatusReport {
    /// How many files have changes of each kind.
    pub fn change_counts(&self) -> (r: ChangeCounts)
        requires
            self.files@.len() <= u32::MAX,
        ensures
            r == self@.counts(),
    {
        let mut staged: u32 = 0;
        let mut unstaged: u32 = 0;
        let mut untracked: u32 = 0;
        let mut conflicted: u32 = 0;
        let ghost all = file_views(self.files@);
        assert(all.take(0) =~= Seq::<FileView>::empty());
        let mut i: usize = 0;
        while i < self.files.len()
            invariant
                i <= self.files@.len(),
                self.files@.len() <= u32::MAX,
                all == file_views(self.files@),
                staged == count_files(all.take(i as int), |f: FileView| f.staged()),
                unstaged == count_files(all.take(i as int), |f: FileView| f.counts_unstaged()),
                untracked == count_files(
                    all.take(i as int),
                    |f: FileView| f.kind == FileKind::Untracked,
                ),
                conflicted == count_files(
                    all.take(i as int),
                    |f: FileView| f.kind == FileKind::Unmerged,
                ),
                staged <= i,
                unstaged <= i,
                untracked <= i,
                conflicted <= i,
            decreases self.files@.len() - i,
        {
            let file = &self.files[i];
            proof {
                let next = all.take(i + 1);
                assert(next.drop_last() =~= all.take(i as int));
                assert(next.last() == file@);
            }
            match file.kind {
                FileKind::Untracked => {
                    untracked = untracked + 1;
                },
                FileKind::Unmerged => {
                    conflicted = conflicted + 1;
                },
                _ => {
                    if file.index != '.' {
                        staged = staged + 1;
                    }
                    if file.worktree != '.' {
                        unstaged = unstaged + 1;
                    }
                },
            }
            i = i + 1;
        }
        assert(all.take(all.len() as int) =~= all);
        ChangeCounts { files: self.files.len() as u32, staged, unstaged, untracked, conflicted }
    }

    /// What is checked out.
    pub fn head(&self) -> (r: Head)
        ensures
            r@ == self@.head(),
    {
        match (&self.branch, &self.oid) {
            (Some(branch), Some(_)) => Head::Branch(branch.clone()),
            (Some(branch), None) => Head::Unborn(branch.clone()),
            (None, Some(oid)) => Head::Detached(oid.clone()),
            (None, None) => Head::Detached(String::new()),
        }
    }

    /// The current branch's upstream.
    pub fn upstream(&self) -> (r: Upstream)
        ensures
            r@ == self@.tracking(),
    {
        match (&self.upstream, self.ahead_behind) {
            (None, _) => Upstream::Unset,
            (Some(name), Some((ahead, behind))) => Upstream::Tracking {
                name: name.clone(),
                ahead,
                behind,
            },
            (Some(name), None) => Upstream::Gone { name: name.clone() },
        }
    }
}

/// A local branch.
#[derive(Debug, PartialEq, Eq)]
pub struct Branch {
    pub name: String,
    pub is_head: bool,
    pub short_oid: String,
    pub upstream: Upstream,
    /// Divergence from the repo's default branch, when known.
    pub base: Option<(u32, u32)>,
    pub committed: Option<u64>,
    pub subject: String,
    /// Set when the branch is checked out in another worktree.
    pub worktree: Option<FsPath>,
}

#[verifier::ext_equal]
pub ghost struct BranchView {
    pub name: Seq<char>,
    pub is_head: bool,
    pub short_oid: Seq<char>,
    pub upstream: UpstreamView,
    pub base: Option<(u32, u32)>,
    pub committed: Option<u64>,
    pub subject: Seq<char>,
    pub worktree: Option<Seq<u8>>,
}

impl View for Branch {
    type V = BranchView;

    open spec fn view(&self) -> BranchView {
        BranchView {
            name: self.name@,
            is_head: self.is_head,
            short_oid: self.short_oid@,
            upstream: self.upstream@,
            base: self.base,
            committed: self.committed,
            subject: self.subject@,
            worktree: path_opt(self.worktree),
        }
    }
}

impl Clone for Branch {
    fn clone(&self) -> (r: Self)
        ensures
            r@ == self@,
    {
        Branch {
            name: self.name.clone(),
            is_head: self.is_head,
            short_oid: self.short_oid.clone(),
            upstream: self.upstream.clone(),
            base: self.base,
            committed: self.committed,
            subject: self.subject.clone(),
            worktree: clone_path_opt(&self.worktree),
        }
    }
}

/// A branch of a remote.
#[derive(Debug, PartialEq, Eq)]
pub struct RemoteBranch {
    pub remote: String,
    /// Name without the remote prefix.
    pub name: String,
    pub short_oid: String,
    pub subject: String,
}

#[verifier::ext_equal]
pub ghost struct RemoteBranchView {
    pub remote: Seq<char>,
    pub name: Seq<char>,
    pub short_oid: Seq<char>,
    pub subject: Seq<char>,
}

impl View for RemoteBranch {
    type V = RemoteBranchView;

    open spec fn view(&self) -> RemoteBranchView {
        RemoteBranchView {
            remote: self.remote@,
            name: self.name@,
            short_oid: self.short_oid@,
            subject: self.subject@,
        }
    }
}

impl Clone for RemoteBranch {
    fn clone(&self) -> (r: Self)
        ensures
            r@ == self@,
    {
        RemoteBranch {
            remote: self.remote.clone(),
            name: self.name.clone(),
            short_oid: self.short_oid.clone(),
            subject: self.subject.clone(),
        }
    }
}

/// A configured remote.
#[derive(Debug, PartialEq, Eq)]
pub struct Remote {
    pub name: String,
    pub url: String,
}

#[verifier::ext_equal]
pub ghost struct RemoteView {
    pub name: Seq<char>,
    pub url: Seq<char>,
}

impl View for Remote {
    type V = RemoteView;

    open spec fn view(&self) -> RemoteView {
        RemoteView { name: self.name@, url: self.url@ }
    }
}

/// A tag.
#[derive(Debug, PartialEq, Eq)]
pub struct Tag {
    pub name: String,
    pub short_oid: String,
    pub subject: String,
}

#[verifier::ext_equal]
pub ghost struct TagView {
    pub name: Seq<char>,
    pub short_oid: Seq<char>,
    pub subject: Seq<char>,
}

impl View for Tag {
    type V = TagView;

    open spec fn view(&self) -> TagView {
        TagView { name: self.name@, short_oid: self.short_oid@, subject: self.subject@ }
    }
}

/// A commit.
#[derive(Debug, PartialEq, Eq)]
pub struct Commit {
    pub oid: String,
    pub short_oid: String,
    pub author: String,
    pub time: Option<u64>,
    pub subject: String,
    /// Decorations like `HEAD -> main, origin/main, tag: v1`.
    pub refs: String,
}

#[verifier::ext_equal]
pub ghost struct CommitView {
    pub oid: Seq<char>,
    pub short_oid: Seq<char>,
    pub author: Seq<char>,
    pub time: Option<u64>,
    pub subject: Seq<char>,
    pub refs: Seq<char>,
}

impl View for Commit {
    type V = CommitView;

    open spec fn view(&self) -> CommitView {
        CommitView {
            oid: self.oid@,
            short_oid: self.short_oid@,
            author: self.author@,
            time: self.time,
            subject: self.subject@,
            refs: self.refs@,
        }
    }
}

/// An entry of the reflog.
#[derive(Debug, PartialEq, Eq)]
pub struct ReflogEntry {
    pub short_oid: String,
    pub selector: String,
    pub subject: String,
    pub time: Option<u64>,
}

#[verifier::ext_equal]
pub ghost struct ReflogView {
    pub short_oid: Seq<char>,
    pub selector: Seq<char>,
    pub subject: Seq<char>,
    pub time: Option<u64>,
}

impl View for ReflogEntry {
    type V = ReflogView;

    open spec fn view(&self) -> ReflogView {
        ReflogView {
            short_oid: self.short_oid@,
            selector: self.selector@,
            subject: self.subject@,
            time: self.time,
        }
    }
}

/// A stash.
#[derive(Debug, PartialEq, Eq)]
pub struct StashEntry {
    pub index: usize,
    pub subject: String,
    pub time: Option<u64>,
}

#[verifier::ext_equal]
pub ghost struct StashView {
    pub index: nat,
    pub subject: Seq<char>,
    pub time: Option<u64>,
}

impl View for StashEntry {
    type V = StashView;

    open spec fn view(&self) -> StashView {
        StashView { index: self.index as nat, subject: self.subject@, time: self.time }
    }
}

impl Clone for StashEntry {
    fn clone(&self) -> (r: Self)
        ensures
            r@ == self@,
    {
        StashEntry { index: self.index, subject: self.subject.clone(), time: self.time }
    }
}

/// A worktree of the repository.
#[derive(Debug, PartialEq, Eq)]
pub struct Worktree {
    pub path: FsPath,
    pub head: Option<String>,
    pub branch: Option<String>,
    pub bare: bool,
    pub is_current: bool,
}

#[verifier::ext_equal]
pub ghost struct WorktreeView {
    pub path: Seq<u8>,
    pub head: Option<Seq<char>>,
    pub branch: Option<Seq<char>>,
    pub bare: bool,
    pub is_current: bool,
}

impl View for Worktree {
    type V = WorktreeView;

    open spec fn view(&self) -> WorktreeView {
        WorktreeView {
            path: self.path@,
            head: text_opt(self.head),
            branch: text_opt(self.branch),
            bare: self.bare,
            is_current: self.is_current,
        }
    }
}

/// A submodule.
#[derive(Debug, PartialEq, Eq)]
pub struct Submodule {
    pub path: String,
    pub short_oid: String,
    /// `' '` in sync, `+` checked out at a different commit, `-` not initialised, `U` conflicts.
    pub state: char,
}

#[verifier::ext_equal]
pub ghost struct SubmoduleView {
    pub path: Seq<char>,
    pub short_oid: Seq<char>,
    pub state: char,
}

impl View for Submodule {
    type V = SubmoduleView;

    open spec fn view(&self) -> SubmoduleView {
        SubmoduleView { path: self.path@, short_oid: self.short_oid@, state: self.state }
    }
}

} // verus!
