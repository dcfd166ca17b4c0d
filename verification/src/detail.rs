//! Everything the per-repo panels (Files, Branches, Commits, Stash...) show, and the text
//! for the main view.

use vstd::prelude::*;

use crate::git::parse::{
    branch_format, branch_format_parts, branch_views, branches, branches_of, commit_views, log, log_of, reflog,
    reflog_of, reflog_views, remote_branch_views, remote_branches, remote_branches_of, remote_views, remotes,
    remotes_of, stash_views, stashes, stashes_of, status_in, status_v2, submodule_views, submodules, submodules_of,
    tag_views, tags, tags_of, worktree_views, worktrees, worktrees_of, LOG_FORMAT, REFLOG_FORMAT,
    REMOTE_BRANCH_FORMAT, STASH_FORMAT, TAG_FORMAT,
};
use crate::git::{bytes_opt, read_command, CmdKind, CommandView, ErrorView, GitCommand, GitError, GitOutput};
use crate::model::{
    file_views, Branch, BranchView, Commit, CommitView, DefaultBranch, FileEntry, FileKind, FileView, LocationView,
    ReflogEntry, ReflogView, Remote, RemoteBranch, RemoteBranchView, RemoteView, RepoLocation, StashEntry, StashView,
    Submodule, SubmoduleView, Tag, TagView, Worktree, WorktreeView,
};
use crate::ops::{selector, stash_selector};
use crate::path::FsPath;
use crate::text::number::{decimal, decimal_string};
use crate::text::outside::lossy_text;
use crate::text::seqs::{join, replace, replaced, views};
use crate::text::strings::{
    cat2, cat3, chars_of, lines, push_string, same_str, split_lines, str_views, string_of, strings, texts,
};

verus! {

/// Commits and reflog entries loaded per repo.
pub const LOG_LIMIT: usize = 300;

/// Lines of main-view output kept; the rest is dropped with a marker line.
pub const MAX_MAIN_LINES: usize = 20_000;

/// What the per-repo panels show.
#[derive(Debug, PartialEq, Eq)]
pub struct RepoDetail {
    pub files: Vec<FileEntry>,
    pub worktrees: Vec<Worktree>,
    pub submodules: Vec<Submodule>,
    pub branches: Vec<Branch>,
    pub remotes: Vec<Remote>,
    pub remote_branches: Vec<RemoteBranch>,
    pub tags: Vec<Tag>,
    pub commits: Vec<Commit>,
    pub reflog: Vec<ReflogEntry>,
    pub stashes: Vec<StashEntry>,
}

#[verifier::ext_equal]
pub ghost struct DetailView {
    pub files: Seq<FileView>,
    pub worktrees: Seq<WorktreeView>,
    pub submodules: Seq<SubmoduleView>,
    pub branches: Seq<BranchView>,
    pub remotes: Seq<RemoteView>,
    pub remote_branches: Seq<RemoteBranchView>,
    pub tags: Seq<TagView>,
    pub commits: Seq<CommitView>,
    pub reflog: Seq<ReflogView>,
    pub stashes: Seq<StashView>,
}

impl View for RepoDetail {
    type V = DetailView;

    open spec fn view(&self) -> DetailView {
        DetailView {
            files: file_views(self.files@),
            worktrees: worktree_views(self.worktrees@),
            submodules: submodule_views(self.submodules@),
            branches: branch_views(self.branches@),
            remotes: remote_views(self.remotes@),
            remote_branches: remote_branch_views(self.remote_branches@),
            tags: tag_views(self.tags@),
            commits: commit_views(self.commits@),
            reflog: reflog_views(self.reflog@),
            stashes: stash_views(self.stashes@),
        }
    }
}

impl Default for RepoDetail {
    fn default() -> (r: Self)
        ensures
            r@ == no_detail(),
    {
        let r = RepoDetail {
            files: Vec::new(),
            worktrees: Vec::new(),
            submodules: Vec::new(),
            branches: Vec::new(),
            remotes: Vec::new(),
            remote_branches: Vec::new(),
            tags: Vec::new(),
            commits: Vec::new(),
            reflog: Vec::new(),
            stashes: Vec::new(),
        };
        assert(r@ =~= no_detail());
        r
    }
}

/// Nothing to show.
pub open spec fn no_detail() -> DetailView {
    DetailView {
        files: Seq::empty(),
        worktrees: Seq::empty(),
        submodules: Seq::empty(),
        branches: Seq::empty(),
        remotes: Seq::empty(),
        remote_branches: Seq::empty(),
        tags: Seq::empty(),
        commits: Seq::empty(),
        reflog: Seq::empty(),
        stashes: Seq::empty(),
    }
}

/// The commands that a repo's detail takes. They don't depend on each other. One that is
/// left out would only fail, and its list is empty.
#[derive(Debug, PartialEq, Eq)]
pub struct DetailCommands {
    pub files: Option<GitCommand>,
    pub worktrees: GitCommand,
    pub submodules: Option<GitCommand>,
    pub branches: GitCommand,
    pub remotes: GitCommand,
    pub remote_branches: GitCommand,
    pub tags: GitCommand,
    pub commits: Option<GitCommand>,
    pub reflog: Option<GitCommand>,
    pub stashes: Option<GitCommand>,
}

#[verifier::ext_equal]
pub ghost struct DetailCommandsView {
    pub files: Option<CommandView>,
    pub worktrees: CommandView,
    pub submodules: Option<CommandView>,
    pub branches: CommandView,
    pub remotes: CommandView,
    pub remote_branches: CommandView,
    pub tags: CommandView,
    pub commits: Option<CommandView>,
    pub reflog: Option<CommandView>,
    pub stashes: Option<CommandView>,
}

/// The view of an optional command.
pub open spec fn command_opt(c: Option<GitCommand>) -> Option<CommandView> {
    match c {
        Some(c) => Some(c@),
        None => None,
    }
}

impl View for DetailCommands {
    type V = DetailCommandsView;

    open spec fn view(&self) -> DetailCommandsView {
        DetailCommandsView {
            files: command_opt(self.files),
            worktrees: self.worktrees@,
            submodules: command_opt(self.submodules),
            branches: self.branches@,
            remotes: self.remotes@,
            remote_branches: self.remote_branches@,
            tags: self.tags@,
            commits: command_opt(self.commits),
            reflog: command_opt(self.reflog),
            stashes: command_opt(self.stashes),
        }
    }
}

/// A command, unless there is nothing to ask for.
pub open spec fn unless(skip: bool, cmd: CommandView) -> Option<CommandView> {
    if skip {
        None
    } else {
        Some(cmd)
    }
}

/// The format of the branch listing.
pub open spec fn branches_format(base: Option<Seq<char>>) -> Seq<char> {
    "--format="@ + (join(branch_format_parts(base), "%1f"@) + "%1e"@)
}

/// The commands that a repo's detail takes.
pub open spec fn detail_commands(
    repo: LocationView,
    base: Option<Seq<char>>,
    has_commits: bool,
    has_gitmodules: bool,
) -> DetailCommandsView {
    let cwd = repo.root;
    let limit = "-"@ + decimal(LOG_LIMIT as nat);
    DetailCommandsView {
        files: unless(
            repo.bare,
            read_command(cwd, seq!["status"@, "--porcelain=v2"@, "-z"@, "--untracked-files=all"@]),
        ),
        worktrees: read_command(cwd, seq!["worktree"@, "list"@, "--porcelain"@, "-z"@]),
        submodules: unless(
            repo.bare || !has_gitmodules,
            read_command(cwd, seq!["submodule"@, "status"@]),
        ),
        branches: read_command(
            cwd,
            seq![
                "for-each-ref"@,
                "--sort=-committerdate"@,
                branches_format(base),
                "refs/heads"@,
            ],
        ),
        remotes: read_command(cwd, seq!["remote"@, "-v"@]),
        remote_branches: read_command(
            cwd,
            seq![
                "for-each-ref"@,
                "--sort=refname"@,
                "--format="@ + REMOTE_BRANCH_FORMAT@,
                "refs/remotes"@,
            ],
        ),
        tags: read_command(
            cwd,
            seq![
                "for-each-ref"@,
                "--sort=-creatordate"@,
                "--format="@ + TAG_FORMAT@,
                "refs/tags"@,
            ],
        ),
        commits: unless(
            !has_commits,
            read_command(
                cwd,
                seq![
                    "log"@,
                    "--no-show-signature"@,
                    "--format="@ + LOG_FORMAT@,
                    limit,
                    "HEAD"@,
                    "--"@,
                ],
            ),
        ),
        reflog: unless(
            !has_commits,
            read_command(
                cwd,
                seq!["reflog"@, "show"@, "--format="@ + REFLOG_FORMAT@, limit, "HEAD"@, "--"@],
            ),
        ),
        stashes: unless(
            repo.bare,
            read_command(cwd, seq!["stash"@, "list"@, "--format="@ + STASH_FORMAT@]),
        ),
    }
}

/// Reads that list one kind of ref.
fn list_refs(cwd: &FsPath, sort: &str, format: &str, refs: &str) -> (r: GitCommand)
    ensures
        r@ == read_command(cwd@, seq!["for-each-ref"@, sort@, "--format="@ + format@, refs@]),
{
    let format = cat2("--format=", format);
    let args = vec!["for-each-ref", sort, format.as_str(), refs];
    assert(str_views(args@) =~= seq!["for-each-ref"@, sort@, format@, refs@]);
    GitCommand::read(cwd, args)
}

/// What to ask git for. `has_commits` is false for an unborn HEAD, where log/reflog would
/// only fail; `has_gitmodules` says whether the repo has a `.gitmodules`.
pub fn load(
    repo: &RepoLocation,
    base: Option<&DefaultBranch>,
    has_commits: bool,
    has_gitmodules: bool,
) -> (r: DetailCommands)
    ensures
        r@ == detail_commands(
            repo@,
            match base {
                Some(b) => Some(b@.full_ref),
                None => None,
            },
            has_commits,
            has_gitmodules,
        ),
{
    let cwd = &repo.root;
    let number = decimal_string(LOG_LIMIT as u64);
    let limit = cat2("-", number.as_str());
    let files = if repo.bare {
        None
    } else {
        let args = vec!["status", "--porcelain=v2", "-z", "--untracked-files=all"];
        assert(str_views(args@) =~= seq![
            "status"@,
            "--porcelain=v2"@,
            "-z"@,
            "--untracked-files=all"@,
        ]);
        Some(GitCommand::read(cwd, args))
    };
    let worktree_args = vec!["worktree", "list", "--porcelain", "-z"];
    assert(str_views(worktree_args@) =~= seq!["worktree"@, "list"@, "--porcelain"@, "-z"@]);
    let submodules = if repo.bare || !has_gitmodules {
        None
    } else {
        let args = vec!["submodule", "status"];
        assert(str_views(args@) =~= seq!["submodule"@, "status"@]);
        Some(GitCommand::read(cwd, args))
    };
    let base_ref: Option<&str> = match base {
        Some(b) => Some(b.full_ref.as_str()),
        None => None,
    };
    let format = branch_format(base_ref);
    let remote_args = vec!["remote", "-v"];
    assert(str_views(remote_args@) =~= seq!["remote"@, "-v"@]);
    let commits = if !has_commits {
        None
    } else {
        let format = cat2("--format=", LOG_FORMAT);
        let args = vec![
            "log",
            "--no-show-signature",
            format.as_str(),
            limit.as_str(),
            "HEAD",
            "--",
        ];
        assert(str_views(args@) =~= seq![
            "log"@,
            "--no-show-signature"@,
            format@,
            limit@,
            "HEAD"@,
            "--"@,
        ]);
        Some(GitCommand::read(cwd, args))
    };
    let reflog = if !has_commits {
        None
    } else {
        let format = cat2("--format=", REFLOG_FORMAT);
        let args = vec!["reflog", "show", format.as_str(), limit.as_str(), "HEAD", "--"];
        assert(str_views(args@) =~= seq![
            "reflog"@,
            "show"@,
            format@,
            limit@,
            "HEAD"@,
            "--"@,
        ]);
        Some(GitCommand::read(cwd, args))
    };
    let stashes = if repo.bare {
        None
    } else {
        let format = cat2("--format=", STASH_FORMAT);
        let args = vec!["stash", "list", format.as_str()];
        assert(str_views(args@) =~= seq!["stash"@, "list"@, format@]);
        Some(GitCommand::read(cwd, args))
    };
    DetailCommands {
        files,
        worktrees: GitCommand::read(cwd, worktree_args),
        submodules,
        branches: list_refs(cwd, "--sort=-committerdate", format.as_str(), "refs/heads"),
        remotes: GitCommand::read(cwd, remote_args),
        remote_branches: list_refs(cwd, "--sort=refname", REMOTE_BRANCH_FORMAT, "refs/remotes"),
        tags: list_refs(cwd, "--sort=-creatordate", TAG_FORMAT, "refs/tags"),
        commits,
        reflog,
        stashes,
    }
}

/// What git replied to the [`DetailCommands`]; nothing for those that were left out.
#[derive(Debug, PartialEq, Eq)]
pub struct DetailReplies {
    pub files: Option<Result<GitOutput, GitError>>,
    pub worktrees: Option<Result<GitOutput, GitError>>,
    pub submodules: Option<Result<GitOutput, GitError>>,
    pub branches: Option<Result<GitOutput, GitError>>,
    pub remotes: Option<Result<GitOutput, GitError>>,
    pub remote_branches: Option<Result<GitOutput, GitError>>,
    pub tags: Option<Result<GitOutput, GitError>>,
    pub commits: Option<Result<GitOutput, GitError>>,
    pub reflog: Option<Result<GitOutput, GitError>>,
    pub stashes: Option<Result<GitOutput, GitError>>,
}

/// What a command printed; nothing if it wasn't run or failed.
pub open spec fn printed(reply: Option<Result<GitOutput, GitError>>) -> Option<Seq<u8>> {
    match reply {
        Some(Ok(out)) => Some(out@.stdout),
        _ => None,
    }
}

/// Why a command failed.
pub open spec fn error_in(reply: Option<Result<GitOutput, GitError>>) -> Option<ErrorView> {
    match reply {
        Some(Err(e)) => Some(e@),
        _ => None,
    }
}

/// The first that is there.
pub open spec fn first_of(list: Seq<Option<ErrorView>>) -> Option<ErrorView>
    decreases list.len(),
{
    if list.len() == 0 {
        None
    } else if list[0] is Some {
        list[0]
    } else {
        first_of(list.drop_first())
    }
}

impl DetailReplies {
    /// Why the detail can't be shown: the first failure. A repo can have commits but no
    /// reflog, so that doesn't count.
    pub open spec fn error(self) -> Option<ErrorView> {
        first_of(
            seq![
                error_in(self.files),
                error_in(self.worktrees),
                error_in(self.submodules),
                error_in(self.branches),
                error_in(self.remotes),
                error_in(self.remote_branches),
                error_in(self.tags),
                error_in(self.commits),
                error_in(self.stashes),
            ],
        )
    }

    /// What the replies say. A command that was left out leaves its list empty.
    pub open spec fn detail(self, root: Seq<u8>) -> DetailView {
        DetailView {
            files: match printed(self.files) {
                Some(out) => status_in(out).files,
                None => Seq::empty(),
            },
            worktrees: match printed(self.worktrees) {
                Some(out) => worktrees_of(lossy_text(out), root),
                None => Seq::empty(),
            },
            submodules: match printed(self.submodules) {
                Some(out) => submodules_of(lossy_text(out)),
                None => Seq::empty(),
            },
            branches: match printed(self.branches) {
                Some(out) => branches_of(lossy_text(out), Some(root)),
                None => Seq::empty(),
            },
            remotes: match printed(self.remotes) {
                Some(out) => remotes_of(lossy_text(out)),
                None => Seq::empty(),
            },
            remote_branches: match printed(self.remote_branches) {
                Some(out) => remote_branches_of(lossy_text(out)),
                None => Seq::empty(),
            },
            tags: match printed(self.tags) {
                Some(out) => tags_of(lossy_text(out)),
                None => Seq::empty(),
            },
            commits: match printed(self.commits) {
                Some(out) => log_of(lossy_text(out)),
                None => Seq::empty(),
            },
            reflog: match printed(self.reflog) {
                Some(out) => reflog_of(lossy_text(out)),
                None => Seq::empty(),
            },
            stashes: match printed(self.stashes) {
                Some(out) => stashes_of(lossy_text(out)),
                None => Seq::empty(),
            },
        }
    }
}

/// Keeps the first failure.
fn note_error(first: Option<GitError>, reply: &Option<Result<GitOutput, GitError>>) -> (r: Option<GitError>)
    ensures
        error_opt(r) == (match error_opt(first) {
            Some(e) => Some(e),
            None => error_in(*reply),
        }),
{
    match first {
        Some(e) => Some(e),
        None => match reply {
            Some(Err(e)) => Some(e.clone()),
            _ => None,
        },
    }
}

/// The view of an optional error.
pub open spec fn error_opt(e: Option<GitError>) -> Option<ErrorView> {
    match e {
        Some(e) => Some(e@),
        None => None,
    }
}

/// The text that a command printed.
fn text_of(reply: &Option<Result<GitOutput, GitError>>) -> (r: Option<String>)
    ensures
        match r {
            Some(text) => printed(*reply) matches Some(out) && text@ == lossy_text(out),
            None => printed(*reply) is None,
        },
{
    match reply {
        Some(Ok(out)) => Some(out.stdout_str()),
        _ => None,
    }
}

/// Why the detail can't be shown.
fn first_error(replies: &DetailReplies) -> (r: Option<GitError>)
    ensures
        error_opt(r) == replies.error(),
{
    let mut e: Option<GitError> = None;
    e = note_error(e, &replies.files);
    e = note_error(e, &replies.worktrees);
    e = note_error(e, &replies.submodules);
    e = note_error(e, &replies.branches);
    e = note_error(e, &replies.remotes);
    e = note_error(e, &replies.remote_branches);
    e = note_error(e, &replies.tags);
    e = note_error(e, &replies.commits);
    e = note_error(e, &replies.stashes);
    proof {
        reveal_with_fuel(first_of, 10);
    }
    e
}

/// What the replies say, or the first failure.
pub fn finish_load(repo: &RepoLocation, replies: &DetailReplies) -> (r: Result<RepoDetail, GitError>)
    ensures
        match r {
            Ok(detail) => replies.error() is None && detail@ == replies.detail(repo@.root),
            Err(e) => replies.error() == Some(e@),
        },
{
    match first_error(replies) {
        Some(e) => return Err(e),
        None => {},
    }
    let mut detail = RepoDetail::default();
    match &replies.files {
        Some(Ok(out)) => {
            detail.files = status_v2(out.stdout.as_slice()).files;
        },
        _ => {},
    }
    match &replies.worktrees {
        Some(Ok(out)) => {
            detail.worktrees = worktrees(out.stdout.as_slice(), &repo.root);
        },
        _ => {},
    }
    match text_of(&replies.submodules) {
        Some(text) => {
            detail.submodules = submodules(text.as_str());
        },
        None => {},
    }
    match text_of(&replies.branches) {
        Some(text) => {
            detail.branches = branches(text.as_str(), Some(&repo.root));
        },
        None => {},
    }
    match text_of(&replies.remotes) {
        Some(text) => {
            detail.remotes = remotes(text.as_str());
        },
        None => {},
    }
    match text_of(&replies.remote_branches) {
        Some(text) => {
            detail.remote_branches = remote_branches(text.as_str());
        },
        None => {},
    }
    match text_of(&replies.tags) {
        Some(text) => {
            detail.tags = tags(text.as_str());
        },
        None => {},
    }
    match text_of(&replies.commits) {
        Some(text) => {
            detail.commits = log(text.as_str());
        },
        None => {},
    }
    match text_of(&replies.reflog) {
        Some(text) => {
            detail.reflog = reflog(text.as_str());
        },
        None => {},
    }
    match text_of(&replies.stashes) {
        Some(text) => {
            detail.stashes = stashes(text.as_str());
        },
        None => {},
    }
    Ok(detail)
}

/// Loading a repo's detail only reads.
pub proof fn law_detail_only_reads(
    repo: LocationView,
    base: Option<Seq<char>>,
    has_commits: bool,
    has_gitmodules: bool,
)
    ensures
        ({
            let c = detail_commands(repo, base, has_commits, has_gitmodules);
            &&& c.files matches Some(cmd) ==> cmd.kind == CmdKind::Read
            &&& c.worktrees.kind == CmdKind::Read
            &&& c.submodules matches Some(cmd) ==> cmd.kind == CmdKind::Read
            &&& c.branches.kind == CmdKind::Read
            &&& c.remotes.kind == CmdKind::Read
            &&& c.remote_branches.kind == CmdKind::Read
            &&& c.tags.kind == CmdKind::Read
            &&& c.commits matches Some(cmd) ==> cmd.kind == CmdKind::Read
            &&& c.reflog matches Some(cmd) ==> cmd.kind == CmdKind::Read
            &&& c.stashes matches Some(cmd) ==> cmd.kind == CmdKind::Read
        }),
{
}

/// The flags that make a diff plain.
pub open spec fn diff_flags() -> Seq<Seq<char>> {
    seq!["--no-ext-diff"@, "--no-color"@, "--src-prefix=a/"@, "--dst-prefix=b/"@]
}

/// Unstaged and staged diffs for one file. They're the raw bytes, without textconv, so
/// lines can be staged from them ([`crate::patch`]).
#[derive(Debug, PartialEq, Eq)]
pub struct FileDiff {
    pub unstaged: Option<Vec<u8>>,
    pub staged: Option<Vec<u8>>,
}

/// A file's paths: where it is, and where it was.
pub open spec fn paths_of(file: FileView) -> Seq<Seq<char>> {
    seq![file.path] + (match file.orig_path {
        Some(orig) => seq![orig],
        None => Seq::empty(),
    })
}

/// Adds a file's paths to a command's arguments.
fn push_paths(args: &mut Vec<String>, file: &FileEntry)
    ensures
        texts(final(args)@) == texts(old(args)@) + paths_of(file@),
{
    push_string(args, file.path.clone());
    match &file.orig_path {
        Some(orig) => push_string(args, orig.clone()),
        None => {},
    }
    assert(texts(args@) =~= texts(old(args)@) + paths_of(file@));
}

/// Asks how git sees `file` now. The file list's copy can be a moment old (e.g. just after
/// staging part of it).
pub fn file_status(repo: &RepoLocation, file: &FileEntry) -> (r: GitCommand)
    ensures
        r@ == read_command(
            repo@.root,
            seq!["status"@, "--porcelain=v2"@, "-z"@, "--untracked-files=all"@, "--"@] + paths_of(file@),
        ),
{
    let list = vec!["status", "--porcelain=v2", "-z", "--untracked-files=all", "--"];
    assert(str_views(list@) =~= seq![
        "status"@,
        "--porcelain=v2"@,
        "-z"@,
        "--untracked-files=all"@,
        "--"@,
    ]);
    let mut args = strings(list);
    push_paths(&mut args, file);
    GitCommand::new(&repo.root, CmdKind::Read, args)
}

/// The first file at that path.
pub open spec fn file_at(files: Seq<FileView>, path: Seq<char>) -> Option<FileView>
    decreases files.len(),
{
    if files.len() == 0 {
        None
    } else if files[0].path == path {
        Some(files[0])
    } else {
        file_at(files.drop_first(), path)
    }
}

/// The view of an optional file.
pub open spec fn file_opt(f: Option<FileEntry>) -> Option<FileView> {
    match f {
        Some(f) => Some(f@),
        None => None,
    }
}

/// The first file at that path.
pub fn find_file(files: &Vec<FileEntry>, path: &str) -> (r: Option<FileEntry>)
    ensures
        file_opt(r) == file_at(file_views(files@), path@),
{
    let ghost all = file_views(files@);
    let mut i: usize = 0;
    assert(all.skip(0) =~= all);
    while i < files.len()
        invariant
            i <= files@.len(),
            all == file_views(files@),
            file_at(all.skip(i as int), path@) == file_at(all, path@),
        decreases files@.len() - i,
    {
        assert(all.skip(i as int)[0] == files@[i as int]@);
        assert(all.skip(i as int).drop_first() =~= all.skip(i + 1));
        if same_str(files[i].path.as_str(), path) {
            return Some(files[i].clone());
        }
        i = i + 1;
    }
    None
}

/// `file` as git sees it now, or `None` once it has no changes.
pub fn file_status_in(out: &[u8], file: &FileEntry) -> (r: Option<FileEntry>)
    ensures
        file_opt(r) == file_at(status_in(out@).files, file@.path),
{
    let report = status_v2(out);
    find_file(&report.files, file.path.as_str())
}

/// The command for a diff of tracked changes.
pub open spec fn diff_command(cwd: Seq<u8>, file: FileView, cached: bool) -> CommandView {
    read_command(
        cwd,
        seq!["diff"@, "--no-textconv"@] + diff_flags() + (if cached {
            seq!["--cached"@, "-M"@]
        } else {
            Seq::empty()
        }) + seq!["--"@] + paths_of(file),
    )
}

/// The command for the content of an untracked file; exit code 1 means that there is some.
pub open spec fn untracked_diff_command(cwd: Seq<u8>, file: FileView) -> CommandView {
    CommandView {
        ok_codes: seq![1i32],
        ..read_command(
            cwd,
            seq!["diff"@, "--no-index"@, "--no-textconv"@] + diff_flags() + seq![
                "--"@,
                "/dev/null"@,
                file.path,
            ],
        )
    }
}

/// The commands for a file's unstaged and staged diffs, where it has such changes.
pub open spec fn file_diff_commands(cwd: Seq<u8>, file: FileView) -> (
    Option<CommandView>,
    Option<CommandView>,
) {
    if file.kind == FileKind::Untracked {
        (Some(untracked_diff_command(cwd, file)), None)
    } else {
        (
            unless(!file.unstaged(), diff_command(cwd, file, false)),
            unless(!file.staged(), diff_command(cwd, file, true)),
        )
    }
}

fn tracked_diff(repo: &RepoLocation, file: &FileEntry, cached: bool) -> (r: GitCommand)
    ensures
        r@ == diff_command(repo@.root, file@, cached),
{
    let list: Vec<&str> = if cached {
        vec![
            "diff",
            "--no-textconv",
            "--no-ext-diff",
            "--no-color",
            "--src-prefix=a/",
            "--dst-prefix=b/",
            "--cached",
            "-M",
            "--",
        ]
    } else {
        vec![
            "diff",
            "--no-textconv",
            "--no-ext-diff",
            "--no-color",
            "--src-prefix=a/",
            "--dst-prefix=b/",
            "--",
        ]
    };
    assert(str_views(list@) =~= seq!["diff"@, "--no-textconv"@] + diff_flags() + (if cached {
        seq!["--cached"@, "-M"@]
    } else {
        Seq::empty()
    }) + seq!["--"@]);
    let mut args = strings(list);
    push_paths(&mut args, file);
    GitCommand::new(&repo.root, CmdKind::Read, args)
}

/// The commands for a file's unstaged and staged diffs, where it has such changes.
pub fn file_diff(repo: &RepoLocation, file: &FileEntry) -> (r: (Option<GitCommand>, Option<GitCommand>))
    ensures
        (command_opt(r.0), command_opt(r.1)) == file_diff_commands(repo@.root, file@),
{
    if file.kind == FileKind::Untracked {
        let list = vec![
            "diff",
            "--no-index",
            "--no-textconv",
            "--no-ext-diff",
            "--no-color",
            "--src-prefix=a/",
            "--dst-prefix=b/",
            "--",
            "/dev/null",
            file.path.as_str(),
        ];
        assert(str_views(list@) =~= seq!["diff"@, "--no-index"@, "--no-textconv"@] + diff_flags() + seq![
            "--"@,
            "/dev/null"@,
            file@.path,
        ]);
        let codes: Vec<i32> = vec![1];
        assert(codes@ =~= seq![1i32]);
        return (Some(GitCommand::read(&repo.root, list).ok_codes(codes)), None);
    }
    let unstaged = if file.has_unstaged() {
        Some(tracked_diff(repo, file, false))
    } else {
        None
    };
    let staged = if file.has_staged() {
        Some(tracked_diff(repo, file, true))
    } else {
        None
    };
    (unstaged, staged)
}

/// A file's diffs, or the first failure.
pub fn finish_file_diff(
    unstaged: Option<Result<GitOutput, GitError>>,
    staged: Option<Result<GitOutput, GitError>>,
) -> (r: Result<FileDiff, GitError>)
    ensures
        match r {
            Ok(diff) => error_in(unstaged) is None && error_in(staged) is None && bytes_opt(diff.unstaged)
                == printed(unstaged) && bytes_opt(diff.staged) == printed(staged),
            Err(e) => Some(e@) == (if error_in(unstaged) is Some {
                error_in(unstaged)
            } else {
                error_in(staged)
            }),
        },
{
    let unstaged = match unstaged {
        Some(Err(e)) => return Err(e),
        Some(Ok(out)) => Some(out.stdout),
        None => None,
    };
    let staged = match staged {
        Some(Err(e)) => return Err(e),
        Some(Ok(out)) => Some(out.stdout),
        None => None,
    };
    Ok(FileDiff { unstaged, staged })
}

/// `git show` of a commit (or stash/tag): header, stat and patch.
pub fn show(repo: &RepoLocation, rev: &str) -> (r: GitCommand)
    ensures
        r@ == read_command(
            repo@.root,
            seq!["show"@, "--no-show-signature"@, "--stat"@, "--patch"@, "--format=fuller"@]
                + diff_flags() + seq![rev@, "--"@],
        ),
{
    let list = vec![
        "show",
        "--no-show-signature",
        "--stat",
        "--patch",
        "--format=fuller",
        "--no-ext-diff",
        "--no-color",
        "--src-prefix=a/",
        "--dst-prefix=b/",
        rev,
        "--",
    ];
    assert(str_views(list@) =~= seq![
        "show"@,
        "--no-show-signature"@,
        "--stat"@,
        "--patch"@,
        "--format=fuller"@,
    ] + diff_flags() + seq![rev@, "--"@]);
    GitCommand::read(&repo.root, list)
}

/// `git stash show`: stat and patch.
pub fn stash_show(repo: &RepoLocation, index: usize) -> (r: GitCommand)
    ensures
        r@ == read_command(
            repo@.root,
            seq!["stash"@, "show"@, "--stat"@, "--patch"@, "--include-untracked"@] + diff_flags() + seq![
                stash_selector(index as nat),
            ],
        ),
{
    let stash = selector(index);
    let list = vec![
        "stash",
        "show",
        "--stat",
        "--patch",
        "--include-untracked",
        "--no-ext-diff",
        "--no-color",
        "--src-prefix=a/",
        "--dst-prefix=b/",
        stash.as_str(),
    ];
    assert(str_views(list@) =~= seq![
        "stash"@,
        "show"@,
        "--stat"@,
        "--patch"@,
        "--include-untracked"@,
    ] + diff_flags() + seq![stash_selector(index as nat)]);
    GitCommand::read(&repo.root, list)
}

/// Graph log of a ref.
pub fn graph_log(repo: &RepoLocation, rev: &str) -> (r: GitCommand)
    ensures
        r@ == read_command(
            repo@.root,
            seq![
                "log"@,
                "--graph"@,
                "--no-show-signature"@,
                "--decorate"@,
                "--date=relative"@,
                "--format=%h %ad %an%d%n%s"@,
                "-200"@,
                rev@,
                "--"@,
            ],
        ),
{
    let list = vec![
        "log",
        "--graph",
        "--no-show-signature",
        "--decorate",
        "--date=relative",
        "--format=%h %ad %an%d%n%s",
        "-200",
        rev,
        "--",
    ];
    assert(str_views(list@) =~= seq![
        "log"@,
        "--graph"@,
        "--no-show-signature"@,
        "--decorate"@,
        "--date=relative"@,
        "--format=%h %ad %an%d%n%s"@,
        "-200"@,
        rev@,
        "--"@,
    ]);
    GitCommand::read(&repo.root, list)
}

/// A line with its tabs as four spaces.
pub open spec fn untabbed(line: Seq<char>) -> Seq<char> {
    replace(line, '\t', "    "@)
}

/// The first `max` lines with their tabs as four spaces, and a line that says so if there
/// are more.
pub open spec fn shown_lines(ls: Seq<Seq<char>>, max: nat) -> Seq<Seq<char>> {
    if ls.len() <= max {
        ls.map_values(|l: Seq<char>| untabbed(l))
    } else {
        ls.take(max as int).map_values(|l: Seq<char>| untabbed(l)).push(
            "… output truncated at "@ + decimal(max) + " lines"@,
        )
    }
}

/// Lines as they are displayed, capped at [`MAX_MAIN_LINES`].
pub fn show_lines(all: &Vec<String>) -> (r: Vec<String>)
    ensures
        texts(r@) == shown_lines(texts(all@), MAX_MAIN_LINES as nat),
{
    let ghost ls = texts(all@);
    let ghost f = |l: Seq<char>| untabbed(l);
    let spaces = chars_of("    ");
    let mut out: Vec<String> = Vec::new();
    let mut i: usize = 0;
    assert(texts(out@) =~= ls.take(0).map_values(f));
    while i < all.len() && i < MAX_MAIN_LINES
        invariant
            i <= all@.len(),
            i <= MAX_MAIN_LINES,
            ls == texts(all@),
            f == (|l: Seq<char>| untabbed(l)),
            spaces@ == "    "@,
            texts(out@) == ls.take(i as int).map_values(f),
        decreases all@.len() - i,
    {
        let chars = chars_of(all[i].as_str());
        let line = replaced(chars.as_slice(), '\t', spaces.as_slice());
        push_string(&mut out, string_of(line.as_slice()));
        assert(ls.take(i + 1).map_values(f) =~= ls.take(i as int).map_values(f).push(
            untabbed(ls[i as int]),
        ));
        i = i + 1;
    }
    if all.len() > MAX_MAIN_LINES {
        let number = decimal_string(MAX_MAIN_LINES as u64);
        push_string(&mut out, cat3("… output truncated at ", number.as_str(), " lines"));
    } else {
        assert(ls.take(ls.len() as int) =~= ls);
    }
    out
}

/// Splits command output into display lines, capped at [`MAX_MAIN_LINES`].
pub fn to_lines(text: &str) -> (r: Vec<String>)
    ensures
        texts(r@) == shown_lines(lines(text@), MAX_MAIN_LINES as nat),
{
    let chars = chars_of(text);
    let all = split_lines(chars.as_slice());
    let ghost ls = views(all@);
    let mut list: Vec<String> = Vec::new();
    let mut i: usize = 0;
    assert(texts(list@) =~= ls.take(0));
    while i < all.len()
        invariant
            i <= all@.len(),
            ls == views(all@),
            texts(list@) == ls.take(i as int),
        decreases all@.len() - i,
    {
        let line = string_of(all[i]);
        assert(ls.take(i + 1) =~= ls.take(i as int).push(line@));
        push_string(&mut list, line);
        i = i + 1;
    }
    assert(ls.take(ls.len() as int) =~= ls);
    show_lines(&list)
}

/// However much a command prints, the main view gets at most one line more than it keeps.
pub proof fn law_shown_lines_are_bounded(ls: Seq<Seq<char>>, max: nat)
    ensures
        shown_lines(ls, max).len() <= max + 1,
        shown_lines(ls, max).len() == (if ls.len() <= max {
            ls.len()
        } else {
            max + 1
        }),
{
}

} // verus!
