//! Mutating git operations. All go through the CLI so hooks, signing and credential helpers
//! behave exactly as in the user's terminal.

use vstd::prelude::*;
use vstd::slice::slice_subrange;

use crate::git::parse::{left_right, two_counts};
use crate::git::{
    command, network_command, read_command, reply_view, trimmed_text, write_command, CmdKind, CommandView, ErrorView,
    GitCommand, GitError, GitOutput, OutputView,
};
use crate::model::{
    file_views, Branch, BranchView, DefaultBranch, DefaultView, FileEntry, FileKind, FileView, RemoteBranch,
    RepoLocation, StashEntry, StashView, Upstream, UpstreamView,
};
use crate::path::copy_bytes;
use crate::summary::{find_longest_remote, longest_remote, main_remote, primary_remote};
use crate::text::number::{decimal, decimal_string};
use crate::text::seqs::{find_sub, has_sub, split_first, split_once, split_once_sub, strip_prefix, views};
use crate::text::strings::{
    after_text, bytes_of, cat2, cat3, cat4, chars_end_with, chars_of, is_blank, is_control, is_control_char, is_space,
    is_text, is_white_space, lines, push_string, same_str, split_lines, str_contains, str_opt, str_views, string_of,
    strings, text_opt, texts, trim, trim_end, trimmed_end, utf8,
};

verus! {

/// The pathspecs of a file: where it is, and where it was.
pub open spec fn path_specs(file: FileView) -> Seq<Seq<char>> {
    seq!["--"@, file.path] + (match file.orig_path {
        Some(orig) => seq![orig],
        None => Seq::empty(),
    })
}

/// Adds a file's pathspecs to a command's arguments.
fn path_args(args: Vec<&str>, file: &FileEntry) -> (r: Vec<String>)
    ensures
        texts(r@) == str_views(args@) + path_specs(file@),
{
    let mut out = strings(args);
    push_string(&mut out, "--".to_owned());
    push_string(&mut out, file.path.clone());
    match &file.orig_path {
        Some(orig) => push_string(&mut out, orig.clone()),
        None => {},
    }
    assert(texts(out@) =~= str_views(args@) + path_specs(file@));
    out
}

/// The arguments that take a file out of the index.
pub open spec fn unstage_args(file: FileView, unborn: bool) -> Seq<Seq<char>> {
    (if unborn {
        seq!["rm"@, "--cached"@, "-q"@, "-r"@]
    } else {
        seq!["reset"@, "-q"@, "HEAD"@]
    }) + path_specs(file)
}

/// The arguments that stage a file, or unstage it if everything is staged.
pub open spec fn toggle_stage_args(file: FileView, unborn: bool) -> Seq<Seq<char>> {
    if file.unstaged() {
        seq!["add"@, "-A"@] + path_specs(file)
    } else {
        unstage_args(file, unborn)
    }
}

/// `space` in Files: stage if anything is unstaged, otherwise unstage.
pub fn toggle_stage(repo: &RepoLocation, file: &FileEntry, unborn: bool) -> (r: GitCommand)
    ensures
        r@ == write_command(repo@.root, toggle_stage_args(file@, unborn)),
{
    if file.has_unstaged() {
        let args = vec!["add", "-A"];
        assert(str_views(args@) =~= seq!["add"@, "-A"@]);
        GitCommand::new(&repo.root, CmdKind::Write, path_args(args, file))
    } else {
        unstage(repo, file, unborn)
    }
}

/// Takes a file out of the index.
pub fn unstage(repo: &RepoLocation, file: &FileEntry, unborn: bool) -> (r: GitCommand)
    ensures
        r@ == write_command(repo@.root, unstage_args(file@, unborn)),
{
    let args: Vec<&str> = if unborn {
        vec!["rm", "--cached", "-q", "-r"]
    } else {
        vec!["reset", "-q", "HEAD"]
    };
    assert(unborn ==> str_views(args@) =~= seq!["rm"@, "--cached"@, "-q"@, "-r"@]);
    assert(!unborn ==> str_views(args@) =~= seq!["reset"@, "-q"@, "HEAD"@]);
    GitCommand::new(&repo.root, CmdKind::Write, path_args(args, file))
}

/// Whether a file has something to stage.
pub open spec fn any_unstaged(files: Seq<FileView>) -> bool {
    exists|i: int| 0 <= i < files.len() && (#[trigger] files[i]).unstaged()
}

/// The arguments that stage everything, or unstage everything if all is staged.
pub open spec fn toggle_all_args(files: Seq<FileView>, unborn: bool) -> Seq<Seq<char>> {
    if any_unstaged(files) {
        seq!["add"@, "-A"@]
    } else if unborn {
        seq!["rm"@, "--cached"@, "-q"@, "-r"@, "."@]
    } else {
        seq!["reset"@, "-q"@]
    }
}

/// Whether a file has something to stage.
fn has_any_unstaged(files: &Vec<FileEntry>) -> (r: bool)
    ensures
        r == any_unstaged(file_views(files@)),
{
    let mut i: usize = 0;
    while i < files.len()
        invariant
            i <= files@.len(),
            forall|j: int| 0 <= j < i ==> !(#[trigger] file_views(files@)[j]).unstaged(),
        decreases files@.len() - i,
    {
        if files[i].has_unstaged() {
            assert(file_views(files@)[i as int].unstaged());
            return true;
        }
        i = i + 1;
    }
    false
}

/// `a` in Files: stage everything, or unstage everything if all is staged.
pub fn toggle_stage_all(repo: &RepoLocation, files: &Vec<FileEntry>, unborn: bool) -> (r: GitCommand)
    ensures
        r@ == write_command(repo@.root, toggle_all_args(file_views(files@), unborn)),
{
    let args: Vec<&str> = if has_any_unstaged(files) {
        vec!["add", "-A"]
    } else if unborn {
        vec!["rm", "--cached", "-q", "-r", "."]
    } else {
        vec!["reset", "-q"]
    };
    assert(str_views(args@) =~= toggle_all_args(file_views(files@), unborn));
    GitCommand::write(&repo.root, args)
}

/// The arguments that throw away all changes to a file.
pub open spec fn discard_args(file: FileView) -> Seq<Seq<char>> {
    if file.kind == FileKind::Untracked {
        seq!["clean"@, "-f"@, "-d"@, "--"@, file.path]
    } else if file.index == 'A' {
        seq!["rm"@, "-f"@, "-q"@, "--"@, file.path]
    } else {
        seq!["restore"@, "--staged"@, "--worktree"@, "--source=HEAD"@] + path_specs(file)
    }
}

/// Throws away all changes to a file, staged and unstaged.
pub fn discard(repo: &RepoLocation, file: &FileEntry) -> (r: GitCommand)
    ensures
        r@ == write_command(repo@.root, discard_args(file@)),
{
    if file.kind == FileKind::Untracked {
        let args = vec!["clean", "-f", "-d", "--", file.path.as_str()];
        assert(str_views(args@) =~= discard_args(file@));
        GitCommand::write(&repo.root, args)
    } else if file.index == 'A' {
        let args = vec!["rm", "-f", "-q", "--", file.path.as_str()];
        assert(str_views(args@) =~= discard_args(file@));
        GitCommand::write(&repo.root, args)
    } else {
        let args = vec!["restore", "--staged", "--worktree", "--source=HEAD"];
        assert(str_views(args@) =~= seq!["restore"@, "--staged"@, "--worktree"@, "--source=HEAD"@]);
        GitCommand::new(&repo.root, CmdKind::Write, path_args(args, file))
    }
}

/// What [`apply_patch`] does with a patch from [`crate::patch::Patch::build`].
#[derive(Clone, Copy, Debug, PartialEq, Eq, Structural)]
pub enum PatchAction {
    /// Adds the changes to the index.
    Stage,
    /// Takes them back out of the index.
    Unstage,
    /// Reverts them in the worktree.
    Discard,
}

/// Whether an action undoes the changes it is given.
pub open spec fn reverses(action: PatchAction) -> bool {
    action != PatchAction::Stage
}

/// The arguments of `git apply`.
pub open spec fn apply_args(action: PatchAction) -> Seq<Seq<char>> {
    match action {
        PatchAction::Stage => seq!["apply"@, "--whitespace=nowarn"@, "--cached"@],
        PatchAction::Unstage => seq!["apply"@, "--whitespace=nowarn"@, "--cached"@, "--reverse"@],
        PatchAction::Discard => seq!["apply"@, "--whitespace=nowarn"@, "--reverse"@],
    }
}

/// `git apply` of a partial patch, reading it from stdin. Whitespace isn't checked: these
/// are the user's own changes moving between the worktree and the index.
pub fn apply_patch(repo: &RepoLocation, patch: Vec<u8>, action: PatchAction) -> (r: GitCommand)
    ensures
        r@ == (CommandView {
            stdin: Some(patch@),
            ..write_command(repo@.root, apply_args(action))
        }),
{
    let args: Vec<&str> = match action {
        PatchAction::Stage => vec!["apply", "--whitespace=nowarn", "--cached"],
        PatchAction::Unstage => vec!["apply", "--whitespace=nowarn", "--cached", "--reverse"],
        PatchAction::Discard => vec!["apply", "--whitespace=nowarn", "--reverse"],
    };
    assert(str_views(args@) =~= apply_args(action));
    GitCommand::write(&repo.root, args).stdin(patch)
}

/// The arguments of a commit.
pub open spec fn commit_args(amend: bool) -> Seq<Seq<char>> {
    seq!["commit"@, "--cleanup=strip"@, "-F"@, "-"@] + (if amend {
        seq!["--amend"@]
    } else {
        Seq::empty()
    })
}

/// Commits what is staged, with the message on stdin.
pub fn commit(repo: &RepoLocation, message: &str, amend: bool) -> (r: GitCommand)
    ensures
        r@ == (CommandView {
            stdin: Some(utf8(message)),
            ..write_command(repo@.root, commit_args(amend))
        }),
{
    let args: Vec<&str> = if amend {
        vec!["commit", "--cleanup=strip", "-F", "-", "--amend"]
    } else {
        vec!["commit", "--cleanup=strip", "-F", "-"]
    };
    assert(str_views(args@) =~= commit_args(amend));
    GitCommand::write(&repo.root, args).stdin(copy_bytes(bytes_of(message)))
}

/// The command that shows the last commit's message.
pub fn last_commit_message(repo: &RepoLocation) -> (r: GitCommand)
    ensures
        r@ == read_command(repo@.root, seq!["log"@, "-1"@, "--format=%B"@, "HEAD"@]),
{
    let args = vec!["log", "-1", "--format=%B", "HEAD"];
    assert(str_views(args@) =~= seq!["log"@, "-1"@, "--format=%B"@, "HEAD"@]);
    GitCommand::read(&repo.root, args)
}

/// The last commit's message in what [`last_commit_message`] printed.
pub fn commit_message(out: &str) -> (r: String)
    ensures
        r@ == trim_end(out@),
{
    let chars = chars_of(out);
    string_of(trimmed_end(&chars))
}

/// What [`stash`] puts away.
#[derive(Clone, Copy, Debug, PartialEq, Eq, Structural)]
pub enum StashKind {
    /// Every change, untracked files included, leaving a clean worktree.
    All,
    /// Every change, but staged changes also stay staged in the worktree.
    KeepIndex,
    /// Changes to tracked files; untracked files stay.
    TrackedFiles,
    /// Only what's staged.
    Staged,
}

/// The arguments of `git stash push`. A blank message is none.
pub open spec fn stash_args(kind: StashKind, message: Option<Seq<char>>) -> Seq<Seq<char>> {
    seq!["stash"@, "push"@] + (match kind {
        StashKind::All => seq!["--include-untracked"@],
        StashKind::KeepIndex => seq!["--include-untracked"@, "--keep-index"@],
        StashKind::TrackedFiles => Seq::empty(),
        StashKind::Staged => seq!["--staged"@],
    }) + (match message {
        Some(m) if trim(m).len() > 0 => seq!["-m"@, m],
        _ => Seq::empty(),
    })
}

/// `git stash push`. Without a message git writes its own: `WIP on <branch>: <commit>`.
pub fn stash(repo: &RepoLocation, kind: StashKind, message: Option<&str>) -> (r: GitCommand)
    ensures
        r@ == write_command(repo@.root, stash_args(kind, str_opt(message))),
{
    let mut args: Vec<&str> = match kind {
        StashKind::All => vec!["stash", "push", "--include-untracked"],
        StashKind::KeepIndex => vec!["stash", "push", "--include-untracked", "--keep-index"],
        StashKind::TrackedFiles => vec!["stash", "push"],
        StashKind::Staged => vec!["stash", "push", "--staged"],
    };
    match message {
        Some(m) => {
            if !is_blank(m) {
                args.push("-m");
                args.push(m);
            }
        },
        None => {},
    }
    assert(str_views(args@) =~= stash_args(kind, str_opt(message)));
    GitCommand::write(&repo.root, args)
}

/// The branch and the message in a stash's subject.
pub open spec fn subject_parts(subject: Seq<char>) -> Option<(Seq<char>, Seq<char>)> {
    match strip_prefix(subject, "On "@) {
        Some(rest) => split_once_sub(rest, ": "@),
        None => match strip_prefix(subject, "WIP on "@) {
            Some(rest) => split_once_sub(rest, ": "@),
            None => None,
        },
    }
}

/// Splits a stash subject into its branch and message: `On main: fix` is (`main`, `fix`),
/// `WIP on main: 1a2b3c4 subject` is (`main`, `1a2b3c4 subject`).
pub fn stash_subject_parts<'a>(subject: &'a str) -> (r: Option<(&'a str, &'a str)>)
    ensures
        match r {
            Some((branch, message)) => subject_parts(subject@) == Some((branch@, message@)),
            None => subject_parts(subject@) is None,
        },
{
    let chars = chars_of(subject);
    let n: usize = chars.len();
    let rest = match after_text(chars.as_slice(), "On ") {
        Some(rest) => rest,
        None => match after_text(chars.as_slice(), "WIP on ") {
            Some(rest) => rest,
            None => return None,
        },
    };
    let colon = chars_of(": ");
    let start: usize = n - rest.len();
    assert(rest@ =~= subject@.skip(start as int));
    match find_sub(rest, colon.as_slice()) {
        Some(i) => {
            let branch = subject.substring_char(start, start + i);
            let message = subject.substring_char(start + i + colon.len(), n);
            assert(branch@ =~= rest@.take(i as int));
            assert(message@ =~= rest@.skip(i + colon@.len()));
            Some((branch, message))
        },
        None => None,
    }
}

/// How git names a stash.
pub open spec fn stash_selector(index: nat) -> Seq<char> {
    "stash@{"@ + decimal(index) + "}"@
}

/// How git names a stash.
pub fn selector(index: usize) -> (r: String)
    ensures
        r@ == stash_selector(index as nat),
{
    let number = decimal_string(index as u64);
    cat3("stash@{", number.as_str(), "}")
}

/// `git stash branch`: a new branch at the commit the stash was made on, with the stash
/// applied (and dropped if that worked).
pub fn stash_branch(repo: &RepoLocation, index: usize, name: &str) -> (r: GitCommand)
    ensures
        r@ == write_command(
            repo@.root,
            seq!["stash"@, "branch"@, name@, stash_selector(index as nat)],
        ),
{
    let s = selector(index);
    let args = vec!["stash", "branch", name, s.as_str()];
    assert(str_views(args@) =~= seq!["stash"@, "branch"@, name@, stash_selector(index as nat)]);
    GitCommand::write(&repo.root, args)
}

pub fn stash_apply(repo: &RepoLocation, index: usize) -> (r: GitCommand)
    ensures
        r@ == write_command(repo@.root, seq!["stash"@, "apply"@, stash_selector(index as nat)]),
{
    let s = selector(index);
    let args = vec!["stash", "apply", s.as_str()];
    assert(str_views(args@) =~= seq!["stash"@, "apply"@, stash_selector(index as nat)]);
    GitCommand::write(&repo.root, args)
}

pub fn stash_pop(repo: &RepoLocation, index: usize) -> (r: GitCommand)
    ensures
        r@ == write_command(repo@.root, seq!["stash"@, "pop"@, stash_selector(index as nat)]),
{
    let s = selector(index);
    let args = vec!["stash", "pop", s.as_str()];
    assert(str_views(args@) =~= seq!["stash"@, "pop"@, stash_selector(index as nat)]);
    GitCommand::write(&repo.root, args)
}

pub fn stash_drop(repo: &RepoLocation, index: usize) -> (r: GitCommand)
    ensures
        r@ == write_command(repo@.root, seq!["stash"@, "drop"@, stash_selector(index as nat)]),
{
    let s = selector(index);
    let args = vec!["stash", "drop", s.as_str()];
    assert(str_views(args@) =~= seq!["stash"@, "drop"@, stash_selector(index as nat)]);
    GitCommand::write(&repo.root, args)
}

pub fn checkout(repo: &RepoLocation, branch: &str) -> (r: GitCommand)
    ensures
        r@ == write_command(repo@.root, seq!["checkout"@, branch@]),
{
    let args = vec!["checkout", branch];
    assert(str_views(args@) =~= seq!["checkout"@, branch@]);
    GitCommand::write(&repo.root, args)
}

pub fn checkout_previous(repo: &RepoLocation) -> (r: GitCommand)
    ensures
        r@ == write_command(repo@.root, seq!["checkout"@, "-"@]),
{
    checkout(repo, "-")
}

/// Checks out a remote branch as a local tracking branch.
pub fn checkout_remote(repo: &RepoLocation, remote_branch: &RemoteBranch) -> (r: GitCommand)
    ensures
        r@ == write_command(
            repo@.root,
            seq![
                "checkout"@,
                "--track"@,
                remote_branch@.remote + "/"@ + remote_branch@.name,
            ],
        ),
{
    let full = cat3(remote_branch.remote.as_str(), "/", remote_branch.name.as_str());
    let args = vec!["checkout", "--track", full.as_str()];
    assert(str_views(args@) =~= seq![
        "checkout"@,
        "--track"@,
        remote_branch@.remote + "/"@ + remote_branch@.name,
    ]);
    GitCommand::write(&repo.root, args)
}

/// Whether git failed and said `text`.
pub open spec fn failed_saying(error: ErrorView, text: &str) -> bool {
    error matches ErrorView::Failed { stderr, .. } && has_sub(stderr, text@)
}

/// Whether git failed and said `text`.
fn says(err: &GitError, text: &str) -> (r: bool)
    ensures
        r == failed_saying(err@, text),
{
    match err {
        GitError::Failed { command: _, code: _, stderr, stdout: _ } => str_contains(
            stderr.as_str(),
            text,
        ),
        _ => false,
    }
}

/// What to run after [`checkout_remote`]: the local branch itself, if it exists already.
pub fn checkout_remote_next(
    repo: &RepoLocation,
    remote_branch: &RemoteBranch,
    reply: &Result<GitOutput, GitError>,
) -> (r: Option<GitCommand>)
    ensures
        match r {
            Some(cmd) => reply matches Err(e) && failed_saying(e@, "already exists") && cmd@
                == write_command(repo@.root, seq!["checkout"@, remote_branch@.name]),
            None => !(reply matches Err(e) && failed_saying(e@, "already exists")),
        },
{
    match reply {
        Err(e) => {
            if says(e, "already exists") {
                Some(checkout(repo, remote_branch.name.as_str()))
            } else {
                None
            }
        },
        Ok(_) => None,
    }
}

pub fn new_branch(repo: &RepoLocation, name: &str, start: Option<&str>) -> (r: GitCommand)
    ensures
        r@ == write_command(
            repo@.root,
            seq!["checkout"@, "-b"@, name@] + (match start {
                Some(s) => seq![s@],
                None => Seq::empty(),
            }),
        ),
{
    let mut args = vec!["checkout", "-b", name];
    match start {
        Some(s) => args.push(s),
        None => {},
    }
    assert(str_views(args@) =~= seq!["checkout"@, "-b"@, name@] + (match start {
        Some(s) => seq![s@],
        None => Seq::empty(),
    }));
    GitCommand::write(&repo.root, args)
}

pub fn delete_branch(repo: &RepoLocation, name: &str, force: bool) -> (r: GitCommand)
    ensures
        r@ == write_command(
            repo@.root,
            seq![
                "branch"@,
                if force {
                    "-D"@
                } else {
                    "-d"@
                },
                name@,
            ],
        ),
{
    let flag = if force {
        "-D"
    } else {
        "-d"
    };
    let args = vec!["branch", flag, name];
    assert(str_views(args@) =~= seq![
        "branch"@,
        if force {
            "-D"@
        } else {
            "-d"@
        },
        name@,
    ]);
    GitCommand::write(&repo.root, args)
}

/// Whether git refused to delete a branch because it isn't merged.
pub fn is_not_fully_merged(err: &GitError) -> (r: bool)
    ensures
        r == failed_saying(err@, "not fully merged"),
{
    says(err, "not fully merged")
}

/// The arguments that move a branch to its upstream.
pub open spec fn fast_forward_args(branch: BranchView, upstream: Seq<char>) -> Seq<Seq<char>> {
    if branch.is_head {
        seq!["merge"@, "--ff-only"@, upstream]
    } else {
        seq![
            "fetch"@,
            "."@,
            "refs/remotes/"@ + upstream + ":refs/heads/"@ + branch.name,
        ]
    }
}

/// Fast-forwards `branch` to its (already fetched) upstream without network access.
pub fn fast_forward(repo: &RepoLocation, branch: &Branch) -> (r: Result<GitCommand, GitError>)
    ensures
        match (branch@.upstream, r) {
            (UpstreamView::Tracking { name, .. }, Ok(cmd)) => cmd@ == write_command(
                repo@.root,
                fast_forward_args(branch@, name),
            ),
            (UpstreamView::Tracking { .. }, Err(_)) => false,
            (_, Ok(_)) => false,
            (_, Err(e)) => e@ == (ErrorView::Failed {
                command: "fast-forward"@,
                code: None,
                stderr: branch@.name + " has no upstream"@,
                stdout: Seq::empty(),
            }),
        },
{
    match &branch.upstream {
        Upstream::Tracking { name, ahead: _, behind: _ } => {
            if branch.is_head {
                let args = vec!["merge", "--ff-only", name.as_str()];
                assert(str_views(args@) =~= fast_forward_args(branch@, name@));
                Ok(GitCommand::write(&repo.root, args))
            } else {
                let refspec = cat4("refs/remotes/", name.as_str(), ":refs/heads/", branch.name.as_str());
                let args = vec!["fetch", ".", refspec.as_str()];
                assert(str_views(args@) =~= fast_forward_args(branch@, name@));
                Ok(GitCommand::write(&repo.root, args))
            }
        },
        _ => {
            let stdout = String::new();
            assert(stdout@ =~= Seq::<char>::empty());
            Err(
                GitError::Failed {
                    command: "fast-forward".to_owned(),
                    code: None,
                    stderr: cat2(branch.name.as_str(), " has no upstream"),
                    stdout,
                },
            )
        },
    }
}

pub fn set_upstream(repo: &RepoLocation, branch: &str, upstream: &str) -> (r: GitCommand)
    ensures
        r@ == write_command(
            repo@.root,
            seq!["branch"@, "--set-upstream-to="@ + upstream@, branch@],
        ),
{
    let flag = cat2("--set-upstream-to=", upstream);
    let args = vec!["branch", flag.as_str(), branch];
    assert(str_views(args@) =~= seq!["branch"@, "--set-upstream-to="@ + upstream@, branch@]);
    GitCommand::write(&repo.root, args)
}

pub fn fetch(repo: &RepoLocation) -> (r: GitCommand)
    ensures
        r@ == network_command(
            repo@.root,
            seq![
                "fetch"@,
                "--all"@,
                "--quiet"@,
                "--no-auto-maintenance"@,
                "--recurse-submodules=no"@,
            ],
        ),
{
    let args = vec!["fetch", "--all", "--quiet", "--no-auto-maintenance", "--recurse-submodules=no"];
    assert(str_views(args@) =~= seq![
        "fetch"@,
        "--all"@,
        "--quiet"@,
        "--no-auto-maintenance"@,
        "--recurse-submodules=no"@,
    ]);
    GitCommand::network(&repo.root, args)
}

pub fn pull(repo: &RepoLocation) -> (r: GitCommand)
    ensures
        r@ == network_command(
            repo@.root,
            seq!["pull"@, "--no-edit"@, "--recurse-submodules=no"@],
        ),
{
    let args = vec!["pull", "--no-edit", "--recurse-submodules=no"];
    assert(str_views(args@) =~= seq!["pull"@, "--no-edit"@, "--recurse-submodules=no"@]);
    GitCommand::network(&repo.root, args)
}

/// The arguments of a push.
pub open spec fn push_args(has_upstream: bool, remote: Option<Seq<char>>, force: bool) -> Seq<Seq<char>> {
    seq!["push"@] + (if force {
        seq!["--force-with-lease"@]
    } else {
        Seq::empty()
    }) + (if has_upstream {
        Seq::empty()
    } else {
        seq![
            "--set-upstream"@,
            match remote {
                Some(r) => r,
                None => "origin"@,
            },
            "HEAD"@,
        ]
    })
}

/// Pushes the current branch; without an upstream, pushes to `remote` and sets it.
pub fn push(repo: &RepoLocation, has_upstream: bool, remote: Option<&str>, force: bool) -> (r: GitCommand)
    ensures
        r@ == network_command(repo@.root, push_args(has_upstream, str_opt(remote), force)),
{
    let mut args = vec!["push"];
    if force {
        args.push("--force-with-lease");
    }
    if !has_upstream {
        args.push("--set-upstream");
        args.push(
            match remote {
                Some(r) => r,
                None => "origin",
            },
        );
        args.push("HEAD");
    }
    assert(str_views(args@) =~= push_args(has_upstream, str_opt(remote), force));
    GitCommand::network(&repo.root, args)
}

/// A push never forces unless asked to, and then only with a lease.
pub proof fn law_push_forces_only_when_asked(has_upstream: bool, remote: Option<Seq<char>>, i: int)
    requires
        0 <= i < push_args(has_upstream, remote, false).len(),
        remote matches Some(r) ==> r != "--force"@ && r != "--force-with-lease"@,
    ensures
        push_args(has_upstream, remote, false)[i] != "--force"@,
        push_args(has_upstream, remote, false)[i] != "--force-with-lease"@,
        push_args(has_upstream, remote, true)[1] == "--force-with-lease"@,
{
    reveal_strlit("push");
    reveal_strlit("--force");
    reveal_strlit("--force-with-lease");
    reveal_strlit("--set-upstream");
    reveal_strlit("origin");
    reveal_strlit("HEAD");
    assert("push"@.len() == 4);
    assert("--force"@.len() == 7);
    assert("--force-with-lease"@.len() == 18);
    assert("--set-upstream"@.len() == 14);
    assert("origin"@.len() == 6);
    assert("HEAD"@.len() == 4);
}

/// Whether the remote has commits that a push would lose.
pub fn is_push_rejected(err: &GitError) -> (r: bool)
    ensures
        r == (failed_saying(err@, "[rejected]") || failed_saying(err@, "non-fast-forward")
            || failed_saying(err@, "fetch first")),
{
    says(err, "[rejected]") || says(err, "non-fast-forward") || says(err, "fetch first")
}

/// Fast-forwards the checked-out branch to its upstream (used by "update all").
pub fn fast_forward_head(repo: &RepoLocation) -> (r: GitCommand)
    ensures
        r@ == write_command(repo@.root, seq!["merge"@, "--ff-only"@, "@{upstream}"@]),
{
    let args = vec!["merge", "--ff-only", "@{upstream}"];
    assert(str_views(args@) =~= seq!["merge"@, "--ff-only"@, "@{upstream}"@]);
    GitCommand::write(&repo.root, args)
}

/// A character that a branch name can't have.
pub open spec fn bad_name_char(c: char) -> bool {
    is_space(c) || is_control_char(c) || c == '~' || c == '^' || c == ':' || c == '?' || c == '*' || c
        == '[' || c == '\\'
}

/// What a branch name has to look like.
pub open spec fn valid_branch_name(name: Seq<char>) -> bool {
    &&& name.len() > 0
    &&& name[0] != '-' && name[0] != '/' && name[0] != '.'
    &&& name.last() != '/' && name.last() != '.'
    &&& !".lock"@.is_suffix_of(name)
    &&& !has_sub(name, ".."@)
    &&& !has_sub(name, "@{"@)
    &&& forall|i: int| 0 <= i < name.len() ==> !bad_name_char(#[trigger] name[i])
}

/// Whether a name has a character that it can't have.
fn has_bad_char(name: &[char]) -> (r: bool)
    ensures
        r == (exists|i: int| 0 <= i < name@.len() && bad_name_char(#[trigger] name@[i])),
{
    let mut i: usize = 0;
    while i < name.len()
        invariant
            i <= name@.len(),
            forall|j: int| 0 <= j < i ==> !bad_name_char(#[trigger] name@[j]),
        decreases name@.len() - i,
    {
        let c: char = name[i];
        if is_white_space(c) || is_control(c) || c == '~' || c == '^' || c == ':' || c == '?' || c == '*'
            || c == '[' || c == '\\' {
            assert(bad_name_char(name@[i as int]));
            return true;
        }
        i = i + 1;
    }
    false
}

/// Loose check for a branch name the user typed; git has the final say. Mainly keeps a
/// name from being read as an option or a revision expression.
pub fn is_valid_branch_name(name: &str) -> (r: bool)
    ensures
        r == valid_branch_name(name@),
{
    let chars = chars_of(name);
    let n: usize = chars.len();
    if n == 0 {
        return false;
    }
    let first: char = chars[0];
    let last: char = chars[n - 1];
    first != '-' && first != '/' && first != '.' && last != '/' && last != '.' && !chars_end_with(
        chars.as_slice(),
        ".lock",
    ) && !str_contains(name, "..") && !str_contains(name, "@{") && !has_bad_char(chars.as_slice())
}

/// A valid name can't be taken for an option, and has no white space to split it.
pub proof fn law_valid_name_is_one_plain_word(name: Seq<char>)
    requires
        valid_branch_name(name),
    ensures
        !"-"@.is_prefix_of(name),
        forall|i: int| 0 <= i < name.len() ==> !is_space(#[trigger] name[i]),
{
    reveal_strlit("-");
    assert forall|i: int| 0 <= i < name.len() implies !is_space(#[trigger] name[i]) by {
        assert(!bad_name_char(name[i]));
    }
    assert("-"@[0] == '-');
}

/// Where renaming a stash stands. Git can't edit a stash message in place, so this drops
/// the entry and stores the same commit again with the new message; the stash moves to the
/// top.
#[derive(Debug, PartialEq, Eq)]
pub enum RenameStage {
    /// Asking for the stash's commit.
    Resolve,
    /// Dropping the stash whose commit is `oid`.
    Drop { oid: String },
    /// Storing the commit again.
    Store { oid: String },
}

/// What to do next.
#[derive(Debug, PartialEq, Eq)]
pub enum RenameStep {
    Run { cmd: GitCommand, stage: RenameStage },
    Done { output: GitOutput },
    Failed { error: GitError },
}

#[verifier::ext_equal]
pub ghost enum RenameStageView {
    Resolve,
    Drop { oid: Seq<char> },
    Store { oid: Seq<char> },
}

#[verifier::ext_equal]
pub ghost enum RenameStepView {
    Run { cmd: CommandView, stage: RenameStageView },
    Done { output: OutputView },
    Failed { error: ErrorView },
}

impl View for RenameStage {
    type V = RenameStageView;

    open spec fn view(&self) -> RenameStageView {
        match self {
            RenameStage::Resolve => RenameStageView::Resolve,
            RenameStage::Drop { oid } => RenameStageView::Drop { oid: oid@ },
            RenameStage::Store { oid } => RenameStageView::Store { oid: oid@ },
        }
    }
}

impl View for RenameStep {
    type V = RenameStepView;

    open spec fn view(&self) -> RenameStepView {
        match self {
            RenameStep::Run { cmd, stage } => RenameStepView::Run { cmd: cmd@, stage: stage@ },
            RenameStep::Done { output } => RenameStepView::Done { output: output@ },
            RenameStep::Failed { error } => RenameStepView::Failed { error: error@ },
        }
    }
}

/// The subject of a renamed stash: git's `On <branch>: ` prefix stays, so that it reads
/// like any other stash.
pub open spec fn renamed_subject(stash: StashView, message: Seq<char>) -> Seq<char> {
    match subject_parts(stash.subject) {
        Some((branch, _)) => "On "@ + branch + ": "@ + message,
        None => message,
    }
}

/// The error when a dropped stash couldn't be stored again: its commit still exists, so it
/// says how to get it back.
pub open spec fn store_error(error: ErrorView, message: Seq<char>, oid: Seq<char>) -> ErrorView {
    match error {
        ErrorView::Failed { command, code, stderr, stdout } => ErrorView::Failed {
            command,
            code,
            stderr: stderr
                + "\nThe stash was dropped but its commit is kept. Restore it with:\n  git stash store -m '"@
                + message + "' "@ + oid,
            stdout,
        },
        other => other,
    }
}

/// The command that a stage waits for.
pub open spec fn rename_command(
    cwd: Seq<u8>,
    stash: StashView,
    message: Seq<char>,
    stage: RenameStageView,
) -> CommandView {
    match stage {
        RenameStageView::Resolve => read_command(cwd, seq!["rev-parse"@, stash_selector(stash.index)]),
        RenameStageView::Drop { .. } => write_command(
            cwd,
            seq!["stash"@, "drop"@, "--quiet"@, stash_selector(stash.index)],
        ),
        RenameStageView::Store { oid } => write_command(
            cwd,
            seq!["stash"@, "store"@, "-m"@, renamed_subject(stash, message), oid],
        ),
    }
}

/// What follows on a command's reply.
pub open spec fn rename_next(
    cwd: Seq<u8>,
    stash: StashView,
    message: Seq<char>,
    stage: RenameStageView,
    reply: Result<OutputView, ErrorView>,
) -> RenameStepView {
    match (stage, reply) {
        (RenameStageView::Resolve, Ok(out)) => {
            let next = RenameStageView::Drop { oid: trim(out.text()) };
            RenameStepView::Run { cmd: rename_command(cwd, stash, message, next), stage: next }
        },
        (RenameStageView::Drop { oid }, Ok(_)) => {
            let next = RenameStageView::Store { oid };
            RenameStepView::Run { cmd: rename_command(cwd, stash, message, next), stage: next }
        },
        (RenameStageView::Store { oid }, Ok(output)) => RenameStepView::Done { output },
        (RenameStageView::Store { oid }, Err(error)) => RenameStepView::Failed {
            error: store_error(error, renamed_subject(stash, message), oid),
        },
        (_, Err(error)) => RenameStepView::Failed { error },
    }
}

/// The subject of a renamed stash.
fn new_subject(stash: &StashEntry, message: &str) -> (r: String)
    ensures
        r@ == renamed_subject(stash@, message@),
{
    match stash_subject_parts(stash.subject.as_str()) {
        Some((branch, _)) => cat4("On ", branch, ": ", message),
        None => message.to_owned(),
    }
}

/// The first step of renaming a stash.
pub fn stash_rename(repo: &RepoLocation, stash: &StashEntry) -> (r: RenameStep)
    ensures
        r@ == (RenameStepView::Run {
            cmd: rename_command(repo@.root, stash@, Seq::empty(), RenameStageView::Resolve),
            stage: RenameStageView::Resolve,
        }),
{
    let s = selector(stash.index);
    let args = vec!["rev-parse", s.as_str()];
    assert(str_views(args@) =~= seq!["rev-parse"@, stash_selector(stash@.index)]);
    RenameStep::Run { cmd: GitCommand::read(&repo.root, args), stage: RenameStage::Resolve }
}

/// The next step of renaming a stash, on a command's reply.
pub fn stash_rename_next(
    repo: &RepoLocation,
    stash: &StashEntry,
    message: &str,
    stage: RenameStage,
    reply: Result<GitOutput, GitError>,
) -> (r: RenameStep)
    ensures
        r@ == rename_next(repo@.root, stash@, message@, stage@, reply_view(reply)),
{
    match reply {
        Ok(out) => match stage {
            RenameStage::Resolve => {
                let text = out.stdout_str();
                let oid = trimmed_text(text.as_str());
                let s = selector(stash.index);
                let args = vec!["stash", "drop", "--quiet", s.as_str()];
                assert(str_views(args@) =~= seq![
                    "stash"@,
                    "drop"@,
                    "--quiet"@,
                    stash_selector(stash@.index),
                ]);
                RenameStep::Run {
                    cmd: GitCommand::write(&repo.root, args),
                    stage: RenameStage::Drop { oid },
                }
            },
            RenameStage::Drop { oid } => {
                let subject = new_subject(stash, message);
                let args = vec!["stash", "store", "-m", subject.as_str(), oid.as_str()];
                assert(str_views(args@) =~= seq!["stash"@, "store"@, "-m"@, subject@, oid@]);
                RenameStep::Run {
                    cmd: GitCommand::write(&repo.root, args),
                    stage: RenameStage::Store { oid },
                }
            },
            RenameStage::Store { oid: _ } => RenameStep::Done { output: out },
        },
        Err(error) => match stage {
            RenameStage::Store { oid } => {
                let subject = new_subject(stash, message);
                match error {
                    GitError::Failed { command, code, stderr, stdout } => {
                        let mut text = stderr;
                        text.push_str(
                            "\nThe stash was dropped but its commit is kept. Restore it with:\n  git stash store -m '",
                        );
                        text.push_str(subject.as_str());
                        text.push_str("' ");
                        text.push_str(oid.as_str());
                        RenameStep::Failed {
                            error: GitError::Failed { command, code, stderr: text, stdout },
                        }
                    },
                    other => RenameStep::Failed { error: other },
                }
            },
            _ => RenameStep::Failed { error },
        },
    }
}

/// A stash is dropped only once its commit is known, and what is stored again is that
/// commit.
pub proof fn law_renaming_stores_the_dropped_commit(
    cwd: Seq<u8>,
    stash: StashView,
    message: Seq<char>,
    resolved: OutputView,
    dropped: OutputView,
)
    ensures
        ({
            let oid = trim(resolved.text());
            let drop = rename_next(cwd, stash, message, RenameStageView::Resolve, Ok(resolved));
            &&& drop matches RenameStepView::Run { cmd, stage } && stage == (RenameStageView::Drop { oid })
                && cmd.args == seq!["stash"@, "drop"@, "--quiet"@, stash_selector(stash.index)]
            &&& rename_next(
                cwd,
                stash,
                message,
                RenameStageView::Drop { oid },
                Ok(dropped),
            ) matches RenameStepView::Run { cmd, stage } && stage == (RenameStageView::Store { oid })
                && cmd.args == seq![
                "stash"@,
                "store"@,
                "-m"@,
                renamed_subject(stash, message),
                oid,
            ]
        }),
{
}

/// What [`switch_branch`] did.
#[derive(Debug, PartialEq, Eq)]
pub enum Switched {
    /// Checked out the existing local branch.
    Local,
    /// Created the local branch, tracking this remote branch (e.g. `origin/feat`).
    Tracking(String),
    /// No local or remote branch has that name; nothing changed.
    Missing,
}

#[verifier::ext_equal]
pub ghost enum SwitchedView {
    Local,
    Tracking(Seq<char>),
    Missing,
}

impl View for Switched {
    type V = SwitchedView;

    open spec fn view(&self) -> SwitchedView {
        match self {
            Switched::Local => SwitchedView::Local,
            Switched::Tracking(start) => SwitchedView::Tracking(start@),
            Switched::Missing => SwitchedView::Missing,
        }
    }
}

/// The view of an optional switch.
pub open spec fn switched_opt(s: Option<Switched>) -> Option<SwitchedView> {
    match s {
        Some(s) => Some(s@),
        None => None,
    }
}

/// The remotes with the primary one first.
pub open spec fn ordered_remotes(remotes: Seq<Seq<char>>) -> Seq<Seq<char>> {
    match main_remote(remotes, None) {
        Some(primary) => seq![primary] + without(remotes, primary),
        None => remotes,
    }
}

/// The names other than `name`.
pub open spec fn without(names: Seq<Seq<char>>, name: Seq<char>) -> Seq<Seq<char>>
    decreases names.len(),
{
    if names.len() == 0 {
        Seq::empty()
    } else if names.last() == name {
        without(names.drop_last(), name)
    } else {
        without(names.drop_last(), name).push(names.last())
    }
}

/// The full name of a remote's branch.
pub open spec fn remote_ref(remote: Seq<char>, name: Seq<char>) -> Seq<char> {
    "refs/remotes/"@ + remote + "/"@ + name
}

/// The full names of a branch on some remotes.
pub open spec fn remote_refs(remotes: Seq<Seq<char>>, name: Seq<char>) -> Seq<Seq<char>> {
    remotes.map_values(|r: Seq<char>| remote_ref(r, name))
}

/// The command that lists which branches of that name exist.
pub open spec fn list_branches(cwd: Seq<u8>, name: Seq<char>, remotes: Seq<Seq<char>>) -> CommandView {
    read_command(
        cwd,
        seq!["for-each-ref"@, "--format=%(refname)"@, "refs/heads/"@ + name] + remote_refs(
            ordered_remotes(remotes),
            name,
        ),
    )
}

/// The remotes with the primary one first.
fn order_remotes(remotes: &[String]) -> (r: Vec<String>)
    ensures
        texts(r@) == ordered_remotes(texts(remotes@)),
{
    let ghost all = texts(remotes@);
    let mut out: Vec<String> = Vec::new();
    let primary = primary_remote(remotes, None);
    match primary {
        Some(p) => out.push(p.to_owned()),
        None => {},
    }
    let ghost start = texts(out@);
    assert(start =~= match main_remote(all, None) {
        Some(p) => seq![p],
        None => Seq::empty(),
    });
    let mut i: usize = 0;
    assert(all.take(0) =~= Seq::<Seq<char>>::empty());
    while i < remotes.len()
        invariant
            i <= remotes@.len(),
            all == texts(remotes@),
            str_opt(primary) == main_remote(all, None),
            texts(out@) == start + (match primary {
                Some(p) => without(all.take(i as int), p@),
                None => all.take(i as int),
            }),
        decreases remotes@.len() - i,
    {
        let ghost next = all.take(i + 1);
        assert(next.drop_last() =~= all.take(i as int));
        assert(next.last() == remotes@[i as int]@);
        let skip = match primary {
            Some(p) => same_str(remotes[i].as_str(), p),
            None => false,
        };
        if !skip {
            push_string(&mut out, remotes[i].clone());
        }
        assert(texts(out@) =~= start + (match primary {
            Some(p) => without(next, p@),
            None => next,
        }));
        i = i + 1;
    }
    assert(all.take(all.len() as int) =~= all);
    assert(texts(out@) =~= ordered_remotes(all));
    out
}

/// Where switching to a branch stands.
#[derive(Debug, PartialEq, Eq)]
pub enum SwitchStage {
    /// Asking which branches of that name exist.
    List,
    /// Switching to the local branch.
    Local,
    /// Creating a local branch that tracks `start`.
    Tracking { start: String },
}

/// What to do next.
#[derive(Debug, PartialEq, Eq)]
pub enum SwitchStep {
    Run { cmd: GitCommand, stage: SwitchStage },
    Done { switched: Switched },
    Failed { error: GitError },
}

#[verifier::ext_equal]
pub ghost enum SwitchStageView {
    List,
    Local,
    Tracking { start: Seq<char> },
}

#[verifier::ext_equal]
pub ghost enum SwitchStepView {
    Run { cmd: CommandView, stage: SwitchStageView },
    Done { switched: SwitchedView },
    Failed { error: ErrorView },
}

impl View for SwitchStage {
    type V = SwitchStageView;

    open spec fn view(&self) -> SwitchStageView {
        match self {
            SwitchStage::List => SwitchStageView::List,
            SwitchStage::Local => SwitchStageView::Local,
            SwitchStage::Tracking { start } => SwitchStageView::Tracking { start: start@ },
        }
    }
}

impl View for SwitchStep {
    type V = SwitchStepView;

    open spec fn view(&self) -> SwitchStepView {
        match self {
            SwitchStep::Run { cmd, stage } => SwitchStepView::Run { cmd: cmd@, stage: stage@ },
            SwitchStep::Done { switched } => SwitchStepView::Done { switched: switched@ },
            SwitchStep::Failed { error } => SwitchStepView::Failed { error: error@ },
        }
    }
}

/// The first of the remotes that has the branch, if a listing of refs has it.
pub open spec fn first_remote_with(
    remotes: Seq<Seq<char>>,
    name: Seq<char>,
    listed: Seq<Seq<char>>,
) -> Option<Seq<char>>
    decreases remotes.len(),
{
    if remotes.len() == 0 {
        None
    } else if listed.contains(remote_ref(remotes[0], name)) {
        Some(remotes[0])
    } else {
        first_remote_with(remotes.drop_first(), name, listed)
    }
}

/// What follows once it is known which refs exist: the local branch if there is one,
/// otherwise a new local branch tracking the first remote's. `git switch` only accepts
/// branches, so a name can never be taken for a path.
pub open spec fn switch_to(
    cwd: Seq<u8>,
    name: Seq<char>,
    remotes: Seq<Seq<char>>,
    listed: Seq<Seq<char>>,
) -> SwitchStepView {
    if listed.contains("refs/heads/"@ + name) {
        SwitchStepView::Run {
            cmd: write_command(cwd, seq!["switch"@, name]),
            stage: SwitchStageView::Local,
        }
    } else {
        match first_remote_with(ordered_remotes(remotes), name, listed) {
            Some(remote) => {
                let start = remote + "/"@ + name;
                SwitchStepView::Run {
                    cmd: write_command(cwd, seq!["switch"@, "--track"@, "-c"@, name, start]),
                    stage: SwitchStageView::Tracking { start },
                }
            },
            None => SwitchStepView::Done { switched: SwitchedView::Missing },
        }
    }
}

/// What follows on a command's reply.
pub open spec fn switch_next(
    cwd: Seq<u8>,
    name: Seq<char>,
    remotes: Seq<Seq<char>>,
    stage: SwitchStageView,
    reply: Result<OutputView, ErrorView>,
) -> SwitchStepView {
    match (stage, reply) {
        (_, Err(error)) => SwitchStepView::Failed { error },
        (SwitchStageView::List, Ok(out)) => switch_to(cwd, name, remotes, lines(out.text())),
        (SwitchStageView::Local, Ok(_)) => SwitchStepView::Done { switched: SwitchedView::Local },
        (SwitchStageView::Tracking { start }, Ok(_)) => SwitchStepView::Done {
            switched: SwitchedView::Tracking(start),
        },
    }
}

/// The first step of switching to branch `name`.
pub fn switch_branch(repo: &RepoLocation, name: &str, remotes: &[String]) -> (r: SwitchStep)
    ensures
        r@ == (SwitchStepView::Run {
            cmd: list_branches(repo@.root, name@, texts(remotes@)),
            stage: SwitchStageView::List,
        }),
{
    let ordered = order_remotes(remotes);
    let ghost order = texts(ordered@);
    let mut args = strings(vec!["for-each-ref", "--format=%(refname)"]);
    push_string(&mut args, cat2("refs/heads/", name));
    let ghost start = texts(args@);
    assert(start =~= seq!["for-each-ref"@, "--format=%(refname)"@, "refs/heads/"@ + name@]);
    let mut i: usize = 0;
    while i < ordered.len()
        invariant
            i <= ordered@.len(),
            order == texts(ordered@),
            texts(args@) == start + remote_refs(order.take(i as int), name@),
        decreases ordered@.len() - i,
    {
        push_string(&mut args, cat4("refs/remotes/", ordered[i].as_str(), "/", name));
        assert(texts(args@) =~= start + remote_refs(order.take(i + 1), name@));
        i = i + 1;
    }
    assert(order.take(order.len() as int) =~= order);
    SwitchStep::Run {
        cmd: GitCommand::new(&repo.root, CmdKind::Read, args),
        stage: SwitchStage::List,
    }
}

/// Whether a text has that line.
fn has_line(all: &Vec<&[char]>, line: &str) -> (r: bool)
    ensures
        r == views(all@).contains(line@),
{
    let mut i: usize = 0;
    while i < all.len()
        invariant
            i <= all@.len(),
            forall|j: int| 0 <= j < i ==> views(all@)[j] != line@,
        decreases all@.len() - i,
    {
        if is_text(all[i], line) {
            assert(views(all@)[i as int] == line@);
            return true;
        }
        i = i + 1;
    }
    false
}

/// Decides what to switch to.
fn choose_switch(repo: &RepoLocation, name: &str, remotes: &[String], out: &str) -> (r: SwitchStep)
    ensures
        r@ == switch_to(repo@.root, name@, texts(remotes@), lines(out@)),
{
    let chars = chars_of(out);
    let all = split_lines(chars.as_slice());
    let ghost listed = views(all@);
    // A pattern also matches refs below it (`feat` matches `feat/x`), so compare exactly.
    let local = cat2("refs/heads/", name);
    if has_line(&all, local.as_str()) {
        let args = vec!["switch", name];
        assert(str_views(args@) =~= seq!["switch"@, name@]);
        return SwitchStep::Run {
            cmd: GitCommand::write(&repo.root, args),
            stage: SwitchStage::Local,
        };
    }
    let ordered = order_remotes(remotes);
    let ghost order = texts(ordered@);
    let mut i: usize = 0;
    assert(order.skip(0) =~= order);
    while i < ordered.len()
        invariant
            i <= ordered@.len(),
            order == texts(ordered@),
            listed == views(all@),
            listed == lines(out@),
            order == ordered_remotes(texts(remotes@)),
            !listed.contains("refs/heads/"@ + name@),
            first_remote_with(order.skip(i as int), name@, listed) == first_remote_with(
                order,
                name@,
                listed,
            ),
        decreases ordered@.len() - i,
    {
        assert(order.skip(i as int)[0] == ordered@[i as int]@);
        assert(order.skip(i as int).drop_first() =~= order.skip(i + 1));
        let full = cat4("refs/remotes/", ordered[i].as_str(), "/", name);
        if has_line(&all, full.as_str()) {
            let start = cat3(ordered[i].as_str(), "/", name);
            let args = vec!["switch", "--track", "-c", name, start.as_str()];
            assert(str_views(args@) =~= seq!["switch"@, "--track"@, "-c"@, name@, start@]);
            return SwitchStep::Run {
                cmd: GitCommand::write(&repo.root, args),
                stage: SwitchStage::Tracking { start },
            };
        }
        i = i + 1;
    }
    SwitchStep::Done { switched: Switched::Missing }
}

/// The next step of switching to branch `name`, on a command's reply.
pub fn switch_branch_next(
    repo: &RepoLocation,
    name: &str,
    remotes: &[String],
    stage: SwitchStage,
    reply: Result<GitOutput, GitError>,
) -> (r: SwitchStep)
    ensures
        r@ == switch_next(repo@.root, name@, texts(remotes@), stage@, reply_view(reply)),
{
    match reply {
        Err(error) => SwitchStep::Failed { error },
        Ok(out) => match stage {
            SwitchStage::List => {
                let text = out.stdout_str();
                choose_switch(repo, name, remotes, text.as_str())
            },
            SwitchStage::Local => SwitchStep::Done { switched: Switched::Local },
            SwitchStage::Tracking { start } => SwitchStep::Done {
                switched: Switched::Tracking(start),
            },
        },
    }
}

/// A branch that exists nowhere changes nothing: no command that writes is run.
pub proof fn law_missing_branch_changes_nothing(
    cwd: Seq<u8>,
    name: Seq<char>,
    remotes: Seq<Seq<char>>,
    listed: Seq<Seq<char>>,
)
    requires
        !listed.contains("refs/heads/"@ + name),
        forall|i: int|
            0 <= i < ordered_remotes(remotes).len() ==> !listed.contains(
                remote_ref(#[trigger] ordered_remotes(remotes)[i], name),
            ),
    ensures
        switch_to(cwd, name, remotes, listed) == (SwitchStepView::Done {
            switched: SwitchedView::Missing,
        }),
        list_branches(cwd, name, remotes).kind == CmdKind::Read,
{
    lemma_first_remote_none(ordered_remotes(remotes), name, listed);
}

proof fn lemma_first_remote_none(remotes: Seq<Seq<char>>, name: Seq<char>, listed: Seq<Seq<char>>)
    requires
        forall|i: int| 0 <= i < remotes.len() ==> !listed.contains(remote_ref(#[trigger] remotes[i], name)),
    ensures
        first_remote_with(remotes, name, listed) is None,
    decreases remotes.len(),
{
    if remotes.len() > 0 {
        let rest = remotes.drop_first();
        assert forall|i: int| 0 <= i < rest.len() implies !listed.contains(
            remote_ref(#[trigger] rest[i], name),
        ) by {
            assert(rest[i] == remotes[i + 1]);
        }
        lemma_first_remote_none(rest, name, listed);
    }
}

/// The local name and the remote of a default branch.
pub open spec fn default_parts(default: DefaultView, remotes: Seq<Seq<char>>) -> (Seq<char>, Option<Seq<char>>) {
    match strip_prefix(default.full_ref, "refs/heads/"@) {
        Some(name) => (name, None),
        None => {
            let short = match strip_prefix(default.full_ref, "refs/remotes/"@) {
                Some(s) => s,
                None => default.short,
            };
            match longest_remote(remotes, short) {
                Some(remote) => (short.skip(remote.len() as int + 1), Some(remote)),
                None => match split_once(short, '/') {
                    Some((remote, name)) => (name, Some(remote)),
                    None => (short, None),
                },
            }
        },
    }
}

/// Splits a default branch into its local name and remote: `refs/remotes/origin/main` is
/// (`main`, `origin`), `refs/heads/main` is (`main`, none).
pub fn default_branch_parts(default: &DefaultBranch, remotes: &[String]) -> (r: (String, Option<String>))
    ensures
        (r.0@, text_opt(r.1)) == default_parts(default@, texts(remotes@)),
{
    let full = chars_of(default.full_ref.as_str());
    match after_text(full.as_slice(), "refs/heads/") {
        Some(name) => return (string_of(name), None),
        None => {},
    }
    let short: String = match after_text(full.as_slice(), "refs/remotes/") {
        Some(s) => string_of(s),
        None => default.short.clone(),
    };
    let chars = chars_of(short.as_str());
    let n: usize = chars.len();
    // Remote names may contain '/', so take the longest remote that prefixes it.
    match find_longest_remote(remotes, short.as_str()) {
        Some(i) => {
            proof {
                crate::summary::law_longest_remote(texts(remotes@), short@);
                reveal_strlit("/");
                assert((remotes@[i as int]@ + "/"@).len() == remotes@[i as int]@.len() + 1);
            }
            let k: usize = remotes[i].as_str().unicode_len();
            let name = slice_subrange(chars.as_slice(), k + 1, n);
            assert(name@ =~= short@.skip(k + 1));
            (string_of(name), Some(remotes[i].clone()))
        },
        None => match split_first(chars.as_slice(), '/') {
            Some((remote, name)) => (string_of(name), Some(string_of(remote))),
            None => (short, None),
        },
    }
}

/// What [`switch_to_default`] did.
#[derive(Debug, PartialEq, Eq)]
pub struct DefaultSwitch {
    /// Local name of the default branch, e.g. `main`.
    pub branch: String,
    /// `None` when the default branch was already checked out.
    pub switched: Option<Switched>,
    /// The branch's upstream, e.g. `origin/main`, if it has one.
    pub upstream: Option<String>,
    /// Divergence from the upstream before fast-forwarding.
    pub ahead: u32,
    pub behind: u32,
    pub fast_forwarded: bool,
}

#[verifier::ext_equal]
pub ghost struct DefaultSwitchView {
    pub branch: Seq<char>,
    pub switched: Option<SwitchedView>,
    pub upstream: Option<Seq<char>>,
    pub ahead: u32,
    pub behind: u32,
    pub fast_forwarded: bool,
}

impl View for DefaultSwitch {
    type V = DefaultSwitchView;

    open spec fn view(&self) -> DefaultSwitchView {
        DefaultSwitchView {
            branch: self.branch@,
            switched: switched_opt(self.switched),
            upstream: text_opt(self.upstream),
            ahead: self.ahead,
            behind: self.behind,
            fast_forwarded: self.fast_forwarded,
        }
    }
}

/// Where switching to the default branch stands.
#[derive(Debug, PartialEq, Eq)]
pub enum DefaultStage {
    /// Switching to it.
    Switch { stage: SwitchStage },
    /// Asking for its upstream.
    Upstream { switched: Option<Switched> },
    /// Counting against its upstream.
    Counts { switched: Option<Switched>, upstream: String },
    /// Fast-forwarding it.
    Forward { result: DefaultSwitch },
}

/// What to do next.
#[derive(Debug, PartialEq, Eq)]
pub enum DefaultStep {
    Run { cmd: GitCommand, stage: DefaultStage },
    Done { result: DefaultSwitch },
    Failed { error: GitError },
}

#[verifier::ext_equal]
pub ghost enum DefaultStageView {
    Switch { stage: SwitchStageView },
    Upstream { switched: Option<SwitchedView> },
    Counts { switched: Option<SwitchedView>, upstream: Seq<char> },
    Forward { result: DefaultSwitchView },
}

#[verifier::ext_equal]
pub ghost enum DefaultStepView {
    Run { cmd: CommandView, stage: DefaultStageView },
    Done { result: DefaultSwitchView },
    Failed { error: ErrorView },
}

impl View for DefaultStage {
    type V = DefaultStageView;

    open spec fn view(&self) -> DefaultStageView {
        match self {
            DefaultStage::Switch { stage } => DefaultStageView::Switch { stage: stage@ },
            DefaultStage::Upstream { switched } => DefaultStageView::Upstream {
                switched: switched_opt(*switched),
            },
            DefaultStage::Counts { switched, upstream } => DefaultStageView::Counts {
                switched: switched_opt(*switched),
                upstream: upstream@,
            },
            DefaultStage::Forward { result } => DefaultStageView::Forward { result: result@ },
        }
    }
}

impl View for DefaultStep {
    type V = DefaultStepView;

    open spec fn view(&self) -> DefaultStepView {
        match self {
            DefaultStep::Run { cmd, stage } => DefaultStepView::Run { cmd: cmd@, stage: stage@ },
            DefaultStep::Done { result } => DefaultStepView::Done { result: result@ },
            DefaultStep::Failed { error } => DefaultStepView::Failed { error: error@ },
        }
    }
}

/// A default branch that is checked out, before its upstream is known.
pub open spec fn at_default(branch: Seq<char>, switched: Option<SwitchedView>) -> DefaultSwitchView {
    DefaultSwitchView {
        branch,
        switched,
        upstream: None,
        ahead: 0,
        behind: 0,
        fast_forwarded: false,
    }
}

/// The remotes to look for the default branch on.
pub open spec fn default_remotes(remote: Option<Seq<char>>) -> Seq<Seq<char>> {
    match remote {
        Some(r) => seq![r],
        None => Seq::empty(),
    }
}

/// Asks for the upstream of what is checked out.
pub open spec fn ask_upstream(cwd: Seq<u8>, switched: Option<SwitchedView>) -> DefaultStepView {
    DefaultStepView::Run {
        cmd: CommandView {
            // No upstream configured, or it's gone.
            ok_codes: seq![128i32],
            ..read_command(
                cwd,
                seq!["rev-parse"@, "--abbrev-ref"@, "--symbolic-full-name"@, "@{upstream}"@],
            )
        },
        stage: DefaultStageView::Upstream { switched },
    }
}

/// What follows a step of the switch itself.
pub open spec fn after_switch(cwd: Seq<u8>, branch: Seq<char>, step: SwitchStepView) -> DefaultStepView {
    match step {
        SwitchStepView::Run { cmd, stage } => DefaultStepView::Run {
            cmd,
            stage: DefaultStageView::Switch { stage },
        },
        SwitchStepView::Failed { error } => DefaultStepView::Failed { error },
        SwitchStepView::Done { switched } => if switched == SwitchedView::Missing {
            DefaultStepView::Done { result: at_default(branch, Some(switched)) }
        } else {
            ask_upstream(cwd, Some(switched))
        },
    }
}

/// What follows once the default branch is counted against its upstream: it is moved
/// there if it is only behind.
pub open spec fn after_counts(cwd: Seq<u8>, result: DefaultSwitchView) -> DefaultStepView {
    if result.behind > 0 && result.ahead == 0 {
        DefaultStepView::Run {
            cmd: write_command(cwd, seq!["merge"@, "--ff-only"@, "@{upstream}"@]),
            stage: DefaultStageView::Forward {
                result: DefaultSwitchView { fast_forwarded: true, ..result },
            },
        }
    } else {
        DefaultStepView::Done { result }
    }
}

/// What follows on a command's reply.
pub open spec fn default_next(
    cwd: Seq<u8>,
    branch: Seq<char>,
    remote: Option<Seq<char>>,
    stage: DefaultStageView,
    reply: Result<OutputView, ErrorView>,
) -> DefaultStepView {
    match (stage, reply) {
        (DefaultStageView::Switch { stage }, _) => after_switch(
            cwd,
            branch,
            switch_next(cwd, branch, default_remotes(remote), stage, reply),
        ),
        (_, Err(error)) => DefaultStepView::Failed { error },
        (DefaultStageView::Upstream { switched }, Ok(out)) => {
            let upstream = trim(out.text());
            if upstream.len() == 0 {
                DefaultStepView::Done { result: at_default(branch, switched) }
            } else {
                DefaultStepView::Run {
                    cmd: read_command(
                        cwd,
                        seq!["rev-list"@, "--left-right"@, "--count"@, "HEAD...@{upstream}"@],
                    ),
                    stage: DefaultStageView::Counts { switched, upstream },
                }
            }
        },
        (DefaultStageView::Counts { switched, upstream }, Ok(out)) => {
            let (ahead, behind) = match two_counts(out.text()) {
                Some(counts) => counts,
                None => (0, 0),
            };
            after_counts(
                cwd,
                DefaultSwitchView {
                    upstream: Some(upstream),
                    ahead,
                    behind,
                    ..at_default(branch, switched)
                },
            )
        },
        (DefaultStageView::Forward { result }, Ok(_)) => DefaultStepView::Done { result },
    }
}

/// Asks for the upstream of what is checked out.
fn run_upstream(repo: &RepoLocation, switched: Option<Switched>) -> (r: DefaultStep)
    ensures
        r@ == ask_upstream(repo@.root, switched_opt(switched)),
{
    let args = vec!["rev-parse", "--abbrev-ref", "--symbolic-full-name", "@{upstream}"];
    assert(str_views(args@) =~= seq![
        "rev-parse"@,
        "--abbrev-ref"@,
        "--symbolic-full-name"@,
        "@{upstream}"@,
    ]);
    let codes: Vec<i32> = vec![128];
    assert(codes@ =~= seq![128i32]);
    DefaultStep::Run {
        cmd: GitCommand::read(&repo.root, args).ok_codes(codes),
        stage: DefaultStage::Upstream { switched },
    }
}

/// What follows a step of the switch itself.
fn continue_switch(repo: &RepoLocation, branch: &str, step: SwitchStep) -> (r: DefaultStep)
    ensures
        r@ == after_switch(repo@.root, branch@, step@),
{
    match step {
        SwitchStep::Run { cmd, stage } => DefaultStep::Run {
            cmd,
            stage: DefaultStage::Switch { stage },
        },
        SwitchStep::Failed { error } => DefaultStep::Failed { error },
        SwitchStep::Done { switched } => match switched {
            Switched::Missing => DefaultStep::Done {
                result: DefaultSwitch {
                    branch: branch.to_owned(),
                    switched: Some(Switched::Missing),
                    upstream: None,
                    ahead: 0,
                    behind: 0,
                    fast_forwarded: false,
                },
            },
            other => run_upstream(repo, Some(other)),
        },
    }
}

/// The remotes to look for the default branch on.
fn remote_list(remote: &Option<String>) -> (r: Vec<String>)
    ensures
        texts(r@) == default_remotes(text_opt(*remote)),
{
    let mut out: Vec<String> = Vec::new();
    match remote {
        Some(r) => out.push(r.clone()),
        None => {},
    }
    assert(texts(out@) =~= default_remotes(text_opt(*remote)));
    out
}

/// The first step of checking out the default branch (creating it to track the remote one
/// if needed), then fast-forwarding it to its upstream. Offline: uses whatever the last
/// fetch brought in. `current` is the checked-out branch, if any.
pub fn switch_to_default(
    repo: &RepoLocation,
    default: &DefaultBranch,
    remotes: &[String],
    current: Option<&str>,
) -> (r: DefaultStep)
    ensures
        ({
            let (branch, remote) = default_parts(default@, texts(remotes@));
            r@ == (if str_opt(current) == Some(branch) {
                ask_upstream(repo@.root, None)
            } else {
                DefaultStepView::Run {
                    cmd: list_branches(repo@.root, branch, default_remotes(remote)),
                    stage: DefaultStageView::Switch { stage: SwitchStageView::List },
                }
            })
        }),
{
    let (branch, remote) = default_branch_parts(default, remotes);
    let there = match current {
        Some(c) => same_str(c, branch.as_str()),
        None => false,
    };
    if there {
        run_upstream(repo, None)
    } else {
        let list = remote_list(&remote);
        let step = switch_branch(repo, branch.as_str(), list.as_slice());
        continue_switch(repo, branch.as_str(), step)
    }
}

/// The next step of switching to the default branch, on a command's reply. `branch` and
/// `remote` are its [`default_branch_parts`].
pub fn switch_to_default_next(
    repo: &RepoLocation,
    branch: &str,
    remote: &Option<String>,
    stage: DefaultStage,
    reply: Result<GitOutput, GitError>,
) -> (r: DefaultStep)
    ensures
        r@ == default_next(repo@.root, branch@, text_opt(*remote), stage@, reply_view(reply)),
{
    match stage {
        DefaultStage::Switch { stage } => {
            let list = remote_list(remote);
            let step = switch_branch_next(repo, branch, list.as_slice(), stage, reply);
            continue_switch(repo, branch, step)
        },
        DefaultStage::Upstream { switched } => match reply {
            Err(error) => DefaultStep::Failed { error },
            Ok(out) => {
                let text = out.stdout_str();
                let upstream = trimmed_text(text.as_str());
                if upstream.as_str().is_empty() {
                    DefaultStep::Done {
                        result: DefaultSwitch {
                            branch: branch.to_owned(),
                            switched,
                            upstream: None,
                            ahead: 0,
                            behind: 0,
                            fast_forwarded: false,
                        },
                    }
                } else {
                    let args = vec!["rev-list", "--left-right", "--count", "HEAD...@{upstream}"];
                    assert(str_views(args@) =~= seq![
                        "rev-list"@,
                        "--left-right"@,
                        "--count"@,
                        "HEAD...@{upstream}"@,
                    ]);
                    DefaultStep::Run {
                        cmd: GitCommand::read(&repo.root, args),
                        stage: DefaultStage::Counts { switched, upstream },
                    }
                }
            },
        },
        DefaultStage::Counts { switched, upstream } => match reply {
            Err(error) => DefaultStep::Failed { error },
            Ok(out) => {
                let text = out.stdout_str();
                let (ahead, behind) = match left_right(text.as_str()) {
                    Some(counts) => counts,
                    None => (0, 0),
                };
                let forward = behind > 0 && ahead == 0;
                let result = DefaultSwitch {
                    branch: branch.to_owned(),
                    switched,
                    upstream: Some(upstream),
                    ahead,
                    behind,
                    fast_forwarded: forward,
                };
                if forward {
                    DefaultStep::Run {
                        cmd: fast_forward_head(repo),
                        stage: DefaultStage::Forward { result },
                    }
                } else {
                    DefaultStep::Done { result }
                }
            },
        },
        DefaultStage::Forward { result } => match reply {
            Err(error) => DefaultStep::Failed { error },
            Ok(_) => DefaultStep::Done { result },
        },
    }
}

/// A default branch with commits of its own is never moved: only one that is behind and
/// not ahead is fast-forwarded.
pub proof fn law_only_a_branch_that_is_behind_is_moved(cwd: Seq<u8>, result: DefaultSwitchView)
    requires
        !result.fast_forwarded,
    ensures
        result.ahead > 0 || result.behind == 0 ==> after_counts(cwd, result) == (DefaultStepView::Done {
            result,
        }),
        after_counts(cwd, result) matches DefaultStepView::Run { cmd, .. } ==> cmd.args == seq![
            "merge"@,
            "--ff-only"@,
            "@{upstream}"@,
        ],
{
}

} // verus!
