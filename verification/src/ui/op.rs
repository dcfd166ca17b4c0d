//! The operations on one repo that keys and popups start.

use vstd::prelude::*;

use crate::git::{network_command, reply_view, write_command, CommandView, ErrorView, GitCommand, GitError, GitOutput};
use crate::model::{
    file_views, Branch, BranchView, FileEntry, FileView, RemoteBranch, RemoteBranchView, RepoLocation, UpstreamView,
};
use crate::ops::{
    self, apply_args, commit_args, discard_args, failed_saying, fast_forward_args, push_args, stash_args, stash_selector,
    toggle_all_args, toggle_stage_args, PatchAction, StashKind,
};
use crate::path::copy_bytes;
use crate::summary::as_str_opt;
use crate::text::strings::{text_opt, utf8};

verus! {

/// An operation.
#[derive(Debug, PartialEq, Eq)]
pub enum Op {
    ToggleStage { file: FileEntry, unborn: bool },
    ToggleStageAll { files: Vec<FileEntry>, unborn: bool },
    Discard { file: FileEntry },
    Apply { patch: Vec<u8>, action: PatchAction },
    Commit { message: String, amend: bool },
    Stash { kind: StashKind, message: String },
    StashApply { index: usize },
    StashPop { index: usize },
    StashDrop { index: usize },
    StashBranch { index: usize, name: String },
    Checkout { name: String },
    CheckoutRemote { from: RemoteBranch },
    NewBranch { name: String, start: Option<String> },
    DeleteBranch { name: String, force: bool },
    FastForward { target: Branch },
    SetUpstream { branch: String, upstream: String },
    Pull,
    Push { has_upstream: bool, remote: Option<String>, force: bool },
}

#[verifier::ext_equal]
pub ghost enum OpView {
    ToggleStage { file: FileView, unborn: bool },
    ToggleStageAll { files: Seq<FileView>, unborn: bool },
    Discard { file: FileView },
    Apply { patch: Seq<u8>, action: PatchAction },
    Commit { message: Seq<char>, amend: bool },
    Stash { kind: StashKind, message: Seq<char> },
    StashApply { index: nat },
    StashPop { index: nat },
    StashDrop { index: nat },
    StashBranch { index: nat, name: Seq<char> },
    Checkout { name: Seq<char> },
    CheckoutRemote { from: RemoteBranchView },
    NewBranch { name: Seq<char>, start: Option<Seq<char>> },
    DeleteBranch { name: Seq<char>, force: bool },
    FastForward { target: BranchView },
    SetUpstream { branch: Seq<char>, upstream: Seq<char> },
    Pull,
    Push { has_upstream: bool, remote: Option<Seq<char>>, force: bool },
}

impl View for Op {
    type V = OpView;

    open spec fn view(&self) -> OpView {
        match self {
            Op::ToggleStage { file, unborn } => OpView::ToggleStage { file: file@, unborn: *unborn },
            Op::ToggleStageAll { files, unborn } => OpView::ToggleStageAll {
                files: file_views(files@),
                unborn: *unborn,
            },
            Op::Discard { file } => OpView::Discard { file: file@ },
            Op::Apply { patch, action } => OpView::Apply { patch: patch@, action: *action },
            Op::Commit { message, amend } => OpView::Commit { message: message@, amend: *amend },
            Op::Stash { kind, message } => OpView::Stash { kind: *kind, message: message@ },
            Op::StashApply { index } => OpView::StashApply { index: *index as nat },
            Op::StashPop { index } => OpView::StashPop { index: *index as nat },
            Op::StashDrop { index } => OpView::StashDrop { index: *index as nat },
            Op::StashBranch { index, name } => OpView::StashBranch { index: *index as nat, name: name@ },
            Op::Checkout { name } => OpView::Checkout { name: name@ },
            Op::CheckoutRemote { from } => OpView::CheckoutRemote { from: from@ },
            Op::NewBranch { name, start } => OpView::NewBranch { name: name@, start: text_opt(*start) },
            Op::DeleteBranch { name, force } => OpView::DeleteBranch { name: name@, force: *force },
            Op::FastForward { target } => OpView::FastForward { target: target@ },
            Op::SetUpstream { branch, upstream } => OpView::SetUpstream {
                branch: branch@,
                upstream: upstream@,
            },
            Op::Pull => OpView::Pull,
            Op::Push { has_upstream, remote, force } => OpView::Push {
                has_upstream: *has_upstream,
                remote: text_opt(*remote),
                force: *force,
            },
        }
    }
}

impl OpView {
    /// The command that the operation runs, or why it can't.
    pub open spec fn command(self, cwd: Seq<u8>) -> Result<CommandView, ErrorView> {
        match self {
            OpView::ToggleStage { file, unborn } => Ok(write_command(cwd, toggle_stage_args(file, unborn))),
            OpView::ToggleStageAll { files, unborn } => Ok(
                write_command(cwd, toggle_all_args(files, unborn)),
            ),
            OpView::Discard { file } => Ok(write_command(cwd, discard_args(file))),
            OpView::Apply { patch, action } => Ok(
                CommandView { stdin: Some(patch), ..write_command(cwd, apply_args(action)) },
            ),
            OpView::Commit { message, amend } => Ok(
                CommandView {
                    stdin: Some(vstd::utf8::encode_utf8(message)),
                    ..write_command(cwd, commit_args(amend))
                },
            ),
            OpView::Stash { kind, message } => Ok(write_command(cwd, stash_args(kind, Some(message)))),
            OpView::StashApply { index } => Ok(
                write_command(cwd, seq!["stash"@, "apply"@, stash_selector(index)]),
            ),
            OpView::StashPop { index } => Ok(
                write_command(cwd, seq!["stash"@, "pop"@, stash_selector(index)]),
            ),
            OpView::StashDrop { index } => Ok(
                write_command(cwd, seq!["stash"@, "drop"@, stash_selector(index)]),
            ),
            OpView::StashBranch { index, name } => Ok(
                write_command(cwd, seq!["stash"@, "branch"@, name, stash_selector(index)]),
            ),
            OpView::Checkout { name } => Ok(write_command(cwd, seq!["checkout"@, name])),
            OpView::CheckoutRemote { from } => Ok(
                write_command(
                    cwd,
                    seq!["checkout"@, "--track"@, from.remote + "/"@ + from.name],
                ),
            ),
            OpView::NewBranch { name, start } => Ok(
                write_command(
                    cwd,
                    seq!["checkout"@, "-b"@, name] + (match start {
                        Some(s) => seq![s],
                        None => Seq::empty(),
                    }),
                ),
            ),
            OpView::DeleteBranch { name, force } => Ok(
                write_command(
                    cwd,
                    seq![
                        "branch"@,
                        if force {
                            "-D"@
                        } else {
                            "-d"@
                        },
                        name,
                    ],
                ),
            ),
            OpView::FastForward { target } => match target.upstream {
                UpstreamView::Tracking { name, .. } => Ok(write_command(cwd, fast_forward_args(target, name))),
                _ => Err(
                    ErrorView::Failed {
                        command: "fast-forward"@,
                        code: None,
                        stderr: target.name + " has no upstream"@,
                        stdout: Seq::empty(),
                    },
                ),
            },
            OpView::SetUpstream { branch, upstream } => Ok(
                write_command(cwd, seq!["branch"@, "--set-upstream-to="@ + upstream, branch]),
            ),
            OpView::Pull => Ok(
                network_command(cwd, seq!["pull"@, "--no-edit"@, "--recurse-submodules=no"@]),
            ),
            OpView::Push { has_upstream, remote, force } => Ok(
                network_command(cwd, push_args(has_upstream, remote, force)),
            ),
        }
    }
}

impl Op {
    /// The command that the operation runs, or why it can't.
    pub fn command(&self, repo: &RepoLocation) -> (r: Result<GitCommand, GitError>)
        ensures
            match r {
                Ok(cmd) => self@.command(repo@.root) == Ok::<CommandView, ErrorView>(cmd@),
                Err(error) => self@.command(repo@.root) == Err::<CommandView, ErrorView>(error@),
            },
    {
        match self {
            Op::ToggleStage { file, unborn } => Ok(ops::toggle_stage(repo, file, *unborn)),
            Op::ToggleStageAll { files, unborn } => Ok(ops::toggle_stage_all(repo, files, *unborn)),
            Op::Discard { file } => Ok(ops::discard(repo, file)),
            Op::Apply { patch, action } => Ok(
                ops::apply_patch(repo, copy_bytes(patch.as_slice()), *action),
            ),
            Op::Commit { message, amend } => Ok(ops::commit(repo, message.as_str(), *amend)),
            Op::Stash { kind, message } => Ok(ops::stash(repo, *kind, Some(message.as_str()))),
            Op::StashApply { index } => Ok(ops::stash_apply(repo, *index)),
            Op::StashPop { index } => Ok(ops::stash_pop(repo, *index)),
            Op::StashDrop { index } => Ok(ops::stash_drop(repo, *index)),
            Op::StashBranch { index, name } => Ok(ops::stash_branch(repo, *index, name.as_str())),
            Op::Checkout { name } => Ok(ops::checkout(repo, name.as_str())),
            Op::CheckoutRemote { from } => Ok(ops::checkout_remote(repo, from)),
            Op::NewBranch { name, start } => Ok(ops::new_branch(repo, name.as_str(), as_str_opt(start))),
            Op::DeleteBranch { name, force } => Ok(ops::delete_branch(repo, name.as_str(), *force)),
            Op::FastForward { target } => ops::fast_forward(repo, target),
            Op::SetUpstream { branch, upstream } => Ok(
                ops::set_upstream(repo, branch.as_str(), upstream.as_str()),
            ),
            Op::Pull => Ok(ops::pull(repo)),
            Op::Push { has_upstream, remote, force } => Ok(
                ops::push(repo, *has_upstream, as_str_opt(remote), *force),
            ),
        }
    }

    /// What to run after the first command: the local branch itself, if the one to create
    /// from a remote branch exists already.
    pub fn next(&self, repo: &RepoLocation, reply: &Result<GitOutput, GitError>) -> (r: Option<GitCommand>)
        ensures
            match (self@, reply_view(*reply)) {
                (OpView::CheckoutRemote { from }, Err(error)) if failed_saying(error, "already exists") => {
                    r matches Some(cmd) && cmd@ == write_command(repo@.root, seq!["checkout"@, from.name])
                },
                _ => r is None,
            },
    {
        match self {
            Op::CheckoutRemote { from } => ops::checkout_remote_next(repo, from, reply),
            _ => None,
        }
    }
}

} // verus!
