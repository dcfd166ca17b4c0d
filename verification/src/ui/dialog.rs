//! Popups, and what their answers lead to.

use vstd::prelude::*;

use crate::batch::{batch_job_views, row_views, Batch, BatchJob, BatchJobView, BatchRow, BatchView, RowView};
use crate::model::{StashEntry, StashView};
use crate::ops::{PatchAction, StashKind};
use crate::path::{path_views, FsPath};
use crate::text::strings::text_opt;
use crate::ui::op::{Op, OpView};

verus! {

/// What to do when an operation finished.
#[derive(Debug, PartialEq, Eq)]
pub enum After {
    /// A failure is shown.
    Show,
    /// A push: one that the remote rejected can be forced.
    Push { root: FsPath, has_upstream: bool, remote: Option<String> },
    /// A branch was deleted: one that isn't merged can be deleted all the same.
    Delete { root: FsPath, name: String },
    /// A part of a diff was applied: the diff is loaded again.
    Patch,
    /// A stash was renamed: it is the first one now.
    Rename,
}

#[verifier::ext_equal]
pub ghost enum AfterView {
    Show,
    Push { root: Seq<u8>, has_upstream: bool, remote: Option<Seq<char>> },
    Delete { root: Seq<u8>, name: Seq<char> },
    Patch,
    Rename,
}

impl View for After {
    type V = AfterView;

    open spec fn view(&self) -> AfterView {
        match self {
            After::Show => AfterView::Show,
            After::Push { root, has_upstream, remote } => AfterView::Push {
                root: root@,
                has_upstream: *has_upstream,
                remote: text_opt(*remote),
            },
            After::Delete { root, name } => AfterView::Delete { root: root@, name: name@ },
            After::Patch => AfterView::Patch,
            After::Rename => AfterView::Rename,
        }
    }
}

/// What a confirmed question leads to.
#[derive(Debug, PartialEq, Eq)]
pub enum Then {
    RunBatch { batch: Batch, targets: Vec<FsPath> },
    RunOp { root: FsPath, label: &'static str, op: Op, after: After },
    ApplyPatch { patch: Vec<u8>, action: PatchAction },
}

#[verifier::ext_equal]
pub ghost enum ThenView {
    RunBatch { batch: BatchView, targets: Seq<Seq<u8>> },
    RunOp { root: Seq<u8>, label: Seq<char>, op: OpView, after: AfterView },
    ApplyPatch { patch: Seq<u8>, action: PatchAction },
}

impl View for Then {
    type V = ThenView;

    open spec fn view(&self) -> ThenView {
        match self {
            Then::RunBatch { batch, targets } => ThenView::RunBatch {
                batch: batch@,
                targets: path_views(targets@),
            },
            Then::RunOp { root, label, op, after } => ThenView::RunOp {
                root: root@,
                label: label@,
                op: op@,
                after: after@,
            },
            Then::ApplyPatch { patch, action } => ThenView::ApplyPatch { patch: patch@, action: *action },
        }
    }
}

/// What an answer is for.
#[derive(Debug, PartialEq, Eq)]
pub enum Asked {
    /// The branch to check out in some repos.
    CheckoutIn { targets: Vec<FsPath> },
    /// The branch to create in some repos.
    BranchIn { targets: Vec<FsPath> },
    /// The branch to create.
    NewBranch { root: FsPath, start: Option<String> },
    /// A branch's upstream.
    SetUpstream { branch: String },
    /// A stash's message.
    RenameStash { root: FsPath, stash: StashEntry },
    /// The branch to create from a stash.
    StashBranch { root: FsPath, index: usize },
    /// The message of a new stash.
    Stash { root: FsPath, kind: StashKind },
}

#[verifier::ext_equal]
pub ghost enum AskedView {
    CheckoutIn { targets: Seq<Seq<u8>> },
    BranchIn { targets: Seq<Seq<u8>> },
    NewBranch { root: Seq<u8>, start: Option<Seq<char>> },
    SetUpstream { branch: Seq<char> },
    RenameStash { root: Seq<u8>, stash: StashView },
    StashBranch { root: Seq<u8>, index: nat },
    Stash { root: Seq<u8>, kind: StashKind },
}

impl View for Asked {
    type V = AskedView;

    open spec fn view(&self) -> AskedView {
        match self {
            Asked::CheckoutIn { targets } => AskedView::CheckoutIn { targets: path_views(targets@) },
            Asked::BranchIn { targets } => AskedView::BranchIn { targets: path_views(targets@) },
            Asked::NewBranch { root, start } => AskedView::NewBranch { root: root@, start: text_opt(*start) },
            Asked::SetUpstream { branch } => AskedView::SetUpstream { branch: branch@ },
            Asked::RenameStash { root, stash } => AskedView::RenameStash { root: root@, stash: stash@ },
            Asked::StashBranch { root, index } => AskedView::StashBranch { root: root@, index: *index as nat },
            Asked::Stash { root, kind } => AskedView::Stash { root: root@, kind: *kind },
        }
    }
}

/// One choice in a lazygit-style menu popup.
#[derive(Clone, Copy, Debug, PartialEq, Eq)]
pub struct MenuItem {
    /// Picks the item directly; shown before its label.
    pub key: &'static str,
    pub label: &'static str,
    pub kind: StashKind,
}

impl MenuItem {
    pub fn new(key: &'static str, label: &'static str, kind: StashKind) -> (r: MenuItem)
        ensures
            r == (MenuItem { key, label, kind }),
    {
        MenuItem { key, label, kind }
    }
}

/// A popup.
#[derive(Debug, PartialEq, Eq)]
pub enum Dialog {
    Confirm { title: String, message: String, next: Then },
    /// With `allow_empty`, an empty value is submitted too (otherwise enter on an empty
    /// prompt does nothing).
    Prompt { title: String, initial: String, placeholder: &'static str, allow_empty: bool, asked: Asked },
    Menu { title: String, items: Vec<MenuItem>, selected: usize },
    /// `message` is what the editor starts with.
    Commit { amend: bool, root: FsPath, message: String },
    Error { title: String, message: String },
    Help,
    /// "Quit ubergit?", and which repos git is still busy in.
    Quit { message: String },
    /// Per-repo outcomes of a multi-repo action, filled in as each repo finishes.
    Results { id: u64, title: String, rows: Vec<BatchRow> },
}

#[verifier::ext_equal]
pub ghost enum DialogView {
    Confirm { title: Seq<char>, message: Seq<char>, next: ThenView },
    Prompt {
        title: Seq<char>,
        initial: Seq<char>,
        placeholder: Seq<char>,
        allow_empty: bool,
        asked: AskedView,
    },
    Menu { title: Seq<char>, items: Seq<MenuItem>, selected: int },
    Commit { amend: bool, root: Seq<u8>, message: Seq<char> },
    Error { title: Seq<char>, message: Seq<char> },
    Help,
    Quit { message: Seq<char> },
    Results { id: u64, title: Seq<char>, rows: Seq<RowView> },
}

impl View for Dialog {
    type V = DialogView;

    open spec fn view(&self) -> DialogView {
        match self {
            Dialog::Confirm { title, message, next } => DialogView::Confirm {
                title: title@,
                message: message@,
                next: next@,
            },
            Dialog::Prompt { title, initial, placeholder, allow_empty, asked } => DialogView::Prompt {
                title: title@,
                initial: initial@,
                placeholder: placeholder@,
                allow_empty: *allow_empty,
                asked: asked@,
            },
            Dialog::Menu { title, items, selected } => DialogView::Menu {
                title: title@,
                items: items@,
                selected: *selected as int,
            },
            Dialog::Commit { amend, root, message } => DialogView::Commit {
                amend: *amend,
                root: root@,
                message: message@,
            },
            Dialog::Error { title, message } => DialogView::Error { title: title@, message: message@ },
            Dialog::Help => DialogView::Help,
            Dialog::Quit { message } => DialogView::Quit { message: message@ },
            Dialog::Results { id, title, rows } => DialogView::Results {
                id: *id,
                title: title@,
                rows: row_views(rows@),
            },
        }
    }
}

/// The view of a popup that may be missing.
pub open spec fn dialog_opt(d: Option<Dialog>) -> Option<DialogView> {
    match d {
        Some(d) => Some(d@),
        None => None,
    }
}

/// What to do outside the UI's own state.
#[derive(Debug, PartialEq, Eq)]
pub enum Effect {
    Nothing,
    Quit,
    /// Run an operation on a repo.
    Run { root: FsPath, label: &'static str, op: Op, after: After },
    /// Give a stash another message.
    Rename { root: FsPath, stash: StashEntry, message: String },
    /// Fetch a repo.
    Fetch { root: FsPath },
    /// Fetch some repos.
    FetchMany { roots: Vec<FsPath> },
    /// Fetch every repo.
    FetchAll,
    /// Run a batch's operation on some repos; `single` if the batch is about one repo only.
    RunBatch { id: u64, batch: Batch, single: bool, jobs: Vec<BatchJob> },
    /// Read the last commit's message, to amend it.
    LastMessage { root: FsPath },
    /// Run a shell command.
    Shell { command: String },
}

#[verifier::ext_equal]
pub ghost enum EffectView {
    Nothing,
    Quit,
    Run { root: Seq<u8>, label: Seq<char>, op: OpView, after: AfterView },
    Rename { root: Seq<u8>, stash: StashView, message: Seq<char> },
    Fetch { root: Seq<u8> },
    FetchMany { roots: Seq<Seq<u8>> },
    FetchAll,
    RunBatch { id: u64, batch: BatchView, single: bool, jobs: Seq<BatchJobView> },
    LastMessage { root: Seq<u8> },
    Shell { command: Seq<char> },
}

impl View for Effect {
    type V = EffectView;

    open spec fn view(&self) -> EffectView {
        match self {
            Effect::Nothing => EffectView::Nothing,
            Effect::Quit => EffectView::Quit,
            Effect::Run { root, label, op, after } => EffectView::Run {
                root: root@,
                label: label@,
                op: op@,
                after: after@,
            },
            Effect::Rename { root, stash, message } => EffectView::Rename {
                root: root@,
                stash: stash@,
                message: message@,
            },
            Effect::Fetch { root } => EffectView::Fetch { root: root@ },
            Effect::FetchMany { roots } => EffectView::FetchMany { roots: path_views(roots@) },
            Effect::FetchAll => EffectView::FetchAll,
            Effect::RunBatch { id, batch, single, jobs } => EffectView::RunBatch {
                id: *id,
                batch: batch@,
                single: *single,
                jobs: batch_job_views(jobs@),
            },
            Effect::LastMessage { root } => EffectView::LastMessage { root: root@ },
            Effect::Shell { command } => EffectView::Shell { command: command@ },
        }
    }
}

} // verus!
