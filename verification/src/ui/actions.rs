//! Actions on the selected repo: files, branches, commits and stashes.

use vstd::prelude::*;
use vstd::slice::slice_subrange;

use crate::detail::{DetailView, RepoDetail};
use crate::model::{
    copied_files, file_views, Branch, BranchView, FileEntry, FileKind, FileView, Head, StashEntry, StashView,
};
use crate::ops::{stash_selector, stash_subject_parts, subject_parts, PatchAction, StashKind};
use crate::path::FsPath;
use crate::store::{RepoStore, StoreView};
use crate::summary::{main_remote, primary_remote};
use crate::text::strings::{cat2, cat3, cat5, chars_of, empty_text, str_starts_with, string_of, text_opt};
use crate::ui::dialog::{
    After, AfterView, Asked, AskedView, Dialog, DialogView, Effect, EffectView, MenuItem, Then, ThenView,
};
use crate::ui::op::{Op, OpView};
use crate::ui::panel::PaneView;
use crate::ui::staging::{Staging, StagingView};
use crate::ui::workspace::{items, Workspace, WorkspaceView};

verus! {

/// What the selection of the staging view is as a patch.
#[verifier::ext_equal]
pub ghost enum BuiltView {
    Nothing,
    /// It can't be applied on its own.
    Conflict,
    Patch(Seq<u8>),
}

/// What a repo is busy with while a patch is applied.
pub open spec fn patch_label(action: PatchAction) -> Seq<char> {
    match action {
        PatchAction::Stage => "Staging"@,
        PatchAction::Unstage => "Unstaging"@,
        PatchAction::Discard => "Discarding"@,
    }
}

/// What is said of a change that can't be split from its neighbours.
pub open spec fn conflict_text() -> Seq<char> {
    "The last line of this file has no newline, so this change can't be split there. Select the lines next to it as well (or the whole hunk)."@
}

/// Whether a character is a hexadecimal digit.
pub open spec fn is_hex(c: char) -> bool {
    '0' <= c <= '9' || 'a' <= c <= 'f' || 'A' <= c <= 'F'
}

/// A revision as it is shown: a full commit id is cut short.
pub open spec fn rev_text(rev: Seq<char>) -> Seq<char> {
    if rev.len() == 40 && (forall|i: int| 0 <= i < 40 ==> is_hex(#[trigger] rev[i])) {
        rev.take(8)
    } else {
        rev
    }
}

/// A revision as it is shown: a full commit id is cut short.
pub fn short_rev(rev: &str) -> (r: String)
    ensures
        r@ == rev_text(rev@),
{
    let chars = chars_of(rev);
    if chars.len() != 40 {
        return rev.to_owned();
    }
    let mut i: usize = 0;
    while i < 40
        invariant
            i <= 40,
            chars@.len() == 40,
            chars@ == rev@,
            forall|j: int| 0 <= j < i ==> is_hex(#[trigger] chars@[j]),
        decreases 40 - i,
    {
        let c = chars[i];
        if !(('0' <= c && c <= '9') || ('a' <= c && c <= 'f') || ('A' <= c && c <= 'F')) {
            assert(!is_hex(rev@[i as int]));
            return rev.to_owned();
        }
        i = i + 1;
    }
    let short = slice_subrange(chars.as_slice(), 0, 8);
    assert(short@ =~= rev@.take(8));
    string_of(short)
}

impl WorkspaceView {
    /// Applies the selected stash.
    pub open spec fn apply_effect(self, store: StoreView) -> EffectView {
        match self.selected_stash(store) {
            Some(stash) => self.op_effect(store, "Applying stash"@, OpView::StashApply { index: stash.index }),
            None => EffectView::Nothing,
        }
    }

    /// Pops the selected stash.
    pub open spec fn pop_effect(self, store: StoreView) -> EffectView {
        match self.selected_stash(store) {
            Some(stash) => self.op_effect(store, "Popping stash"@, OpView::StashPop { index: stash.index }),
            None => EffectView::Nothing,
        }
    }

    /// The item selected in a list, and the panels it is of.
    pub open spec fn picked(self, view: PaneView, store: StoreView) -> Option<(DetailView, int)> {
        match (store.selected_detail(), self.selected_ix(view, store)) {
            (Some(d), Some(ix)) => Some((d, ix)),
            _ => None,
        }
    }

    /// The file selected in Files.
    pub open spec fn selected_file(self, store: StoreView) -> Option<FileView> {
        match self.picked(PaneView::Files, store) {
            Some((d, ix)) => Some(d.files[ix]),
            None => None,
        }
    }

    /// The branch selected in Branches.
    pub open spec fn selected_branch(self, store: StoreView) -> Option<BranchView> {
        match self.picked(PaneView::Branches, store) {
            Some((d, ix)) => Some(d.branches[ix]),
            None => None,
        }
    }

    /// The stash selected in Stash.
    pub open spec fn selected_stash(self, store: StoreView) -> Option<StashView> {
        match self.picked(PaneView::Stash, store) {
            Some((d, ix)) => Some(d.stashes[ix]),
            None => None,
        }
    }

    /// The selection of the staging view as a patch; nothing while the diff on screen is
    /// about to change.
    pub open spec fn built(self, action: PatchAction) -> BuiltView {
        match self.main.content.half(self.staging.staged) {
            Some(half) => {
                let sel = self.staging.selected(half.patch, action);
                if self.staging.pending is Some || self.staging.path is None {
                    BuiltView::Nothing
                } else if half.patch.conflicts(sel) {
                    BuiltView::Conflict
                } else if half.patch.patch_text(sel).len() == 0 {
                    BuiltView::Nothing
                } else {
                    BuiltView::Patch(half.patch.patch_text(sel))
                }
            },
            None => BuiltView::Nothing,
        }
    }

    /// A patch applied: until the diff is loaded again, it waits.
    pub open spec fn patch_applied(self, patch: Seq<u8>, action: PatchAction, store: StoreView) -> (
        WorkspaceView,
        EffectView,
    ) {
        match self.selected_root(store) {
            Some(root) => (
                WorkspaceView {
                    staging: StagingView { pending: Some(u64::MAX), anchor: None, ..self.staging },
                    ..self
                },
                EffectView::Run {
                    root,
                    label: patch_label(action),
                    op: OpView::Apply { patch, action },
                    after: AfterView::Patch,
                },
            ),
            None => (self, EffectView::Nothing),
        }
    }

    /// The selection of the staging view staged or unstaged.
    pub open spec fn selection_applied(self, action: PatchAction, store: StoreView) -> (
        WorkspaceView,
        EffectView,
    ) {
        match self.built(action) {
            BuiltView::Nothing => (self, EffectView::Nothing),
            BuiltView::Conflict => (self.with_message("Staging"@, conflict_text()), EffectView::Nothing),
            BuiltView::Patch(patch) => self.patch_applied(patch, action, store),
        }
    }

    /// `space`: stages the selection or the file, or unstages it.
    pub open spec fn stage_toggled(self, store: StoreView) -> (WorkspaceView, EffectView) {
        if self.current_view() == PaneView::Staging {
            self.selection_applied(
                if self.staging.staged {
                    PatchAction::Unstage
                } else {
                    PatchAction::Stage
                },
                store,
            )
        } else {
            match self.selected_file(store) {
                Some(file) => (
                    self,
                    self.op_effect(store, "Staging"@, OpView::ToggleStage { file, unborn: unborn_head(store) }),
                ),
                None => (self, EffectView::Nothing),
            }
        }
    }

    /// `a` in Files: stages every file, or unstages them.
    pub open spec fn stage_all_effect(self, store: StoreView) -> EffectView {
        match store.selected_detail() {
            Some(d) if d.files.len() > 0 => self.op_effect(
                store,
                "Staging"@,
                OpView::ToggleStageAll { files: d.files, unborn: unborn_head(store) },
            ),
            _ => EffectView::Nothing,
        }
    }

    /// The commit editor opened.
    pub open spec fn with_commit(self, root: Seq<u8>, amend: bool, message: Seq<char>) -> WorkspaceView {
        WorkspaceView { dialog: Some(DialogView::Commit { amend, root, message }), ..self }
    }

    /// `c`: opens the commit editor, if there is something to commit.
    pub open spec fn commit_asked(self, store: StoreView) -> WorkspaceView {
        match self.selected_root(store) {
            None => self,
            Some(root) => if any_unmerged(files_of(store)) {
                self.with_message("Commit"@, "Resolve merge conflicts before committing."@)
            } else if !any_staged(files_of(store)) {
                self.with_message("Commit"@, "No staged files. Stage with <space> or `a` first."@)
            } else {
                self.with_commit(root, false, Seq::empty())
            },
        }
    }

    /// `A`: asks for the last commit's message, to amend it.
    pub open spec fn amend_asked(self, store: StoreView) -> (WorkspaceView, EffectView) {
        match self.selected_root(store) {
            None => (self, EffectView::Nothing),
            Some(root) => if unborn_head(store) {
                (self.with_message("Amend"@, "There is no commit to amend yet."@), EffectView::Nothing)
            } else if store.entry(root) is None {
                (self, EffectView::Nothing)
            } else {
                (self, EffectView::LastMessage { root })
            },
        }
    }

    /// `d`: discards the selection or the file's changes, after asking. In the staged
    /// changes it unstages them, like lazygit.
    pub open spec fn discard_asked(self, store: StoreView) -> (WorkspaceView, EffectView) {
        if self.current_view() == PaneView::Staging {
            if self.staging.staged {
                self.selection_applied(PatchAction::Unstage, store)
            } else {
                match self.built(PatchAction::Discard) {
                    BuiltView::Nothing => (self, EffectView::Nothing),
                    BuiltView::Conflict => (
                        self.with_message("Staging"@, conflict_text()),
                        EffectView::Nothing,
                    ),
                    BuiltView::Patch(patch) => (
                        self.with_question(
                            "Discard changes"@,
                            "Discard the selected "@ + (if self.staging.by_hunk() {
                                "hunk"@
                            } else {
                                "lines"@
                            }) + " in "@ + (match self.staging.path {
                                Some(path) => path,
                                None => Seq::empty(),
                            }) + "? This can't be undone."@,
                            ThenView::ApplyPatch { patch, action: PatchAction::Discard },
                        ),
                        EffectView::Nothing,
                    ),
                }
            }
        } else {
            match (self.selected_file(store), self.selected_root(store)) {
                (Some(file), Some(root)) => (
                    self.with_question(
                        "Discard changes"@,
                        (if file.kind == FileKind::Untracked {
                            "Delete untracked file "@
                        } else {
                            "Discard all changes to "@
                        }) + file.path + "?"@,
                        ThenView::RunOp {
                            root,
                            label: "Discarding"@,
                            op: OpView::Discard { file },
                            after: AfterView::Show,
                        },
                    ),
                    EffectView::Nothing,
                ),
                _ => (self, EffectView::Nothing),
            }
        }
    }

    /// Asks for a message, then stashes; says so if there is nothing to stash.
    pub open spec fn stash_asked(self, kind: StashKind, store: StoreView) -> WorkspaceView {
        match self.selected_root(store) {
            None => self,
            Some(root) => if nothing_to_stash(kind, files_of(store)) {
                self.with_message("Stash"@, nothing_to_stash_text(kind))
            } else {
                WorkspaceView {
                    dialog: Some(
                        DialogView::Prompt {
                            title: stash_title(kind),
                            initial: Seq::empty(),
                            placeholder: "Message (empty for git's default)"@,
                            allow_empty: true,
                            asked: AskedView::Stash { root, kind },
                        },
                    ),
                    ..self
                }
            },
        }
    }

    /// What `space` checks out in the focused list.
    pub open spec fn checkout_effect(self, store: StoreView) -> EffectView {
        let view = self.current_view();
        match self.picked(view, store) {
            Some((d, ix)) => match view {
                PaneView::Branches => self.op_effect(
                    store,
                    "Checking out"@,
                    OpView::Checkout { name: d.branches[ix].name },
                ),
                PaneView::Remotes => self.op_effect(
                    store,
                    "Checking out"@,
                    OpView::CheckoutRemote { from: d.remote_branches[ix] },
                ),
                PaneView::Tags => self.op_effect(store, "Checking out"@, OpView::Checkout { name: d.tags[ix].name }),
                PaneView::Commits => self.op_effect(
                    store,
                    "Checking out"@,
                    OpView::Checkout { name: d.commits[ix].oid },
                ),
                _ => EffectView::Nothing,
            },
            None => EffectView::Nothing,
        }
    }

    /// Where a new branch starts: at what is selected in the focused list, else at HEAD.
    pub open spec fn branch_start(self, store: StoreView) -> Option<Seq<char>> {
        let view = self.current_view();
        match self.picked(view, store) {
            Some((d, ix)) => match view {
                PaneView::Branches => Some(d.branches[ix].name),
                PaneView::Remotes => Some(
                    d.remote_branches[ix].remote + "/"@ + d.remote_branches[ix].name,
                ),
                PaneView::Tags => Some(d.tags[ix].name),
                PaneView::Commits => Some(d.commits[ix].oid),
                _ => None,
            },
            None => None,
        }
    }

    /// The name that is suggested for a new branch: a remote branch's own.
    pub open spec fn branch_suggestion(self, store: StoreView) -> Seq<char> {
        match self.picked(PaneView::Remotes, store) {
            Some((d, ix)) if self.current_view() == PaneView::Remotes => d.remote_branches[ix].name,
            _ => Seq::empty(),
        }
    }

    /// `n`: asks for the name of a new branch.
    pub open spec fn new_branch_asked(self, store: StoreView) -> WorkspaceView {
        match self.selected_root(store) {
            None => self,
            Some(root) => self.with_prompt(
                match self.branch_start(store) {
                    Some(start) => "New branch name (from "@ + rev_text(start) + ")"@,
                    None => "New branch name"@,
                },
                self.branch_suggestion(store),
                AskedView::NewBranch { root, start: self.branch_start(store) },
            ),
        }
    }

    /// `d` in Branches: asks whether to delete the branch.
    pub open spec fn delete_asked(self, store: StoreView) -> WorkspaceView {
        match self.selected_branch(store) {
            None => self,
            Some(branch) => if branch.is_head {
                self.with_message("Delete branch"@, "You cannot delete the checked-out branch."@)
            } else {
                match self.selected_root(store) {
                    None => self,
                    Some(root) => self.with_question(
                        "Delete branch"@,
                        "Delete branch '"@ + branch.name + "'?"@,
                        ThenView::RunOp {
                            root,
                            label: "Deleting branch"@,
                            op: OpView::DeleteBranch { name: branch.name, force: false },
                            after: AfterView::Delete { root, name: branch.name },
                        },
                    ),
                }
            },
        }
    }

    /// `f` in Branches: fast-forwards the branch.
    pub open spec fn fast_forward_effect(self, store: StoreView) -> EffectView {
        match self.selected_branch(store) {
            Some(target) => self.op_effect(store, "Fast-forwarding"@, OpView::FastForward { target }),
            None => EffectView::Nothing,
        }
    }

    /// `u` in Branches: asks for the branch's upstream.
    pub open spec fn upstream_asked(self, store: StoreView) -> WorkspaceView {
        match self.selected_branch(store) {
            None => self,
            Some(branch) => match selected_remote(store) {
                None => self.with_message("Set upstream"@, "This repository has no remote."@),
                Some(remote) => self.with_prompt(
                    "Upstream for '"@ + branch.name + "'"@,
                    remote + "/"@ + branch.name,
                    AskedView::SetUpstream { branch: branch.name },
                ),
            },
        }
    }

    /// `r` in Stash: asks for a message, starting from the current one when the user wrote
    /// one (not git's `WIP on ...`).
    pub open spec fn rename_asked(self, store: StoreView) -> WorkspaceView {
        match (self.selected_stash(store), self.selected_root(store)) {
            (Some(stash), Some(root)) => self.with_prompt(
                "Rename "@ + stash_selector(stash.index),
                match subject_parts(stash.subject) {
                    Some((_, message)) if "On "@.is_prefix_of(stash.subject) => message,
                    _ => Seq::empty(),
                },
                AskedView::RenameStash { root, stash },
            ),
            _ => self,
        }
    }

    /// `n` in Stash: asks for the name of a branch to create from the stash.
    pub open spec fn stash_branch_asked(self, store: StoreView) -> WorkspaceView {
        match (self.selected_stash(store), self.selected_root(store)) {
            (Some(stash), Some(root)) => self.with_prompt(
                "New branch from "@ + stash_selector(stash.index),
                Seq::empty(),
                AskedView::StashBranch { root, index: stash.index },
            ),
            _ => self,
        }
    }

    /// `d` in Stash: asks whether to drop the stash.
    pub open spec fn drop_asked(self, store: StoreView) -> WorkspaceView {
        match (self.selected_stash(store), self.selected_root(store)) {
            (Some(stash), Some(root)) => self.with_question(
                "Drop stash"@,
                "Drop "@ + stash_selector(stash.index) + "?"@,
                ThenView::RunOp {
                    root,
                    label: "Dropping stash"@,
                    op: OpView::StashDrop { index: stash.index },
                    after: AfterView::Show,
                },
            ),
            _ => self,
        }
    }
}

/// Whether the selected repo has no commits yet.
pub open spec fn unborn_head(store: StoreView) -> bool {
    match store.selected_entry() {
        Some(entry) => match entry.summary {
            Some(s) => s.head is Unborn,
            None => false,
        },
        None => false,
    }
}

/// The selected repo's files.
pub open spec fn files_of(store: StoreView) -> Seq<FileView> {
    match store.selected_detail() {
        Some(d) => d.files,
        None => Seq::empty(),
    }
}

/// The selected repo's main remote.
pub open spec fn selected_remote(store: StoreView) -> Option<Seq<char>> {
    match store.selected_entry() {
        Some(entry) => match entry.summary {
            Some(s) => main_remote(s.remotes, None),
            None => None,
        },
        None => None,
    }
}

/// Whether a file has conflicts.
pub open spec fn any_unmerged(files: Seq<FileView>) -> bool {
    exists|i: int| 0 <= i < files.len() && (#[trigger] files[i]).kind == FileKind::Unmerged
}

/// Whether a file has staged changes.
pub open spec fn any_staged(files: Seq<FileView>) -> bool {
    exists|i: int| 0 <= i < files.len() && (#[trigger] files[i]).staged()
}

/// Whether a file is tracked.
pub open spec fn any_tracked(files: Seq<FileView>) -> bool {
    exists|i: int| 0 <= i < files.len() && (#[trigger] files[i]).kind != FileKind::Untracked
}

/// Whether there is nothing for a stash.
pub open spec fn nothing_to_stash(kind: StashKind, files: Seq<FileView>) -> bool {
    match kind {
        StashKind::Staged => !any_staged(files),
        StashKind::TrackedFiles => !any_tracked(files),
        _ => files.len() == 0,
    }
}

/// What is said if there is nothing for a stash.
pub open spec fn nothing_to_stash_text(kind: StashKind) -> Seq<char> {
    match kind {
        StashKind::Staged => "No staged changes to stash."@,
        StashKind::TrackedFiles => "No changes to tracked files to stash."@,
        _ => "Nothing to stash."@,
    }
}

/// The title of the question for a stash's message.
pub open spec fn stash_title(kind: StashKind) -> Seq<char> {
    match kind {
        StashKind::All => "Stash all changes"@,
        StashKind::KeepIndex => "Stash all changes, keep staged"@,
        StashKind::TrackedFiles => "Stash tracked changes"@,
        StashKind::Staged => "Stash staged changes"@,
    }
}

/// The ways to stash.
pub open spec fn stash_menu() -> Seq<MenuItem> {
    seq![
        MenuItem { key: "a", label: "Stash all changes, including untracked files", kind: StashKind::All },
        MenuItem {
            key: "i",
            label: "Stash all changes but keep the staged ones in place (keep index)",
            kind: StashKind::KeepIndex,
        },
        MenuItem { key: "t", label: "Stash changes to tracked files only", kind: StashKind::TrackedFiles },
        MenuItem { key: "s", label: "Stash staged changes only", kind: StashKind::Staged },
    ]
}

/// Which files have conflicts, have staged changes and are tracked: whether any does.
fn survey(files: &Vec<FileEntry>) -> (r: (bool, bool, bool))
    ensures
        r.0 == any_unmerged(file_views(files@)),
        r.1 == any_staged(file_views(files@)),
        r.2 == any_tracked(file_views(files@)),
{
    let ghost all = file_views(files@);
    let mut unmerged = false;
    let mut staged = false;
    let mut tracked_files = false;
    let mut i: usize = 0;
    while i < files.len()
        invariant
            i <= files@.len(),
            all == file_views(files@),
            unmerged == (exists|j: int| 0 <= j < i && (#[trigger] all[j]).kind == FileKind::Unmerged),
            staged == (exists|j: int| 0 <= j < i && (#[trigger] all[j]).staged()),
            tracked_files == (exists|j: int| 0 <= j < i && (#[trigger] all[j]).kind != FileKind::Untracked),
        decreases files@.len() - i,
    {
        assert(all[i as int] == files@[i as int]@);
        if files[i].kind == FileKind::Unmerged {
            unmerged = true;
        }
        if files[i].has_staged() {
            staged = true;
        }
        if files[i].kind != FileKind::Untracked {
            tracked_files = true;
        }
        i = i + 1;
    }
    (unmerged, staged, tracked_files)
}

impl Workspace {
    /// The item selected in a list of the selected repo, and the panels it is of.
    fn picked<'a>(&self, view: PaneView, store: &'a RepoStore) -> (r: Option<(&'a RepoDetail, usize)>)
        requires
            self@.wf(),
        ensures
            match r {
                Some((d, ix)) => self@.picked(view, store@) == Some((d@, ix as int)) && store@.selected_detail()
                    == Some(d@) && ix < items(view, store@),
                None => self@.picked(view, store@) is None,
            },
    {
        match (store.selected_detail(), self.selected_ix(view, store)) {
            (Some(d), Some(ix)) => Some((d, ix)),
            _ => None,
        }
    }

    /// Whether the selected repo has no commits yet.
    pub fn head_is_unborn(store: &RepoStore) -> (r: bool)
        ensures
            r == unborn_head(store@),
    {
        match store.selected_entry() {
            Some(entry) => match &entry.summary {
                Some(s) => match &s.head {
                    Head::Unborn(_) => true,
                    _ => false,
                },
                None => false,
            },
            None => false,
        }
    }

    /// The file selected in Files.
    pub fn selected_file(&self, store: &RepoStore) -> (r: Option<FileEntry>)
        requires
            self@.wf(),
        ensures
            crate::detail::file_opt(r) == self@.selected_file(store@),
    {
        match self.picked(PaneView::Files, store) {
            Some((d, ix)) => Some(d.files[ix].clone()),
            None => None,
        }
    }

    /// The branch selected in Branches.
    fn selected_branch(&self, store: &RepoStore) -> (r: Option<Branch>)
        requires
            self@.wf(),
        ensures
            match r {
                Some(branch) => self@.selected_branch(store@) == Some(branch@),
                None => self@.selected_branch(store@) is None,
            },
    {
        match self.picked(PaneView::Branches, store) {
            Some((d, ix)) => Some(d.branches[ix].clone()),
            None => None,
        }
    }

    /// The stash selected in Stash.
    pub fn selected_stash(&self, store: &RepoStore) -> (r: Option<StashEntry>)
        requires
            self@.wf(),
        ensures
            match r {
                Some(stash) => self@.selected_stash(store@) == Some(stash@),
                None => self@.selected_stash(store@) is None,
            },
    {
        match self.picked(PaneView::Stash, store) {
            Some((d, ix)) => Some(d.stashes[ix].clone()),
            None => None,
        }
    }

    /// The staging view's selection as a patch for `action`, unless there's nothing to apply
    /// (or the diff on screen is about to change). Says so if it can't be applied on its own.
    pub fn build_selection(&mut self, action: PatchAction) -> (r: Option<Vec<u8>>)
        requires
            old(self)@.wf(),
        ensures
            match old(self)@.built(action) {
                BuiltView::Nothing => final(self)@ == old(self)@ && r is None,
                BuiltView::Conflict => final(self)@ == old(self)@.with_message("Staging"@, conflict_text())
                    && r is None,
                BuiltView::Patch(patch) => final(self)@ == old(self)@ && r is Some && r->0@ == patch,
            },
            final(self)@.wf(),
    {
        if self.staging.path.is_none() {
            return None;
        }
        let result = match self.main.content.half(self.staging.staged) {
            Some(half) => self.staging.build(&half.patch, action),
            None => {
                return None;
            },
        };
        match result {
            Ok(built) => built,
            Err(error) => {
                let message = error.message();
                self.show_message("Staging", message);
                None
            },
        }
    }

    /// Applies a patch to the selected repo.
    pub fn apply_built(&mut self, patch: Vec<u8>, action: PatchAction, store: &RepoStore) -> (r: Effect)
        requires
            old(self)@.wf(),
        ensures
            (final(self)@, r@) == old(self)@.patch_applied(patch@, action, store@),
            final(self)@.wf(),
    {
        let root = match self.selected_root(store) {
            Some(root) => root,
            None => {
                return Effect::Nothing;
            },
        };
        let label = match action {
            PatchAction::Stage => "Staging",
            PatchAction::Unstage => "Unstaging",
            PatchAction::Discard => "Discarding",
        };
        self.staging.pending = Some(u64::MAX);
        self.staging.anchor = None;
        Effect::Run { root, label, op: Op::Apply { patch, action }, after: After::Patch }
    }

    /// Stages the staging view's selection from the unstaged changes, or unstages it from
    /// the staged ones.
    pub fn apply_selection(&mut self, action: PatchAction, store: &RepoStore) -> (r: Effect)
        requires
            old(self)@.wf(),
        ensures
            (final(self)@, r@) == old(self)@.selection_applied(action, store@),
            final(self)@.wf(),
    {
        match self.build_selection(action) {
            Some(patch) => self.apply_built(patch, action, store),
            None => Effect::Nothing,
        }
    }

    /// `space` in Files and in the staging view.
    pub fn toggle_stage(&mut self, store: &RepoStore) -> (r: Effect)
        requires
            old(self)@.wf(),
        ensures
            (final(self)@, r@) == old(self)@.stage_toggled(store@),
            final(self)@.wf(),
    {
        if self.current_view() == PaneView::Staging {
            let action = if self.staging.staged {
                PatchAction::Unstage
            } else {
                PatchAction::Stage
            };
            return self.apply_selection(action, store);
        }
        match self.selected_file(store) {
            Some(file) => {
                let unborn = Workspace::head_is_unborn(store);
                self.op(store, "Staging", Op::ToggleStage { file, unborn })
            },
            None => Effect::Nothing,
        }
    }

    /// `a` in Files.
    pub fn toggle_stage_all(&self, store: &RepoStore) -> (r: Effect)
        requires
            self@.wf(),
        ensures
            r@ == self@.stage_all_effect(store@),
    {
        match store.selected_detail() {
            Some(d) => {
                if d.files.len() == 0 {
                    return Effect::Nothing;
                }
                let unborn = Workspace::head_is_unborn(store);
                self.op(store, "Staging", Op::ToggleStageAll { files: copied_files(&d.files), unborn })
            },
            None => Effect::Nothing,
        }
    }

    /// Opens the commit editor.
    pub fn open_commit(&mut self, root: FsPath, amend: bool, message: String)
        ensures
            final(self)@ == old(self)@.with_commit(root@, amend, message@),
    {
        self.open_dialog(Dialog::Commit { amend, root, message });
    }

    /// `c`.
    pub fn commit(&mut self, store: &RepoStore)
        requires
            old(self)@.wf(),
        ensures
            final(self)@ == old(self)@.commit_asked(store@),
            final(self)@.wf(),
    {
        let root = match self.selected_root(store) {
            Some(root) => root,
            None => {
                return;
            },
        };
        let (unmerged, staged) = match store.selected_detail() {
            Some(d) => {
                let (unmerged, staged, _) = survey(&d.files);
                (unmerged, staged)
            },
            None => (false, false),
        };
        if unmerged {
            self.show_message("Commit", "Resolve merge conflicts before committing.".to_owned());
        } else if !staged {
            self.show_message("Commit", "No staged files. Stage with <space> or `a` first.".to_owned());
        } else {
            self.open_commit(root, false, empty_text());
        }
    }

    /// `A`.
    pub fn amend(&mut self, store: &RepoStore) -> (r: Effect)
        requires
            old(self)@.wf(),
        ensures
            (final(self)@, r@) == old(self)@.amend_asked(store@),
            final(self)@.wf(),
    {
        let root = match self.selected_root(store) {
            Some(root) => root,
            None => {
                return Effect::Nothing;
            },
        };
        if Workspace::head_is_unborn(store) {
            self.show_message("Amend", "There is no commit to amend yet.".to_owned());
            return Effect::Nothing;
        }
        if store.entry(&root).is_none() {
            return Effect::Nothing;
        }
        Effect::LastMessage { root }
    }

    /// `d` in Files and in the staging view.
    pub fn discard(&mut self, store: &RepoStore) -> (r: Effect)
        requires
            old(self)@.wf(),
        ensures
            (final(self)@, r@) == old(self)@.discard_asked(store@),
            final(self)@.wf(),
    {
        if self.current_view() == PaneView::Staging {
            if self.staging.staged {
                return self.apply_selection(PatchAction::Unstage, store);
            }
            // Built now, so a reload while the popup is open can't change what goes.
            if let Some(patch) = self.build_selection(PatchAction::Discard) {
                let what = if self.staging.hunk && self.staging.anchor.is_none() {
                    "hunk"
                } else {
                    "lines"
                };
                let path = match &self.staging.path {
                    Some(path) => path.clone(),
                    None => empty_text(),
                };
                let message = cat5(
                    "Discard the selected ",
                    what,
                    " in ",
                    path.as_str(),
                    "? This can't be undone.",
                );
                self.confirm(
                    "Discard changes",
                    message,
                    Then::ApplyPatch { patch, action: PatchAction::Discard },
                );
            }
            return Effect::Nothing;
        }
        match (self.selected_file(store), self.selected_root(store)) {
            (Some(file), Some(root)) => {
                let what = if file.kind == FileKind::Untracked {
                    "Delete untracked file "
                } else {
                    "Discard all changes to "
                };
                let message = cat3(what, file.path.as_str(), "?");
                self.confirm(
                    "Discard changes",
                    message,
                    Then::RunOp { root, label: "Discarding", op: Op::Discard { file }, after: After::Show },
                );
            },
            _ => {},
        }
        Effect::Nothing
    }

    /// `S` in Files: the ways to stash.
    pub fn stash_options(&mut self)
        ensures
            final(self)@ == (WorkspaceView {
                dialog: Some(
                    DialogView::Menu { title: "Stash options"@, items: stash_menu(), selected: 0 },
                ),
                ..old(self)@
            }),
    {
        let items = vec![
            MenuItem::new("a", "Stash all changes, including untracked files", StashKind::All),
            MenuItem::new(
                "i",
                "Stash all changes but keep the staged ones in place (keep index)",
                StashKind::KeepIndex,
            ),
            MenuItem::new("t", "Stash changes to tracked files only", StashKind::TrackedFiles),
            MenuItem::new("s", "Stash staged changes only", StashKind::Staged),
        ];
        assert(items@ =~= stash_menu());
        self.menu("Stash options", items);
    }

    /// Asks for a message, then stashes.
    pub fn stash(&mut self, kind: StashKind, store: &RepoStore)
        requires
            old(self)@.wf(),
        ensures
            final(self)@ == old(self)@.stash_asked(kind, store@),
            final(self)@.wf(),
    {
        let root = match self.selected_root(store) {
            Some(root) => root,
            None => {
                return;
            },
        };
        let (any, staged, tracked_files) = match store.selected_detail() {
            Some(d) => {
                let (_, staged, tracked_files) = survey(&d.files);
                (d.files.len() > 0, staged, tracked_files)
            },
            None => (false, false, false),
        };
        let nothing = match kind {
            StashKind::Staged => !staged,
            StashKind::TrackedFiles => !tracked_files,
            _ => !any,
        };
        if nothing {
            let what = match kind {
                StashKind::Staged => "No staged changes to stash.",
                StashKind::TrackedFiles => "No changes to tracked files to stash.",
                _ => "Nothing to stash.",
            };
            self.show_message("Stash", what.to_owned());
            return;
        }
        let title = match kind {
            StashKind::All => "Stash all changes",
            StashKind::KeepIndex => "Stash all changes, keep staged",
            StashKind::TrackedFiles => "Stash tracked changes",
            StashKind::Staged => "Stash staged changes",
        };
        self.optional_prompt(title, "Message (empty for git's default)", Asked::Stash { root, kind });
    }

    /// `space` in Branches, Remotes, Tags and Commits.
    pub fn checkout(&self, store: &RepoStore) -> (r: Effect)
        requires
            self@.wf(),
        ensures
            r@ == self@.checkout_effect(store@),
    {
        let view = self.current_view();
        match self.picked(view, store) {
            Some((d, ix)) => match view {
                PaneView::Branches => self.op(
                    store,
                    "Checking out",
                    Op::Checkout { name: d.branches[ix].name.clone() },
                ),
                PaneView::Remotes => self.op(
                    store,
                    "Checking out",
                    Op::CheckoutRemote { from: d.remote_branches[ix].clone() },
                ),
                PaneView::Tags => self.op(store, "Checking out", Op::Checkout { name: d.tags[ix].name.clone() }),
                PaneView::Commits => self.op(
                    store,
                    "Checking out",
                    Op::Checkout { name: d.commits[ix].oid.clone() },
                ),
                _ => Effect::Nothing,
            },
            None => Effect::Nothing,
        }
    }

    /// `-` in Branches.
    pub fn checkout_previous(&self, store: &RepoStore) -> (r: Effect)
        requires
            self@.wf(),
        ensures
            r@ == self@.op_effect(store@, "Checking out"@, OpView::Checkout { name: "-"@ }),
    {
        self.op(store, "Checking out", Op::Checkout { name: "-".to_owned() })
    }

    /// Where a new branch starts, and the name that is suggested for it.
    fn start_of_branch(&self, store: &RepoStore) -> (r: (Option<String>, String))
        requires
            self@.wf(),
        ensures
            text_opt(r.0) == self@.branch_start(store@),
            r.1@ == self@.branch_suggestion(store@),
    {
        let view = self.current_view();
        match self.picked(view, store) {
            Some((d, ix)) => match view {
                PaneView::Branches => (Some(d.branches[ix].name.clone()), empty_text()),
                PaneView::Remotes => {
                    let branch = &d.remote_branches[ix];
                    (
                        Some(cat3(branch.remote.as_str(), "/", branch.name.as_str())),
                        branch.name.clone(),
                    )
                },
                PaneView::Tags => (Some(d.tags[ix].name.clone()), empty_text()),
                PaneView::Commits => (Some(d.commits[ix].oid.clone()), empty_text()),
                _ => (None, empty_text()),
            },
            None => (None, empty_text()),
        }
    }

    /// `n` in Branches, Remotes, Tags and Commits.
    pub fn new_branch(&mut self, store: &RepoStore)
        requires
            old(self)@.wf(),
        ensures
            final(self)@ == old(self)@.new_branch_asked(store@),
            final(self)@.wf(),
    {
        let root = match self.selected_root(store) {
            Some(root) => root,
            None => {
                return;
            },
        };
        let (start, suggestion) = self.start_of_branch(store);
        let title = match &start {
            Some(start) => {
                let rev = short_rev(start.as_str());
                cat3("New branch name (from ", rev.as_str(), ")")
            },
            None => "New branch name".to_owned(),
        };
        self.prompt(title, suggestion, Asked::NewBranch { root, start });
    }

    /// `d` in Branches.
    pub fn delete_branch(&mut self, store: &RepoStore)
        requires
            old(self)@.wf(),
        ensures
            final(self)@ == old(self)@.delete_asked(store@),
            final(self)@.wf(),
    {
        let branch = match self.selected_branch(store) {
            Some(branch) => branch,
            None => {
                return;
            },
        };
        if branch.is_head {
            self.show_message("Delete branch", "You cannot delete the checked-out branch.".to_owned());
            return;
        }
        if let Some(root) = self.selected_root(store) {
            let message = cat3("Delete branch '", branch.name.as_str(), "'?");
            let next = Then::RunOp {
                root: root.clone(),
                label: "Deleting branch",
                op: Op::DeleteBranch { name: branch.name.clone(), force: false },
                after: After::Delete { root, name: branch.name },
            };
            self.confirm("Delete branch", message, next);
        }
    }

    /// `f` in Branches.
    pub fn fast_forward(&self, store: &RepoStore) -> (r: Effect)
        requires
            self@.wf(),
        ensures
            r@ == self@.fast_forward_effect(store@),
    {
        match self.selected_branch(store) {
            Some(target) => self.op(store, "Fast-forwarding", Op::FastForward { target }),
            None => Effect::Nothing,
        }
    }

    /// `u` in Branches.
    pub fn set_upstream(&mut self, store: &RepoStore)
        requires
            old(self)@.wf(),
        ensures
            final(self)@ == old(self)@.upstream_asked(store@),
            final(self)@.wf(),
    {
        let branch = match self.selected_branch(store) {
            Some(branch) => branch,
            None => {
                return;
            },
        };
        let remote = match store.selected_entry() {
            Some(entry) => match &entry.summary {
                Some(s) => primary_remote(s.remotes.as_slice(), None),
                None => None,
            },
            None => None,
        };
        match remote {
            None => {
                self.show_message("Set upstream", "This repository has no remote.".to_owned());
            },
            Some(remote) => {
                let suggestion = cat3(remote, "/", branch.name.as_str());
                let title = cat3("Upstream for '", branch.name.as_str(), "'");
                self.prompt(title, suggestion, Asked::SetUpstream { branch: branch.name });
            },
        }
    }

    /// `space` in Stash.
    pub fn stash_apply(&self, store: &RepoStore) -> (r: Effect)
        requires
            self@.wf(),
        ensures
            r@ == self@.apply_effect(store@),
    {
        match self.selected_stash(store) {
            Some(stash) => self.op(store, "Applying stash", Op::StashApply { index: stash.index }),
            None => Effect::Nothing,
        }
    }

    /// `g` in Stash.
    pub fn stash_pop(&self, store: &RepoStore) -> (r: Effect)
        requires
            self@.wf(),
        ensures
            r@ == self@.pop_effect(store@),
    {
        match self.selected_stash(store) {
            Some(stash) => self.op(store, "Popping stash", Op::StashPop { index: stash.index }),
            None => Effect::Nothing,
        }
    }

    /// `r` in Stash.
    pub fn rename_stash(&mut self, store: &RepoStore)
        requires
            old(self)@.wf(),
        ensures
            final(self)@ == old(self)@.rename_asked(store@),
            final(self)@.wf(),
    {
        match (self.selected_stash(store), self.selected_root(store)) {
            (Some(stash), Some(root)) => {
                let initial = if str_starts_with(stash.subject.as_str(), "On ") {
                    match stash_subject_parts(stash.subject.as_str()) {
                        Some((_, message)) => message.to_owned(),
                        None => empty_text(),
                    }
                } else {
                    empty_text()
                };
                let selector = crate::ops::selector(stash.index);
                let title = cat2("Rename ", selector.as_str());
                self.prompt(title, initial, Asked::RenameStash { root, stash });
            },
            _ => {},
        }
    }

    /// `n` in Stash.
    pub fn branch_from_stash(&mut self, store: &RepoStore)
        requires
            old(self)@.wf(),
        ensures
            final(self)@ == old(self)@.stash_branch_asked(store@),
            final(self)@.wf(),
    {
        match (self.selected_stash(store), self.selected_root(store)) {
            (Some(stash), Some(root)) => {
                let selector = crate::ops::selector(stash.index);
                let title = cat2("New branch from ", selector.as_str());
                self.prompt(title, empty_text(), Asked::StashBranch { root, index: stash.index });
            },
            _ => {},
        }
    }

    /// `d` in Stash.
    pub fn stash_drop(&mut self, store: &RepoStore)
        requires
            old(self)@.wf(),
        ensures
            final(self)@ == old(self)@.drop_asked(store@),
            final(self)@.wf(),
    {
        match (self.selected_stash(store), self.selected_root(store)) {
            (Some(stash), Some(root)) => {
                let selector = crate::ops::selector(stash.index);
                let message = cat3("Drop ", selector.as_str(), "?");
                let next = Then::RunOp {
                    root,
                    label: "Dropping stash",
                    op: Op::StashDrop { index: stash.index },
                    after: After::Show,
                };
                self.confirm("Drop stash", message, next);
            },
            _ => {},
        }
    }
}

} // verus!
