//! What the keys that change a repo lead to.

use vstd::prelude::*;

use crate::batch::{planned, push_rejected, BatchView, OutcomeView, RowView};
use crate::git::ErrorView;
use crate::model::{BranchView, FileKind, FileView, StashView};
use crate::ops::{failed_saying, subject_parts, valid_branch_name, PatchAction, StashKind};
use crate::store::{EntryView, StoreView};
use crate::summary::main_remote;
use crate::text::number::next_count;
use crate::text::strings::trim;
use crate::ui::actions::{files_of, is_hex, rev_text, stash_menu, unborn_head, BuiltView};
use crate::ui::dialog::{AfterView, AskedView, DialogView, EffectView, MenuItem, ThenView};
use crate::ui::marks::behind_roots;
use crate::ui::op::OpView;
use crate::ui::panel::PaneView;
use crate::ui::popups::{busy_lines, first_with_key};
use crate::ui::workspace::WorkspaceView;

verus! {

/// Whether what is set off runs an operation on the selected repo.
pub open spec fn runs_at_once(w: WorkspaceView, store: StoreView, effect: EffectView, op: OpView) -> bool {
    effect matches EffectView::Run { root, label, op: run, after } && w.selected_root(store) == Some(root) && run == op
        && after is Show
}

/// Whether a question is asked that, once confirmed, runs an operation on the selected repo.
pub open spec fn runs_when_confirmed(w: WorkspaceView, store: StoreView, asking: WorkspaceView, op: OpView) -> bool {
    asking.dialog matches Some(DialogView::Confirm { title, message, next }) && (next matches ThenView::RunOp {
        root,
        label,
        op: run,
        after,
    } && w.selected_root(store) == Some(root) && run == op)
}

/// `space` in Files stages or unstages the selected file, at once.
pub proof fn law_space_in_files(w: WorkspaceView, store: StoreView, file: FileView)
    requires
        w.current_view() == PaneView::Files,
        w.selected_root(store) is Some,
        w.selected_file(store) == Some(file),
    ensures
        runs_at_once(w, store, w.stage_toggled(store).1, OpView::ToggleStage { file, unborn: unborn_head(store) }),
{
}

/// `a` in Files stages or unstages all files of the repo; with no files it does nothing.
pub proof fn law_all_in_files(w: WorkspaceView, store: StoreView)
    requires
        w.selected_root(store) is Some,
    ensures
        files_of(store).len() > 0 ==> runs_at_once(w, store, w.stage_all_effect(store),
            OpView::ToggleStageAll { files: files_of(store), unborn: unborn_head(store) },
        ),
        files_of(store).len() == 0 ==> w.stage_all_effect(store) is Nothing,
{
}

/// Whether what an action applies is the patch of exactly the selected lines of the half that
/// is shown.
pub open spec fn applies_selection(w: WorkspaceView, store: StoreView, effect: EffectView, action: PatchAction) -> bool {
    effect matches EffectView::Run { root, label, op, after } && {
        &&& Some(root) == w.selected_root(store)
        &&& after is Patch
        &&& op matches OpView::Apply { patch, action: a } && a == action && (w.main.content.half(
            w.staging.staged,
        ) matches Some(half) && patch == half.patch.patch_text(w.staging.selected(half.patch, action)))
    }
}

/// `space` in the staging view stages the selection from the unstaged half and takes it back
/// out from the staged half. Until the new diff is there, no other patch is applied, and a
/// range is gone. While one is awaited it does nothing.
pub proof fn law_space_in_staging(w: WorkspaceView, store: StoreView)
    requires
        w.current_view() == PaneView::Staging,
    ensures
        ({
            let action = if w.staging.staged {
                PatchAction::Unstage
            } else {
                PatchAction::Stage
            };
            let after = w.stage_toggled(store).0;
            let effect = w.stage_toggled(store).1;
            &&& effect is Nothing || applies_selection(w, store, effect, action)
            &&& effect is Run ==> after.staging.pending is Some && after.staging.anchor is None && after.staging.cursor
                == w.staging.cursor && after.staging.staged == w.staging.staged && after.dialog == w.dialog
            &&& w.staging.pending is Some ==> effect is Nothing && after == w
            &&& w.selected_root(store) is Some && w.built(action) is Patch ==> effect is Run
            &&& w.built(action) is Conflict ==> after.dialog is Some && after.dialog->0 is Error
        }),
{
}

/// `d` in the staging view takes the selection out of the index in the staged half, at once.
/// In the unstaged half it asks first, and then reverts just the selection.
pub proof fn law_discard_in_staging(w: WorkspaceView, store: StoreView)
    requires
        w.current_view() == PaneView::Staging,
    ensures
        ({
            let after = w.discard_asked(store).0;
            let effect = w.discard_asked(store).1;
            &&& w.staging.staged ==> effect is Nothing || applies_selection(w, store, effect, PatchAction::Unstage)
            &&& w.staging.staged && w.selected_root(store) is Some && w.built(PatchAction::Unstage) is Patch
                ==> effect is Run
            &&& !w.staging.staged ==> effect is Nothing
            &&& !w.staging.staged ==> (w.built(PatchAction::Discard) matches BuiltView::Patch(patch) ==> (
            after.dialog matches Some(DialogView::Confirm { title, message, next }) && next == (ThenView::ApplyPatch {
                patch,
                action: PatchAction::Discard,
            })))
        }),
{
}

/// `d` in Files throws nothing away before it is confirmed, and then just the selected file's
/// changes.
pub proof fn law_discard_in_files(w: WorkspaceView, store: StoreView, file: FileView)
    requires
        w.current_view() == PaneView::Files,
        w.selected_root(store) is Some,
        w.selected_file(store) == Some(file),
    ensures
        runs_when_confirmed(w, store, w.discard_asked(store).0, OpView::Discard { file }),
{
}

/// `c` opens the commit editor exactly if something is staged and nothing is in conflict, for
/// a new commit with an empty message; else it says why not.
pub proof fn law_commit_needs_something_staged(w: WorkspaceView, store: StoreView, root: Seq<u8>)
    requires
        w.selected_root(store) == Some(root),
    ensures
        ({
            let files = files_of(store);
            let after = w.commit_asked(store);
            let conflict = exists|i: int| 0 <= i < files.len() && (#[trigger] files[i]).kind == FileKind::Unmerged;
            let staged = exists|i: int| 0 <= i < files.len() && (#[trigger] files[i]).staged();
            &&& !conflict && staged ==> after.dialog == Some(
                DialogView::Commit { amend: false, root, message: Seq::empty() },
            )
            &&& conflict || !staged ==> after.dialog is Some && after.dialog->0 is Error
        }),
{
}

/// `A` asks for the last message exactly if there is a commit to amend.
pub proof fn law_amend_needs_a_commit(w: WorkspaceView, store: StoreView, root: Seq<u8>)
    requires
        w.selected_root(store) == Some(root),
        store.entry(root) is Some,
    ensures
        !unborn_head(store) ==> w.amend_asked(store).1 == (EffectView::LastMessage { root }),
        unborn_head(store) ==> w.amend_asked(store).1 is Nothing && w.amend_asked(store).0.dialog is Some,
{
}

/// What is typed in the commit editor is committed, without the blanks around it, in the repo
/// it was opened for; a blank message commits nothing and leaves the editor open.
pub proof fn law_commits_what_was_typed(w: WorkspaceView, store: StoreView, typed: Seq<char>, root: Seq<u8>, amend: bool)
    requires
        w.dialog is Some,
        w.dialog->0 matches DialogView::Commit { amend: a, root: r, message } && a == amend && r == root,
    ensures
        ({
            let (after, effect) = w.dialog_confirmed(typed, store);
            &&& trim(typed).len() == 0 ==> effect is Nothing && after == w
            &&& trim(typed).len() > 0 ==> after.dialog is None && (effect matches EffectView::Run {
                root: r,
                label,
                op,
                after,
            } && r == root && op == (OpView::Commit { message: trim(typed), amend }))
        }),
{
}

/// `s` and the stash menu ask for a message if there is anything of that kind to stash: the
/// kind is the one that was asked for, and the message may stay empty.
pub proof fn law_stashing_asks_for_a_message(w: WorkspaceView, store: StoreView, kind: StashKind, root: Seq<u8>)
    requires
        w.selected_root(store) == Some(root),
    ensures
        ({
            let files = files_of(store);
            let after = w.stash_asked(kind, store);
            let something = match kind {
                StashKind::Staged => exists|i: int| 0 <= i < files.len() && (#[trigger] files[i]).staged(),
                StashKind::TrackedFiles => exists|i: int|
                    0 <= i < files.len() && (#[trigger] files[i]).kind != FileKind::Untracked,
                _ => files.len() > 0,
            };
            &&& something ==> (after.dialog matches Some(DialogView::Prompt {
                title,
                initial,
                placeholder,
                allow_empty,
                asked,
            }) && allow_empty && initial.len() == 0 && asked == (AskedView::Stash { root, kind }))
            &&& !something ==> after.dialog is Some && after.dialog->0 is Error
        }),
{
}

/// The stash menu has one entry for each kind, each under the letter of its own.
pub proof fn law_stash_menu_has_every_kind()
    ensures
        stash_menu().len() == 4,
        stash_menu()[0].kind is All && stash_menu()[0].key@ == "a"@,
        stash_menu()[1].kind is KeepIndex && stash_menu()[1].key@ == "i"@,
        stash_menu()[2].kind is TrackedFiles && stash_menu()[2].key@ == "t"@,
        stash_menu()[3].kind is Staged && stash_menu()[3].key@ == "s"@,
{
}

/// The chosen entry of a menu is the one that is done.
pub proof fn law_menus_do_what_was_chosen(
    w: WorkspaceView,
    store: StoreView,
    title: Seq<char>,
    items: Seq<MenuItem>,
    selected: int,
    typed: Seq<char>,
    ix: int,
)
    requires
        w.dialog == Some(DialogView::Menu { title, items, selected }),
        0 <= selected < items.len(),
        0 <= ix < items.len(),
    ensures
        ({
            let closed = WorkspaceView { dialog: None, ..w };
            &&& w.dialog_confirmed(typed, store) == (
                closed.stash_asked(items[selected].kind, store),
                EffectView::Nothing,
            )
            &&& w.item_picked(ix, store) == (closed.stash_asked(items[ix].kind, store), EffectView::Nothing)
        }),
{
}

/// A letter chooses the first entry that has it.
pub proof fn law_letters_choose_entries(items: Seq<MenuItem>, key: Seq<char>)
    ensures
        match first_with_key(items, key) {
            Some(i) => 0 <= i < items.len() && items[i].key@ == key && forall|j: int|
                0 <= j < i ==> (#[trigger] items[j]).key@ != key,
            None => forall|j: int| 0 <= j < items.len() ==> (#[trigger] items[j]).key@ != key,
        },
    decreases items.len(),
{
    if items.len() > 0 {
        let before = items.drop_last();
        law_letters_choose_entries(before, key);
        assert forall|j: int| 0 <= j < before.len() implies before[j] == items[j] by {}
        match first_with_key(before, key) {
            Some(i) => {
                assert(before[i] == items[i]);
                assert forall|j: int| 0 <= j < i implies (#[trigger] items[j]).key@ != key by {
                    assert(before[j] == items[j]);
                }
            },
            None => {
                assert forall|j: int| 0 <= j < items.len() - 1 implies (#[trigger] items[j]).key@ != key by {
                    assert(before[j] == items[j]);
                }
            },
        }
    }
}

/// `space` checks out what is selected: the branch, the remote's branch, the tag or the
/// commit; elsewhere it checks out nothing.
pub proof fn law_space_checks_out_the_selection(w: WorkspaceView, store: StoreView, ix: int)
    requires
        w.selected_root(store) is Some,
        store.selected_detail() is Some,
        w.selected_ix(w.current_view(), store) == Some(ix),
    ensures
        ({
            let d = store.selected_detail()->0;
            match w.current_view() {
                PaneView::Branches => runs_at_once(w, store, w.checkout_effect(store),
                    OpView::Checkout { name: d.branches[ix].name },
                ),
                PaneView::Remotes => runs_at_once(w, store, w.checkout_effect(store),
                    OpView::CheckoutRemote { from: d.remote_branches[ix] },
                ),
                PaneView::Tags => runs_at_once(w, store, w.checkout_effect(store), OpView::Checkout { name: d.tags[ix].name }),
                PaneView::Commits => runs_at_once(w, store, w.checkout_effect(store),
                    OpView::Checkout { name: d.commits[ix].oid },
                ),
                _ => w.checkout_effect(store) is Nothing,
            }
        }),
{
}

/// `n` asks for the name of a branch that starts at what is selected, suggesting a remote
/// branch's own name; the name that is typed is the one that is made, there and in that repo.
pub proof fn law_new_branches_start_at_the_selection(w: WorkspaceView, store: StoreView, ix: int, root: Seq<u8>)
    requires
        w.selected_root(store) == Some(root),
        store.selected_detail() is Some,
        w.selected_ix(w.current_view(), store) == Some(ix),
    ensures
        ({
            let d = store.selected_detail()->0;
            let at = match w.current_view() {
                PaneView::Branches => Some(d.branches[ix].name),
                PaneView::Remotes => Some(d.remote_branches[ix].remote + seq!['/'] + d.remote_branches[ix].name),
                PaneView::Tags => Some(d.tags[ix].name),
                PaneView::Commits => Some(d.commits[ix].oid),
                _ => None,
            };
            w.new_branch_asked(store).dialog matches Some(DialogView::Prompt {
                title,
                initial,
                placeholder,
                allow_empty,
                asked,
            }) && !allow_empty && asked == (AskedView::NewBranch { root, start: at }) && initial == (
            if w.current_view() == PaneView::Remotes {
                d.remote_branches[ix].name
            } else {
                Seq::empty()
            })
        }),
{
    reveal_strlit("/");
    assert("/"@ =~= seq!['/']);
}

/// What is answered is what is done: each answer goes to the repo and the item it was asked
/// for. A name that misleads git is refused.
pub proof fn law_answers_are_acted_on(
    w: WorkspaceView,
    store: StoreView,
    value: Seq<char>,
    root: Seq<u8>,
    start: Option<Seq<char>>,
    branch: Seq<char>,
    stash: StashView,
    index: nat,
    kind: StashKind,
    targets: Seq<Seq<u8>>,
)
    ensures
        w.answered(AskedView::NewBranch { root, start }, value, store).1 matches EffectView::Run { root: r, op, .. } && r
            == root && op == (OpView::NewBranch { name: value, start }),
        w.answered(AskedView::RenameStash { root, stash }, value, store).1 == (EffectView::Rename {
            root,
            stash,
            message: value,
        }),
        w.answered(AskedView::Stash { root, kind }, value, store).1 matches EffectView::Run { root: r, op, .. } && r
            == root && op == (OpView::Stash { kind, message: value }),
        w.selected_root(store) == Some(root) ==> (w.answered(
            AskedView::SetUpstream { branch },
            value,
            store,
        ).1 matches EffectView::Run { root: r, op, .. } && r == root && op == (OpView::SetUpstream {
            branch,
            upstream: value,
        })),
        valid_branch_name(value) ==> (w.answered(
            AskedView::StashBranch { root, index },
            value,
            store,
        ).1 matches EffectView::Run { root: r, op, .. } && r == root && op == (OpView::StashBranch {
            index,
            name: value,
        })),
        valid_branch_name(value) ==> w.answered(AskedView::CheckoutIn { targets }, value, store) == w.batch_run(
            BatchView::Checkout(value),
            targets,
            store,
        ),
        valid_branch_name(value) ==> w.answered(AskedView::BranchIn { targets }, value, store) == w.batch_run(
            BatchView::NewBranch(value),
            targets,
            store,
        ),
        !valid_branch_name(value) ==> {
            &&& w.answered(AskedView::StashBranch { root, index }, value, store).1 is Nothing
            &&& w.answered(AskedView::CheckoutIn { targets }, value, store).1 is Nothing
            &&& w.answered(AskedView::BranchIn { targets }, value, store).1 is Nothing
            &&& w.answered(AskedView::CheckoutIn { targets }, value, store).0.dialog is Some
        },
{
}

/// A prompt passes on what was typed, without the blanks around it; an empty answer does
/// nothing unless it may be empty. A question that is confirmed runs what it was about.
pub proof fn law_confirming_runs_what_was_asked(
    w: WorkspaceView,
    store: StoreView,
    typed: Seq<char>,
    title: Seq<char>,
    text: Seq<char>,
    placeholder: Seq<char>,
    allow_empty: bool,
    asked: AskedView,
    next: ThenView,
)
    ensures
        ({
            let closed = WorkspaceView { dialog: None, ..w };
            let prompt = WorkspaceView {
                dialog: Some(DialogView::Prompt { title, initial: text, placeholder, allow_empty, asked }),
                ..w
            };
            let question = WorkspaceView { dialog: Some(DialogView::Confirm { title, message: text, next }), ..w };
            let quit = WorkspaceView { dialog: Some(DialogView::Quit { message: text }), ..w };
            &&& allow_empty || trim(typed).len() > 0 ==> prompt.dialog_confirmed(typed, store) == closed.answered(
                asked,
                trim(typed),
                store,
            )
            &&& !allow_empty && trim(typed).len() == 0 ==> prompt.dialog_confirmed(typed, store) == (
                closed,
                EffectView::Nothing,
            )
            &&& next matches ThenView::RunOp { root, label, op, after } ==> question.dialog_confirmed(typed, store) == (
                closed,
                EffectView::Run { root, label, op, after },
            )
            &&& next matches ThenView::RunBatch { batch, targets } ==> question.dialog_confirmed(typed, store)
                == closed.batch_run(batch, targets, store)
            &&& next matches ThenView::ApplyPatch { patch, action } ==> (question.dialog_confirmed(
                typed,
                store,
            ).1 matches EffectView::Run { op, .. } ==> op == (OpView::Apply { patch, action }))
            &&& quit.dialog_confirmed(typed, store).1 is Quit
        }),
{
}

/// `d` in Branches asks first, and then deletes that branch without force; the branch that is
/// checked out is never deleted.
pub proof fn law_branches_are_deleted_after_asking(w: WorkspaceView, store: StoreView, branch: BranchView)
    requires
        w.selected_branch(store) == Some(branch),
        w.selected_root(store) is Some,
    ensures
        !branch.is_head ==> runs_when_confirmed(w, store, w.delete_asked(store),
            OpView::DeleteBranch { name: branch.name, force: false },
        ),
        branch.is_head ==> (w.delete_asked(store).dialog matches Some(DialogView::Error { title, message })),
{
}

/// `f` in Branches fast-forwards the selected branch; `u` asks for its upstream, suggesting
/// the branch of its name on the main remote.
pub proof fn law_branches_follow_their_upstream(w: WorkspaceView, store: StoreView, branch: BranchView, e: EntryView)
    requires
        w.selected_branch(store) == Some(branch),
        w.selected_root(store) is Some,
        store.selected_entry() == Some(e),
        e.summary is Some,
    ensures
        runs_at_once(w, store, w.fast_forward_effect(store), OpView::FastForward { target: branch }),
        ({
            let after = w.upstream_asked(store);
            match main_remote(e.summary->0.remotes, None) {
                Some(remote) => after.dialog matches Some(DialogView::Prompt {
                    title,
                    initial,
                    placeholder,
                    allow_empty,
                    asked,
                }) && asked == (AskedView::SetUpstream { branch: branch.name }) && initial == remote + seq!['/']
                    + branch.name,
                None => after.dialog is Some && after.dialog->0 is Error,
            }
        }),
{
    reveal_strlit("/");
    assert("/"@ =~= seq!['/']);
}

/// In Stash, `space` applies the selected stash and `g` pops it, at once; `d` drops it after
/// asking; `r` asks for a new message, starting from the user's own; `n` for a branch name.
pub proof fn law_stash_keys_act_on_the_selection(w: WorkspaceView, store: StoreView, stash: StashView, root: Seq<u8>)
    requires
        w.selected_stash(store) == Some(stash),
        w.selected_root(store) == Some(root),
    ensures
        runs_at_once(w, store, w.apply_effect(store), OpView::StashApply { index: stash.index }),
        runs_at_once(w, store, w.pop_effect(store), OpView::StashPop { index: stash.index }),
        runs_when_confirmed(w, store, w.drop_asked(store), OpView::StashDrop { index: stash.index }),
        w.rename_asked(store).dialog matches Some(DialogView::Prompt {
            title,
            initial,
            placeholder,
            allow_empty,
            asked,
        }) && !allow_empty && asked == (AskedView::RenameStash { root, stash }) && initial == (if subject_parts(
            stash.subject,
        ) is Some && "On "@.is_prefix_of(stash.subject) {
            (subject_parts(stash.subject)->0).1
        } else {
            Seq::empty()
        }),
        w.stash_branch_asked(store).dialog matches Some(DialogView::Prompt {
            title,
            initial,
            placeholder,
            allow_empty,
            asked,
        }) && !allow_empty && initial.len() == 0 && asked == (AskedView::StashBranch { root, index: stash.index }),
{
}

/// `f`, `p` and `P` concern the marked repos when started from the Repos panel, and else the
/// selected one. Pushes of several repos ask first; one alone goes out at once, not forced,
/// if there is a branch to push and a remote to push to.
pub proof fn law_fetch_pull_and_push(w: WorkspaceView, store: StoreView, root: Seq<u8>, e: EntryView)
    requires
        w.selected_root(store) == Some(root),
        store.entry(root) == Some(e),
        e.summary is Some,
    ensures
        w.marked_targets(store) matches Some(roots) ==> {
            &&& w.fetch_effect(store) == (EffectView::FetchMany { roots })
            &&& w.pull_run(store) == w.batch_run(BatchView::Pull, roots, store)
            &&& w.push_run(store).1 is Nothing
            &&& w.push_run(store).0.dialog matches Some(DialogView::Confirm {
                title,
                message,
                next,
            }) && next == (ThenView::RunBatch { batch: BatchView::Push, targets: roots })
        },
        w.marked_targets(store) is None ==> {
            let s = e.summary->0;
            let remote = main_remote(s.remotes, None);
            &&& w.fetch_effect(store) == (EffectView::Fetch { root })
            &&& runs_at_once(w, store, w.pull_run(store).1, OpView::Pull)
            &&& s.head is Detached || s.remotes.len() == 0 ==> w.push_run(store).1 is Nothing
                && w.push_run(store).0.dialog is Some
            &&& !(s.head is Detached) && s.remotes.len() > 0 ==> (w.push_run(store).1 matches EffectView::Run { root: r, label, op, after } && r == root && op == (OpView::Push {
                has_upstream: s.upstream is Tracking,
                remote,
                force: false,
            }) && after == (AfterView::Push { root, has_upstream: s.upstream is Tracking, remote }))
        },
{
    crate::laws::switching::law_main_remote(e.summary->0.remotes, Seq::empty());
}

/// In the Repos panel, `c` and `n` ask for a branch name for the targets, `m` runs on one
/// target at once and asks before it runs on several.
pub proof fn law_repo_keys_act_on_the_targets(w: WorkspaceView, store: StoreView)
    requires
        w.targets(store).len() > 0,
    ensures
        ({
            let targets = w.targets(store);
            let several = w.marked_targets(store) is Some && w.marked_targets(store)->0.len() > 1;
            &&& w.checkout_asked(store).dialog matches Some(DialogView::Prompt {
                title,
                initial,
                placeholder,
                allow_empty,
                asked,
            }) && !allow_empty && asked == (AskedView::CheckoutIn { targets })
            &&& w.branch_asked(store).dialog matches Some(DialogView::Prompt {
                title,
                initial,
                placeholder,
                allow_empty,
                asked,
            }) && !allow_empty && asked == (AskedView::BranchIn { targets })
            &&& !several ==> w.default_run(store).0 == w.batch_run(
                BatchView::DefaultBranch,
                targets,
                store,
            ).0 && w.default_run(store).1 == w.batch_run(
                BatchView::DefaultBranch,
                targets,
                store,
            ).1
            &&& several ==> w.default_run(store).1 is Nothing && (w.default_run(store).0.dialog matches Some(DialogView::Confirm { title, message, next }) && next == (ThenView::RunBatch {
                batch: BatchView::DefaultBranch,
                targets,
            }))
        }),
{
}

/// `U` asks before it fast-forwards: the marked repos, or without marks every repo that can
/// be. It waits for a round of fetches, and says so if no repo can be.
pub proof fn law_fast_forward_all_asks_first(w: WorkspaceView, store: StoreView)
    ensures
        ({
            let after = w.fast_forward_asked(store);
            let roots = if w.marked_targets(store) is Some {
                w.marked_targets(store)->0
            } else {
                behind_roots(store.repos)
            };
            &&& store.fetch_round is Some || roots.len() == 0 ==> after.dialog is Some && after.dialog->0 is Error
            &&& store.fetch_round is None && roots.len() > 0 ==> (after.dialog matches Some(DialogView::Confirm {
                title,
                message,
                next,
            }) && next == (ThenView::RunBatch { batch: BatchView::FastForward, targets: roots }))
        }),
{
}

/// A repo can be fast-forwarded without a mark exactly if it passes the common checks and is
/// only behind its upstream; they are taken in the order of the list.
pub proof fn law_repos_that_can_be_forwarded(repos: Seq<EntryView>, e: EntryView)
    ensures
        behind_roots(repos.push(e)) == (if crate::batch::prechecked(e) is Ok && crate::laws::batches::runs(
            BatchView::FastForward,
            crate::batch::prechecked(e)->Ok_0,
        ) {
            behind_roots(repos).push(e.location.root)
        } else {
            behind_roots(repos)
        }),
        behind_roots(Seq::empty()).len() == 0,
{
    assert(repos.push(e).drop_last() =~= repos);
}

/// Starting an action on several repos shows what was planned, under its title; of a single
/// repo only a problem is told. What runs is what was planned, under a number of its own.
pub proof fn law_batches_show_their_plan(w: WorkspaceView, store: StoreView, batch: BatchView, targets: Seq<Seq<u8>>)
    ensures
        ({
            let (rows, jobs) = planned(batch, store, targets);
            let (after, effect) = w.batch_run(batch, targets, store);
            let id = next_count(w.last_batch);
            &&& effect == (EffectView::RunBatch { id, batch, single: rows.len() == 1, jobs })
            &&& after.last_batch == id
            &&& rows.len() != 1 ==> after.dialog == Some(DialogView::Results { id, title: batch.title(), rows })
            &&& rows.len() == 1 ==> match rows[0].outcome.problem() {
                Some(message) => after.dialog == Some(
                    DialogView::Error { title: batch.title(), message: rows[0].name + ": "@ + message },
                ),
                None => after.dialog == w.dialog,
            }
        }),
{
}

/// A result fills in its own row of the popup that shows its action, and no other; results of
/// an action that is no longer shown change nothing.
pub proof fn law_results_fill_in_their_row(
    w: WorkspaceView,
    id: u64,
    showing: u64,
    title: Seq<char>,
    rows: Seq<RowView>,
    row: int,
    name: Seq<char>,
    outcome: OutcomeView,
    k: int,
)
    requires
        w.dialog == Some(DialogView::Results { id: showing, title, rows }),
        0 <= row < rows.len(),
        0 <= k < rows.len(),
    ensures
        ({
            let after = w.batch_settled(id, title, false, row, name, outcome);
            &&& showing != id ==> after == w
            &&& showing == id ==> (after.dialog matches Some(DialogView::Results { id: i, title: t, rows: now }) && i == id
                && t == title && now.len() == rows.len() && now[k].name == rows[k].name && now[k].outcome == (if k
                == row {
                outcome
            } else {
                rows[k].outcome
            }))
        }),
{
}

/// What failed is told under what it was. A rejected push asks whether to force it, with a
/// branch that isn't merged whether to delete it anyway; nothing is forced before that.
pub proof fn law_failures_are_shown(
    w: WorkspaceView,
    label: Seq<char>,
    error: ErrorView,
    root: Seq<u8>,
    has_upstream: bool,
    remote: Option<Seq<char>>,
    name: Seq<char>,
)
    ensures
        w.op_failed(AfterView::Show, label, error).dialog == Some(
            DialogView::Error { title: label, message: error.details() },
        ),
        ({
            let after = w.op_failed(AfterView::Push { root, has_upstream, remote }, label, error);
            &&& !push_rejected(error) ==> after.dialog == Some(
                DialogView::Error { title: "Push"@, message: error.details() },
            )
            &&& push_rejected(error) ==> (after.dialog matches Some(DialogView::Confirm { title, message, next }) && (
            next matches ThenView::RunOp { root: r, label, op, after } && r == root && op == (OpView::Push {
                has_upstream,
                remote,
                force: true,
            })))
        }),
        ({
            let after = w.op_failed(AfterView::Delete { root, name }, label, error);
            &&& !failed_saying(error, "not fully merged") ==> after.dialog is Some && after.dialog->0 is Error
            &&& failed_saying(error, "not fully merged") ==> (after.dialog matches Some(DialogView::Confirm {
                title,
                message,
                next,
            }) && (next matches ThenView::RunOp { root: r, label, op, after } && r == root && op == (
            OpView::DeleteBranch { name, force: true })))
        }),
        ({
            let after = w.op_failed(AfterView::Patch, label, error);
            after.staging.pending is None && after.dialog == Some(
                DialogView::Error { title: label, message: error.details() },
            )
        }),
{
}

/// A renamed stash is at the top, so that is where the cursor goes; an applied patch waits
/// for a new diff.
pub proof fn law_operations_that_are_done(w: WorkspaceView, store: StoreView)
    ensures
        w.op_done(AfterView::Show, store) == (w, store, None::<crate::ui::workspace::JobsView>),
        w.op_done(AfterView::Rename, store) == ({
            let (after, s, jobs) = w.with_cursor(PaneView::Stash, 0).synced(store);
            (after, s, Some(jobs))
        }),
        w.op_done(AfterView::Patch, store).0.staging.pending == Some(next_count(w.main.loads)),
        w.main.key is Some ==> w.op_done(AfterView::Patch, store).2 is Some,
{
}

/// `q` asks, or quits at once if the user wants that and git isn't running anywhere. A second
/// quit while it asks quits.
pub proof fn law_quitting(w: WorkspaceView, store: StoreView)
    ensures
        ({
            let idle = busy_lines(store.repos).len() == 0;
            let quits = w.quit_asked(store.config.confirm_quit, store).1;
            let app = w.app_quit_asked(store).1;
            let asking = w.dialog is Some && w.dialog->0 is Quit;
            &&& quits is Quit <==> idle && !store.config.confirm_quit
            &&& !(quits is Quit) ==> quits is Nothing && (w.quit_asked(store.config.confirm_quit, store).0.dialog matches Some(
                DialogView::Quit { message },
            ))
            &&& app is Quit <==> idle || asking
        }),
{
}

/// A line for every busy repo and for no other, with its name and what it is doing.
pub proof fn law_busy_repos_are_listed(repos: Seq<EntryView>, e: EntryView)
    ensures
        busy_lines(repos.push(e)) == (match e.busy {
            Some(label) => busy_lines(repos).push("  "@ + e.location.name + "  ("@ + label + ")"@),
            None => busy_lines(repos),
        }),
        busy_lines(Seq::empty()).len() == 0,
{
    assert(repos.push(e).drop_last() =~= repos);
}

/// A full commit id is shown by its first eight characters, anything else as it is.
pub proof fn law_revisions_are_shown_short(rev: Seq<char>)
    ensures
        rev_text(rev) == rev || rev_text(rev) == rev.take(8) && rev.len() == 40,
        rev.len() != 40 ==> rev_text(rev) == rev,
        rev.len() == 40 && (forall|i: int|
            0 <= i < 40 ==> '0' <= #[trigger] rev[i] <= '9' || 'a' <= rev[i] <= 'f' || 'A' <= rev[i] <= 'F')
            ==> rev_text(rev) == rev.take(8),
{
    if rev.len() == 40 && (forall|i: int|
        0 <= i < 40 ==> '0' <= #[trigger] rev[i] <= '9' || 'a' <= rev[i] <= 'f' || 'A' <= rev[i] <= 'F') {
        assert forall|i: int| 0 <= i < 40 implies is_hex(#[trigger] rev[i]) by {}
    }
}

/// Whether the selected repo has no commits is what its summary says.
pub proof fn law_unborn_heads(store: StoreView, e: EntryView)
    requires
        store.selected_entry() == Some(e),
    ensures
        unborn_head(store) <==> e.summary is Some && e.summary->0.head is Unborn,
{
}

} // verus!
