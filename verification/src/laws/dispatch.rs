//! Which key does what.

use vstd::prelude::*;

use crate::ops::StashKind;
use crate::store::StoreView;
use crate::ui::actions::stash_menu;
use crate::ui::dialog::{DialogView, EffectView};
use crate::ui::dispatch::ReactionView;
use crate::ui::keymap::Action;
use crate::ui::moves::{Goal, MotionView};
use crate::ui::op::OpView;
use crate::ui::workspace::WorkspaceView;

verus! {

/// What a key leads to.
pub type Pressed = (WorkspaceView, StoreView, ReactionView);

/// A key that only sets something off changes nothing itself.
pub open spec fn sets_off(w: WorkspaceView, store: StoreView, pressed: Pressed, effect: EffectView) -> bool {
    pressed == (w, store, ReactionView::Effect(effect))
}

/// A key that only changes the workspace sets nothing off.
pub open spec fn only_changes(store: StoreView, pressed: Pressed, after: WorkspaceView) -> bool {
    pressed == (after, store, ReactionView::Nothing)
}

/// A key that goes somewhere else in the workspace.
pub open spec fn goes_to(pressed: Pressed, after: WorkspaceView) -> bool {
    pressed.0 == after
}

/// A key that changes the workspace and sets something off.
pub open spec fn does(store: StoreView, pressed: Pressed, both: (WorkspaceView, EffectView)) -> bool {
    pressed == (both.0, store, ReactionView::Effect(both.1))
}

/// The keys of Stash and of the lists of refs.
#[verifier::spinoff_prover]
pub proof fn law_ref_keys(w: WorkspaceView, store: StoreView)
    ensures
        sets_off(w, store, w.acted_ref(Action::Checkout, store), w.checkout_effect(store)),
        only_changes(store, w.acted_ref(Action::NewBranch, store), w.new_branch_asked(store)),
        only_changes(store, w.acted_ref(Action::DeleteBranch, store), w.delete_asked(store)),
        sets_off(w, store, w.acted_ref(Action::FastForward, store), w.fast_forward_effect(store)),
        w.acted_ref(Action::CheckoutPrevious, store).2 == ReactionView::Effect(
            w.op_effect(store, "Checking out"@, OpView::Checkout { name: "-"@ }),
        ),
        only_changes(store, w.acted_ref(Action::SetUpstream, store), w.upstream_asked(store)),
        sets_off(w, store, w.acted_ref(Action::StashApply, store), w.apply_effect(store)),
        sets_off(w, store, w.acted_ref(Action::StashPop, store), w.pop_effect(store)),
        only_changes(store, w.acted_ref(Action::StashDrop, store), w.drop_asked(store)),
        only_changes(store, w.acted_ref(Action::RenameStash, store), w.rename_asked(store)),
        only_changes(store, w.acted_ref(Action::BranchFromStash, store), w.stash_branch_asked(store)),
{
}

/// The keys of Repos, and those that fetch, pull and push.
#[verifier::spinoff_prover]
pub proof fn law_repo_keys(w: WorkspaceView, store: StoreView)
    ensures
        sets_off(w, store, w.acted_repo(Action::Fetch, store), w.fetch_effect(store)),
        does(store, w.acted_repo(Action::Pull, store), w.pull_run(store)),
        does(store, w.acted_repo(Action::Push, store), w.push_run(store)),
        only_changes(store, w.acted_repo(Action::ToggleMark, store), w.mark_toggled(store)),
        only_changes(store, w.acted_repo(Action::ToggleMarkAll, store), w.marks_toggled(store)),
        only_changes(store, w.acted_repo(Action::CheckoutByName, store), w.checkout_asked(store)),
        only_changes(store, w.acted_repo(Action::NewBranchInRepos, store), w.branch_asked(store)),
        does(store, w.acted_repo(Action::SwitchToDefault, store), w.default_run(store)),
        sets_off(w, store, w.acted_repo(Action::FetchAll, store), EffectView::FetchAll),
        only_changes(store, w.acted_repo(Action::FastForwardAll, store), w.fast_forward_asked(store)),
        sets_off(w, store, w.acted_repo(Action::OpenInLazygit, store), w.lazygit_effect(store)),
{
}

/// The keys of Files and of the staging view.
#[verifier::spinoff_prover]
pub proof fn law_staging_keys(w: WorkspaceView, store: StoreView)
    ensures
        does(store, w.acted_stage(Action::ToggleStage, store), w.stage_toggled(store)),
        sets_off(w, store, w.acted_stage(Action::ToggleStageAll, store), w.stage_all_effect(store)),
        only_changes(store, w.acted_stage(Action::Commit, store), w.commit_asked(store)),
        does(store, w.acted_stage(Action::Amend, store), w.amend_asked(store)),
        does(store, w.acted_stage(Action::Discard, store), w.discard_asked(store)),
        only_changes(store, w.acted_stage(Action::StashAll, store), w.stash_asked(StashKind::All, store)),
        w.acted_stage(Action::StashOptions, store).0.dialog matches Some(DialogView::Menu { title, items, selected })
            && items == stash_menu() && selected == 0,
        w.acted_stage(Action::ToggleSelectHunk, store).0.staging == w.staging.hunk_toggled(),
        w.acted_stage(Action::ToggleRangeSelect, store).0.staging == w.staging.range_toggled(),
        goes_to(w.acted_stage(Action::RangeSelectDown, store), w.staging_moved(true, Goal::Change { forward: true }).0),
        goes_to(w.acted_stage(Action::RangeSelectUp, store), w.staging_moved(true, Goal::Change { forward: false }).0),
        goes_to(w.acted_stage(Action::NextHunk, store), w.hunk_stepped(true).0),
        goes_to(w.acted_stage(Action::PrevHunk, store), w.hunk_stepped(false).0),
        only_changes(store, w.acted_stage(Action::ToggleStagingPanel, store), w.staging_panel_toggled(store)),
{
}

/// The keys that move a cursor or scroll.
#[verifier::spinoff_prover]
pub proof fn law_moving_keys(w: WorkspaceView, store: StoreView)
    ensures
        goes_to(w.acted_move(Action::SelectNext, 20, 40, store), w.stepped(1, store).0),
        goes_to(w.acted_move(Action::SelectPrev, 20, 40, store), w.stepped(-1, store).0),
        goes_to(w.acted_move(Action::PageDown, 20, 40, store), w.paged(true, 20, store).0),
        goes_to(w.acted_move(Action::PageUp, 20, 40, store), w.paged(false, 20, store).0),
        goes_to(w.acted_move(Action::SelectLast, 20, 40, store), w.edged(true, store).0),
        goes_to(w.acted_move(Action::SelectFirst, 20, 40, store), w.edged(false, store).0),
        w.acted_move(Action::ScrollMainDown, 20, 40, store).2 matches ReactionView::Motion(MotionView::ScrollMain(n)) && n > 0,
        w.acted_move(Action::ScrollMainUp, 20, 40, store).2 matches ReactionView::Motion(MotionView::ScrollMain(n)) && n < 0,
        w.acted_move(Action::HalfPageMainDown, 20, 40, store).2 == ReactionView::Motion(MotionView::ScrollMain(20)),
        w.acted_move(Action::HalfPageMainUp, 20, 40, store).2 == ReactionView::Motion(MotionView::ScrollMain(-20)),
{
}

/// The keys that go to the next and to the previous panel.
#[verifier::spinoff_prover]
pub proof fn law_next_panel_keys(w: WorkspaceView, store: StoreView)
    ensures
        goes_to(w.acted_focus(Action::NextPanel, store), w.panel_focused(w.main_source().after(), store).0),
        goes_to(w.acted_focus(Action::PrevPanel, store), w.panel_focused(w.main_source().before(), store).0),
{
}

/// The keys of the screen and of popups.
#[verifier::spinoff_prover]
pub proof fn law_screen_keys(w: WorkspaceView, store: StoreView, typed: Seq<char>)
    ensures
        goes_to(w.acted_screen(Action::Enter, Seq::empty(), store), w.entered(store).0),
        goes_to(w.acted_screen(Action::Back, Seq::empty(), store), w.backed(store).0),
        goes_to(w.acted_screen(Action::StartFilter, Seq::empty(), store), w.filter_started().0),
        w.acted_screen(Action::ToggleHelp, Seq::empty(), store).0.dialog == Some(DialogView::Help),
        w.acted_screen(Action::NextScreenMode, Seq::empty(), store).0.screen_mode == w.screen_mode.after(),
        w.acted_screen(Action::PrevScreenMode, Seq::empty(), store).0.screen_mode == w.screen_mode.before(),
        w.acted_screen(Action::ToggleCommandLog, Seq::empty(), store).0.show_command_log == !w.show_command_log,
        w.acted_screen(Action::Refresh, Seq::empty(), store).2 is Refresh,
        goes_to(w.acted_screen(Action::Quit, Seq::empty(), store), w.quit_asked(store.config.confirm_quit, store).0),
        w.acted_screen(Action::Quit, Seq::empty(), store).2 == ReactionView::Effect(w.quit_asked(store.config.confirm_quit, store).1),
        w.acted_screen(Action::QuitApp, Seq::empty(), store).2 == ReactionView::Effect(w.app_quit_asked(store).1),
        goes_to(w.acted_screen(Action::CloseDialog, Seq::empty(), store), w.dialog_closed(store).0),
        w.acted_screen(Action::ConfirmDialog, typed, store) == (
            w.dialog_confirmed(typed, store).0,
            store,
            ReactionView::Effect(w.dialog_confirmed(typed, store).1),
        ),
{
}

/// What each key is about.
pub proof fn law_keys_are_about()
    ensures
        Action::ToggleStage.about() is Stage && Action::ToggleStageAll.about() is Stage && Action::Commit.about() is Stage
            && Action::Amend.about() is Stage && Action::Discard.about() is Stage && Action::StashAll.about() is Stage
            && Action::StashOptions.about() is Stage && Action::ToggleRangeSelect.about() is Stage,
        Action::Checkout.about() is Ref && Action::NewBranch.about() is Ref && Action::DeleteBranch.about() is Ref
            && Action::FastForward.about() is Ref && Action::SetUpstream.about() is Ref && Action::StashApply.about() is Ref
            && Action::StashPop.about() is Ref && Action::StashDrop.about() is Ref && Action::RenameStash.about() is Ref
            && Action::BranchFromStash.about() is Ref && Action::CheckoutPrevious.about() is Ref,
        Action::Fetch.about() is Repo && Action::Pull.about() is Repo && Action::Push.about() is Repo
            && Action::ToggleMark.about() is Repo && Action::ToggleMarkAll.about() is Repo
            && Action::CheckoutByName.about() is Repo && Action::NewBranchInRepos.about() is Repo
            && Action::SwitchToDefault.about() is Repo && Action::FetchAll.about() is Repo
            && Action::FastForwardAll.about() is Repo && Action::OpenInLazygit.about() is Repo,
        Action::Quit.about() is Screen && Action::QuitApp.about() is Screen && Action::ConfirmDialog.about() is Screen
            && Action::CloseDialog.about() is Screen && Action::Refresh.about() is Screen && Action::Enter.about() is Screen
            && Action::Back.about() is Screen && Action::StartFilter.about() is Screen,
        Action::SelectNext.about() is Move && Action::SelectPrev.about() is Move && Action::PageDown.about() is Move
            && Action::PageUp.about() is Move && Action::SelectFirst.about() is Move && Action::SelectLast.about() is Move,
        Action::NextPanel.about() is Focus && Action::PrevPanel.about() is Focus && Action::NextRepo.about() is Focus
            && Action::PrevRepo.about() is Focus && Action::NextTab.about() is Focus && Action::PrevTab.about() is Focus,
{
}

} // verus!
