//! What each key does.

use vstd::prelude::*;

use crate::ops::StashKind;
use crate::store::{job_opt, DetailJob, JobView, RepoStore, StoreView};
use crate::ui::actions::stash_menu;
use crate::ui::dialog::{DialogView, Effect, EffectView};
use crate::ui::keymap::Action;
use crate::ui::marks::mark_toggled;
use crate::ui::moves::{jobs_opt, Goal, Motion, MotionView};
use crate::ui::popups::item_for;
use crate::ui::op::OpView;
use crate::ui::panel::{PaneView, Panel};
use crate::ui::workspace::{Jobs, JobsView, Workspace, WorkspaceView};

verus! {

impl Workspace {
    /// Focuses Repos.
    pub fn focus_repos(&mut self, store: &mut RepoStore) -> (r: Jobs)
        requires
            old(self)@.wf(),
        ensures
            (final(self)@, final(store)@, r@) == old(self)@.panel_focused(Panel::Repos, old(store)@),
            final(self)@.wf(),
    {
        self.focus_panel(Panel::Repos, store)
    }

    /// Focuses Status.
    pub fn focus_status(&mut self, store: &mut RepoStore) -> (r: Jobs)
        requires
            old(self)@.wf(),
        ensures
            (final(self)@, final(store)@, r@) == old(self)@.panel_focused(Panel::Status, old(store)@),
            final(self)@.wf(),
    {
        self.focus_panel(Panel::Status, store)
    }

    /// Focuses Files.
    pub fn focus_files(&mut self, store: &mut RepoStore) -> (r: Jobs)
        requires
            old(self)@.wf(),
        ensures
            (final(self)@, final(store)@, r@) == old(self)@.panel_focused(Panel::Files, old(store)@),
            final(self)@.wf(),
    {
        self.focus_panel(Panel::Files, store)
    }

    /// Focuses Branches.
    pub fn focus_branches(&mut self, store: &mut RepoStore) -> (r: Jobs)
        requires
            old(self)@.wf(),
        ensures
            (final(self)@, final(store)@, r@) == old(self)@.panel_focused(Panel::Branches, old(store)@),
            final(self)@.wf(),
    {
        self.focus_panel(Panel::Branches, store)
    }

    /// Focuses Commits.
    pub fn focus_commits(&mut self, store: &mut RepoStore) -> (r: Jobs)
        requires
            old(self)@.wf(),
        ensures
            (final(self)@, final(store)@, r@) == old(self)@.panel_focused(Panel::Commits, old(store)@),
            final(self)@.wf(),
    {
        self.focus_panel(Panel::Commits, store)
    }

    /// Focuses Stash.
    pub fn focus_stash(&mut self, store: &mut RepoStore) -> (r: Jobs)
        requires
            old(self)@.wf(),
        ensures
            (final(self)@, final(store)@, r@) == old(self)@.panel_focused(Panel::Stash, old(store)@),
            final(self)@.wf(),
    {
        self.focus_panel(Panel::Stash, store)
    }

    /// Focuses the main view.
    pub fn focus_main(&mut self, store: &mut RepoStore) -> (r: Jobs)
        requires
            old(self)@.wf(),
        ensures
            (final(self)@, final(store)@, r@) == old(self)@.panel_focused(Panel::Main, old(store)@),
            final(self)@.wf(),
    {
        self.focus_panel(Panel::Main, store)
    }

    /// Selects the next repo.
    pub fn next_repo(&mut self, store: &mut RepoStore) -> (r: Motion)
        requires
            old(self)@.wf(),
        ensures
            (final(self)@, final(store)@, r@) == old(self)@.moved_by(PaneView::Repos, 1, old(store)@),
            final(self)@.wf(),
    {
        self.step_repo(true, store)
    }

    /// Selects the previous repo.
    pub fn prev_repo(&mut self, store: &mut RepoStore) -> (r: Motion)
        requires
            old(self)@.wf(),
        ensures
            (final(self)@, final(store)@, r@) == old(self)@.moved_by(PaneView::Repos, -1, old(store)@),
            final(self)@.wf(),
    {
        self.step_repo(false, store)
    }

    /// Shows the focused panel's next tab.
    pub fn next_tab(&mut self, store: &mut RepoStore) -> (r: Option<Jobs>)
        requires
            old(self)@.wf(),
        ensures
            (final(self)@, final(store)@, jobs_opt(r)) == old(self)@.tab_switched(true, old(store)@),
            final(self)@.wf(),
    {
        self.switch_tab(true, store)
    }

    /// Shows the focused panel's previous tab.
    pub fn prev_tab(&mut self, store: &mut RepoStore) -> (r: Option<Jobs>)
        requires
            old(self)@.wf(),
        ensures
            (final(self)@, final(store)@, jobs_opt(r)) == old(self)@.tab_switched(false, old(store)@),
            final(self)@.wf(),
    {
        self.switch_tab(false, store)
    }

    /// Moves down by one item.
    pub fn select_next(&mut self, store: &mut RepoStore) -> (r: Motion)
        requires
            old(self)@.wf(),
        ensures
            (final(self)@, final(store)@, r@) == old(self)@.stepped(1, old(store)@),
            final(self)@.wf(),
    {
        self.step(1, store)
    }

    /// Moves up by one item.
    pub fn select_prev(&mut self, store: &mut RepoStore) -> (r: Motion)
        requires
            old(self)@.wf(),
        ensures
            (final(self)@, final(store)@, r@) == old(self)@.stepped(-1, old(store)@),
            final(self)@.wf(),
    {
        self.step(-1, store)
    }

    /// Moves down by a page of a view with so many rows.
    pub fn page_down(&mut self, rows: usize, store: &mut RepoStore) -> (r: Motion)
        requires
            old(self)@.wf(),
            rows <= isize::MAX,
        ensures
            (final(self)@, final(store)@, r@) == old(self)@.paged(true, rows, old(store)@),
            final(self)@.wf(),
    {
        self.page(true, rows, store)
    }

    /// Moves up by a page of a view with so many rows.
    pub fn page_up(&mut self, rows: usize, store: &mut RepoStore) -> (r: Motion)
        requires
            old(self)@.wf(),
            rows <= isize::MAX,
        ensures
            (final(self)@, final(store)@, r@) == old(self)@.paged(false, rows, old(store)@),
            final(self)@.wf(),
    {
        self.page(false, rows, store)
    }

    /// Moves to the first item.
    pub fn select_first(&mut self, store: &mut RepoStore) -> (r: Motion)
        requires
            old(self)@.wf(),
        ensures
            (final(self)@, final(store)@, r@) == old(self)@.edged(false, old(store)@),
            final(self)@.wf(),
    {
        self.select_edge(false, store)
    }

    /// Moves to the last item.
    pub fn select_last(&mut self, store: &mut RepoStore) -> (r: Motion)
        requires
            old(self)@.wf(),
        ensures
            (final(self)@, final(store)@, r@) == old(self)@.edged(true, old(store)@),
            final(self)@.wf(),
    {
        self.select_edge(true, store)
    }

    /// Scrolls the main view down a little.
    pub fn scroll_main_down(&self) -> (r: Motion)
        ensures
            r@ == MotionView::ScrollMain(3),
    {
        Motion::ScrollMain(3)
    }

    /// Scrolls the main view up a little.
    pub fn scroll_main_up(&self) -> (r: Motion)
        ensures
            r@ == MotionView::ScrollMain(-3),
    {
        Motion::ScrollMain(-3)
    }

    /// Scrolls the main view down by half of its rows.
    pub fn half_page_main_down(&self, rows: usize) -> (r: Motion)
        requires
            rows <= isize::MAX,
        ensures
            r@ == MotionView::ScrollMain(rows as int / 2),
    {
        Motion::ScrollMain((rows / 2) as isize)
    }

    /// Scrolls the main view up by half of its rows.
    pub fn half_page_main_up(&self, rows: usize) -> (r: Motion)
        requires
            rows <= isize::MAX,
        ensures
            r@ == MotionView::ScrollMain(-(rows as int / 2)),
    {
        Motion::ScrollMain(-((rows / 2) as isize))
    }

    /// Extends the range in the staging view down.
    pub fn range_select_down(&mut self) -> (r: Motion)
        requires
            old(self)@.wf(),
        ensures
            (final(self)@, r@) == old(self)@.staging_moved(true, Goal::Change { forward: true }),
            final(self)@.wf(),
    {
        self.range_select(true)
    }

    /// Extends the range in the staging view up.
    pub fn range_select_up(&mut self) -> (r: Motion)
        requires
            old(self)@.wf(),
        ensures
            (final(self)@, r@) == old(self)@.staging_moved(true, Goal::Change { forward: false }),
            final(self)@.wf(),
    {
        self.range_select(false)
    }

    /// Moves to the next hunk in the staging view.
    pub fn next_hunk(&mut self) -> (r: Motion)
        requires
            old(self)@.wf(),
        ensures
            (final(self)@, r@) == old(self)@.hunk_stepped(true),
            final(self)@.wf(),
    {
        self.step_hunk(true)
    }

    /// Moves to the previous hunk in the staging view.
    pub fn prev_hunk(&mut self) -> (r: Motion)
        requires
            old(self)@.wf(),
        ensures
            (final(self)@, r@) == old(self)@.hunk_stepped(false),
            final(self)@.wf(),
    {
        self.step_hunk(false)
    }

    /// Looks for repos, and loads the selected one's panels again.
    pub fn refresh(&self, store: &mut RepoStore) -> (r: (bool, Option<DetailJob>))
        ensures
            (final(store)@, r.0, job_opt(r.1)) == rescanned(old(store)@),
    {
        let scan = store.scan();
        let detail = store.load_detail();
        (scan, detail)
    }

    /// Fetches every repo.
    pub fn fetch_all(&self) -> (r: Effect)
        ensures
            r@ == EffectView::FetchAll,
    {
        Effect::FetchAll
    }

    /// Stashes all changes.
    pub fn stash_all(&mut self, store: &RepoStore)
        requires
            old(self)@.wf(),
        ensures
            final(self)@ == old(self)@.stash_asked(StashKind::All, store@),
            final(self)@.wf(),
    {
        self.stash(StashKind::All, store)
    }

    /// A menu item's own key picks it, unless a modifier is held.
    pub fn menu_key_down(&mut self, key: &str, modified: bool, store: &RepoStore) -> (r: Option<Effect>)
        requires
            old(self)@.wf(),
        ensures
            match (item_for(old(self)@.dialog, key@), r) {
                (Some(ix), Some(effect)) => {
                    &&& !modified
                    &&& (final(self)@, effect@) == old(self)@.item_picked(ix, store@)
                },
                (Some(_), None) => modified && final(self)@ == old(self)@,
                (None, None) => final(self)@ == old(self)@,
                (None, Some(_)) => false,
            },
            final(self)@.wf(),
    {
        if modified {
            return None;
        }
        match self.menu_item_for(key) {
            Some(ix) => Some(self.pick_menu_item(ix, store)),
            None => None,
        }
    }
}

/// Looking for repos, and loading the selected one's panels again: the store then, whether to
/// look for repos now, and the panels to load now.
pub open spec fn rescanned(store: StoreView) -> (StoreView, bool, Option<JobView>) {
    let scanning = StoreView { scanning: true, ..store };
    (scanning.detail_asked(), !store.scanning, scanning.detail_started())
}

/// What is to be done after a key.
pub enum Reaction {
    Nothing,
    Motion(Motion),
    Jobs(Jobs),
    Effect(Effect),
    /// The filter's input opens with a text.
    Filter(String),
    /// Repos are to be looked for, and panels to be loaded.
    Refresh { scan: bool, detail: Option<DetailJob> },
}

#[verifier::ext_equal]
pub ghost enum ReactionView {
    Nothing,
    Motion(MotionView),
    Jobs(JobsView),
    Effect(EffectView),
    Filter(Seq<char>),
    Refresh { scan: bool, detail: Option<JobView> },
}

impl View for Reaction {
    type V = ReactionView;

    open spec fn view(&self) -> ReactionView {
        match self {
            Reaction::Nothing => ReactionView::Nothing,
            Reaction::Motion(motion) => ReactionView::Motion(motion@),
            Reaction::Jobs(jobs) => ReactionView::Jobs(jobs@),
            Reaction::Effect(effect) => ReactionView::Effect(effect@),
            Reaction::Filter(text) => ReactionView::Filter(text@),
            Reaction::Refresh { scan, detail } => ReactionView::Refresh { scan: *scan, detail: job_opt(*detail) },
        }
    }
}

/// Jobs that there may be, as a reaction.
pub open spec fn with_jobs(jobs: Option<JobsView>) -> ReactionView {
    match jobs {
        Some(jobs) => ReactionView::Jobs(jobs),
        None => ReactionView::Nothing,
    }
}

/// Jobs that there may be, as a reaction.
fn jobs_reaction(jobs: Option<Jobs>) -> (r: Reaction)
    ensures
        r@ == with_jobs(jobs_opt(jobs)),
{
    match jobs {
        Some(jobs) => Reaction::Jobs(jobs),
        None => Reaction::Nothing,
    }
}

/// What an action is about.
#[derive(Clone, Copy, Debug, PartialEq, Eq, Structural)]
pub enum Subject {
    /// Panels, repos and tabs.
    Focus,
    /// Moving in a list and scrolling.
    Move,
    /// The staging view and the files.
    Stage,
    /// The screen and popups.
    Screen,
    /// Whole repos.
    Repo,
    /// Branches and stashes.
    Ref,
}

impl Action {
    /// What the action is about.
    pub open spec fn about(self) -> Subject {
        match self {
            Action::PrevPanel => Subject::Focus,
            Action::NextPanel => Subject::Focus,
            Action::FocusRepos => Subject::Focus,
            Action::FocusStatus => Subject::Focus,
            Action::FocusFiles => Subject::Focus,
            Action::FocusBranches => Subject::Focus,
            Action::FocusCommits => Subject::Focus,
            Action::FocusStash => Subject::Focus,
            Action::FocusMain => Subject::Focus,
            Action::NextRepo => Subject::Focus,
            Action::PrevRepo => Subject::Focus,
            Action::NextTab => Subject::Focus,
            Action::PrevTab => Subject::Focus,
            Action::SelectNext => Subject::Move,
            Action::SelectPrev => Subject::Move,
            Action::PageDown => Subject::Move,
            Action::PageUp => Subject::Move,
            Action::SelectLast => Subject::Move,
            Action::SelectFirst => Subject::Move,
            Action::ScrollMainDown => Subject::Move,
            Action::HalfPageMainDown => Subject::Move,
            Action::ScrollMainUp => Subject::Move,
            Action::HalfPageMainUp => Subject::Move,
            Action::ToggleStage => Subject::Stage,
            Action::ToggleStageAll => Subject::Stage,
            Action::Commit => Subject::Stage,
            Action::Amend => Subject::Stage,
            Action::Discard => Subject::Stage,
            Action::StashAll => Subject::Stage,
            Action::StashOptions => Subject::Stage,
            Action::ToggleSelectHunk => Subject::Stage,
            Action::ToggleRangeSelect => Subject::Stage,
            Action::RangeSelectDown => Subject::Stage,
            Action::RangeSelectUp => Subject::Stage,
            Action::NextHunk => Subject::Stage,
            Action::PrevHunk => Subject::Stage,
            Action::ToggleStagingPanel => Subject::Stage,
            Action::Enter => Subject::Screen,
            Action::Back => Subject::Screen,
            Action::StartFilter => Subject::Screen,
            Action::ToggleHelp => Subject::Screen,
            Action::NextScreenMode => Subject::Screen,
            Action::PrevScreenMode => Subject::Screen,
            Action::ToggleCommandLog => Subject::Screen,
            Action::Refresh => Subject::Screen,
            Action::Quit => Subject::Screen,
            Action::QuitApp => Subject::Screen,
            Action::CloseDialog => Subject::Screen,
            Action::ConfirmDialog => Subject::Screen,
            Action::Fetch => Subject::Repo,
            Action::Pull => Subject::Repo,
            Action::Push => Subject::Repo,
            Action::ToggleMark => Subject::Repo,
            Action::ToggleMarkAll => Subject::Repo,
            Action::CheckoutByName => Subject::Repo,
            Action::NewBranchInRepos => Subject::Repo,
            Action::SwitchToDefault => Subject::Repo,
            Action::FetchAll => Subject::Repo,
            Action::FastForwardAll => Subject::Repo,
            Action::OpenInLazygit => Subject::Repo,
            Action::Checkout => Subject::Ref,
            Action::NewBranch => Subject::Ref,
            Action::DeleteBranch => Subject::Ref,
            Action::FastForward => Subject::Ref,
            Action::CheckoutPrevious => Subject::Ref,
            Action::SetUpstream => Subject::Ref,
            Action::StashApply => Subject::Ref,
            Action::StashPop => Subject::Ref,
            Action::StashDrop => Subject::Ref,
            Action::RenameStash => Subject::Ref,
            Action::BranchFromStash => Subject::Ref,
        }
    }

    /// What the action is about.
    pub fn subject(self) -> (r: Subject)
        ensures
            r == self.about(),
    {
        match self {
            Action::PrevPanel => Subject::Focus,
            Action::NextPanel => Subject::Focus,
            Action::FocusRepos => Subject::Focus,
            Action::FocusStatus => Subject::Focus,
            Action::FocusFiles => Subject::Focus,
            Action::FocusBranches => Subject::Focus,
            Action::FocusCommits => Subject::Focus,
            Action::FocusStash => Subject::Focus,
            Action::FocusMain => Subject::Focus,
            Action::NextRepo => Subject::Focus,
            Action::PrevRepo => Subject::Focus,
            Action::NextTab => Subject::Focus,
            Action::PrevTab => Subject::Focus,
            Action::SelectNext => Subject::Move,
            Action::SelectPrev => Subject::Move,
            Action::PageDown => Subject::Move,
            Action::PageUp => Subject::Move,
            Action::SelectLast => Subject::Move,
            Action::SelectFirst => Subject::Move,
            Action::ScrollMainDown => Subject::Move,
            Action::HalfPageMainDown => Subject::Move,
            Action::ScrollMainUp => Subject::Move,
            Action::HalfPageMainUp => Subject::Move,
            Action::ToggleStage => Subject::Stage,
            Action::ToggleStageAll => Subject::Stage,
            Action::Commit => Subject::Stage,
            Action::Amend => Subject::Stage,
            Action::Discard => Subject::Stage,
            Action::StashAll => Subject::Stage,
            Action::StashOptions => Subject::Stage,
            Action::ToggleSelectHunk => Subject::Stage,
            Action::ToggleRangeSelect => Subject::Stage,
            Action::RangeSelectDown => Subject::Stage,
            Action::RangeSelectUp => Subject::Stage,
            Action::NextHunk => Subject::Stage,
            Action::PrevHunk => Subject::Stage,
            Action::ToggleStagingPanel => Subject::Stage,
            Action::Enter => Subject::Screen,
            Action::Back => Subject::Screen,
            Action::StartFilter => Subject::Screen,
            Action::ToggleHelp => Subject::Screen,
            Action::NextScreenMode => Subject::Screen,
            Action::PrevScreenMode => Subject::Screen,
            Action::ToggleCommandLog => Subject::Screen,
            Action::Refresh => Subject::Screen,
            Action::Quit => Subject::Screen,
            Action::QuitApp => Subject::Screen,
            Action::CloseDialog => Subject::Screen,
            Action::ConfirmDialog => Subject::Screen,
            Action::Fetch => Subject::Repo,
            Action::Pull => Subject::Repo,
            Action::Push => Subject::Repo,
            Action::ToggleMark => Subject::Repo,
            Action::ToggleMarkAll => Subject::Repo,
            Action::CheckoutByName => Subject::Repo,
            Action::NewBranchInRepos => Subject::Repo,
            Action::SwitchToDefault => Subject::Repo,
            Action::FetchAll => Subject::Repo,
            Action::FastForwardAll => Subject::Repo,
            Action::OpenInLazygit => Subject::Repo,
            Action::Checkout => Subject::Ref,
            Action::NewBranch => Subject::Ref,
            Action::DeleteBranch => Subject::Ref,
            Action::FastForward => Subject::Ref,
            Action::CheckoutPrevious => Subject::Ref,
            Action::SetUpstream => Subject::Ref,
            Action::StashApply => Subject::Ref,
            Action::StashPop => Subject::Ref,
            Action::StashDrop => Subject::Ref,
            Action::RenameStash => Subject::Ref,
            Action::BranchFromStash => Subject::Ref,
        }
    }
}

impl WorkspaceView {
    /// After an action about panels, repos and tabs.
    pub open spec fn acted_focus(self, action: Action, store: StoreView) -> (
        WorkspaceView,
        StoreView,
        ReactionView,
    ) {
        match action {
            Action::PrevPanel => {
                let (w, s, r) = self.panel_focused(self.main_source().before(), store);
                (w, s, ReactionView::Jobs(r))
            },
            Action::NextPanel => {
                let (w, s, r) = self.panel_focused(self.main_source().after(), store);
                (w, s, ReactionView::Jobs(r))
            },
            Action::FocusRepos => {
                let (w, s, r) = self.panel_focused(Panel::Repos, store);
                (w, s, ReactionView::Jobs(r))
            },
            Action::FocusStatus => {
                let (w, s, r) = self.panel_focused(Panel::Status, store);
                (w, s, ReactionView::Jobs(r))
            },
            Action::FocusFiles => {
                let (w, s, r) = self.panel_focused(Panel::Files, store);
                (w, s, ReactionView::Jobs(r))
            },
            Action::FocusBranches => {
                let (w, s, r) = self.panel_focused(Panel::Branches, store);
                (w, s, ReactionView::Jobs(r))
            },
            Action::FocusCommits => {
                let (w, s, r) = self.panel_focused(Panel::Commits, store);
                (w, s, ReactionView::Jobs(r))
            },
            Action::FocusStash => {
                let (w, s, r) = self.panel_focused(Panel::Stash, store);
                (w, s, ReactionView::Jobs(r))
            },
            Action::FocusMain => {
                let (w, s, r) = self.panel_focused(Panel::Main, store);
                (w, s, ReactionView::Jobs(r))
            },
            Action::NextRepo => {
                let (w, s, r) = self.moved_by(PaneView::Repos, 1, store);
                (w, s, ReactionView::Motion(r))
            },
            Action::PrevRepo => {
                let (w, s, r) = self.moved_by(PaneView::Repos, -1, store);
                (w, s, ReactionView::Motion(r))
            },
            Action::NextTab => {
                let (w, s, r) = self.tab_switched(true, store);
                (w, s, with_jobs(r))
            },
            Action::PrevTab => {
                let (w, s, r) = self.tab_switched(false, store);
                (w, s, with_jobs(r))
            },
            _ => (self, store, ReactionView::Nothing),
        }
    }

    /// After an action about moving in a list and scrolling.
    pub open spec fn acted_move(self, action: Action, rows: usize, main_rows: usize, store: StoreView) -> (
        WorkspaceView,
        StoreView,
        ReactionView,
    ) {
        match action {
            Action::SelectNext => {
                let (w, s, r) = self.stepped(1, store);
                (w, s, ReactionView::Motion(r))
            },
            Action::SelectPrev => {
                let (w, s, r) = self.stepped(-1, store);
                (w, s, ReactionView::Motion(r))
            },
            Action::PageDown => {
                let (w, s, r) = self.paged(true, rows, store);
                (w, s, ReactionView::Motion(r))
            },
            Action::PageUp => {
                let (w, s, r) = self.paged(false, rows, store);
                (w, s, ReactionView::Motion(r))
            },
            Action::SelectLast => {
                let (w, s, r) = self.edged(true, store);
                (w, s, ReactionView::Motion(r))
            },
            Action::SelectFirst => {
                let (w, s, r) = self.edged(false, store);
                (w, s, ReactionView::Motion(r))
            },
            Action::ScrollMainDown => (self, store, ReactionView::Motion(MotionView::ScrollMain(3))),
            Action::HalfPageMainDown => (self, store, ReactionView::Motion(MotionView::ScrollMain(main_rows as int / 2))),
            Action::ScrollMainUp => (self, store, ReactionView::Motion(MotionView::ScrollMain(-3))),
            Action::HalfPageMainUp => (self, store, ReactionView::Motion(MotionView::ScrollMain(-(main_rows as int / 2)))),
            _ => (self, store, ReactionView::Nothing),
        }
    }

    /// After an action about the staging view and the files.
    pub open spec fn acted_stage(self, action: Action, store: StoreView) -> (
        WorkspaceView,
        StoreView,
        ReactionView,
    ) {
        match action {
            Action::ToggleStage => {
                let (w, r) = self.stage_toggled(store);
                (w, store, ReactionView::Effect(r))
            },
            Action::ToggleStageAll => (self, store, ReactionView::Effect(self.stage_all_effect(store))),
            Action::Commit => (self.commit_asked(store), store, ReactionView::Nothing),
            Action::Amend => {
                let (w, r) = self.amend_asked(store);
                (w, store, ReactionView::Effect(r))
            },
            Action::Discard => {
                let (w, r) = self.discard_asked(store);
                (w, store, ReactionView::Effect(r))
            },
            Action::StashAll => (self.stash_asked(StashKind::All, store), store, ReactionView::Nothing),
            Action::StashOptions => (WorkspaceView { dialog: Some(DialogView::Menu { title: "Stash options"@, items: stash_menu(), selected: 0 }), ..self }, store, ReactionView::Nothing),
            Action::ToggleSelectHunk => (WorkspaceView { staging: self.staging.hunk_toggled(), ..self }, store, ReactionView::Nothing),
            Action::ToggleRangeSelect => (WorkspaceView { staging: self.staging.range_toggled(), ..self }, store, ReactionView::Nothing),
            Action::RangeSelectDown => {
                let (w, r) = self.staging_moved(true, Goal::Change { forward: true });
                (w, store, ReactionView::Motion(r))
            },
            Action::RangeSelectUp => {
                let (w, r) = self.staging_moved(true, Goal::Change { forward: false });
                (w, store, ReactionView::Motion(r))
            },
            Action::NextHunk => {
                let (w, r) = self.hunk_stepped(true);
                (w, store, ReactionView::Motion(r))
            },
            Action::PrevHunk => {
                let (w, r) = self.hunk_stepped(false);
                (w, store, ReactionView::Motion(r))
            },
            Action::ToggleStagingPanel => (self.staging_panel_toggled(store), store, ReactionView::Nothing),
            _ => (self, store, ReactionView::Nothing),
        }
    }

    /// After an action about the screen and popups.
    pub open spec fn acted_screen(self, action: Action, typed: Seq<char>, store: StoreView) -> (
        WorkspaceView,
        StoreView,
        ReactionView,
    ) {
        match action {
            Action::Enter => {
                let (w, s, r) = self.entered(store);
                (w, s, with_jobs(r))
            },
            Action::Back => {
                let (w, s, r) = self.backed(store);
                (w, s, with_jobs(r))
            },
            Action::StartFilter => {
                let (w, text) = self.filter_started();
                (w, store, match text { Some(text) => ReactionView::Filter(text), None => ReactionView::Nothing })
            },
            Action::ToggleHelp => (WorkspaceView { dialog: Some(DialogView::Help), ..self }, store, ReactionView::Nothing),
            Action::NextScreenMode => (WorkspaceView { screen_mode: self.screen_mode.after(), ..self }, store, ReactionView::Nothing),
            Action::PrevScreenMode => (WorkspaceView { screen_mode: self.screen_mode.before(), ..self }, store, ReactionView::Nothing),
            Action::ToggleCommandLog => (WorkspaceView { show_command_log: !self.show_command_log, ..self }, store, ReactionView::Nothing),
            Action::Refresh => {
                let (s, scan, detail) = rescanned(store);
                (self, s, ReactionView::Refresh { scan, detail })
            },
            Action::Quit => {
                let (w, r) = self.quit_asked(store.config.confirm_quit, store);
                (w, store, ReactionView::Effect(r))
            },
            Action::QuitApp => {
                let (w, r) = self.app_quit_asked(store);
                (w, store, ReactionView::Effect(r))
            },
            Action::CloseDialog => {
                let (w, s, r) = self.dialog_closed(store);
                (w, s, with_jobs(r))
            },
            Action::ConfirmDialog => {
                let (w, r) = self.dialog_confirmed(typed, store);
                (w, store, ReactionView::Effect(r))
            },
            _ => (self, store, ReactionView::Nothing),
        }
    }

    /// After an action about whole repos.
    pub open spec fn acted_repo(self, action: Action, store: StoreView) -> (
        WorkspaceView,
        StoreView,
        ReactionView,
    ) {
        match action {
            Action::Fetch => (self, store, ReactionView::Effect(self.fetch_effect(store))),
            Action::Pull => {
                let (w, r) = self.pull_run(store);
                (w, store, ReactionView::Effect(r))
            },
            Action::Push => {
                let (w, r) = self.push_run(store);
                (w, store, ReactionView::Effect(r))
            },
            Action::ToggleMark => (self.mark_toggled(store), store, ReactionView::Nothing),
            Action::ToggleMarkAll => (self.marks_toggled(store), store, ReactionView::Nothing),
            Action::CheckoutByName => (self.checkout_asked(store), store, ReactionView::Nothing),
            Action::NewBranchInRepos => (self.branch_asked(store), store, ReactionView::Nothing),
            Action::SwitchToDefault => {
                let (w, r) = self.default_run(store);
                (w, store, ReactionView::Effect(r))
            },
            Action::FetchAll => (self, store, ReactionView::Effect(EffectView::FetchAll)),
            Action::FastForwardAll => (self.fast_forward_asked(store), store, ReactionView::Nothing),
            Action::OpenInLazygit => (self, store, ReactionView::Effect(self.lazygit_effect(store))),
            _ => (self, store, ReactionView::Nothing),
        }
    }

    /// After an action about branches and stashes.
    pub open spec fn acted_ref(self, action: Action, store: StoreView) -> (
        WorkspaceView,
        StoreView,
        ReactionView,
    ) {
        match action {
            Action::Checkout => (self, store, ReactionView::Effect(self.checkout_effect(store))),
            Action::NewBranch => (self.new_branch_asked(store), store, ReactionView::Nothing),
            Action::DeleteBranch => (self.delete_asked(store), store, ReactionView::Nothing),
            Action::FastForward => (self, store, ReactionView::Effect(self.fast_forward_effect(store))),
            Action::CheckoutPrevious => (self, store, ReactionView::Effect(self.op_effect(store, "Checking out"@, OpView::Checkout { name: "-"@ }))),
            Action::SetUpstream => (self.upstream_asked(store), store, ReactionView::Nothing),
            Action::StashApply => (self, store, ReactionView::Effect(self.apply_effect(store))),
            Action::StashPop => (self, store, ReactionView::Effect(self.pop_effect(store))),
            Action::StashDrop => (self.drop_asked(store), store, ReactionView::Nothing),
            Action::RenameStash => (self.rename_asked(store), store, ReactionView::Nothing),
            Action::BranchFromStash => (self.stash_branch_asked(store), store, ReactionView::Nothing),
            _ => (self, store, ReactionView::Nothing),
        }
    }

    /// The UI and the store after an action, and what is to be done then. `rows` is how many
    /// rows fit in the focused list, `main_rows` in the main view; `typed` is the text in the
    /// popup's input.
    pub open spec fn acted(
        self,
        action: Action,
        rows: usize,
        main_rows: usize,
        typed: Seq<char>,
        store: StoreView,
    ) -> (WorkspaceView, StoreView, ReactionView) {
        match action.about() {
            Subject::Focus => self.acted_focus(action, store),
            Subject::Move => self.acted_move(action, rows, main_rows, store),
            Subject::Stage => self.acted_stage(action, store),
            Subject::Screen => self.acted_screen(action, typed, store),
            Subject::Repo => self.acted_repo(action, store),
            Subject::Ref => self.acted_ref(action, store),
        }
    }
}

impl Workspace {
    /// Does an action about panels, repos and tabs.
    #[verifier::spinoff_prover]
    #[verifier::rlimit(30)]
    fn act_focus(&mut self, action: Action, store: &mut RepoStore) -> (r: Reaction)
        requires
            old(self)@.wf(),
        ensures
            (final(self)@, final(store)@, r@) == old(self)@.acted_focus(action, old(store)@),
            final(self)@.wf(),
    {
        match action {
            Action::PrevPanel => Reaction::Jobs(self.prev_panel(store)),
            Action::NextPanel => Reaction::Jobs(self.next_panel(store)),
            Action::FocusRepos => Reaction::Jobs(self.focus_repos(store)),
            Action::FocusStatus => Reaction::Jobs(self.focus_status(store)),
            Action::FocusFiles => Reaction::Jobs(self.focus_files(store)),
            Action::FocusBranches => Reaction::Jobs(self.focus_branches(store)),
            Action::FocusCommits => Reaction::Jobs(self.focus_commits(store)),
            Action::FocusStash => Reaction::Jobs(self.focus_stash(store)),
            Action::FocusMain => Reaction::Jobs(self.focus_main(store)),
            Action::NextRepo => Reaction::Motion(self.next_repo(store)),
            Action::PrevRepo => Reaction::Motion(self.prev_repo(store)),
            Action::NextTab => jobs_reaction(self.next_tab(store)),
            Action::PrevTab => jobs_reaction(self.prev_tab(store)),
            _ => Reaction::Nothing,
        }
    }

    /// Does an action about moving in a list and scrolling.
    #[verifier::spinoff_prover]
    #[verifier::rlimit(30)]
    fn act_move(&mut self, action: Action, rows: usize, main_rows: usize, store: &mut RepoStore) -> (r: Reaction)
        requires
            old(self)@.wf(),
            rows <= isize::MAX,
            main_rows <= isize::MAX,
        ensures
            (final(self)@, final(store)@, r@) == old(self)@.acted_move(action, rows, main_rows, old(store)@),
            final(self)@.wf(),
    {
        match action {
            Action::SelectNext => Reaction::Motion(self.select_next(store)),
            Action::SelectPrev => Reaction::Motion(self.select_prev(store)),
            Action::PageDown => Reaction::Motion(self.page_down(rows, store)),
            Action::PageUp => Reaction::Motion(self.page_up(rows, store)),
            Action::SelectLast => Reaction::Motion(self.select_last(store)),
            Action::SelectFirst => Reaction::Motion(self.select_first(store)),
            Action::ScrollMainDown => Reaction::Motion(self.scroll_main_down()),
            Action::HalfPageMainDown => Reaction::Motion(self.half_page_main_down(main_rows)),
            Action::ScrollMainUp => Reaction::Motion(self.scroll_main_up()),
            Action::HalfPageMainUp => Reaction::Motion(self.half_page_main_up(main_rows)),
            _ => Reaction::Nothing,
        }
    }

    /// Does an action about the staging view and the files.
    #[verifier::spinoff_prover]
    #[verifier::rlimit(30)]
    fn act_stage(&mut self, action: Action, store: &mut RepoStore) -> (r: Reaction)
        requires
            old(self)@.wf(),
        ensures
            (final(self)@, final(store)@, r@) == old(self)@.acted_stage(action, old(store)@),
            final(self)@.wf(),
    {
        match action {
            Action::ToggleStage => Reaction::Effect(self.toggle_stage(store)),
            Action::ToggleStageAll => Reaction::Effect(self.toggle_stage_all(store)),
            Action::Commit => {
                self.commit(store);
                Reaction::Nothing
            },
            Action::Amend => Reaction::Effect(self.amend(store)),
            Action::Discard => Reaction::Effect(self.discard(store)),
            Action::StashAll => {
                self.stash_all(store);
                Reaction::Nothing
            },
            Action::StashOptions => {
                self.stash_options();
                Reaction::Nothing
            },
            Action::ToggleSelectHunk => {
                self.toggle_select_hunk();
                Reaction::Nothing
            },
            Action::ToggleRangeSelect => {
                self.toggle_range_select();
                Reaction::Nothing
            },
            Action::RangeSelectDown => Reaction::Motion(self.range_select_down()),
            Action::RangeSelectUp => Reaction::Motion(self.range_select_up()),
            Action::NextHunk => Reaction::Motion(self.next_hunk()),
            Action::PrevHunk => Reaction::Motion(self.prev_hunk()),
            Action::ToggleStagingPanel => {
                self.toggle_staging_panel(store);
                Reaction::Nothing
            },
            _ => Reaction::Nothing,
        }
    }

    /// Does an action about the screen and popups.
    #[verifier::spinoff_prover]
    #[verifier::rlimit(30)]
    fn act_screen(&mut self, action: Action, typed: &str, store: &mut RepoStore) -> (r: Reaction)
        requires
            old(self)@.wf(),
        ensures
            (final(self)@, final(store)@, r@) == old(self)@.acted_screen(action, typed@, old(store)@),
            final(self)@.wf(),
    {
        match action {
            Action::Enter => jobs_reaction(self.enter(store)),
            Action::Back => jobs_reaction(self.back(store)),
            Action::StartFilter => match self.start_filter() { Some(text) => Reaction::Filter(text), None => Reaction::Nothing },
            Action::ToggleHelp => {
                self.toggle_help();
                Reaction::Nothing
            },
            Action::NextScreenMode => {
                self.next_screen_mode();
                Reaction::Nothing
            },
            Action::PrevScreenMode => {
                self.prev_screen_mode();
                Reaction::Nothing
            },
            Action::ToggleCommandLog => {
                self.toggle_command_log();
                Reaction::Nothing
            },
            Action::Refresh => {
                let (scan, detail) = self.refresh(store);
                Reaction::Refresh { scan, detail }
            },
            Action::Quit => Reaction::Effect(self.quit(store)),
            Action::QuitApp => Reaction::Effect(self.quit_app(store)),
            Action::CloseDialog => jobs_reaction(self.close_dialog(store)),
            Action::ConfirmDialog => Reaction::Effect(self.confirm_dialog(typed, store)),
            _ => Reaction::Nothing,
        }
    }

    /// Does an action about whole repos.
    #[verifier::spinoff_prover]
    #[verifier::rlimit(30)]
    fn act_repo(&mut self, action: Action, store: &mut RepoStore) -> (r: Reaction)
        requires
            old(self)@.wf(),
        ensures
            (final(self)@, final(store)@, r@) == old(self)@.acted_repo(action, old(store)@),
            final(self)@.wf(),
    {
        match action {
            Action::Fetch => Reaction::Effect(self.fetch(store)),
            Action::Pull => Reaction::Effect(self.pull(store)),
            Action::Push => Reaction::Effect(self.push(store)),
            Action::ToggleMark => {
                self.toggle_mark(store);
                Reaction::Nothing
            },
            Action::ToggleMarkAll => {
                self.toggle_mark_all(store);
                Reaction::Nothing
            },
            Action::CheckoutByName => {
                self.checkout_by_name(store);
                Reaction::Nothing
            },
            Action::NewBranchInRepos => {
                self.new_branch_in_repos(store);
                Reaction::Nothing
            },
            Action::SwitchToDefault => Reaction::Effect(self.switch_to_default(store)),
            Action::FetchAll => Reaction::Effect(self.fetch_all()),
            Action::FastForwardAll => {
                self.fast_forward_all(store);
                Reaction::Nothing
            },
            Action::OpenInLazygit => Reaction::Effect(self.open_in_lazygit(store)),
            _ => Reaction::Nothing,
        }
    }

    /// Does an action about branches and stashes.
    #[verifier::spinoff_prover]
    #[verifier::rlimit(30)]
    fn act_ref(&mut self, action: Action, store: &mut RepoStore) -> (r: Reaction)
        requires
            old(self)@.wf(),
        ensures
            (final(self)@, final(store)@, r@) == old(self)@.acted_ref(action, old(store)@),
            final(self)@.wf(),
    {
        match action {
            Action::Checkout => Reaction::Effect(self.checkout(store)),
            Action::NewBranch => {
                self.new_branch(store);
                Reaction::Nothing
            },
            Action::DeleteBranch => {
                self.delete_branch(store);
                Reaction::Nothing
            },
            Action::FastForward => Reaction::Effect(self.fast_forward(store)),
            Action::CheckoutPrevious => Reaction::Effect(self.checkout_previous(store)),
            Action::SetUpstream => {
                self.set_upstream(store);
                Reaction::Nothing
            },
            Action::StashApply => Reaction::Effect(self.stash_apply(store)),
            Action::StashPop => Reaction::Effect(self.stash_pop(store)),
            Action::StashDrop => {
                self.stash_drop(store);
                Reaction::Nothing
            },
            Action::RenameStash => {
                self.rename_stash(store);
                Reaction::Nothing
            },
            Action::BranchFromStash => {
                self.branch_from_stash(store);
                Reaction::Nothing
            },
            _ => Reaction::Nothing,
        }
    }

    /// Does what a key is bound to. `rows` is how many rows fit in the focused list,
    /// `main_rows` in the main view; `typed` is the text in the popup's input.
    pub fn act(
        &mut self,
        action: Action,
        rows: usize,
        main_rows: usize,
        typed: &str,
        store: &mut RepoStore,
    ) -> (r: Reaction)
        requires
            old(self)@.wf(),
            rows <= isize::MAX,
            main_rows <= isize::MAX,
        ensures
            (final(self)@, final(store)@, r@) == old(self)@.acted(action, rows, main_rows, typed@, old(store)@),
            final(self)@.wf(),
    {
        match action.subject() {
            Subject::Focus => self.act_focus(action, store),
            Subject::Move => self.act_move(action, rows, main_rows, store),
            Subject::Stage => self.act_stage(action, store),
            Subject::Screen => self.act_screen(action, typed, store),
            Subject::Repo => self.act_repo(action, store),
            Subject::Ref => self.act_ref(action, store),
        }
    }
}

} // verus!
