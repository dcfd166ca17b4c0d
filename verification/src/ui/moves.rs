//! Moving around: panels, tabs, cursors, pages and filters.

use std::ops::Range;

use vstd::prelude::*;

use crate::path::path_views;
use crate::store::{RepoStore, StoreView};
use crate::text::strings::text_opt;
use crate::ui::dialog::{Dialog, DialogView};
use crate::ui::panel::{PaneView, Panel};
use crate::ui::staging::{range_pair, Staging, StagingView};
use crate::ui::workspace::{filter_views, ints, Jobs, JobsView, Workspace, WorkspaceView};

verus! {

/// Page size for lists that haven't been laid out yet.
pub const PAGE: usize = 10;

/// A number moved by some amount, within `0..=max`.
pub open spec fn clamped(n: int, max: int) -> int {
    if n < 0 {
        0
    } else if n > max {
        max
    } else {
        n
    }
}

/// A number moved by some amount, within `0..=max`.
pub fn shifted(n: usize, delta: isize, max: usize) -> (r: usize)
    ensures
        r == clamped(n + delta, max as int),
{
    let sum: i128 = n as i128 + delta as i128;
    if sum < 0 {
        0
    } else if sum > max as i128 {
        max
    } else {
        sum as usize
    }
}

/// How far a page goes: what fits in the view, less one line of overlap.
pub open spec fn page_lines(rows: usize) -> int {
    if rows > 2 {
        rows - 1
    } else {
        1
    }
}

/// What a key that moves did.
pub enum Motion {
    Still,
    /// A popup is to be scrolled by some lines.
    ScrollPopup(isize),
    /// The main view is to be scrolled by some lines.
    ScrollMain(isize),
    /// The main view is to be scrolled to its end, or its start.
    MainEdge { bottom: bool },
    /// Lines of the staging view are to be scrolled into view.
    Reveal(Range<usize>),
    /// Another item is selected.
    Selected(Jobs),
}

#[verifier::ext_equal]
pub ghost enum MotionView {
    Still,
    ScrollPopup(int),
    ScrollMain(int),
    MainEdge { bottom: bool },
    Reveal((int, int)),
    Selected(JobsView),
}

impl View for Motion {
    type V = MotionView;

    open spec fn view(&self) -> MotionView {
        match self {
            Motion::Still => MotionView::Still,
            Motion::ScrollPopup(lines) => MotionView::ScrollPopup(*lines as int),
            Motion::ScrollMain(lines) => MotionView::ScrollMain(*lines as int),
            Motion::MainEdge { bottom } => MotionView::MainEdge { bottom: *bottom },
            Motion::Reveal(rows) => MotionView::Reveal(range_pair(*rows)),
            Motion::Selected(jobs) => MotionView::Selected(jobs@),
        }
    }
}

impl WorkspaceView {
    /// The staging view on the next or previous hunk, without a range.
    pub open spec fn hunk_stepped(self, forward: bool) -> (WorkspaceView, MotionView) {
        (WorkspaceView { staging: self.staging.without_range(), ..self }).staging_moved(
            false,
            Goal::Hunk { forward },
        )
    }

    /// The focused list's filter being typed, and what it is so far.
    pub open spec fn filter_started(self) -> (WorkspaceView, Option<Seq<char>>) {
        let view = self.current_view();
        if view.lists() {
            (
                WorkspaceView { filter: Some(view), ..self },
                Some(
                    match self.filters[view.place()] {
                        Some(filter) => filter,
                        None => Seq::empty(),
                    },
                ),
            )
        } else {
            (self, None)
        }
    }

    /// The staging view in its other half, if that has changes.
    pub open spec fn staging_panel_toggled(self, store: StoreView) -> WorkspaceView {
        let other = !self.staging.staged;
        if self.staging.path is None || !self.main.content.has_changes(other) {
            self
        } else {
            (WorkspaceView {
                staging: StagingView { staged: other, cursor: 0, anchor: None, ..self.staging },
                ..self
            }).staging_fixed(false, store)
        }
    }

    /// The cursor of a list moved by some items, and everything brought in step. An empty
    /// list has no cursor.
    pub open spec fn moved_by(self, view: PaneView, delta: int, store: StoreView) -> (
        WorkspaceView,
        StoreView,
        MotionView,
    ) {
        let n = self.visible(view, store).len();
        if n == 0 {
            (self, store, MotionView::Still)
        } else {
            let (next, after, jobs) = self.with_cursor(
                view,
                clamped(self.cursor(view, n) + delta, n - 1) as usize,
            ).synced(store);
            (next, after, MotionView::Selected(jobs))
        }
    }

    /// The cursor of a list on its first or last item.
    pub open spec fn moved_to_edge(self, view: PaneView, bottom: bool, store: StoreView) -> (
        WorkspaceView,
        StoreView,
        MotionView,
    ) {
        let n = self.visible(view, store).len();
        if n == 0 {
            (self, store, MotionView::Still)
        } else {
            let (next, after, jobs) = self.with_cursor(
                view,
                if bottom {
                    (n - 1) as usize
                } else {
                    0
                },
            ).synced(store);
            (next, after, MotionView::Selected(jobs))
        }
    }

    /// The lines to scroll into view after the staging cursor moved.
    pub open spec fn revealed(self, to: Option<int>) -> MotionView {
        match (to, self.main.content.half(self.staging.staged)) {
            (Some(line), Some(half)) => MotionView::Reveal(
                if self.staging.anchor is Some {
                    (line, line + 1)
                } else {
                    self.staging.selection(half.patch)
                },
            ),
            _ => MotionView::Still,
        }
    }

    /// Where the staging cursor goes.
    pub open spec fn staging_target(self, goal: Goal) -> Option<int> {
        match self.main.content.half(self.staging.staged) {
            None => None,
            Some(half) => match goal {
                Goal::Step { forward } => self.staging.step_target(half.patch, forward),
                Goal::Change { forward } => half.patch.change_beside(self.staging.cursor, forward),
                Goal::Hunk { forward } => half.patch.block_beside(self.staging.cursor, forward),
                Goal::Page { forward, lines } => self.staging.page_target(half.patch, forward, lines as int),
                Goal::First => half.patch.next_change(0),
                Goal::Last => half.patch.previous_change(half.patch.lines.len() as int),
            },
        }
    }

    /// The staging cursor moved. With `extend`, the move extends a range selection.
    pub open spec fn staging_moved(self, extend: bool, goal: Goal) -> (WorkspaceView, MotionView) {
        if self.staging.path is None || self.main.content.half(self.staging.staged) is None {
            (self, MotionView::Still)
        } else {
            let to = self.staging_target(goal);
            let next = WorkspaceView { staging: self.staging.moved(extend, to), ..self };
            (next, next.revealed(to))
        }
    }
}

/// Where to move the staging cursor.
#[derive(Clone, Copy, Debug, PartialEq, Eq, Structural)]
pub enum Goal {
    /// The next line, or the next hunk in hunk mode.
    Step { forward: bool },
    /// The next changed line.
    Change { forward: bool },
    /// The next hunk.
    Hunk { forward: bool },
    /// The change nearest to that many lines away.
    Page { forward: bool, lines: usize },
    First,
    Last,
}

impl Workspace {
    /// Puts the cursor of a list somewhere and brings everything in step.
    fn select_at(&mut self, view: PaneView, position: usize, store: &mut RepoStore) -> (r: Jobs)
        requires
            old(self)@.wf(),
        ensures
            (final(self)@, final(store)@, r@) == old(self)@.with_cursor(view, position).synced(old(store)@),
            final(self)@.wf(),
    {
        self.lists[view.index()] = position;
        self.after_change(store)
    }

    /// Moves the cursor of a list.
    pub fn move_by(&mut self, view: PaneView, delta: isize, store: &mut RepoStore) -> (r: Motion)
        requires
            old(self)@.wf(),
        ensures
            (final(self)@, final(store)@, r@) == old(self)@.moved_by(view, delta as int, old(store)@),
            final(self)@.wf(),
    {
        let visible = self.visible(view, store);
        let n: usize = visible.len();
        assert(ints(visible@).len() == n);
        if n == 0 {
            return Motion::Still;
        }
        let position: usize = shifted(self.cursor(view, n), delta, n - 1);
        Motion::Selected(self.select_at(view, position, store))
    }

    /// Puts the cursor of a list on its first or last item.
    pub fn move_to_edge(&mut self, view: PaneView, bottom: bool, store: &mut RepoStore) -> (r: Motion)
        requires
            old(self)@.wf(),
        ensures
            (final(self)@, final(store)@, r@) == old(self)@.moved_to_edge(view, bottom, old(store)@),
            final(self)@.wf(),
    {
        let visible = self.visible(view, store);
        let n: usize = visible.len();
        assert(ints(visible@).len() == n);
        if n == 0 {
            return Motion::Still;
        }
        let position: usize = if bottom {
            n - 1
        } else {
            0
        };
        Motion::Selected(self.select_at(view, position, store))
    }

    /// A click on a row of a list.
    pub fn click_row(&mut self, view: PaneView, position: usize, panel: Panel, store: &mut RepoStore) -> (r: Jobs)
        requires
            old(self)@.wf(),
        ensures
            (final(self)@, final(store)@, r@) == old(self)@.with_cursor(view, position).panel_focused(
                panel,
                old(store)@,
            ),
            final(self)@.wf(),
    {
        self.lists[view.index()] = position;
        self.focus_panel(panel, store)
    }

    /// Moves the staging cursor, if there is a place to go to. With `extend`, the move
    /// extends a range selection (starting one if needed).
    pub fn move_staging(&mut self, extend: bool, goal: Goal) -> (r: Motion)
        requires
            old(self)@.wf(),
        ensures
            (final(self)@, r@) == old(self)@.staging_moved(extend, goal),
            final(self)@.wf(),
    {
        if self.staging.path.is_none() {
            return Motion::Still;
        }
        let half = match self.main.content.half(self.staging.staged) {
            Some(half) => half,
            None => {
                return Motion::Still;
            },
        };
        let to = match goal {
            Goal::Step { forward } => self.staging.step_to(&half.patch, forward),
            Goal::Change { forward } => half.patch.adjacent_change(self.staging.cursor, forward),
            Goal::Hunk { forward } => half.patch.adjacent_block(self.staging.cursor, forward),
            Goal::Page { forward, lines } => self.staging.page_to(&half.patch, forward, lines),
            Goal::First => half.patch.first_change(),
            Goal::Last => half.patch.adjacent_change(half.patch.len(), false),
        };
        match self.staging.move_to(&half.patch, extend, to) {
            Some(rows) => Motion::Reveal(rows),
            None => Motion::Still,
        }
    }
}

impl WorkspaceView {
    /// Whether the open popup scrolls.
    pub open spec fn popup_scrolls(self) -> bool {
        match self.dialog {
            Some(DialogView::Help) => true,
            Some(DialogView::Results { .. }) => true,
            _ => false,
        }
    }

    /// What `j` and `k` do, by some lines: move the cursor in a menu or a list, or scroll
    /// the popup or the main view.
    pub open spec fn stepped(self, delta: int, store: StoreView) -> (WorkspaceView, StoreView, MotionView) {
        match self.dialog {
            Some(DialogView::Menu { title, items, selected }) => (
                WorkspaceView {
                    dialog: Some(
                        DialogView::Menu {
                            title,
                            items,
                            selected: clamped(
                                selected + delta,
                                if items.len() > 0 {
                                    items.len() - 1
                                } else {
                                    0
                                },
                            ),
                        },
                    ),
                    ..self
                },
                store,
                MotionView::Still,
            ),
            Some(_) => (
                self,
                store,
                if self.popup_scrolls() {
                    MotionView::ScrollPopup(delta)
                } else {
                    MotionView::Still
                },
            ),
            None => match self.current_view() {
                PaneView::Main => (self, store, MotionView::ScrollMain(delta)),
                PaneView::Staging => {
                    let (next, motion) = self.staging_moved(false, Goal::Step { forward: delta > 0 });
                    (next, store, motion)
                },
                PaneView::Status => (self, store, MotionView::Still),
                view => self.moved_by(view, delta, store),
            },
        }
    }

    /// What `.` and `,` do: as `j` and `k`, by a page of that many rows.
    pub open spec fn paged(self, forward: bool, rows: usize, store: StoreView) -> (
        WorkspaceView,
        StoreView,
        MotionView,
    ) {
        let lines = page_lines(rows);
        if self.dialog is None && self.current_view() == PaneView::Staging {
            let (next, motion) = self.staging_moved(false, Goal::Page { forward, lines: lines as usize });
            (next, store, motion)
        } else if self.dialog is Some && !self.popup_scrolls() {
            (self, store, MotionView::Still)
        } else {
            self.stepped(
                if forward {
                    lines
                } else {
                    -lines
                },
                store,
            )
        }
    }

    /// What `<` and `>` do: go to the first or the last item or line.
    pub open spec fn edged(self, bottom: bool, store: StoreView) -> (WorkspaceView, StoreView, MotionView) {
        match self.current_view() {
            PaneView::Main => (self, store, MotionView::MainEdge { bottom }),
            PaneView::Staging => {
                let (next, motion) = self.staging_moved(
                    false,
                    if bottom {
                        Goal::Last
                    } else {
                        Goal::First
                    },
                );
                (next, store, motion)
            },
            PaneView::Status => (self, store, MotionView::Still),
            view => self.moved_to_edge(view, bottom, store),
        }
    }
}

impl Workspace {
    /// Whether the open popup scrolls.
    pub fn popup_scrolls(&self) -> (r: bool)
        ensures
            r == self@.popup_scrolls(),
    {
        match &self.dialog {
            Some(Dialog::Help) => true,
            Some(Dialog::Results { .. }) => true,
            _ => false,
        }
    }

    /// `j`/`k` and friends: move the cursor in a list, or scroll the main view or popup.
    pub fn step(&mut self, delta: isize, store: &mut RepoStore) -> (r: Motion)
        requires
            old(self)@.wf(),
        ensures
            (final(self)@, final(store)@, r@) == old(self)@.stepped(delta as int, old(store)@),
            final(self)@.wf(),
    {
        if let Some(Dialog::Menu { title: _, items, selected }) = &mut self.dialog {
            let last: usize = if items.len() > 0 {
                items.len() - 1
            } else {
                0
            };
            *selected = shifted(*selected, delta, last);
            return Motion::Still;
        }
        if self.dialog.is_some() {
            return if self.popup_scrolls() {
                Motion::ScrollPopup(delta)
            } else {
                Motion::Still
            };
        }
        match self.current_view() {
            PaneView::Main => Motion::ScrollMain(delta),
            PaneView::Staging => self.move_staging(false, Goal::Step { forward: delta > 0 }),
            PaneView::Status => Motion::Still,
            view => self.move_by(view, delta, store),
        }
    }

    /// `.`/`,`: a page is what fits in the view being moved, less one line of overlap.
    pub fn page(&mut self, forward: bool, rows: usize, store: &mut RepoStore) -> (r: Motion)
        requires
            old(self)@.wf(),
            rows <= isize::MAX,
        ensures
            (final(self)@, final(store)@, r@) == old(self)@.paged(forward, rows, old(store)@),
            final(self)@.wf(),
    {
        let lines: usize = if rows > 2 {
            rows - 1
        } else {
            1
        };
        if self.dialog.is_none() && self.current_view() == PaneView::Staging {
            return self.move_staging(false, Goal::Page { forward, lines });
        }
        if self.dialog.is_some() && !self.popup_scrolls() {
            return Motion::Still;
        }
        let delta: isize = if forward {
            lines as isize
        } else {
            -(lines as isize)
        };
        self.step(delta, store)
    }

    /// `<`/`>`: the first or the last item or line.
    pub fn select_edge(&mut self, bottom: bool, store: &mut RepoStore) -> (r: Motion)
        requires
            old(self)@.wf(),
        ensures
            (final(self)@, final(store)@, r@) == old(self)@.edged(bottom, old(store)@),
            final(self)@.wf(),
    {
        match self.current_view() {
            PaneView::Main => Motion::MainEdge { bottom },
            PaneView::Staging => {
                let goal = if bottom {
                    Goal::Last
                } else {
                    Goal::First
                };
                self.move_staging(false, goal)
            },
            PaneView::Status => Motion::Still,
            view => self.move_to_edge(view, bottom, store),
        }
    }
}

impl WorkspaceView {
    /// The next or the previous tab of the focused panel.
    pub open spec fn tab_switched(self, forward: bool, store: StoreView) -> (
        WorkspaceView,
        StoreView,
        Option<JobsView>,
    ) {
        let count = self.focused.tab_names().len();
        if count > 1 {
            let tab = self.tabs.of(self.focused) as int;
            let next = if forward {
                (tab + 1) % (count as int)
            } else {
                (tab - 1) % (count as int)
            };
            let (w, s, jobs) = WorkspaceView {
                tabs: self.tabs.with(self.focused, next as usize),
                ..self
            }.synced(store);
            (w, s, Some(jobs))
        } else {
            (self, store, None)
        }
    }

    /// What `enter` does: opens the selected repo's files, or what the main view shows.
    pub open spec fn entered(self, store: StoreView) -> (WorkspaceView, StoreView, Option<JobsView>) {
        match self.focused {
            Panel::Repos => {
                let (w, s, jobs) = self.panel_focused(Panel::Files, store);
                (w, s, Some(jobs))
            },
            Panel::Status => (self, store, None),
            Panel::Main => (self, store, None),
            _ => {
                let (w, s, jobs) = self.panel_focused(Panel::Main, store);
                (w, s, Some(jobs))
            },
        }
    }

    /// What `esc` does: ends a range selection, clears the filter, goes back from the main
    /// view, or clears the marks; the first that there is to do.
    pub open spec fn backed(self, store: StoreView) -> (WorkspaceView, StoreView, Option<JobsView>) {
        let view = self.current_view();
        if view == PaneView::Staging && self.staging.anchor is Some {
            (WorkspaceView { staging: self.staging.without_range(), ..self }, store, None)
        } else if self.filters[view.place()] is Some {
            let (w, s, jobs) = self.with_filter(view, None).synced(store);
            (w, s, Some(jobs))
        } else if self.focused == Panel::Main {
            let (w, s, jobs) = self.panel_focused(self.last_side, store);
            (w, s, Some(jobs))
        } else if self.focused == Panel::Repos && self.marked.len() > 0 {
            (WorkspaceView { marked: Seq::empty(), ..self }, store, None)
        } else {
            (self, store, None)
        }
    }

    /// A view with another filter.
    pub open spec fn with_filter(self, view: PaneView, filter: Option<Seq<char>>) -> WorkspaceView {
        WorkspaceView { filters: self.filters.update(view.place(), filter), ..self }
    }

    /// The filter of a view typed: its cursor goes to the first item.
    pub open spec fn filter_typed(self, view: PaneView, filter: Seq<char>, store: StoreView) -> (
        WorkspaceView,
        StoreView,
        JobsView,
    ) {
        self.with_filter(view, Some(filter)).with_cursor(view, 0).synced(store)
    }
}

/// The view of jobs that may be missing.
pub open spec fn jobs_opt(jobs: Option<Jobs>) -> Option<JobsView> {
    match jobs {
        Some(jobs) => Some(jobs@),
        None => None,
    }
}

impl Workspace {
    /// Sets or clears a view's filter.
    fn set_filter(&mut self, view: PaneView, filter: Option<String>)
        requires
            old(self)@.wf(),
        ensures
            final(self)@ == old(self)@.with_filter(view, text_opt(filter)),
            final(self)@.wf(),
    {
        let ghost before = self.filters@;
        let ghost text = text_opt(filter);
        self.filters[view.index()] = filter;
        assert(filter_views(self.filters@) =~= filter_views(before).update(view.place(), text));
    }

    /// Focuses the next side panel.
    pub fn next_panel(&mut self, store: &mut RepoStore) -> (r: Jobs)
        requires
            old(self)@.wf(),
        ensures
            (final(self)@, final(store)@, r@) == old(self)@.panel_focused(
                old(self)@.main_source().after(),
                old(store)@,
            ),
            final(self)@.wf(),
    {
        let panel = self.main_source().next();
        self.focus_panel(panel, store)
    }

    /// Focuses the previous side panel.
    pub fn prev_panel(&mut self, store: &mut RepoStore) -> (r: Jobs)
        requires
            old(self)@.wf(),
        ensures
            (final(self)@, final(store)@, r@) == old(self)@.panel_focused(
                old(self)@.main_source().before(),
                old(store)@,
            ),
            final(self)@.wf(),
    {
        let panel = self.main_source().prev();
        self.focus_panel(panel, store)
    }

    /// Selects the next or the previous repo, from any panel.
    pub fn step_repo(&mut self, forward: bool, store: &mut RepoStore) -> (r: Motion)
        requires
            old(self)@.wf(),
        ensures
            (final(self)@, final(store)@, r@) == old(self)@.moved_by(
                PaneView::Repos,
                if forward {
                    1
                } else {
                    -1
                },
                old(store)@,
            ),
            final(self)@.wf(),
    {
        let delta: isize = if forward {
            1
        } else {
            -1
        };
        self.move_by(PaneView::Repos, delta, store)
    }

    /// Switches to the next or the previous tab.
    pub fn switch_tab(&mut self, forward: bool, store: &mut RepoStore) -> (r: Option<Jobs>)
        requires
            old(self)@.wf(),
        ensures
            (final(self)@, final(store)@, jobs_opt(r)) == old(self)@.tab_switched(forward, old(store)@),
            final(self)@.wf(),
    {
        let panel = self.focused;
        let count: usize = panel.tabs().len();
        if count <= 1 {
            return None;
        }
        let tab: usize = self.tab(panel) % count;
        let next: usize = if forward {
            if tab + 1 == count {
                0
            } else {
                tab + 1
            }
        } else if tab == 0 {
            count - 1
        } else {
            tab - 1
        };
        proof {
            lemma_tab_step(self.tabs.of(panel) as int, count as int);
        }
        self.tabs.set(panel, next);
        Some(self.after_change(store))
    }

    /// `enter`: from Files this opens the staging view, at the first change.
    pub fn enter(&mut self, store: &mut RepoStore) -> (r: Option<Jobs>)
        requires
            old(self)@.wf(),
        ensures
            (final(self)@, final(store)@, jobs_opt(r)) == old(self)@.entered(old(store)@),
            final(self)@.wf(),
    {
        match self.focused {
            Panel::Repos => Some(self.focus_panel(Panel::Files, store)),
            Panel::Status => None,
            Panel::Main => None,
            _ => Some(self.focus_panel(Panel::Main, store)),
        }
    }

    /// `esc`.
    pub fn back(&mut self, store: &mut RepoStore) -> (r: Option<Jobs>)
        requires
            old(self)@.wf(),
        ensures
            (final(self)@, final(store)@, jobs_opt(r)) == old(self)@.backed(old(store)@),
            final(self)@.wf(),
    {
        let view = self.current_view();
        if view == PaneView::Staging && self.staging.anchor.is_some() {
            self.staging.anchor = None;
            return None;
        }
        let at: usize = view.index();
        assert(self@.filters[at as int] == text_opt(self.filters@[at as int]));
        if self.filters[at].is_some() {
            self.set_filter(view, None);
            return Some(self.after_change(store));
        }
        if self.focused == Panel::Main {
            let panel = self.last_side;
            return Some(self.focus_panel(panel, store));
        }
        if self.focused == Panel::Repos && self.marked.len() > 0 {
            self.marked = Vec::new();
            assert(path_views(self.marked@) =~= Seq::<Seq<u8>>::empty());
        }
        None
    }

    /// `/`: starts to type a filter for the focused list. Returns what it is now.
    pub fn start_filter(&mut self) -> (r: Option<String>)
        requires
            old(self)@.wf(),
        ensures
            (final(self)@, text_opt(r)) == old(self)@.filter_started(),
            final(self)@.wf(),
    {
        let view = self.current_view();
        if !view.is_list() {
            return None;
        }
        self.filter = Some(view);
        let at: usize = view.index();
        assert(self@.filters[at as int] == text_opt(self.filters@[at as int]));
        match &self.filters[at] {
            Some(filter) => Some(filter.clone()),
            None => {
                let none = String::new();
                assert(none@ =~= Seq::<char>::empty());
                Some(none)
            },
        }
    }

    /// The filter being typed changed.
    pub fn type_filter(&mut self, view: PaneView, filter: &str, store: &mut RepoStore) -> (r: Jobs)
        requires
            old(self)@.wf(),
        ensures
            (final(self)@, final(store)@, r@) == old(self)@.filter_typed(view, filter@, old(store)@),
            final(self)@.wf(),
    {
        self.set_filter(view, Some(filter.to_owned()));
        self.select_at(view, 0, store)
    }

    /// The next screen mode.
    pub fn next_screen_mode(&mut self)
        ensures
            final(self)@ == (WorkspaceView { screen_mode: old(self)@.screen_mode.after(), ..old(self)@ }),
    {
        self.screen_mode = self.screen_mode.next();
    }

    /// The previous screen mode.
    pub fn prev_screen_mode(&mut self)
        ensures
            final(self)@ == (WorkspaceView { screen_mode: old(self)@.screen_mode.before(), ..old(self)@ }),
    {
        self.screen_mode = self.screen_mode.prev();
    }

    /// Shows or hides the command log.
    pub fn toggle_command_log(&mut self)
        ensures
            final(self)@ == (WorkspaceView {
                show_command_log: !old(self)@.show_command_log,
                ..old(self)@
            }),
    {
        self.show_command_log = !self.show_command_log;
    }

    /// Switches between the unstaged and the staged changes, if the other half has any.
    pub fn toggle_staging_panel(&mut self, store: &RepoStore)
        requires
            old(self)@.wf(),
        ensures
            final(self)@ == old(self)@.staging_panel_toggled(store@),
            final(self)@.wf(),
    {
        let other = !self.staging.staged;
        if self.staging.path.is_none() || !self.main.content.has_changes(other) {
            return;
        }
        self.staging.staged = other;
        self.staging.cursor = 0;
        self.staging.anchor = None;
        self.fix_staging(false, store);
    }

    /// `a`: hunk or line selection.
    pub fn toggle_select_hunk(&mut self)
        requires
            old(self)@.wf(),
        ensures
            final(self)@ == (WorkspaceView { staging: old(self)@.staging.hunk_toggled(), ..old(self)@ }),
            final(self)@.wf(),
    {
        self.staging.hunk = !self.staging.hunk;
        self.staging.anchor = None;
    }

    /// `v`: starts a range selection, or ends it.
    pub fn toggle_range_select(&mut self)
        requires
            old(self)@.wf(),
        ensures
            final(self)@ == (WorkspaceView { staging: old(self)@.staging.range_toggled(), ..old(self)@ }),
            final(self)@.wf(),
    {
        self.staging.anchor = match self.staging.anchor {
            Some(_) => None,
            None => Some(self.staging.cursor),
        };
        self.staging.hunk = false;
    }

    /// Extends the range selection to the next or previous change.
    pub fn range_select(&mut self, forward: bool) -> (r: Motion)
        requires
            old(self)@.wf(),
        ensures
            (final(self)@, r@) == old(self)@.staging_moved(true, Goal::Change { forward }),
            final(self)@.wf(),
    {
        self.move_staging(true, Goal::Change { forward })
    }

    /// Moves to the next or the previous hunk, without a range selection.
    pub fn step_hunk(&mut self, forward: bool) -> (r: Motion)
        requires
            old(self)@.wf(),
        ensures
            (final(self)@, r@) == old(self)@.hunk_stepped(forward),
            final(self)@.wf(),
    {
        self.staging.anchor = None;
        self.move_staging(false, Goal::Hunk { forward })
    }

    /// A click on a line of a file's diff: focuses the staging view with the cursor there.
    pub fn click_diff_line(&mut self, staged: bool, line: usize, store: &mut RepoStore) -> (r: Option<Jobs>)
        requires
            old(self)@.wf(),
        ensures
            ({
                let (focused, after, jobs) = old(self)@.diff_focused(old(store)@);
                &&& final(store)@ == after
                &&& jobs_opt(r) == jobs
                &&& final(self)@ == focused.diff_clicked(staged, line as int)
            }),
            final(self)@.wf(),
    {
        let jobs = if self.focused != Panel::Main {
            Some(self.focus_panel(Panel::Main, store))
        } else {
            None
        };
        if self.staging.path.is_none() {
            return jobs;
        }
        if let Some(half) = self.main.content.half(staged) {
            if half.patch.has_changes() {
                self.staging.staged = staged;
                self.staging.anchor = None;
                self.staging.cursor = match half.patch.nearest_change(line) {
                    Some(i) => i,
                    None => 0,
                };
            }
        }
        jobs
    }
}

impl WorkspaceView {
    /// The focus on the main view.
    pub open spec fn diff_focused(self, store: StoreView) -> (WorkspaceView, StoreView, Option<JobsView>) {
        if self.focused != Panel::Main {
            let (w, s, jobs) = self.panel_focused(Panel::Main, store);
            (w, s, Some(jobs))
        } else {
            (self, store, None)
        }
    }

    /// The staging cursor on the change nearest to a line, if there is one to stage.
    pub open spec fn diff_clicked(self, in_index: bool, line: int) -> WorkspaceView {
        match self.main.content.half(in_index) {
            Some(half) => if self.staging.path is Some && half.patch.any_change() {
                WorkspaceView {
                    staging: StagingView {
                        staged: in_index,
                        anchor: None,
                        cursor: match half.patch.closest_change(line) {
                            Some(i) => i,
                            None => 0,
                        },
                        ..self.staging
                    },
                    ..self
                }
            } else {
                self
            },
            None => self,
        }
    }
}

/// The previous tab undoes the next one, and the other way round.
pub proof fn law_tabs_go_round(tab: int, count: int)
    requires
        0 <= tab < count,
        1 < count,
    ensures
        ((tab + 1) % count - 1) % count == tab,
        ((tab - 1) % count + 1) % count == tab,
{
    vstd::arithmetic::div_mod::lemma_small_mod(tab as nat, count as nat);
    lemma_tab_step(tab, count);
    lemma_tab_step((tab + 1) % count, count);
    lemma_tab_step((tab - 1) % count, count);
    vstd::arithmetic::div_mod::lemma_small_mod(((tab + 1) % count) as nat, count as nat);
    vstd::arithmetic::div_mod::lemma_small_mod(((tab - 1) % count) as nat, count as nat);
}

/// Stepping from a tab is stepping from its remainder.
proof fn lemma_tab_step(tab: int, count: int)
    requires
        0 <= tab,
        1 < count,
    ensures
        0 <= tab % count < count,
        (tab + 1) % count == (if tab % count + 1 == count {
            0
        } else {
            tab % count + 1
        }),
        (tab - 1) % count == (if tab % count == 0 {
            count - 1
        } else {
            tab % count - 1
        }),
{
    let q = tab / count;
    let r = tab % count;
    vstd::arithmetic::div_mod::lemma_fundamental_div_mod(tab, count);
    vstd::arithmetic::div_mod::lemma_mod_bound(tab, count);
    assert(q * count == count * q) by (nonlinear_arith);
    if r + 1 == count {
        assert((q + 1) * count == q * count + count) by (nonlinear_arith);
        vstd::arithmetic::div_mod::lemma_fundamental_div_mod_converse(tab + 1, count, q + 1, 0);
    } else {
        vstd::arithmetic::div_mod::lemma_fundamental_div_mod_converse(tab + 1, count, q, r + 1);
    }
    if r == 0 {
        assert((q - 1) * count == q * count - count) by (nonlinear_arith);
        vstd::arithmetic::div_mod::lemma_fundamental_div_mod_converse(tab - 1, count, q - 1, count - 1);
    } else {
        vstd::arithmetic::div_mod::lemma_fundamental_div_mod_converse(tab - 1, count, q, r - 1);
    }
}

} // verus!
