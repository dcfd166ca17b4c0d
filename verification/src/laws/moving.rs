//! Where the cursors and the focus go, and what the main view then shows.

use vstd::prelude::*;

use crate::detail::DetailView;
use crate::store::StoreView;
use crate::ui::main_view::KeyView;
use crate::ui::moves::{clamped, page_lines};
use crate::ui::panel::{PaneView, Panel, ScreenMode};
use crate::ui::popups::first_state;
use crate::ui::sync::{item_main, submodule_state};
use crate::ui::workspace::{detail_text, items, Tabs, WorkspaceView};

verus! {

/// A moved number stays within its bounds, and goes as far as it was asked to if it can.
pub proof fn law_moves_stay_in_bounds(n: int, max: int)
    requires
        0 <= max,
    ensures
        0 <= clamped(n, max) <= max,
        0 <= n <= max ==> clamped(n, max) == n,
        n < 0 ==> clamped(n, max) == 0,
        n > max ==> clamped(n, max) == max,
{
}

/// A page goes as far as the view is high, less a line; it always goes at least one.
pub proof fn law_pages_overlap(rows: usize)
    ensures
        page_lines(rows) >= 1,
        rows > 1 ==> page_lines(rows) == rows - 1,
{
}

/// Without a filter a view lists everything, in order.
pub proof fn law_everything_is_listed(w: WorkspaceView, view: PaneView, store: StoreView, i: int)
    requires
        w.filters[view.place()] is None || w.filters[view.place()]->0.len() == 0,
        0 <= i < items(view, store),
    ensures
        w.visible(view, store).len() == items(view, store),
        w.visible(view, store)[i] == i,
{
}

/// The cursor is on what it was put on, or on the last item of a list that got shorter.
pub proof fn law_cursors_stay_in_the_list(w: WorkspaceView, view: PaneView, len: nat, position: usize)
    requires
        w.wf(),
        0 < len,
    ensures
        0 <= w.cursor(view, len) < len,
        position < len ==> w.with_cursor(view, position).cursor(view, len) == position,
        position >= len ==> w.with_cursor(view, position).cursor(view, len) == len - 1,
{
}

/// Each view has a cursor and a filter of its own.
pub proof fn law_views_have_their_own_place(a: PaneView, b: PaneView)
    ensures
        a.place() == b.place() ==> a == b,
        0 <= a.place() < crate::ui::workspace::VIEWS,
{
}

/// What the panels list: their tabs, in order.
pub proof fn law_tabs_show_their_lists()
    ensures
        Panel::Files.view_at(0) == PaneView::Files && Panel::Files.view_at(1) == PaneView::Worktrees
            && Panel::Files.view_at(2) == PaneView::Submodules,
        Panel::Branches.view_at(0) == PaneView::Branches && Panel::Branches.view_at(1) == PaneView::Remotes
            && Panel::Branches.view_at(2) == PaneView::Tags,
        Panel::Commits.view_at(0) == PaneView::Commits && Panel::Commits.view_at(1) == PaneView::Reflog,
        Panel::Repos.view_at(0) == PaneView::Repos && Panel::Status.view_at(0) == PaneView::Status
            && Panel::Stash.view_at(0) == PaneView::Stash && Panel::Main.view_at(0) == PaneView::Main,
        Panel::Files.tab_names().len() == 3 && Panel::Branches.tab_names().len() == 3 && Panel::Commits.tab_names().len()
            == 2 && Panel::Repos.tab_names().len() == 1 && Panel::Stash.tab_names().len() == 1,
{
}

/// The panels follow one another from top to bottom, and then from the first again.
pub proof fn law_panels_follow_one_another()
    ensures
        Panel::Repos.after() == Panel::Status && Panel::Status.after() == Panel::Files && Panel::Files.after()
            == Panel::Branches,
        Panel::Branches.after() == Panel::Commits && Panel::Commits.after() == Panel::Stash && Panel::Stash.after()
            == Panel::Repos,
        ScreenMode::Normal.after() == ScreenMode::Half && ScreenMode::Half.after() == ScreenMode::Full
            && ScreenMode::Full.after() == ScreenMode::Normal,
{
}

/// A panel's tab is the one it was put on; the other panels stay on theirs.
pub proof fn law_tabs_are_set_one_by_one(tabs: Tabs, panel: Panel, other: Panel, tab: usize)
    requires
        panel == Panel::Files || panel == Panel::Branches || panel == Panel::Commits,
    ensures
        tabs.with(panel, tab).of(panel) == tab,
        other != panel ==> tabs.with(panel, tab).of(other) == tabs.of(other),
{
}

/// Focusing a side panel closes the staging view and is remembered for the way back; focusing
/// the main view keeps the side panel.
pub proof fn law_focus_is_remembered(w: WorkspaceView, panel: Panel)
    ensures
        w.on_panel(panel).focused == panel,
        panel != Panel::Main ==> w.on_panel(panel).last_side == panel && w.on_panel(panel).staging.path is None,
        panel == Panel::Main ==> w.on_panel(panel).last_side == w.last_side && w.on_panel(panel).staging == w.staging,
        panel != Panel::Main ==> w.on_panel(panel).main_source() == panel,
        panel == Panel::Main ==> w.on_panel(panel).main_source() == w.last_side,
{
}

/// What the main view shows of the selected item: a file's diff, a branch's log, a commit's or
/// a tag's patch, a stash, each of the selected repo and of that item.
pub proof fn law_main_view_shows_the_item(root: Seq<u8>, ix: int, d: DetailView)
    ensures
        item_main(root, PaneView::Files, ix, d).0 == (KeyView::Diff { root, path: d.files[ix].path }),
        item_main(root, PaneView::Branches, ix, d).0 == (KeyView::Log { root, rev: d.branches[ix].name }),
        item_main(root, PaneView::Remotes, ix, d).0 == (KeyView::Log {
            root,
            rev: d.remote_branches[ix].remote + seq!['/'] + d.remote_branches[ix].name,
        }),
        item_main(root, PaneView::Tags, ix, d).0 == (KeyView::Show { root, rev: d.tags[ix].name }),
        item_main(root, PaneView::Commits, ix, d).0 == (KeyView::Show { root, rev: d.commits[ix].oid }),
        item_main(root, PaneView::Reflog, ix, d).0 == (KeyView::Show { root, rev: d.reflog[ix].short_oid }),
        item_main(root, PaneView::Stash, ix, d).0 == (KeyView::Stash { root, index: d.stashes[ix].index }),
        item_main(root, PaneView::Worktrees, ix, d).0 is Message,
        item_main(root, PaneView::Submodules, ix, d).0 is Message,
{
    reveal_strlit("/");
    assert("/"@ =~= seq!['/']);
}

/// What a submodule's letter means.
pub proof fn law_submodule_letters()
    ensures
        submodule_state('+') == "checked out at a different commit than recorded"@,
        submodule_state('-') == "not initialized"@,
        submodule_state('U') == "has merge conflicts"@,
        submodule_state(' ') == "in sync"@,
{
}

/// A filter looks at what tells the items of a list apart: paths, names, and of commits the
/// id, the subject and the author.
pub proof fn law_filters_look_at_names(d: DetailView, ix: int)
    ensures
        detail_text(PaneView::Files, ix, d) == d.files[ix].path,
        detail_text(PaneView::Branches, ix, d) == d.branches[ix].name,
        detail_text(PaneView::Remotes, ix, d) == d.remote_branches[ix].remote + "/"@ + d.remote_branches[ix].name,
        detail_text(PaneView::Tags, ix, d) == d.tags[ix].name,
        detail_text(PaneView::Stash, ix, d) == d.stashes[ix].subject,
        detail_text(PaneView::Reflog, ix, d) == d.reflog[ix].subject,
        detail_text(PaneView::Submodules, ix, d) == d.submodules[ix].path,
        detail_text(PaneView::Commits, ix, d) == d.commits[ix].short_oid + " "@ + d.commits[ix].subject + " "@
            + d.commits[ix].author,
{
}

/// A list is as long as what it lists.
pub proof fn law_lists_are_as_long_as_what_they_list(store: StoreView, d: DetailView)
    requires
        store.selected_detail() == Some(d),
    ensures
        items(PaneView::Repos, store) == store.repos.len(),
        items(PaneView::Files, store) == d.files.len() && items(PaneView::Branches, store) == d.branches.len(),
        items(PaneView::Remotes, store) == d.remote_branches.len() && items(PaneView::Tags, store) == d.tags.len(),
        items(PaneView::Commits, store) == d.commits.len() && items(PaneView::Reflog, store) == d.reflog.len(),
        items(PaneView::Stash, store) == d.stashes.len() && items(PaneView::Worktrees, store) == d.worktrees.len(),
        items(PaneView::Submodules, store) == d.submodules.len(),
        items(PaneView::Main, store) == 0 && items(PaneView::Status, store) == 0 && items(PaneView::Staging, store) == 0,
{
}

/// The selected item is the one under the cursor, if the list has any.
pub proof fn law_selection_is_under_the_cursor(w: WorkspaceView, view: PaneView, store: StoreView)
    ensures
        ({
            let visible = w.visible(view, store);
            &&& w.selected_ix(view, store) is Some <==> visible.len() > 0
            &&& w.selected_ix(view, store) matches Some(ix) ==> ix == visible[w.cursor(view, visible.len())]
        }),
        w.selected_ix(PaneView::Repos, store) matches Some(ix) ==> w.selected_root(store) == Some(
            store.repos[ix].location.root,
        ),
        w.selected_ix(PaneView::Repos, store) is None ==> w.selected_root(store) is None,
{
}

/// Another repo's lists start at the top and without filters; the list of repos stays as it
/// is.
pub proof fn law_another_repo_starts_at_the_top(w: WorkspaceView, view: PaneView)
    requires
        w.wf(),
        view.lists(),
    ensures
        view != PaneView::Repos ==> w.repo_left().lists[view.place()] == 0 && w.repo_left().filters[view.place()] is None,
        w.repo_left().lists[PaneView::Repos.place()] == w.lists[PaneView::Repos.place()],
        w.repo_left().filters[PaneView::Repos.place()] == w.filters[PaneView::Repos.place()],
        w.repo_left().staging.path is None,
        w.repo_left().marked == w.marked,
{
}

/// A filter is set for its own view, and no other.
pub proof fn law_filters_are_set_one_by_one(
    w: WorkspaceView,
    view: PaneView,
    other: PaneView,
    filter: Option<Seq<char>>,
    position: usize,
)
    requires
        w.wf(),
    ensures
        w.with_filter(view, filter).filters[view.place()] == filter,
        other != view ==> w.with_filter(view, filter).filters[other.place()] == w.filters[other.place()],
        other != view ==> w.with_cursor(view, position).lists[other.place()] == w.lists[other.place()],
        w.with_filter(view, filter).lists == w.lists,
{
    law_views_have_their_own_place(view, other);
}

/// At the start the list of repos has the focus, with nothing marked, filtered or open.
pub proof fn law_first_state()
    ensures
        first_state().focused == Panel::Repos && first_state().dialog is None && first_state().filter is None,
        first_state().marked.len() == 0 && first_state().show_command_log && first_state().screen_mode
            == ScreenMode::Normal,
        first_state().staging.path is None,
        first_state().wf(),
{
}

} // verus!
