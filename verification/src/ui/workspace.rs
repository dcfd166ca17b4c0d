//! The root view: lazygit's panels plus the Repos column, focus, selection and what the main
//! view shows.

use vstd::prelude::*;

use crate::detail::{file_opt, DetailView};
use crate::model::{FileEntry, FileView, LocationView, RepoLocation};
use crate::path::{path_opt, path_views, paths_differ, FsPath};
use crate::store::{job_opt, DetailJob, EntryView, JobView, RepoStore, StoreView};
use crate::text::outside::{lossy_text, lowercase, text_lossy, to_lower};
use crate::text::seqs::has_sub;
use crate::text::strings::{cat3, cat5, push_string, str_contains, text_opt, texts};
use crate::ui::dialog::{dialog_opt, Dialog, DialogView};
use crate::ui::main_view::{key_opt, ContentView, KeyView, MainContent, MainKey};
use crate::ui::panel::{PaneView, Panel, ScreenMode};
use crate::ui::staging::{Staging, StagingView};

verus! {

/// How many views there are.
pub const VIEWS: usize = 13;

/// The tab of each panel that has more than one.
#[derive(Clone, Copy, Debug, PartialEq, Eq, Structural)]
pub struct Tabs {
    pub files: usize,
    pub branches: usize,
    pub commits: usize,
}

impl Tabs {
    /// A panel's tab.
    pub open spec fn of(self, panel: Panel) -> usize {
        match panel {
            Panel::Files => self.files,
            Panel::Branches => self.branches,
            Panel::Commits => self.commits,
            _ => 0,
        }
    }

    /// The tabs with a panel on another one; a panel with one tab stays on it.
    pub open spec fn with(self, panel: Panel, tab: usize) -> Tabs {
        match panel {
            Panel::Files => Tabs { files: tab, ..self },
            Panel::Branches => Tabs { branches: tab, ..self },
            Panel::Commits => Tabs { commits: tab, ..self },
            _ => self,
        }
    }

    /// A panel's tab.
    pub fn get(&self, panel: Panel) -> (r: usize)
        ensures
            r == self.of(panel),
    {
        match panel {
            Panel::Files => self.files,
            Panel::Branches => self.branches,
            Panel::Commits => self.commits,
            _ => 0,
        }
    }

    /// Puts a panel on another tab.
    pub fn set(&mut self, panel: Panel, tab: usize)
        ensures
            *final(self) == old(self).with(panel, tab),
    {
        match panel {
            Panel::Files => {
                self.files = tab;
            },
            Panel::Branches => {
                self.branches = tab;
            },
            Panel::Commits => {
                self.commits = tab;
            },
            _ => {},
        }
    }
}

/// What the main view shows.
pub struct MainState {
    pub key: Option<MainKey>,
    pub generation: u64,
    pub title: &'static str,
    pub content: MainContent,
    /// The key `content` was loaded for; it lags `key` while the new content loads.
    pub loaded: Option<MainKey>,
    /// Counts loads, so a load can tell whether it started after a patch was applied.
    pub loads: u64,
}

#[verifier::ext_equal]
pub ghost struct MainView {
    pub key: Option<KeyView>,
    pub generation: u64,
    pub title: Seq<char>,
    pub content: ContentView,
    pub loaded: Option<KeyView>,
    pub loads: u64,
}

impl View for MainState {
    type V = MainView;

    open spec fn view(&self) -> MainView {
        MainView {
            key: key_opt(self.key),
            generation: self.generation,
            title: self.title@,
            content: self.content@,
            loaded: key_opt(self.loaded),
            loads: self.loads,
        }
    }
}

/// The UI's state.
pub struct Workspace {
    pub focused: Panel,
    pub last_side: Panel,
    pub tabs: Tabs,
    /// The cursor of each view's list.
    pub lists: Vec<usize>,
    /// Each view's filter.
    pub filters: Vec<Option<String>>,
    /// The view whose filter is being typed.
    pub filter: Option<PaneView>,
    pub screen_mode: ScreenMode,
    pub show_command_log: bool,
    pub main: MainState,
    pub staging: Staging,
    pub dialog: Option<Dialog>,
    pub spinner: usize,
    /// Repos marked in the Repos panel; actions started there run on all of them.
    pub marked: Vec<FsPath>,
    /// Identifies the multi-repo action whose results popup is showing.
    pub last_batch: u64,
}

#[verifier::ext_equal]
pub ghost struct WorkspaceView {
    pub focused: Panel,
    pub last_side: Panel,
    pub tabs: Tabs,
    pub lists: Seq<usize>,
    pub filters: Seq<Option<Seq<char>>>,
    pub filter: Option<PaneView>,
    pub screen_mode: ScreenMode,
    pub show_command_log: bool,
    pub main: MainView,
    pub staging: StagingView,
    pub dialog: Option<DialogView>,
    pub spinner: usize,
    pub marked: Seq<Seq<u8>>,
    pub last_batch: u64,
}

/// The views of some filters.
pub open spec fn filter_views(filters: Seq<Option<String>>) -> Seq<Option<Seq<char>>> {
    filters.map_values(|f: Option<String>| text_opt(f))
}

impl View for Workspace {
    type V = WorkspaceView;

    open spec fn view(&self) -> WorkspaceView {
        WorkspaceView {
            focused: self.focused,
            last_side: self.last_side,
            tabs: self.tabs,
            lists: self.lists@,
            filters: filter_views(self.filters@),
            filter: self.filter,
            screen_mode: self.screen_mode,
            show_command_log: self.show_command_log,
            main: self.main@,
            staging: self.staging@,
            dialog: dialog_opt(self.dialog),
            spinner: self.spinner,
            marked: path_views(self.marked@),
            last_batch: self.last_batch,
        }
    }
}

/// How many items a view lists.
pub open spec fn items(view: PaneView, store: StoreView) -> nat {
    if view == PaneView::Repos {
        store.repos.len()
    } else {
        match store.selected_detail() {
            None => 0,
            Some(d) => match view {
                PaneView::Files => d.files.len(),
                PaneView::Worktrees => d.worktrees.len(),
                PaneView::Submodules => d.submodules.len(),
                PaneView::Branches => d.branches.len(),
                PaneView::Remotes => d.remote_branches.len(),
                PaneView::Tags => d.tags.len(),
                PaneView::Commits => d.commits.len(),
                PaneView::Reflog => d.reflog.len(),
                PaneView::Stash => d.stashes.len(),
                _ => 0,
            },
        }
    }
}

/// Text of a repo matched by `/` filtering.
pub open spec fn repo_text(e: EntryView) -> Seq<char> {
    e.location.name + " "@ + match e.summary {
        Some(s) => match s.head.branch() {
            Some(branch) => branch,
            None => Seq::empty(),
        },
        None => Seq::empty(),
    }
}

/// Text of an item of the selected repo matched by `/` filtering.
pub open spec fn detail_text(view: PaneView, ix: int, d: DetailView) -> Seq<char> {
    match view {
        PaneView::Files => d.files[ix].path,
        PaneView::Worktrees => lossy_text(d.worktrees[ix].path),
        PaneView::Submodules => d.submodules[ix].path,
        PaneView::Branches => d.branches[ix].name,
        PaneView::Remotes => d.remote_branches[ix].remote + "/"@ + d.remote_branches[ix].name,
        PaneView::Tags => d.tags[ix].name,
        PaneView::Commits => d.commits[ix].short_oid + " "@ + d.commits[ix].subject + " "@ + d.commits[ix].author,
        PaneView::Reflog => d.reflog[ix].subject,
        PaneView::Stash => d.stashes[ix].subject,
        _ => Seq::empty(),
    }
}

/// Text of an item matched by `/` filtering.
pub open spec fn text_of(view: PaneView, ix: int, store: StoreView) -> Seq<char> {
    if view == PaneView::Repos {
        repo_text(store.repos[ix])
    } else {
        match store.selected_detail() {
            Some(d) => detail_text(view, ix, d),
            None => Seq::empty(),
        }
    }
}

/// The items' texts in lower case.
pub open spec fn lowered(view: PaneView, store: StoreView) -> Seq<Seq<char>> {
    Seq::new(items(view, store), |i: int| lowercase(text_of(view, i, store)))
}

/// The numbers of the texts that contain another one, in order.
pub open spec fn matches_of(list: Seq<Seq<char>>, part: Seq<char>) -> Seq<int>
    decreases list.len(),
{
    if list.len() == 0 {
        Seq::empty()
    } else if has_sub(list.last(), part) {
        matches_of(list.drop_last(), part).push(list.len() - 1)
    } else {
        matches_of(list.drop_last(), part)
    }
}

/// Some numbers.
pub open spec fn ints(list: Seq<usize>) -> Seq<int> {
    list.map_values(|i: usize| i as int)
}

/// The numbers of the texts that contain another one.
pub fn matching(list: &Vec<String>, part: &str) -> (r: Vec<usize>)
    ensures
        ints(r@) == matches_of(texts(list@), part@),
{
    let ghost all = texts(list@);
    let mut out: Vec<usize> = Vec::new();
    let mut i: usize = 0;
    assert(all.take(0) =~= Seq::<Seq<char>>::empty());
    assert(ints(out@) =~= Seq::<int>::empty());
    while i < list.len()
        invariant
            i <= list@.len(),
            all == texts(list@),
            ints(out@) == matches_of(all.take(i as int), part@),
        decreases list@.len() - i,
    {
        let ghost next = all.take(i + 1);
        let ghost before = out@;
        assert(next.drop_last() =~= all.take(i as int));
        assert(next.last() == list@[i as int]@);
        if str_contains(list[i].as_str(), part) {
            out.push(i);
            assert(ints(out@) =~= ints(before).push(i as int));
        }
        i = i + 1;
    }
    assert(all.take(all.len() as int) =~= all);
    out
}

/// A filter keeps items of the list only, each that matches and in order.
pub proof fn law_filter_keeps_matching_items(list: Seq<Seq<char>>, part: Seq<char>)
    ensures
        forall|k: int|
            0 <= k < matches_of(list, part).len() ==> 0 <= #[trigger] matches_of(list, part)[k] < list.len()
                && has_sub(list[matches_of(list, part)[k]], part),
        forall|j: int, k: int|
            0 <= j < k < matches_of(list, part).len() ==> #[trigger] matches_of(list, part)[j]
                < #[trigger] matches_of(list, part)[k],
        forall|i: int|
            0 <= i < list.len() && has_sub(#[trigger] list[i], part) ==> matches_of(list, part).contains(i),
    decreases list.len(),
{
    if list.len() > 0 {
        let front = list.drop_last();
        let all = matches_of(list, part);
        let before = matches_of(front, part);
        law_filter_keeps_matching_items(front, part);
        assert forall|k: int| 0 <= k < all.len() implies 0 <= #[trigger] all[k] < list.len() && has_sub(
            list[all[k]],
            part,
        ) by {
            if k < before.len() {
                assert(all[k] == before[k]);
                assert(front[before[k]] == list[before[k]]);
            }
        }
        assert forall|j: int, k: int| 0 <= j < k < all.len() implies #[trigger] all[j] < #[trigger] all[k] by {
            assert(all[j] == before[j]);
            if k < before.len() {
                assert(all[k] == before[k]);
            }
        }
        assert forall|i: int| 0 <= i < list.len() && has_sub(#[trigger] list[i], part) implies all.contains(i) by {
            if i < front.len() {
                assert(front[i] == list[i]);
                let k = choose|k: int| 0 <= k < before.len() && before[k] == i;
                assert(all[k] == i);
            } else {
                assert(all[all.len() - 1] == i);
            }
        }
    }
}

/// What goes on outside the UI: panels to load, and content of the main view to load.
pub struct Jobs {
    pub detail: Option<DetailJob>,
    pub load: Option<Load>,
}

/// Content of the main view to load.
pub struct Load {
    pub id: u64,
    pub key: MainKey,
    pub location: RepoLocation,
    /// The file that a diff is of, if it is still listed.
    pub file: Option<FileEntry>,
}

#[verifier::ext_equal]
pub ghost struct LoadView {
    pub id: u64,
    pub key: KeyView,
    pub location: LocationView,
    pub file: Option<FileView>,
}

impl View for Load {
    type V = LoadView;

    open spec fn view(&self) -> LoadView {
        LoadView { id: self.id, key: self.key@, location: self.location@, file: file_opt(self.file) }
    }
}

/// The view of a load that may be missing.
pub open spec fn load_opt(l: Option<Load>) -> Option<LoadView> {
    match l {
        Some(l) => Some(l@),
        None => None,
    }
}

#[verifier::ext_equal]
pub ghost struct JobsView {
    pub detail: Option<JobView>,
    pub load: Option<LoadView>,
}

impl View for Jobs {
    type V = JobsView;

    open spec fn view(&self) -> JobsView {
        JobsView { detail: job_opt(self.detail), load: load_opt(self.load) }
    }
}

impl WorkspaceView {
    /// What every operation keeps.
    pub open spec fn wf(self) -> bool {
        &&& self.lists.len() == VIEWS
        &&& self.filters.len() == VIEWS
        &&& self.staging.wf()
        &&& self.last_side.is_side()
        &&& paths_differ(self.marked)
    }

    /// What a panel shows.
    pub open spec fn view_of(self, panel: Panel) -> PaneView {
        panel.view_at(self.tabs.of(panel) as nat)
    }

    /// The view that has the focus.
    pub open spec fn current_view(self) -> PaneView {
        if self.focused == Panel::Main && self.staging.path is Some {
            PaneView::Staging
        } else {
            self.view_of(self.focused)
        }
    }

    /// The side panel whose selection drives the main view.
    pub open spec fn main_source(self) -> Panel {
        if self.focused == Panel::Main {
            self.last_side
        } else {
            self.focused
        }
    }

    /// Indices of the items shown in a view after filtering.
    pub open spec fn visible(self, view: PaneView, store: StoreView) -> Seq<int> {
        match self.filters[view.place()] {
            Some(filter) if filter.len() > 0 => matches_of(lowered(view, store), lowercase(filter)),
            _ => Seq::new(items(view, store), |i: int| i),
        }
    }

    /// Position in a visible list of that length (clamped).
    pub open spec fn cursor(self, view: PaneView, len: nat) -> int {
        if self.lists[view.place()] < len {
            self.lists[view.place()] as int
        } else if len > 0 {
            len - 1
        } else {
            0
        }
    }

    /// The item selected in a view.
    pub open spec fn selected_ix(self, view: PaneView, store: StoreView) -> Option<int> {
        let visible = self.visible(view, store);
        if visible.len() == 0 {
            None
        } else {
            Some(visible[self.cursor(view, visible.len())])
        }
    }

    /// The repo selected in the Repos panel.
    pub open spec fn selected_root(self, store: StoreView) -> Option<Seq<u8>> {
        match self.selected_ix(PaneView::Repos, store) {
            Some(ix) => Some(store.repos[ix].location.root),
            None => None,
        }
    }

    /// The cursor of a list on another item.
    pub open spec fn with_cursor(self, view: PaneView, position: usize) -> WorkspaceView {
        WorkspaceView { lists: self.lists.update(view.place(), position), ..self }
    }
}

/// The visible items are items.
pub proof fn lemma_visible(w: WorkspaceView, view: PaneView, store: StoreView)
    ensures
        forall|k: int|
            0 <= k < w.visible(view, store).len() ==> 0 <= #[trigger] w.visible(view, store)[k] < items(
                view,
                store,
            ),
        w.selected_ix(view, store) matches Some(ix) ==> 0 <= ix < items(view, store),
{
    let visible = w.visible(view, store);
    match w.filters[view.place()] {
        Some(filter) => {
            law_filter_keeps_matching_items(lowered(view, store), lowercase(filter));
        },
        None => {},
    }
    if visible.len() > 0 {
        assert(0 <= visible[w.cursor(view, visible.len())] < items(view, store));
    }
}

impl Workspace {
    /// How many items a view lists.
    pub fn item_count(view: PaneView, store: &RepoStore) -> (r: usize)
        ensures
            r == items(view, store@),
    {
        if view == PaneView::Repos {
            return store.repos.len();
        }
        match store.selected_detail() {
            None => 0,
            Some(d) => match view {
                PaneView::Files => d.files.len(),
                PaneView::Worktrees => d.worktrees.len(),
                PaneView::Submodules => d.submodules.len(),
                PaneView::Branches => d.branches.len(),
                PaneView::Remotes => d.remote_branches.len(),
                PaneView::Tags => d.tags.len(),
                PaneView::Commits => d.commits.len(),
                PaneView::Reflog => d.reflog.len(),
                PaneView::Stash => d.stashes.len(),
                _ => 0,
            },
        }
    }

    /// Text of an item matched by `/` filtering.
    pub fn item_text(view: PaneView, ix: usize, store: &RepoStore) -> (r: String)
        requires
            ix < items(view, store@),
        ensures
            r@ == text_of(view, ix as int, store@),
    {
        if view == PaneView::Repos {
            let entry = &store.repos[ix];
            let branch = match &entry.summary {
                Some(s) => match s.head.branch_name() {
                    Some(branch) => branch,
                    None => "",
                },
                None => "",
            };
            proof {
                reveal_strlit("");
                assert(""@ =~= Seq::<char>::empty());
            }
            return cat3(entry.name(), " ", branch);
        }
        match store.selected_detail() {
            None => String::new(),
            Some(d) => match view {
                PaneView::Files => d.files[ix].path.clone(),
                PaneView::Worktrees => text_lossy(d.worktrees[ix].path.bytes.as_slice()),
                PaneView::Submodules => d.submodules[ix].path.clone(),
                PaneView::Branches => d.branches[ix].name.clone(),
                PaneView::Remotes => cat3(
                    d.remote_branches[ix].remote.as_str(),
                    "/",
                    d.remote_branches[ix].name.as_str(),
                ),
                PaneView::Tags => d.tags[ix].name.clone(),
                PaneView::Commits => cat5(
                    d.commits[ix].short_oid.as_str(),
                    " ",
                    d.commits[ix].subject.as_str(),
                    " ",
                    d.commits[ix].author.as_str(),
                ),
                PaneView::Reflog => d.reflog[ix].subject.clone(),
                PaneView::Stash => d.stashes[ix].subject.clone(),
                _ => String::new(),
            },
        }
    }

    /// The items' texts in lower case.
    fn lower_texts(view: PaneView, store: &RepoStore) -> (r: Vec<String>)
        ensures
            texts(r@) == lowered(view, store@),
    {
        let count: usize = Workspace::item_count(view, store);
        let ghost all = lowered(view, store@);
        let mut out: Vec<String> = Vec::new();
        let mut i: usize = 0;
        assert(texts(out@) =~= all.take(0));
        while i < count
            invariant
                i <= count,
                count == items(view, store@),
                all == lowered(view, store@),
                texts(out@) == all.take(i as int),
            decreases count - i,
        {
            let text = Workspace::item_text(view, i, store);
            push_string(&mut out, to_lower(text.as_str()));
            assert(all.take(i + 1) =~= all.take(i as int).push(all[i as int]));
            i = i + 1;
        }
        assert(all.take(all.len() as int) =~= all);
        out
    }

    /// Indices of the items shown in `view` after filtering.
    pub fn visible(&self, view: PaneView, store: &RepoStore) -> (r: Vec<usize>)
        requires
            self@.wf(),
        ensures
            ints(r@) == self@.visible(view, store@),
    {
        let at: usize = view.index();
        assert(self@.filters[at as int] == text_opt(self.filters@[at as int]));
        if let Some(filter) = &self.filters[at] {
            if !filter.as_str().is_empty() {
                let lower = Workspace::lower_texts(view, store);
                let part = to_lower(filter.as_str());
                return matching(&lower, part.as_str());
            }
        }
        let count: usize = Workspace::item_count(view, store);
        let mut out: Vec<usize> = Vec::new();
        let mut i: usize = 0;
        while i < count
            invariant
                i <= count,
                ints(out@) == Seq::new(i as nat, |j: int| j),
            decreases count - i,
        {
            let ghost before = out@;
            out.push(i);
            assert(ints(out@) =~= ints(before).push(i as int));
            assert(ints(out@) =~= Seq::new((i + 1) as nat, |j: int| j));
            i = i + 1;
        }
        out
    }

    /// A panel's tab.
    pub fn tab(&self, panel: Panel) -> (r: usize)
        ensures
            r == self@.tabs.of(panel),
    {
        self.tabs.get(panel)
    }

    /// What a panel shows.
    pub fn view_of(&self, panel: Panel) -> (r: PaneView)
        ensures
            r == self@.view_of(panel),
    {
        panel.view_on(self.tab(panel))
    }

    /// The view that has the focus.
    pub fn current_view(&self) -> (r: PaneView)
        ensures
            r == self@.current_view(),
    {
        if self.focused == Panel::Main && self.staging.path.is_some() {
            PaneView::Staging
        } else {
            self.view_of(self.focused)
        }
    }

    /// The side panel whose selection drives the main view.
    pub fn main_source(&self) -> (r: Panel)
        ensures
            r == self@.main_source(),
    {
        if self.focused == Panel::Main {
            self.last_side
        } else {
            self.focused
        }
    }

    /// Position in the visible list (clamped).
    pub fn cursor(&self, view: PaneView, visible_len: usize) -> (r: usize)
        requires
            self@.wf(),
        ensures
            r == self@.cursor(view, visible_len as nat),
    {
        let selected: usize = self.lists[view.index()];
        if selected < visible_len {
            selected
        } else if visible_len > 0 {
            visible_len - 1
        } else {
            0
        }
    }

    /// The underlying item index selected in `view`.
    pub fn selected_ix(&self, view: PaneView, store: &RepoStore) -> (r: Option<usize>)
        requires
            self@.wf(),
        ensures
            match r {
                Some(ix) => self@.selected_ix(view, store@) == Some(ix as int) && ix < items(view, store@),
                None => self@.selected_ix(view, store@) is None,
            },
    {
        let visible = self.visible(view, store);
        if visible.len() == 0 {
            return None;
        }
        let at: usize = self.cursor(view, visible.len());
        proof {
            lemma_visible(self@, view, store@);
            assert(ints(visible@)[at as int] == visible@[at as int]);
        }
        Some(visible[at])
    }

    /// The repo selected in the Repos panel.
    pub fn selected_root(&self, store: &RepoStore) -> (r: Option<FsPath>)
        requires
            self@.wf(),
        ensures
            path_opt(r) == self@.selected_root(store@),
    {
        match self.selected_ix(PaneView::Repos, store) {
            Some(ix) => Some(store.repos[ix].location.root.clone()),
            None => None,
        }
    }
}

} // verus!
