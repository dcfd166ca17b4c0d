//! Keeps what follows from focus and selection in step: the selected repo, the main view and
//! the staging view.


use vstd::prelude::*;

use crate::detail::{file_at, find_file, DetailView, RepoDetail};
use crate::model::{FileView, WorktreeView, SubmoduleView, Worktree, Submodule};
use crate::path::{law_same_path_is_an_equivalence, path_views, paths_differ, same_path, FsPath};
use crate::patch::Patch;
use crate::store::{is_same_path, place_of, same_path_opt, RepoStore, StoreView};
use crate::text::number::{count_up, next_count};
use crate::text::outside::{lossy_text, text_lossy};
use crate::text::strings::{cat3, cat4, same_str};
use crate::ui::main_view::{
    is_same_key, plain_content, plain_text, same_key_opt, ContentView, KeyView, MainContent, MainKey,
};
use crate::ui::panel::{PaneView, Panel};
use crate::ui::staging::{not_staging, Staging, StagingView};
use crate::ui::workspace::{
    ints, items, lemma_visible, lowered, load_opt, Jobs, JobsView, Load, LoadView, MainView, Workspace, WorkspaceView, VIEWS,
};

verus! {

/// What the main view says of a worktree.
pub open spec fn worktree_text(w: WorktreeView) -> Seq<char> {
    "Worktree: "@ + lossy_text(w.path) + "\nBranch:   "@ + (match w.branch {
        Some(branch) => branch,
        None => "(detached)"@,
    }) + "\nHEAD:     "@ + (match w.head {
        Some(head) => head,
        None => "-"@,
    }) + (if w.is_current {
        "\n\n(this worktree)"@
    } else {
        Seq::empty()
    })
}

/// What the main view says of a worktree.
fn describe_worktree(w: &Worktree) -> (r: String)
    ensures
        r@ == worktree_text(w@),
{
    let path = text_lossy(w.path.bytes.as_slice());
    let branch = match &w.branch {
        Some(branch) => branch.as_str(),
        None => "(detached)",
    };
    let head = match &w.head {
        Some(head) => head.as_str(),
        None => "-",
    };
    let mut text = cat4("Worktree: ", path.as_str(), "\nBranch:   ", branch);
    text.push_str("\nHEAD:     ");
    text.push_str(head);
    if w.is_current {
        text.push_str("\n\n(this worktree)");
    }
    assert(text@ =~= worktree_text(w@));
    text
}

/// How a submodule's state is described.
pub open spec fn submodule_state(state: char) -> Seq<char> {
    if state == '+' {
        "checked out at a different commit than recorded"@
    } else if state == '-' {
        "not initialized"@
    } else if state == 'U' {
        "has merge conflicts"@
    } else {
        "in sync"@
    }
}

/// What the main view says of a submodule.
pub open spec fn submodule_text(s: SubmoduleView) -> Seq<char> {
    "Submodule: "@ + s.path + "\nCommit:    "@ + s.short_oid + "\nState:     "@ + submodule_state(s.state)
}

/// What the main view says of a submodule.
fn describe_submodule(s: &Submodule) -> (r: String)
    ensures
        r@ == submodule_text(s@),
{
    let state = if s.state == '+' {
        "checked out at a different commit than recorded"
    } else if s.state == '-' {
        "not initialized"
    } else if s.state == 'U' {
        "has merge conflicts"
    } else {
        "in sync"
    };
    let mut text = cat4("Submodule: ", s.path.as_str(), "\nCommit:    ", s.short_oid.as_str());
    text.push_str("\nState:     ");
    text.push_str(state);
    assert(text@ =~= submodule_text(s@));
    text
}

/// What the main view says if a list is empty.
pub open spec fn nothing_in(view: PaneView) -> Seq<char> {
    match view {
        PaneView::Files => "No changed files"@,
        PaneView::Stash => "No stash entries"@,
        PaneView::Worktrees => "No worktrees"@,
        PaneView::Submodules => "No submodules"@,
        _ => "Nothing here"@,
    }
}

/// What the main view shows for an item of a list, and its title.
pub open spec fn item_main(root: Seq<u8>, view: PaneView, ix: int, d: DetailView) -> (KeyView, Seq<char>) {
    match view {
        PaneView::Files => (
            KeyView::Diff { root, path: d.files[ix].path },
            if d.files[ix].staged() && d.files[ix].unstaged() {
                "Unstaged changes"@
            } else {
                "Diff"@
            },
        ),
        PaneView::Branches => (KeyView::Log { root, rev: d.branches[ix].name }, "Log"@),
        PaneView::Remotes => (
            KeyView::Log {
                root,
                rev: d.remote_branches[ix].remote + "/"@ + d.remote_branches[ix].name,
            },
            "Log"@,
        ),
        PaneView::Tags => (KeyView::Show { root, rev: d.tags[ix].name }, "Tag"@),
        PaneView::Commits => (KeyView::Show { root, rev: d.commits[ix].oid }, "Patch"@),
        PaneView::Reflog => (KeyView::Show { root, rev: d.reflog[ix].short_oid }, "Patch"@),
        PaneView::Stash => (KeyView::Stash { root, index: d.stashes[ix].index }, "Stash"@),
        PaneView::Worktrees => (KeyView::Message(worktree_text(d.worktrees[ix])), "Worktree"@),
        PaneView::Submodules => (KeyView::Message(submodule_text(d.submodules[ix])), "Submodule"@),
        _ => (KeyView::Overview, Seq::empty()),
    }
}

impl WorkspaceView {
    /// What the main view should show, and its title: what the selection of the side panel
    /// that has or had the focus is about.
    pub open spec fn desired_main(self, store: StoreView) -> (KeyView, Seq<char>) {
        let source = self.main_source();
        if source == Panel::Repos {
            (KeyView::Overview, "Overview"@)
        } else {
            match store.selected {
                None => (KeyView::Message("No repository selected"@), Seq::empty()),
                Some(root) => if source == Panel::Status {
                    (KeyView::Status, "Status"@)
                } else {
                    match store.selected_detail() {
                        None => (
                            KeyView::Message(
                                match store.detail {
                                    Some(d) => if same_path(d.root, root) && d.error is Some {
                                        d.error->0
                                    } else {
                                        "Loading…"@
                                    },
                                    None => "Loading…"@,
                                },
                            ),
                            Seq::empty(),
                        ),
                        Some(d) => match self.selected_ix(self.view_of(source), store) {
                            None => (KeyView::Message(nothing_in(self.view_of(source))), Seq::empty()),
                            Some(ix) => item_main(root, self.view_of(source), ix, d),
                        },
                    }
                },
            }
        }
    }

    /// The file that a key is about, if it is still listed.
    pub open spec fn key_file(key: KeyView, store: StoreView) -> Option<FileView> {
        match (key, store.selected_detail()) {
            (KeyView::Diff { root, path }, Some(d)) => file_at(d.files, path),
            _ => None,
        }
    }

    /// The state after a load of the main view's content was started.
    pub open spec fn load_started(self, store: StoreView) -> WorkspaceView {
        match store.selected_entry() {
            Some(_) => WorkspaceView {
                main: MainView { loads: next_count(self.main.loads), ..self.main },
                ..self
            },
            None => self,
        }
    }

    /// The load of the main view's content that is started.
    pub open spec fn started_load(self, key: KeyView, store: StoreView) -> Option<LoadView> {
        match store.selected_entry() {
            Some(entry) => Some(
                LoadView {
                    id: next_count(self.main.loads),
                    key,
                    location: entry.location,
                    file: WorkspaceView::key_file(key, store),
                },
            ),
            None => None,
        }
    }
}

impl WorkspaceView {
    /// The staging view after the diff was loaded, or the focus moved to it. Like lazygit,
    /// the cursor keeps its line if that's still a change, else it moves to the next one;
    /// when one half has nothing left, it moves to the other. The view closes when neither
    /// has anything to stage (a binary file just scrolls), back to Files if staging emptied
    /// it.
    pub open spec fn staging_fixed(self, applied: bool, store: StoreView) -> WorkspaceView {
        if self.focused != Panel::Main {
            self
        } else {
            match self.main.key {
                Some(KeyView::Diff { root, path }) => if !same_key_opt(self.main.loaded, self.main.key) {
                    self
                } else {
                    let content = self.main.content;
                    let unstaged = content.has_changes(false);
                    let staged = content.has_changes(true);
                    if !unstaged && !staged {
                        WorkspaceView {
                            staging: not_staging(),
                            focused: if applied && self.staging.path is Some {
                                self.last_side
                            } else {
                                self.focused
                            },
                            ..self
                        }
                    } else {
                        let opened = if self.staging.path != Some(path) {
                            StagingView {
                                path: Some(path),
                                staged: !unstaged,
                                hunk: store.config.staging_hunk_mode,
                                ..not_staging()
                            }
                        } else if !content.has_changes(self.staging.staged) {
                            StagingView {
                                staged: !self.staging.staged,
                                cursor: 0,
                                anchor: None,
                                ..self.staging
                            }
                        } else {
                            self.staging
                        };
                        WorkspaceView {
                            staging: match content.half(opened.staged) {
                                Some(half) => opened.settled(half.patch),
                                None => opened,
                            },
                            ..self
                        }
                    }
                },
                _ => WorkspaceView { staging: not_staging(), ..self },
            }
        }
    }

    /// The state with the main view on what it should show, and the load that is started.
    pub open spec fn main_synced(self, store: StoreView) -> (WorkspaceView, Option<LoadView>) {
        let (key, title) = self.desired_main(store);
        let same_item = same_key_opt(self.main.key, Some(key));
        if same_item && (!key.repo_state() || self.main.generation == store.detail_generation) {
            (self, None)
        } else {
            let main = MainView {
                key: Some(key),
                generation: store.detail_generation,
                title,
                ..self.main
            };
            let next = WorkspaceView { main, ..self };
            if key.loads() {
                (next.load_started(store), next.started_load(key, store))
            } else {
                let content = match key {
                    KeyView::Status => ContentView::Status,
                    KeyView::Message(text) => plain_content(text),
                    _ => ContentView::Overview,
                };
                let shown = WorkspaceView {
                    main: MainView { content, loaded: Some(key), ..main },
                    ..self
                };
                (shown.staging_fixed(false, store), None)
            }
        }
    }

    /// The state of another repo's lists: on their first item and not filtered. A staging
    /// view closes.
    pub open spec fn repo_left(self) -> WorkspaceView {
        WorkspaceView {
            focused: if self.staging.path is Some {
                self.last_side
            } else {
                self.focused
            },
            staging: StagingView { path: None, ..self.staging },
            lists: Seq::new(
                VIEWS as nat,
                |i: int|
                    if detail_place(i) {
                        0
                    } else {
                        self.lists[i]
                    },
            ),
            filters: Seq::new(
                VIEWS as nat,
                |i: int|
                    if detail_place(i) {
                        None
                    } else {
                        self.filters[i]
                    },
            ),
            ..self
        }
    }

    /// Everything derived from focus and selection, brought in step.
    pub open spec fn synced(self, store: StoreView) -> (WorkspaceView, StoreView, JobsView) {
        let root = self.selected_root(store);
        if same_path_opt(store.selected, root) {
            let (next, load) = self.main_synced(store);
            (next, store, JobsView { detail: None, load })
        } else {
            let moved = StoreView { selected: root, ..store };
            let asked = moved.detail_asked();
            let (next, load) = self.repo_left().main_synced(asked);
            (next, asked, JobsView { detail: moved.detail_started(), load })
        }
    }

    /// The focus on a panel.
    pub open spec fn on_panel(self, panel: Panel) -> WorkspaceView {
        if panel != Panel::Main {
            WorkspaceView { last_side: panel, staging: not_staging(), focused: panel, ..self }
        } else {
            WorkspaceView { focused: panel, ..self }
        }
    }

    /// The focus moved to a panel, and everything brought in step.
    pub open spec fn panel_focused(self, panel: Panel, store: StoreView) -> (WorkspaceView, StoreView, JobsView) {
        let (next, store, jobs) = self.on_panel(panel).synced(store);
        (next.staging_fixed(false, store), store, jobs)
    }

    /// Files on the file being staged, wherever it is in the list now; the staging view
    /// closes when it isn't there.
    pub open spec fn staged_file_followed(self, store: StoreView) -> WorkspaceView {
        match (self.staging.path, store.selected_detail()) {
            (Some(path), Some(d)) => {
                match file_position(self.visible(PaneView::Files, store), d.files, path) {
                    Some(position) => self.with_cursor(PaneView::Files, position as usize),
                    None => WorkspaceView { staging: not_staging(), focused: self.last_side, ..self },
                }
            },
            _ => self,
        }
    }

    /// The marks that are on repos; while repos are looked for, all of them.
    pub open spec fn marks_kept(self, store: StoreView) -> WorkspaceView {
        if store.scanning {
            self
        } else {
            WorkspaceView { marked: known_roots(self.marked, store), ..self }
        }
    }

    /// Everything brought in step after the store changed.
    pub open spec fn store_changed(self, store: StoreView) -> (WorkspaceView, StoreView, JobsView) {
        self.marks_kept(store).staged_file_followed(store).synced(store)
    }

    /// The state once content of the main view was loaded.
    pub open spec fn load_finished(
        self,
        id: u64,
        key: KeyView,
        content: ContentView,
        store: StoreView,
    ) -> WorkspaceView {
        if same_key_opt(self.main.key, Some(key)) {
            let applied = self.staging.pending matches Some(first) && id >= first;
            let next = WorkspaceView {
                main: MainView { content, loaded: Some(key), ..self.main },
                staging: StagingView {
                    pending: if applied {
                        None
                    } else {
                        self.staging.pending
                    },
                    ..self.staging
                },
                ..self
            };
            next.staging_fixed(applied, store)
        } else {
            self
        }
    }
}

/// Whether a place is that of a list that belongs to the selected repo.
pub open spec fn detail_place(i: int) -> bool {
    2 <= i <= 10
}

/// The first position at which a list of files has a path.
pub open spec fn file_position(visible: Seq<int>, files: Seq<FileView>, path: Seq<char>) -> Option<int>
    decreases visible.len(),
{
    if visible.len() == 0 {
        None
    } else {
        match file_position(visible.drop_last(), files, path) {
            Some(i) => Some(i),
            None => if files[visible.last()].path == path {
                Some(visible.len() - 1)
            } else {
                None
            },
        }
    }
}

/// Those of some paths at which there is a repo.
pub open spec fn known_roots(roots: Seq<Seq<u8>>, store: StoreView) -> Seq<Seq<u8>>
    decreases roots.len(),
{
    if roots.len() == 0 {
        Seq::empty()
    } else if place_of(store.repos, roots.last()) is Some {
        known_roots(roots.drop_last(), store).push(roots.last())
    } else {
        known_roots(roots.drop_last(), store)
    }
}

proof fn lemma_known_roots_differ(roots: Seq<Seq<u8>>, store: StoreView)
    requires
        paths_differ(roots),
    ensures
        paths_differ(known_roots(roots, store)),
        forall|i: int|
            0 <= i < known_roots(roots, store).len() ==> roots.contains(#[trigger] known_roots(roots, store)[i]),
    decreases roots.len(),
{
    if roots.len() > 0 {
        let front = roots.drop_last();
        let kept = known_roots(front, store);
        lemma_known_roots_differ(front, store);
        assert forall|i: int| 0 <= i < kept.len() implies roots.contains(#[trigger] kept[i]) && !same_path(
            kept[i],
            roots.last(),
        ) by {
            let k = choose|k: int| 0 <= k < front.len() && front[k] == kept[i];
            assert(roots[k] == kept[i]);
            assert(!same_path(roots[k], roots[roots.len() - 1]));
        }
        assert(roots.contains(roots[roots.len() - 1]));
    }
}

/// The place of a view says whether its list belongs to the selected repo.
pub proof fn law_detail_lists(view: PaneView)
    ensures
        view.lists_detail() == detail_place(view.place()),
{
}

impl Workspace {
    /// What the main view shows for an item of a list, and its title.
    fn item_main(root: FsPath, view: PaneView, ix: usize, d: &RepoDetail, store: &RepoStore) -> (r: (
        MainKey,
        &'static str,
    ))
        requires
            store@.selected_detail() == Some(d@),
            view != PaneView::Repos,
            ix < items(view, store@),
        ensures
            (r.0@, r.1@) == item_main(root@, view, ix as int, d@),
    {
        match view {
            PaneView::Files => {
                let file = &d.files[ix];
                let title = if file.has_staged() && file.has_unstaged() {
                    "Unstaged changes"
                } else {
                    "Diff"
                };
                (MainKey::Diff { root, path: file.path.clone() }, title)
            },
            PaneView::Branches => (MainKey::Log { root, rev: d.branches[ix].name.clone() }, "Log"),
            PaneView::Remotes => {
                let branch = &d.remote_branches[ix];
                (
                    MainKey::Log { root, rev: cat3(branch.remote.as_str(), "/", branch.name.as_str()) },
                    "Log",
                )
            },
            PaneView::Tags => (MainKey::Show { root, rev: d.tags[ix].name.clone() }, "Tag"),
            PaneView::Commits => (MainKey::Show { root, rev: d.commits[ix].oid.clone() }, "Patch"),
            PaneView::Reflog => (MainKey::Show { root, rev: d.reflog[ix].short_oid.clone() }, "Patch"),
            PaneView::Stash => (MainKey::Stash { root, index: d.stashes[ix].index }, "Stash"),
            PaneView::Worktrees => (MainKey::Message(describe_worktree(&d.worktrees[ix])), "Worktree"),
            PaneView::Submodules => (MainKey::Message(describe_submodule(&d.submodules[ix])), "Submodule"),
            _ => {
                proof {
                    reveal_strlit("");
                    assert(""@ =~= Seq::<char>::empty());
                }
                (MainKey::Overview, "")
            },
        }
    }

    /// What the main view should show, and its title.
    pub fn desired_main(&self, store: &RepoStore) -> (r: (MainKey, &'static str))
        requires
            self@.wf(),
        ensures
            (r.0@, r.1@) == self@.desired_main(store@),
    {
        proof {
            reveal_strlit("");
            assert(""@ =~= Seq::<char>::empty());
        }
        let source = self.main_source();
        if source == Panel::Repos {
            return (MainKey::Overview, "Overview");
        }
        let root = match &store.selected {
            None => {
                return (MainKey::Message("No repository selected".to_owned()), "");
            },
            Some(root) => root.clone(),
        };
        if source == Panel::Status {
            return (MainKey::Status, "Status");
        }
        let d = match store.selected_detail() {
            Some(d) => d,
            None => {
                let message = match &store.detail {
                    Some(d) => match &d.error {
                        Some(error) => if d.root.same(&root) {
                            error.clone()
                        } else {
                            "Loading…".to_owned()
                        },
                        None => "Loading…".to_owned(),
                    },
                    None => "Loading…".to_owned(),
                };
                return (MainKey::Message(message), "");
            },
        };
        let view = self.view_of(source);
        match self.selected_ix(view, store) {
            None => {
                let empty = match view {
                    PaneView::Files => "No changed files",
                    PaneView::Stash => "No stash entries",
                    PaneView::Worktrees => "No worktrees",
                    PaneView::Submodules => "No submodules",
                    _ => "Nothing here",
                };
                (MainKey::Message(empty.to_owned()), "")
            },
            Some(ix) => Workspace::item_main(root, view, ix, d, store),
        }
    }

    /// Loads the main view's content for `key`, replacing any load still running.
    pub fn start_load(&mut self, key: &MainKey, store: &RepoStore) -> (r: Option<Load>)
        ensures
            final(self)@ == old(self)@.load_started(store@),
            load_opt(r) == old(self)@.started_load(key@, store@),
    {
        let location = match store.selected_entry() {
            Some(entry) => entry.location.clone(),
            None => {
                return None;
            },
        };
        let file = match (key, store.selected_detail()) {
            (MainKey::Diff { root: _, path }, Some(d)) => find_file(&d.files, path.as_str()),
            _ => None,
        };
        self.main.loads = count_up(self.main.loads);
        Some(Load { id: self.main.loads, key: key.clone(), location, file })
    }

    /// Opens the staging view, or keeps it right after the diff reloads.
    pub fn fix_staging(&mut self, applied: bool, store: &RepoStore)
        requires
            old(self)@.wf(),
        ensures
            final(self)@ == old(self)@.staging_fixed(applied, store@),
            final(self)@.wf(),
    {
        if self.focused != Panel::Main {
            return;
        }
        let path = match &self.main.key {
            Some(MainKey::Diff { root: _, path }) => path.clone(),
            _ => {
                self.staging = Staging::default();
                return;
            },
        };
        if !is_same_key(&self.main.loaded, &self.main.key) {
            return;
        }
        let unstaged = self.main.content.has_changes(false);
        let staged = self.main.content.has_changes(true);
        if !unstaged && !staged {
            let was_open = self.staging.path.is_some();
            self.staging = Staging::default();
            if applied && was_open {
                self.focused = self.last_side;
            }
            return;
        }
        let same = match &self.staging.path {
            Some(open) => same_str(open.as_str(), path.as_str()),
            None => false,
        };
        if !same {
            self.staging = Staging {
                path: Some(path),
                staged: !unstaged,
                cursor: 0,
                anchor: None,
                hunk: store.config.staging_hunk_mode,
                pending: None,
            };
        } else if !self.main.content.has_changes(self.staging.staged) {
            self.staging.staged = !self.staging.staged;
            self.staging.cursor = 0;
            self.staging.anchor = None;
        }
        if let Some(half) = self.main.content.half(self.staging.staged) {
            self.staging.settle(&half.patch);
        }
    }

    /// Brings the main view in step with the selection.
    pub fn sync_main(&mut self, store: &RepoStore) -> (r: Option<Load>)
        requires
            old(self)@.wf(),
        ensures
            (final(self)@, load_opt(r)) == old(self)@.main_synced(store@),
            final(self)@.wf(),
    {
        let (key, title) = self.desired_main(store);
        let same_item = match &self.main.key {
            Some(shown) => shown.same(&key),
            None => false,
        };
        if same_item && (!key.is_repo_state() || self.main.generation == store.detail_generation) {
            return None;
        }
        self.main.key = Some(key.clone());
        self.main.generation = store.detail_generation;
        self.main.title = title;
        if key.is_loaded() {
            return self.start_load(&key, store);
        }
        self.main.content = match &key {
            MainKey::Status => MainContent::Status,
            MainKey::Message(text) => plain_text(text.as_str()),
            _ => MainContent::Overview,
        };
        self.main.loaded = Some(key);
        self.fix_staging(false, store);
        None
    }

    /// Leaves the lists of a repo for those of another one.
    fn leave_repo(&mut self)
        requires
            old(self)@.wf(),
        ensures
            final(self)@ == old(self)@.repo_left(),
            final(self)@.wf(),
    {
        if self.staging.path.is_some() {
            self.focused = self.last_side;
        }
        self.staging.path = None;
        let ghost lists = self.lists@;
        let ghost filters = self.filters@;
        let mut i: usize = 2;
        while i <= 10
            invariant
                2 <= i <= 11,
                lists == old(self).lists@,
                filters == old(self).filters@,
                lists.len() == VIEWS,
                filters.len() == VIEWS,
                self.lists@.len() == VIEWS,
                self.filters@.len() == VIEWS,
                forall|j: int|
                    0 <= j < VIEWS ==> #[trigger] self.lists@[j] == (if 2 <= j < i {
                        0
                    } else {
                        lists[j]
                    }),
                forall|j: int|
                    0 <= j < VIEWS ==> #[trigger] self.filters@[j] == (if 2 <= j < i {
                        None
                    } else {
                        filters[j]
                    }),
                self@ == (WorkspaceView {
                    focused: self@.focused,
                    staging: self@.staging,
                    lists: self@.lists,
                    filters: self@.filters,
                    ..old(self)@
                }),
                self@.focused == (if old(self)@.staging.path is Some {
                    old(self)@.last_side
                } else {
                    old(self)@.focused
                }),
                self@.staging == (StagingView { path: None, ..old(self)@.staging }),
            decreases 11 - i,
        {
            self.lists[i] = 0;
            self.filters[i] = None;
            i = i + 1;
        }
        assert(self@.lists =~= old(self)@.repo_left().lists);
        assert(self@.filters =~= old(self)@.repo_left().filters);
    }

    /// Re-syncs everything derived from focus/selection after any change.
    pub fn after_change(&mut self, store: &mut RepoStore) -> (r: Jobs)
        requires
            old(self)@.wf(),
        ensures
            (final(self)@, final(store)@, r@) == old(self)@.synced(old(store)@),
            final(self)@.wf(),
    {
        let root = self.selected_root(store);
        if is_same_path(&store.selected, &root) {
            let load = self.sync_main(store);
            Jobs { detail: None, load }
        } else {
            self.leave_repo();
            let detail = store.select(root);
            let load = self.sync_main(store);
            Jobs { detail, load }
        }
    }

    /// Focuses a panel.
    pub fn focus_panel(&mut self, panel: Panel, store: &mut RepoStore) -> (r: Jobs)
        requires
            old(self)@.wf(),
        ensures
            (final(self)@, final(store)@, r@) == old(self)@.panel_focused(panel, old(store)@),
            final(self)@.wf(),
    {
        if panel != Panel::Main {
            self.last_side = panel;
            self.staging = Staging::default();
        }
        self.focused = panel;
        assert(self@ =~= old(self)@.on_panel(panel));
        let jobs = self.after_change(store);
        self.fix_staging(false, store);
        jobs
    }

    /// The first visible position of a file.
    fn position_of_file(visible: &Vec<usize>, d: &RepoDetail, path: &str) -> (r: Option<usize>)
        requires
            forall|k: int| 0 <= k < visible@.len() ==> #[trigger] visible@[k] < d@.files.len(),
        ensures
            match r {
                Some(i) => file_position(ints(visible@), d@.files, path@) == Some(i as int) && i < visible@.len(),
                None => file_position(ints(visible@), d@.files, path@) is None,
            },
    {
        let ghost all = ints(visible@);
        let mut i: usize = 0;
        assert(all.take(0) =~= Seq::<int>::empty());
        while i < visible.len()
            invariant
                i <= visible@.len(),
                all == ints(visible@),
                forall|k: int| 0 <= k < visible@.len() ==> #[trigger] visible@[k] < d@.files.len(),
                file_position(all.take(i as int), d@.files, path@) is None,
            decreases visible@.len() - i,
        {
            let ghost next = all.take(i + 1);
            assert(next.drop_last() =~= all.take(i as int));
            assert(next.last() == visible@[i as int]);
            let ix: usize = visible[i];
            assert(d@.files[ix as int] == d.files@[ix as int]@);
            if same_str(d.files[ix].path.as_str(), path) {
                proof {
                    lemma_file_position_prefix(all, i + 1, d@.files, path@);
                }
                return Some(i);
            }
            i = i + 1;
        }
        assert(all.take(all.len() as int) =~= all);
        None
    }

    /// Keeps Files on the file being staged when its place in the list changes (a partly
    /// staged untracked file moves up to the tracked ones), and closes the staging view when
    /// the file has no changes left.
    pub fn follow_staged_file(&mut self, store: &RepoStore)
        requires
            old(self)@.wf(),
        ensures
            final(self)@ == old(self)@.staged_file_followed(store@),
            final(self)@.wf(),
    {
        let path = match &self.staging.path {
            Some(path) => path.clone(),
            None => {
                return;
            },
        };
        let d = match store.selected_detail() {
            Some(d) => d,
            None => {
                return;
            },
        };
        let visible = self.visible(PaneView::Files, store);
        proof {
            lemma_visible(self@, PaneView::Files, store@);
            assert forall|k: int| 0 <= k < visible@.len() implies #[trigger] visible@[k] < d@.files.len() by {
                assert(ints(visible@)[k] == visible@[k]);
            }
        }
        match Workspace::position_of_file(&visible, d, path.as_str()) {
            Some(position) => {
                self.lists[PaneView::Files.index()] = position;
            },
            None => {
                self.staging = Staging::default();
                self.focused = self.last_side;
            },
        }
    }

    /// Forgets marks on repos that are gone.
    fn keep_marks(&mut self, store: &RepoStore)
        requires
            old(self)@.wf(),
        ensures
            final(self)@ == old(self)@.marks_kept(store@),
            final(self)@.wf(),
    {
        if store.scanning {
            return;
        }
        let ghost all = path_views(self.marked@);
        let mut kept: Vec<FsPath> = Vec::new();
        let mut i: usize = 0;
        assert(all.take(0) =~= Seq::<Seq<u8>>::empty());
        assert(path_views(kept@) =~= Seq::<Seq<u8>>::empty());
        while i < self.marked.len()
            invariant
                i <= self.marked@.len(),
                *self == *old(self),
                all == path_views(self.marked@),
                path_views(kept@) == known_roots(all.take(i as int), store@),
            decreases self.marked@.len() - i,
        {
            let ghost next = all.take(i + 1);
            let ghost before = kept@;
            assert(next.drop_last() =~= all.take(i as int));
            assert(next.last() == self.marked@[i as int]@);
            if store.index_of(&self.marked[i]).is_some() {
                let root = self.marked[i].clone();
                kept.push(root);
                assert(path_views(kept@) =~= path_views(before).push(root@));
            }
            i = i + 1;
        }
        assert(all.take(all.len() as int) =~= all);
        proof {
            lemma_known_roots_differ(all, store@);
        }
        self.marked = kept;
    }

    /// Re-syncs everything after the store changed.
    pub fn on_store_changed(&mut self, store: &mut RepoStore) -> (r: Jobs)
        requires
            old(self)@.wf(),
        ensures
            (final(self)@, final(store)@, r@) == old(self)@.store_changed(old(store)@),
            final(self)@.wf(),
    {
        self.keep_marks(store);
        self.follow_staged_file(store);
        self.after_change(store)
    }

    /// Takes content of the main view that was loaded.
    pub fn finish_load(&mut self, id: u64, key: MainKey, content: MainContent, store: &RepoStore)
        requires
            old(self)@.wf(),
        ensures
            final(self)@ == old(self)@.load_finished(id, key@, content@, store@),
            final(self)@.wf(),
    {
        let current = match &self.main.key {
            Some(shown) => shown.same(&key),
            None => false,
        };
        if !current {
            return;
        }
        self.main.content = content;
        self.main.loaded = Some(key);
        let applied = match self.staging.pending {
            Some(first) => id >= first,
            None => false,
        };
        if applied {
            self.staging.pending = None;
        }
        self.fix_staging(applied, store);
    }
}

proof fn lemma_file_position_prefix(visible: Seq<int>, n: int, files: Seq<FileView>, path: Seq<char>)
    requires
        0 <= n <= visible.len(),
        file_position(visible.take(n), files, path) is Some,
    ensures
        file_position(visible, files, path) == file_position(visible.take(n), files, path),
    decreases visible.len() - n,
{
    if n < visible.len() {
        assert(visible.take(n + 1).drop_last() =~= visible.take(n));
        lemma_file_position_prefix(visible, n + 1, files, path);
    } else {
        assert(visible.take(n) =~= visible);
    }
}

/// Whatever changed, once everything is in step the store's selected repo is the one
/// selected in the Repos panel, and the main view is on what the focus and the selection
/// call for.
pub proof fn law_main_view_follows_the_selection(w: WorkspaceView, store: StoreView)
    requires
        w.wf(),
    ensures
        ({
            let (next, after, jobs) = w.synced(store);
            &&& same_path_opt(after.selected, next.selected_root(after))
            &&& same_key_opt(next.main.key, Some(next.desired_main(after).0))
        }),
{
    let root = w.selected_root(store);
    let (next, after, jobs) = w.synced(store);
    let left = if same_path_opt(store.selected, root) {
        w
    } else {
        w.repo_left()
    };
    assert(after.repos == store.repos);
    assert(lowered(PaneView::Repos, store) =~= lowered(PaneView::Repos, after));
    assert(left.lists[0] == w.lists[0] && left.filters[0] == w.filters[0]);
    assert(left.selected_root(after) == root);
    assert(next == left.main_synced(after).0);
    assert(next.lists == left.lists && next.filters == left.filters && next.tabs == left.tabs);
    assert(next.main_source() == left.main_source());
    assert(next.desired_main(after) == left.desired_main(after));
    if let Some(r) = root {
        law_same_path_is_an_equivalence(r, r, r);
    }
    lemma_same_key(left.desired_main(after).0);
}

proof fn lemma_same_key(key: KeyView)
    ensures
        key.same(key),
{
}

} // verus!
