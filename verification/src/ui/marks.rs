//! Marking repos in the Repos panel, and the actions that run on every marked repo, or on
//! the selected one when nothing is marked.

use vstd::prelude::*;

use crate::batch::{fast_forward_settled, plan, planned, prechecked, row_views};
use crate::batch::{Batch, BatchView, Outcome, OutcomeView, RowView};
use crate::path::{law_same_path_is_an_equivalence, path_views, paths_differ, same_path, FsPath};
use crate::store::{among_paths, has_path, EntryView, RepoStore, StoreView};
use crate::text::number::{count_up, decimal, decimal_string, next_count};
use crate::text::strings::{cat2, cat3};
use crate::ui::dialog::{Asked, AskedView, Dialog, DialogView, Effect, EffectView, MenuItem, Then, ThenView};
use crate::ui::panel::{PaneView, Panel};
use crate::ui::workspace::{ints, lemma_visible, Jobs, JobsView, Workspace, WorkspaceView};

verus! {

/// Some paths without one.
pub open spec fn without_path(paths: Seq<Seq<u8>>, path: Seq<u8>) -> Seq<Seq<u8>>
    decreases paths.len(),
{
    if paths.len() == 0 {
        Seq::empty()
    } else if same_path(paths.last(), path) {
        without_path(paths.drop_last(), path)
    } else {
        without_path(paths.drop_last(), path).push(paths.last())
    }
}

/// The first place of a path among some.
pub open spec fn place_among(paths: Seq<Seq<u8>>, path: Seq<u8>) -> Option<int>
    decreases paths.len(),
{
    if paths.len() == 0 {
        None
    } else {
        match place_among(paths.drop_last(), path) {
            Some(i) => Some(i),
            None => if same_path(paths.last(), path) {
                Some(paths.len() - 1)
            } else {
                None
            },
        }
    }
}

/// Some marks with one more, unless it is there.
pub open spec fn marked_too(marked: Seq<Seq<u8>>, root: Seq<u8>) -> Seq<Seq<u8>> {
    if among_paths(marked, root) {
        marked
    } else {
        marked.push(root)
    }
}

/// Some marks with one set, or taken away.
pub open spec fn mark_toggled(marked: Seq<Seq<u8>>, root: Seq<u8>) -> Seq<Seq<u8>> {
    if among_paths(marked, root) {
        without_path(marked, root)
    } else {
        marked.push(root)
    }
}

/// Some marks with others set too.
pub open spec fn all_marked(marked: Seq<Seq<u8>>, roots: Seq<Seq<u8>>) -> Seq<Seq<u8>>
    decreases roots.len(),
{
    if roots.len() == 0 {
        marked
    } else {
        marked_too(all_marked(marked, roots.drop_last()), roots.last())
    }
}

/// Some marks with others taken away.
pub open spec fn all_unmarked(marked: Seq<Seq<u8>>, roots: Seq<Seq<u8>>) -> Seq<Seq<u8>>
    decreases roots.len(),
{
    if roots.len() == 0 {
        marked
    } else {
        without_path(all_unmarked(marked, roots.drop_last()), roots.last())
    }
}

/// Whether every one of some paths is marked.
pub open spec fn every_marked(marked: Seq<Seq<u8>>, roots: Seq<Seq<u8>>) -> bool {
    forall|i: int| 0 <= i < roots.len() ==> among_paths(marked, #[trigger] roots[i])
}

/// More paths behind a place leave it the first.
proof fn lemma_place_stays(paths: Seq<Seq<u8>>, path: Seq<u8>, n: int)
    requires
        0 <= n <= paths.len(),
        place_among(paths.take(n), path) is Some,
    ensures
        place_among(paths, path) == place_among(paths.take(n), path),
    decreases paths.len() - n,
{
    if n < paths.len() {
        assert(paths.take(n + 1).drop_last() =~= paths.take(n));
        lemma_place_stays(paths, path, n + 1);
    } else {
        assert(paths.take(n) =~= paths);
    }
}

proof fn lemma_without(paths: Seq<Seq<u8>>, path: Seq<u8>, other: Seq<u8>)
    ensures
        among_paths(without_path(paths, path), other) == (among_paths(paths, other) && !same_path(path, other)),
    decreases paths.len(),
{
    let rest = without_path(paths, path);
    if paths.len() > 0 {
        let front = paths.drop_last();
        lemma_without(front, path, other);
        law_same_path_is_an_equivalence(paths.last(), path, other);
        law_same_path_is_an_equivalence(path, paths.last(), other);
        lemma_among_push(front, paths.last(), other);
        assert(front.push(paths.last()) =~= paths);
        lemma_among_push(without_path(front, path), paths.last(), other);
    }
}

proof fn lemma_among_push(paths: Seq<Seq<u8>>, path: Seq<u8>, other: Seq<u8>)
    ensures
        among_paths(paths.push(path), other) == (among_paths(paths, other) || same_path(path, other)),
{
    let all = paths.push(path);
    if among_paths(paths, other) {
        let i = choose|i: int| 0 <= i < paths.len() && same_path(#[trigger] paths[i], other);
        assert(all[i] == paths[i]);
    }
    if same_path(path, other) {
        assert(all[paths.len() as int] == path);
    }
    if among_paths(all, other) {
        let i = choose|i: int| 0 <= i < all.len() && same_path(#[trigger] all[i], other);
        if i < paths.len() {
            assert(all[i] == paths[i]);
        }
    }
}

/// Toggling a mark changes whether that repo is marked and nothing else, and doing it twice
/// changes nothing.
pub proof fn law_toggling_a_mark(marked: Seq<Seq<u8>>, root: Seq<u8>, other: Seq<u8>)
    ensures
        same_path(root, other) ==> among_paths(mark_toggled(marked, root), other) == !among_paths(marked, other),
        !same_path(root, other) ==> among_paths(mark_toggled(marked, root), other) == among_paths(marked, other),
        among_paths(mark_toggled(mark_toggled(marked, root), root), other) == among_paths(marked, other),
{
    let once = mark_toggled(marked, root);
    law_same_path_is_an_equivalence(root, root, root);
    lemma_without(marked, root, other);
    lemma_without(marked, root, root);
    lemma_among_push(marked, root, other);
    lemma_among_push(marked, root, root);
    lemma_without(once, root, other);
    lemma_among_push(once, root, other);
    if same_path(root, other) {
        lemma_among_respects(marked, root, other);
    }
}

proof fn lemma_among_respects(paths: Seq<Seq<u8>>, a: Seq<u8>, b: Seq<u8>)
    requires
        same_path(a, b),
    ensures
        among_paths(paths, a) == among_paths(paths, b),
{
    if among_paths(paths, a) {
        let i = choose|i: int| 0 <= i < paths.len() && same_path(#[trigger] paths[i], a);
        law_same_path_is_an_equivalence(paths[i], a, b);
    }
    if among_paths(paths, b) {
        let i = choose|i: int| 0 <= i < paths.len() && same_path(#[trigger] paths[i], b);
        law_same_path_is_an_equivalence(paths[i], b, a);
        law_same_path_is_an_equivalence(a, b, a);
    }
}

/// Marking all marks every listed repo, and unmarking all leaves none of them marked.
pub proof fn law_marking_all(marked: Seq<Seq<u8>>, roots: Seq<Seq<u8>>, i: int)
    requires
        0 <= i < roots.len(),
    ensures
        among_paths(all_marked(marked, roots), roots[i]),
        !among_paths(all_unmarked(marked, roots), roots[i]),
    decreases roots.len(),
{
    let front = roots.drop_last();
    let before = all_marked(marked, front);
    let left = all_unmarked(marked, front);
    lemma_among_push(before, roots.last(), roots[i]);
    lemma_without(left, roots.last(), roots[i]);
    if i < front.len() {
        assert(front[i] == roots[i]);
        law_marking_all(marked, front, i);
    } else {
        law_same_path_is_an_equivalence(roots[i], roots[i], roots[i]);
    }
}

proof fn lemma_without_differ(paths: Seq<Seq<u8>>, path: Seq<u8>)
    requires
        paths_differ(paths),
    ensures
        paths_differ(without_path(paths, path)),
    decreases paths.len(),
{
    if paths.len() > 0 {
        let front = paths.drop_last();
        let rest = without_path(front, path);
        lemma_without_differ(front, path);
        assert forall|i: int| 0 <= i < rest.len() implies !same_path(#[trigger] rest[i], paths.last()) by {
            if same_path(rest[i], paths.last()) {
                lemma_without(front, path, paths.last());
                assert(among_paths(rest, paths.last()));
                let k = choose|k: int| 0 <= k < front.len() && same_path(#[trigger] front[k], paths.last());
                assert(paths[k] == front[k]);
                assert(!same_path(paths[k], paths[paths.len() - 1]));
            }
        }
    }
}

/// No repo is marked twice: toggling a mark, marking all and unmarking all keep the marks
/// pairwise different.
pub proof fn law_marks_are_distinct(marked: Seq<Seq<u8>>, root: Seq<u8>, roots: Seq<Seq<u8>>)
    requires
        paths_differ(marked),
    ensures
        paths_differ(mark_toggled(marked, root)),
        paths_differ(all_marked(marked, roots)),
        paths_differ(all_unmarked(marked, roots)),
    decreases roots.len(),
{
    lemma_without_differ(marked, root);
    if roots.len() > 0 {
        law_marks_are_distinct(marked, root, roots.drop_last());
        lemma_without_differ(all_unmarked(marked, roots.drop_last()), roots.last());
    }
}

/// The marked ones of some repos' roots, in the repos' order.
pub open spec fn marked_of(repos: Seq<EntryView>, marked: Seq<Seq<u8>>) -> Seq<Seq<u8>>
    decreases repos.len(),
{
    if repos.len() == 0 {
        Seq::empty()
    } else if among_paths(marked, repos.last().location.root) {
        marked_of(repos.drop_last(), marked).push(repos.last().location.root)
    } else {
        marked_of(repos.drop_last(), marked)
    }
}

/// The view of a list of paths that may be missing.
pub open spec fn paths_opt(paths: Option<Vec<FsPath>>) -> Option<Seq<Seq<u8>>> {
    match paths {
        Some(paths) => Some(path_views(paths@)),
        None => None,
    }
}

/// The names of the repos at some paths.
pub open spec fn names_at(store: StoreView, roots: Seq<Seq<u8>>) -> Seq<Seq<char>>
    decreases roots.len(),
{
    if roots.len() == 0 {
        Seq::empty()
    } else {
        match store.entry(roots.last()) {
            Some(entry) => names_at(store, roots.drop_last()).push(entry.location.name),
            None => names_at(store, roots.drop_last()),
        }
    }
}

/// A repo and the branch that a push of it is about.
pub open spec fn push_line(e: EntryView) -> Seq<char> {
    e.location.name + "  ("@ + (match e.summary {
        Some(s) => match s.head.branch() {
            Some(branch) => branch,
            None => "-"@,
        },
        None => "-"@,
    }) + ")"@
}

/// The repos at some paths, with the branches that a push is about.
pub open spec fn push_lines(store: StoreView, roots: Seq<Seq<u8>>) -> Seq<Seq<char>>
    decreases roots.len(),
{
    if roots.len() == 0 {
        Seq::empty()
    } else {
        match store.entry(roots.last()) {
            Some(entry) => push_lines(store, roots.drop_last()).push(push_line(entry)),
            None => push_lines(store, roots.drop_last()),
        }
    }
}

/// The repos that can be fast-forwarded.
pub open spec fn behind_roots(repos: Seq<EntryView>) -> Seq<Seq<u8>>
    decreases repos.len(),
{
    if repos.len() == 0 {
        Seq::empty()
    } else {
        let e = repos.last();
        if prechecked(e) is Ok && fast_forward_settled(prechecked(e)->Ok_0) is None {
            behind_roots(repos.drop_last()).push(e.location.root)
        } else {
            behind_roots(repos.drop_last())
        }
    }
}

impl WorkspaceView {
    /// The selected repo marked, or no longer marked.
    pub open spec fn mark_toggled(self, store: StoreView) -> WorkspaceView {
        match self.selected_root(store) {
            Some(root) => WorkspaceView { marked: mark_toggled(self.marked, root), ..self },
            None => self,
        }
    }

    /// The listed repos all marked, or none of them if all were.
    pub open spec fn marks_toggled(self, store: StoreView) -> WorkspaceView {
        let listed = self.listed_roots(store);
        WorkspaceView {
            marked: if every_marked(self.marked, listed) {
                all_unmarked(self.marked, listed)
            } else {
                all_marked(self.marked, listed)
            },
            ..self
        }
    }

    /// Marked repos in Repos-panel order, when the action starts from the Repos panel.
    pub open spec fn marked_targets(self, store: StoreView) -> Option<Seq<Seq<u8>>> {
        if self.focused != Panel::Repos || self.marked.len() == 0 {
            None
        } else {
            Some(marked_of(store.repos, self.marked))
        }
    }

    /// Marked repos, else the selected one.
    pub open spec fn targets(self, store: StoreView) -> Seq<Seq<u8>> {
        match self.marked_targets(store) {
            Some(roots) => roots,
            None => match self.selected_root(store) {
                Some(root) => seq![root],
                None => Seq::empty(),
            },
        }
    }

    /// A repo selected in the Repos panel, if it is listed.
    pub open spec fn root_selected(self, root: Seq<u8>, store: StoreView) -> Option<(
        WorkspaceView,
        StoreView,
        JobsView,
    )> {
        match place_among(self.listed_roots(store), root) {
            Some(position) => Some(
                self.with_cursor(PaneView::Repos, position as usize).panel_focused(self.focused, store),
            ),
            None => None,
        }
    }

    /// The roots of the repos that are listed.
    pub open spec fn listed_roots(self, store: StoreView) -> Seq<Seq<u8>> {
        self.visible(PaneView::Repos, store).map_values(|ix: int| store.repos[ix].location.root)
    }

    /// A popup that says something.
    pub open spec fn with_message(self, title: Seq<char>, message: Seq<char>) -> WorkspaceView {
        WorkspaceView { dialog: Some(DialogView::Error { title, message }), ..self }
    }

    /// A popup that asks for a confirmation.
    pub open spec fn with_question(self, title: Seq<char>, message: Seq<char>, next: ThenView) -> WorkspaceView {
        WorkspaceView { dialog: Some(DialogView::Confirm { title, message, next }), ..self }
    }

    /// A popup that asks for a text.
    pub open spec fn with_prompt(self, title: Seq<char>, initial: Seq<char>, asked: AskedView) -> WorkspaceView {
        WorkspaceView {
            dialog: Some(
                DialogView::Prompt { title, initial, placeholder: Seq::empty(), allow_empty: false, asked },
            ),
            ..self
        }
    }

    /// A batch started on some repos. With several repos a popup shows each outcome as it
    /// lands; with one, only a skip or failure is shown.
    pub open spec fn batch_run(self, batch: BatchView, targets: Seq<Seq<u8>>, store: StoreView) -> (
        WorkspaceView,
        EffectView,
    ) {
        let (rows, jobs) = planned(batch, store, targets);
        let id = next_count(self.last_batch);
        let next = WorkspaceView { last_batch: id, ..self };
        let single = rows.len() == 1;
        (
            if single {
                match rows[0].outcome.problem() {
                    Some(message) => next.with_message(batch.title(), rows[0].name + ": "@ + message),
                    None => next,
                }
            } else {
                WorkspaceView {
                    dialog: Some(DialogView::Results { id, title: batch.title(), rows }),
                    ..next
                }
            },
            EffectView::RunBatch { id, batch, single, jobs },
        )
    }

    /// A job of a batch finished.
    pub open spec fn batch_settled(
        self,
        id: u64,
        title: Seq<char>,
        single: bool,
        row: int,
        name: Seq<char>,
        outcome: OutcomeView,
    ) -> WorkspaceView {
        if single {
            match outcome.problem() {
                Some(message) => self.with_message(title, name + ": "@ + message),
                None => self,
            }
        } else {
            match self.dialog {
                Some(DialogView::Results { id: showing, title: t, rows }) => if showing == id && 0 <= row
                    < rows.len() {
                    WorkspaceView {
                        dialog: Some(
                            DialogView::Results {
                                id: showing,
                                title: t,
                                rows: rows.update(row, RowView { outcome, ..rows[row] }),
                            },
                        ),
                        ..self
                    }
                } else {
                    self
                },
                _ => self,
            }
        }
    }
}

/// "billing" or "3 repos", for prompt titles.
pub open spec fn targets_text(store: StoreView, targets: Seq<Seq<u8>>) -> Seq<char> {
    if targets.len() == 1 {
        match store.entry(targets[0]) {
            Some(entry) => entry.location.name,
            None => Seq::empty(),
        }
    } else {
        decimal(targets.len()) + " repos"@
    }
}

/// Takes a path out of some.
fn remove_path(paths: &Vec<FsPath>, path: &FsPath) -> (r: Vec<FsPath>)
    ensures
        path_views(r@) == without_path(path_views(paths@), path@),
{
    let ghost all = path_views(paths@);
    let mut out: Vec<FsPath> = Vec::new();
    let mut i: usize = 0;
    assert(all.take(0) =~= Seq::<Seq<u8>>::empty());
    assert(path_views(out@) =~= Seq::<Seq<u8>>::empty());
    while i < paths.len()
        invariant
            i <= paths@.len(),
            all == path_views(paths@),
            path_views(out@) == without_path(all.take(i as int), path@),
        decreases paths@.len() - i,
    {
        let ghost next = all.take(i + 1);
        let ghost before = out@;
        assert(next.drop_last() =~= all.take(i as int));
        assert(next.last() == paths@[i as int]@);
        if !paths[i].same(path) {
            let kept = paths[i].clone();
            out.push(kept);
            assert(path_views(out@) =~= path_views(before).push(kept@));
        }
        i = i + 1;
    }
    assert(all.take(all.len() as int) =~= all);
    out
}

/// Adds a path.
fn push_path(paths: &mut Vec<FsPath>, path: FsPath)
    ensures
        path_views(final(paths)@) == path_views(old(paths)@).push(path@),
{
    let ghost before = paths@;
    paths.push(path);
    assert(path_views(paths@) =~= path_views(before).push(path@));
}

impl Workspace {
    /// Marked repos in Repos-panel order, when the action starts from the Repos panel.
    pub fn marked_targets(&self, store: &RepoStore) -> (r: Option<Vec<FsPath>>)
        ensures
            paths_opt(r) == self@.marked_targets(store@),
    {
        if self.focused != Panel::Repos || self.marked.len() == 0 {
            return None;
        }
        let ghost all = store@.repos;
        let mut out: Vec<FsPath> = Vec::new();
        let mut i: usize = 0;
        assert(all.take(0) =~= Seq::<EntryView>::empty());
        assert(path_views(out@) =~= Seq::<Seq<u8>>::empty());
        while i < store.repos.len()
            invariant
                i <= store.repos@.len(),
                all == store@.repos,
                path_views(out@) == marked_of(all.take(i as int), self@.marked),
            decreases store.repos@.len() - i,
        {
            let ghost next = all.take(i + 1);
            assert(next.drop_last() =~= all.take(i as int));
            assert(next.last() == store.repos@[i as int]@);
            if has_path(&self.marked, &store.repos[i].location.root) {
                push_path(&mut out, store.repos[i].location.root.clone());
            }
            i = i + 1;
        }
        assert(all.take(all.len() as int) =~= all);
        Some(out)
    }

    /// Marked repos, else the selected one.
    pub fn targets(&self, store: &RepoStore) -> (r: Vec<FsPath>)
        requires
            self@.wf(),
        ensures
            path_views(r@) == self@.targets(store@),
    {
        match self.marked_targets(store) {
            Some(roots) => roots,
            None => {
                let mut out: Vec<FsPath> = Vec::new();
                assert(path_views(out@) =~= Seq::<Seq<u8>>::empty());
                if let Some(root) = self.selected_root(store) {
                    push_path(&mut out, root);
                }
                assert(path_views(out@) =~= self@.targets(store@));
                out
            },
        }
    }

    /// "billing" or "3 repos", for prompt titles.
    pub fn describe_targets(&self, targets: &Vec<FsPath>, store: &RepoStore) -> (r: String)
        ensures
            r@ == targets_text(store@, path_views(targets@)),
    {
        assert(path_views(targets@).len() == targets.len());
        if targets.len() == 1 {
            assert(path_views(targets@)[0] == targets@[0]@);
            match store.entry(&targets[0]) {
                Some(entry) => entry.location.name.clone(),
                None => String::new(),
            }
        } else {
            let count = decimal_string(targets.len() as u64);
            cat2(count.as_str(), " repos")
        }
    }

    /// Toggles the mark of a repo.
    fn toggle_root(&mut self, root: FsPath)
        requires
            old(self)@.wf(),
        ensures
            final(self)@ == (WorkspaceView { marked: mark_toggled(old(self)@.marked, root@), ..old(self)@ }),
            final(self)@.wf(),
    {
        proof {
            law_marks_are_distinct(self@.marked, root@, Seq::empty());
        }
        if has_path(&self.marked, &root) {
            self.marked = remove_path(&self.marked, &root);
        } else {
            push_path(&mut self.marked, root);
        }
    }

    /// `space` in Repos: marks the selected repo, or unmarks it.
    pub fn toggle_mark(&mut self, store: &RepoStore)
        requires
            old(self)@.wf(),
        ensures
            final(self)@ == old(self)@.mark_toggled(store@),
            final(self)@.wf(),
    {
        if let Some(root) = self.selected_root(store) {
            self.toggle_root(root);
        }
    }

    /// Cmd-click on a row of the Repos panel.
    pub fn toggle_mark_at(&mut self, position: usize, store: &RepoStore)
        requires
            old(self)@.wf(),
        ensures
            ({
                let listed = old(self)@.listed_roots(store@);
                final(self)@ == (if position < listed.len() {
                    WorkspaceView {
                        marked: mark_toggled(old(self)@.marked, listed[position as int]),
                        ..old(self)@
                    }
                } else {
                    old(self)@
                })
            }),
            final(self)@.wf(),
    {
        let listed = self.listed(store);
        assert(path_views(listed@).len() == listed.len());
        if position < listed.len() {
            assert(path_views(listed@)[position as int] == listed@[position as int]@);
            self.toggle_root(listed[position].clone());
        }
    }

    /// The roots of the repos that are listed.
    fn listed(&self, store: &RepoStore) -> (r: Vec<FsPath>)
        requires
            self@.wf(),
        ensures
            path_views(r@) == self@.listed_roots(store@),
    {
        let visible = self.visible(PaneView::Repos, store);
        let ghost all = self@.listed_roots(store@);
        let mut out: Vec<FsPath> = Vec::new();
        let mut i: usize = 0;
        assert(path_views(out@) =~= all.take(0));
        proof {
            lemma_visible(self@, PaneView::Repos, store@);
        }
        while i < visible.len()
            invariant
                i <= visible@.len(),
                ints(visible@) == self@.visible(PaneView::Repos, store@),
                all == self@.listed_roots(store@),
                all.len() == visible@.len(),
                forall|k: int|
                    0 <= k < visible@.len() ==> 0 <= #[trigger] self@.visible(PaneView::Repos, store@)[k]
                        < store@.repos.len(),
                path_views(out@) == all.take(i as int),
            decreases visible@.len() - i,
        {
            let ix: usize = visible[i];
            assert(self@.visible(PaneView::Repos, store@)[i as int] == ix);
            push_path(&mut out, store.repos[ix].location.root.clone());
            assert(all[i as int] == store@.repos[ix as int].location.root);
            assert(all.take(i + 1) =~= all.take(i as int).push(all[i as int]));
            i = i + 1;
        }
        assert(all.take(all.len() as int) =~= all);
        out
    }

    /// Selects a repo in the Repos panel, wherever it is listed; `None` if it isn't.
    pub fn select_root(&mut self, root: &FsPath, store: &mut RepoStore) -> (r: Option<Jobs>)
        requires
            old(self)@.wf(),
        ensures
            match r {
                Some(jobs) => old(self)@.root_selected(root@, old(store)@) == Some(
                    (final(self)@, final(store)@, jobs@),
                ),
                None => old(self)@.root_selected(root@, old(store)@) is None && final(self)@ == old(self)@
                    && final(store)@ == old(store)@,
            },
            final(self)@.wf(),
    {
        let listed = self.listed(store);
        let ghost all = path_views(listed@);
        let mut i: usize = 0;
        assert(all.take(0) =~= Seq::<Seq<u8>>::empty());
        while i < listed.len()
            invariant
                i <= listed@.len(),
                all == path_views(listed@),
                place_among(all.take(i as int), root@) is None,
                *self == *old(self),
                *store == *old(store),
                self@.wf(),
                all == self@.listed_roots(store@),
            decreases listed@.len() - i,
        {
            let ghost next = all.take(i + 1);
            assert(next.drop_last() =~= all.take(i as int));
            assert(next.last() == listed@[i as int]@);
            if listed[i].same(root) {
                proof {
                    lemma_place_stays(all, root@, i + 1);
                }
                let focused = self.focused;
                return Some(self.click_row(PaneView::Repos, i, focused, store));
            }
            i = i + 1;
        }
        assert(all.take(all.len() as int) =~= all);
        None
    }

    /// Marks every listed (filtered) repo, or unmarks them if all are marked already.
    pub fn toggle_mark_all(&mut self, store: &RepoStore)
        requires
            old(self)@.wf(),
        ensures
            final(self)@ == old(self)@.marks_toggled(store@),
            final(self)@.wf(),
    {
        let listed = self.listed(store);
        let ghost all = path_views(listed@);
        let ghost start = self@.marked;
        let mut every = true;
        let mut i: usize = 0;
        while i < listed.len()
            invariant
                i <= listed@.len(),
                all == path_views(listed@),
                start == self@.marked,
                every == (forall|j: int| 0 <= j < i ==> among_paths(start, #[trigger] all[j])),
            decreases listed@.len() - i,
        {
            assert(all[i as int] == listed@[i as int]@);
            if !has_path(&self.marked, &listed[i]) {
                every = false;
            }
            i = i + 1;
        }
        proof {
            law_marks_are_distinct(start, Seq::empty(), all);
        }
        let mut k: usize = 0;
        assert(all.take(0) =~= Seq::<Seq<u8>>::empty());
        while k < listed.len()
            invariant
                k <= listed@.len(),
                all == path_views(listed@),
                start == old(self)@.marked,
                self@ == (WorkspaceView {
                    marked: if every {
                        all_unmarked(start, all.take(k as int))
                    } else {
                        all_marked(start, all.take(k as int))
                    },
                    ..old(self)@
                }),
            decreases listed@.len() - k,
        {
            let ghost next = all.take(k + 1);
            assert(next.drop_last() =~= all.take(k as int));
            assert(next.last() == listed@[k as int]@);
            if every {
                self.marked = remove_path(&self.marked, &listed[k]);
            } else if !has_path(&self.marked, &listed[k]) {
                push_path(&mut self.marked, listed[k].clone());
            }
            k = k + 1;
        }
        assert(all.take(all.len() as int) =~= all);
    }

    /// Opens a popup, in place of one that is open.
    pub fn open_dialog(&mut self, dialog: Dialog)
        ensures
            final(self)@ == (WorkspaceView { dialog: Some(dialog@), ..old(self)@ }),
    {
        self.dialog = Some(dialog);
    }

    /// Opens a popup that says something.
    pub fn show_message(&mut self, title: &str, message: String)
        ensures
            final(self)@ == old(self)@.with_message(title@, message@),
    {
        self.open_dialog(Dialog::Error { title: title.to_owned(), message });
    }

    /// Opens a popup that asks for a confirmation.
    pub fn confirm(&mut self, title: &str, message: String, next: Then)
        ensures
            final(self)@ == old(self)@.with_question(title@, message@, next@),
    {
        self.open_dialog(Dialog::Confirm { title: title.to_owned(), message, next });
    }

    /// Opens a popup that asks for a text.
    pub fn prompt(&mut self, title: String, initial: String, asked: Asked)
        ensures
            final(self)@ == old(self)@.with_prompt(title@, initial@, asked@),
    {
        proof {
            reveal_strlit("");
            assert(""@ =~= Seq::<char>::empty());
        }
        self.open_dialog(Dialog::Prompt { title, initial, placeholder: "", allow_empty: false, asked });
    }

    /// Opens a popup that asks for a text that may be empty; `placeholder` says what empty
    /// means.
    pub fn optional_prompt(&mut self, title: &str, placeholder: &'static str, asked: Asked)
        ensures
            final(self)@ == (WorkspaceView {
                dialog: Some(
                    DialogView::Prompt {
                        title: title@,
                        initial: Seq::empty(),
                        placeholder: placeholder@,
                        allow_empty: true,
                        asked: asked@,
                    },
                ),
                ..old(self)@
            }),
    {
        proof {
            reveal_strlit("");
            assert(""@ =~= Seq::<char>::empty());
        }
        let initial = "".to_owned();
        self.open_dialog(Dialog::Prompt { title: title.to_owned(), initial, placeholder, allow_empty: true, asked });
    }

    /// Opens a menu.
    pub fn menu(&mut self, title: &str, items: Vec<MenuItem>)
        ensures
            final(self)@ == (WorkspaceView {
                dialog: Some(DialogView::Menu { title: title@, items: items@, selected: 0 }),
                ..old(self)@
            }),
    {
        self.open_dialog(Dialog::Menu { title: title.to_owned(), items, selected: 0 });
    }

    /// Starts a batch on some repos.
    pub fn run_batch(&mut self, batch: Batch, targets: &Vec<FsPath>, store: &RepoStore) -> (r: Effect)
        ensures
            (final(self)@, r@) == old(self)@.batch_run(batch@, path_views(targets@), store@),
    {
        let (rows, jobs) = plan(&batch, store, targets);
        self.last_batch = count_up(self.last_batch);
        let id: u64 = self.last_batch;
        let title = batch.title();
        let single = rows.len() == 1;
        assert(row_views(rows@).len() == rows@.len());
        if single {
            assert(row_views(rows@)[0] == rows@[0]@);
            if let Some(message) = crate::batch::problem(&rows[0].outcome) {
                let text = cat3(rows[0].name.as_str(), ": ", message);
                self.show_message(title.as_str(), text);
            }
        } else {
            self.open_dialog(Dialog::Results { id, title, rows });
        }
        Effect::RunBatch { id, batch, single, jobs }
    }

    /// Takes the outcome of a job of a batch.
    pub fn finish_batch_job(
        &mut self,
        id: u64,
        title: &str,
        single: bool,
        row: usize,
        name: &str,
        outcome: Outcome,
    )
        ensures
            final(self)@ == old(self)@.batch_settled(id, title@, single, row as int, name@, outcome@),
    {
        if single {
            if let Some(message) = crate::batch::problem(&outcome) {
                let text = cat3(name, ": ", message);
                self.show_message(title, text);
            }
            return;
        }
        if let Some(Dialog::Results { id: showing, title: _, rows }) = &mut self.dialog {
            if *showing == id && row < rows.len() {
                let ghost before = rows@;
                rows[row].outcome = outcome;
                assert(row_views(rows@) =~= row_views(before).update(
                    row as int,
                    RowView { outcome: outcome@, ..row_views(before)[row as int] },
                ));
            }
        }
    }
}

/// Actions started from the Repos panel run on the marked repos. With nothing marked, or from
/// another panel, they run on the selected repo.
pub proof fn law_marks_choose_the_targets(w: WorkspaceView, store: StoreView)
    ensures
        w.focused == Panel::Repos && w.marked.len() > 0 ==> w.targets(store) == marked_of(store.repos, w.marked),
        w.focused != Panel::Repos || w.marked.len() == 0 ==> w.targets(store) == (match w.selected_root(store) {
            Some(root) => seq![root],
            None => Seq::<Seq<u8>>::empty(),
        }),
{
}

} // verus!
