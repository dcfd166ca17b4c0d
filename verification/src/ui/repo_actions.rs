//! Actions on the marked repos, or on the selected one.

use vstd::prelude::*;

use crate::batch::{fast_forward_check, precheck, Batch, BatchView};
use crate::model::{Head, Upstream};
use crate::path::{path_views, FsPath};
use crate::store::{EntryView, RepoStore, StoreView};
use crate::summary::{main_remote, primary_remote};
use crate::text::number::{decimal, decimal_string};
use crate::text::seqs::join;
use crate::text::strings::{cat2, cat3, cat4, cat5, empty_text, joined, push_string, texts};
use crate::ui::dialog::{After, AfterView, Asked, AskedView, Effect, EffectView, Then, ThenView};
use crate::ui::marks::{behind_roots, names_at, push_lines, targets_text};
use crate::ui::op::{Op, OpView};
use crate::ui::workspace::{Workspace, WorkspaceView};

verus! {

impl WorkspaceView {
    /// The command that opens lazygit on the selected repo.
    pub open spec fn lazygit_effect(self, store: StoreView) -> EffectView {
        match self.selected_root(store) {
            Some(root) => EffectView::Shell {
                command: crate::config::lazygit_command(
                    store.config.lazygit_command,
                    crate::text::outside::lossy_text(root),
                ),
            },
            None => EffectView::Nothing,
        }
    }

    /// Asks for the branch to check out in the targets, if there are any.
    pub open spec fn checkout_asked(self, store: StoreView) -> WorkspaceView {
        let targets = self.targets(store);
        if targets.len() == 0 {
            self
        } else {
            self.with_prompt(
                "Check out branch in "@ + targets_text(store, targets),
                Seq::empty(),
                AskedView::CheckoutIn { targets },
            )
        }
    }

    /// Asks for the branch to create in the targets, if there are any.
    pub open spec fn branch_asked(self, store: StoreView) -> WorkspaceView {
        let targets = self.targets(store);
        if targets.len() == 0 {
            self
        } else {
            self.with_prompt(
                "New branch in "@ + targets_text(store, targets) + " (from HEAD)"@,
                Seq::empty(),
                AskedView::BranchIn { targets },
            )
        }
    }

    /// Checks out the default branch in the targets; asks first if there are several.
    pub open spec fn default_run(self, store: StoreView) -> (WorkspaceView, EffectView) {
        let targets = self.targets(store);
        match self.marked_targets(store) {
            Some(roots) if roots.len() > 1 => (
                self.with_question(
                    "Default branch"@,
                    "Check out the default branch and fast-forward it in "@ + decimal(roots.len())
                        + " repos?\nRepos with uncommitted changes are skipped."@,
                    ThenView::RunBatch { batch: BatchView::DefaultBranch, targets },
                ),
                EffectView::Nothing,
            ),
            _ => self.batch_run(BatchView::DefaultBranch, targets, store),
        }
    }

    /// Pulls the marked repos, or the selected one.
    pub open spec fn pull_run(self, store: StoreView) -> (WorkspaceView, EffectView) {
        match self.marked_targets(store) {
            Some(roots) => self.batch_run(BatchView::Pull, roots, store),
            None => (self, self.op_effect(store, "Pulling"@, OpView::Pull)),
        }
    }

    /// What runs an operation on the selected repo.
    pub open spec fn op_effect(self, store: StoreView, label: Seq<char>, op: OpView) -> EffectView {
        match self.selected_root(store) {
            Some(root) => EffectView::Run { root, label, op, after: AfterView::Show },
            None => EffectView::Nothing,
        }
    }

    /// Fetches the marked repos, or the selected one.
    pub open spec fn fetch_effect(self, store: StoreView) -> EffectView {
        match self.marked_targets(store) {
            Some(roots) => EffectView::FetchMany { roots },
            None => match self.selected_root(store) {
                Some(root) => EffectView::Fetch { root },
                None => EffectView::Nothing,
            },
        }
    }

    /// Pushes the marked repos, after asking; or the selected one, never by force.
    pub open spec fn push_run(self, store: StoreView) -> (WorkspaceView, EffectView) {
        match self.marked_targets(store) {
            Some(roots) => (
                self.with_question(
                    "Push"@,
                    "Push "@ + decimal(roots.len()) + " repos?\n\n"@ + join(push_lines(store, roots), "\n"@),
                    ThenView::RunBatch { batch: BatchView::Push, targets: roots },
                ),
                EffectView::Nothing,
            ),
            None => match self.selected_root(store) {
                None => (self, EffectView::Nothing),
                Some(root) => match store.entry(root) {
                    Some(entry) if entry.summary is Some => {
                        let s = entry.summary->0;
                        let remote = main_remote(s.remotes, None);
                        if s.head is Detached {
                            (
                                self.with_message("Push"@, "HEAD is detached; check out a branch to push."@),
                                EffectView::Nothing,
                            )
                        } else if remote is None {
                            (
                                self.with_message("Push"@, "This repository has no remote."@),
                                EffectView::Nothing,
                            )
                        } else {
                            let has_upstream = s.upstream is Tracking;
                            (
                                self,
                                EffectView::Run {
                                    root,
                                    label: "Pushing"@,
                                    op: OpView::Push { has_upstream, remote, force: false },
                                    after: AfterView::Push { root, has_upstream, remote },
                                },
                            )
                        }
                    },
                    _ => (self, EffectView::Nothing),
                },
            },
        }
    }

    /// Asks whether to fast-forward the marked repos, or every repo that can be.
    pub open spec fn fast_forward_asked(self, store: StoreView) -> WorkspaceView {
        match store.fetch_round {
            Some((done, total)) => self.with_message(
                "Fast-forward"@,
                "A fetch is in progress ("@ + decimal(done as nat) + "/"@ + decimal(total as nat)
                    + "). Try again when it finishes."@,
            ),
            None => {
                let marked = self.marked_targets(store);
                let roots = match marked {
                    Some(roots) => roots,
                    None => behind_roots(store.repos),
                };
                if roots.len() == 0 {
                    self.with_message(
                        "Fast-forward"@,
                        "No repos to update: none are on a branch that is behind its upstream and free of uncommitted changes.\nFetch first with F."@,
                    )
                } else {
                    self.with_question(
                        "Fast-forward"@,
                        "Fast-forward "@ + decimal(roots.len()) + (if marked is Some {
                            " marked "@
                        } else {
                            " "@
                        }) + (if roots.len() == 1 {
                            "repo"@
                        } else {
                            "repos"@
                        }) + " to their upstream?\n\n"@ + join(names_at(store, roots), "\n"@),
                        ThenView::RunBatch { batch: BatchView::FastForward, targets: roots },
                    )
                }
            },
        }
    }
}

/// The names of the repos at some paths.
fn names_of(store: &RepoStore, roots: &Vec<FsPath>) -> (r: Vec<String>)
    ensures
        texts(r@) == names_at(store@, path_views(roots@)),
{
    let ghost all = path_views(roots@);
    let mut out: Vec<String> = Vec::new();
    let mut i: usize = 0;
    assert(all.take(0) =~= Seq::<Seq<u8>>::empty());
    assert(texts(out@) =~= Seq::<Seq<char>>::empty());
    while i < roots.len()
        invariant
            i <= roots@.len(),
            all == path_views(roots@),
            texts(out@) == names_at(store@, all.take(i as int)),
        decreases roots@.len() - i,
    {
        let ghost next = all.take(i + 1);
        assert(next.drop_last() =~= all.take(i as int));
        assert(next.last() == roots@[i as int]@);
        if let Some(entry) = store.entry(&roots[i]) {
            push_string(&mut out, entry.location.name.clone());
        }
        i = i + 1;
    }
    assert(all.take(all.len() as int) =~= all);
    out
}

/// The repos at some paths, with the branches that a push is about.
fn push_names(store: &RepoStore, roots: &Vec<FsPath>) -> (r: Vec<String>)
    ensures
        texts(r@) == push_lines(store@, path_views(roots@)),
{
    let ghost all = path_views(roots@);
    let mut out: Vec<String> = Vec::new();
    let mut i: usize = 0;
    assert(all.take(0) =~= Seq::<Seq<u8>>::empty());
    assert(texts(out@) =~= Seq::<Seq<char>>::empty());
    while i < roots.len()
        invariant
            i <= roots@.len(),
            all == path_views(roots@),
            texts(out@) == push_lines(store@, all.take(i as int)),
        decreases roots@.len() - i,
    {
        let ghost next = all.take(i + 1);
        assert(next.drop_last() =~= all.take(i as int));
        assert(next.last() == roots@[i as int]@);
        if let Some(entry) = store.entry(&roots[i]) {
            let branch = match &entry.summary {
                Some(s) => match s.head.branch_name() {
                    Some(branch) => branch,
                    None => "-",
                },
                None => "-",
            };
            push_string(&mut out, cat4(entry.name(), "  (", branch, ")"));
        }
        i = i + 1;
    }
    assert(all.take(all.len() as int) =~= all);
    out
}

/// The repos that can be fast-forwarded.
fn roots_behind(store: &RepoStore) -> (r: Vec<FsPath>)
    ensures
        path_views(r@) == behind_roots(store@.repos),
{
    let ghost all = store@.repos;
    let mut out: Vec<FsPath> = Vec::new();
    let mut i: usize = 0;
    assert(all.take(0) =~= Seq::<EntryView>::empty());
    assert(path_views(out@) =~= Seq::<Seq<u8>>::empty());
    while i < store.repos.len()
        invariant
            i <= store.repos@.len(),
            all == store@.repos,
            path_views(out@) == behind_roots(all.take(i as int)),
        decreases store.repos@.len() - i,
    {
        let ghost next = all.take(i + 1);
        let ghost before = out@;
        assert(next.drop_last() =~= all.take(i as int));
        assert(next.last() == store.repos@[i as int]@);
        if let Ok(summary) = precheck(&store.repos[i]) {
            if fast_forward_check(summary).is_none() {
                let root = store.repos[i].location.root.clone();
                out.push(root);
                assert(path_views(out@) =~= path_views(before).push(root@));
            }
        }
        i = i + 1;
    }
    assert(all.take(all.len() as int) =~= all);
    out
}

impl Workspace {
    /// `c` in Repos: asks for the branch to check out.
    pub fn checkout_by_name(&mut self, store: &RepoStore)
        requires
            old(self)@.wf(),
        ensures
            final(self)@ == old(self)@.checkout_asked(store@),
            final(self)@.wf(),
    {
        let targets = self.targets(store);
        assert(path_views(targets@).len() == targets.len());
        if targets.len() == 0 {
            return;
        }
        let what = self.describe_targets(&targets, store);
        let title = cat2("Check out branch in ", what.as_str());
        self.prompt(title, empty_text(), Asked::CheckoutIn { targets });
    }

    /// `n` in Repos: asks for the branch to create.
    pub fn new_branch_in_repos(&mut self, store: &RepoStore)
        requires
            old(self)@.wf(),
        ensures
            final(self)@ == old(self)@.branch_asked(store@),
            final(self)@.wf(),
    {
        let targets = self.targets(store);
        assert(path_views(targets@).len() == targets.len());
        if targets.len() == 0 {
            return;
        }
        let what = self.describe_targets(&targets, store);
        let title = cat3("New branch in ", what.as_str(), " (from HEAD)");
        self.prompt(title, empty_text(), Asked::BranchIn { targets });
    }

    /// `m` in Repos: checks out the default branch and fast-forwards it.
    pub fn switch_to_default(&mut self, store: &RepoStore) -> (r: Effect)
        requires
            old(self)@.wf(),
        ensures
            (final(self)@, r@) == old(self)@.default_run(store@),
            final(self)@.wf(),
    {
        let targets = self.targets(store);
        if let Some(roots) = self.marked_targets(store) {
            assert(path_views(roots@).len() == roots.len());
            if roots.len() > 1 {
                let count = decimal_string(roots.len() as u64);
                let message = cat3(
                    "Check out the default branch and fast-forward it in ",
                    count.as_str(),
                    " repos?\nRepos with uncommitted changes are skipped.",
                );
                self.confirm("Default branch", message, Then::RunBatch { batch: Batch::DefaultBranch, targets });
                return Effect::Nothing;
            }
        }
        self.run_batch(Batch::DefaultBranch, &targets, store)
    }

    /// Runs an operation on the selected repo.
    pub fn op(&self, store: &RepoStore, label: &'static str, op: Op) -> (r: Effect)
        requires
            self@.wf(),
        ensures
            r@ == self@.op_effect(store@, label@, op@),
    {
        match self.selected_root(store) {
            Some(root) => Effect::Run { root, label, op, after: After::Show },
            None => Effect::Nothing,
        }
    }

    /// `f`: fetches.
    pub fn fetch(&self, store: &RepoStore) -> (r: Effect)
        requires
            self@.wf(),
        ensures
            r@ == self@.fetch_effect(store@),
    {
        match self.marked_targets(store) {
            Some(roots) => Effect::FetchMany { roots },
            None => match self.selected_root(store) {
                Some(root) => Effect::Fetch { root },
                None => Effect::Nothing,
            },
        }
    }

    /// `p`: pulls.
    pub fn pull(&mut self, store: &RepoStore) -> (r: Effect)
        requires
            old(self)@.wf(),
        ensures
            (final(self)@, r@) == old(self)@.pull_run(store@),
            final(self)@.wf(),
    {
        match self.marked_targets(store) {
            Some(roots) => self.run_batch(Batch::Pull, &roots, store),
            None => self.op(store, "Pulling", Op::Pull),
        }
    }

    /// `P`: pushes.
    pub fn push(&mut self, store: &RepoStore) -> (r: Effect)
        requires
            old(self)@.wf(),
        ensures
            (final(self)@, r@) == old(self)@.push_run(store@),
            final(self)@.wf(),
    {
        if let Some(roots) = self.marked_targets(store) {
            assert(path_views(roots@).len() == roots.len());
            let count = decimal_string(roots.len() as u64);
            let lines = push_names(store, &roots);
            let list = joined(&lines, "\n");
            let message = cat4("Push ", count.as_str(), " repos?\n\n", list.as_str());
            self.confirm("Push", message, Then::RunBatch { batch: Batch::Push, targets: roots });
            return Effect::Nothing;
        }
        let root = match self.selected_root(store) {
            Some(root) => root,
            None => {
                return Effect::Nothing;
            },
        };
        let summary = match store.entry(&root) {
            Some(entry) => match &entry.summary {
                Some(summary) => summary,
                None => {
                    return Effect::Nothing;
                },
            },
            None => {
                return Effect::Nothing;
            },
        };
        if let Head::Detached(_) = &summary.head {
            self.show_message("Push", "HEAD is detached; check out a branch to push.".to_owned());
            return Effect::Nothing;
        }
        let has_upstream = match &summary.upstream {
            Upstream::Tracking { .. } => true,
            _ => false,
        };
        match primary_remote(summary.remotes.as_slice(), None) {
            None => {
                self.show_message("Push", "This repository has no remote.".to_owned());
                Effect::Nothing
            },
            Some(remote) => Effect::Run {
                root: root.clone(),
                label: "Pushing",
                op: Op::Push { has_upstream, remote: Some(remote.to_owned()), force: false },
                after: After::Push { root, has_upstream, remote: Some(remote.to_owned()) },
            },
        }
    }

    /// `U`: fast-forward repos that are behind their upstream: the marked ones (saying why
    /// any are skipped), or every repo that can be.
    pub fn fast_forward_all(&mut self, store: &RepoStore)
        requires
            old(self)@.wf(),
        ensures
            final(self)@ == old(self)@.fast_forward_asked(store@),
            final(self)@.wf(),
    {
        if let Some((done, total)) = store.fetch_round {
            let done = decimal_string(done as u64);
            let total = decimal_string(total as u64);
            let message = cat5(
                "A fetch is in progress (",
                done.as_str(),
                "/",
                total.as_str(),
                "). Try again when it finishes.",
            );
            self.show_message("Fast-forward", message);
            return;
        }
        let (roots, all) = match self.marked_targets(store) {
            Some(roots) => (roots, false),
            None => (roots_behind(store), true),
        };
        assert(path_views(roots@).len() == roots.len());
        if roots.len() == 0 {
            self.show_message(
                "Fast-forward",
                "No repos to update: none are on a branch that is behind its upstream and free of uncommitted changes.\nFetch first with F.".to_owned(),
            );
            return;
        }
        let count = decimal_string(roots.len() as u64);
        let what = if all {
            " "
        } else {
            " marked "
        };
        let repos = if roots.len() == 1 {
            "repo"
        } else {
            "repos"
        };
        let names = names_of(store, &roots);
        let list = joined(&names, "\n");
        let start = cat4("Fast-forward ", count.as_str(), what, repos);
        let message = cat3(start.as_str(), " to their upstream?\n\n", list.as_str());
        self.confirm("Fast-forward", message, Then::RunBatch { batch: Batch::FastForward, targets: roots });
    }

    /// `o`: opens the selected repo in lazygit.
    pub fn open_in_lazygit(&self, store: &RepoStore) -> (r: Effect)
        requires
            self@.wf(),
        ensures
            r@ == self@.lazygit_effect(store@),
    {
        match self.selected_root(store) {
            Some(root) => Effect::Shell { command: store.config.lazygit_command_for(&root) },
            None => Effect::Nothing,
        }
    }
}

/// No action on marked repos pushes by force: a batch's pushes are never forced, and a push
/// that is about to run on one repo isn't either.
pub proof fn law_pushes_start_unforced(w: WorkspaceView, store: StoreView)
    ensures
        match w.push_run(store).1 {
            EffectView::Run { root, label, op, after } => op matches OpView::Push { force, .. } && !force,
            EffectView::Nothing => true,
            _ => false,
        },
        w.marked_targets(store) is Some ==> w.push_run(store).1 is Nothing,
{
}

} // verus!
