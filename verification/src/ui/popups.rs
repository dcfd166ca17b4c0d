//! What popups' answers and finished operations lead to, and quitting.

use vstd::prelude::*;

use crate::batch::{push_rejected, Batch, BatchView};
use crate::git::{ErrorView, GitError};
use crate::ops::{failed_saying, is_not_fully_merged, is_push_rejected, is_valid_branch_name, valid_branch_name, PatchAction};
use crate::store::{EntryView, RepoStore, StoreView};
use crate::text::number::{count_up, decimal, decimal_string, next_count};
use crate::text::seqs::join;
use crate::text::strings::{
    cat2, cat3, cat4, cat5, chars_of, joined, push_string, same_str, string_of, texts, trim, trimmed,
};
use crate::ui::dialog::{
    After, AfterView, Asked, AskedView, Dialog, DialogView, Effect, EffectView, MenuItem, Then, ThenView,
};
use crate::ui::main_view::MainContent;
use crate::ui::moves::jobs_opt;
use crate::ui::op::{Op, OpView};
use crate::ui::panel::{PaneView, Panel, ScreenMode};
use crate::ui::staging::{not_staging, Staging, StagingView};
use crate::ui::workspace::{filter_views, Jobs, JobsView, MainState, MainView, Tabs, Workspace, WorkspaceView, VIEWS};

verus! {

/// The repos that git is busy in, with what it does there.
pub open spec fn busy_lines(repos: Seq<EntryView>) -> Seq<Seq<char>>
    decreases repos.len(),
{
    if repos.len() == 0 {
        Seq::empty()
    } else {
        let e = repos.last();
        match e.busy {
            Some(label) => busy_lines(repos.drop_last()).push("  "@ + e.location.name + "  ("@ + label + ")"@),
            None => busy_lines(repos.drop_last()),
        }
    }
}

/// The question before quitting, with the repos that git is busy in: the first eight, and
/// how many more there are.
pub open spec fn quit_text(busy: Seq<Seq<char>>) -> Seq<char> {
    if busy.len() == 0 {
        "Quit ubergit?"@
    } else {
        "Quit ubergit?"@ + "\n\nGit is still running in "@ + (if busy.len() == 1 {
            "1 repo"@
        } else {
            decimal(busy.len()) + " repos"@
        }) + "; quitting now may interrupt it:\n"@ + (if busy.len() <= 8 {
            join(busy, "\n"@)
        } else {
            join(busy.take(8), "\n"@) + "\n  and "@ + decimal((busy.len() - 8) as nat) + " more"@
        })
    }
}

/// The repos that git is busy in, with what it does there.
fn busy_repos(store: &RepoStore) -> (r: Vec<String>)
    ensures
        texts(r@) == busy_lines(store@.repos),
{
    let ghost all = store@.repos;
    let mut out: Vec<String> = Vec::new();
    let mut i: usize = 0;
    assert(all.take(0) =~= Seq::<EntryView>::empty());
    assert(texts(out@) =~= Seq::<Seq<char>>::empty());
    while i < store.repos.len()
        invariant
            i <= store.repos@.len(),
            all == store@.repos,
            texts(out@) == busy_lines(all.take(i as int)),
        decreases store.repos@.len() - i,
    {
        let ghost next = all.take(i + 1);
        assert(next.drop_last() =~= all.take(i as int));
        assert(next.last() == store.repos@[i as int]@);
        if let Some(label) = &store.repos[i].busy {
            push_string(&mut out, cat5("  ", store.repos[i].name(), "  (", label.as_str(), ")"));
        }
        i = i + 1;
    }
    assert(all.take(all.len() as int) =~= all);
    out
}

/// The first texts of a list.
fn first_texts(list: &Vec<String>, n: usize) -> (r: Vec<String>)
    requires
        n <= list@.len(),
    ensures
        texts(r@) == texts(list@).take(n as int),
{
    let ghost all = texts(list@);
    let mut out: Vec<String> = Vec::new();
    let mut i: usize = 0;
    assert(texts(out@) =~= all.take(0));
    while i < n
        invariant
            i <= n <= list@.len(),
            all == texts(list@),
            texts(out@) == all.take(i as int),
        decreases n - i,
    {
        push_string(&mut out, list[i].clone());
        assert(all.take(i + 1) =~= all.take(i as int).push(all[i as int]));
        i = i + 1;
    }
    out
}

/// The question before quitting.
fn quit_question(busy: &Vec<String>) -> (r: String)
    ensures
        r@ == quit_text(texts(busy@)),
{
    assert(texts(busy@).len() == busy@.len());
    let n: usize = busy.len();
    if n == 0 {
        return "Quit ubergit?".to_owned();
    }
    let count = decimal_string(n as u64);
    let repos = if n == 1 {
        "1 repo".to_owned()
    } else {
        cat2(count.as_str(), " repos")
    };
    let mut text = cat4(
        "Quit ubergit?",
        "\n\nGit is still running in ",
        repos.as_str(),
        "; quitting now may interrupt it:\n",
    );
    if n <= 8 {
        let list = joined(busy, "\n");
        text.push_str(list.as_str());
    } else {
        let first = first_texts(busy, 8);
        let list = joined(&first, "\n");
        let more = decimal_string((n - 8) as u64);
        text.push_str(list.as_str());
        text.push_str("\n  and ");
        text.push_str(more.as_str());
        text.push_str(" more");
    }
    assert(text@ =~= quit_text(texts(busy@)));
    text
}

/// What is said of a name that no branch can have.
pub open spec fn bad_name_text(name: Seq<char>) -> Seq<char> {
    "'"@ + name + "' is not a valid branch name."@
}

/// The first item of a menu that a key picks.
pub open spec fn first_with_key(items: Seq<MenuItem>, key: Seq<char>) -> Option<int>
    decreases items.len(),
{
    if items.len() == 0 {
        None
    } else {
        match first_with_key(items.drop_last(), key) {
            Some(i) => Some(i),
            None => if items.last().key@ == key {
                Some(items.len() - 1)
            } else {
                None
            },
        }
    }
}

/// An item that a key picks is picked whatever follows it.
proof fn lemma_first_with_key(items: Seq<MenuItem>, key: Seq<char>, n: int)
    requires
        0 <= n <= items.len(),
        first_with_key(items.take(n), key) is Some,
    ensures
        first_with_key(items, key) == first_with_key(items.take(n), key),
    decreases items.len(),
{
    if n == items.len() {
        assert(items.take(n) =~= items);
    } else {
        assert(items.drop_last().take(n) =~= items.take(n));
        lemma_first_with_key(items.drop_last(), key, n);
    }
}

/// The item that a key picks in the menu that is open.
pub open spec fn item_for(dialog: Option<DialogView>, key: Seq<char>) -> Option<int> {
    match dialog {
        Some(DialogView::Menu { title, items, selected }) => first_with_key(items, key),
        _ => None,
    }
}

impl WorkspaceView {
    /// Quits, or asks while git is still running; at once if that was asked already.
    pub open spec fn app_quit_asked(self, store: StoreView) -> (WorkspaceView, EffectView) {
        if self.dialog is Some && self.dialog->0 is Quit {
            (self, EffectView::Quit)
        } else {
            self.quit_asked(false, store)
        }
    }

    /// A menu's item picked.
    pub open spec fn item_picked(self, ix: int, store: StoreView) -> (WorkspaceView, EffectView) {
        match self.dialog {
            Some(DialogView::Menu { title, items, selected }) => (WorkspaceView {
                dialog: Some(DialogView::Menu { title, items, selected: ix }),
                ..self
            }).dialog_confirmed(Seq::empty(), store),
            _ => (self, EffectView::Nothing),
        }
    }

    /// Quits, or asks first: if that is called for, or git is still running somewhere.
    pub open spec fn quit_asked(self, confirm: bool, store: StoreView) -> (WorkspaceView, EffectView) {
        let busy = busy_lines(store.repos);
        if busy.len() == 0 && !confirm {
            (self, EffectView::Quit)
        } else {
            (
                WorkspaceView { dialog: Some(DialogView::Quit { message: quit_text(busy) }), ..self },
                EffectView::Nothing,
            )
        }
    }

    /// A popup closed; without one, the filter that is being typed is cleared.
    pub open spec fn dialog_closed(self, store: StoreView) -> (WorkspaceView, StoreView, Option<JobsView>) {
        match (self.dialog, self.filter) {
            (None, Some(view)) => {
                let (w, s, jobs) = WorkspaceView { filter: None, ..self }.with_filter(view, None).synced(store);
                (w, s, Some(jobs))
            },
            _ => (WorkspaceView { dialog: None, ..self }, store, None),
        }
    }

    /// What an answer leads to.
    pub open spec fn answered(self, asked: AskedView, value: Seq<char>, store: StoreView) -> (
        WorkspaceView,
        EffectView,
    ) {
        match asked {
            AskedView::CheckoutIn { targets } => if valid_branch_name(value) {
                self.batch_run(BatchView::Checkout(value), targets, store)
            } else {
                (self.with_message("Check out"@, bad_name_text(value)), EffectView::Nothing)
            },
            AskedView::BranchIn { targets } => if valid_branch_name(value) {
                self.batch_run(BatchView::NewBranch(value), targets, store)
            } else {
                (self.with_message("New branch"@, bad_name_text(value)), EffectView::Nothing)
            },
            AskedView::NewBranch { root, start } => (
                self,
                EffectView::Run {
                    root,
                    label: "Creating branch"@,
                    op: OpView::NewBranch { name: value, start },
                    after: AfterView::Show,
                },
            ),
            AskedView::SetUpstream { branch } => (
                self,
                self.op_effect(store, "Setting upstream"@, OpView::SetUpstream { branch, upstream: value }),
            ),
            AskedView::RenameStash { root, stash } => (
                self,
                EffectView::Rename { root, stash, message: value },
            ),
            AskedView::StashBranch { root, index } => if valid_branch_name(value) {
                (
                    self,
                    EffectView::Run {
                        root,
                        label: "Creating branch"@,
                        op: OpView::StashBranch { index, name: value },
                        after: AfterView::Show,
                    },
                )
            } else {
                (self.with_message("New branch"@, bad_name_text(value)), EffectView::Nothing)
            },
            AskedView::Stash { root, kind } => (
                self,
                EffectView::Run {
                    root,
                    label: "Stashing"@,
                    op: OpView::Stash { kind, message: value },
                    after: AfterView::Show,
                },
            ),
        }
    }

    /// What a confirmed question leads to.
    pub open spec fn confirmed(self, next: ThenView, store: StoreView) -> (WorkspaceView, EffectView) {
        match next {
            ThenView::RunBatch { batch, targets } => self.batch_run(batch, targets, store),
            ThenView::RunOp { root, label, op, after } => (
                self,
                EffectView::Run { root, label, op, after },
            ),
            ThenView::ApplyPatch { patch, action } => self.patch_applied(patch, action, store),
        }
    }

    /// What `enter` in a popup leads to, with what was typed there.
    pub open spec fn dialog_confirmed(self, typed: Seq<char>, store: StoreView) -> (WorkspaceView, EffectView) {
        let closed = WorkspaceView { dialog: None, ..self };
        let value = trim(typed);
        match self.dialog {
            None => (WorkspaceView { filter: None, ..self }, EffectView::Nothing),
            Some(DialogView::Confirm { title, message, next }) => closed.confirmed(next, store),
            Some(DialogView::Prompt { title, initial, placeholder, allow_empty, asked }) => if allow_empty
                || value.len() > 0 {
                closed.answered(asked, value, store)
            } else {
                (closed, EffectView::Nothing)
            },
            Some(DialogView::Menu { title, items, selected }) => if 0 <= selected < items.len() {
                (closed.stash_asked(items[selected].kind, store), EffectView::Nothing)
            } else {
                (closed, EffectView::Nothing)
            },
            Some(DialogView::Commit { amend, root, message }) => if value.len() == 0 {
                (self, EffectView::Nothing)
            } else {
                (
                    closed,
                    EffectView::Run {
                        root,
                        label: if amend {
                            "Amending"@
                        } else {
                            "Committing"@
                        },
                        op: OpView::Commit { message: value, amend },
                        after: AfterView::Show,
                    },
                )
            },
            Some(DialogView::Quit { message }) => (closed, EffectView::Quit),
            Some(_) => (closed, EffectView::Nothing),
        }
    }

    /// What a failed operation leads to.
    pub open spec fn op_failed(self, after: AfterView, label: Seq<char>, error: ErrorView) -> WorkspaceView {
        match after {
            AfterView::Show => self.with_message(label, error.details()),
            AfterView::Push { root, has_upstream, remote } => if push_rejected(error) {
                self.with_question(
                    "Force push"@,
                    error.details() + "\n\nForce push (with lease)?"@,
                    ThenView::RunOp {
                        root,
                        label: "Force pushing"@,
                        op: OpView::Push { has_upstream, remote, force: true },
                        after: AfterView::Show,
                    },
                )
            } else {
                self.with_message("Push"@, error.details())
            },
            AfterView::Delete { root, name } => if failed_saying(error, "not fully merged") {
                self.with_question(
                    "Force delete branch"@,
                    "'"@ + name + "' is not fully merged. Delete it anyway?"@,
                    ThenView::RunOp {
                        root,
                        label: "Deleting branch"@,
                        op: OpView::DeleteBranch { name, force: true },
                        after: AfterView::Show,
                    },
                )
            } else {
                self.with_message("Delete branch"@, error.details())
            },
            AfterView::Patch => WorkspaceView {
                staging: StagingView { pending: None, ..self.staging },
                ..self
            }.with_message(label, error.details()),
            AfterView::Rename => self.with_message("Rename stash"@, error.details()),
        }
    }

    /// What an operation that worked leads to: after a patch the diff is loaded again at
    /// once, and after a rename the cursor is on the renamed stash.
    pub open spec fn op_done(self, after: AfterView, store: StoreView) -> (
        WorkspaceView,
        StoreView,
        Option<JobsView>,
    ) {
        match after {
            AfterView::Patch => {
                let waiting = WorkspaceView {
                    staging: StagingView { pending: Some(next_count(self.main.loads)), ..self.staging },
                    ..self
                };
                match self.main.key {
                    Some(key) => (
                        waiting.load_started(store),
                        store,
                        Some(JobsView { detail: None, load: waiting.started_load(key, store) }),
                    ),
                    None => (waiting, store, None),
                }
            },
            AfterView::Rename => {
                let (w, s, jobs) = self.with_cursor(PaneView::Stash, 0).synced(store);
                (w, s, Some(jobs))
            },
            _ => (self, store, None),
        }
    }
}

/// Where the UI starts.
pub open spec fn first_state() -> WorkspaceView {
    WorkspaceView {
        focused: Panel::Repos,
        last_side: Panel::Repos,
        tabs: Tabs { files: 0, branches: 0, commits: 0 },
        lists: Seq::new(VIEWS as nat, |i: int| 0usize),
        filters: Seq::new(VIEWS as nat, |i: int| None),
        filter: None,
        screen_mode: ScreenMode::Normal,
        show_command_log: true,
        main: MainView {
            key: None,
            generation: 0,
            title: Seq::empty(),
            content: crate::ui::main_view::ContentView::Overview,
            loaded: None,
            loads: 0,
        },
        staging: not_staging(),
        dialog: None,
        spinner: 0,
        marked: Seq::empty(),
        last_batch: 0,
    }
}

impl Workspace {
    /// Where the UI starts.
    pub fn new() -> (r: Workspace)
        ensures
            r@ == first_state(),
            r@.wf(),
    {
        let mut lists: Vec<usize> = Vec::new();
        let mut filters: Vec<Option<String>> = Vec::new();
        let mut i: usize = 0;
        while i < VIEWS
            invariant
                i <= VIEWS,
                lists@ == Seq::new(i as nat, |j: int| 0usize),
                filters@ == Seq::new(i as nat, |j: int| None::<String>),
            decreases VIEWS - i,
        {
            lists.push(0);
            filters.push(None);
            assert(lists@ =~= Seq::new((i + 1) as nat, |j: int| 0usize));
            assert(filters@ =~= Seq::new((i + 1) as nat, |j: int| None::<String>));
            i = i + 1;
        }
        proof {
            reveal_strlit("");
            assert(""@ =~= Seq::<char>::empty());
        }
        let r = Workspace {
            focused: Panel::Repos,
            last_side: Panel::Repos,
            tabs: Tabs { files: 0, branches: 0, commits: 0 },
            lists,
            filters,
            filter: None,
            screen_mode: ScreenMode::Normal,
            show_command_log: true,
            main: MainState {
                key: None,
                generation: 0,
                title: "",
                content: MainContent::Overview,
                loaded: None,
                loads: 0,
            },
            staging: Staging::default(),
            dialog: None,
            spinner: 0,
            marked: Vec::new(),
            last_batch: 0,
        };
        assert(r@.lists =~= first_state().lists);
        assert(r@.filters =~= first_state().filters);
        assert(r@.marked =~= first_state().marked);
        r
    }

    /// Advances the spinner, while anything is busy. Says whether it did.
    pub fn tick(&mut self, store: &RepoStore) -> (r: bool)
        ensures
            r == (store@.scanning || store@.fetch_round is Some || busy_lines(store@.repos).len() > 0),
            final(self)@ == (if r {
                WorkspaceView {
                    spinner: if old(self)@.spinner == usize::MAX {
                        0
                    } else {
                        (old(self)@.spinner + 1) as usize
                    },
                    ..old(self)@
                }
            } else {
                old(self)@
            }),
    {
        let busy = busy_repos(store);
        assert(texts(busy@).len() == busy@.len());
        if store.scanning || store.fetch_round.is_some() || busy.len() > 0 {
            self.spinner = if self.spinner == usize::MAX {
                0
            } else {
                self.spinner + 1
            };
            true
        } else {
            false
        }
    }

    /// Quits, or asks first.
    pub fn request_quit(&mut self, confirm: bool, store: &RepoStore) -> (r: Effect)
        ensures
            (final(self)@, r@) == old(self)@.quit_asked(confirm, store@),
    {
        let busy = busy_repos(store);
        assert(texts(busy@).len() == busy@.len());
        if busy.len() == 0 && !confirm {
            return Effect::Quit;
        }
        self.open_dialog(Dialog::Quit { message: quit_question(&busy) });
        Effect::Nothing
    }

    /// `q`: asks first (unless `confirm_quit = false` and nothing is running).
    pub fn quit(&mut self, store: &RepoStore) -> (r: Effect)
        ensures
            (final(self)@, r@) == old(self)@.quit_asked(store@.config.confirm_quit, store@),
    {
        self.request_quit(store.config.confirm_quit, store)
    }

    /// `cmd-q`: quits at once unless git is still running, like other macOS apps. A second
    /// one doesn't ask again.
    pub fn quit_app(&mut self, store: &RepoStore) -> (r: Effect)
        ensures
            (final(self)@, r@) == old(self)@.app_quit_asked(store@),
    {
        if let Some(Dialog::Quit { .. }) = &self.dialog {
            return Effect::Quit;
        }
        self.request_quit(false, store)
    }

    /// `?`: lists the keys.
    pub fn toggle_help(&mut self)
        ensures
            final(self)@ == (WorkspaceView { dialog: Some(DialogView::Help), ..old(self)@ }),
    {
        self.open_dialog(Dialog::Help);
    }

    /// `esc` in a popup, or in the filter prompt, where it clears the filter.
    pub fn close_dialog(&mut self, store: &mut RepoStore) -> (r: Option<Jobs>)
        requires
            old(self)@.wf(),
        ensures
            (final(self)@, final(store)@, jobs_opt(r)) == old(self)@.dialog_closed(old(store)@),
            final(self)@.wf(),
    {
        if self.dialog.is_some() {
            self.dialog = None;
            return None;
        }
        match self.filter {
            Some(view) => {
                self.filter = None;
                let ghost before = self.filters@;
                self.filters[view.index()] = None;
                assert(filter_views(self.filters@) =~= filter_views(before).update(view.place(), None));
                Some(self.after_change(store))
            },
            None => None,
        }
    }

    /// Takes an answer.
    fn answer(&mut self, asked: Asked, value: String, store: &RepoStore) -> (r: Effect)
        requires
            old(self)@.wf(),
        ensures
            (final(self)@, r@) == old(self)@.answered(asked@, value@, store@),
            final(self)@.wf(),
    {
        let bad = cat3("'", value.as_str(), "' is not a valid branch name.");
        match asked {
            Asked::CheckoutIn { targets } => {
                if is_valid_branch_name(value.as_str()) {
                    self.run_batch(Batch::Checkout(value), &targets, store)
                } else {
                    self.show_message("Check out", bad);
                    Effect::Nothing
                }
            },
            Asked::BranchIn { targets } => {
                if is_valid_branch_name(value.as_str()) {
                    self.run_batch(Batch::NewBranch(value), &targets, store)
                } else {
                    self.show_message("New branch", bad);
                    Effect::Nothing
                }
            },
            Asked::NewBranch { root, start } => Effect::Run {
                root,
                label: "Creating branch",
                op: Op::NewBranch { name: value, start },
                after: After::Show,
            },
            Asked::SetUpstream { branch } => self.op(
                store,
                "Setting upstream",
                Op::SetUpstream { branch, upstream: value },
            ),
            Asked::RenameStash { root, stash } => Effect::Rename { root, stash, message: value },
            Asked::StashBranch { root, index } => {
                if is_valid_branch_name(value.as_str()) {
                    Effect::Run {
                        root,
                        label: "Creating branch",
                        op: Op::StashBranch { index, name: value },
                        after: After::Show,
                    }
                } else {
                    self.show_message("New branch", bad);
                    Effect::Nothing
                }
            },
            Asked::Stash { root, kind } => Effect::Run {
                root,
                label: "Stashing",
                op: Op::Stash { kind, message: value },
                after: After::Show,
            },
        }
    }

    /// `enter` in a popup, with what was typed there; in the filter prompt it keeps the
    /// filter and returns to the list.
    pub fn confirm_dialog(&mut self, typed: &str, store: &RepoStore) -> (r: Effect)
        requires
            old(self)@.wf(),
        ensures
            (final(self)@, r@) == old(self)@.dialog_confirmed(typed@, store@),
            final(self)@.wf(),
    {
        let chars = chars_of(typed);
        let value = string_of(trimmed(chars.as_slice()));
        let dialog = match self.dialog.take() {
            None => {
                self.filter = None;
                return Effect::Nothing;
            },
            Some(dialog) => dialog,
        };
        match dialog {
            Dialog::Confirm { title: _, message: _, next } => match next {
                Then::RunBatch { batch, targets } => self.run_batch(batch, &targets, store),
                Then::RunOp { root, label, op, after } => Effect::Run { root, label, op, after },
                Then::ApplyPatch { patch, action } => self.apply_built(patch, action, store),
            },
            Dialog::Prompt { title: _, initial: _, placeholder: _, allow_empty, asked } => {
                if allow_empty || !value.as_str().is_empty() {
                    self.answer(asked, value, store)
                } else {
                    Effect::Nothing
                }
            },
            Dialog::Menu { title: _, items, selected } => {
                if selected < items.len() {
                    self.stash(items[selected].kind, store);
                }
                Effect::Nothing
            },
            Dialog::Commit { amend, root, message } => {
                if value.as_str().is_empty() {
                    // Keep the dialog open; an empty message would abort the commit.
                    self.dialog = Some(Dialog::Commit { amend, root, message });
                    return Effect::Nothing;
                }
                let label = if amend {
                    "Amending"
                } else {
                    "Committing"
                };
                Effect::Run { root, label, op: Op::Commit { message: value, amend }, after: After::Show }
            },
            Dialog::Quit { .. } => Effect::Quit,
            _ => Effect::Nothing,
        }
    }

    /// Runs a menu item picked by its key or a click.
    pub fn pick_menu_item(&mut self, ix: usize, store: &RepoStore) -> (r: Effect)
        requires
            old(self)@.wf(),
        ensures
            (final(self)@, r@) == old(self)@.item_picked(ix as int, store@),
            final(self)@.wf(),
    {
        proof {
            reveal_strlit("");
            assert(""@ =~= Seq::<char>::empty());
        }
        if let Some(Dialog::Menu { title: _, items: _, selected }) = &mut self.dialog {
            *selected = ix;
        } else {
            return Effect::Nothing;
        }
        self.confirm_dialog("", store)
    }

    /// The menu item whose own key was pressed, like lazygit's menus.
    pub fn menu_item_for(&self, key: &str) -> (r: Option<usize>)
        ensures
            match r {
                Some(ix) => item_for(self@.dialog, key@) == Some(ix as int),
                None => item_for(self@.dialog, key@) is None,
            },
    {
        if let Some(Dialog::Menu { title: _, items, selected: _ }) = &self.dialog {
            let mut i: usize = 0;
            assert(items@.take(0) =~= Seq::<MenuItem>::empty());
            while i < items.len()
                invariant
                    i <= items@.len(),
                    item_for(self@.dialog, key@) == first_with_key(items@, key@),
                    first_with_key(items@.take(i as int), key@) is None,
                decreases items@.len() - i,
            {
                let ghost next = items@.take(i + 1);
                assert(next.drop_last() =~= items@.take(i as int));
                assert(next.last() == items@[i as int]);
                if same_str(items[i].key, key) {
                    proof {
                        lemma_first_with_key(items@, key@, i + 1);
                    }
                    return Some(i);
                }
                i = i + 1;
            }
            assert(items@.take(items@.len() as int) =~= items@);
        }
        None
    }

    /// Shows a failure of git.
    pub fn show_error(&mut self, title: &str, error: &GitError)
        ensures
            final(self)@ == old(self)@.with_message(title@, error@.details()),
    {
        let details = error.details();
        self.show_message(title, details);
    }

    /// An operation failed.
    pub fn fail_op(&mut self, after: After, label: &str, error: &GitError)
        requires
            old(self)@.wf(),
        ensures
            final(self)@ == old(self)@.op_failed(after@, label@, error@),
            final(self)@.wf(),
    {
        match after {
            After::Show => {
                self.show_error(label, error);
            },
            After::Push { root, has_upstream, remote } => {
                if is_push_rejected(error) {
                    let details = error.details();
                    let message = cat2(details.as_str(), "\n\nForce push (with lease)?");
                    let next = Then::RunOp {
                        root,
                        label: "Force pushing",
                        op: Op::Push { has_upstream, remote, force: true },
                        after: After::Show,
                    };
                    self.confirm("Force push", message, next);
                } else {
                    self.show_error("Push", error);
                }
            },
            After::Delete { root, name } => {
                if is_not_fully_merged(error) {
                    let message = cat3("'", name.as_str(), "' is not fully merged. Delete it anyway?");
                    let next = Then::RunOp {
                        root,
                        label: "Deleting branch",
                        op: Op::DeleteBranch { name, force: true },
                        after: After::Show,
                    };
                    self.confirm("Force delete branch", message, next);
                } else {
                    self.show_error("Delete branch", error);
                }
            },
            After::Patch => {
                self.staging.pending = None;
                self.show_error(label, error);
            },
            After::Rename => {
                self.show_error("Rename stash", error);
            },
        }
    }

    /// An operation worked.
    pub fn finish_op(&mut self, after: &After, store: &mut RepoStore) -> (r: Option<Jobs>)
        requires
            old(self)@.wf(),
        ensures
            (final(self)@, final(store)@, jobs_opt(r)) == old(self)@.op_done(after@, old(store)@),
            final(self)@.wf(),
    {
        match after {
            After::Patch => {
                self.staging.pending = Some(count_up(self.main.loads));
                match &self.main.key {
                    Some(key) => {
                        let key = key.clone();
                        let load = self.start_load(&key, store);
                        Some(Jobs { detail: None, load })
                    },
                    None => None,
                }
            },
            After::Rename => {
                self.lists[PaneView::Stash.index()] = 0;
                Some(self.after_change(store))
            },
            _ => None,
        }
    }
}

/// A push is forced only after the remote rejected an ordinary one and the user confirmed:
/// a rejection leads to a question, and no other failure leads to a forced push.
pub proof fn law_force_pushes_are_confirmed(
    w: WorkspaceView,
    after: AfterView,
    label: Seq<char>,
    error: ErrorView,
)
    ensures
        w.op_failed(after, label, error).dialog is Some,
        w.op_failed(after, label, error).dialog->0 matches DialogView::Confirm { title, message, next }
            ==> (after is Push && push_rejected(error)) || after is Delete,
        after is Push && !push_rejected(error) ==> w.op_failed(after, label, error).dialog->0 is Error,
{
}

/// While git is running somewhere, nothing quits without being asked.
pub proof fn law_running_git_is_asked_about(w: WorkspaceView, confirm: bool, store: StoreView)
    requires
        busy_lines(store.repos).len() > 0,
    ensures
        w.quit_asked(confirm, store).1 is Nothing,
        w.quit_asked(confirm, store).0.dialog is Some,
{
}

/// A patch that was applied holds back the next one until its own result is loaded: while
/// it waits there is nothing to apply, and it waits for a load that starts later than every
/// load so far.
pub proof fn law_stale_diffs_are_not_staged(
    w: WorkspaceView,
    store: StoreView,
    action: PatchAction,
    patch: Seq<u8>,
    id: u64,
)
    ensures
        w.staging.pending is Some ==> w.built(action) is Nothing,
        w.selected_root(store) is Some ==> w.patch_applied(patch, action, store).0.staging.pending is Some,
        w.main.loads < u64::MAX && id <= w.main.loads ==> (w.op_done(
            AfterView::Patch,
            store,
        ).0.staging.pending matches Some(first) && id < first),
{
}

} // verus!
