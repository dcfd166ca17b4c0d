//! The keyboard-driven view of the repos.

use ubergit::config::Config;
use ubergit::detail::{to_lines, RepoDetail};
use ubergit::discovery::Candidate;
use ubergit::git::{CmdKind, CommandRecord, GitError, GitOutput};
use ubergit::model::{
    BaseDivergence, Branch, ChangeCounts, Commit, DefaultBranch, FileEntry, FileKind, Head, RepoLocation, RepoSummary,
    StashEntry, Upstream,
};
use ubergit::ops::StashKind;
use ubergit::path::FsPath;
use ubergit::store::{Found, RepoStore};
use ubergit::text::json::number_in_json;
use ubergit::ui::automation::{run, Step};
use ubergit::ui::bars::{command_log, hints, info, Shown};
use ubergit::ui::dialog::{After, Dialog, Effect, MenuItem};
use ubergit::ui::dialog_text::{help_body, menu_row, results_body};
use ubergit::ui::dispatch::Reaction;
use ubergit::ui::keymap::{display_key, help, key_bindings, Action};
use ubergit::ui::line::{age, truncate, truncate_left, Line, Style};
use ubergit::ui::lists::{Highlight, ListBody};
use ubergit::ui::main_view::{finish_diff, finish_text, load_main, DiffHalf, LoadStep, MainContent, MainKey, TextKind};
use ubergit::ui::moves::Motion;
use ubergit::ui::op::Op;
use ubergit::ui::overview::{overview_header, status_line};
use ubergit::ui::panel::{PaneView, Panel, ScreenMode};
use ubergit::ui::spans::{arrows, author_color, compact_refs, diff_line, health, initials, log_line, short_base};
use ubergit::ui::state::{
    state_path, window_placement, Placement, SavedLayout, SavedWindow, UiState, WindowMode, WorkdirState, VERSION,
};
use ubergit::ui::theme::{Palette, CYAN, GREEN, RED};
use ubergit::ui::workspace::{matching, Tabs, Workspace};
use ubergit::batch::{Batch, BatchRow, Outcome};

fn path(text: &str) -> FsPath {
    FsPath::new(text)
}

fn strings(list: &[&str]) -> Vec<String> {
    list.iter().map(|s| s.to_string()).collect()
}

fn text(line: &Line) -> String {
    line.spans.iter().map(|s| s.text.as_str()).collect()
}

fn location(name: &str) -> RepoLocation {
    RepoLocation {
        root: path(&format!("/w/{name}")),
        name: name.into(),
        git_dir: path(&format!("/w/{name}/.git")),
        common_dir: path(&format!("/w/{name}/.git")),
        bare: false,
    }
}

fn clean() -> ChangeCounts {
    ChangeCounts { files: 0, staged: 0, unstaged: 0, untracked: 0, conflicted: 0 }
}

fn summary(ahead: u32, behind: u32) -> RepoSummary {
    RepoSummary {
        head: Head::Branch("main".into()),
        upstream: Upstream::Tracking { name: "origin/main".into(), ahead, behind },
        base: Some(BaseDivergence { base: "origin/main".into(), ahead, behind }),
        changes: clean(),
        stash_count: 0,
        op: None,
        last_fetch: None,
        remotes: vec!["origin".into()],
        default_branch: Some(DefaultBranch {
            full_ref: "refs/remotes/origin/main".into(),
            short: "origin/main".into(),
        }),
        shallow: false,
    }
}

fn file(path: &str, index: char, worktree: char, kind: FileKind) -> FileEntry {
    FileEntry { path: path.into(), orig_path: None, index, worktree, kind }
}

fn branch(name: &str, is_head: bool) -> Branch {
    Branch {
        name: name.into(),
        is_head,
        short_oid: "1a2b3c4".into(),
        upstream: Upstream::Unset,
        base: None,
        committed: None,
        subject: "init".into(),
        worktree: None,
    }
}

fn detail() -> RepoDetail {
    RepoDetail {
        files: vec![file("f.txt", '.', 'M', FileKind::Ordinary), file("new.txt", '?', '?', FileKind::Untracked)],
        worktrees: Vec::new(),
        submodules: Vec::new(),
        branches: vec![branch("main", true), branch("feature", false)],
        remotes: Vec::new(),
        remote_branches: Vec::new(),
        tags: Vec::new(),
        commits: vec![Commit {
            oid: "1a2b3c4d5e6f".into(),
            short_oid: "1a2b3c4".into(),
            author: "Ada Lovelace".into(),
            time: Some(0),
            subject: "init".into(),
            refs: "HEAD -> main, origin/main".into(),
        }],
        reflog: Vec::new(),
        stashes: vec![StashEntry { index: 0, subject: "On main: wip".into(), time: None }],
    }
}

/// Repos with those names, the first one selected and its panels loaded.
fn start(names: &[&str]) -> (Workspace, RepoStore) {
    let mut store = RepoStore::new(path("/w"), Config::default());
    let found: Vec<Found> = names
        .iter()
        .map(|name| Found {
            candidate: Candidate { root: path(&format!("/w/{name}")), bare: false },
            resolved: Ok(location(name)),
        })
        .collect();
    store.apply_scan(&found);
    for name in names {
        store.finish_refresh(&path(&format!("/w/{name}")), Ok(summary(0, 0)));
    }
    let mut workspace = Workspace::new();
    workspace.on_store_changed(&mut store);
    if let Some(root) = store.selected.clone() {
        store.finish_detail(&root, Ok(detail()));
        workspace.on_store_changed(&mut store);
    }
    (workspace, store)
}

fn press(workspace: &mut Workspace, store: &mut RepoStore, action: Action) -> Reaction {
    workspace.act(action, 10, 20, "", store)
}

// ---- keys ------------------------------------------------------------------------------------

#[test]
fn a_key_does_one_thing_in_a_context() {
    let keys = key_bindings();
    for (i, a) in keys.iter().enumerate() {
        for b in &keys[i + 1..] {
            assert!(a.key != b.key || a.context != b.context, "{} in {}", a.key, a.context);
        }
    }
    assert_eq!(help().len(), keys.len());
}

#[test]
fn keys_of_the_lists_and_panels() {
    let keys = key_bindings();
    let action = |key: &str, context: &str| {
        keys.iter().find(|b| b.key == key && b.context == context).map(|b| b.action)
    };
    assert_eq!(action("q", "Panels"), Some(Action::Quit));
    assert_eq!(action("space", "Repos"), Some(Action::ToggleMark));
    assert_eq!(action("m", "Repos"), Some(Action::SwitchToDefault));
    assert_eq!(action("space", "Files"), Some(Action::ToggleStage));
    assert_eq!(action("v", "Staging"), Some(Action::ToggleRangeSelect));
    assert_eq!(action("r", "Stash"), Some(Action::RenameStash));
    assert_eq!(action("nope", "Panels"), None);
}

#[test]
fn key_labels() {
    assert_eq!(display_key("shift-j"), "J");
    assert_eq!(display_key("ctrl-r"), "<c-r>");
    assert_eq!(display_key("space"), "<space>");
    assert_eq!(display_key("x"), "x");
    assert_eq!(display_key("shift-up"), "shift-up");
}

#[test]
fn scripts() {
    assert_eq!(
        run("wait 2000; keys j 2;shot /tmp/a.png; type aB c; wait; wheel 1 2 3; nope x; quit"),
        vec![
            Step::Wait(2000),
            Step::Keys(strings(&["j", "2"])),
            Step::Shot("/tmp/a.png".into()),
            Step::Type(strings(&["a", "shift-b", "space", "c"])),
            Step::Wait(500),
            Step::Wheel(strings(&["1", "2", "3"])),
            Step::Unknown("nope".into()),
            Step::Quit,
        ]
    );
}

// ---- moving ----------------------------------------------------------------------------------

#[test]
fn panels_go_round() {
    let mut panel = Panel::Repos;
    for _ in 0..6 {
        assert_eq!(panel.next().prev(), panel);
        panel = panel.next();
    }
    assert_eq!(panel, Panel::Repos);
    assert_eq!(Panel::Files.jump_key(), "2");
    assert_eq!(Panel::Branches.tabs(), ["Local branches", "Remotes", "Tags"]);
    assert_eq!(ScreenMode::Normal.next().next().next(), ScreenMode::Normal);
    assert_eq!(ScreenMode::Normal.next().prev(), ScreenMode::Normal);
}

#[test]
fn the_selection_drives_the_panels() {
    let (mut w, mut store) = start(&["a", "b"]);
    assert_eq!(store.selected, Some(path("/w/a")));
    assert_eq!(w.desired_main(&store).0, MainKey::Overview);
    match press(&mut w, &mut store, Action::SelectNext) {
        Reaction::Motion(Motion::Selected(jobs)) => assert_eq!(jobs.detail.unwrap().location, location("b")),
        _ => panic!("selects"),
    }
    assert_eq!(store.selected, Some(path("/w/b")));
    press(&mut w, &mut store, Action::SelectNext);
    assert_eq!(w.selected_root(&store), Some(path("/w/b")), "the list ends there");
    press(&mut w, &mut store, Action::SelectFirst);
    assert_eq!(w.selected_root(&store), Some(path("/w/a")));
}

#[test]
fn enter_and_back() {
    let (mut w, mut store) = start(&["a"]);
    press(&mut w, &mut store, Action::Enter);
    assert_eq!(w.focused, Panel::Files);
    assert_eq!(w.current_view(), PaneView::Files);
    press(&mut w, &mut store, Action::NextTab);
    assert_eq!(w.current_view(), PaneView::Worktrees);
    press(&mut w, &mut store, Action::PrevTab);
    press(&mut w, &mut store, Action::FocusStash);
    assert_eq!(w.current_view(), PaneView::Stash);
    press(&mut w, &mut store, Action::FocusMain);
    assert_eq!(w.main_source(), Panel::Stash);
    press(&mut w, &mut store, Action::Back);
    assert_eq!(w.focused, Panel::Stash);
}

#[test]
fn filters_keep_matching_items() {
    assert_eq!(matching(&strings(&["api", "billing", "web"]), "b"), [1, 2]);
    let (mut w, mut store) = start(&["Api", "billing", "web"]);
    match press(&mut w, &mut store, Action::StartFilter) {
        Reaction::Filter(text) => assert_eq!(text, ""),
        _ => panic!("filters"),
    }
    w.type_filter(PaneView::Repos, "API", &mut store);
    assert_eq!(w.visible(PaneView::Repos, &store), [0]);
    assert_eq!(
        text(&w.panel_title(Panel::Repos)),
        format!("[{}]─Repos (filter: API)", Panel::Repos.jump_key())
    );
    w.filter = None;
    press(&mut w, &mut store, Action::Back);
    assert_eq!(w.visible(PaneView::Repos, &store), [0, 1, 2]);
}

#[test]
fn screen_modes() {
    let (mut w, mut store) = start(&["a"]);
    assert_eq!(w.shown(), Shown::Columns { log: true });
    press(&mut w, &mut store, Action::ToggleCommandLog);
    assert_eq!(w.shown(), Shown::Columns { log: false });
    press(&mut w, &mut store, Action::NextScreenMode);
    assert_eq!(w.shown(), Shown::SideAndMain { side: Panel::Repos });
    press(&mut w, &mut store, Action::NextScreenMode);
    assert_eq!(w.shown(), Shown::OnlySide { side: Panel::Repos });
    press(&mut w, &mut store, Action::FocusMain);
    assert_eq!(w.shown(), Shown::OnlyMain);
}

#[test]
fn scrolling_the_main_view() {
    let (mut w, mut store) = start(&["a"]);
    let mut lines = |action| match press(&mut w, &mut store, action) {
        Reaction::Motion(Motion::ScrollMain(lines)) => lines,
        _ => panic!("scrolls"),
    };
    assert_eq!(lines(Action::ScrollMainDown), 3);
    assert_eq!(lines(Action::ScrollMainUp), -3);
    assert_eq!(lines(Action::HalfPageMainDown), 10);
    assert_eq!(lines(Action::HalfPageMainUp), -10);
}

#[test]
fn refreshing_scans_and_loads() {
    let (mut w, mut store) = start(&["a"]);
    match press(&mut w, &mut store, Action::Refresh) {
        Reaction::Refresh { scan, detail } => assert!(scan && detail.is_some()),
        _ => panic!("refreshes"),
    }
    match press(&mut w, &mut store, Action::Refresh) {
        Reaction::Refresh { scan, detail } => assert!(!scan && detail.is_none()),
        _ => panic!("refreshes"),
    }
}

// ---- acting on repos -------------------------------------------------------------------------

#[test]
fn marks() {
    let (mut w, mut store) = start(&["a", "b", "c"]);
    assert_eq!(w.targets(&store), vec![path("/w/a")]);
    press(&mut w, &mut store, Action::ToggleMark);
    press(&mut w, &mut store, Action::SelectLast);
    press(&mut w, &mut store, Action::ToggleMark);
    assert_eq!(w.targets(&store), vec![path("/w/a"), path("/w/c")]);
    assert_eq!(w.describe_targets(&w.targets(&store), &store), "2 repos");
    press(&mut w, &mut store, Action::ToggleMark);
    assert_eq!(w.marked, vec![path("/w/a")]);
    press(&mut w, &mut store, Action::ToggleMarkAll);
    assert_eq!(w.marked.len(), 3);
    press(&mut w, &mut store, Action::ToggleMarkAll);
    assert!(w.marked.is_empty());
    w.toggle_mark_at(1, &store);
    assert_eq!(w.marked, vec![path("/w/b")]);
    press(&mut w, &mut store, Action::Back);
    assert!(w.marked.is_empty());
}

#[test]
fn pushing_marked_repos_asks_first() {
    let (mut w, mut store) = start(&["a", "b"]);
    press(&mut w, &mut store, Action::ToggleMarkAll);
    assert!(matches!(press(&mut w, &mut store, Action::Push), Reaction::Effect(Effect::Nothing)));
    assert!(matches!(w.dialog, Some(Dialog::Confirm { .. })));
    match press(&mut w, &mut store, Action::ConfirmDialog) {
        Reaction::Effect(Effect::Nothing) | Reaction::Effect(Effect::RunBatch { .. }) => {}
        _ => panic!("runs the batch"),
    }
    assert!(matches!(w.dialog, Some(Dialog::Results { .. })));
}

#[test]
fn a_rejected_push_can_be_forced() {
    let (mut w, mut store) = start(&["a"]);
    let after = match press(&mut w, &mut store, Action::Push) {
        Reaction::Effect(Effect::Run { op: Op::Push { force, .. }, after, .. }) => {
            assert!(!force);
            after
        }
        _ => panic!("pushes"),
    };
    assert!(matches!(after, After::Push { .. }));
    let rejected = GitError::Failed {
        command: "git push".into(),
        code: Some(1),
        stderr: " ! [rejected]        main -> main (non-fast-forward)".into(),
        stdout: String::new(),
    };
    w.fail_op(after, "Pushing", &rejected);
    assert!(matches!(w.dialog, Some(Dialog::Confirm { .. })));
    match press(&mut w, &mut store, Action::ConfirmDialog) {
        Reaction::Effect(Effect::Run { op: Op::Push { force, .. }, .. }) => assert!(force),
        _ => panic!("pushes"),
    }
}

#[test]
fn batches_fill_in_their_results() {
    let (mut w, store) = start(&["a", "b"]);
    let targets = vec![path("/w/a"), path("/w/b")];
    let (id, jobs) = match w.run_batch(Batch::Checkout("x".into()), &targets, &store) {
        Effect::RunBatch { id, jobs, single, .. } => {
            assert!(!single);
            (id, jobs)
        }
        other => panic!("{other:?}"),
    };
    assert_eq!(jobs.len(), 2);
    w.finish_batch_job(id, "Check out x", false, jobs[1].row, "b", Outcome::Done("switched to x".into()));
    match &w.dialog {
        Some(Dialog::Results { rows, .. }) => {
            assert_eq!(rows[0].outcome, Outcome::Pending);
            assert_eq!(rows[1].outcome, Outcome::Done("switched to x".into()));
        }
        other => panic!("{other:?}"),
    }
    // The popup of another action stays as it is.
    w.finish_batch_job(id + 1, "Pull", false, 0, "a", Outcome::Failed("no".into()));
    match &w.dialog {
        Some(Dialog::Results { rows, .. }) => assert_eq!(rows[0].outcome, Outcome::Pending),
        other => panic!("{other:?}"),
    }
}

#[test]
fn new_branches_need_a_valid_name() {
    let (mut w, mut store) = start(&["a"]);
    press(&mut w, &mut store, Action::NewBranchInRepos);
    assert!(matches!(w.dialog, Some(Dialog::Prompt { allow_empty: false, .. })));
    w.act(Action::ConfirmDialog, 10, 20, "a b", &mut store);
    match &w.dialog {
        Some(Dialog::Error { message, .. }) => assert_eq!(message, "'a b' is not a valid branch name."),
        other => panic!("{other:?}"),
    }
    press(&mut w, &mut store, Action::CloseDialog);
    assert!(w.dialog.is_none());
}

#[test]
fn quitting_asks() {
    let (mut w, mut store) = start(&["a"]);
    assert!(matches!(press(&mut w, &mut store, Action::QuitApp), Reaction::Effect(Effect::Quit)));
    assert!(matches!(press(&mut w, &mut store, Action::Quit), Reaction::Effect(Effect::Nothing)));
    match &w.dialog {
        Some(Dialog::Quit { message }) => assert_eq!(message, "Quit ubergit?"),
        other => panic!("{other:?}"),
    }
    assert!(matches!(press(&mut w, &mut store, Action::ConfirmDialog), Reaction::Effect(Effect::Quit)));
    press(&mut w, &mut store, Action::CloseDialog);
    store.run_op(&path("/w/a"), "Pulling").unwrap();
    assert!(matches!(press(&mut w, &mut store, Action::QuitApp), Reaction::Effect(Effect::Nothing)));
    match &w.dialog {
        Some(Dialog::Quit { message }) => assert!(message.contains("Git is still running"), "{message}"),
        other => panic!("{other:?}"),
    }
}

// ---- files, branches, stashes ----------------------------------------------------------------

#[test]
fn files_are_staged_and_discarded() {
    let (mut w, mut store) = start(&["a"]);
    press(&mut w, &mut store, Action::FocusFiles);
    match press(&mut w, &mut store, Action::ToggleStage) {
        Reaction::Effect(Effect::Run { op: Op::ToggleStage { file, .. }, .. }) => assert_eq!(file.path, "f.txt"),
        _ => panic!("stages"),
    }
    press(&mut w, &mut store, Action::SelectNext);
    press(&mut w, &mut store, Action::Discard);
    match &w.dialog {
        Some(Dialog::Confirm { message, .. }) => assert_eq!(message, "Delete untracked file new.txt?"),
        other => panic!("{other:?}"),
    }
    match press(&mut w, &mut store, Action::ConfirmDialog) {
        Reaction::Effect(Effect::Run { op, root, .. }) => {
            assert!(op.command(&location("a")).unwrap().display_args().contains("new.txt"));
            assert_eq!(root, path("/w/a"));
        }
        _ => panic!("discards"),
    }
}

#[test]
fn stash_menu() {
    let (mut w, mut store) = start(&["a"]);
    press(&mut w, &mut store, Action::StashOptions);
    let keys: Vec<&str> = match &w.dialog {
        Some(Dialog::Menu { items, .. }) => items.iter().map(|i| i.key).collect(),
        other => panic!("{other:?}"),
    };
    assert!(keys.len() >= 4);
    assert_eq!(w.menu_item_for(keys[1]), Some(1));
    assert_eq!(w.menu_item_for("nope"), None);
    assert!(w.menu_key_down(keys[0], true, &store).is_none());
    assert!(w.menu_key_down(keys[0], false, &store).is_some());
    assert!(matches!(w.dialog, Some(Dialog::Prompt { allow_empty: true, .. })));
    match w.act(Action::ConfirmDialog, 10, 20, "", &mut store) {
        Reaction::Effect(Effect::Run { op: Op::Stash { message, .. }, .. }) => assert_eq!(message, ""),
        _ => panic!("stashes"),
    }
    let item = MenuItem::new("a", "Stash all", StashKind::All);
    assert_eq!(text(&menu_row(&item)), "a  Stash all");
}

#[test]
fn branches_are_checked_out() {
    let (mut w, mut store) = start(&["a"]);
    press(&mut w, &mut store, Action::FocusBranches);
    press(&mut w, &mut store, Action::SelectNext);
    match press(&mut w, &mut store, Action::Checkout) {
        Reaction::Effect(Effect::Run { op: Op::Checkout { name }, .. }) => assert_eq!(name, "feature"),
        _ => panic!("checks out"),
    }
    press(&mut w, &mut store, Action::DeleteBranch);
    match press(&mut w, &mut store, Action::ConfirmDialog) {
        Reaction::Effect(Effect::Run { op: Op::DeleteBranch { name, force }, .. }) => {
            assert_eq!((name.as_str(), force), ("feature", false));
        }
        _ => panic!("deletes"),
    }
}

const DIFF: &str = "\
diff --git a/f.txt b/f.txt
index 1111111..2222222 100644
--- a/f.txt
+++ b/f.txt
@@ -1,3 +1,4 @@
 one
-two
+TWO
 three
+four
";

#[test]
fn lines_are_staged() {
    let (mut w, mut store) = start(&["a"]);
    press(&mut w, &mut store, Action::FocusFiles);
    let load = w.start_load(&w.desired_main(&store).0, &store).unwrap();
    assert_eq!(load.key, MainKey::Diff { root: path("/w/a"), path: "f.txt".into() });
    match load_main(&load.location, &load.key, load.file) {
        LoadStep::Diff { .. } | LoadStep::Status { .. } => {}
        _ => panic!("a diff is asked for"),
    }
    let diff = Some(Ok(GitOutput { stdout: DIFF.as_bytes().to_vec(), stderr: String::new() }));
    let content = finish_diff(&file("f.txt", '.', 'M', FileKind::Ordinary), diff, None);
    assert!(content.has_changes(false) && !content.has_changes(true));
    w.finish_load(load.id, load.key, content, &store);
    press(&mut w, &mut store, Action::Enter);
    assert_eq!(w.current_view(), PaneView::Staging);
    assert_eq!(w.staging.cursor, 6);
    assert!(w.line_selected(false, 6) && w.line_selected(false, 7) && !w.line_selected(false, 9));
    press(&mut w, &mut store, Action::NextHunk);
    assert_eq!(w.staging.cursor, 9);
    press(&mut w, &mut store, Action::PrevHunk);
    press(&mut w, &mut store, Action::ToggleSelectHunk);
    assert!(!w.line_selected(false, 7));
    match press(&mut w, &mut store, Action::ToggleStage) {
        Reaction::Effect(Effect::Run { op: Op::Apply { patch, .. }, after, .. }) => {
            let patch = String::from_utf8(patch).unwrap();
            assert!(patch.contains("-two\n") && !patch.contains("+TWO"), "{patch}");
            assert_eq!(after, After::Patch);
        }
        _ => panic!("stages"),
    }
    // Until the diff is loaded again, it is out of date.
    assert!(matches!(press(&mut w, &mut store, Action::ToggleStage), Reaction::Effect(Effect::Nothing)));
}

// ---- lines -----------------------------------------------------------------------------------

#[test]
fn ages() {
    assert_eq!(age(Some(100), 130), "30s");
    assert_eq!(age(Some(0), 3 * 60), "3m");
    assert_eq!(age(Some(0), 2 * 3600), "2h");
    assert_eq!(age(Some(0), 5 * 86_400), "5d");
    assert_eq!(age(Some(50), 10), "0s");
    assert_eq!(age(None, 10), "");
}

#[test]
fn cut_texts() {
    assert_eq!(truncate("billing", 7), "billing");
    assert_eq!(truncate("billing", 4), "bil…");
    assert_eq!(truncate_left("/work/services/billing", 9), "…/billing");
    assert_eq!(short_base("origin/main"), "main");
    assert_eq!(arrows(1, 2), "↓2↑1");
    assert_eq!(arrows(0, 0), "");
}

#[test]
fn health_of_a_repo() {
    assert_eq!(health(&summary(0, 0), false), ("●", Palette::green()));
    assert_eq!(health(&summary(0, 0), true), ("●", Palette::red()));
    assert_eq!(health(&summary(0, 2), false), ("●", Palette::blue()));
    let dirty = RepoSummary { changes: ChangeCounts { files: 1, unstaged: 1, ..clean() }, ..summary(0, 0) };
    assert_eq!(health(&dirty, false), ("●", Palette::yellow()));
}

#[test]
fn diffs_and_logs_are_coloured() {
    for line in ["+a", "-a", "@@ -1 +1 @@", "Author: x", " f | 3 ++-", "* 1a2b3c4 x (HEAD -> main)", ""] {
        assert_eq!(text(&diff_line(line)), line);
        assert_eq!(text(&log_line(line)), line);
    }
    assert_eq!(diff_line("+a").spans[0].style, Style::Color(GREEN));
    assert_eq!(diff_line("-a").spans[0].style, Style::Color(RED));
    assert_eq!(diff_line("@@ x").spans[0].style, Style::Color(CYAN));
}

#[test]
fn authors_and_refs() {
    assert_eq!(initials("ada lovelace"), "AL");
    assert_eq!(author_color("Ada"), author_color("Ada"));
    let refs = compact_refs("HEAD -> main, origin/main, tag: v1", &strings(&["origin"]));
    assert_eq!(refs, "v1");
    assert_eq!(compact_refs("main, fix, up/x", &Vec::new()), "main fix up/x");
}

#[test]
fn rows_of_the_lists() {
    let (mut w, mut store) = start(&["a", "billing"]);
    match w.list_body(Panel::Repos, &store) {
        ListBody::Rows(n) => assert_eq!(n, 2),
        _ => panic!("rows"),
    }
    let (line, highlight) = w.list_row(Panel::Repos, 0, &store, 40, 0).unwrap();
    assert!(text(&line).contains('a') && text(&line).contains("main"), "{}", text(&line));
    assert_eq!(highlight, Highlight::Active);
    let (line, highlight) = w.list_row(Panel::Repos, 1, &store, 40, 0).unwrap();
    assert!(text(&line).contains("billing"));
    assert_eq!(highlight, Highlight::Plain);
    assert!(w.list_row(Panel::Repos, 2, &store, 40, 0).is_none());
    let (_, highlight) = w.list_row(Panel::Files, 0, &store, 40, 0).unwrap();
    assert_eq!(highlight, Highlight::Inactive);
    assert_eq!(w.panel_footer(Panel::Files, &store).as_deref(), Some("1 of 2"));
    let (line, _) = w.list_row(Panel::Commits, 0, &store, 40, 60).unwrap();
    assert!(text(&line).contains("AL") && text(&line).contains("init"), "{}", text(&line));
    assert!(matches!(w.list_body(Panel::Status, &store), ListBody::Status(_)));
    assert!(text(&status_line(&store)).contains("main"));
    press(&mut w, &mut store, Action::FocusFiles);
    press(&mut w, &mut store, Action::NextTab);
    match w.list_body(Panel::Files, &store) {
        ListBody::Message(message) => assert_eq!(message, ""),
        _ => panic!("empty"),
    }
}

#[test]
fn the_overview_lists_every_repo() {
    let (w, store) = start(&["a", "billing"]);
    let width = w.overview_width(&store);
    assert_eq!(width, 7);
    assert_eq!(text(&w.overview_line(&store, 0, 0)), text(&overview_header(width)));
    assert!(text(&w.overview_line(&store, 2, 0)).contains("billing"));
    assert!(w.status_view(&store, 0).iter().any(|l| text(l).contains("origin/main")));
}

#[test]
fn the_bars() {
    let (mut w, mut store) = start(&["a"]);
    assert_eq!(info(&store, Some(&path("/"))), "1 repos · 0 dirty · 0 behind · ~/w");
    assert_eq!(info(&store, None), "1 repos · 0 dirty · 0 behind · /w");
    assert!(hints(PaneView::Files).contains("space"));
    let bar = w.bottom_bar(&store, None).unwrap();
    assert_eq!(text(&bar.activity), "");
    store.scan();
    assert!(text(&w.activity(&store)).starts_with("Scanning /w "));
    store.push_log(CommandRecord {
        cwd: path("/w/a/src"),
        command: "git fetch".into(),
        kind: CmdKind::Network,
        started: 0,
        duration_ms: 1_520,
        error: None,
    });
    assert_eq!(text(&command_log(&store)[0]), "a: git fetch  (1.5s)");
    press(&mut w, &mut store, Action::StartFilter);
    assert!(w.bottom_bar(&store, None).is_none());
    assert!(w.tick(&store));
    assert_eq!(w.spinner, 1);
}

// ---- popups ----------------------------------------------------------------------------------

#[test]
fn popups_say_what_they_are_for() {
    let (mut w, mut store) = start(&["a"]);
    press(&mut w, &mut store, Action::ToggleHelp);
    let dialog = w.dialog.take().unwrap();
    assert_eq!(dialog.heading(PaneView::Repos), "Keybindings (Repos)");
    assert_eq!(dialog.key_context(), "Help");
    assert!(!dialog.has_input());
    assert_eq!(dialog.inner_context(), None);
    w.show_message("Oops", "one\n\ntwo".into());
    let dialog = w.dialog.take().unwrap();
    assert_eq!((dialog.key_context(), dialog.inner_context()), ("Popup", None));
    assert_eq!(dialog.heading(PaneView::Repos), "Oops");
    assert_eq!(dialog.message_lines(), ["one", " ", "two"]);
    assert_eq!(dialog.footer(), "<esc>/<enter>: close");
    let menu = Dialog::Menu { title: "Stash".into(), items: Vec::new(), selected: 0 };
    assert_eq!((menu.key_context(), menu.inner_context()), ("Popup", Some("Menu")));
    let results = Dialog::Results { id: 1, title: "Pull".into(), rows: Vec::new() };
    assert_eq!((results.key_context(), results.inner_context()), ("Popup", Some("Results")));
    let quit = Dialog::Quit { message: "Quit?".into() };
    assert_eq!((quit.key_context(), quit.inner_context()), ("Popup", Some("Quit")));
    w.open_commit(path("/w/a"), true, "msg".into());
    let dialog = w.dialog.take().unwrap();
    assert_eq!(dialog.heading(PaneView::Files), "Amend last commit");
    assert!(dialog.has_input());
}

#[test]
fn results_are_tallied() {
    let row = |name: &str, outcome| BatchRow { name: name.into(), outcome };
    let rows = vec![
        row("a", Outcome::Done("switched to x".into())),
        row("billing", Outcome::Skipped("busy".into())),
        row("c", Outcome::Failed("hint: x\nfatal: no".into())),
    ];
    let (lines, tally) = results_body(&rows, 10, "|");
    assert_eq!(text(&lines[0]), "✓ a        switched to x");
    assert_eq!(text(&lines[2]), "✗ c        no");
    assert_eq!(text(&tally), "1 done · 1 skipped · 1 failed");
    let rows = vec![row("a", Outcome::Pending), row("b", Outcome::Done(String::new()))];
    let (lines, tally) = results_body(&rows, 1, "|");
    assert_eq!(text(&lines[0]), "| a     ");
    assert_eq!(text(&tally), "1 of 2 finished |  (j/k to scroll all 2)");
}

#[test]
fn help_lists_the_view_and_then_all_panels() {
    let lines = help_body(PaneView::Files);
    assert_eq!(text(&lines[0]), "--- Files ---");
    let global = lines.iter().position(|l| text(l) == "--- Global ---").unwrap();
    assert!(lines[..global].iter().any(|l| text(l).starts_with("<space>     ")));
    assert_eq!(text(&lines[global - 1]), "");
    assert_eq!(text(&help_body(PaneView::Main)[0]).starts_with("---"), true);
}

// ---- saved state -----------------------------------------------------------------------------

fn bits(list: &[f32]) -> Vec<u32> {
    list.iter().map(|v| v.to_bits()).collect()
}

fn sample() -> UiState {
    UiState {
        window: Some(SavedWindow {
            x: 40f32.to_bits(),
            y: 60f32.to_bits(),
            width: 1400f32.to_bits(),
            height: 900f32.to_bits(),
            mode: WindowMode::Windowed,
            display: Some("69B0D1A2-0000-0000-0000-000000000000".into()),
        }),
        layout: SavedLayout {
            columns: bits(&[400., 360., 640.]),
            side: bits(&[200., 200., 200., 80.]),
            main: bits(&[600., 200.]),
        },
        screen_mode: ScreenMode::Half,
        show_command_log: false,
        focused: Panel::Main,
        last_side: Panel::Commits,
        tabs: Tabs { files: 0, branches: 2, commits: 1 },
        workdirs: vec![WorkdirState {
            workdir: path("/work/services"),
            selected_repo: Some(path("/work/services/api")),
        }],
        ..UiState::default()
    }
}

#[test]
fn falls_back_to_defaults() {
    let is_default = |s: &UiState| s.version == VERSION && s.screen_mode == ScreenMode::Normal && s.workdirs.is_empty();
    assert!(is_default(&UiState::load(None, Some(sample()))));
    assert!(is_default(&UiState::load(Some(b"{ not json"), Some(sample()))));
    assert!(is_default(&UiState::load(Some(b"{\"version\": 0}"), Some(sample()))));
    assert!(is_default(&UiState::load(Some(b"{\"version\": \"1\"}"), Some(sample()))));
    assert!(is_default(&UiState::load(Some(b"[1]"), Some(sample()))));
    assert!(is_default(&UiState::load(Some(b"{\"version\": 1, \"focused\": \"nowhere\"}"), None)));
    let loaded = UiState::load(Some(b"{\"version\": 1}"), Some(sample()));
    assert_eq!(loaded.screen_mode, ScreenMode::Half);
    assert_eq!(UiState::read(Some(1), Some(sample())).last_side, Panel::Commits);
    assert!(is_default(&UiState::read(None, Some(sample()))));
}

#[test]
fn keeps_other_workdirs() {
    let other = UiState {
        workdirs: vec![WorkdirState { workdir: path("/work/web"), selected_repo: Some(path("/work/web/site")) }],
        ..UiState::default()
    };
    let saved = other.save(sample());
    assert_eq!(saved.workdirs.len(), 2);
    assert_eq!(saved.screen_mode, ScreenMode::Normal);
    assert_eq!(saved.selected_repo(&path("/work/services")), Some(path("/work/services/api")));
    assert_eq!(saved.selected_repo(&path("/work/web")), Some(path("/work/web/site")));
    assert_eq!(saved.selected_repo(&path("/work")), None);
    let again = UiState {
        workdirs: vec![WorkdirState { workdir: path("/work/web/"), selected_repo: None }],
        ..UiState::default()
    };
    let saved = again.save(saved);
    assert_eq!(saved.workdirs.len(), 2);
    assert_eq!(saved.selected_repo(&path("/work/web")), None);
}

#[test]
fn the_layout_survives_restarts() {
    let (mut w, mut store) = start(&["a"]);
    press(&mut w, &mut store, Action::FocusBranches);
    press(&mut w, &mut store, Action::NextTab);
    press(&mut w, &mut store, Action::NextScreenMode);
    let saved = w.saved(None, SavedLayout::default(), &path("/w"), &store.selected);
    assert_eq!(saved.selected_repo(&path("/w")), Some(path("/w/a")));
    let mut fresh = Workspace::new();
    fresh.restore(&saved);
    assert_eq!(fresh.focused, Panel::Branches);
    assert_eq!(fresh.current_view(), PaneView::Remotes);
    assert_eq!(fresh.screen_mode, ScreenMode::Half);
    fresh.restore(&UiState { last_side: Panel::Main, ..UiState::default() });
    assert_eq!(fresh.last_side, Panel::Repos);
}

#[test]
fn windows_open_where_they_were() {
    let window = || sample().window.unwrap();
    let saved = window();
    assert_eq!(window_placement(Some(&saved), true, Some(true)), Placement::Restored(WindowMode::Windowed));
    assert_eq!(window_placement(Some(&saved), true, Some(false)), Placement::Centred);
    assert_eq!(window_placement(Some(&saved), true, None), Placement::Centred);
    assert_eq!(window_placement(Some(&saved), false, Some(true)), Placement::Default);
    assert_eq!(window_placement(None, true, Some(true)), Placement::Default);
    let full = SavedWindow { mode: WindowMode::Fullscreen, x: 0, ..window() };
    let captured = SavedWindow::capture(full.clone(), Some(&saved));
    assert_eq!((captured.x, captured.mode), (40f32.to_bits(), WindowMode::Fullscreen));
    assert_eq!(SavedWindow::capture(full, None).x, 0);
    assert_eq!(SavedWindow::capture(SavedWindow { x: 7, ..window() }, Some(&saved)).x, 7);
}

#[test]
fn where_the_state_is_kept() {
    let data = || Some(path("/data"));
    assert_eq!(state_path(Some(path("/s.json")), true, data()), Some(path("/s.json")));
    assert_eq!(state_path(Some(path("")), false, data()), Some(path("/data/ubergit/state.json")));
    assert_eq!(state_path(None, true, data()), None);
    assert_eq!(state_path(None, false, None), None);
}

#[test]
fn the_main_view_only_shows_what_it_asked_for() {
    let (mut w, mut store) = start(&["a"]);
    press(&mut w, &mut store, Action::FocusFiles);
    let key = w.desired_main(&store).0;
    let load = w.start_load(&key, &store).unwrap();
    assert_ne!(load.id, w.start_load(&key, &store).unwrap().id);
    w.finish_load(load.id, MainKey::Message("other".into()), MainContent::Status, &store);
    assert!(!matches!(w.main.content, MainContent::Status));
    w.finish_load(load.id, load.key, MainContent::Status, &store);
    assert!(matches!(w.main.content, MainContent::Status));
}

#[test]
fn both_halves_of_a_file_are_framed() {
    let (mut w, _) = start(&["a"]);
    let half = || DiffHalf::new(b"diff --git a/f b/f\n@@ -1,1 +1,1 @@\n-a\r\n+b\n");
    w.main.content = MainContent::File { unstaged: Some(half()), staged: Some(half()) };
    for focused in [Panel::Main, Panel::Repos] {
        w.focused = focused;
        let frames = w.main_frames();
        assert_eq!(frames.len(), 2);
        assert_eq!(text(&frames[0].title), "[0]─Unstaged changes");
        assert!(matches!(frames[0].title.spans[2].style, Style::Bold(_)));
        assert_eq!(text(&frames[1].title), "[0]─Staged changes");
        assert!(matches!(frames[1].title.spans[2].style, Style::Plain));
        assert_eq!((frames[0].active, frames[1].active), (focused == Panel::Main, false));
        assert_eq!((frames[0].half, frames[1].half), (Some(false), Some(true)));
    }
}

#[test]
fn patch_lines_are_the_shown_lines() {
    let diffs: [&[u8]; 9] = [
        b"", b"a", b"a\n", b"a\r\n\t\xc3\xa4\n\n", b"\n\nx", b"x\r", b"\xff\n\xe2\x82\n\xac\r\n", b"\xc3\n", b"a\n\xf0\x9f\r",
    ];
    for diff in diffs {
        let half = DiffHalf::new(diff);
        assert_eq!(half.lines.len(), half.patch.len(), "{diff:?}");
        assert_eq!(half.lines, to_lines(&String::from_utf8_lossy(diff)), "{diff:?}");
    }
    let long = "x\n".repeat(20_001);
    assert_eq!(DiffHalf::new(long.as_bytes()).lines, to_lines(&long));
}

#[test]
fn why_nothing_could_be_loaded() {
    match finish_text(TextKind::Diff, &Err(GitError::Spawn("gone".into()))) {
        MainContent::Text { lines, kind } => {
            assert_eq!(lines, ["failed to run git: gone: gone"]);
            assert_eq!(kind, TextKind::Plain);
        }
        _ => panic!("a text"),
    }
}

#[test]
fn no_repo_is_marked_twice() {
    let (mut w, mut store) = start(&["a", "b"]);
    press(&mut w, &mut store, Action::ToggleMark);
    press(&mut w, &mut store, Action::ToggleMarkAll);
    assert_eq!(w.marked.len(), 2);
    press(&mut w, &mut store, Action::ToggleMarkAll);
    assert!(w.marked.is_empty());
}

#[test]
fn a_repo_is_selected_wherever_it_is_listed() {
    let (mut w, mut store) = start(&["a", "b", "ab"]);
    w.type_filter(PaneView::Repos, "b", &mut store);
    assert!(w.select_root(&path("/w/b"), &mut store).is_some());
    assert_eq!(w.selected_root(&store), Some(path("/w/b")));
    assert!(w.select_root(&path("/w/a"), &mut store).is_none());
    assert_eq!(w.selected_root(&store), Some(path("/w/b")));
    w.type_filter(PaneView::Repos, "", &mut store);
    assert!(w.select_root(&path("/w//a/"), &mut store).is_some());
    assert_eq!(w.selected_root(&store), Some(path("/w/a")));
}

#[test]
fn numbers_in_json() {
    assert_eq!(number_in_json(br#"{"version": 3, "x": 4}"#, "version"), Some(3));
    assert_eq!(number_in_json(br#"{"version": 3, "version": 5}"#, "version"), Some(5));
    for other in ["", "{", "3", "[3]", r#"{"x": 3}"#, r#"{"version": "3"}"#, r#"{"version": -3}"#, r#"{"version": 3.5}"#] {
        assert_eq!(number_in_json(other.as_bytes(), "version"), None, "{other}");
    }
}
