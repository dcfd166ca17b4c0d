//! Routing file events to repos, and waiting for them to settle.

use ubergit::model::RepoLocation;
use ubergit::path::FsPath;
use ubergit::watch::coalesce::{Coalescer, DEBOUNCE, MAX_DELAY, RESCAN_DELAY};
use ubergit::watch::ignored::{compile_rules, is_ignored, rules_in};
use ubergit::watch::route::{is_ignored_git_path, needs_own_watch, note_event, Route, Router};

fn path(text: &str) -> FsPath {
    FsPath::new(text)
}

fn repo(root: &str, git_dir: &str, common_dir: &str) -> RepoLocation {
    RepoLocation {
        root: path(root),
        name: root.rsplit('/').next().unwrap().into(),
        git_dir: path(git_dir),
        common_dir: path(common_dir),
        bare: false,
    }
}

fn router(ignored: &[&str], global: &[&str]) -> Router {
    let repos = vec![
        repo("/w/a", "/w/a/.git", "/w/a/.git"),
        repo("/w/b", "/w/a/.git/worktrees/b", "/w/a/.git"),
    ];
    let lines: Vec<String> = ignored.iter().map(|l| l.to_string()).collect();
    let global: Vec<String> = global.iter().map(|l| l.to_string()).collect();
    Router::new(&path("/w"), &repos, &vec![lines, Vec::new()], "", &global)
}

#[test]
fn routes_paths_to_repos() {
    let router = router(&[], &[]);
    let r = |p: &str| router.route(&path(p));
    let a = || path("/w/a");
    let b = || path("/w/b");

    assert_eq!(r("/w/a/src/main.rs"), Route::Repos(vec![a()]));
    assert_eq!(r("/w/a/node_modules/x/y.js"), Route::Ignore);
    assert_eq!(r("/w/a/.git/index"), Route::Repos(vec![a()]));
    assert_eq!(r("/w/a/.git/index.lock"), Route::Ignore);
    assert_eq!(r("/w/a/.git/objects/ab/cdef"), Route::Ignore);
    // Shared refs affect the main checkout and its linked worktree.
    assert_eq!(r("/w/a/.git/refs/heads/main"), Route::Repos(vec![a(), b()]));
    // The linked worktree's own HEAD only affects it.
    assert_eq!(r("/w/a/.git/worktrees/b/HEAD"), Route::Repos(vec![b()]));
    assert_eq!(r("/w/b/file.txt"), Route::Repos(vec![b()]));
    assert_eq!(r("/w/new-service"), Route::Rescan);
    assert_eq!(r("/w/group/new/.git"), Route::Rescan);
    assert_eq!(r("/w/group/notes.txt"), Route::Ignore);
}

#[test]
fn ignored_files_refresh_nothing() {
    let router = router(&["*.log", "/out/"], &["*.swp"]);
    assert_eq!(router.route(&path("/w/a/x.log")), Route::Ignore);
    assert_eq!(router.route(&path("/w/a/out/x")), Route::Ignore);
    assert_eq!(router.route(&path("/w//a//lib//x.log")), Route::Ignore);
    assert_eq!(router.route(&path("/w//a//lib//x")), Route::Repos(vec![path("/w/a")]));
    assert_eq!(router.route(&path("/w/a/f.swp")), Route::Ignore);
    assert_eq!(router.route(&path("/w/b/x.log")), Route::Repos(vec![path("/w/b")]));
    assert_eq!(router.route(&path("/elsewhere/x")), Route::Ignore);
    assert!(is_ignored_git_path(&path("index.lock")));
    assert!(!is_ignored_git_path(&path("HEAD")));
    assert!(needs_own_watch(&path("/w"), &path("/x/.git")));
    assert!(!needs_own_watch(&path("/w"), &path("/w/a/.git")));
}

#[test]
fn gitignore_rules() {
    let lines = |list: &[&str]| list.iter().map(|l| l.to_string()).collect::<Vec<String>>();
    let rules = compile_rules("/w/a", &lines(&["# comment", "", "target/", "*.o", "!keep.o"]));
    assert!(is_ignored(&rules, "target/debug/x"));
    assert!(is_ignored(&rules, "src/a.o"));
    assert!(!is_ignored(&rules, "src/keep.o"));
    assert!(!is_ignored(&rules, "src/main.rs"));
    // Empty names are looked up too, unless the path leaves the rules' directory.
    assert!(is_ignored(&rules, "src//a.o"));
    assert!(!is_ignored(&rules, "/w/b/a.o"));
    let here = compile_rules("./x", &lines(&["*.o"]));
    assert!(is_ignored(&here, "x/a.o"));
    assert!(is_ignored(&here, "y//a.o"));
    assert!(!is_ignored(&here, "x//a.o"));
    let none = compile_rules("/w/a", &lines(&["", "# only a comment"]));
    assert!(!is_ignored(&none, "x"));
    assert_eq!(rules_in(&lines(&["\u{feff}a", "b"])), ["a", "b"]);
}

#[test]
fn events_wait_until_the_repo_is_quiet() {
    let router = router(&[], &[]);
    let mut state = Coalescer::new();
    let roots = vec![path("/w/a"), path("/w/b")];
    note_event(&mut state, &router, &roots, false, &vec![path("/w/a/x"), path("/w/a/y")], 1_000);
    assert_eq!(state.pending.len(), 1);
    assert_eq!(state.take_due(1_000 + DEBOUNCE - 1), (Vec::new(), false));
    assert_eq!(state.take_due(1_000 + DEBOUNCE), (vec![path("/w/a")], false));
    assert_eq!(state, Coalescer::new());
}

#[test]
fn no_event_waits_too_long() {
    let mut state = Coalescer::new();
    state.mark(&path("/w/a"), 0);
    let mut now = 0;
    while now < MAX_DELAY - 100 {
        now += 100;
        state.mark(&path("/w/a"), now);
        assert_eq!(state.take_due(now).0, Vec::new());
    }
    assert_eq!(state.take_due(MAX_DELAY).0, vec![path("/w/a")]);
}

#[test]
fn lost_events_refresh_everything() {
    let router = router(&[], &[]);
    let roots = vec![path("/w/a"), path("/w/b")];
    let mut state = Coalescer::new();
    note_event(&mut state, &router, &roots, true, &Vec::new(), 5);
    let (due, rescan) = state.take_due(5 + RESCAN_DELAY);
    assert_eq!(due, roots);
    assert!(rescan);
    note_event(&mut state, &router, &roots, false, &vec![path("/w/new")], 10_000);
    assert_eq!(state.take_due(10_000 + RESCAN_DELAY - 1), (Vec::new(), false));
    assert_eq!(state.take_due(10_000 + RESCAN_DELAY), (Vec::new(), true));
}

#[test]
fn repos_wait_once() {
    let mut state = Coalescer::new();
    state.mark_all(&vec![path("/w/a"), path("/w/b"), path("/w//a/")], 0);
    state.mark(&path("/w/b"), 10);
    assert_eq!(state.pending.iter().map(|p| p.root.clone()).collect::<Vec<_>>(), [path("/w/a"), path("/w/b")]);
    assert_eq!(state.take_due(DEBOUNCE).0, [path("/w/a")]);
    assert_eq!(state.take_due(DEBOUNCE + 10).0, [path("/w/b")]);
}
