//! The repos on display, and actions on several at once.

use ubergit::batch::{
    commits, continue_job, describe_default, describe_fast_forward, describe_pull, describe_push, describe_switch,
    headline, plan, problem, start_job, Batch, JobStep, Outcome,
};
use ubergit::config::Config;
use ubergit::discovery::Candidate;
use ubergit::git::{CmdKind, CommandRecord, GitError, GitOutput};
use ubergit::model::{ChangeCounts, DefaultBranch, Head, RepoLocation, RepoSummary, Upstream};
use ubergit::ops::{DefaultSwitch, Switched};
use ubergit::path::FsPath;
use ubergit::store::{Found, RepoStore, LOG_CAPACITY};
use ubergit::watch::route::WatchEvent;

fn path(text: &str) -> FsPath {
    FsPath::new(text)
}

fn location(name: &str) -> RepoLocation {
    RepoLocation {
        root: path(&format!("/w/{name}")),
        name: name.into(),
        git_dir: path(&format!("/w/{name}/.git")),
        common_dir: path(&format!("/w/{name}/.git")),
        bare: false,
    }
}

fn found(name: &str) -> Found {
    Found {
        candidate: Candidate { root: path(&format!("/w/{name}")), bare: false },
        resolved: Ok(location(name)),
    }
}

fn summary(branch: &str, upstream: Upstream) -> RepoSummary {
    RepoSummary {
        head: Head::Branch(branch.into()),
        upstream,
        base: None,
        changes: ChangeCounts { files: 0, staged: 0, unstaged: 0, untracked: 0, conflicted: 0 },
        stash_count: 0,
        op: None,
        last_fetch: None,
        remotes: vec!["origin".into()],
        default_branch: Some(DefaultBranch {
            full_ref: "refs/remotes/origin/main".into(),
            short: "origin/main".into(),
        }),
        shallow: false,
    }
}

fn tracking(ahead: u32, behind: u32) -> Upstream {
    Upstream::Tracking { name: "origin/main".into(), ahead, behind }
}

fn says(text: &str) -> Result<GitOutput, GitError> {
    Ok(GitOutput { stdout: text.as_bytes().to_vec(), stderr: String::new() })
}

fn fails(stderr: &str) -> Result<GitOutput, GitError> {
    Err(GitError::Failed {
        command: "git x".into(),
        code: Some(1),
        stderr: stderr.into(),
        stdout: String::new(),
    })
}

fn store(names: &[&str]) -> RepoStore {
    let mut store = RepoStore::new(path("/w"), Config::default());
    let list: Vec<Found> = names.iter().map(|n| found(n)).collect();
    store.apply_scan(&list);
    for name in names {
        store.finish_refresh(&path(&format!("/w/{name}")), Ok(summary("main", tracking(0, 0))));
    }
    store
}

#[test]
fn scans_keep_what_is_known_in_name_order() {
    let mut store = store(&["b", "a"]);
    let names = |s: &RepoStore| s.repos.iter().map(|r| r.name().to_string()).collect::<Vec<_>>();
    assert_eq!(names(&store), ["a", "b"]);
    assert!(store.scan());
    assert!(!store.scan());
    let broken = Found {
        candidate: Candidate { root: path("/w/c"), bare: false },
        resolved: Err("dubious ownership".into()),
    };
    let scanned = store.apply_scan(&vec![found("b"), broken]);
    assert!(!store.scanning);
    assert_eq!(names(&store), ["b", "c"]);
    assert!(store.repos[0].summary.is_some());
    assert_eq!(store.repos[1].error.as_deref(), Some("dubious ownership"));
    assert_eq!(scanned.watch, vec![location("b")]);
    assert_eq!(scanned.refresh.len(), 2);
    assert_eq!(store.index_of(&path("/w/c")), Some(1));
    assert_eq!(store.index_of(&path("/w/a")), None);
}

#[test]
fn one_summary_at_a_time() {
    let mut store = store(&["a"]);
    assert_eq!(store.refresh(&path("/w/a")), Some(location("a")));
    assert_eq!(store.refresh(&path("/w/a")), None);
    assert_eq!(store.refresh(&path("/w/nope")), None);
    assert_eq!(store.finish_refresh(&path("/w/a"), Err("no".into())), Some(location("a")));
    assert_eq!(store.repos[0].error.as_deref(), Some("no"));
    assert_eq!(store.finish_refresh(&path("/w/a"), Ok(summary("x", tracking(0, 0)))), None);
    assert_eq!(store.repos[0].error, None);
}

#[test]
fn operations_end_with_a_fresh_summary() {
    let mut store = store(&["a", "b"]);
    assert_eq!(store.run_op(&path("/w/a"), "Pulling").unwrap(), location("a"));
    assert_eq!(store.entry(&path("/w/a")).unwrap().busy.as_deref(), Some("Pulling"));
    let work = store.finish_op(&path("/w/a"));
    assert_eq!(work.refresh, vec![location("a")]);
    assert_eq!(work.detail, None);
    assert_eq!(store.entry(&path("/w/a")).unwrap().busy, None);
    let gone = store.run_op(&path("/w/z"), "Pulling").unwrap_err();
    assert_eq!(gone.message(), "/w/z is no longer in the workdir");
    store.fetch(&path("/w/b")).unwrap();
    store.finish_fetch(&path("/w/b"), Some("no network".into()));
    assert_eq!(store.repos[1].fetch_error.as_deref(), Some("no network"));
}

#[test]
fn events_refresh_the_repos_they_are_about() {
    let mut store = store(&["a", "b"]);
    let job = store.select(Some(path("/w/b"))).unwrap();
    assert_eq!(job.location, location("b"));
    let work = store.on_watch_event(&WatchEvent::Changed(vec![path("/w/a")]));
    assert_eq!((work.refresh, work.detail, work.scan), (vec![location("a")], None, false));
    let work = store.on_watch_event(&WatchEvent::Rescan);
    assert!(work.scan && work.refresh.is_empty());
    // Its panels are still being loaded, so they are loaded again afterwards.
    let work = store.on_watch_event(&WatchEvent::Changed(vec![path("/w/b")]));
    assert_eq!(work.detail, None);
    assert!(store.finish_detail(&path("/w/b"), Err("no".into())).is_some());
    assert_eq!(store.detail.as_ref().unwrap().error.as_deref(), Some("no"));
    assert!(store.selected_detail().is_some());
}

#[test]
fn each_git_dir_is_fetched_once() {
    let mut store = RepoStore::new(path("/w"), Config::default());
    let worktree = RepoLocation { common_dir: path("/w/a/.git"), ..location("b") };
    let list = vec![
        found("a"),
        Found { candidate: Candidate { root: path("/w/b"), bare: false }, resolved: Ok(worktree) },
        found("c"),
    ];
    store.apply_scan(&list);
    for name in ["a", "b", "c"] {
        store.finish_refresh(&path(&format!("/w/{name}")), Ok(summary("main", tracking(0, 0))));
    }
    assert_eq!(store.fetch_all().len(), 2);
    assert_eq!(store.fetch_round, Some((0, 2)));
    store.finish_round_fetch();
    assert_eq!(store.fetch_round, Some((1, 2)));
    store.finish_round_fetch();
    assert_eq!(store.fetch_round, None);
}

#[test]
fn background_fetches_can_be_off() {
    let mut on = store(&["a", "b"]);
    assert_eq!(on.auto_fetch().len(), 2);
    assert_eq!(on.fetch_round, Some((0, 2)));
    assert!(on.auto_fetch().is_empty(), "a round is running");
    assert_eq!(on.fetch_round, Some((0, 2)));
    let mut off = store(&["a", "b"]);
    off.config.auto_fetch = false;
    assert!(off.auto_fetch().is_empty());
    assert_eq!(off.fetch_round, None);
    assert_eq!(off.fetch_all().len(), 2);
}

#[test]
fn the_log_keeps_the_latest() {
    let mut store = store(&[]);
    for i in 0..LOG_CAPACITY as u64 + 3 {
        store.push_log(CommandRecord {
            cwd: path("/w/a"),
            command: "git x".into(),
            kind: CmdKind::Write,
            started: i,
            duration_ms: 0,
            error: None,
        });
    }
    assert_eq!(store.log.len(), LOG_CAPACITY);
    assert_eq!(store.log.front().unwrap().started, 3);
    let reads = |error: Option<&str>| CommandRecord {
        cwd: path("/w/a"),
        command: "git status".into(),
        kind: CmdKind::Read,
        started: 9,
        duration_ms: 0,
        error: error.map(str::to_string),
    };
    store.note_command(reads(None));
    assert_eq!(store.log.back().unwrap().command, "git x");
    store.note_command(reads(Some("no")));
    assert_eq!(store.log.back().unwrap().command, "git status");
}

#[test]
fn polls_now_and_then() {
    let store = store(&[]);
    assert_eq!(store.poll_secs(), 60);
    assert_eq!(store.fetch_secs(), 300);
}

// ---- several repos ---------------------------------------------------------------------------

#[test]
fn unfit_repos_are_skipped() {
    let mut store = store(&["a", "b", "c", "d"]);
    store.run_op(&path("/w/b"), "Pulling").unwrap();
    store.refresh(&path("/w/c"));
    store.finish_refresh(&path("/w/c"), Ok(summary("main", Upstream::Unset)));
    let targets: Vec<FsPath> = ["a", "b", "c", "gone"].iter().map(|n| path(&format!("/w/{n}"))).collect();
    let (rows, jobs) = plan(&Batch::Pull, &store, &targets);
    assert_eq!(jobs.len(), 1);
    assert_eq!((jobs[0].name.as_str(), jobs[0].row), ("a", 0));
    assert_eq!(rows[0].outcome, Outcome::Pending);
    assert_eq!(rows.len(), 3, "a repo that is gone has no row");
    assert!(rows[1..].iter().all(|r| matches!(r.outcome, Outcome::Skipped(_))), "{rows:?}");
}

#[test]
fn batches_run_one_command_after_another() {
    let s = summary("feature", tracking(0, 0));
    let JobStep::Run { cmd, next } = start_job(&Batch::Checkout("main".into()), &location("a"), &s) else {
        panic!("runs")
    };
    assert!(cmd.display_args().contains("for-each-ref"));
    let JobStep::Run { cmd, next } = continue_job(&location("a"), &s, next, says("refs/heads/main\n")) else {
        panic!("runs")
    };
    assert!(cmd.display_args().contains("main"));
    match continue_job(&location("a"), &s, next, says("")) {
        JobStep::Done { outcome } => assert_eq!(outcome, describe_switch("main", &Switched::Local)),
        other => panic!("{other:?}"),
    }
    let JobStep::Run { cmd, next } = start_job(&Batch::Push, &location("a"), &s) else { panic!("runs") };
    assert!(!cmd.display_args().contains("force"));
    match continue_job(&location("a"), &s, next, fails("! [rejected] main -> main (fetch first)")) {
        JobStep::Done { outcome } => assert!(problem(&outcome).is_some()),
        other => panic!("{other:?}"),
    }
}

#[test]
fn outcomes_say_what_happened() {
    assert_eq!(commits(1), "1 commit");
    assert_eq!(commits(2), "2 commits");
    assert_eq!(describe_fast_forward(3, &says("")), Outcome::Done("fast-forwarded 3 commits".into()));
    assert!(matches!(describe_pull(&fails("fatal: no")), Outcome::Failed(_)));
    assert!(matches!(describe_push(true, &None, &says("")), Outcome::Done(_)));
    assert_eq!(problem(&Outcome::Done("x".into())), None);
    assert_eq!(problem(&Outcome::Skipped("x".into())), Some("x"));
    let diverged = DefaultSwitch {
        branch: "main".into(),
        switched: None,
        upstream: Some("origin/main".into()),
        ahead: 1,
        behind: 2,
        fast_forwarded: false,
    };
    assert_eq!(
        describe_default(&diverged),
        Outcome::Failed(
            "on main, but it has diverged from origin/main (↑1 ↓2), so it wasn't fast-forwarded".into()
        )
    );
    assert_eq!(headline("hint: x\nfatal: no\nmore"), "no");
    assert_eq!(headline("hint: x\n oops \nmore"), "oops");
    assert_eq!(Batch::Checkout("main".into()).label(), "Checking out");
}
