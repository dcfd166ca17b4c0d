//! Git commands, what their replies lead to, and the settings.

use ubergit::cli::{
    configured, login_path, marked_path, parse_args, unknown_option, version_text, window_title, Invocation, USAGE,
};
use ubergit::config::{config_path, expand_home, shell_quote, Config};
use ubergit::detail::{file_diff, find_file, finish_file_diff, graph_log, show, stash_show, to_lines, MAX_MAIN_LINES};
use ubergit::discovery::{display_name, is_skip_dir, resolve, resolved, visit, Candidate, EntryFacts, Visit};
use ubergit::gh::{self, Gh, GhCommand, GhError};
use ubergit::git::parse::stashes;
use ubergit::git::{
    environment, needs_ssh_config, ssh_command_for, ssh_config_command, CmdKind, GitCommand, GitError, GitOutput,
    SSH_OPTIONS,
};
use ubergit::model::{
    BaseDivergence, Branch, ChangeCounts, DefaultBranch, FileEntry, FileKind, Head, RemoteBranch, RepoLocation, RepoOp,
    RepoSummary, StashEntry, Upstream,
};
use ubergit::ops::{self, DefaultStep, DefaultSwitch, PatchAction, RenameStep, StashKind, SwitchStep, Switched};
use ubergit::path::FsPath;
use ubergit::process::{display_command, first_line, ExitOutput, RunError};
use ubergit::summary::{
    self, default_branch_patterns, finish_summary, last_fetch, pick_default_branch, primary_remote, repo_op,
    GitDirMarkers, RebaseFiles, SummaryParts, SummaryStep,
};

fn strings(list: &[&str]) -> Vec<String> {
    list.iter().map(|s| s.to_string()).collect()
}

fn path(text: &str) -> FsPath {
    FsPath::new(text)
}

fn repo() -> RepoLocation {
    RepoLocation {
        root: path("/w/a"),
        name: "a".into(),
        git_dir: path("/w/a/.git"),
        common_dir: path("/w/a/.git"),
        bare: false,
    }
}

fn says(text: &str) -> Result<GitOutput, GitError> {
    Ok(GitOutput { stdout: text.as_bytes().to_vec(), stderr: String::new() })
}

fn fails(stderr: &str) -> Result<GitOutput, GitError> {
    Err(GitError::Failed {
        command: "git x".into(),
        code: Some(1),
        stderr: stderr.into(),
        stdout: String::new(),
    })
}

fn file(path: &str, index: char, worktree: char, kind: FileKind) -> FileEntry {
    FileEntry { path: path.into(), orig_path: None, index, worktree, kind }
}

// ---- settings --------------------------------------------------------------------------------

#[test]
fn lazygit_template() {
    let config = Config {
        lazygit_command: Some("wezterm start --cwd {path} lazygit".into()),
        ..Config::default()
    };
    assert_eq!(config.lazygit_command_for(&path("/a b")), "wezterm start --cwd '/a b' lazygit");
}

#[test]
fn lazygit_opens_a_terminal_by_default() {
    let command = Config::default().lazygit_command_for(&path("/it's"));
    assert!(command.contains("osascript"), "{command}");
    assert!(command.contains("lazygit"), "{command}");
}

#[test]
fn default_settings() {
    let config = Config::default();
    assert_eq!(config.workdir, None);
    assert_eq!(config.max_depth, 3);
    assert!(config.auto_fetch);
    assert_eq!(config.fetch_interval_secs, 300);
    assert_eq!(config.poll_interval_secs, 60);
    assert!(config.confirm_quit);
    assert!(config.staging_hunk_mode);
}

#[test]
fn a_leading_tilde_is_the_home_directory() {
    let home = path("/home/me");
    assert_eq!(expand_home(&path("~/work"), Some(&home)).bytes, b"/home/me/work");
    assert_eq!(expand_home(&path("~//a//./b/"), Some(&home)).bytes, b"/home/me/a//./b");
    assert_eq!(expand_home(&path("/work"), Some(&home)).bytes, b"/work");
    assert_eq!(expand_home(&path("~/work"), None).bytes, b"~/work");
    assert_eq!(config_path(Some(&home)).unwrap().bytes, b"/home/me/.config/ubergit/config.toml");
    assert_eq!(config_path(None), None);
    let file = Config { workdir: Some(path("~/work")), ..Config::default() };
    assert_eq!(Config::load(Some(file), Some(&home)).workdir.unwrap().bytes, b"/home/me/work");
    assert_eq!(Config::load(None, Some(&home)), Config::default());
}

#[test]
fn quotes_for_the_shell() {
    assert_eq!(shell_quote("a b"), "'a b'");
    assert_eq!(shell_quote("it's"), "'it'\\''s'");
}

#[test]
fn reads_the_arguments() {
    match parse_args(&strings(&["--no-fetch", "/a", "/b"])) {
        Invocation::Run { workdir, no_fetch } => {
            assert_eq!(workdir.as_deref(), Some("/b"));
            assert!(no_fetch);
        }
        _ => panic!("runs"),
    }
    match parse_args(&Vec::new()) {
        Invocation::Run { workdir, no_fetch } => {
            assert_eq!(workdir, None);
            assert!(!no_fetch);
        }
        _ => panic!("runs"),
    }
    assert!(matches!(parse_args(&strings(&["-h", "--nope"])), Invocation::Help));
    assert!(matches!(parse_args(&strings(&["/a", "--help"])), Invocation::Help));
    assert!(matches!(parse_args(&strings(&["-V"])), Invocation::Version));
    assert!(matches!(parse_args(&strings(&["--version", "-h"])), Invocation::Version));
    match parse_args(&strings(&["--nope", "-h"])) {
        Invocation::Unknown(arg) => assert_eq!(unknown_option(&arg), format!("unknown option --nope\n\n{USAGE}")),
        _ => panic!("unknown"),
    }
    assert_eq!(version_text("0.1.0"), "ubergit 0.1.0");
    assert_eq!(window_title("/w"), "ubergit — /w");
}

#[test]
fn arguments_override_the_settings() {
    let config = Config { workdir: Some(path("/a")), ..Config::default() };
    let config = configured(config, None, false);
    assert_eq!(config.workdir, Some(path("/a")));
    assert!(config.auto_fetch);
    let config = configured(config, Some(path("/b")), true);
    assert_eq!(config.workdir, Some(path("/b")));
    assert!(!config.auto_fetch);
}

#[test]
fn takes_the_search_path_from_between_the_markers() {
    assert_eq!(login_path(b"hello\n__PATH__/bin:/usr/bin__PATH__").as_deref(), Some("/bin:/usr/bin"));
    assert_eq!(login_path(b"__PATH__\xff__PATH__").as_deref(), Some("\u{fffd}"));
    assert_eq!(marked_path("__PATH__/bin").as_deref(), Some("/bin"));
    assert_eq!(marked_path("__PATH____PATH__"), None);
    assert_eq!(marked_path("/bin"), None);
}

// ---- running commands ------------------------------------------------------------------------

#[test]
fn quotes_display_args() {
    let args = strings(&["commit", "-m", "a b", "", "it's"]);
    assert_eq!(display_command("git", &args), "git commit -m 'a b' '' 'it'\\''s'");
}

#[test]
fn first_lines() {
    assert_eq!(first_line("\n  \n fatal: no\nmore").as_deref(), Some("fatal: no"));
    assert_eq!(first_line(" \n"), None);
}

#[test]
fn reads_never_take_locks() {
    let cmd = GitCommand::read(&path("/w/a"), vec!["status"]);
    assert!(cmd.full_args().contains(&"--no-optional-locks".to_string()));
    assert_eq!(cmd.full_args().last().map(String::as_str), Some("status"));
    assert_eq!(cmd.timeout_ms, 30_000);
    let cmd = GitCommand::write(&path("/w/a"), vec!["add", "-A"]);
    assert!(!cmd.full_args().contains(&"--no-optional-locks".to_string()));
    assert_eq!(cmd.timeout_ms, 120_000);
    let cmd = GitCommand::network(&path("/w/a"), vec!["fetch"]);
    assert!(cmd.full_args().contains(&"http.lowSpeedTime=30".to_string()));
    assert_eq!(cmd.timeout_ms, 90_000);
    assert_eq!(cmd.display_args(), "git fetch");
}

#[test]
fn commands_run_without_prompts() {
    let env = environment(Some("ssh -x"), &vec![("A".to_string(), "b".to_string())]);
    let get = |key: &str| env.iter().find(|(k, _)| k == key).map(|(_, v)| v.as_str());
    assert_eq!(get("GIT_TERMINAL_PROMPT"), Some("0"));
    assert_eq!(get("GIT_EDITOR"), Some("true"));
    assert_eq!(get("GIT_SSH_COMMAND"), Some("ssh -x"));
    assert_eq!(get("A"), Some("b"));
}

#[test]
fn ssh_runs_in_batch_mode() {
    assert_eq!(ssh_command_for(None, None, false), Some(format!("ssh {SSH_OPTIONS}")));
    assert_eq!(ssh_command_for(Some("ssh -p 2222"), None, false), Some(format!("ssh -p 2222 {SSH_OPTIONS}")));
    assert_eq!(ssh_command_for(None, Some("ssh -i key\n"), true), Some(format!("ssh -i key {SSH_OPTIONS}")));
    assert_eq!(ssh_command_for(None, None, true), None);
    assert_eq!(ssh_command_for(Some("plink"), None, false), None);
    assert!(needs_ssh_config(None));
    assert!(needs_ssh_config(Some(" ")));
    assert!(!needs_ssh_config(Some("ssh")));
    assert_eq!(ssh_config_command(&path("/w/a")).display_args(), "git config --get core.sshCommand");
}

#[test]
fn exit_codes_decide_about_success() {
    let exit = |code: i32| {
        Ok(ExitOutput { code: Some(code), stdout: b"out\xff".to_vec(), stderr: b"fatal: no\n".to_vec() })
    };
    let cmd = GitCommand::read(&path("/w/a"), vec!["diff", "--no-index"]).ok_codes(vec![1]);
    assert_eq!(cmd.finish(exit(0)).unwrap().stdout, b"out\xff");
    assert!(cmd.finish(exit(1)).is_ok());
    let error = cmd.finish(exit(2)).unwrap_err();
    assert_eq!(
        error,
        GitError::Failed {
            command: "git diff --no-index".into(),
            code: Some(2),
            stderr: "fatal: no\n".into(),
            stdout: "out\u{fffd}".into(),
        }
    );
    assert_eq!(error.details(), "fatal: no");
    assert!(error.message().contains("fatal: no"), "{}", error.message());
    assert!(cmd.finish(Ok(ExitOutput { code: None, stdout: Vec::new(), stderr: Vec::new() })).is_err());
    let late = cmd.timeout(1_500).finish(Err(RunError::TimedOut)).unwrap_err();
    assert_eq!(late, GitError::Timeout { command: "git diff --no-index".into(), timeout_ms: 1_500 });
    assert!(late.message().contains("1.5s"), "{}", late.message());
    let cmd = GitCommand::read(&path("/w/a"), vec!["status"]);
    let spawn = RunError::Spawn { message: "not found".into(), not_found: true };
    assert_eq!(cmd.finish(Err(spawn)), Err(GitError::Spawn("not found".into())));
    let io = RunError::Io { message: "broken pipe".into() };
    assert_eq!(cmd.finish(Err(io)), Err(GitError::Spawn("broken pipe".into())));
}

#[test]
fn the_command_log_has_one_line_per_failure() {
    let cmd = GitCommand::network(&path("/w/a"), vec!["fetch"]);
    let ok = ubergit::git::record(&cmd, 7, 20, &says(""));
    assert_eq!((ok.command.as_str(), ok.kind, ok.started, ok.duration_ms), ("git fetch", CmdKind::Network, 7, 20));
    assert_eq!(ok.error, None);
    let failed = ubergit::git::record(&cmd, 7, 20, &fails("fatal: no such remote\nmore"));
    assert_eq!(failed.error.as_deref(), Some("fatal: no such remote"));
}

#[test]
fn passes_args_and_stdin_without_prompts_and_logs_the_call() {
    let cmd = GhCommand::new(strings(&["api", "graphql", "--input", "-"]))
        .stdin(br#"{"query":"{viewer{login}}"}"#.to_vec());
    assert_eq!(cmd.args, ["api", "graphql", "--input", "-"]);
    assert_eq!(cmd.stdin.as_deref(), Some(&br#"{"query":"{viewer{login}}"}"#[..]));
    let env = Gh::new().environment();
    assert!(env.contains(&("GH_PROMPT_DISABLED".to_string(), "1".to_string())));
    assert!(env.contains(&("NO_COLOR".to_string(), "1".to_string())));
    let exit = ExitOutput { code: Some(0), stdout: b"{}".to_vec(), stderr: Vec::new() };
    let result = cmd.finish(Ok(exit), true);
    assert_eq!(result.as_ref().unwrap().stdout, b"{}");

    let record = gh::record(&cmd, 0, 1, &result);
    assert_eq!(record.command, "gh api graphql --input -");
    assert_eq!(record.kind, CmdKind::Network);
    assert_eq!(record.error, None);
}

#[test]
fn exit_code_4_means_not_logged_in_even_before_reading_input() {
    let cmd = GhCommand::new(strings(&["api", "graphql", "--input", "-"])).stdin(vec![b' '; 1 << 20]);
    let exit = ExitOutput {
        code: Some(4),
        stdout: Vec::new(),
        stderr: b"To get started with GitHub CLI, please run:  gh auth login\n".to_vec(),
    };
    match cmd.finish(Ok(exit), true) {
        Err(GhError::NotLoggedIn { stderr }) => assert!(stderr.contains("gh auth login")),
        other => panic!("{other:?}"),
    }
}

#[test]
fn a_failure_keeps_stdout() {
    let exit = ExitOutput {
        code: Some(1),
        stdout: b"{\"data\":{\"r0\":null}}\n".to_vec(),
        stderr: b"gh: Could not resolve to a Repository\n".to_vec(),
    };
    match GhCommand::new(strings(&["api", "graphql"])).finish(Ok(exit), true) {
        Err(err @ GhError::Failed { code: Some(1), .. }) => {
            assert_eq!(err.message(), "gh: Could not resolve to a Repository");
            let GhError::Failed { stdout, .. } = err else { unreachable!() };
            assert_eq!(stdout, b"{\"data\":{\"r0\":null}}\n");
        }
        other => panic!("{other:?}"),
    }
}

#[test]
fn missing_gh_is_not_installed_but_a_missing_cwd_is_not_blamed_on_gh() {
    let missing = || Err(RunError::Spawn { message: "No such file or directory".into(), not_found: true });
    let result = GhCommand::new(strings(&["--version"])).finish(missing(), false);
    assert!(matches!(result, Err(GhError::NotInstalled)), "{result:?}");

    let cmd = GhCommand::new(strings(&["--version"])).cwd(path("/gone"));
    let result = cmd.finish(missing(), false);
    assert!(matches!(result, Err(GhError::Spawn(_))), "{result:?}");
    assert!(matches!(cmd.finish(missing(), true), Err(GhError::NotInstalled)));
}

#[test]
fn times_out() {
    let cmd = GhCommand::new(strings(&["api", "graphql"])).timeout(200);
    let result = cmd.finish(Err(RunError::TimedOut), true);
    assert!(matches!(result, Err(GhError::Timeout { .. })), "{result:?}");
    assert!(result.unwrap_err().message().contains("200ms"));
}

// ---- operations ------------------------------------------------------------------------------

#[test]
fn default_branch_parts_handle_remotes_with_slashes() {
    let parts = |full_ref: &str, remotes: &[&str]| {
        let default = DefaultBranch { full_ref: full_ref.into(), short: summary::short_ref(full_ref) };
        let remotes: Vec<String> = remotes.iter().map(|r| r.to_string()).collect();
        ops::default_branch_parts(&default, &remotes)
    };
    assert_eq!(parts("refs/remotes/origin/main", &["origin"]), ("main".into(), Some("origin".into())));
    assert_eq!(parts("refs/remotes/team/up/develop", &["team", "team/up"]), ("develop".into(), Some("team/up".into())));
    assert_eq!(parts("refs/heads/master", &[]), ("master".into(), None));
}

#[test]
fn branch_name_validation() {
    for ok in ["main", "feat/x", "JIRA-123_fix", "v1.2"] {
        assert!(ops::is_valid_branch_name(ok), "{ok}");
    }
    for bad in ["", "-f", "a b", "a..b", "x.lock", "a~1", "feat/", "/x", "@{u}", "a:b"] {
        assert!(!ops::is_valid_branch_name(bad), "{bad:?}");
    }
}

#[test]
fn stash_subject_parts() {
    assert_eq!(ops::stash_subject_parts("On main: fix it"), Some(("main", "fix it")));
    assert_eq!(ops::stash_subject_parts("WIP on feat/x: 1a2b3c4 msg"), Some(("feat/x", "1a2b3c4 msg")));
    assert_eq!(ops::stash_subject_parts("On (no branch): x"), Some(("(no branch)", "x")));
    assert_eq!(ops::stash_subject_parts("custom"), None);
}

/// Switches to `branch`, where `refs` are the refs that there are.
fn switch(branch: &str, remotes: &[&str], refs: &str) -> (Switched, Vec<String>) {
    let remotes = strings(remotes);
    let mut commands = Vec::new();
    let mut step = ops::switch_branch(&repo(), branch, &remotes);
    loop {
        match step {
            SwitchStep::Run { cmd, stage } => {
                commands.push(cmd.display_args());
                let reply = if cmd.kind == CmdKind::Read { says(refs) } else { says("") };
                step = ops::switch_branch_next(&repo(), branch, &remotes, stage, reply);
            }
            SwitchStep::Done { switched } => return (switched, commands),
            SwitchStep::Failed { error } => panic!("{error:?}"),
        }
    }
}

#[test]
fn switches_to_an_existing_local_branch() {
    let (switched, commands) = switch("main", &["origin"], "refs/heads/main\nrefs/remotes/origin/main\n");
    assert_eq!(switched, Switched::Local);
    assert_eq!(commands.len(), 2);
    assert!(commands[0].contains("for-each-ref"));
    assert!(commands[1].contains("main") && !commands[1].contains("origin"), "{commands:?}");
}

#[test]
fn creates_a_tracking_branch_when_only_the_remote_has_it() {
    let (switched, commands) = switch("main", &["origin"], "refs/remotes/origin/main\n");
    assert_eq!(switched, Switched::Tracking("origin/main".into()));
    assert!(commands[1].contains("origin/main"), "{commands:?}");
}

#[test]
fn a_missing_branch_changes_nothing() {
    // `team/x` exists, but a prefix of it is not a branch.
    assert_eq!(switch("nope", &["origin"], "").0, Switched::Missing);
    let (switched, commands) = switch("team", &["origin"], "refs/heads/team/x\n");
    assert_eq!(switched, Switched::Missing);
    assert_eq!(commands.len(), 1, "{commands:?}");
}

/// Switches to the default branch. `counts` is how HEAD diverges from its upstream.
fn to_default(full_ref: &str, current: &str, upstream: &str, counts: &str) -> (DefaultSwitch, Vec<String>) {
    let default = DefaultBranch { full_ref: full_ref.into(), short: summary::short_ref(full_ref) };
    let remotes = if full_ref.contains("remotes") { strings(&["origin"]) } else { Vec::new() };
    let (branch, remote) = ops::default_branch_parts(&default, &remotes);
    let mut commands = Vec::new();
    let mut step = ops::switch_to_default(&repo(), &default, &remotes, Some(current));
    loop {
        match step {
            DefaultStep::Run { cmd, stage } => {
                let line = cmd.display_args();
                let text = if line.contains("refs/heads/") && line.contains("refname") {
                    format!("refs/heads/{branch}\n")
                } else if line.contains("rev-list") {
                    counts.to_string()
                } else if cmd.kind == CmdKind::Read {
                    format!("{upstream}\n")
                } else {
                    String::new()
                };
                commands.push(line);
                step = ops::switch_to_default_next(&repo(), &branch, &remote, stage, says(&text));
            }
            DefaultStep::Done { result } => return (result, commands),
            DefaultStep::Failed { error } => panic!("{error:?}"),
        }
    }
}

#[test]
fn fast_forwards_the_default_branch_when_already_on_it() {
    let (result, commands) = to_default("refs/remotes/origin/main", "main", "origin/main", "0\t2\n");
    assert_eq!(
        result,
        DefaultSwitch {
            branch: "main".into(),
            switched: None,
            upstream: Some("origin/main".into()),
            ahead: 0,
            behind: 2,
            fast_forwarded: true,
        }
    );
    assert_eq!(commands.len(), 3, "{commands:?}");
}

#[test]
fn switches_from_a_feature_branch_to_default_and_fast_forwards() {
    let (result, _) = to_default("refs/remotes/origin/main", "feature", "origin/main", "0\t1\n");
    assert_eq!(result.switched, Some(Switched::Local));
    assert_eq!((result.ahead, result.behind, result.fast_forwarded), (0, 1, true));
}

#[test]
fn leaves_a_diverged_default_branch_alone() {
    let (result, commands) = to_default("refs/remotes/origin/main", "main", "origin/main", "1\t2\n");
    assert_eq!(result.switched, None);
    assert_eq!((result.ahead, result.behind, result.fast_forwarded), (1, 2, false));
    assert_eq!(commands.len(), 2, "{commands:?}");
}

#[test]
fn default_branch_without_origin_head_or_remote() {
    let (legacy, _) = to_default("refs/remotes/origin/master", "master", "origin/master", "0\t0\n");
    assert_eq!((legacy.branch.as_str(), legacy.switched), ("master", None));
    assert_eq!(legacy.upstream.as_deref(), Some("origin/master"));
    let (local, _) = to_default("refs/heads/main", "main", "", "");
    assert_eq!((local.branch.as_str(), local.upstream), ("main", None));
}

#[test]
fn a_failure_ends_a_switch() {
    let SwitchStep::Run { cmd: _, stage } = ops::switch_branch(&repo(), "x", &[]) else { panic!("runs") };
    let step = ops::switch_branch_next(&repo(), "x", &[], stage, fails("fatal"));
    assert!(matches!(step, SwitchStep::Failed { .. }));
}

fn rename(subject: &str, message: &str, store: Result<GitOutput, GitError>) -> (Vec<String>, RenameStep) {
    let stash = StashEntry { index: 1, subject: subject.into(), time: None };
    let mut commands = Vec::new();
    let mut store = Some(store);
    let mut step = ops::stash_rename(&repo(), &stash);
    loop {
        match step {
            RenameStep::Run { cmd, stage } => {
                let line = cmd.display_args();
                let reply = if line.contains("rev-parse") {
                    says("0123abcd\n")
                } else if line.contains("store") {
                    store.take().unwrap()
                } else {
                    says("")
                };
                commands.push(line);
                step = ops::stash_rename_next(&repo(), &stash, message, stage, reply);
            }
            end => return (commands, end),
        }
    }
}

#[test]
fn renaming_moves_the_stash_to_the_top() {
    let (commands, end) = rename("WIP on main: 1a2b3c4 init", "the first one", says(""));
    assert!(matches!(end, RenameStep::Done { .. }));
    assert_eq!(
        commands,
        [
            "git rev-parse stash@{1}",
            "git stash drop --quiet stash@{1}",
            "git stash store -m 'On main: the first one' 0123abcd",
        ]
    );
}

#[test]
fn a_stash_that_cant_be_stored_again_is_not_lost() {
    let (_, end) = rename("On main: x", "y", fails("fatal: no"));
    match end {
        RenameStep::Failed { error: GitError::Failed { stderr, .. } } => {
            assert!(stderr.starts_with("fatal: no\n"), "{stderr}");
            assert!(stderr.contains("git stash store -m 'On main: y' 0123abcd"), "{stderr}");
        }
        other => panic!("{other:?}"),
    }
}

/// The subjects that git lists for some stashes.
fn subjects(list: &[&str]) -> Vec<String> {
    let out: String = list.iter().enumerate().map(|(i, s)| format!("stash@{{{i}}}\x1f1\x1f{s}\x1e\n")).collect();
    stashes(&out).into_iter().map(|s| s.subject).collect()
}

const STAGED: &str = "1 M. N... 100644 100644 100644 a b README.md\0";
const MODIFIED: &str = "1 .M N... 100644 100644 100644 a b app.txt\0";
const NEW: &str = "? untracked.txt\0";

fn changes_of(status: &str) -> ChangeCounts {
    summary_of(&format!("{}{status}", on_branch("main", "origin/main", "+0 -0")), "origin\n", ORIGIN_MAIN, "0\t0\n").changes
}

#[test]
fn stashes_staged_changes_with_a_message_then_everything_else() {
    // README.md staged, app.txt modified, untracked.txt new.
    let c = changes_of(&format!("{STAGED}{MODIFIED}{NEW}"));
    assert_eq!((c.staged, c.unstaged, c.untracked), (1, 1, 1));
    let cmd = ops::stash(&repo(), StashKind::Staged, Some("only staged"));
    assert_eq!(cmd.args, ["stash", "push", "--staged", "-m", "only staged"]);
    assert_eq!(subjects(&["On main: only staged"]), ["On main: only staged"]);
    let c = changes_of(&format!("{MODIFIED}{NEW}"));
    assert_eq!((c.staged, c.unstaged, c.untracked), (0, 1, 1));

    let cmd = ops::stash(&repo(), StashKind::All, Some("  "));
    assert_eq!(cmd.args, ["stash", "push", "--include-untracked"]);
    assert!(changes_of("").is_clean());
    let subjects = subjects(&["WIP on main: 1a2b3c4 init", "On main: only staged"]);
    assert_eq!(subjects.len(), 2);
    assert!(subjects[0].starts_with("WIP on main: "), "{subjects:?}");
}

#[test]
fn tracked_stash_leaves_untracked_files_and_renames_keep_the_branch() {
    let cmd = ops::stash(&repo(), StashKind::TrackedFiles, Some("first"));
    assert_eq!(cmd.args, ["stash", "push", "-m", "first"]);
    let c = changes_of(NEW);
    assert_eq!((c.unstaged, c.untracked), (0, 1));
    assert_eq!(subjects(&["On (no branch): first"]), ["On (no branch): first"]);

    let (commands, end) = rename("On (no branch): first", "second", says(""));
    assert!(matches!(end, RenameStep::Done { .. }));
    // The same stash commit, under the new subject.
    assert_eq!(commands[2], "git stash store -m 'On (no branch): second' 0123abcd");
}

#[test]
fn keep_index_stash_and_branch_from_stash() {
    let cmd = ops::stash(&repo(), StashKind::KeepIndex, Some("kept"));
    assert_eq!(cmd.args, ["stash", "push", "--include-untracked", "--keep-index", "-m", "kept"]);
    assert_eq!(changes_of(STAGED).staged, 1, "staged change stays");

    let cmd = ops::stash_branch(&repo(), 0, "from-stash");
    assert_eq!(cmd.args, ["stash", "branch", "from-stash", "stash@{0}"]);
    let after = summary_of(&format!("# branch.oid abc\0# branch.head from-stash\0{STAGED}"), "origin\n", ORIGIN_MAIN, "0\t0\n");
    assert_eq!(after.head, Head::Branch("from-stash".into()));
    assert_eq!(after.changes.staged, 1, "stash applied with its index");
    assert_eq!(after.stash_count, 0, "stash dropped after applying");
}

#[test]
fn stash_commands() {
    let line = |kind, message: Option<&str>| ops::stash(&repo(), kind, message).display_args();
    assert_eq!(line(StashKind::Staged, Some("only staged")), "git stash push --staged -m 'only staged'");
    assert_eq!(line(StashKind::All, Some("  ")), "git stash push --include-untracked");
    assert_eq!(line(StashKind::TrackedFiles, Some("first")), "git stash push -m first");
    assert_eq!(line(StashKind::KeepIndex, None), "git stash push --include-untracked --keep-index");
    assert_eq!(ops::stash_branch(&repo(), 0, "b").display_args(), "git stash branch b stash@{0}");
    assert_eq!(ops::stash_apply(&repo(), 2).display_args(), "git stash apply stash@{2}");
}

#[test]
fn staging_commands() {
    let unstaged = file("f", '.', 'M', FileKind::Ordinary);
    let staged = file("f", 'M', '.', FileKind::Ordinary);
    assert_eq!(ops::toggle_stage(&repo(), &unstaged, false).display_args(), "git add -A -- f");
    assert!(ops::toggle_stage(&repo(), &staged, false).display_args().contains("-- f"));
    assert_ne!(
        ops::toggle_stage(&repo(), &staged, false).display_args(),
        ops::toggle_stage(&repo(), &staged, true).display_args()
    );
    let patch = ops::apply_patch(&repo(), b"p".to_vec(), PatchAction::Unstage);
    assert_eq!(patch.stdin.as_deref(), Some(&b"p"[..]));
    assert!(patch.display_args().contains("--reverse") && patch.display_args().contains("--cached"));
    let patch = ops::apply_patch(&repo(), b"p".to_vec(), PatchAction::Discard);
    assert!(patch.display_args().contains("--reverse") && !patch.display_args().contains("--cached"));
    let patch = ops::apply_patch(&repo(), b"p".to_vec(), PatchAction::Stage);
    assert!(!patch.display_args().contains("--reverse") && patch.display_args().contains("--cached"));
}

#[test]
fn pushes_only_force_when_asked() {
    let line = |upstream, remote, force| ops::push(&repo(), upstream, remote, force).display_args();
    assert_eq!(line(true, Some("origin"), false), "git push");
    assert!(!line(false, Some("origin"), false).contains("force"));
    assert!(line(true, None, true).contains("--force-with-lease"));
    assert!(line(false, Some("up"), false).contains("up"));
}

#[test]
fn failures_that_can_be_forced() {
    let unmerged = fails("error: the branch 'x' is not fully merged").unwrap_err();
    assert!(ops::is_not_fully_merged(&unmerged));
    assert!(!ops::is_push_rejected(&unmerged));
    let rejected = fails(" ! [rejected]        main -> main (non-fast-forward)").unwrap_err();
    assert!(ops::is_push_rejected(&rejected));
    assert!(!ops::is_not_fully_merged(&rejected));
}

#[test]
fn fast_forwarding_needs_an_upstream() {
    let branch = |upstream, is_head| Branch {
        name: "b".into(),
        is_head,
        short_oid: "1".into(),
        upstream,
        base: None,
        committed: None,
        subject: String::new(),
        worktree: None,
    };
    let tracking = || Upstream::Tracking { name: "origin/b".into(), ahead: 0, behind: 1 };
    assert!(ops::fast_forward(&repo(), &branch(tracking(), false)).is_ok());
    assert!(ops::fast_forward(&repo(), &branch(tracking(), true)).is_ok());
    assert!(ops::fast_forward(&repo(), &branch(Upstream::Unset, false)).is_err());
}

#[test]
fn checking_out_a_remote_branch_twice_uses_the_local_one() {
    let remote = RemoteBranch {
        remote: "origin".into(),
        name: "x".into(),
        short_oid: "1".into(),
        subject: String::new(),
    };
    assert!(ops::checkout_remote(&repo(), &remote).display_args().contains("origin/x"));
    let exists = fails("fatal: a branch named 'x' already exists");
    let next = ops::checkout_remote_next(&repo(), &remote, &exists).unwrap();
    assert!(!next.display_args().contains("origin"), "{}", next.display_args());
    assert_eq!(ops::checkout_remote_next(&repo(), &remote, &says("")), None);
    assert_eq!(ops::checkout_remote_next(&repo(), &remote, &fails("fatal: no")), None);
}

// ---- summaries -------------------------------------------------------------------------------

#[test]
fn primary_remote_prefers_upstream_then_origin() {
    let remotes = vec!["fork".to_string(), "origin".to_string(), "team/x".to_string()];
    assert_eq!(primary_remote(&remotes, Some("fork/feat")), Some("fork"));
    assert_eq!(primary_remote(&remotes, Some("team/x/feat")), Some("team/x"));
    assert_eq!(primary_remote(&remotes, None), Some("origin"));
    assert_eq!(primary_remote(&["up".to_string()], None), Some("up"));
    assert_eq!(primary_remote(&[], None), None);
}

#[test]
fn default_branch_prefers_symbolic_head() {
    let patterns: Vec<String> = ["HEAD", "main", "master"]
        .iter()
        .map(|b| format!("refs/remotes/origin/{b}"))
        .collect();
    let refs = vec![
        ("refs/remotes/origin/HEAD".into(), "refs/remotes/origin/develop".into()),
        ("refs/remotes/origin/main".into(), String::new()),
    ];
    let picked = pick_default_branch(&patterns, &refs).unwrap();
    assert_eq!(picked.short, "origin/develop");
    let picked = pick_default_branch(&patterns, &refs[1..]).unwrap();
    assert_eq!(picked.full_ref, "refs/remotes/origin/main");
    assert_eq!(pick_default_branch(&patterns, &[]), None);
}

/// A summary of a repo where git says `status`, has the remote origin or none, and `refs` and
/// `counts` of the default branch.
fn parts(bare: bool, status: &str, remotes: &str, refs: &str, counts: &str) -> (SummaryParts, Vec<String>) {
    let repo = RepoLocation { bare, ..repo() };
    let mut commands = Vec::new();
    let mut step = summary::summarize(&repo);
    loop {
        match step {
            SummaryStep::Run { cmd, stage } => {
                assert_eq!(cmd.kind, CmdKind::Read);
                let line = cmd.display_args();
                let reply = if line.contains("status") {
                    says(status)
                } else if line.contains("for-each-ref") {
                    says(refs)
                } else if line.contains("rev-list") {
                    says(counts)
                } else if line.contains("symbolic-ref") {
                    says(status)
                } else if line.contains("remote") {
                    says(remotes)
                } else {
                    says("")
                };
                commands.push(line);
                step = summary::summarize_next(&repo, stage, reply);
            }
            SummaryStep::Done { parts } => return (parts, commands),
            SummaryStep::Failed { error } => panic!("{error:?}"),
        }
    }
}

const ORIGIN_MAIN: &str = "refs/remotes/origin/main\x1f\x1e\n";

fn summary_of(status: &str, remotes: &str, refs: &str, counts: &str) -> RepoSummary {
    finish_summary(parts(false, status, remotes, refs, counts).0, None, None, false)
}

fn tracking(name: &str, ahead: u32, behind: u32) -> Upstream {
    Upstream::Tracking { name: name.into(), ahead, behind }
}

fn base(name: &str, ahead: u32, behind: u32) -> Option<BaseDivergence> {
    Some(BaseDivergence { base: name.into(), ahead, behind })
}

fn on_branch(branch: &str, upstream: &str, counts: &str) -> String {
    format!("# branch.oid abc\0# branch.head {branch}\0# branch.upstream {upstream}\0# branch.ab {counts}\0")
}

#[test]
fn synced_ahead_behind_diverged() {
    let s = summary_of(&on_branch("main", "origin/main", "+0 -0"), "origin\n", ORIGIN_MAIN, "0\t0\n");
    assert_eq!(s.head, Head::Branch("main".into()));
    assert_eq!(s.upstream, tracking("origin/main", 0, 0));
    assert_eq!(s.base, base("origin/main", 0, 0));
    assert!(s.is_settled());
    assert!(s.last_fetch.is_none());

    let ahead = summary_of(&on_branch("main", "origin/main", "+1 -0"), "origin\n", ORIGIN_MAIN, "1\t0\n");
    assert_eq!(ahead.upstream, tracking("origin/main", 1, 0));
    let behind = parts(false, &on_branch("main", "origin/main", "+0 -2"), "origin\n", ORIGIN_MAIN, "0\t2\n").0;
    let behind = finish_summary(behind, None, last_fetch(Some(1_700_000_000), None), false);
    assert_eq!(behind.upstream, tracking("origin/main", 0, 2));
    assert!(behind.last_fetch.is_some());

    let diverged = summary_of(&on_branch("main", "origin/main", "+1 -2"), "origin\n", ORIGIN_MAIN, "1\t2\n");
    assert_eq!(diverged.upstream, tracking("origin/main", 1, 2));
    assert_eq!(diverged.base, base("origin/main", 1, 2));
    assert!(!diverged.is_settled());
}

#[test]
fn stash_shallow_bare_worktree_submodule_nested() {
    let main = on_branch("main", "origin/main", "+0 -0");
    let s = summary_of(&format!("{main}# stash 2\0"), "origin\n", ORIGIN_MAIN, "0\t0\n");
    assert_eq!(s.stash_count, 2);
    let synced = || parts(false, &main, "origin\n", ORIGIN_MAIN, "0\t0\n").0;
    assert!(finish_summary(synced(), None, None, true).shallow);
    assert!(!finish_summary(synced(), None, None, false).shallow);

    let s = finish_summary(parts(true, "main\n", "", "", "").0, None, None, false);
    assert_eq!(s.head, Head::Unborn("main".into()));
    assert!(s.changes.is_clean());

    let s = summary_of("# branch.oid abc\0# branch.head wt-branch\0", "origin\n", ORIGIN_MAIN, "0\t0\n");
    assert_eq!(s.head, Head::Branch("wt-branch".into()));
    assert_eq!(s.base, base("origin/main", 0, 0));

    let s = summary_of(&on_branch("main", "origin/main", "+1 -0"), "origin\n", ORIGIN_MAIN, "1\t0\n");
    assert_eq!(s.upstream, tracking("origin/main", 1, 0));
    assert!(s.changes.is_clean());

    let nested = Candidate { root: path("/w/group/nested-svc"), bare: false };
    let found = resolved(&path("/w"), &nested, "/w/group/nested-svc/.git\n/w/group/nested-svc/.git\nfalse\n").unwrap();
    assert_eq!(found.name, "group/nested-svc");
    assert_eq!(summary_of(&main, "origin\n", ORIGIN_MAIN, "0\t0\n").upstream, tracking("origin/main", 0, 0));
}

#[test]
fn dirty_counts() {
    let status = format!(
        "{}1 M. N... 100644 100644 100644 a b README.md\0\
1 .M N... 100644 100644 100644 a b app.txt\0? untracked.txt\0",
        on_branch("main", "origin/main", "+0 -0")
    );
    let s = summary_of(&status, "origin\n", ORIGIN_MAIN, "0\t0\n");
    assert_eq!(s.changes, ChangeCounts { files: 3, staged: 1, unstaged: 1, untracked: 1, conflicted: 0 });
}

#[test]
fn feature_branch_measured_against_default_branch() {
    let s = summary_of(&on_branch("feature", "origin/feature", "+0 -0"), "origin\n", ORIGIN_MAIN, "2\t1\n");
    assert_eq!(s.head, Head::Branch("feature".into()));
    assert_eq!(s.upstream, tracking("origin/feature", 0, 0));
    assert_eq!(s.base, base("origin/main", 2, 1));
}

#[test]
fn detached_and_unborn() {
    let oid = "0123456789012345678901234567890123456789";
    let s = summary_of(&format!("# branch.oid {oid}\0# branch.head (detached)\0"), "origin\n", ORIGIN_MAIN, "0\t1\n");
    assert_eq!(s.head, Head::Detached(oid.into()));
    assert_eq!(s.upstream, Upstream::Unset);
    assert_eq!(s.base, base("origin/main", 0, 1));

    let s = summary_of("# branch.oid (initial)\0# branch.head main\0? new.txt\0", "", "", "");
    assert_eq!(s.head, Head::Unborn("main".into()));
    assert_eq!(s.base, None);
    assert_eq!(s.changes.untracked, 1);
    assert!(!s.has_remote());
}

#[test]
fn no_upstream_gone_no_remote() {
    let s = summary_of("# branch.oid abc\0# branch.head x\0", "origin\n", ORIGIN_MAIN, "1\t0\n");
    assert_eq!(s.upstream, Upstream::Unset);
    assert_eq!(s.base, base("origin/main", 1, 0));

    let gone = "# branch.oid abc\0# branch.head old-feature\0# branch.upstream origin/old-feature\0";
    let s = summary_of(gone, "origin\n", ORIGIN_MAIN, "1\t0\n");
    assert_eq!(s.upstream, Upstream::Gone { name: "origin/old-feature".into() });
    assert_eq!(s.base, base("origin/main", 1, 0));

    let s = summary_of("# branch.oid abc\0# branch.head main\0", "", "refs/heads/main\x1f\x1e\n", "0\t0\n");
    assert!(!s.has_remote());
    assert_eq!(s.upstream, Upstream::Unset);
    assert_eq!(s.base, base("main", 0, 0));
}

#[test]
fn legacy_master_without_origin_head() {
    let refs = "refs/remotes/origin/master\x1f\x1e\n";
    let s = summary_of(&on_branch("master", "origin/master", "+0 -0"), "origin\n", refs, "0\t0\n");
    assert_eq!(s.head, Head::Branch("master".into()));
    assert_eq!(s.base, base("origin/master", 0, 0));
}

#[test]
fn a_bare_repo_without_commits_is_unborn() {
    let (parts, commands) = parts(true, "main\n", "", "", "");
    let s = finish_summary(parts, None, None, true);
    assert_eq!(s.head, Head::Unborn("main".into()));
    assert!(s.changes.is_clean());
    assert!(s.shallow);
    assert!(!commands.iter().any(|c| c.contains("status")), "{commands:?}");
}

fn no_markers() -> GitDirMarkers {
    GitDirMarkers {
        rebase_merge: None,
        rebase_apply: None,
        applying: false,
        merge_head: false,
        cherry_pick_head: false,
        revert_head: false,
        bisect_log: false,
    }
}

#[test]
fn in_progress_operations() {
    let files = || RebaseFiles {
        number: Some("1\n".into()),
        total: Some("1\n".into()),
        head_name: Some("refs/heads/main\n".into()),
    };
    assert_eq!(
        repo_op(&GitDirMarkers { rebase_merge: Some(files()), ..no_markers() }),
        Some(RepoOp::Rebasing { step: Some((1, 1)), branch: Some("main".into()) })
    );
    assert_eq!(
        repo_op(&GitDirMarkers { rebase_apply: Some(files()), applying: true, ..no_markers() }),
        Some(RepoOp::ApplyingMailbox)
    );
    assert_eq!(repo_op(&GitDirMarkers { merge_head: true, ..no_markers() }), Some(RepoOp::Merging));
    assert_eq!(repo_op(&GitDirMarkers { cherry_pick_head: true, ..no_markers() }), Some(RepoOp::CherryPicking));
    assert_eq!(repo_op(&GitDirMarkers { revert_head: true, ..no_markers() }), Some(RepoOp::Reverting));
    assert_eq!(repo_op(&GitDirMarkers { bisect_log: true, ..no_markers() }), Some(RepoOp::Bisecting));
    assert_eq!(repo_op(&no_markers()), None);
}

#[test]
fn the_later_fetch_counts() {
    assert_eq!(last_fetch(Some(1), Some(2)), Some(2));
    assert_eq!(last_fetch(Some(1), None), Some(1));
    assert_eq!(last_fetch(None, None), None);
    assert_eq!(default_branch_patterns(&[], None), ["refs/heads/main", "refs/heads/master"]);
}

// ---- discovery -------------------------------------------------------------------------------

fn facts(depth: usize, has_git: bool) -> EntryFacts {
    EntryFacts { is_dir: true, depth, has_git, head_file: false, objects_dir: false, refs_dir: false }
}

#[test]
fn walks_past_build_outputs_and_into_no_repo() {
    assert!(is_skip_dir(b"node_modules"));
    assert!(!is_skip_dir(b"src"));
    assert_eq!(visit(b"src", &facts(1, false)), Visit::Descend);
    assert_eq!(visit(b"src", &facts(1, true)), Visit::Found { bare: false });
    assert_eq!(visit(b"target", &facts(1, true)), Visit::Skip);
    assert_eq!(visit(b".cache", &facts(2, true)), Visit::Skip);
    assert_eq!(visit(b".work", &facts(0, false)), Visit::Descend);
    let bare = EntryFacts { head_file: true, objects_dir: true, refs_dir: true, ..facts(1, false) };
    assert_eq!(visit(b"bare-repo.git", &bare), Visit::Found { bare: true });
    let file = EntryFacts { is_dir: false, ..facts(1, false) };
    assert_eq!(visit(b"node_modules", &file), Visit::Descend);
}

/// Walks directories as a walk of the disk does: each before what it holds, by name.
fn walk(dirs: &[(&str, EntryFacts)], max_depth: usize) -> Vec<Candidate> {
    let mut found = Vec::new();
    let mut skipped: Vec<String> = Vec::new();
    for (dir, facts) in dirs {
        let depth = dir.matches('/').count() - 1;
        if depth > max_depth || skipped.iter().any(|s| dir.starts_with(&format!("{s}/"))) {
            continue;
        }
        let name = dir.rsplit('/').next().unwrap().as_bytes();
        match visit(name, &EntryFacts { depth, ..*facts }) {
            Visit::Descend => {}
            Visit::Skip => skipped.push(dir.to_string()),
            Visit::Found { bare } => {
                found.push(Candidate { root: path(dir), bare });
                skipped.push(dir.to_string());
            }
        }
    }
    found
}

#[test]
fn discovers_every_repo_once() {
    let repos = [
        "ahead", "bare-repo.git", "behind", "detached", "dirty", "diverged", "feature",
        "gone", "group/nested-svc", "legacy", "merging", "no-remote", "no-upstream",
        "rebasing", "shallow", "stashed", "synced", "unborn", "with-submodule", "wt-linked",
        "wt-main",
    ];
    let plain = facts(0, false);
    let git = facts(0, true);
    let bare = EntryFacts { head_file: true, objects_dir: true, refs_dir: true, ..plain };
    let mut dirs: Vec<(String, EntryFacts)> = vec![("/w".into(), plain), ("/w/.cache".into(), plain)];
    dirs.push(("/w/.cache/copy".into(), git));
    dirs.push(("/w/deep/er/and/deeper".into(), git));
    dirs.push(("/w/group".into(), plain));
    dirs.push(("/w/node_modules".into(), plain));
    dirs.push(("/w/node_modules/dep".into(), git));
    dirs.push(("/w/with-submodule/sub".into(), git));
    for name in repos {
        dirs.push((format!("/w/{name}"), if name == "bare-repo.git" { bare } else { git }));
    }
    dirs.sort_by(|a, b| a.0.cmp(&b.0));
    let dirs: Vec<(&str, EntryFacts)> = dirs.iter().map(|(d, f)| (d.as_str(), *f)).collect();
    let found: Vec<RepoLocation> = walk(&dirs, 3)
        .iter()
        .map(|candidate| {
            let root = String::from_utf8(candidate.root.bytes.clone()).unwrap();
            let reply = match root.as_str() {
                "/w/bare-repo.git" => format!("{root}\n{root}\ntrue\n"),
                "/w/wt-linked" => "/w/wt-main/.git/worktrees/wt-linked\n/w/wt-main/.git\nfalse\n".to_string(),
                _ => format!("{root}/.git\n{root}/.git\nfalse\n"),
            };
            resolved(&path("/w"), candidate, &reply).unwrap()
        })
        .collect();
    let names: Vec<&str> = found.iter().map(|r| r.name.as_str()).collect();
    assert_eq!(names, repos);
    let repo = |name: &str| found.iter().find(|r| r.name == name).unwrap();
    assert!(repo("bare-repo.git").bare);
    assert!(repo("wt-linked").is_linked_worktree());
    assert_eq!(repo("wt-linked").common_dir, repo("wt-main").git_dir);
    assert!(!repo("wt-main").is_linked_worktree());
}

#[test]
fn git_confirms_a_candidate() {
    let candidate = Candidate { root: path("/w/group/svc"), bare: false };
    assert!(resolve(&candidate).display_args().contains("rev-parse"));
    let found = resolved(&path("/w"), &candidate, "/w/group/svc/.git\n/w/group/svc/.git\nfalse\n").unwrap();
    assert_eq!(found.name, "group/svc");
    assert_eq!(found.git_dir, path("/w/group/svc/.git"));
    assert!(!found.bare && !found.is_linked_worktree());
    let error = resolved(&path("/w"), &candidate, "x\n").unwrap_err();
    assert_eq!(error, "unexpected rev-parse output: \"x\\n\"");
    assert_eq!(display_name(&path("/w"), &path("/w")), "w");
    assert_eq!(display_name(&path("/w"), &path("/other/repo")), "repo");
}

// ---- diffs and texts -------------------------------------------------------------------------

#[test]
fn a_file_has_a_diff_per_half() {
    let both = file("f", 'M', 'M', FileKind::Ordinary);
    let (unstaged, staged) = file_diff(&repo(), &both);
    assert!(unstaged.is_some() && staged.is_some());
    let (unstaged, staged) = file_diff(&repo(), &file("f", '.', 'M', FileKind::Ordinary));
    assert!(unstaged.is_some() && staged.is_none());
    let (unstaged, staged) = file_diff(&repo(), &file("f", '?', '?', FileKind::Untracked));
    assert!(unstaged.unwrap().display_args().contains("--no-index") && staged.is_none());
    let diff = finish_file_diff(Some(says("u")), None).unwrap();
    assert_eq!((diff.unstaged.as_deref(), diff.staged), (Some(&b"u"[..]), None));
    assert!(finish_file_diff(Some(fails("no")), None).is_err());
    assert_eq!(find_file(&vec![file("a", 'M', '.', FileKind::Ordinary)], "a").unwrap().path, "a");
    assert_eq!(find_file(&Vec::new(), "a"), None);
}

#[test]
fn long_texts_are_cut() {
    assert_eq!(to_lines("a\nb\n"), ["a", "b"]);
    let long = "x\n".repeat(MAX_MAIN_LINES + 5);
    let lines = to_lines(&long);
    assert_eq!(lines.len(), MAX_MAIN_LINES + 1);
    assert_eq!(lines[MAX_MAIN_LINES - 1], "x");
    assert_eq!(lines[MAX_MAIN_LINES], "… output truncated at 20000 lines");
    assert_eq!(to_lines("a\tb"), ["a    b"]);
    for cmd in [show(&repo(), "abc"), stash_show(&repo(), 0), graph_log(&repo(), "main")] {
        assert_eq!(cmd.kind, CmdKind::Read);
    }
}

#[test]
fn gh_may_be_another_program() {
    assert_eq!(Gh::new().program, path("gh"));
    assert_eq!(Gh::new().with_program(path("/opt/gh")).program, path("/opt/gh"));
    assert_eq!(Gh::new().removed_environment(), ["GH_FORCE_TTY", "CLICOLOR_FORCE"]);
}

#[test]
fn what_a_path_holds_below_another() {
    let below = |p: &str, base: &str| path(p).strip_prefix(&path(base)).map(|r| String::from_utf8(r.bytes).unwrap());
    assert_eq!(below("/w/a/b", "/w"), Some("a/b".into()));
    assert_eq!(below("//w//a//./b//", "/w/."), Some("a//./b".into()));
    assert_eq!(below("/w", "/w/"), Some("".into()));
    assert_eq!(below("/a", "/"), Some("a".into()));
    assert_eq!(below("./a/b", "."), Some("a/b".into()));
    assert_eq!(below("./a/b", "./a"), Some("b".into()));
    assert_eq!(below("../a", ".."), Some("a".into()));
    // Nothing parts a path from an empty one.
    assert_eq!(below("//a/", ""), Some("//a".into()));
    assert_eq!(below(".//a", ""), Some(".//a".into()));
    assert_eq!(below("///", ""), Some("/".into()));
    assert_eq!(below("a/b", "b"), None);
    assert_eq!(below("ab", "a"), None);
}

#[test]
fn why_git_could_not_start() {
    let error = GitError::Spawn("no such file".into());
    assert_eq!(error.message(), "failed to run git: no such file");
    assert_eq!(error.with_cause(), "failed to run git: no such file: no such file");
    let failed = fails("fatal: no\n").unwrap_err();
    assert_eq!(failed.with_cause(), failed.message());
}
