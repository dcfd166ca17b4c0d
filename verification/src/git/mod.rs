//! The `git` CLI with settings that are safe for a background GUI: write-free reads, no
//! prompts, no pagers, no colour, bounded run time.

use vstd::prelude::*;

use crate::path::FsPath;
use crate::process::{display_command, first_line, first_line_of, shown_command, ExitOutput, RunError, RunErrorView};
use crate::text::outside::{duration_text, lossy_text, show_duration, text_lossy};
use crate::text::strings::{
    chars_of, copied, is_blank, same_str, str_starts_with, str_views, string_of, strings, text_opt, texts, trim,
    trimmed,
};

pub mod parse;

verus! {

/// What a command does to a repo.
#[derive(Clone, Copy, Debug, PartialEq, Eq, Structural)]
pub enum CmdKind {
    /// Must not write to the repo: runs with `--no-optional-locks` and fsmonitor off.
    Read,
    /// Changes the repo (stage, commit, checkout...).
    Write,
    /// Talks to a remote (fetch, pull, push). Also changes the repo.
    Network,
}

/// Concurrent network operations across all repos.
pub const MAX_CONCURRENT_NETWORK: usize = 4;

/// Makes ssh fail rather than ask.
pub const SSH_OPTIONS: &'static str =
    "-o BatchMode=yes -o ConnectTimeout=15 -o ServerAliveInterval=15 -o ServerAliveCountMax=2";

/// A git command to run.
#[derive(Debug, PartialEq, Eq)]
pub struct GitCommand {
    pub cwd: FsPath,
    pub args: Vec<String>,
    pub kind: CmdKind,
    pub stdin: Option<Vec<u8>>,
    pub timeout_ms: u64,
    /// Non-zero exit codes that still count as success (e.g. 1 for `diff --no-index`).
    pub ok_codes: Vec<i32>,
}

#[verifier::ext_equal]
pub ghost struct CommandView {
    pub cwd: Seq<u8>,
    pub args: Seq<Seq<char>>,
    pub kind: CmdKind,
    pub stdin: Option<Seq<u8>>,
    pub timeout_ms: u64,
    pub ok_codes: Seq<i32>,
}

/// The view of optional bytes.
pub open spec fn bytes_opt(b: Option<Vec<u8>>) -> Option<Seq<u8>> {
    match b {
        Some(b) => Some(b@),
        None => None,
    }
}

impl View for GitCommand {
    type V = CommandView;

    open spec fn view(&self) -> CommandView {
        CommandView {
            cwd: self.cwd@,
            args: texts(self.args@),
            kind: self.kind,
            stdin: bytes_opt(self.stdin),
            timeout_ms: self.timeout_ms,
            ok_codes: self.ok_codes@,
        }
    }
}

/// How long a command may take.
pub open spec fn timeout_of(kind: CmdKind) -> u64 {
    match kind {
        CmdKind::Read => 30_000,
        CmdKind::Write => 120_000,
        CmdKind::Network => 90_000,
    }
}

/// A command with nothing on stdin and no other exit codes allowed.
pub open spec fn command(cwd: Seq<u8>, kind: CmdKind, args: Seq<Seq<char>>) -> CommandView {
    CommandView {
        cwd,
        args,
        kind,
        stdin: None,
        timeout_ms: timeout_of(kind),
        ok_codes: Seq::empty(),
    }
}

/// A command that must not write to the repo.
pub open spec fn read_command(cwd: Seq<u8>, args: Seq<Seq<char>>) -> CommandView {
    command(cwd, CmdKind::Read, args)
}

/// A command that changes the repo.
pub open spec fn write_command(cwd: Seq<u8>, args: Seq<Seq<char>>) -> CommandView {
    command(cwd, CmdKind::Write, args)
}

/// A command that talks to a remote.
pub open spec fn network_command(cwd: Seq<u8>, args: Seq<Seq<char>>) -> CommandView {
    command(cwd, CmdKind::Network, args)
}

/// The arguments before a command's own.
pub open spec fn global_args(kind: CmdKind) -> Seq<Seq<char>> {
    seq!["-c"@, "core.quotepath=false"@, "-c"@, "color.ui=false"@] + (match kind {
        CmdKind::Read => seq!["--no-optional-locks"@, "-c"@, "core.fsmonitor=false"@],
        CmdKind::Write => Seq::empty(),
        CmdKind::Network => seq![
            "-c"@,
            "http.lowSpeedLimit=1000"@,
            "-c"@,
            "http.lowSpeedTime=30"@,
        ],
    })
}

/// The views of some environment variables.
pub open spec fn env_views(env: Seq<(String, String)>) -> Seq<(Seq<char>, Seq<char>)> {
    env.map_values(|e: (String, String)| (e.0@, e.1@))
}

/// The environment that keeps git from asking, paging or editing.
pub open spec fn quiet_env() -> Seq<(Seq<char>, Seq<char>)> {
    seq![
        ("LC_ALL"@, "C"@),
        ("GIT_PAGER"@, "cat"@),
        ("PAGER"@, "cat"@),
        ("GIT_EDITOR"@, "true"@),
        ("GIT_SEQUENCE_EDITOR"@, "true"@),
        ("GIT_MERGE_AUTOEDIT"@, "no"@),
        ("GIT_TERMINAL_PROMPT"@, "0"@),
        ("GCM_INTERACTIVE"@, "never"@),
        ("SSH_ASKPASS_REQUIRE"@, "never"@),
    ]
}

/// The environment of a git process. Later entries win.
pub open spec fn command_env(
    ssh: Option<Seq<char>>,
    extra: Seq<(Seq<char>, Seq<char>)>,
) -> Seq<(Seq<char>, Seq<char>)> {
    quiet_env() + (match ssh {
        Some(cmd) => seq![("GIT_SSH_COMMAND"@, cmd)],
        None => Seq::empty(),
    }) + extra
}

/// Adds a variable.
fn push_env(env: &mut Vec<(String, String)>, key: &str, value: &str)
    ensures
        env_views(final(env)@) == env_views(old(env)@).push((key@, value@)),
{
    env.push((key.to_owned(), value.to_owned()));
    assert(env_views(env@) =~= env_views(old(env)@).push((key@, value@)));
}

/// The environment for a git process: no prompts, no pager, no editor; then `ssh_command`
/// and what the user of the runner adds.
pub fn environment(ssh_command: Option<&str>, extra: &Vec<(String, String)>) -> (r: Vec<(String, String)>)
    ensures
        env_views(r@) == command_env(
            match ssh_command {
                Some(cmd) => Some(cmd@),
                None => None,
            },
            env_views(extra@),
        ),
{
    let mut env: Vec<(String, String)> = Vec::new();
    push_env(&mut env, "LC_ALL", "C");
    push_env(&mut env, "GIT_PAGER", "cat");
    push_env(&mut env, "PAGER", "cat");
    push_env(&mut env, "GIT_EDITOR", "true");
    push_env(&mut env, "GIT_SEQUENCE_EDITOR", "true");
    push_env(&mut env, "GIT_MERGE_AUTOEDIT", "no");
    push_env(&mut env, "GIT_TERMINAL_PROMPT", "0");
    push_env(&mut env, "GCM_INTERACTIVE", "never");
    push_env(&mut env, "SSH_ASKPASS_REQUIRE", "never");
    assert(env_views(env@) =~= quiet_env());
    match ssh_command {
        Some(cmd) => {
            push_env(&mut env, "GIT_SSH_COMMAND", cmd);
            assert(env_views(env@) =~= quiet_env() + seq![("GIT_SSH_COMMAND"@, cmd@)]);
        },
        None => {
            assert(env_views(env@) =~= quiet_env() + Seq::empty());
        },
    }
    let ghost start = env_views(env@);
    let ghost all = env_views(extra@);
    let mut i: usize = 0;
    while i < extra.len()
        invariant
            i <= extra@.len(),
            all == env_views(extra@),
            env_views(env@) == start + all.take(i as int),
        decreases extra@.len() - i,
    {
        push_env(&mut env, extra[i].0.as_str(), extra[i].1.as_str());
        assert(start + all.take(i + 1) =~= (start + all.take(i as int)).push(all[i as int]));
        i = i + 1;
    }
    assert(all.take(all.len() as int) =~= all);
    env
}

/// Whether an exit code counts as success.
pub open spec fn accepted(code: Option<i32>, ok_codes: Seq<i32>) -> bool {
    code matches Some(c) && (c == 0 || ok_codes.contains(c))
}

/// Whether a code is in a list.
fn lists_code(codes: &Vec<i32>, code: i32) -> (r: bool)
    ensures
        r == codes@.contains(code),
{
    let mut i: usize = 0;
    while i < codes.len()
        invariant
            i <= codes@.len(),
            forall|j: int| 0 <= j < i ==> codes@[j] != code,
        decreases codes@.len() - i,
    {
        if codes[i] == code {
            return true;
        }
        i = i + 1;
    }
    false
}

/// A copy of optional bytes.
fn clone_bytes_opt(b: &Option<Vec<u8>>) -> (r: Option<Vec<u8>>)
    ensures
        bytes_opt(r) == bytes_opt(*b),
{
    match b {
        Some(b) => Some(crate::path::copy_bytes(b.as_slice())),
        None => None,
    }
}

impl Clone for GitCommand {
    fn clone(&self) -> (r: Self)
        ensures
            r@ == self@,
    {
        let ok_codes = self.ok_codes.clone();
        assert(ok_codes@ =~= self.ok_codes@);
        GitCommand {
            cwd: self.cwd.clone(),
            args: copied(&self.args),
            kind: self.kind,
            stdin: clone_bytes_opt(&self.stdin),
            timeout_ms: self.timeout_ms,
            ok_codes,
        }
    }
}

impl GitCommand {
    /// A command to run in `cwd`.
    pub fn new(cwd: &FsPath, kind: CmdKind, args: Vec<String>) -> (r: GitCommand)
        ensures
            r@ == command(cwd@, kind, texts(args@)),
    {
        let timeout_ms: u64 = match kind {
            CmdKind::Read => 30_000,
            CmdKind::Write => 120_000,
            CmdKind::Network => 90_000,
        };
        GitCommand { cwd: cwd.clone(), args, kind, stdin: None, timeout_ms, ok_codes: Vec::new() }
    }

    /// A command that must not write to the repo.
    pub fn read(cwd: &FsPath, args: Vec<&str>) -> (r: GitCommand)
        ensures
            r@ == read_command(cwd@, str_views(args@)),
    {
        GitCommand::new(cwd, CmdKind::Read, strings(args))
    }

    /// A command that changes the repo.
    pub fn write(cwd: &FsPath, args: Vec<&str>) -> (r: GitCommand)
        ensures
            r@ == write_command(cwd@, str_views(args@)),
    {
        GitCommand::new(cwd, CmdKind::Write, strings(args))
    }

    /// A command that talks to a remote.
    pub fn network(cwd: &FsPath, args: Vec<&str>) -> (r: GitCommand)
        ensures
            r@ == network_command(cwd@, str_views(args@)),
    {
        GitCommand::new(cwd, CmdKind::Network, strings(args))
    }

    /// Lets these exit codes count as success, too.
    pub fn ok_codes(self, codes: Vec<i32>) -> (r: GitCommand)
        ensures
            r@ == (CommandView { ok_codes: codes@, ..self@ }),
    {
        let mut cmd = self;
        cmd.ok_codes = codes;
        cmd
    }

    /// Gives the command something to read.
    pub fn stdin(self, input: Vec<u8>) -> (r: GitCommand)
        ensures
            r@ == (CommandView { stdin: Some(input@), ..self@ }),
    {
        let mut cmd = self;
        cmd.stdin = Some(input);
        cmd
    }

    /// Sets how long the command may take.
    pub fn timeout(self, timeout_ms: u64) -> (r: GitCommand)
        ensures
            r@ == (CommandView { timeout_ms, ..self@ }),
    {
        let mut cmd = self;
        cmd.timeout_ms = timeout_ms;
        cmd
    }

    /// The command line for the command log.
    pub fn display_args(&self) -> (r: String)
        ensures
            r@ == shown_command("git"@, self@.args),
    {
        display_command("git", &self.args)
    }

    /// Everything to pass to `git`.
    pub fn full_args(&self) -> (r: Vec<String>)
        ensures
            texts(r@) == global_args(self@.kind) + self@.args,
    {
        let start: Vec<&str> = match self.kind {
            CmdKind::Read => vec![
                "-c",
                "core.quotepath=false",
                "-c",
                "color.ui=false",
                "--no-optional-locks",
                "-c",
                "core.fsmonitor=false",
            ],
            CmdKind::Write => vec!["-c", "core.quotepath=false", "-c", "color.ui=false"],
            CmdKind::Network => vec![
                "-c",
                "core.quotepath=false",
                "-c",
                "color.ui=false",
                "-c",
                "http.lowSpeedLimit=1000",
                "-c",
                "http.lowSpeedTime=30",
            ],
        };
        assert(str_views(start@) =~= global_args(self.kind));
        let mut out = strings(start);
        let mut more = copied(&self.args);
        let ghost first = out@;
        let ghost second = more@;
        out.append(&mut more);
        assert(texts(out@) =~= texts(first) + texts(second));
        out
    }

    /// What a run of the command comes to.
    pub fn finish(&self, outcome: Result<ExitOutput, RunError>) -> (r: Result<GitOutput, GitError>)
        ensures
            reply_view(r) == finished(self@, outcome),
    {
        match outcome {
            Ok(output) => {
                let stderr = text_lossy(output.stderr.as_slice());
                let ok = match output.code {
                    Some(code) => code == 0 || lists_code(&self.ok_codes, code),
                    None => false,
                };
                if ok {
                    Ok(GitOutput { stdout: output.stdout, stderr })
                } else {
                    Err(
                        GitError::Failed {
                            command: self.display_args(),
                            code: output.code,
                            stderr,
                            stdout: text_lossy(output.stdout.as_slice()),
                        },
                    )
                }
            },
            Err(RunError::Spawn { message, not_found: _ }) => Err(GitError::Spawn(message)),
            Err(RunError::Io { message }) => Err(GitError::Spawn(message)),
            Err(RunError::TimedOut) => Err(
                GitError::Timeout { command: self.display_args(), timeout_ms: self.timeout_ms },
            ),
        }
    }
}

/// What a successful command printed.
#[derive(Debug, PartialEq, Eq)]
pub struct GitOutput {
    pub stdout: Vec<u8>,
    pub stderr: String,
}

#[verifier::ext_equal]
pub ghost struct OutputView {
    pub stdout: Seq<u8>,
    pub stderr: Seq<char>,
}

impl View for GitOutput {
    type V = OutputView;

    open spec fn view(&self) -> OutputView {
        OutputView { stdout: self.stdout@, stderr: self.stderr@ }
    }
}

impl OutputView {
    /// What was printed, as text.
    pub open spec fn text(self) -> Seq<char> {
        lossy_text(self.stdout)
    }
}

impl GitOutput {
    /// What was printed, as text.
    pub fn stdout_str(&self) -> (r: String)
        ensures
            r@ == self@.text(),
    {
        text_lossy(self.stdout.as_slice())
    }
}

/// Why a git command failed.
#[derive(Debug, PartialEq, Eq)]
pub enum GitError {
    /// It couldn't be run, for the reason that the system gave.
    Spawn(String),
    Timeout { command: String, timeout_ms: u64 },
    Failed { command: String, code: Option<i32>, stderr: String, stdout: String },
}

#[verifier::ext_equal]
pub ghost enum ErrorView {
    Spawn(Seq<char>),
    Timeout { command: Seq<char>, timeout_ms: u64 },
    Failed { command: Seq<char>, code: Option<i32>, stderr: Seq<char>, stdout: Seq<char> },
}

impl View for GitError {
    type V = ErrorView;

    open spec fn view(&self) -> ErrorView {
        match self {
            GitError::Spawn(message) => ErrorView::Spawn(message@),
            GitError::Timeout { command, timeout_ms } => ErrorView::Timeout {
                command: command@,
                timeout_ms: *timeout_ms,
            },
            GitError::Failed { command, code, stderr, stdout } => ErrorView::Failed {
                command: command@,
                code: *code,
                stderr: stderr@,
                stdout: stdout@,
            },
        }
    }
}

/// The view of a command's result.
pub open spec fn reply_view(r: Result<GitOutput, GitError>) -> Result<OutputView, ErrorView> {
    match r {
        Ok(out) => Ok(out@),
        Err(e) => Err(e@),
    }
}

/// What a run of a command comes to.
pub open spec fn finished(cmd: CommandView, outcome: Result<ExitOutput, RunError>) -> Result<
    OutputView,
    ErrorView,
> {
    match outcome {
        Ok(output) => if accepted(output.code, cmd.ok_codes) {
            Ok(OutputView { stdout: output.stdout@, stderr: lossy_text(output.stderr@) })
        } else {
            Err(
                ErrorView::Failed {
                    command: shown_command("git"@, cmd.args),
                    code: output.code,
                    stderr: lossy_text(output.stderr@),
                    stdout: lossy_text(output.stdout@),
                },
            )
        },
        Err(e) => Err(
            match e@ {
                RunErrorView::Spawn { message, .. } => ErrorView::Spawn(message),
                RunErrorView::Io { message } => ErrorView::Spawn(message),
                RunErrorView::TimedOut => ErrorView::Timeout {
                    command: shown_command("git"@, cmd.args),
                    timeout_ms: cmd.timeout_ms,
                },
            },
        ),
    }
}

impl ErrorView {
    /// The error in one line.
    pub open spec fn message(self) -> Seq<char> {
        match self {
            ErrorView::Spawn(message) => "failed to run git: "@ + message,
            ErrorView::Timeout { command, timeout_ms } => command + " timed out after "@ + duration_text(
                timeout_ms,
            ),
            ErrorView::Failed { stderr, .. } => match first_line_of(stderr) {
                Some(line) => line,
                None => "git exited with an error"@,
            },
        }
    }

    /// The error in one line, then what caused it: why git could not be started is the
    /// cause of that failure, and nothing is known to have caused the others.
    pub open spec fn with_cause(self) -> Seq<char> {
        match self {
            ErrorView::Spawn(message) => self.message() + ": "@ + message,
            _ => self.message(),
        }
    }

    /// Everything git said, or the error in one line.
    pub open spec fn details(self) -> Seq<char> {
        match self {
            ErrorView::Failed { stderr, stdout, .. } => if trim(stderr).len() == 0 {
                trim(stdout)
            } else {
                trim(stderr)
            },
            _ => self.message(),
        }
    }
}

impl Clone for GitError {
    fn clone(&self) -> (r: Self)
        ensures
            r@ == self@,
    {
        match self {
            GitError::Spawn(message) => GitError::Spawn(message.clone()),
            GitError::Timeout { command, timeout_ms } => GitError::Timeout {
                command: command.clone(),
                timeout_ms: *timeout_ms,
            },
            GitError::Failed { command, code, stderr, stdout } => GitError::Failed {
                command: command.clone(),
                code: *code,
                stderr: stderr.clone(),
                stdout: stdout.clone(),
            },
        }
    }
}

/// A text without the white space around it.
pub fn trimmed_text(text: &str) -> (r: String)
    ensures
        r@ == trim(text@),
{
    let chars = chars_of(text);
    string_of(trimmed(&chars))
}

impl GitError {
    /// The error in one line.
    pub fn message(&self) -> (r: String)
        ensures
            r@ == self@.message(),
    {
        match self {
            GitError::Spawn(message) => {
                let mut out = "failed to run git: ".to_owned();
                out.push_str(message.as_str());
                out
            },
            GitError::Timeout { command, timeout_ms } => {
                let mut out = command.clone();
                out.push_str(" timed out after ");
                out.push_str(show_duration(*timeout_ms).as_str());
                out
            },
            GitError::Failed { command: _, code: _, stderr, stdout: _ } => match first_line(
                stderr.as_str(),
            ) {
                Some(line) => line,
                None => "git exited with an error".to_owned(),
            },
        }
    }

    /// The error in one line, then what caused it.
    pub fn with_cause(&self) -> (r: String)
        ensures
            r@ == self@.with_cause(),
    {
        let mut out = self.message();
        match self {
            GitError::Spawn(message) => {
                out.push_str(": ");
                out.push_str(message.as_str());
            },
            _ => {},
        }
        out
    }

    /// Full stderr for display in a dialog, if any.
    pub fn details(&self) -> (r: String)
        ensures
            r@ == self@.details(),
    {
        match self {
            GitError::Failed { command: _, code: _, stderr, stdout } => {
                if is_blank(stderr.as_str()) {
                    trimmed_text(stdout.as_str())
                } else {
                    trimmed_text(stderr.as_str())
                }
            },
            _ => self.message(),
        }
    }
}

/// One run of a command, for the command log. Times are milliseconds (`started` since
/// 1970).
#[derive(Debug, PartialEq, Eq)]
pub struct CommandRecord {
    pub cwd: FsPath,
    pub command: String,
    pub kind: CmdKind,
    pub started: u64,
    pub duration_ms: u64,
    /// `None` on success, otherwise a one-line error.
    pub error: Option<String>,
}

#[verifier::ext_equal]
pub ghost struct RecordView {
    pub cwd: Seq<u8>,
    pub command: Seq<char>,
    pub kind: CmdKind,
    pub started: u64,
    pub duration_ms: u64,
    pub error: Option<Seq<char>>,
}

impl View for CommandRecord {
    type V = RecordView;

    open spec fn view(&self) -> RecordView {
        RecordView {
            cwd: self.cwd@,
            command: self.command@,
            kind: self.kind,
            started: self.started,
            duration_ms: self.duration_ms,
            error: text_opt(self.error),
        }
    }
}

/// Where finished commands are reported to.
pub trait CommandSink: Send + Sync {
    fn record(&self, record: CommandRecord);
}

/// What the command log says of a run.
pub fn record(
    cmd: &GitCommand,
    started: u64,
    duration_ms: u64,
    result: &Result<GitOutput, GitError>,
) -> (r: CommandRecord)
    ensures
        r@ == (RecordView {
            cwd: cmd@.cwd,
            command: shown_command("git"@, cmd@.args),
            kind: cmd@.kind,
            started,
            duration_ms,
            error: match result {
                Ok(_) => None,
                Err(e) => Some(e@.message()),
            },
        }),
{
    CommandRecord {
        cwd: cmd.cwd.clone(),
        command: cmd.display_args(),
        kind: cmd.kind,
        started,
        duration_ms,
        error: match result {
            Ok(_) => None,
            Err(e) => Some(e.message()),
        },
    }
}

/// The ssh command the user set up: in the environment, else in git's configuration.
pub open spec fn configured_ssh(env: Option<Seq<char>>, config: Option<Seq<char>>) -> Option<Seq<char>> {
    match env {
        Some(cmd) if trim(cmd).len() > 0 => Some(cmd),
        _ => match config {
            Some(out) if trim(out).len() > 0 => Some(trim(out)),
            _ => None,
        },
    }
}

/// The `GIT_SSH_COMMAND` to use: non-interactive options added to plain ssh, or nothing to
/// leave the user's own command untouched.
pub open spec fn resolved_ssh(configured: Option<Seq<char>>, git_ssh_set: bool) -> Option<Seq<char>> {
    match configured {
        None => if git_ssh_set {
            None
        } else {
            Some("ssh "@ + SSH_OPTIONS@)
        },
        Some(cmd) => if cmd == "ssh"@ || "ssh "@.is_prefix_of(cmd) {
            Some(cmd + " "@ + SSH_OPTIONS@)
        } else {
            None
        },
    }
}

/// Whether git's configuration has to be asked: the environment gives no ssh command.
pub fn needs_ssh_config(env: Option<&str>) -> (r: bool)
    ensures
        r == (env matches Some(cmd) ==> trim(cmd@).len() == 0),
{
    match env {
        Some(cmd) => is_blank(cmd),
        None => true,
    }
}

/// The command that asks git for the configured ssh command.
pub fn ssh_config_command(repo: &FsPath) -> (r: GitCommand)
    ensures
        r@ == read_command(repo@, seq!["config"@, "--get"@, "core.sshCommand"@]),
{
    let args = vec!["config", "--get", "core.sshCommand"];
    assert(str_views(args@) =~= seq!["config"@, "--get"@, "core.sshCommand"@]);
    GitCommand::read(repo, args)
}

/// The `GIT_SSH_COMMAND` to use for network commands: `env` is the user's own setting of
/// it, `config` what git's configuration says, `git_ssh_set` whether `GIT_SSH` is set.
pub fn ssh_command_for(env: Option<&str>, config: Option<&str>, git_ssh_set: bool) -> (r: Option<String>)
    ensures
        text_opt(r) == resolved_ssh(
            configured_ssh(
                crate::text::strings::str_opt(env),
                crate::text::strings::str_opt(config),
            ),
            git_ssh_set,
        ),
{
    let from_config: Option<String> = match config {
        Some(out) => if is_blank(out) {
            None
        } else {
            Some(trimmed_text(out))
        },
        None => None,
    };
    let configured: Option<String> = match env {
        Some(cmd) => if is_blank(cmd) {
            from_config
        } else {
            Some(cmd.to_owned())
        },
        None => from_config,
    };
    match configured {
        None => {
            if git_ssh_set {
                None
            } else {
                let mut out = "ssh ".to_owned();
                out.push_str(SSH_OPTIONS);
                Some(out)
            }
        },
        Some(cmd) => {
            if same_str(cmd.as_str(), "ssh") || str_starts_with(cmd.as_str(), "ssh ") {
                let mut out = cmd;
                out.push_str(" ");
                out.push_str(SSH_OPTIONS);
                Some(out)
            } else {
                None
            }
        },
    }
}

/// Reads take no optional locks and start no file system monitor, so they don't write to the
/// repo.
pub proof fn law_reads_take_no_locks()
    ensures
        global_args(CmdKind::Read).contains("--no-optional-locks"@),
        global_args(CmdKind::Read).contains("core.fsmonitor=false"@),
{
    assert(global_args(CmdKind::Read)[4] == "--no-optional-locks"@);
    assert(global_args(CmdKind::Read)[6] == "core.fsmonitor=false"@);
}

/// Every command runs with the terminal prompt and the credential manager's off, whatever ssh
/// command it uses and whatever else is set.
pub proof fn law_commands_run_without_prompts(ssh: Option<Seq<char>>, extra: Seq<(Seq<char>, Seq<char>)>)
    ensures
        command_env(ssh, extra).contains(("GIT_TERMINAL_PROMPT"@, "0"@)),
        command_env(ssh, extra).contains(("GCM_INTERACTIVE"@, "never"@)),
        command_env(ssh, extra).contains(("SSH_ASKPASS_REQUIRE"@, "never"@)),
{
    let env = command_env(ssh, extra);
    assert(env[6] == ("GIT_TERMINAL_PROMPT"@, "0"@));
    assert(env[7] == ("GCM_INTERACTIVE"@, "never"@));
    assert(env[8] == ("SSH_ASKPASS_REQUIRE"@, "never"@));
}

/// Plain ssh always runs in batch mode, which never asks for a password. Another program that
/// the user chose is left as it is.
pub proof fn law_plain_ssh_never_prompts(configured: Option<Seq<char>>, git_ssh_set: bool)
    requires
        configured is None && !git_ssh_set || (configured matches Some(cmd) && (cmd == "ssh"@
            || "ssh "@.is_prefix_of(cmd))),
    ensures
        resolved_ssh(configured, git_ssh_set) matches Some(cmd) && SSH_OPTIONS@.is_suffix_of(cmd),
{
    let cmd = resolved_ssh(configured, git_ssh_set).unwrap();
    assert(cmd.subrange(cmd.len() - SSH_OPTIONS@.len(), cmd.len() as int) =~= SSH_OPTIONS@);
}

} // verus!
