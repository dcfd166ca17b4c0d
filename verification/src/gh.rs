//! The GitHub CLI (`gh`) with the user's own login, so GitHub Enterprise hosts work too.
//! Like the git runner: no prompts, no pager, no colour, bounded run time.

use vstd::prelude::*;

use crate::git::{bytes_opt, env_views, CmdKind, CommandRecord, RecordView};
use crate::path::{path_opt, FsPath};
use crate::process::{display_command, first_line, first_line_of, shown_command, ExitOutput, RunError, RunErrorView};
use crate::text::outside::{duration_text, lossy_text, show_duration, text_lossy};
use crate::text::strings::{texts, utf8};

verus! {

/// `gh`'s exit code when a command needs a login it doesn't have (`gh help exit-codes`).
pub const EXIT_AUTH_REQUIRED: i32 = 4;

/// A `gh` command to run.
#[derive(Debug, PartialEq, Eq)]
pub struct GhCommand {
    /// Working directory; `None` keeps the app's own.
    pub cwd: Option<FsPath>,
    pub args: Vec<String>,
    pub stdin: Option<Vec<u8>>,
    pub timeout_ms: u64,
}

#[verifier::ext_equal]
pub ghost struct GhCommandView {
    pub cwd: Option<Seq<u8>>,
    pub args: Seq<Seq<char>>,
    pub stdin: Option<Seq<u8>>,
    pub timeout_ms: u64,
}

impl View for GhCommand {
    type V = GhCommandView;

    open spec fn view(&self) -> GhCommandView {
        GhCommandView {
            cwd: path_opt(self.cwd),
            args: texts(self.args@),
            stdin: bytes_opt(self.stdin),
            timeout_ms: self.timeout_ms,
        }
    }
}

impl GhCommand {
    /// A command with these arguments.
    pub fn new(args: Vec<String>) -> (r: GhCommand)
        ensures
            r@ == (GhCommandView {
                cwd: None,
                args: texts(args@),
                stdin: None,
                timeout_ms: 30_000,
            }),
    {
        GhCommand { cwd: None, args, stdin: None, timeout_ms: 30_000 }
    }

    /// Sets the working directory.
    pub fn cwd(self, cwd: FsPath) -> (r: GhCommand)
        ensures
            r@ == (GhCommandView { cwd: Some(cwd@), ..self@ }),
    {
        let mut cmd = self;
        cmd.cwd = Some(cwd);
        cmd
    }

    /// Gives the command something to read.
    pub fn stdin(self, input: Vec<u8>) -> (r: GhCommand)
        ensures
            r@ == (GhCommandView { stdin: Some(input@), ..self@ }),
    {
        let mut cmd = self;
        cmd.stdin = Some(input);
        cmd
    }

    /// Sets how long the command may take.
    pub fn timeout(self, timeout_ms: u64) -> (r: GhCommand)
        ensures
            r@ == (GhCommandView { timeout_ms, ..self@ }),
    {
        let mut cmd = self;
        cmd.timeout_ms = timeout_ms;
        cmd
    }

    /// The command line for the command log.
    pub fn display_args(&self) -> (r: String)
        ensures
            r@ == shown_command("gh"@, self@.args),
    {
        display_command("gh", &self.args)
    }

    /// What a run of the command comes to. `cwd_exists` says whether the working directory
    /// is there: a missing one fails the same way as a missing `gh`.
    pub fn finish(&self, outcome: Result<ExitOutput, RunError>, cwd_exists: bool) -> (r: Result<
        GhOutput,
        GhError,
    >)
        ensures
            gh_reply_view(r) == gh_finished(self@, outcome, cwd_exists),
    {
        match outcome {
            Ok(output) => {
                let stderr = text_lossy(output.stderr.as_slice());
                match output.code {
                    Some(code) => {
                        if code == 0 {
                            Ok(GhOutput { stdout: output.stdout, stderr })
                        } else if code == EXIT_AUTH_REQUIRED {
                            Err(GhError::NotLoggedIn { stderr })
                        } else {
                            Err(
                                GhError::Failed {
                                    command: self.display_args(),
                                    code: Some(code),
                                    stderr,
                                    stdout: output.stdout,
                                },
                            )
                        }
                    },
                    None => Err(
                        GhError::Failed {
                            command: self.display_args(),
                            code: None,
                            stderr,
                            stdout: output.stdout,
                        },
                    ),
                }
            },
            Err(RunError::Spawn { message, not_found }) => {
                if not_found && (self.cwd.is_none() || cwd_exists) {
                    Err(GhError::NotInstalled)
                } else {
                    Err(GhError::Spawn(message))
                }
            },
            Err(RunError::Io { message }) => Err(GhError::Spawn(message)),
            Err(RunError::TimedOut) => Err(
                GhError::Timeout { command: self.display_args(), timeout_ms: self.timeout_ms },
            ),
        }
    }
}

/// What a successful command printed.
#[derive(Debug, PartialEq, Eq)]
pub struct GhOutput {
    pub stdout: Vec<u8>,
    pub stderr: String,
}

/// Why a `gh` command failed.
#[derive(Debug, PartialEq, Eq)]
pub enum GhError {
    NotInstalled,
    /// Exit code 4: no login for the host the command needs.
    NotLoggedIn { stderr: String },
    /// It couldn't be run, for the reason that the system gave.
    Spawn(String),
    Timeout { command: String, timeout_ms: u64 },
    /// Any other non-zero exit. `stdout` can still hold a usable answer: `gh api graphql`
    /// exits 1 when part of a query failed, but prints the data for the rest.
    Failed { command: String, code: Option<i32>, stderr: String, stdout: Vec<u8> },
}

#[verifier::ext_equal]
pub ghost struct GhOutputView {
    pub stdout: Seq<u8>,
    pub stderr: Seq<char>,
}

#[verifier::ext_equal]
pub ghost enum GhErrorView {
    NotInstalled,
    NotLoggedIn { stderr: Seq<char> },
    Spawn(Seq<char>),
    Timeout { command: Seq<char>, timeout_ms: u64 },
    Failed { command: Seq<char>, code: Option<i32>, stderr: Seq<char>, stdout: Seq<u8> },
}

impl View for GhOutput {
    type V = GhOutputView;

    open spec fn view(&self) -> GhOutputView {
        GhOutputView { stdout: self.stdout@, stderr: self.stderr@ }
    }
}

impl View for GhError {
    type V = GhErrorView;

    open spec fn view(&self) -> GhErrorView {
        match self {
            GhError::NotInstalled => GhErrorView::NotInstalled,
            GhError::NotLoggedIn { stderr } => GhErrorView::NotLoggedIn { stderr: stderr@ },
            GhError::Spawn(message) => GhErrorView::Spawn(message@),
            GhError::Timeout { command, timeout_ms } => GhErrorView::Timeout {
                command: command@,
                timeout_ms: *timeout_ms,
            },
            GhError::Failed { command, code, stderr, stdout } => GhErrorView::Failed {
                command: command@,
                code: *code,
                stderr: stderr@,
                stdout: stdout@,
            },
        }
    }
}

/// The view of a command's result.
pub open spec fn gh_reply_view(r: Result<GhOutput, GhError>) -> Result<GhOutputView, GhErrorView> {
    match r {
        Ok(out) => Ok(out@),
        Err(e) => Err(e@),
    }
}

/// What a run of a command comes to.
pub open spec fn gh_finished(
    cmd: GhCommandView,
    outcome: Result<ExitOutput, RunError>,
    cwd_exists: bool,
) -> Result<GhOutputView, GhErrorView> {
    match outcome {
        Ok(output) => {
            let stderr = lossy_text(output.stderr@);
            if output.code == Some(0i32) {
                Ok(GhOutputView { stdout: output.stdout@, stderr })
            } else if output.code == Some(EXIT_AUTH_REQUIRED) {
                Err(GhErrorView::NotLoggedIn { stderr })
            } else {
                Err(
                    GhErrorView::Failed {
                        command: shown_command("gh"@, cmd.args),
                        code: output.code,
                        stderr,
                        stdout: output.stdout@,
                    },
                )
            }
        },
        Err(e) => Err(
            match e@ {
                RunErrorView::Spawn { message, not_found } => if not_found && (cmd.cwd is None
                    || cwd_exists) {
                    GhErrorView::NotInstalled
                } else {
                    GhErrorView::Spawn(message)
                },
                RunErrorView::Io { message } => GhErrorView::Spawn(message),
                RunErrorView::TimedOut => GhErrorView::Timeout {
                    command: shown_command("gh"@, cmd.args),
                    timeout_ms: cmd.timeout_ms,
                },
            },
        ),
    }
}

impl GhErrorView {
    /// The error in one line.
    pub open spec fn message(self) -> Seq<char> {
        match self {
            GhErrorView::NotInstalled => "gh is not installed"@,
            GhErrorView::NotLoggedIn { .. } => "gh is not logged in"@,
            GhErrorView::Spawn(message) => "failed to run gh: "@ + message,
            GhErrorView::Timeout { command, timeout_ms } => command + " timed out after "@
                + duration_text(timeout_ms),
            GhErrorView::Failed { stderr, .. } => match first_line_of(stderr) {
                Some(line) => line,
                None => "gh exited with an error"@,
            },
        }
    }
}

impl GhError {
    /// The error in one line.
    pub fn message(&self) -> (r: String)
        ensures
            r@ == self@.message(),
    {
        match self {
            GhError::NotInstalled => "gh is not installed".to_owned(),
            GhError::NotLoggedIn { stderr: _ } => "gh is not logged in".to_owned(),
            GhError::Spawn(message) => {
                let mut out = "failed to run gh: ".to_owned();
                out.push_str(message.as_str());
                out
            },
            GhError::Timeout { command, timeout_ms } => {
                let mut out = command.clone();
                out.push_str(" timed out after ");
                out.push_str(show_duration(*timeout_ms).as_str());
                out
            },
            GhError::Failed { command: _, code: _, stderr, stdout: _ } => match first_line(
                stderr.as_str(),
            ) {
                Some(line) => line,
                None => "gh exited with an error".to_owned(),
            },
        }
    }
}

/// The environment that keeps `gh` from asking, paging or colouring.
pub open spec fn gh_env() -> Seq<(Seq<char>, Seq<char>)> {
    seq![
        ("GH_PROMPT_DISABLED"@, "1"@),
        ("GH_NO_UPDATE_NOTIFIER"@, "1"@),
        ("GH_NO_EXTENSION_UPDATE_NOTIFIER"@, "1"@),
        ("GH_SPINNER_DISABLED"@, "1"@),
        ("GH_PAGER"@, "cat"@),
        ("NO_COLOR"@, "1"@),
    ]
}

/// Which `gh` to run.
#[derive(Debug, PartialEq, Eq)]
pub struct Gh {
    pub program: FsPath,
}

impl Gh {
    /// `gh` from PATH.
    pub fn new() -> (r: Gh)
        ensures
            r.program@ == utf8("gh"),
    {
        Gh { program: FsPath::new("gh") }
    }

    /// Runs `program` instead of `gh` from PATH.
    pub fn with_program(self, program: FsPath) -> (r: Gh)
        ensures
            r.program@ == program@,
    {
        Gh { program }
    }

    /// The variables to set for a `gh` process.
    pub fn environment(&self) -> (r: Vec<(String, String)>)
        ensures
            env_views(r@) == gh_env(),
    {
        let mut env: Vec<(String, String)> = Vec::new();
        env.push(("GH_PROMPT_DISABLED".to_owned(), "1".to_owned()));
        env.push(("GH_NO_UPDATE_NOTIFIER".to_owned(), "1".to_owned()));
        env.push(("GH_NO_EXTENSION_UPDATE_NOTIFIER".to_owned(), "1".to_owned()));
        env.push(("GH_SPINNER_DISABLED".to_owned(), "1".to_owned()));
        env.push(("GH_PAGER".to_owned(), "cat".to_owned()));
        env.push(("NO_COLOR".to_owned(), "1".to_owned()));
        assert(env_views(env@) =~= gh_env());
        env
    }

    /// The variables to unset: terminal-style output would add colour and layout to what
    /// is parsed.
    pub fn removed_environment(&self) -> (r: Vec<String>)
        ensures
            texts(r@) == seq!["GH_FORCE_TTY"@, "CLICOLOR_FORCE"@],
    {
        let mut out: Vec<String> = Vec::new();
        out.push("GH_FORCE_TTY".to_owned());
        out.push("CLICOLOR_FORCE".to_owned());
        assert(texts(out@) =~= seq!["GH_FORCE_TTY"@, "CLICOLOR_FORCE"@]);
        out
    }
}

/// What the command log says of a run: `gh` talks to the network.
pub fn record(
    cmd: &GhCommand,
    started: u64,
    duration_ms: u64,
    result: &Result<GhOutput, GhError>,
) -> (r: CommandRecord)
    ensures
        r@ == (RecordView {
            cwd: match cmd@.cwd {
                Some(cwd) => cwd,
                None => Seq::empty(),
            },
            command: shown_command("gh"@, cmd@.args),
            kind: CmdKind::Network,
            started,
            duration_ms,
            error: match result {
                Ok(_) => None,
                Err(e) => Some(e@.message()),
            },
        }),
{
    CommandRecord {
        cwd: match &cmd.cwd {
            Some(cwd) => cwd.clone(),
            None => FsPath { bytes: Vec::new() },
        },
        command: cmd.display_args(),
        kind: CmdKind::Network,
        started,
        duration_ms,
        error: match result {
            Ok(_) => None,
            Err(e) => Some(e.message()),
        },
    }
}

} // verus!
