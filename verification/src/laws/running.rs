//! How commands end, and what is loaded of a repo.

use vstd::prelude::*;

use crate::detail::{
    detail_commands, diff_command, error_in, file_at, file_diff_commands, printed, shown_lines, untabbed, DetailReplies,
};
use crate::gh::{gh_finished, GhCommandView, GhErrorView};
use crate::git::parse::{
    branches_of, log_of, reflog_of, remote_branches_of, remotes_of, stashes_of, status_in, submodules_of, tags_of,
    worktrees_of, LOG_FORMAT, REFLOG_FORMAT, REMOTE_BRANCH_FORMAT, STASH_FORMAT, TAG_FORMAT,
};
use crate::git::{finished, timeout_of, CmdKind, CommandView, ErrorView, GitError, GitOutput, OutputView};
use crate::model::{FileKind, FileView, LocationView};
use crate::ops::stash_selector;
use crate::process::{first_line_in, first_line_of, shown_arg, shown_command, ExitOutput, RunError, RunErrorView};
use crate::text::outside::lossy_text;
use crate::text::strings::{is_space, lines, trim};
use crate::ui::main_view::{
    diff_step, file_content, load_step, status_step, ContentView, KeyView, LoadStepView, TextKind,
};

verus! {

/// A command succeeds exactly if it exits with 0 or a code that it allows; one that a signal
/// ended, or that never ran, doesn't.
pub proof fn law_exit_codes_decide(cmd: CommandView, output: ExitOutput)
    ensures
        finished(cmd, Ok(output)) is Ok <==> (output.code matches Some(c) && (c == 0 || cmd.ok_codes.contains(c))),
        finished(cmd, Ok(output)) matches Ok(out) ==> out.stdout == output.stdout@ && out.stderr == lossy_text(
            output.stderr@,
        ),
        finished(cmd, Ok(output)) matches Err(e) ==> (e matches ErrorView::Failed { command, code, stderr, stdout }
            && code == output.code && stderr == lossy_text(output.stderr@) && stdout == lossy_text(output.stdout@)
            && command == shown_command("git"@, cmd.args)),
{
}

/// What kept a command from running is told: that it took too long, or why it couldn't start.
pub proof fn law_commands_that_did_not_run(cmd: CommandView, error: RunError)
    ensures
        finished(cmd, Err(error)) is Err,
        error@ is TimedOut ==> finished(cmd, Err(error)) == Err::<OutputView, ErrorView>(
            ErrorView::Timeout { command: shown_command("git"@, cmd.args), timeout_ms: cmd.timeout_ms },
        ),
        error@ matches RunErrorView::Spawn { message, not_found } ==> finished(cmd, Err(error)) == Err::<
            OutputView,
            ErrorView,
        >(ErrorView::Spawn(message)),
        error@ matches RunErrorView::Io { message } ==> finished(cmd, Err(error)) == Err::<OutputView, ErrorView>(
            ErrorView::Spawn(message),
        ),
{
}

/// Reads give up first, then network commands; writes, with their hooks, may take longest.
pub proof fn law_commands_give_up()
    ensures
        0 < timeout_of(CmdKind::Read) < timeout_of(CmdKind::Network) < timeout_of(CmdKind::Write),
        timeout_of(CmdKind::Read) == 30_000,
        timeout_of(CmdKind::Network) == 90_000,
        timeout_of(CmdKind::Write) == 120_000,
{
}

/// What is told of a failure is what git wrote to its error output, or to its output if that
/// is blank.
pub proof fn law_details_are_what_git_said(command: Seq<char>, code: Option<i32>, stderr: Seq<char>, stdout: Seq<char>)
    ensures
        ({
            let e = ErrorView::Failed { command, code, stderr, stdout };
            &&& trim(stderr).len() > 0 ==> e.details() == trim(stderr)
            &&& trim(stderr).len() == 0 ==> e.details() == trim(stdout)
            &&& first_line_of(stderr) matches Some(line) ==> e.message() == line
        }),
{
}

/// The first line of a text is the first that isn't blank, without the space around it.
pub proof fn law_first_lines(ls: Seq<Seq<char>>)
    ensures
        match first_line_in(ls) {
            Some(line) => exists|i: int|
                0 <= i < ls.len() && line == trim(#[trigger] ls[i]) && line.len() > 0 && forall|j: int|
                    0 <= j < i ==> trim(#[trigger] ls[j]).len() == 0,
            None => forall|j: int| 0 <= j < ls.len() ==> trim(#[trigger] ls[j]).len() == 0,
        },
    decreases ls.len(),
{
    if ls.len() > 0 {
        let rest = ls.drop_first();
        law_first_lines(rest);
        if trim(ls[0]).len() == 0 {
            match first_line_in(rest) {
                Some(line) => {
                    let i = choose|i: int|
                        0 <= i < rest.len() && line == trim(#[trigger] rest[i]) && line.len() > 0 && forall|j: int|
                            0 <= j < i ==> trim(#[trigger] rest[j]).len() == 0;
                    assert(ls[i + 1] == rest[i]);
                    assert forall|j: int| 0 <= j < i + 1 implies trim(#[trigger] ls[j]).len() == 0 by {
                        if j > 0 {
                            assert(rest[j - 1] == ls[j]);
                        }
                    }
                },
                None => {
                    assert forall|j: int| 0 <= j < ls.len() implies trim(#[trigger] ls[j]).len() == 0 by {
                        if j > 0 {
                            assert(rest[j - 1] == ls[j]);
                        }
                    }
                },
            }
        }
    }
}

/// A command is shown by its program and its arguments, one after another; an argument in
/// which nothing needs quotes is shown as it is, any other in quotes.
pub proof fn law_commands_are_shown(program: Seq<char>, args: Seq<Seq<char>>, arg: Seq<char>)
    ensures
        shown_command(program, Seq::empty()) == program,
        shown_command(program, args.push(arg)) == shown_command(program, args) + seq![' '] + shown_arg(arg),
        arg.len() > 0 && (forall|i: int| 0 <= i < arg.len() ==> !is_space(#[trigger] arg[i]) && arg[i] != '\'')
            ==> shown_arg(arg) == arg,
        arg.len() == 0 || (exists|i: int| 0 <= i < arg.len() && is_space(#[trigger] arg[i])) ==> shown_arg(arg).len()
            >= 2 && shown_arg(arg)[0] == '\'' && shown_arg(arg).last() == '\'',
{
    assert(args.push(arg).drop_last() =~= args);
    if exists|i: int| 0 <= i < arg.len() && is_space(#[trigger] arg[i]) {
        let i = choose|i: int| 0 <= i < arg.len() && is_space(#[trigger] arg[i]);
        assert(is_space(arg[i]) || arg[i] == '\'');
    }
}

/// `gh` is missing if its program isn't found where it was to run; not being logged in is
/// told apart from other failures, which keep everything that was printed.
pub proof fn law_gh_failures_are_told_apart(cmd: GhCommandView, output: ExitOutput, error: RunError, cwd_exists: bool)
    ensures
        gh_finished(cmd, Ok(output), cwd_exists) is Ok <==> output.code == Some(0i32),
        gh_finished(cmd, Ok(output), cwd_exists) matches Ok(out) ==> out.stdout == output.stdout@,
        gh_finished(cmd, Ok(output), cwd_exists) matches Err(e) ==> (e is NotLoggedIn <==> output.code == Some(4i32)),
        gh_finished(cmd, Ok(output), cwd_exists) matches Err(GhErrorView::Failed { command, code, stderr, stdout })
            ==> code == output.code && stdout == output.stdout@ && stderr == lossy_text(output.stderr@),
        gh_finished(cmd, Err(error), cwd_exists) matches Err(e) && (e is NotInstalled <==> (
        error@ matches RunErrorView::Spawn { message, not_found } && not_found && (cmd.cwd is None || cwd_exists))) && (
        e is Timeout <==> error@ is TimedOut),
{
}

/// Everything of a repo is asked for where it is. What a bare repo, one without commits or
/// one without submodules can't have isn't asked for.
pub proof fn law_detail_asks_for_what_there_is(
    repo: LocationView,
    base: Option<Seq<char>>,
    has_commits: bool,
    has_gitmodules: bool,
)
    ensures
        ({
            let c = detail_commands(repo, base, has_commits, has_gitmodules);
            &&& c.files is Some <==> !repo.bare
            &&& c.stashes is Some <==> !repo.bare
            &&& c.submodules is Some <==> !repo.bare && has_gitmodules
            &&& c.commits is Some <==> has_commits
            &&& c.reflog is Some <==> has_commits
            &&& c.branches.cwd == repo.root && c.branches.args[0] == "for-each-ref"@ && c.branches.args.last()
                == "refs/heads"@
            &&& c.remote_branches.cwd == repo.root && c.remote_branches.args[0] == "for-each-ref"@
                && c.remote_branches.args.last() == "refs/remotes"@ && c.remote_branches.args[2] == "--format="@
                + REMOTE_BRANCH_FORMAT@
            &&& c.tags.cwd == repo.root && c.tags.args[0] == "for-each-ref"@ && c.tags.args.last() == "refs/tags"@
                && c.tags.args[2] == "--format="@ + TAG_FORMAT@
            &&& c.remotes.cwd == repo.root && c.remotes.args == seq!["remote"@, "-v"@]
            &&& c.worktrees.cwd == repo.root && c.worktrees.args == seq!["worktree"@, "list"@, "--porcelain"@, "-z"@]
            &&& c.files matches Some(cmd) ==> cmd.cwd == repo.root && cmd.args == seq![
                "status"@,
                "--porcelain=v2"@,
                "-z"@,
                "--untracked-files=all"@,
            ]
            &&& c.submodules matches Some(cmd) ==> cmd.cwd == repo.root && cmd.args == seq!["submodule"@, "status"@]
            &&& c.commits matches Some(cmd) ==> cmd.cwd == repo.root && cmd.args[0] == "log"@ && cmd.args[2]
                == "--format="@ + LOG_FORMAT@ && cmd.args[4] == "HEAD"@
            &&& c.reflog matches Some(cmd) ==> cmd.cwd == repo.root && cmd.args[0] == "reflog"@ && cmd.args[2]
                == "--format="@ + REFLOG_FORMAT@ && cmd.args[4] == "HEAD"@
            &&& c.stashes matches Some(cmd) ==> cmd.cwd == repo.root && cmd.args == seq![
                "stash"@,
                "list"@,
                "--format="@ + STASH_FORMAT@,
            ]
        }),
{
}

/// Each list of the panels is what the command for it printed, and empty if that printed
/// nothing.
pub proof fn law_panels_list_what_was_printed(r: DetailReplies, root: Seq<u8>)
    ensures
        ({
            let d = r.detail(root);
            &&& printed(r.files) matches Some(out) ==> d.files == status_in(out).files
            &&& printed(r.worktrees) matches Some(out) ==> d.worktrees == worktrees_of(lossy_text(out), root)
            &&& printed(r.submodules) matches Some(out) ==> d.submodules == submodules_of(lossy_text(out))
            &&& printed(r.branches) matches Some(out) ==> d.branches == branches_of(lossy_text(out), Some(root))
            &&& printed(r.remotes) matches Some(out) ==> d.remotes == remotes_of(lossy_text(out))
            &&& printed(r.remote_branches) matches Some(out) ==> d.remote_branches == remote_branches_of(lossy_text(out))
            &&& printed(r.tags) matches Some(out) ==> d.tags == tags_of(lossy_text(out))
            &&& printed(r.commits) matches Some(out) ==> d.commits == log_of(lossy_text(out))
            &&& printed(r.reflog) matches Some(out) ==> d.reflog == reflog_of(lossy_text(out))
            &&& printed(r.stashes) matches Some(out) ==> d.stashes == stashes_of(lossy_text(out))
            &&& printed(r.files) is None ==> d.files.len() == 0
            &&& printed(r.reflog) is None ==> d.reflog.len() == 0
            &&& printed(r.stashes) is None ==> d.stashes.len() == 0
            &&& printed(r.commits) is None ==> d.commits.len() == 0
        }),
{
}

/// A failure of any command but the reflog's is one of the whole; without one the panels are
/// shown.
pub proof fn law_failures_hide_the_panels(r: DetailReplies)
    ensures
        r.error() is None <==> error_in(r.files) is None && error_in(r.worktrees) is None && error_in(
            r.submodules,
        ) is None && error_in(r.branches) is None && error_in(r.remotes) is None && error_in(r.remote_branches) is None
            && error_in(r.tags) is None && error_in(r.commits) is None && error_in(r.stashes) is None,
{
    reveal_with_fuel(crate::detail::first_of, 11);
}

/// A file is found by its path: the first one there.
pub proof fn law_files_are_found_by_path(files: Seq<FileView>, path: Seq<char>)
    ensures
        match file_at(files, path) {
            Some(f) => f.path == path && files.contains(f),
            None => forall|i: int| 0 <= i < files.len() ==> (#[trigger] files[i]).path != path,
        },
    decreases files.len(),
{
    if files.len() > 0 {
        let rest = files.drop_first();
        law_files_are_found_by_path(rest, path);
        if files[0].path == path {
            assert(files.contains(files[0]));
        } else {
            match file_at(rest, path) {
                Some(f) => {
                    let i = choose|i: int| 0 <= i < rest.len() && rest[i] == f;
                    assert(files[i + 1] == f);
                },
                None => {
                    assert forall|i: int| 0 <= i < files.len() implies (#[trigger] files[i]).path != path by {
                        if i > 0 {
                            assert(rest[i - 1] == files[i]);
                        }
                    }
                },
            }
        }
    }
}

/// A file's unstaged changes are compared with the index, its staged ones with HEAD, each
/// only if there are any; a file that git doesn't track is compared with nothing.
pub proof fn law_diffs_compare_the_right_halves(cwd: Seq<u8>, file: FileView)
    ensures
        ({
            let (unstaged, staged) = file_diff_commands(cwd, file);
            &&& file.kind != FileKind::Untracked ==> (unstaged is Some <==> file.unstaged()) && (staged is Some
                <==> file.staged())
            &&& file.kind == FileKind::Untracked ==> staged is None && (unstaged matches Some(cmd) && cmd.args.contains(
                "--no-index"@,
            ) && cmd.args.last() == file.path && cmd.args[cmd.args.len() - 2] == "/dev/null"@ && cmd.ok_codes
                == seq![1i32])
            &&& file.kind != FileKind::Untracked ==> (unstaged matches Some(cmd) ==> cmd == diff_command(
                cwd,
                file,
                false,
            )) && (staged matches Some(cmd) ==> cmd == diff_command(cwd, file, true))
            &&& diff_command(cwd, file, true).args.contains("--cached"@)
            &&& diff_command(cwd, file, false).args[0] == "diff"@ && diff_command(cwd, file, true).args[0] == "diff"@
            &&& diff_command(cwd, file, false).kind == CmdKind::Read && diff_command(cwd, file, false).cwd == cwd
            &&& file.orig_path is None ==> diff_command(cwd, file, false).args.last() == file.path && diff_command(
                cwd,
                file,
                true,
            ).args.last() == file.path
            &&& diff_command(cwd, file, false).args.take(6) == diff_command(cwd, file, true).args.take(6)
            &&& diff_command(cwd, file, false).args[6] == "--"@
            &&& diff_command(cwd, file, true).args.len() == diff_command(cwd, file, false).args.len() + 2
        }),
{
    let cached = diff_command(cwd, file, true).args;
    let plain = diff_command(cwd, file, false).args;
    assert(cached[6] == "--cached"@);
    assert(cached.take(6) =~= plain.take(6));
    assert(plain[6] == "--"@);
    if file.kind == FileKind::Untracked {
        let cmd = file_diff_commands(cwd, file).0->0;
        assert(cmd.args[1] == "--no-index"@);
    }
}

/// What the main view loads is what its key names: that revision, that stash, that file.
pub proof fn law_main_view_loads_its_key(
    cwd: Seq<u8>,
    root: Seq<u8>,
    rev: Seq<char>,
    index: nat,
    path: Seq<char>,
    file: FileView,
)
    ensures
        load_step(cwd, KeyView::Show { root, rev }, None) matches LoadStepView::Text { kind, command } && kind
            == TextKind::Diff && command.cwd == cwd && command.args[0] == "show"@ && command.args[command.args.len()
            - 2] == rev && command.args.last() == "--"@ && command.args.contains("--patch"@),
        load_step(cwd, KeyView::Log { root, rev }, None) matches LoadStepView::Text { kind, command } && kind
            == TextKind::Log && command.cwd == cwd && command.args[0] == "log"@ && command.args.contains("--graph"@)
            && command.args[command.args.len() - 2] == rev && command.args.last() == "--"@,
        load_step(cwd, KeyView::Stash { root, index }, None) matches LoadStepView::Text { kind, command } && kind
            == TextKind::Diff && command.cwd == cwd && command.args[0] == "stash"@ && command.args[1] == "show"@
            && command.args.last() == stash_selector(index) && command.args.contains("--include-untracked"@),
        load_step(cwd, KeyView::Diff { root, path }, Some(file)) matches LoadStepView::Status { file: f, command } && f
            == file && command.kind == CmdKind::Read && command.cwd == cwd && command.args[0] == "status"@,
        load_step(cwd, KeyView::Diff { root, path }, None) is Done,
{
    let show = load_step(cwd, KeyView::Show { root, rev }, None)->Text_command.args;
    let log = load_step(cwd, KeyView::Log { root, rev }, None)->Text_command.args;
    let stash = load_step(cwd, KeyView::Stash { root, index }, None)->Text_command.args;
    assert(show[3] == "--patch"@);
    assert(log[1] == "--graph"@);
    assert(stash[4] == "--include-untracked"@);
}

/// A file's diffs are those of the file as git sees it now; one without changes has none.
pub proof fn law_fresh_files_are_compared(cwd: Seq<u8>, file: FileView, out: OutputView, error: ErrorView)
    ensures
        file_at(status_in(out.stdout).files, file.path) matches Some(fresh) ==> status_step(cwd, file, Ok(out))
            == diff_step(cwd, fresh),
        file_at(status_in(out.stdout).files, file.path) is None ==> status_step(cwd, file, Ok(out)) is Done,
        status_step(cwd, file, Err(error)) == diff_step(cwd, file),
{
}

/// Both halves of a file's diff are shown, each from its own command; a conflict's is shown as
/// text, and a failure is told.
pub proof fn law_halves_are_shown(
    file: FileView,
    unstaged: Option<Result<GitOutput, GitError>>,
    staged: Option<Result<GitOutput, GitError>>,
)
    ensures
        ({
            let content = file_content(file, unstaged, staged);
            let failed = error_in(unstaged) is Some || error_in(staged) is Some;
            &&& !failed && file.kind != FileKind::Unmerged && (printed(unstaged) is Some || printed(staged) is Some)
                ==> content == (ContentView::File {
                unstaged: match printed(unstaged) {
                    Some(out) => Some(crate::ui::main_view::half_of(out)),
                    None => None,
                },
                staged: match printed(staged) {
                    Some(out) => Some(crate::ui::main_view::half_of(out)),
                    None => None,
                },
            })
            &&& failed || file.kind == FileKind::Unmerged ==> content is Text
            &&& content is File ==> content.half(true) == content->staged && content.half(false) == content->unstaged
        }),
{
}

/// Each line is shown, in order and with its tabs widened, up to the limit; a text that was
/// cut says so at its end.
pub proof fn law_lines_are_shown_in_order(ls: Seq<Seq<char>>, max: nat, i: int)
    requires
        0 <= i < ls.len(),
        i < max,
    ensures
        shown_lines(ls, max)[i] == untabbed(ls[i]),
        ls.len() > max ==> shown_lines(ls, max).last() == "… output truncated at "@ + crate::text::number::decimal(max)
            + " lines"@,
{
}

/// A line keeps all its characters but tabs, which become four spaces.
pub proof fn law_tabs_become_spaces(line: Seq<char>, c: char)
    ensures
        untabbed(Seq::empty()) == Seq::<char>::empty(),
        c != '\t' ==> untabbed(line.push(c)) == untabbed(line).push(c),
        untabbed(line.push('\t')) == untabbed(line) + seq![' ', ' ', ' ', ' '],
{
    reveal_strlit("    ");
    assert("    "@.len() == 4);
    assert("    "@ =~= seq![' ', ' ', ' ', ' ']);
    assert(line.push(c).drop_last() =~= line);
    assert(line.push('\t').drop_last() =~= line);
    if c != '\t' {
        assert(untabbed(line) + seq![c] =~= untabbed(line).push(c));
    }
}

} // verus!
