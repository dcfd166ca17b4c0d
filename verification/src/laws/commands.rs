//! What the commands that change a repo do to it, by what git documents of their words.

use vstd::prelude::*;

use crate::git::{CmdKind, CommandView};
use crate::git::parse::stash_index;
use crate::model::{BranchView, FileKind, FileView, RemoteBranchView, UpstreamView};
use crate::ops::{path_specs, stash_selector, toggle_all_args, toggle_stage_args, unstage_args, PatchAction, StashKind};
use crate::text::number::{decimal, law_read_of_written_number};
use crate::text::strings::trim;
use crate::ui::op::OpView;

verus! {

/// The words of a command before its pathspecs: the command, its options and revisions.
pub open spec fn words_of(args: Seq<Seq<char>>) -> Seq<Seq<char>>
    decreases args.len(),
{
    if args.len() == 0 || args[0] == "--"@ {
        Seq::empty()
    } else {
        seq![args[0]] + words_of(args.drop_first())
    }
}

/// The pathspecs of a command: what follows `--`.
pub open spec fn paths_of(args: Seq<Seq<char>>) -> Seq<Seq<char>>
    decreases args.len(),
{
    if args.len() == 0 {
        Seq::empty()
    } else if args[0] == "--"@ {
        args.drop_first()
    } else {
        paths_of(args.drop_first())
    }
}

proof fn lemma_words_and_paths(words: Seq<Seq<char>>, paths: Seq<Seq<char>>)
    requires
        !words.contains("--"@),
    ensures
        words_of(words + seq!["--"@] + paths) == words,
        paths_of(words + seq!["--"@] + paths) == paths,
        words_of(words) == words,
        paths_of(words) == Seq::<Seq<char>>::empty(),
    decreases words.len(),
{
    let all = words + seq!["--"@] + paths;
    if words.len() == 0 {
        assert(all[0] == "--"@);
        assert(all.drop_first() =~= paths);
    } else {
        let rest = words.drop_first();
        assert(words.contains(words[0]));
        assert forall|w: Seq<char>| rest.contains(w) implies words.contains(w) by {
            let i = choose|i: int| 0 <= i < rest.len() && rest[i] == w;
            assert(words[i + 1] == w);
        }
        lemma_words_and_paths(rest, paths);
        assert(all.drop_first() =~= rest + seq!["--"@] + paths);
        assert(all[0] == words[0]);
        assert(seq![words[0]] + rest =~= words);
    }
}

/// Whether a command changes files in the worktree.
pub open spec fn writes_worktree(words: Seq<Seq<char>>) -> bool {
    if words[0] == "add"@ || words[0] == "commit"@ || words[0] == "branch"@ || words[0] == "fetch"@ || words[0]
        == "push"@ {
        false
    } else if words[0] == "reset"@ {
        words.contains("--hard"@) || words.contains("--merge"@) || words.contains("--keep"@)
    } else if words[0] == "rm"@ || words[0] == "apply"@ {
        !words.contains("--cached"@)
    } else if words[0] == "restore"@ {
        words.contains("--worktree"@) || !words.contains("--staged"@)
    } else {
        true
    }
}

/// Whether a command changes the index, and only that: entries come from the worktree, from
/// a commit or from a patch, or leave it.
pub open spec fn writes_index(words: Seq<Seq<char>>) -> bool {
    if words[0] == "reset"@ {
        !words.contains("--soft"@)
    } else if words[0] == "apply"@ {
        words.contains("--cached"@) || words.contains("--index"@)
    } else if words[0] == "restore"@ {
        words.contains("--staged"@)
    } else {
        words[0] == "add"@ || words[0] == "rm"@
    }
}

/// The paths of a file: where it is, and where it was.
pub open spec fn file_paths(file: FileView) -> Seq<Seq<char>> {
    if file.orig_path is Some {
        seq![file.path, file.orig_path->0]
    } else {
        seq![file.path]
    }
}

proof fn reveal_words()
    ensures
        "add"@.len() == 3,
        "-A"@.len() == 2,
        "-A"@[1] == 'A',
        "rm"@.len() == 2,
        "rm"@[0] == 'r',
        "--cached"@.len() == 8,
        "-q"@.len() == 2,
        "-q"@[1] == 'q',
        "-r"@.len() == 2,
        "-r"@[1] == 'r',
        "-f"@.len() == 2,
        "-f"@[1] == 'f',
        "-d"@.len() == 2,
        "-d"@[1] == 'd',
        "reset"@.len() == 5,
        "reset"@[1] == 'e',
        "HEAD"@.len() == 4,
        "."@.len() == 1,
        "--"@.len() == 2,
        "--"@[0] == '-',
        "--"@[1] == '-',
        "clean"@.len() == 5,
        "clean"@[0] == 'c',
        "restore"@.len() == 7,
        "--staged"@.len() == 8,
        "--staged"@[2] == 's',
        "--cached"@[2] == 'c',
        "--worktree"@.len() == 10,
        "--source=HEAD"@.len() == 13,
        "--hard"@.len() == 6,
        "--merge"@.len() == 7,
        "--merge"@[0] == '-',
        "--keep"@.len() == 6,
        "--soft"@.len() == 6,
        "commit"@.len() == 6,
        "commit"@[0] == 'c',
        "branch"@.len() == 6,
        "branch"@[0] == 'b',
        "fetch"@.len() == 5,
        "fetch"@[0] == 'f',
        "push"@.len() == 4,
        "push"@[0] == 'p',
        "apply"@.len() == 5,
        "apply"@[0] == 'a',
        "HEAD"@[0] == 'H',
        "add"@[0] == 'a',
        "reset"@[0] == 'r',
        "restore"@[0] == 'r',
        "--reverse"@.len() == 9,
        "--index"@.len() == 7,
        "--index"@[0] == '-',
        "--whitespace=nowarn"@.len() == 19,
{
    reveal_strlit("add");
    reveal_strlit("-A");
    reveal_strlit("rm");
    reveal_strlit("--cached");
    reveal_strlit("-q");
    reveal_strlit("-r");
    reveal_strlit("-f");
    reveal_strlit("-d");
    reveal_strlit("reset");
    reveal_strlit("HEAD");
    reveal_strlit(".");
    reveal_strlit("--");
    reveal_strlit("clean");
    reveal_strlit("restore");
    reveal_strlit("--staged");
    reveal_strlit("--worktree");
    reveal_strlit("--source=HEAD");
    reveal_strlit("--hard");
    reveal_strlit("--merge");
    reveal_strlit("--keep");
    reveal_strlit("--soft");
    reveal_strlit("commit");
    reveal_strlit("branch");
    reveal_strlit("fetch");
    reveal_strlit("push");
    reveal_strlit("apply");
    reveal_strlit("--reverse");
    reveal_strlit("--index");
    reveal_strlit("--whitespace=nowarn");
}

proof fn lemma_file_paths(words: Seq<Seq<char>>, file: FileView)
    requires
        !words.contains("--"@),
    ensures
        words_of(words + path_specs(file)) == words,
        paths_of(words + path_specs(file)) == file_paths(file),
{
    lemma_words_and_paths(words, file_paths(file));
    assert(words + path_specs(file) =~= words + seq!["--"@] + file_paths(file));
}

/// Unstaging a file concerns the index alone, never the worktree, and exactly the file's
/// paths. With commits, the entries become those of HEAD; without, they leave the index.
pub proof fn law_unstaging_keeps_the_worktree(file: FileView, unborn: bool)
    ensures
        ({
            let words = words_of(unstage_args(file, unborn));
            &&& !writes_worktree(words)
            &&& writes_index(words)
            &&& paths_of(unstage_args(file, unborn)) == file_paths(file)
            &&& !unborn ==> words[0] == "reset"@ && words.last() == "HEAD"@
            &&& unborn ==> words[0] == "rm"@ && words.contains("--cached"@) && words.contains("-r"@)
        }),
{
    reveal_words();
    let words = if unborn {
        seq!["rm"@, "--cached"@, "-q"@, "-r"@]
    } else {
        seq!["reset"@, "-q"@, "HEAD"@]
    };
    assert(unstage_args(file, unborn) =~= words + path_specs(file));
    lemma_file_paths(words, file);
    if unborn {
        assert(words[1] == "--cached"@);
        assert(words[3] == "-r"@);
    }
}

/// Whether a file has a change that isn't staged: its worktree letter says so, or git doesn't
/// track it, or it has a conflict.
pub open spec fn has_something_to_stage(file: FileView) -> bool {
    file.worktree != '.' || file.kind == FileKind::Untracked || file.kind == FileKind::Unmerged
}

/// `space` stages all of a file, deletions included, if anything of it is unstaged, and
/// unstages it otherwise. Either way the worktree stays as it is, and so do other files.
pub proof fn law_space_stages_or_unstages(file: FileView, unborn: bool)
    ensures
        ({
            let args = toggle_stage_args(file, unborn);
            let words = words_of(args);
            &&& !writes_worktree(words)
            &&& writes_index(words)
            &&& paths_of(args) == file_paths(file)
            &&& words[0] == "add"@ <==> has_something_to_stage(file)
            &&& words[0] == "add"@ ==> words.contains("-A"@)
            &&& !has_something_to_stage(file) ==> args == unstage_args(file, unborn)
        }),
{
    reveal_words();
    law_unstaging_keeps_the_worktree(file, unborn);
    if has_something_to_stage(file) {
        let words = seq!["add"@, "-A"@];
        assert(words[1] == "-A"@);
        lemma_file_paths(words, file);
    }
}

/// `a` stages everything if any file has something unstaged, and unstages everything
/// otherwise. It names no single file, and the worktree stays as it is.
pub proof fn law_all_files_are_staged_or_unstaged(files: Seq<FileView>, unborn: bool)
    ensures
        ({
            let args = toggle_all_args(files, unborn);
            &&& !writes_worktree(args)
            &&& writes_index(args)
            &&& args[0] == "add"@ <==> exists|i: int|
                0 <= i < files.len() && has_something_to_stage(#[trigger] files[i])
            &&& args[0] == "add"@ ==> args.last() == "-A"@
            &&& args[0] == "rm"@ ==> unborn && args.last() == "."@ && args.contains("-r"@)
            &&& args[0] == "reset"@ ==> !unborn && args.len() == 2 && args[1] == "-q"@
        }),
{
    reveal_words();
    let args = toggle_all_args(files, unborn);
    if exists|i: int| 0 <= i < files.len() && has_something_to_stage(#[trigger] files[i]) {
        let i = choose|i: int| 0 <= i < files.len() && has_something_to_stage(#[trigger] files[i]);
        assert(files[i].unstaged());
    } else if unborn {
        assert(args[1] == "--cached"@);
        assert(args[3] == "-r"@);
    }
}

/// The command of an operation that always has one.
pub open spec fn command_of(op: OpView, cwd: Seq<u8>) -> CommandView {
    op.command(cwd)->Ok_0
}

/// Whether an operation runs a command that changes the repo where it is.
pub open spec fn writes_in(op: OpView, cwd: Seq<u8>) -> bool {
    op.command(cwd) is Ok && command_of(op, cwd).kind == CmdKind::Write && command_of(op, cwd).cwd == cwd
}

/// What the Files panel does is what is stated of its commands.
pub proof fn law_file_operations_run_their_commands(file: FileView, files: Seq<FileView>, unborn: bool, cwd: Seq<u8>)
    ensures
        writes_in(OpView::ToggleStage { file, unborn }, cwd),
        writes_in(OpView::ToggleStageAll { files, unborn }, cwd),
        writes_in(OpView::Discard { file }, cwd),
        command_of(OpView::ToggleStage { file, unborn }, cwd).args == toggle_stage_args(file, unborn),
        command_of(OpView::ToggleStageAll { files, unborn }, cwd).args == toggle_all_args(files, unborn),
{
}

/// Discarding goes for both the index and the worktree, and touches only the file. One that
/// git doesn't track is deleted, directories included; one that was added is removed; any
/// other is as HEAD has it, a rename at both its paths.
pub proof fn law_discarding_leaves_nothing_of_the_change(file: FileView, cwd: Seq<u8>)
    ensures
        ({
            let args = command_of(OpView::Discard { file }, cwd).args;
            let words = words_of(args);
            &&& writes_worktree(words)
            &&& file.kind == FileKind::Untracked ==> words[0] == "clean"@ && words.contains("-f"@) && words.contains(
                "-d"@,
            ) && paths_of(args) == seq![file.path]
            &&& file.kind != FileKind::Untracked ==> writes_index(words)
            &&& file.kind != FileKind::Untracked && file.index == 'A' ==> words[0] == "rm"@ && words.contains("-f"@)
                && paths_of(args) == seq![file.path]
            &&& file.kind != FileKind::Untracked && file.index != 'A' ==> words[0] == "restore"@ && words.contains(
                "--staged"@,
            ) && words.contains("--worktree"@) && words.contains("--source=HEAD"@) && paths_of(args) == file_paths(
                file,
            )
        }),
{
    reveal_words();
    let args = command_of(OpView::Discard { file }, cwd).args;
    if file.kind == FileKind::Untracked {
        let words = seq!["clean"@, "-f"@, "-d"@];
        lemma_words_and_paths(words, seq![file.path]);
        assert(args =~= words + seq!["--"@] + seq![file.path]);
        assert(words[1] == "-f"@ && words[2] == "-d"@);
    } else if file.index == 'A' {
        let words = seq!["rm"@, "-f"@, "-q"@];
        lemma_words_and_paths(words, seq![file.path]);
        assert(args =~= words + seq!["--"@] + seq![file.path]);
        assert(words[1] == "-f"@);
        assert(!words.contains("--cached"@));
    } else {
        let words = seq!["restore"@, "--staged"@, "--worktree"@, "--source=HEAD"@];
        lemma_file_paths(words, file);
        assert(args =~= words + path_specs(file));
        assert(words[1] == "--staged"@ && words[2] == "--worktree"@ && words[3] == "--source=HEAD"@);
    }
}

/// A partial patch goes to git as it is. Staging and unstaging concern the index alone,
/// discarding the worktree alone; unstaging and discarding take the changes back.
pub proof fn law_patches_are_applied_where_they_belong(patch: Seq<u8>, action: PatchAction, cwd: Seq<u8>)
    ensures
        ({
            let cmd = command_of(OpView::Apply { patch, action }, cwd);
            &&& writes_in(OpView::Apply { patch, action }, cwd)
            &&& cmd.stdin == Some(patch)
            &&& cmd.args[0] == "apply"@
            &&& writes_worktree(cmd.args) <==> action is Discard
            &&& writes_index(cmd.args) <==> !(action is Discard)
            &&& cmd.args.contains("--reverse"@) <==> !(action is Stage)
        }),
{
    reveal_words();
    let args = command_of(OpView::Apply { patch, action }, cwd).args;
    match action {
        PatchAction::Stage => {
            assert(args[2] == "--cached"@);
        },
        PatchAction::Unstage => {
            assert(args[2] == "--cached"@);
            assert(args[3] == "--reverse"@);
        },
        PatchAction::Discard => {
            assert(args[2] == "--reverse"@);
        },
    }
}

/// A commit takes what is staged and nothing else, with the message that was typed; it
/// replaces the last commit exactly if asked to, and skips no hook.
pub proof fn law_commits_take_what_is_staged(message: Seq<char>, amend: bool, cwd: Seq<u8>)
    ensures
        ({
            let cmd = command_of(OpView::Commit { message, amend }, cwd);
            &&& writes_in(OpView::Commit { message, amend }, cwd)
            &&& cmd.args[0] == "commit"@
            &&& !writes_worktree(cmd.args)
            &&& cmd.stdin == Some(vstd::utf8::encode_utf8(message))
            &&& cmd.args[2] == "-F"@ && cmd.args[3] == "-"@
            &&& cmd.args.contains("--amend"@) <==> amend
            &&& !cmd.args.contains("-a"@) && !cmd.args.contains("--all"@)
            &&& !cmd.args.contains("-n"@) && !cmd.args.contains("--no-verify"@)
            &&& !cmd.args.contains("--allow-empty"@)
        }),
{
    reveal_words();
    reveal_strlit("--cleanup=strip");
    assert("--cleanup=strip"@.len() == 15);
    reveal_strlit("-F");
    assert("-F"@.len() == 2);
    reveal_strlit("-");
    assert("-"@.len() == 1);
    reveal_strlit("--amend");
    assert("--amend"@.len() == 7);
    reveal_strlit("-a");
    assert("-a"@.len() == 2);
    reveal_strlit("--all");
    assert("--all"@.len() == 5);
    reveal_strlit("-n");
    assert("-n"@.len() == 2);
    reveal_strlit("--no-verify");
    assert("--no-verify"@.len() == 11);
    reveal_strlit("--allow-empty");
    assert("--allow-empty"@.len() == 13);
    let args = command_of(OpView::Commit { message, amend }, cwd).args;
    assert("-F"@[1] != "-a"@[1]);
    assert("-F"@[1] != "-n"@[1]);
    if amend {
        assert(args =~= seq!["commit"@, "--cleanup=strip"@, "-F"@, "-"@, "--amend"@]);
        assert(args[4] == "--amend"@);
    } else {
        assert(args =~= seq!["commit"@, "--cleanup=strip"@, "-F"@, "-"@]);
    }
    assert forall|i: int| 0 <= i < args.len() implies args[i] != "-a"@ && args[i] != "--all"@ && args[i] != "-n"@
        && args[i] != "--no-verify"@ && args[i] != "--allow-empty"@ by {
        assert(i == 0 || i == 1 || i == 2 || i == 3 || i == 4);
    }
}

/// What is stashed: untracked files for everything, with or without the index; only what is
/// staged if asked; the index stays for one kind alone. A message goes along exactly if it
/// isn't blank.
pub proof fn law_stashes_take_what_was_asked(kind: StashKind, message: Seq<char>, cwd: Seq<u8>)
    ensures
        ({
            let args = command_of(OpView::Stash { kind, message }, cwd).args;
            let n = args.len() as int;
            let options = if trim(message).len() > 0 {
                args.take(n - 2)
            } else {
                args
            };
            &&& writes_in(OpView::Stash { kind, message }, cwd)
            &&& args[0] == "stash"@ && args[1] == "push"@
            &&& options.contains("--include-untracked"@) <==> (kind is All || kind is KeepIndex)
            &&& options.contains("--keep-index"@) <==> kind is KeepIndex
            &&& options.contains("--staged"@) <==> kind is Staged
            &&& options.len() <= 4
            &&& !options.contains("-m"@)
            &&& trim(message).len() > 0 ==> args[n - 2] == "-m"@ && args[n - 1] == message
        }),
{
    reveal_words();
    reveal_strlit("stash");
    assert("stash"@.len() == 5);
    reveal_strlit("--include-untracked");
    assert("--include-untracked"@.len() == 19);
    reveal_strlit("--keep-index");
    assert("--keep-index"@.len() == 12);
    reveal_strlit("-m");
    assert("-m"@.len() == 2);
    let args = command_of(OpView::Stash { kind, message }, cwd).args;
    let options = if trim(message).len() > 0 {
        args.take(args.len() - 2)
    } else {
        args
    };
    let flags: Seq<Seq<char>> = match kind {
        StashKind::All => seq!["--include-untracked"@],
        StashKind::KeepIndex => seq!["--include-untracked"@, "--keep-index"@],
        StashKind::TrackedFiles => Seq::empty(),
        StashKind::Staged => seq!["--staged"@],
    };
    assert(options =~= seq!["stash"@, "push"@] + flags);
    assert(trim(message).len() > 0 ==> args =~= options + seq!["-m"@, message]);
    assert("--keep-index"@[2] != "--staged"@[2]);
    assert forall|i: int| 0 <= i < options.len() implies options[i] != "-m"@ by {
        assert(i == 0 || i == 1 || i == 2 || i == 3);
    }
    match kind {
        StashKind::All => {
            assert(options[2] == "--include-untracked"@);
        },
        StashKind::KeepIndex => {
            assert(options[2] == "--include-untracked"@);
            assert(options[3] == "--keep-index"@);
        },
        StashKind::TrackedFiles => {},
        StashKind::Staged => {
            assert(options[2] == "--staged"@);
        },
    }
}

/// The name of a stash is read back as its number, so each has a name of its own.
pub proof fn law_stash_names_are_read_back(index: nat)
    requires
        index <= usize::MAX,
    ensures
        stash_index(stash_selector(index)) == Some(index),
{
    reveal_strlit("stash@{");
    assert("stash@{"@.len() == 7);
    reveal_strlit("}");
    assert("}"@.len() == 1);
    let name = stash_selector(index);
    let rest = decimal(index) + "}"@;
    assert(name =~= "stash@{"@ + rest);
    assert(name.take(7) =~= "stash@{"@);
    assert("stash@{"@.is_prefix_of(name));
    assert(name.skip(7) =~= rest);
    assert("}"@.is_suffix_of(rest)) by {
        assert(rest.skip(rest.len() - 1) =~= "}"@);
    }
    assert(rest.take(rest.len() - 1) =~= decimal(index));
    law_read_of_written_number(index, usize::MAX as nat);
}

/// Applying, popping, dropping and branching off each act on the stash that was chosen:
/// applying keeps it, popping applies and drops it, dropping changes no file, branching off
/// names the new branch.
pub proof fn law_stashes_are_acted_on_by_number(index: nat, name: Seq<char>, cwd: Seq<u8>)
    ensures
        ({
            let apply = command_of(OpView::StashApply { index }, cwd).args;
            let pop = command_of(OpView::StashPop { index }, cwd).args;
            let drop = command_of(OpView::StashDrop { index }, cwd).args;
            let branch = command_of(OpView::StashBranch { index, name }, cwd).args;
            &&& apply.len() == 3 && apply[0] == "stash"@ && apply[1] == "apply"@ && apply[2] == stash_selector(index)
            &&& pop.len() == 3 && pop[0] == "stash"@ && pop[1] == "pop"@ && pop[2] == stash_selector(index)
            &&& drop.len() == 3 && drop[0] == "stash"@ && drop[1] == "drop"@ && drop[2] == stash_selector(index)
            &&& branch.len() == 4 && branch[0] == "stash"@ && branch[1] == "branch"@ && branch[2] == name && branch[3]
                == stash_selector(index)
        }),
        writes_in(OpView::StashApply { index }, cwd),
        writes_in(OpView::StashPop { index }, cwd),
        writes_in(OpView::StashDrop { index }, cwd),
        writes_in(OpView::StashBranch { index, name }, cwd),
{
}

/// Checkouts go to the branch that was asked for, without force. A remote's branch gets a
/// local one that tracks it, a new branch starts where it was asked to.
pub proof fn law_checkouts_go_where_asked(
    name: Seq<char>,
    from: RemoteBranchView,
    start: Option<Seq<char>>,
    cwd: Seq<u8>,
)
    ensures
        ({
            let local = command_of(OpView::Checkout { name }, cwd).args;
            let remote = command_of(OpView::CheckoutRemote { from }, cwd).args;
            let fresh = command_of(OpView::NewBranch { name, start }, cwd).args;
            &&& local.len() == 2 && local[0] == "checkout"@ && local[1] == name
            &&& remote.len() == 3 && remote[0] == "checkout"@ && remote[1] == "--track"@
            &&& remote[2] == from.remote + seq!['/'] + from.name
            &&& fresh[0] == "checkout"@ && fresh[1] == "-b"@ && fresh[2] == name
            &&& match start {
                Some(s) => fresh.len() == 4 && fresh[3] == s,
                None => fresh.len() == 3,
            }
        }),
        writes_in(OpView::Checkout { name }, cwd),
        writes_in(OpView::CheckoutRemote { from }, cwd),
        writes_in(OpView::NewBranch { name, start }, cwd),
{
    reveal_strlit("/");
    assert("/"@.len() == 1);
    assert("/"@ =~= seq!['/']);
}

/// A branch is deleted by name, and against git's advice only if that was asked for.
pub proof fn law_branches_are_deleted_by_name(name: Seq<char>, cwd: Seq<u8>)
    ensures
        ({
            let asked = command_of(OpView::DeleteBranch { name, force: false }, cwd).args;
            let forced = command_of(OpView::DeleteBranch { name, force: true }, cwd).args;
            &&& asked.len() == 3 && asked[0] == "branch"@ && asked[1] == "-d"@ && asked[2] == name
            &&& forced.len() == 3 && forced[0] == "branch"@ && forced[1] == "-D"@ && forced[2] == name
        }),
        writes_in(OpView::DeleteBranch { name, force: false }, cwd),
        writes_in(OpView::DeleteBranch { name, force: true }, cwd),
{
}

/// A fast-forward needs an upstream, and moves exactly that branch to it: the one that is
/// checked out by a merge that makes no commit, any other by a local fetch that isn't forced,
/// so that a branch with commits of its own is refused.
pub proof fn law_fast_forwards_never_lose_commits(target: BranchView, cwd: Seq<u8>)
    ensures
        ({
            let op = OpView::FastForward { target };
            &&& op.command(cwd) is Ok <==> target.upstream is Tracking
            &&& target.upstream matches UpstreamView::Tracking { name, .. } ==> {
                let args = command_of(op, cwd).args;
                &&& writes_in(op, cwd)
                &&& args.len() == 3
                &&& target.is_head ==> args[0] == "merge"@ && args[1] == "--ff-only"@ && args[2] == name
                &&& !target.is_head ==> args[0] == "fetch"@ && args[1] == "."@ && args[2][0] != '+' && args[2]
                    == "refs/remotes/"@ + name + ":refs/heads/"@ + target.name
            }
        }),
{
    reveal_strlit("refs/remotes/");
    assert("refs/remotes/"@.len() == 13);
}

/// Setting an upstream concerns the branch and the upstream that were chosen.
pub proof fn law_upstreams_are_set_as_chosen(branch: Seq<char>, upstream: Seq<char>, cwd: Seq<u8>)
    ensures
        ({
            let op = OpView::SetUpstream { branch, upstream };
            let args = command_of(op, cwd).args;
            &&& writes_in(op, cwd)
            &&& args.len() == 3 && args[0] == "branch"@ && args[2] == branch
            &&& args[1] == "--set-upstream-to="@ + upstream
        }),
{
}

/// Pulls and pushes talk to a remote. A push without an upstream sets it, to the branch of
/// the same name on the remote it was given (else `origin`); with one it names nothing. It
/// overwrites only if asked, and then never what it hasn't seen.
pub proof fn law_pushes_and_pulls(has_upstream: bool, remote: Option<Seq<char>>, force: bool, cwd: Seq<u8>)
    ensures
        ({
            let op = OpView::Push { has_upstream, remote, force };
            let args = command_of(op, cwd).args;
            let lease: int = if force {
                1
            } else {
                0
            };
            &&& op.command(cwd) is Ok && command_of(op, cwd).kind == CmdKind::Network && command_of(op, cwd).cwd == cwd
            &&& args[0] == "push"@
            &&& force ==> args[1] == "--force-with-lease"@
            &&& has_upstream ==> args.len() == 1 + lease
            &&& !has_upstream ==> args.len() == 4 + lease && args[1 + lease] == "--set-upstream"@ && args[3 + lease]
                == "HEAD"@ && args[2 + lease] == (if remote is Some {
                remote->0
            } else {
                "origin"@
            })
        }),
        ({
            let args = command_of(OpView::Pull, cwd).args;
            &&& command_of(OpView::Pull, cwd).kind == CmdKind::Network && command_of(OpView::Pull, cwd).cwd == cwd
            &&& args[0] == "pull"@ && args.contains("--no-edit"@) && args.contains("--recurse-submodules=no"@)
            &&& !args.contains("--rebase"@) && !args.contains("--force"@)
        }),
{
    reveal_strlit("pull");
    assert("pull"@.len() == 4);
    reveal_strlit("--no-edit");
    assert("--no-edit"@.len() == 9);
    reveal_strlit("--recurse-submodules=no");
    assert("--recurse-submodules=no"@.len() == 23);
    reveal_strlit("--rebase");
    assert("--rebase"@.len() == 8);
    reveal_strlit("--force");
    assert("--force"@.len() == 7);
    let args = command_of(OpView::Pull, cwd).args;
    assert(args[1] == "--no-edit"@);
    assert(args[2] == "--recurse-submodules=no"@);
    assert forall|i: int| 0 <= i < args.len() implies args[i] != "--rebase"@ && args[i] != "--force"@ by {
        assert(i == 0 || i == 1 || i == 2);
    }
}

/// An operation runs with nothing else allowed: any failure of git's is one, and only
/// patches and messages go in on stdin.
pub proof fn law_failures_are_failures(op: OpView, cwd: Seq<u8>)
    requires
        op.command(cwd) is Ok,
    ensures
        command_of(op, cwd).ok_codes.len() == 0,
        command_of(op, cwd).stdin is Some <==> (op is Apply || op is Commit),
        command_of(op, cwd).cwd == cwd,
        command_of(op, cwd).kind == CmdKind::Network <==> (op is Pull || op is Push),
        command_of(op, cwd).kind != CmdKind::Read,
{
}

} // verus!
