//! How a repo gets to a branch, and what a renamed stash and a branch name have to be.

use vstd::prelude::*;

use crate::git::{CmdKind, ErrorView, OutputView};
use crate::model::{DefaultView, StashView};
use crate::ops::{
    after_counts, bad_name_char, default_next, default_parts, default_remotes, first_remote_with, list_branches,
    ordered_remotes, remote_ref, rename_command, rename_next, renamed_subject, stash_selector, subject_parts,
    switch_next, switch_to, valid_branch_name, without, DefaultStageView, DefaultStepView, DefaultSwitchView,
    RenameStageView, RenameStepView, SwitchStageView, SwitchStepView, SwitchedView,
};
use crate::summary::{law_longest_remote, longest_remote, main_remote, on_remote};
use crate::text::seqs::{
    has_sub, lemma_index_of, lemma_sub_index, lemma_sub_index_is, occurs_at, split_once, split_once_sub,
};
use crate::text::strings::{lines, trim};

verus! {

/// A branch's ref on a remote is `refs/remotes/<remote>/<name>`.
pub proof fn law_remote_refs_name_both(remote: Seq<char>, name: Seq<char>)
    ensures
        remote_ref(remote, name) == "refs/remotes/"@ + remote + seq!['/'] + name,
{
    reveal_strlit("/");
    assert("/"@.len() == 1);
    assert("/"@ =~= seq!['/']);
}

proof fn lemma_without(names: Seq<Seq<char>>, name: Seq<char>)
    ensures
        forall|n: Seq<char>| #[trigger] without(names, name).contains(n) <==> names.contains(n) && n != name,
    decreases names.len(),
{
    if names.len() > 0 {
        let before = names.drop_last();
        lemma_without(before, name);
        let last = names.last();
        assert forall|n: Seq<char>| names.contains(n) <==> before.contains(n) || n == last by {
            if before.contains(n) {
                let i = choose|i: int| 0 <= i < before.len() && before[i] == n;
                assert(names[i] == n);
            }
            if names.contains(n) && n != last {
                let i = choose|i: int| 0 <= i < names.len() && names[i] == n;
                assert(before[i] == n);
            }
            if n == last {
                assert(names[names.len() - 1] == n);
            }
        }
        if last != name {
            let w = without(before, name);
            assert forall|n: Seq<char>| #[trigger] w.push(last).contains(n) <==> w.contains(n) || n == last by {
                if w.contains(n) {
                    let i = choose|i: int| 0 <= i < w.len() && w[i] == n;
                    assert(w.push(last)[i] == n);
                }
                if w.push(last).contains(n) && n != last {
                    let i = choose|i: int| 0 <= i < w.push(last).len() && w.push(last)[i] == n;
                    assert(w[i] == n);
                }
                if n == last {
                    assert(w.push(last)[w.len() as int] == n);
                }
            }
        }
    }
}

/// The main remote, without an upstream to tell, is `origin` if that is a remote, else the
/// first one; there is none only without remotes. An upstream's remote comes before both.
pub proof fn law_main_remote(remotes: Seq<Seq<char>>, upstream: Seq<char>)
    ensures
        main_remote(remotes, None) is Some <==> remotes.len() > 0,
        main_remote(remotes, None) matches Some(r) ==> remotes.contains(r),
        remotes.contains("origin"@) ==> main_remote(remotes, None) == Some("origin"@),
        remotes.len() > 0 && !remotes.contains("origin"@) ==> main_remote(remotes, None) == Some(remotes[0]),
        main_remote(remotes, Some(upstream)) == (if longest_remote(remotes, upstream) is Some {
            longest_remote(remotes, upstream)
        } else {
            main_remote(remotes, None)
        }),
{
    if remotes.len() > 0 {
        assert(remotes.contains(remotes[0]));
    }
}

/// Branches are looked for on every remote and no other, on the main one first.
pub proof fn law_remotes_are_searched_main_first(remotes: Seq<Seq<char>>, n: Seq<char>)
    ensures
        ordered_remotes(remotes).contains(n) <==> remotes.contains(n),
        remotes.len() > 0 ==> ordered_remotes(remotes)[0] == main_remote(remotes, None)->0,
{
    law_main_remote(remotes, n);
    if remotes.len() > 0 {
        let primary = main_remote(remotes, None)->0;
        lemma_without(remotes, primary);
        let rest = without(remotes, primary);
        let all = seq![primary] + rest;
        if rest.contains(n) {
            let i = choose|i: int| 0 <= i < rest.len() && rest[i] == n;
            assert(all[i + 1] == n);
        }
        if n == primary {
            assert(all[0] == n);
        }
        if all.contains(n) && n != primary {
            let i = choose|i: int| 0 <= i < all.len() && all[i] == n;
            assert(rest[i - 1] == n);
        }
    }
}

proof fn lemma_first_remote(remotes: Seq<Seq<char>>, name: Seq<char>, listed: Seq<Seq<char>>)
    ensures
        match first_remote_with(remotes, name, listed) {
            Some(r) => remotes.contains(r) && listed.contains(remote_ref(r, name)),
            None => forall|r: Seq<char>| #[trigger] remotes.contains(r) ==> !listed.contains(remote_ref(r, name)),
        },
        remotes.len() > 0 && listed.contains(remote_ref(remotes[0], name)) ==> first_remote_with(remotes, name, listed)
            == Some(remotes[0]),
    decreases remotes.len(),
{
    if remotes.len() > 0 {
        let rest = remotes.drop_first();
        lemma_first_remote(rest, name, listed);
        if listed.contains(remote_ref(remotes[0], name)) {
            assert(remotes.contains(remotes[0]));
        } else {
            match first_remote_with(rest, name, listed) {
                Some(r) => {
                    let i = choose|i: int| 0 <= i < rest.len() && rest[i] == r;
                    assert(remotes[i + 1] == r);
                },
                None => {
                    assert forall|r: Seq<char>| #[trigger] remotes.contains(r) implies !listed.contains(
                        remote_ref(r, name),
                    ) by {
                        let i = choose|i: int| 0 <= i < remotes.len() && remotes[i] == r;
                        if i > 0 {
                            assert(rest[i - 1] == r);
                            assert(rest.contains(r));
                        }
                    }
                },
            }
        }
    }
}

/// Switching goes to the local branch if there is one. Else, if a remote has it, a local
/// branch of that name is made that tracks the remote's: the main remote's, if that has it.
/// Else nothing is run.
pub proof fn law_switching_finds_the_branch(
    cwd: Seq<u8>,
    name: Seq<char>,
    remotes: Seq<Seq<char>>,
    listed: Seq<Seq<char>>,
)
    ensures
        ({
            let step = switch_to(cwd, name, remotes, listed);
            let local = listed.contains("refs/heads/"@ + name);
            let on_some = exists|r: Seq<char>|
                #[trigger] remotes.contains(r) && listed.contains("refs/remotes/"@ + r + seq!['/'] + name);
            &&& local ==> (step matches SwitchStepView::Run { cmd, stage } && stage is Local && cmd.cwd == cwd
                && cmd.kind == CmdKind::Write && cmd.args.len() == 2 && cmd.args[0] == "switch"@ && cmd.args[1]
                == name)
            &&& !local && on_some ==> (step matches SwitchStepView::Run { cmd, stage } && (
            stage matches SwitchStageView::Tracking { start } && {
                &&& cmd.cwd == cwd && cmd.kind == CmdKind::Write
                &&& cmd.args.len() == 5 && cmd.args[0] == "switch"@ && cmd.args[1] == "--track"@ && cmd.args[2]
                    == "-c"@ && cmd.args[3] == name && cmd.args[4] == start
                &&& exists|r: Seq<char>|
                    #[trigger] remotes.contains(r) && start == r + seq!['/'] + name && listed.contains(
                        "refs/remotes/"@ + start,
                    )
                &&& listed.contains("refs/remotes/"@ + main_remote(remotes, None)->0 + seq!['/'] + name) ==> start
                    == main_remote(remotes, None)->0 + seq!['/'] + name
            }))
            &&& !local && !on_some ==> step == (SwitchStepView::Done { switched: SwitchedView::Missing })
        }),
{
    reveal_strlit("/");
    assert("/"@.len() == 1);
    assert("/"@ =~= seq!['/']);
    let order = ordered_remotes(remotes);
    lemma_first_remote(order, name, listed);
    let slash = seq!['/'];
    assert forall|r: Seq<char>| #[trigger] remotes.contains(r) <==> order.contains(r) by {
        law_remotes_are_searched_main_first(remotes, r);
    }
    assert forall|r: Seq<char>| remote_ref(r, name) == "refs/remotes/"@ + (#[trigger] (r + slash + name)) by {
        assert(remote_ref(r, name) =~= "refs/remotes/"@ + (r + slash + name));
    }
    assert forall|r: Seq<char>| #[trigger] ("refs/remotes/"@ + r + slash + name) == remote_ref(r, name) by {
        law_remote_refs_name_both(r, name);
    }
    law_remotes_are_searched_main_first(remotes, name);
    law_main_remote(remotes, name);
    match first_remote_with(order, name, listed) {
        Some(r) => {
            assert(remotes.contains(r));
            assert("refs/remotes/"@ + (r + slash + name) =~= remote_ref(r, name));
            assert(r + "/"@ + name =~= r + slash + name);
            let m = main_remote(remotes, None)->0;
            assert("refs/remotes/"@ + m + slash + name =~= remote_ref(m, name));
            if remotes.len() == 0 {
                let i = choose|i: int| 0 <= i < remotes.len() && remotes[i] == r;
            }
        },
        None => {
            if exists|r: Seq<char>|
                #[trigger] remotes.contains(r) && listed.contains("refs/remotes/"@ + r + seq!['/'] + name) {
                let r = choose|r: Seq<char>|
                    #[trigger] remotes.contains(r) && listed.contains("refs/remotes/"@ + r + seq!['/'] + name);
                assert("refs/remotes/"@ + r + slash + name =~= remote_ref(r, name));
                assert(order.contains(r));
            }
        },
    }
}

/// What is known before switching is which of those refs exist: git is asked for the local
/// branch and for the one on every remote, and nothing is written.
pub proof fn law_every_place_is_looked_at(cwd: Seq<u8>, name: Seq<char>, remotes: Seq<Seq<char>>, r: Seq<char>)
    ensures
        ({
            let cmd = list_branches(cwd, name, remotes);
            &&& cmd.kind == CmdKind::Read && cmd.cwd == cwd
            &&& cmd.args[0] == "for-each-ref"@ && cmd.args[1] == "--format=%(refname)"@
            &&& cmd.args.contains("refs/heads/"@ + name)
            &&& remotes.contains(r) ==> cmd.args.contains("refs/remotes/"@ + r + seq!['/'] + name)
        }),
{
    let cmd = list_branches(cwd, name, remotes);
    assert(cmd.args[2] == "refs/heads/"@ + name);
    if remotes.contains(r) {
        law_remotes_are_searched_main_first(remotes, r);
        law_remote_refs_name_both(r, name);
        let order = ordered_remotes(remotes);
        let i = choose|i: int| 0 <= i < order.len() && order[i] == r;
        assert(cmd.args[3 + i] == remote_ref(r, name));
    }
}

/// A reply that lists refs decides the switch; one after the switch says what was done; a
/// failure ends it.
pub proof fn law_switches_end_as_they_began(
    cwd: Seq<u8>,
    name: Seq<char>,
    remotes: Seq<Seq<char>>,
    start: Seq<char>,
    out: OutputView,
    error: ErrorView,
    stage: SwitchStageView,
)
    ensures
        switch_next(cwd, name, remotes, SwitchStageView::List, Ok(out)) == switch_to(
            cwd,
            name,
            remotes,
            lines(out.text()),
        ),
        switch_next(cwd, name, remotes, SwitchStageView::Local, Ok(out)) == (SwitchStepView::Done {
            switched: SwitchedView::Local,
        }),
        switch_next(cwd, name, remotes, SwitchStageView::Tracking { start }, Ok(out)) == (SwitchStepView::Done {
            switched: SwitchedView::Tracking(start),
        }),
        switch_next(cwd, name, remotes, stage, Err(error)) == (SwitchStepView::Failed { error }),
{
}

/// The parts of a default branch make up its ref: a local one has no remote; of a remote's,
/// the remote is the longest listed one that fits, if any does.
pub proof fn law_default_branches_are_taken_apart(default: DefaultView, remotes: Seq<Seq<char>>)
    ensures
        ({
            let (name, remote) = default_parts(default, remotes);
            &&& "refs/heads/"@.is_prefix_of(default.full_ref) ==> remote is None && default.full_ref == "refs/heads/"@
                + name
            &&& "refs/remotes/"@.is_prefix_of(default.full_ref) ==> {
                &&& remote matches Some(r) ==> default.full_ref == "refs/remotes/"@ + r + seq!['/'] + name
                &&& remote is None ==> default.full_ref == "refs/remotes/"@ + name
                &&& remote matches Some(r) ==> remotes.contains(r) || !r.contains('/')
                &&& forall|r: Seq<char>| #[trigger]
                    remotes.contains(r) && (r + seq!['/']).is_prefix_of(default.full_ref.skip(13)) ==> remote is Some
                        && remotes.contains(remote->0) && remote->0.len() >= r.len()
            }
        }),
{
    reveal_strlit("refs/heads/");
    assert("refs/heads/"@.len() == 11);
    reveal_strlit("refs/remotes/");
    assert("refs/remotes/"@.len() == 13);
    reveal_strlit("/");
    assert("/"@.len() == 1);
    assert("/"@ =~= seq!['/']);
    let full = default.full_ref;
    if "refs/heads/"@.is_prefix_of(full) {
        assert(full =~= "refs/heads/"@ + full.skip(11));
        if "refs/remotes/"@.is_prefix_of(full) {
            assert(full[5] == "refs/heads/"@[5]);
            assert(full[5] == "refs/remotes/"@[5]);
        }
    } else if "refs/remotes/"@.is_prefix_of(full) {
        let short = full.skip(13);
        assert(full =~= "refs/remotes/"@ + short);
        law_longest_remote(remotes, short);
        match longest_remote(remotes, short) {
            Some(r) => {
                assert(on_remote(r, short));
                assert(short =~= (r + "/"@) + short.skip(r.len() as int + 1));
                assert(full =~= "refs/remotes/"@ + r + seq!['/'] + short.skip(r.len() as int + 1));
                assert forall|o: Seq<char>| #[trigger]
                    remotes.contains(o) && (o + seq!['/']).is_prefix_of(short) implies r.len() >= o.len() by {
                    assert(on_remote(o, short));
                }
            },
            None => {
                assert forall|o: Seq<char>| #[trigger] remotes.contains(o) implies !(o + seq!['/']).is_prefix_of(
                    short,
                ) by {
                    assert(!on_remote(o, short));
                }
                lemma_index_of(short, '/');
                match split_once(short, '/') {
                    Some((r, n)) => {
                        assert(full =~= "refs/remotes/"@ + r + seq!['/'] + n);
                    },
                    None => {},
                }
            },
        }
    }
}

/// The default branch is fast-forwarded exactly if it is behind its upstream and not ahead of
/// it; the result then says so, and otherwise what was counted stands as it is.
pub proof fn law_default_branch_is_forwarded_if_only_behind(cwd: Seq<u8>, result: DefaultSwitchView)
    ensures
        after_counts(cwd, result) is Run <==> result.behind > 0 && result.ahead == 0,
        after_counts(cwd, result) is Done ==> after_counts(cwd, result)->result == result,
        after_counts(cwd, result) matches DefaultStepView::Run { cmd, stage } ==> (
        stage matches DefaultStageView::Forward { result: after } && after.fast_forwarded && after.branch
            == result.branch && after.upstream == result.upstream && after.ahead == result.ahead && after.behind
            == result.behind && after.switched == result.switched && cmd.cwd == cwd && cmd.kind == CmdKind::Write),
{
}

/// Getting to the default branch: a missing branch and a branch without an upstream end it
/// with nothing moved; then HEAD is counted against the upstream, the left count being what
/// HEAD is ahead; a failure ends it.
pub proof fn law_default_switch_steps(
    cwd: Seq<u8>,
    branch: Seq<char>,
    remote: Option<Seq<char>>,
    switched: Option<SwitchedView>,
    upstream: Seq<char>,
    out: OutputView,
    error: ErrorView,
    stage: DefaultStageView,
    result: DefaultSwitchView,
)
    ensures
        ({
            let next = default_next(cwd, branch, remote, DefaultStageView::Upstream { switched }, Ok(out));
            &&& trim(out.text()).len() == 0 ==> (next matches DefaultStepView::Done { result } && result.branch
                == branch && result.switched == switched && result.upstream is None && !result.fast_forwarded)
            &&& trim(out.text()).len() > 0 ==> (next matches DefaultStepView::Run { cmd, stage } && stage == (
            DefaultStageView::Counts { switched, upstream: trim(out.text()) }) && cmd.kind == CmdKind::Read
                && cmd.cwd == cwd && cmd.args[0] == "rev-list"@ && cmd.args[1] == "--left-right"@ && cmd.args[2]
                == "--count"@ && cmd.args[3] == "HEAD...@{upstream}"@)
        }),
        ({
            let next = default_next(cwd, branch, remote, DefaultStageView::Counts { switched, upstream }, Ok(out));
            let known = match next {
                DefaultStepView::Run { cmd, stage } => stage->Forward_result,
                DefaultStepView::Done { result } => result,
                DefaultStepView::Failed { error } => result,
            };
            &&& !(next is Failed)
            &&& known.branch == branch && known.switched == switched && known.upstream == Some(upstream)
            &&& crate::git::parse::two_counts(out.text()) matches Some((left, right)) ==> known.ahead == left
                && known.behind == right
            &&& known.fast_forwarded <==> known.behind > 0 && known.ahead == 0
        }),
        default_next(cwd, branch, remote, DefaultStageView::Forward { result }, Ok(out)) == (DefaultStepView::Done {
            result,
        }),
        default_next(cwd, branch, remote, stage, Err(error)) == (DefaultStepView::Failed { error }),
        ({
            let next = default_next(
                cwd,
                branch,
                remote,
                DefaultStageView::Switch { stage: SwitchStageView::Local },
                Ok(out),
            );
            next matches DefaultStepView::Run { cmd, stage } && stage == (DefaultStageView::Upstream {
                switched: Some(SwitchedView::Local),
            }) && cmd.kind == CmdKind::Read && cmd.cwd == cwd && cmd.args.last() == "@{upstream}"@ && cmd.args[0]
                == "rev-parse"@
        }),
        default_remotes(remote).len() <= 1,
        remote matches Some(r) ==> default_remotes(remote) == seq![r],
{
}

/// A stash's subject is `On <branch>: <message>` or `WIP on <branch>: <message>`, and is taken
/// apart at the first colon.
pub proof fn law_stash_subjects_are_taken_apart(subject: Seq<char>)
    ensures
        subject_parts(subject) matches Some((branch, message)) ==> subject == "On "@ + branch + ": "@ + message
            || subject == "WIP on "@ + branch + ": "@ + message,
{
    reveal_strlit("On ");
    assert("On "@.len() == 3);
    reveal_strlit("WIP on ");
    assert("WIP on "@.len() == 7);
    reveal_strlit(": ");
    assert(": "@.len() == 2);
    let on = "On "@;
    let wip = "WIP on "@;
    let rest = if on.is_prefix_of(subject) {
        subject.skip(3)
    } else {
        subject.skip(7)
    };
    if on.is_prefix_of(subject) {
        assert(subject =~= on + rest);
    } else if wip.is_prefix_of(subject) {
        assert(subject =~= wip + rest);
    }
    lemma_sub_index(rest, ": "@);
    if subject_parts(subject) is Some {
        let (branch, message) = subject_parts(subject)->0;
        assert(rest =~= branch + ": "@ + message);
        assert(on + (branch + ": "@ + message) =~= on + branch + ": "@ + message);
        assert(wip + (branch + ": "@ + message) =~= wip + branch + ": "@ + message);
    }
}

/// Where a text was taken apart at a colon, another text after the colon is found there too.
proof fn lemma_same_colon(s: Seq<char>, branch: Seq<char>, message: Seq<char>)
    requires
        split_once_sub(s, ": "@) is Some,
        (split_once_sub(s, ": "@)->0).0 == branch,
    ensures
        split_once_sub(branch + ": "@ + message, ": "@) == Some((branch, message)),
{
    reveal_strlit(": ");
    assert(": "@.len() == 2);
    let colon = ": "@;
    assert(colon[0] == ':' && colon[1] == ' ');
    lemma_sub_index(s, colon);
    let at = branch.len() as int;
    let rest = branch + colon + message;
    assert(s.take(at) =~= branch);
    assert(rest.subrange(at, at + 2) =~= colon);
    assert forall|i: int| 0 <= i < at implies !occurs_at(rest, colon, i) by {
        if occurs_at(rest, colon, i) {
            let piece = rest.subrange(i, i + 2);
            assert(piece[0] == rest[i] && piece[1] == rest[i + 1]);
            assert(rest[i] == branch[i]);
            assert(s.take(at)[i] == s[i]);
            if i + 1 < at {
                assert(rest[i + 1] == branch[i + 1]);
                assert(s.take(at)[i + 1] == s[i + 1]);
                assert(s.subrange(i, i + 2) =~= colon);
                assert(occurs_at(s, colon, i));
            } else {
                assert(rest[at] == colon[0]);
            }
        }
    }
    lemma_sub_index_is(rest, colon, at);
    assert(rest.take(at) =~= branch);
    assert(rest.skip(at + 2) =~= message);
}

/// A renamed stash has the new message and stays on its branch: both are read back from its
/// new subject. A subject that names no branch is replaced whole.
pub proof fn law_renamed_stashes_keep_their_branch(stash: StashView, message: Seq<char>)
    ensures
        subject_parts(stash.subject) is None ==> renamed_subject(stash, message) == message,
        subject_parts(stash.subject) matches Some((branch, old_message)) ==> subject_parts(
            renamed_subject(stash, message),
        ) == Some((branch, message)),
{
    reveal_strlit("On ");
    assert("On "@.len() == 3);
    if subject_parts(stash.subject) is Some {
        let (branch, old_message) = subject_parts(stash.subject)->0;
        let rest0 = if "On "@.is_prefix_of(stash.subject) {
            stash.subject.skip("On "@.len() as int)
        } else {
            stash.subject.skip("WIP on "@.len() as int)
        };
        lemma_same_colon(rest0, branch, message);
        let rest = branch + ": "@ + message;
        let renamed = renamed_subject(stash, message);
        assert(renamed =~= "On "@ + rest);
        assert(renamed.take(3) =~= "On "@);
        assert(renamed.skip(3) =~= rest);
    }
}

/// Renaming drops the stash it was asked to and stores the commit it had, under the new
/// subject; a failure ends it, and one after the drop tells how to get the commit back.
pub proof fn law_renaming_loses_nothing(
    cwd: Seq<u8>,
    stash: StashView,
    message: Seq<char>,
    oid: Seq<char>,
    out: OutputView,
    error: ErrorView,
)
    ensures
        rename_command(cwd, stash, message, RenameStageView::Resolve).kind == CmdKind::Read,
        rename_command(cwd, stash, message, RenameStageView::Resolve).args == seq![
            "rev-parse"@,
            stash_selector(stash.index),
        ],
        rename_next(cwd, stash, message, RenameStageView::Resolve, Err(error)) == (RenameStepView::Failed { error }),
        rename_next(cwd, stash, message, RenameStageView::Drop { oid }, Err(error)) == (RenameStepView::Failed {
            error,
        }),
        rename_next(cwd, stash, message, RenameStageView::Store { oid }, Ok(out)) == (RenameStepView::Done {
            output: out,
        }),
        rename_next(cwd, stash, message, RenameStageView::Store { oid }, Err(error)) matches RenameStepView::Failed {
            error: told,
        } && (error matches ErrorView::Failed { command, code, stderr, stdout } ==> (
        told matches ErrorView::Failed { stderr: more, .. } && stderr.is_prefix_of(more) && (renamed_subject(
            stash,
            message,
        ) + "' "@ + oid).is_suffix_of(more))),
{
    if error is Failed {
        let stderr = error->stderr;
        let said =
            "\nThe stash was dropped but its commit is kept. Restore it with:\n  git stash store -m '"@;
        let subject = renamed_subject(stash, message);
        let tail = subject + "' "@ + oid;
        let more = stderr + said + subject + "' "@ + oid;
        assert(more =~= stderr + said + tail);
        assert(more.take(stderr.len() as int) =~= stderr);
        assert(more.skip(more.len() - tail.len()) =~= tail);
    }
}

/// A name that git could take for something else is refused: an empty one, one that starts
/// like an option, a hidden file or a path, one that ends like a directory or a lock file,
/// and one with a revision operator, a glob, white space or a control character in it.
pub proof fn law_misleading_names_are_refused(name: Seq<char>, i: int)
    ensures
        name.len() == 0 ==> !valid_branch_name(name),
        name.len() > 0 && (name[0] == '-' || name[0] == '/' || name[0] == '.') ==> !valid_branch_name(name),
        name.len() > 0 && (name.last() == '/' || name.last() == '.') ==> !valid_branch_name(name),
        ".lock"@.is_suffix_of(name) ==> !valid_branch_name(name),
        has_sub(name, ".."@) || has_sub(name, "@{"@) ==> !valid_branch_name(name),
        0 <= i < name.len() && (name[i] == ' ' || name[i] == '~' || name[i] == '^' || name[i] == ':' || name[i] == '?'
            || name[i] == '*' || name[i] == '[' || name[i] == '\\' || name[i] == '\n' || name[i] == '\t' || name[i]
            == '\0') ==> !valid_branch_name(name),
{
    if 0 <= i < name.len() {
        assert(bad_name_char(name[i]) ==> !valid_branch_name(name));
    }
}

/// Whether a character is a letter, a digit, a hyphen or an underscore.
pub open spec fn plain_char(c: char) -> bool {
    'a' <= c <= 'z' || 'A' <= c <= 'Z' || '0' <= c <= '9' || c == '-' || c == '_'
}

/// A name of letters, digits, hyphens and underscores, with slashes between, is accepted
/// unless it starts with a hyphen or a slash, or ends in a slash.
pub proof fn law_plain_names_are_accepted(name: Seq<char>)
    requires
        name.len() > 0,
        forall|i: int| 0 <= i < name.len() ==> plain_char(#[trigger] name[i]) || name[i] == '/',
        name[0] != '-',
        name[0] != '/',
        name.last() != '/',
    ensures
        valid_branch_name(name),
{
    reveal_strlit(".lock");
    assert(".lock"@.len() == 5);
    reveal_strlit("..");
    assert(".."@.len() == 2);
    reveal_strlit("@{");
    assert("@{"@.len() == 2);
    assert(".lock"@[0] == '.');
    assert(".."@[0] == '.');
    assert("@{"@[0] == '@');
    if ".lock"@.is_suffix_of(name) {
        assert(name[name.len() - 5] == '.');
    }
    if has_sub(name, ".."@) {
        let i = choose|i: int| occurs_at(name, ".."@, i);
        assert(name.subrange(i, i + 2)[0] == name[i]);
    }
    if has_sub(name, "@{"@) {
        let i = choose|i: int| occurs_at(name, "@{"@, i);
        assert(name.subrange(i, i + 2)[0] == name[i]);
    }
}

} // verus!
