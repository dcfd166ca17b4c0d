//! Which repos an action on many runs on, what it runs, and what it says of each.

use vstd::prelude::*;

use crate::batch::{
    default_outcome, first_plain, first_said, headline_of, job_next, job_start, planned, prechecked, push_rejected,
    switch_outcome, tidied, BatchView, JobStageView, JobStepView, OutcomeView,
};
use crate::git::{CmdKind, ErrorView, OutputView};
use crate::model::{HeadView, SummaryView, UpstreamView};
use crate::ops::{list_branches, DefaultSwitchView, SwitchedView};
use crate::store::{EntryView, StoreView};
use crate::summary::main_remote;
use crate::text::number::decimal;
use crate::text::seqs::{filter_map, has_sub};
use crate::text::strings::lines;
use crate::ui::op::OpView;

verus! {

/// Whether an action has something to run on a repo.
pub open spec fn runs(batch: BatchView, s: SummaryView) -> bool {
    batch.settled(s) is None
}

/// Whether a repo has no change to a tracked file.
pub open spec fn tidy(s: SummaryView) -> bool {
    s.changes.staged == 0 && s.changes.unstaged == 0 && s.changes.conflicted == 0
}

/// A push runs exactly on a branch with commits in a repo with a remote, if the branch has no
/// upstream yet or is ahead of the one it has.
pub proof fn law_push_runs_if_there_is_something_to_push(s: SummaryView)
    ensures
        runs(BatchView::Push, s) <==> s.head is Branch && s.remotes.len() > 0 && (match s.upstream {
            UpstreamView::Unset => true,
            UpstreamView::Gone { name } => false,
            UpstreamView::Tracking { name, ahead, behind } => ahead > 0,
        }),
        s.head is Branch && s.remotes.len() > 0 ==> (s.upstream matches UpstreamView::Tracking { name, ahead, behind }
            ==> (runs(BatchView::Push, s) <==> ahead > 0) && (BatchView::Push.settled(s) == Some(
            OutcomeView::Done("nothing to push"@),
        ) <==> ahead == 0)),
        !(s.head is Branch) || s.remotes.len() == 0 || s.upstream is Gone ==> BatchView::Push.settled(s)->0 is Skipped,
{
}

/// A pull runs exactly on a branch with an upstream that still exists, however far the two
/// are apart; every other repo is skipped.
pub proof fn law_pull_runs_with_an_upstream(s: SummaryView)
    ensures
        runs(BatchView::Pull, s) <==> !(s.head is Detached) && s.upstream is Tracking,
        !runs(BatchView::Pull, s) ==> BatchView::Pull.settled(s)->0 is Skipped,
{
}

/// A checkout runs exactly on a repo that is on another branch and has no uncommitted change.
/// A repo that is on the branch already is done, changes or not.
pub proof fn law_checkout_runs_on_tidy_repos(name: Seq<char>, s: SummaryView)
    ensures
        ({
            let there = s.head == HeadView::Branch(name) || s.head == HeadView::Unborn(name);
            &&& runs(BatchView::Checkout(name), s) <==> !there && tidy(s)
            &&& there ==> BatchView::Checkout(name).settled(s)->0 is Done
            &&& !there && !tidy(s) ==> BatchView::Checkout(name).settled(s)->0 is Skipped
        }),
{
}

/// A new branch is made in every repo with a commit to start from, uncommitted changes or not.
pub proof fn law_new_branches_need_a_commit(name: Seq<char>, s: SummaryView)
    ensures
        runs(BatchView::NewBranch(name), s) <==> !(s.head is Unborn),
        s.head is Unborn ==> BatchView::NewBranch(name).settled(s)->0 is Skipped,
{
}

/// The default branch is checked out exactly in tidy repos that have one, whatever is checked
/// out now.
pub proof fn law_default_branch_needs_a_tidy_repo(s: SummaryView)
    ensures
        runs(BatchView::DefaultBranch, s) <==> s.default_branch is Some && tidy(s),
        !runs(BatchView::DefaultBranch, s) ==> BatchView::DefaultBranch.settled(s)->0 is Skipped,
{
}

/// A fast-forward runs exactly on a tidy branch that is behind its upstream and has no commit
/// of its own. One that isn't behind is done; one that has diverged is skipped.
pub proof fn law_fast_forward_runs_if_only_behind(s: SummaryView)
    ensures
        runs(BatchView::FastForward, s) <==> !(s.head is Detached) && tidy(s) && (
        s.upstream matches UpstreamView::Tracking { name, ahead, behind } && behind > 0 && ahead == 0),
        BatchView::FastForward.settled(s) matches Some(o) ==> (o is Done <==> !(s.head is Detached) && tidy(s) && (
        s.upstream matches UpstreamView::Tracking { name, ahead, behind } && behind == 0)),
        BatchView::FastForward.settled(s) matches Some(o) ==> o is Done || o is Skipped,
{
}

/// The reasons for skipping a pull or a fast-forward name what is missing.
pub proof fn law_reasons_name_the_cause(s: SummaryView)
    requires
        !(s.head is Detached),
    ensures
        s.upstream is Unset ==> BatchView::Pull.settled(s) == Some(OutcomeView::Skipped("no upstream"@)),
        s.upstream is Gone ==> BatchView::Pull.settled(s) == Some(OutcomeView::Skipped("upstream gone"@)),
        tidy(s) && s.upstream is Unset ==> BatchView::FastForward.settled(s) == Some(
            OutcomeView::Skipped("no upstream"@),
        ),
        tidy(s) && s.upstream is Gone ==> BatchView::FastForward.settled(s) == Some(
            OutcomeView::Skipped("upstream gone"@),
        ),
        s.head is Unborn ==> BatchView::Push.settled(s) == Some(OutcomeView::Skipped("no commits yet"@)),
        s.head is Branch && s.remotes.len() == 0 ==> BatchView::Push.settled(s) == Some(
            OutcomeView::Skipped("no remote"@),
        ),
        !tidy(s) ==> BatchView::FastForward.settled(s) == Some(OutcomeView::Skipped("uncommitted changes"@)),
        !tidy(s) && s.default_branch is Some ==> BatchView::DefaultBranch.settled(s) == Some(
            OutcomeView::Skipped("uncommitted changes"@),
        ),
{
}

/// A detached HEAD is what keeps pulls, pushes and fast-forwards from a repo, whatever else
/// is true of it.
pub proof fn law_detached_heads_are_skipped(s: SummaryView)
    requires
        s.head is Detached,
    ensures
        BatchView::Pull.settled(s) == Some(OutcomeView::Skipped("detached HEAD"@)),
        BatchView::Push.settled(s) == Some(OutcomeView::Skipped("detached HEAD"@)),
        BatchView::FastForward.settled(s) == Some(OutcomeView::Skipped("detached HEAD"@)),
{
}

/// A repo passes the common checks exactly if it is idle, readable, known, has a worktree and
/// is in the middle of nothing; what is known of it is then its summary.
pub proof fn law_checks_pass_idle_repos(e: EntryView, s: SummaryView)
    ensures
        prechecked(e) == Ok::<SummaryView, OutcomeView>(s) <==> e.busy is None && e.error is None && e.summary == Some(
            s,
        ) && !e.location.bare && s.op is None,
        prechecked(e) matches Err(o) ==> o is Skipped,
        e.busy matches Some(busy) ==> prechecked(e) == Err::<SummaryView, OutcomeView>(
            OutcomeView::Skipped("busy ("@ + busy + "), try again"@),
        ),
        e.busy is None && e.error is None && e.summary == Some(s) && !e.location.bare ==> (s.op matches Some(op)
            ==> prechecked(e) == Err::<SummaryView, OutcomeView>(OutcomeView::Skipped(op.label() + " in progress"@))),
{
}

/// Every listed repo among the targets has a row of its own, under its name and in their
/// order: waiting if it passed all checks, settled otherwise. What runs are exactly the
/// repos that wait, where they are and with what is known of them.
pub proof fn law_every_repo_has_its_row(batch: BatchView, store: StoreView, targets: Seq<Seq<u8>>)
    requires
        forall|i: int| 0 <= i < targets.len() ==> store.entry(#[trigger] targets[i]) is Some,
    ensures
        ({
            let (rows, jobs) = planned(batch, store, targets);
            &&& rows.len() == targets.len()
            &&& jobs.len() <= rows.len()
            &&& forall|i: int|
                0 <= i < targets.len() ==> {
                    let entry = store.entry(#[trigger] targets[i])->0;
                    &&& rows[i].name == entry.location.name
                    &&& rows[i].outcome is Pending <==> prechecked(entry) is Ok && runs(batch, prechecked(entry)->Ok_0)
                    &&& prechecked(entry) is Err ==> rows[i].outcome == prechecked(entry)->Err_0
                    &&& prechecked(entry) is Ok && !runs(batch, prechecked(entry)->Ok_0) ==> rows[i].outcome
                        == batch.settled(prechecked(entry)->Ok_0)->0
                }
            &&& forall|j: int|
                0 <= j < jobs.len() ==> {
                    let job = #[trigger] jobs[j];
                    &&& job.row < rows.len()
                    &&& job.root == targets[job.row as int]
                    &&& job.name == rows[job.row as int].name
                    &&& prechecked(store.entry(job.root)->0) == Ok::<SummaryView, OutcomeView>(job.summary)
                }
        }),
    decreases targets.len(),
{
    if targets.len() > 0 {
        let before = targets.drop_last();
        assert forall|i: int| 0 <= i < before.len() implies store.entry(#[trigger] before[i]) is Some by {
            assert(before[i] == targets[i]);
        }
        law_every_repo_has_its_row(batch, store, before);
        let (rows0, jobs0) = planned(batch, store, before);
        let (rows, jobs) = planned(batch, store, targets);
        assert(store.entry(targets[targets.len() - 1]) is Some);
        assert forall|i: int| 0 <= i < targets.len() implies {
            let entry = store.entry(#[trigger] targets[i])->0;
            &&& rows[i].name == entry.location.name
            &&& rows[i].outcome is Pending <==> prechecked(entry) is Ok && runs(batch, prechecked(entry)->Ok_0)
            &&& prechecked(entry) is Err ==> rows[i].outcome == prechecked(entry)->Err_0
            &&& prechecked(entry) is Ok && !runs(batch, prechecked(entry)->Ok_0) ==> rows[i].outcome == batch.settled(
                prechecked(entry)->Ok_0,
            )->0
        } by {
            if i < before.len() {
                assert(before[i] == targets[i]);
                assert(rows[i] == rows0[i]);
            }
        }
        assert forall|j: int| 0 <= j < jobs.len() implies {
            let job = #[trigger] jobs[j];
            &&& job.row < rows.len()
            &&& job.root == targets[job.row as int]
            &&& job.name == rows[job.row as int].name
            &&& prechecked(store.entry(job.root)->0) == Ok::<SummaryView, OutcomeView>(job.summary)
        } by {
            if j < jobs0.len() {
                assert(jobs[j] == jobs0[j]);
                assert(before[jobs0[j].row as int] == targets[jobs0[j].row as int]);
                assert(rows[jobs0[j].row as int] == rows0[jobs0[j].row as int]);
            }
        }
    }
}

/// Repos that are gone have no row, and nothing runs on them.
pub proof fn law_gone_repos_have_no_row(batch: BatchView, store: StoreView, targets: Seq<Seq<u8>>)
    requires
        forall|i: int| 0 <= i < targets.len() ==> store.entry(#[trigger] targets[i]) is None,
    ensures
        planned(batch, store, targets).0.len() == 0,
        planned(batch, store, targets).1.len() == 0,
    decreases targets.len(),
{
    if targets.len() > 0 {
        let before = targets.drop_last();
        assert forall|i: int| 0 <= i < before.len() implies store.entry(#[trigger] before[i]) is None by {
            assert(before[i] == targets[i]);
        }
        law_gone_repos_have_no_row(batch, store, before);
        assert(store.entry(targets[targets.len() - 1]) is None);
    }
}

/// On each repo the action runs what the same action does on one repo alone: a new branch
/// from HEAD, a pull, a push that is not forced, to the main remote if there is no upstream.
pub proof fn law_batches_run_what_one_repo_runs(name: Seq<char>, cwd: Seq<u8>, s: SummaryView)
    ensures
        ({
            let fresh = job_start(BatchView::NewBranch(name), cwd, s);
            let alone = OpView::NewBranch { name, start: None }.command(cwd)->Ok_0;
            fresh matches JobStepView::Run { cmd, next } && cmd == alone && next == JobStageView::NewBranch { name }
        }),
        job_start(BatchView::Pull, cwd, s) matches JobStepView::Run { cmd, next } && cmd == OpView::Pull.command(
            cwd,
        )->Ok_0 && next is Pull,
        ({
            let push = OpView::Push {
                has_upstream: s.upstream is Tracking,
                remote: main_remote(s.remotes, None),
                force: false,
            };
            job_start(BatchView::Push, cwd, s) matches JobStepView::Run { cmd, next } && cmd == push.command(cwd)->Ok_0
        }),
        job_start(BatchView::FastForward, cwd, s) matches JobStepView::Run { cmd, next } && cmd.cwd == cwd && cmd.kind
            == CmdKind::Write && cmd.args[0] == "merge"@ && cmd.args[1] == "--ff-only"@ && cmd.args[2] == "@{upstream}"@
            && cmd.args.len() == 3,
        job_start(BatchView::Checkout(name), cwd, s) matches JobStepView::Run { cmd, next } && cmd.kind == CmdKind::Read
            && cmd == list_branches(cwd, name, s.remotes),
        s.default_branch is None ==> job_start(BatchView::DefaultBranch, cwd, s) is Done,
{
    assert(OpView::NewBranch { name, start: None }.command(cwd)->Ok_0.args =~= seq!["checkout"@, "-b"@, name]);
}

/// A step that fails ends the repo's job as failed, with what git said, but for a branch that
/// exists already, which is skipped, and a rejected push, which says what to do.
pub proof fn law_failures_are_told(
    cwd: Seq<u8>,
    remotes: Seq<Seq<char>>,
    stage: JobStageView,
    error: ErrorView,
)
    requires
        !(stage is DefaultBranch),
    ensures
        ({
            let next = job_next(cwd, remotes, stage, Err(error));
            &&& next is Done
            &&& next->outcome is Failed || next->outcome is Skipped
            &&& next->outcome is Skipped <==> stage is NewBranch && has_sub(error.details(), "already exists"@)
            &&& next->outcome is Failed && !(stage is Push && push_rejected(error)) ==> next->outcome
                == OutcomeView::Failed(error.details())
        }),
{
}

/// A job that succeeded is done, and says what it did: pulls tell whether there was anything,
/// pushes name the remote if it is new, fast-forwards the number of commits.
pub proof fn law_successes_are_told(
    cwd: Seq<u8>,
    remotes: Seq<Seq<char>>,
    name: Seq<char>,
    remote: Seq<char>,
    behind: u32,
    out: OutputView,
)
    requires
        behind != 1,
    ensures
        job_next(cwd, remotes, JobStageView::NewBranch { name }, Ok(out)) == (JobStepView::Done {
            outcome: OutcomeView::Done("created "@ + name),
        }),
        ({
            let up_to_date = has_sub(out.text(), "Already up to date"@) || has_sub(out.text(), "is up to date"@);
            job_next(cwd, remotes, JobStageView::Pull, Ok(out)) == (JobStepView::Done {
                outcome: OutcomeView::Done(
                    if up_to_date {
                        "already up to date"@
                    } else {
                        "pulled"@
                    },
                ),
            })
        }),
        job_next(cwd, remotes, JobStageView::Push { has_upstream: true, remote: Some(remote) }, Ok(out)) == (
        JobStepView::Done { outcome: OutcomeView::Done("pushed"@) }),
        job_next(cwd, remotes, JobStageView::Push { has_upstream: false, remote: Some(remote) }, Ok(out)) == (
        JobStepView::Done { outcome: OutcomeView::Done("pushed to "@ + remote) }),
        job_next(cwd, remotes, JobStageView::FastForward { behind }, Ok(out)) == (JobStepView::Done {
            outcome: OutcomeView::Done("fast-forwarded "@ + (decimal(behind as nat) + " commits"@)),
        }),
        job_next(cwd, remotes, JobStageView::FastForward { behind: 1 }, Ok(out)) == (JobStepView::Done {
            outcome: OutcomeView::Done("fast-forwarded "@ + "1 commit"@),
        }),
{
}

/// A push counts as rejected exactly if git failed and its error output has one of the words
/// that say so.
pub proof fn law_rejections_are_recognised(error: ErrorView)
    ensures
        push_rejected(error) <==> (error matches ErrorView::Failed { stderr, .. } && (has_sub(stderr, "[rejected]"@)
            || has_sub(stderr, "non-fast-forward"@) || has_sub(stderr, "fetch first"@))),
{
}

/// A switch to a branch is done, with the branch named, unless no branch has the name: then
/// the repo is skipped.
pub proof fn law_switches_are_told(name: Seq<char>, start: Seq<char>)
    ensures
        switch_outcome(name, SwitchedView::Local) == OutcomeView::Done("switched to "@ + name),
        switch_outcome(name, SwitchedView::Tracking(start)) == OutcomeView::Done(
            "created "@ + name + " from "@ + start,
        ),
        switch_outcome(name, SwitchedView::Missing) is Skipped,
{
}

/// A switch to the default branch fails exactly if the branch is behind its upstream and was
/// not moved there; it is skipped exactly if there is no such branch; anything else is done.
pub proof fn law_default_switches_are_told(r: DefaultSwitchView)
    ensures
        default_outcome(r) is Skipped <==> r.switched == Some(SwitchedView::Missing),
        default_outcome(r) is Failed <==> r.switched != Some(SwitchedView::Missing) && r.upstream is Some
            && !r.fast_forwarded && r.behind > 0,
        !(default_outcome(r) is Pending),
{
}

/// The first line that says `fatal:` or `error:` is the headline, without those words.
proof fn lemma_first_said(ls: Seq<Seq<char>>)
    ensures
        match first_said(ls) {
            Some(text) => exists|i: int|
                0 <= i < ls.len() && (#[trigger] ls[i] == "fatal: "@ + text || ls[i] == "error: "@ + text),
            None => forall|i: int|
                0 <= i < ls.len() ==> !"fatal: "@.is_prefix_of(#[trigger] ls[i]) && !"error: "@.is_prefix_of(ls[i]),
        },
    decreases ls.len(),
{
    if ls.len() > 0 {
        let rest = ls.drop_first();
        lemma_first_said(rest);
        if "fatal: "@.is_prefix_of(ls[0]) {
            assert(ls[0] =~= "fatal: "@ + ls[0].skip("fatal: "@.len() as int));
        } else if "error: "@.is_prefix_of(ls[0]) {
            assert(ls[0] =~= "error: "@ + ls[0].skip("error: "@.len() as int));
        } else {
            match first_said(rest) {
                Some(text) => {
                    let i = choose|i: int|
                        0 <= i < rest.len() && (#[trigger] rest[i] == "fatal: "@ + text || rest[i] == "error: "@
                            + text);
                    assert(ls[i + 1] == rest[i]);
                },
                None => {
                    assert forall|i: int| 0 <= i < ls.len() implies !"fatal: "@.is_prefix_of(#[trigger] ls[i])
                        && !"error: "@.is_prefix_of(ls[i]) by {
                        if i > 0 {
                            assert(ls[i] == rest[i - 1]);
                        }
                    }
                },
            }
        }
    }
}

proof fn lemma_first_plain(ls: Seq<Seq<char>>)
    ensures
        match first_plain(ls) {
            Some(text) => ls.contains(text) && !"hint:"@.is_prefix_of(text),
            None => forall|i: int| 0 <= i < ls.len() ==> "hint:"@.is_prefix_of(#[trigger] ls[i]),
        },
    decreases ls.len(),
{
    if ls.len() > 0 {
        let rest = ls.drop_first();
        lemma_first_plain(rest);
        if "hint:"@.is_prefix_of(ls[0]) {
            match first_plain(rest) {
                Some(text) => {
                    let i = choose|i: int| 0 <= i < rest.len() && rest[i] == text;
                    assert(ls[i + 1] == text);
                },
                None => {
                    assert forall|i: int| 0 <= i < ls.len() implies "hint:"@.is_prefix_of(#[trigger] ls[i]) by {
                        if i > 0 {
                            assert(ls[i] == rest[i - 1]);
                        }
                    }
                },
            }
        } else {
            assert(ls[0] == ls[0]);
        }
    }
}

/// The headline of an error is what a line says after `fatal:` or `error:`; without such a
/// line, one that isn't a hint; without that, all of it.
pub proof fn law_headlines_say_what_went_wrong(details: Seq<char>)
    ensures
        ({
            let ls = filter_map(lines(details), |l: Seq<char>| tidied(l));
            let h = headline_of(details);
            ||| exists|i: int| 0 <= i < ls.len() && (#[trigger] ls[i] == "fatal: "@ + h || ls[i] == "error: "@ + h)
            ||| (forall|i: int|
                0 <= i < ls.len() ==> !"fatal: "@.is_prefix_of(#[trigger] ls[i]) && !"error: "@.is_prefix_of(ls[i]))
                && (ls.contains(h) && !"hint:"@.is_prefix_of(h) || h == details && forall|i: int|
                0 <= i < ls.len() ==> "hint:"@.is_prefix_of(#[trigger] ls[i]))
        }),
{
    let ls = filter_map(lines(details), |l: Seq<char>| tidied(l));
    lemma_first_said(ls);
    lemma_first_plain(ls);
}

/// A message is shown for skipped and failed repos, and it is theirs.
pub proof fn law_problems_are_shown(message: Seq<char>)
    ensures
        OutcomeView::Skipped(message).problem() == Some(message),
        OutcomeView::Failed(message).problem() == Some(message),
        OutcomeView::Done(message).problem() is None,
        OutcomeView::Pending.problem() is None,
{
}

/// The title of the results names the action and its branch.
pub proof fn law_titles_name_the_action(name: Seq<char>)
    ensures
        BatchView::Checkout(name).title() == "Check out "@ + name,
        BatchView::NewBranch(name).title() == "New branch "@ + name,
        BatchView::DefaultBranch.title() == "Default branch"@,
        BatchView::Pull.title() == "Pull"@ && BatchView::Pull.label() == "Pulling"@,
        BatchView::Push.title() == "Push"@ && BatchView::Push.label() == "Pushing"@,
        BatchView::FastForward.title() == "Fast-forward"@ && BatchView::FastForward.label() == "Updating"@,
        BatchView::Checkout(name).label() == BatchView::DefaultBranch.label(),
        BatchView::NewBranch(name).label() == "Creating branch"@,
{
}

} // verus!
