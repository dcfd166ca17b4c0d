//! Running one operation on many repos at once.
//!
//! Each repo is checked first (busy, mid-rebase, dirty...) and skipped with a reason rather
//! than half-done; the rest run in parallel and a popup fills in each repo's outcome as it
//! lands.

use vstd::prelude::*;

use crate::git::{
    network_command, reply_view, write_command, CommandView, ErrorView, GitCommand, GitError, GitOutput, OutputView,
};
use crate::model::{Head, RepoLocation, RepoSummary, SummaryView, Upstream, UpstreamView};
use crate::ops::{
    self, ask_upstream, default_next, default_parts, default_remotes, failed_saying, is_push_rejected, list_branches,
    push_args, switch_next, DefaultStage, DefaultStageView, DefaultStep, DefaultStepView, DefaultSwitch,
    DefaultSwitchView, SwitchStage, SwitchStageView, SwitchStep, SwitchStepView, Switched, SwitchedView,
};
use crate::path::{path_views, FsPath};
use crate::store::{EntryView, RepoEntry, RepoStore, StoreView};
use crate::summary::{main_remote, primary_remote};
use crate::text::number::{decimal, decimal_string};
use crate::text::seqs::{filter_map, has_sub, lemma_filter_map_step, strip_prefix, views};
use crate::text::strings::{
    after_text, cat2, cat3, cat4, cat5, chars_of, lines, same_str, split_lines, str_contains, str_opt, string_of,
    text_opt, trim, trimmed,
};

verus! {

/// What became of a repo.
#[derive(Debug, PartialEq, Eq)]
pub enum Outcome {
    Pending,
    Done(String),
    Skipped(String),
    /// Full error text; the popup shows its [`headline`].
    Failed(String),
}

#[verifier::ext_equal]
pub ghost enum OutcomeView {
    Pending,
    Done(Seq<char>),
    Skipped(Seq<char>),
    Failed(Seq<char>),
}

impl View for Outcome {
    type V = OutcomeView;

    open spec fn view(&self) -> OutcomeView {
        match self {
            Outcome::Pending => OutcomeView::Pending,
            Outcome::Done(text) => OutcomeView::Done(text@),
            Outcome::Skipped(text) => OutcomeView::Skipped(text@),
            Outcome::Failed(text) => OutcomeView::Failed(text@),
        }
    }
}

impl Clone for Outcome {
    fn clone(&self) -> (r: Self)
        ensures
            r@ == self@,
    {
        match self {
            Outcome::Pending => Outcome::Pending,
            Outcome::Done(text) => Outcome::Done(text.clone()),
            Outcome::Skipped(text) => Outcome::Skipped(text.clone()),
            Outcome::Failed(text) => Outcome::Failed(text.clone()),
        }
    }
}

/// The view of an outcome that may be missing.
pub open spec fn outcome_opt(o: Option<Outcome>) -> Option<OutcomeView> {
    match o {
        Some(o) => Some(o@),
        None => None,
    }
}

/// A repo and what became of it.
#[derive(Debug, PartialEq, Eq)]
pub struct BatchRow {
    pub name: String,
    pub outcome: Outcome,
}

#[verifier::ext_equal]
pub ghost struct RowView {
    pub name: Seq<char>,
    pub outcome: OutcomeView,
}

impl View for BatchRow {
    type V = RowView;

    open spec fn view(&self) -> RowView {
        RowView { name: self.name@, outcome: self.outcome@ }
    }
}

/// The views of some rows.
pub open spec fn row_views(rows: Seq<BatchRow>) -> Seq<RowView> {
    rows.map_values(|r: BatchRow| r@)
}

/// A repo that is skipped.
fn skip(reason: &str) -> (r: Outcome)
    ensures
        r@ == OutcomeView::Skipped(reason@),
{
    Outcome::Skipped(reason.to_owned())
}

/// A repo with nothing to do.
fn done(text: &str) -> (r: Outcome)
    ensures
        r@ == OutcomeView::Done(text@),
{
    Outcome::Done(text.to_owned())
}

/// Whether a repo has changes to tracked files.
pub open spec fn dirty(s: SummaryView) -> bool {
    s.changes.staged + s.changes.unstaged + s.changes.conflicted > 0
}

/// Why nothing can run on a repo right now, whatever the action; else what is known of it.
pub open spec fn prechecked(e: EntryView) -> Result<SummaryView, OutcomeView> {
    match e.busy {
        Some(busy) => Err(OutcomeView::Skipped("busy ("@ + busy + "), try again"@)),
        None => if e.error is Some {
            Err(OutcomeView::Skipped("can't be read, see its Status"@))
        } else {
            match e.summary {
                None => Err(OutcomeView::Skipped("still loading"@)),
                Some(s) => if e.location.bare {
                    Err(OutcomeView::Skipped("bare repository"@))
                } else {
                    match s.op {
                        Some(op) => Err(OutcomeView::Skipped(op.label() + " in progress"@)),
                        None => Ok(s),
                    }
                },
            }
        },
    }
}

/// Why nothing can run on a repo right now, whatever the action.
pub fn precheck(entry: &RepoEntry) -> (r: Result<&RepoSummary, Outcome>)
    ensures
        match r {
            Ok(s) => prechecked(entry@) == Ok::<SummaryView, OutcomeView>(s@),
            Err(o) => prechecked(entry@) == Err::<SummaryView, OutcomeView>(o@),
        },
{
    if let Some(busy) = &entry.busy {
        return Err(Outcome::Skipped(cat3("busy (", busy.as_str(), "), try again")));
    }
    if entry.error.is_some() {
        return Err(skip("can't be read, see its Status"));
    }
    match &entry.summary {
        None => Err(skip("still loading")),
        Some(summary) => {
            if entry.location.bare {
                return Err(skip("bare repository"));
            }
            match &summary.op {
                Some(op) => {
                    let label = op.label();
                    Err(Outcome::Skipped(cat2(label.as_str(), " in progress")))
                },
                None => Ok(summary),
            }
        },
    }
}

/// An action on many repos.
#[derive(Debug, PartialEq, Eq)]
pub enum Batch {
    /// Check out the branch of that name.
    Checkout(String),
    /// Create a branch of that name from HEAD.
    NewBranch(String),
    /// Check out the default branch and fast-forward it.
    DefaultBranch,
    Pull,
    Push,
    FastForward,
}

#[verifier::ext_equal]
pub ghost enum BatchView {
    Checkout(Seq<char>),
    NewBranch(Seq<char>),
    DefaultBranch,
    Pull,
    Push,
    FastForward,
}

impl View for Batch {
    type V = BatchView;

    open spec fn view(&self) -> BatchView {
        match self {
            Batch::Checkout(name) => BatchView::Checkout(name@),
            Batch::NewBranch(name) => BatchView::NewBranch(name@),
            Batch::DefaultBranch => BatchView::DefaultBranch,
            Batch::Pull => BatchView::Pull,
            Batch::Push => BatchView::Push,
            Batch::FastForward => BatchView::FastForward,
        }
    }
}

impl Clone for Batch {
    fn clone(&self) -> (r: Self)
        ensures
            r@ == self@,
    {
        match self {
            Batch::Checkout(name) => Batch::Checkout(name.clone()),
            Batch::NewBranch(name) => Batch::NewBranch(name.clone()),
            Batch::DefaultBranch => Batch::DefaultBranch,
            Batch::Pull => Batch::Pull,
            Batch::Push => Batch::Push,
            Batch::FastForward => Batch::FastForward,
        }
    }
}

/// Why a fast-forward is settled without running anything.
pub open spec fn fast_forward_settled(s: SummaryView) -> Option<OutcomeView> {
    if s.head is Detached {
        Some(OutcomeView::Skipped("detached HEAD"@))
    } else if dirty(s) {
        Some(OutcomeView::Skipped("uncommitted changes"@))
    } else {
        match s.upstream {
            UpstreamView::Unset => Some(OutcomeView::Skipped("no upstream"@)),
            UpstreamView::Gone { .. } => Some(OutcomeView::Skipped("upstream gone"@)),
            UpstreamView::Tracking { name, ahead, behind } => if behind == 0 {
                Some(OutcomeView::Done("already up to date"@))
            } else if ahead > 0 {
                Some(OutcomeView::Skipped("diverged from upstream, can't fast-forward"@))
            } else {
                None
            },
        }
    }
}

/// Why a fast-forward is settled without running anything.
pub fn fast_forward_check(s: &RepoSummary) -> (r: Option<Outcome>)
    ensures
        outcome_opt(r) == fast_forward_settled(s@),
{
    if let Head::Detached(_) = &s.head {
        return Some(skip("detached HEAD"));
    }
    if s.changes.has_tracked_changes() {
        return Some(skip("uncommitted changes"));
    }
    match &s.upstream {
        Upstream::Unset => Some(skip("no upstream")),
        Upstream::Gone { .. } => Some(skip("upstream gone")),
        Upstream::Tracking { name: _, ahead, behind } => if *behind == 0 {
            Some(done("already up to date"))
        } else if *ahead > 0 {
            Some(skip("diverged from upstream, can't fast-forward"))
        } else {
            None
        },
    }
}

impl BatchView {
    /// The title of the results.
    pub open spec fn title(self) -> Seq<char> {
        match self {
            BatchView::Checkout(name) => "Check out "@ + name,
            BatchView::NewBranch(name) => "New branch "@ + name,
            BatchView::DefaultBranch => "Default branch"@,
            BatchView::Pull => "Pull"@,
            BatchView::Push => "Push"@,
            BatchView::FastForward => "Fast-forward"@,
        }
    }

    /// What a repo is busy with meanwhile.
    pub open spec fn label(self) -> Seq<char> {
        match self {
            BatchView::Checkout(_) => "Checking out"@,
            BatchView::NewBranch(_) => "Creating branch"@,
            BatchView::DefaultBranch => "Checking out"@,
            BatchView::Pull => "Pulling"@,
            BatchView::Push => "Pushing"@,
            BatchView::FastForward => "Updating"@,
        }
    }

    /// The outcome that settles a repo without running anything.
    pub open spec fn settled(self, s: SummaryView) -> Option<OutcomeView> {
        match self {
            BatchView::Checkout(name) => if s.head.branch() == Some(name) {
                Some(OutcomeView::Done("already on "@ + name))
            } else if dirty(s) {
                Some(OutcomeView::Skipped("uncommitted changes"@))
            } else {
                None
            },
            BatchView::NewBranch(_) => if s.head is Unborn {
                Some(OutcomeView::Skipped("no commits yet"@))
            } else {
                None
            },
            BatchView::DefaultBranch => if s.default_branch is None {
                Some(OutcomeView::Skipped("no default branch found"@))
            } else if dirty(s) {
                Some(OutcomeView::Skipped("uncommitted changes"@))
            } else {
                None
            },
            BatchView::Pull => if s.head is Detached {
                Some(OutcomeView::Skipped("detached HEAD"@))
            } else {
                match s.upstream {
                    UpstreamView::Unset => Some(OutcomeView::Skipped("no upstream"@)),
                    UpstreamView::Gone { .. } => Some(OutcomeView::Skipped("upstream gone"@)),
                    UpstreamView::Tracking { .. } => None,
                }
            },
            BatchView::Push => if s.head is Detached {
                Some(OutcomeView::Skipped("detached HEAD"@))
            } else if s.head is Unborn {
                Some(OutcomeView::Skipped("no commits yet"@))
            } else if s.remotes.len() == 0 {
                Some(OutcomeView::Skipped("no remote"@))
            } else {
                match s.upstream {
                    UpstreamView::Gone { .. } => Some(
                        OutcomeView::Skipped("upstream gone; push it alone with P"@),
                    ),
                    UpstreamView::Tracking { name, ahead, behind } => if ahead == 0 {
                        Some(OutcomeView::Done("nothing to push"@))
                    } else {
                        None
                    },
                    UpstreamView::Unset => None,
                }
            },
            BatchView::FastForward => fast_forward_settled(s),
        }
    }
}

impl Batch {
    /// The title of the results.
    pub fn title(&self) -> (r: String)
        ensures
            r@ == self@.title(),
    {
        match self {
            Batch::Checkout(name) => cat2("Check out ", name.as_str()),
            Batch::NewBranch(name) => cat2("New branch ", name.as_str()),
            Batch::DefaultBranch => "Default branch".to_owned(),
            Batch::Pull => "Pull".to_owned(),
            Batch::Push => "Push".to_owned(),
            Batch::FastForward => "Fast-forward".to_owned(),
        }
    }

    /// What a repo is busy with meanwhile.
    pub fn label(&self) -> (r: &'static str)
        ensures
            r@ == self@.label(),
    {
        match self {
            Batch::Checkout(_) => "Checking out",
            Batch::NewBranch(_) => "Creating branch",
            Batch::DefaultBranch => "Checking out",
            Batch::Pull => "Pulling",
            Batch::Push => "Pushing",
            Batch::FastForward => "Updating",
        }
    }

    /// The outcome that settles a repo without running anything.
    pub fn check(&self, s: &RepoSummary) -> (r: Option<Outcome>)
        ensures
            outcome_opt(r) == self@.settled(s@),
    {
        match self {
            Batch::Checkout(name) => {
                let on = match s.head.branch_name() {
                    Some(branch) => same_str(branch, name.as_str()),
                    None => false,
                };
                if on {
                    Some(Outcome::Done(cat2("already on ", name.as_str())))
                } else if s.changes.has_tracked_changes() {
                    Some(skip("uncommitted changes"))
                } else {
                    None
                }
            },
            Batch::NewBranch(_) => match &s.head {
                Head::Unborn(_) => Some(skip("no commits yet")),
                _ => None,
            },
            Batch::DefaultBranch => if s.default_branch.is_none() {
                Some(skip("no default branch found"))
            } else if s.changes.has_tracked_changes() {
                Some(skip("uncommitted changes"))
            } else {
                None
            },
            Batch::Pull => match (&s.head, &s.upstream) {
                (Head::Detached(_), _) => Some(skip("detached HEAD")),
                (_, Upstream::Unset) => Some(skip("no upstream")),
                (_, Upstream::Gone { .. }) => Some(skip("upstream gone")),
                _ => None,
            },
            Batch::Push => {
                match &s.head {
                    Head::Detached(_) => {
                        return Some(skip("detached HEAD"));
                    },
                    Head::Unborn(_) => {
                        return Some(skip("no commits yet"));
                    },
                    Head::Branch(_) => {},
                }
                if !s.has_remote() {
                    return Some(skip("no remote"));
                }
                match &s.upstream {
                    Upstream::Gone { .. } => Some(skip("upstream gone; push it alone with P")),
                    Upstream::Tracking { name: _, ahead, behind: _ } => if *ahead == 0 {
                        Some(done("nothing to push"))
                    } else {
                        None
                    },
                    Upstream::Unset => None,
                }
            },
            Batch::FastForward => fast_forward_check(s),
        }
    }
}

/// Whether an action is one that repos with uncommitted changes are kept out of.
pub open spec fn needs_clean_tree(batch: BatchView) -> bool {
    batch is Checkout || batch is DefaultBranch || batch is FastForward
}

/// Nothing runs on a repo that is busy, can't be read, is bare or in the middle of an
/// operation, nor, for checkouts and fast-forwards, on one with uncommitted changes: it is
/// skipped with a reason, unless there is nothing to do.
pub proof fn law_unfit_repos_are_skipped(batch: BatchView, e: EntryView)
    ensures
        e.busy is Some || e.error is Some || e.summary is None || e.location.bare || e.summary->0.op is Some
            ==> prechecked(e) is Err && prechecked(e)->Err_0 is Skipped,
        prechecked(e) matches Ok(s) ==> needs_clean_tree(batch) && dirty(s) ==> batch.settled(s) is Some
            && !(batch.settled(s)->0 is Pending),
{
}

/// How many commits, in words.
pub open spec fn commit_count(n: u32) -> Seq<char> {
    if n == 1 {
        "1 commit"@
    } else {
        decimal(n as nat) + " commits"@
    }
}

/// How many commits, in words.
pub fn commits(n: u32) -> (r: String)
    ensures
        r@ == commit_count(n),
{
    if n == 1 {
        "1 commit".to_owned()
    } else {
        let count = decimal_string(n as u64);
        cat2(count.as_str(), " commits")
    }
}

/// How a switch to a branch went.
pub open spec fn switch_outcome(name: Seq<char>, switched: SwitchedView) -> OutcomeView {
    match switched {
        SwitchedView::Local => OutcomeView::Done("switched to "@ + name),
        SwitchedView::Tracking(start) => OutcomeView::Done("created "@ + name + " from "@ + start),
        SwitchedView::Missing => OutcomeView::Skipped("no branch "@ + name + " (fetch first?)"@),
    }
}

/// How a checkout by name went.
pub fn describe_switch(name: &str, switched: &Switched) -> (r: Outcome)
    ensures
        r@ == switch_outcome(name@, switched@),
{
    match switched {
        Switched::Local => Outcome::Done(cat2("switched to ", name)),
        Switched::Tracking(start) => Outcome::Done(cat4("created ", name, " from ", start.as_str())),
        Switched::Missing => Outcome::Skipped(cat3("no branch ", name, " (fetch first?)")),
    }
}

/// How the creation of a branch went; one that exists already isn't an error.
pub open spec fn new_branch_outcome(name: Seq<char>, reply: Result<OutputView, ErrorView>) -> OutcomeView {
    match reply {
        Ok(_) => OutcomeView::Done("created "@ + name),
        Err(error) => if has_sub(error.details(), "already exists"@) {
            OutcomeView::Skipped(name + " already exists"@)
        } else {
            OutcomeView::Failed(error.details())
        },
    }
}

/// How the creation of a branch went.
pub fn describe_new_branch(name: &str, reply: &Result<GitOutput, GitError>) -> (r: Outcome)
    ensures
        r@ == new_branch_outcome(name@, reply_view(*reply)),
{
    match reply {
        Ok(_) => Outcome::Done(cat2("created ", name)),
        Err(error) => {
            let details = error.details();
            if str_contains(details.as_str(), "already exists") {
                Outcome::Skipped(cat2(name, " already exists"))
            } else {
                Outcome::Failed(details)
            }
        },
    }
}

/// How a pull went.
pub open spec fn pull_outcome(reply: Result<OutputView, ErrorView>) -> OutcomeView {
    match reply {
        Ok(out) => if has_sub(out.text(), "Already up to date"@) || has_sub(out.text(), "is up to date"@) {
            OutcomeView::Done("already up to date"@)
        } else {
            OutcomeView::Done("pulled"@)
        },
        Err(error) => OutcomeView::Failed(error.details()),
    }
}

/// How a pull went.
pub fn describe_pull(reply: &Result<GitOutput, GitError>) -> (r: Outcome)
    ensures
        r@ == pull_outcome(reply_view(*reply)),
{
    match reply {
        Ok(out) => {
            let text = out.stdout_str();
            if str_contains(text.as_str(), "Already up to date") || str_contains(
                text.as_str(),
                "is up to date",
            ) {
                done("already up to date")
            } else {
                done("pulled")
            }
        },
        Err(error) => Outcome::Failed(error.details()),
    }
}

/// Whether an error says that the remote has commits that a push would lose.
pub open spec fn push_rejected(error: ErrorView) -> bool {
    failed_saying(error, "[rejected]") || failed_saying(error, "non-fast-forward") || failed_saying(
        error,
        "fetch first",
    )
}

/// How a push went. A rejected one fails: force pushes stay a deliberate one-repo action.
pub open spec fn push_outcome(
    has_upstream: bool,
    remote: Option<Seq<char>>,
    reply: Result<OutputView, ErrorView>,
) -> OutcomeView {
    match reply {
        Ok(_) => if has_upstream {
            OutcomeView::Done("pushed"@)
        } else {
            OutcomeView::Done(
                "pushed to "@ + match remote {
                    Some(remote) => remote,
                    None => Seq::empty(),
                },
            )
        },
        Err(error) => if push_rejected(error) {
            OutcomeView::Failed(
                "rejected: the remote has commits you don't have. Pull first, or push this repo alone with P to force."@,
            )
        } else {
            OutcomeView::Failed(error.details())
        },
    }
}

/// How a push went.
pub fn describe_push(has_upstream: bool, remote: &Option<String>, reply: &Result<GitOutput, GitError>) -> (r:
    Outcome)
    ensures
        r@ == push_outcome(has_upstream, text_opt(*remote), reply_view(*reply)),
{
    match reply {
        Ok(_) => if has_upstream {
            done("pushed")
        } else {
            match remote {
                Some(remote) => Outcome::Done(cat2("pushed to ", remote.as_str())),
                None => {
                    assert("pushed to "@ + Seq::<char>::empty() =~= "pushed to "@);
                    done("pushed to ")
                },
            }
        },
        Err(error) => if is_push_rejected(error) {
            Outcome::Failed(
                "rejected: the remote has commits you don't have. Pull first, or push this repo alone with P to force.".to_owned(),
            )
        } else {
            Outcome::Failed(error.details())
        },
    }
}

/// How a fast-forward of a branch that was `behind` went.
pub open spec fn fast_forward_outcome(behind: u32, reply: Result<OutputView, ErrorView>) -> OutcomeView {
    match reply {
        Ok(_) => OutcomeView::Done("fast-forwarded "@ + commit_count(behind)),
        Err(error) => OutcomeView::Failed(error.details()),
    }
}

/// How a fast-forward of a branch that was `behind` went.
pub fn describe_fast_forward(behind: u32, reply: &Result<GitOutput, GitError>) -> (r: Outcome)
    ensures
        r@ == fast_forward_outcome(behind, reply_view(*reply)),
{
    match reply {
        Ok(_) => {
            let count = commits(behind);
            Outcome::Done(cat2("fast-forwarded ", count.as_str()))
        },
        Err(error) => Outcome::Failed(error.details()),
    }
}

/// What was done to get to the default branch.
pub open spec fn default_lead(r: DefaultSwitchView) -> Seq<char> {
    match r.switched {
        Some(SwitchedView::Local) => "switched to "@ + r.branch,
        Some(SwitchedView::Tracking(start)) => "created "@ + r.branch + " from "@ + start,
        _ => "on "@ + r.branch,
    }
}

/// How a switch to the default branch went.
pub open spec fn default_outcome(r: DefaultSwitchView) -> OutcomeView {
    if r.switched == Some(SwitchedView::Missing) {
        OutcomeView::Skipped("no branch "@ + r.branch)
    } else {
        let lead = default_lead(r);
        match r.upstream {
            None => OutcomeView::Done(lead + ", no upstream"@),
            Some(upstream) => if r.fast_forwarded {
                OutcomeView::Done(lead + ", fast-forwarded "@ + commit_count(r.behind))
            } else if r.behind > 0 {
                OutcomeView::Failed(
                    lead + ", but it has diverged from "@ + upstream + " (↑"@ + decimal(r.ahead as nat)
                        + " ↓"@ + decimal(r.behind as nat) + "), so it wasn't fast-forwarded"@,
                )
            } else if r.ahead > 0 {
                OutcomeView::Done(lead + ", "@ + commit_count(r.ahead) + " ahead of "@ + upstream)
            } else {
                OutcomeView::Done(lead + ", up to date"@)
            },
        }
    }
}

/// How a switch to the default branch went.
pub fn describe_default(r: &DefaultSwitch) -> (o: Outcome)
    ensures
        o@ == default_outcome(r@),
{
    let branch = r.branch.as_str();
    let lead = match &r.switched {
        Some(Switched::Missing) => {
            return Outcome::Skipped(cat2("no branch ", branch));
        },
        Some(Switched::Local) => cat2("switched to ", branch),
        Some(Switched::Tracking(start)) => cat4("created ", branch, " from ", start.as_str()),
        None => cat2("on ", branch),
    };
    match &r.upstream {
        None => Outcome::Done(cat2(lead.as_str(), ", no upstream")),
        Some(upstream) => if r.fast_forwarded {
            let count = commits(r.behind);
            Outcome::Done(cat3(lead.as_str(), ", fast-forwarded ", count.as_str()))
        } else if r.behind > 0 {
            let ahead = decimal_string(r.ahead as u64);
            let behind = decimal_string(r.behind as u64);
            let start = cat5(lead.as_str(), ", but it has diverged from ", upstream.as_str(), " (↑", ahead.as_str());
            Outcome::Failed(cat4(start.as_str(), " ↓", behind.as_str(), "), so it wasn't fast-forwarded"))
        } else if r.ahead > 0 {
            let count = commits(r.ahead);
            Outcome::Done(cat5(lead.as_str(), ", ", count.as_str(), " ahead of ", upstream.as_str()))
        } else {
            Outcome::Done(cat2(lead.as_str(), ", up to date"))
        },
    }
}

impl OutcomeView {
    /// The message to show for a skipped or failed repo.
    pub open spec fn problem(self) -> Option<Seq<char>> {
        match self {
            OutcomeView::Skipped(message) => Some(message),
            OutcomeView::Failed(message) => Some(message),
            _ => None,
        }
    }
}

/// The message to show for a skipped or failed repo.
pub fn problem(outcome: &Outcome) -> (r: Option<&str>)
    ensures
        str_opt(r) == outcome@.problem(),
{
    match outcome {
        Outcome::Skipped(message) => Some(message.as_str()),
        Outcome::Failed(message) => Some(message.as_str()),
        Outcome::Pending => None,
        Outcome::Done(_) => None,
    }
}

/// What a line of an error says after `fatal:` or `error:`.
pub open spec fn said(line: Seq<char>) -> Option<Seq<char>> {
    match strip_prefix(line, "fatal: "@) {
        Some(rest) => Some(rest),
        None => strip_prefix(line, "error: "@),
    }
}

/// The first error among some lines.
pub open spec fn first_said(ls: Seq<Seq<char>>) -> Option<Seq<char>>
    decreases ls.len(),
{
    if ls.len() == 0 {
        None
    } else if said(ls[0]) is Some {
        said(ls[0])
    } else {
        first_said(ls.drop_first())
    }
}

/// The first of some lines that isn't a hint.
pub open spec fn first_plain(ls: Seq<Seq<char>>) -> Option<Seq<char>>
    decreases ls.len(),
{
    if ls.len() == 0 {
        None
    } else if strip_prefix(ls[0], "hint:"@) is None {
        Some(ls[0])
    } else {
        first_plain(ls.drop_first())
    }
}

/// A line without the space around it; nothing if that is all there is.
pub open spec fn tidied(line: Seq<char>) -> Option<Seq<char>> {
    if trim(line).len() > 0 {
        Some(trim(line))
    } else {
        None
    }
}

/// The line of git's error output that says what went wrong.
pub open spec fn headline_of(details: Seq<char>) -> Seq<char> {
    let ls = filter_map(lines(details), |l: Seq<char>| tidied(l));
    match first_said(ls) {
        Some(text) => text,
        None => match first_plain(ls) {
            Some(text) => text,
            None => details,
        },
    }
}

/// The lines of a text that aren't blank, without the space around them.
fn tidy_lines<'a>(text: &'a [char]) -> (r: Vec<&'a [char]>)
    ensures
        views(r@) == filter_map(lines(text@), |l: Seq<char>| tidied(l)),
{
    let ls = split_lines(text);
    let ghost all = lines(text@);
    let ghost f = |l: Seq<char>| tidied(l);
    let mut out: Vec<&'a [char]> = Vec::new();
    let mut i: usize = 0;
    assert(all.take(0) =~= Seq::<Seq<char>>::empty());
    assert(views(out@) =~= Seq::<Seq<char>>::empty());
    while i < ls.len()
        invariant
            i <= ls@.len(),
            all == views(ls@),
            f == (|l: Seq<char>| tidied(l)),
            views(out@) == filter_map(all.take(i as int), f),
        decreases ls@.len() - i,
    {
        let ghost before = views(out@);
        proof {
            lemma_filter_map_step(all, f, i as int);
            assert(all[i as int] == ls@[i as int]@);
        }
        let line = trimmed(ls[i]);
        if line.len() > 0 {
            out.push(line);
            assert(views(out@) =~= before.push(line@));
        }
        i = i + 1;
    }
    assert(all.take(all.len() as int) =~= all);
    out
}

/// The line of git's error output that says what went wrong, without `fatal:`/`error:`.
pub fn headline(details: &str) -> (r: String)
    ensures
        r@ == headline_of(details@),
{
    let chars = chars_of(details);
    let ls = tidy_lines(chars.as_slice());
    let ghost all = views(ls@);
    let mut i: usize = 0;
    assert(all.skip(0) =~= all);
    while i < ls.len()
        invariant
            i <= ls@.len(),
            all == views(ls@),
            all == filter_map(lines(details@), |l: Seq<char>| tidied(l)),
            first_said(all) == first_said(all.skip(i as int)),
        decreases ls@.len() - i,
    {
        assert(all.skip(i as int)[0] == ls@[i as int]@);
        assert(all.skip(i as int).drop_first() =~= all.skip(i + 1));
        if let Some(rest) = after_text(ls[i], "fatal: ") {
            return string_of(rest);
        }
        if let Some(rest) = after_text(ls[i], "error: ") {
            return string_of(rest);
        }
        i = i + 1;
    }
    let mut j: usize = 0;
    while j < ls.len()
        invariant
            j <= ls@.len(),
            all == views(ls@),
            all == filter_map(lines(details@), |l: Seq<char>| tidied(l)),
            first_said(all) is None,
            first_plain(all) == first_plain(all.skip(j as int)),
        decreases ls@.len() - j,
    {
        assert(all.skip(j as int)[0] == ls@[j as int]@);
        assert(all.skip(j as int).drop_first() =~= all.skip(j + 1));
        if after_text(ls[j], "hint:").is_none() {
            return string_of(ls[j]);
        }
        j = j + 1;
    }
    details.to_owned()
}

/// A repo to run a batch's operation on.
#[derive(Debug, PartialEq, Eq)]
pub struct BatchJob {
    /// The row that shows its outcome.
    pub row: usize,
    pub name: String,
    pub root: FsPath,
    pub summary: RepoSummary,
}

#[verifier::ext_equal]
pub ghost struct BatchJobView {
    pub row: nat,
    pub name: Seq<char>,
    pub root: Seq<u8>,
    pub summary: SummaryView,
}

impl View for BatchJob {
    type V = BatchJobView;

    open spec fn view(&self) -> BatchJobView {
        BatchJobView { row: self.row as nat, name: self.name@, root: self.root@, summary: self.summary@ }
    }
}

/// The views of some jobs.
pub open spec fn batch_job_views(jobs: Seq<BatchJob>) -> Seq<BatchJobView> {
    jobs.map_values(|j: BatchJob| j@)
}

/// The rows of a batch and what is to run, for the first repos of a list. Repos that are
/// gone have no row.
pub open spec fn planned(batch: BatchView, store: StoreView, targets: Seq<Seq<u8>>) -> (
    Seq<RowView>,
    Seq<BatchJobView>,
)
    decreases targets.len(),
{
    if targets.len() == 0 {
        (Seq::empty(), Seq::empty())
    } else {
        let (rows, jobs) = planned(batch, store, targets.drop_last());
        match store.entry(targets.last()) {
            None => (rows, jobs),
            Some(entry) => {
                let name = entry.location.name;
                match prechecked(entry) {
                    Err(outcome) => (rows.push(RowView { name, outcome }), jobs),
                    Ok(summary) => match batch.settled(summary) {
                        Some(outcome) => (rows.push(RowView { name, outcome }), jobs),
                        None => (
                            rows.push(RowView { name, outcome: OutcomeView::Pending }),
                            jobs.push(
                                BatchJobView { row: rows.len(), name, root: targets.last(), summary },
                            ),
                        ),
                    },
                }
            },
        }
    }
}

/// The rows of a batch, and what is to run: on every repo in `targets` that passes the
/// common checks and the batch's own.
pub fn plan(batch: &Batch, store: &RepoStore, targets: &Vec<FsPath>) -> (r: (Vec<BatchRow>, Vec<BatchJob>))
    ensures
        (row_views(r.0@), batch_job_views(r.1@)) == planned(batch@, store@, path_views(targets@)),
{
    let ghost all = path_views(targets@);
    let mut rows: Vec<BatchRow> = Vec::new();
    let mut jobs: Vec<BatchJob> = Vec::new();
    let mut i: usize = 0;
    assert(all.take(0) =~= Seq::<Seq<u8>>::empty());
    assert(row_views(rows@) =~= Seq::<RowView>::empty());
    assert(batch_job_views(jobs@) =~= Seq::<BatchJobView>::empty());
    while i < targets.len()
        invariant
            i <= targets@.len(),
            all == path_views(targets@),
            row_views(rows@) == planned(batch@, store@, all.take(i as int)).0,
            batch_job_views(jobs@) == planned(batch@, store@, all.take(i as int)).1,
        decreases targets@.len() - i,
    {
        let ghost next = all.take(i + 1);
        assert(next.drop_last() =~= all.take(i as int));
        assert(next.last() == targets@[i as int]@);
        let ghost (rows0, jobs0) = (row_views(rows@), batch_job_views(jobs@));
        if let Some(entry) = store.entry(&targets[i]) {
            let outcome = match precheck(entry) {
                Err(outcome) => outcome,
                Ok(summary) => match batch.check(summary) {
                    Some(outcome) => outcome,
                    None => {
                        let job = BatchJob {
                            row: rows.len(),
                            name: entry.location.name.clone(),
                            root: targets[i].clone(),
                            summary: summary.clone(),
                        };
                        jobs.push(job);
                        assert(batch_job_views(jobs@) =~= jobs0.push(job@));
                        Outcome::Pending
                    },
                },
            };
            let row = BatchRow { name: entry.location.name.clone(), outcome };
            rows.push(row);
            assert(row_views(rows@) =~= rows0.push(row@));
        }
        i = i + 1;
    }
    assert(all.take(all.len() as int) =~= all);
    (rows, jobs)
}

/// What runs is what passed every check, each with a row of its own that waits for the
/// outcome; every other row is settled from the start.
pub proof fn law_only_fit_repos_run(batch: BatchView, store: StoreView, targets: Seq<Seq<u8>>)
    ensures
        ({
            let (rows, jobs) = planned(batch, store, targets);
            &&& forall|j: int|
                0 <= j < jobs.len() ==> {
                    let job = #[trigger] jobs[j];
                    &&& job.row < rows.len()
                    &&& rows[job.row as int].outcome is Pending
                    &&& store.entry(job.root) is Some
                    &&& prechecked(store.entry(job.root)->0) == Ok::<SummaryView, OutcomeView>(job.summary)
                    &&& batch.settled(job.summary) is None
                }
            &&& forall|i: int, j: int|
                0 <= i < j < jobs.len() ==> (#[trigger] jobs[i]).row < (#[trigger] jobs[j]).row
            &&& forall|k: int|
                0 <= k < rows.len() && (#[trigger] rows[k]).outcome is Pending ==> is_row_of(jobs, k)
        }),
    decreases targets.len(),
{
    if targets.len() > 0 {
        law_only_fit_repos_run(batch, store, targets.drop_last());
        let (rows0, jobs0) = planned(batch, store, targets.drop_last());
        let (rows, jobs) = planned(batch, store, targets);
        lemma_settled_is_not_pending(batch);
        assert forall|k: int| 0 <= k < rows.len() && (#[trigger] rows[k]).outcome is Pending implies is_row_of(
            jobs,
            k,
        ) by {
            if k < rows0.len() {
                assert(rows[k] == rows0[k]);
                assert(is_row_of(jobs0, k));
                let j = choose|j: int| 0 <= j < jobs0.len() && jobs0[j].row == k;
                assert(jobs[j] == jobs0[j]);
            } else {
                assert(jobs[jobs.len() - 1].row == k);
            }
        }
    }
}

/// Whether a row is that of a job.
pub open spec fn is_row_of(jobs: Seq<BatchJobView>, row: int) -> bool {
    exists|j: int| 0 <= j < jobs.len() && (#[trigger] jobs[j]).row == row
}

proof fn lemma_settled_is_not_pending(batch: BatchView)
    ensures
        forall|s: SummaryView| #[trigger] batch.settled(s) matches Some(o) ==> !(o is Pending),
        forall|e: EntryView| #[trigger] prechecked(e) matches Err(o) ==> !(o is Pending),
{
}

/// Where a job of a batch stands, and what is needed to go on.
#[derive(Debug, PartialEq, Eq)]
pub enum JobStage {
    Checkout { name: String, stage: SwitchStage },
    DefaultBranch { branch: String, remote: Option<String>, step: DefaultStage },
    NewBranch { name: String },
    Pull,
    Push { has_upstream: bool, remote: Option<String> },
    FastForward { behind: u32 },
}

/// What to do next.
#[derive(Debug, PartialEq, Eq)]
pub enum JobStep {
    Run { cmd: GitCommand, next: JobStage },
    Done { outcome: Outcome },
}

#[verifier::ext_equal]
pub ghost enum JobStageView {
    Checkout { name: Seq<char>, stage: SwitchStageView },
    DefaultBranch { branch: Seq<char>, remote: Option<Seq<char>>, step: DefaultStageView },
    NewBranch { name: Seq<char> },
    Pull,
    Push { has_upstream: bool, remote: Option<Seq<char>> },
    FastForward { behind: u32 },
}

#[verifier::ext_equal]
pub ghost enum JobStepView {
    Run { cmd: CommandView, next: JobStageView },
    Done { outcome: OutcomeView },
}

impl View for JobStage {
    type V = JobStageView;

    open spec fn view(&self) -> JobStageView {
        match self {
            JobStage::Checkout { name, stage } => JobStageView::Checkout { name: name@, stage: stage@ },
            JobStage::DefaultBranch { branch, remote, step } => JobStageView::DefaultBranch {
                branch: branch@,
                remote: text_opt(*remote),
                step: step@,
            },
            JobStage::NewBranch { name } => JobStageView::NewBranch { name: name@ },
            JobStage::Pull => JobStageView::Pull,
            JobStage::Push { has_upstream, remote } => JobStageView::Push {
                has_upstream: *has_upstream,
                remote: text_opt(*remote),
            },
            JobStage::FastForward { behind } => JobStageView::FastForward { behind: *behind },
        }
    }
}

impl View for JobStep {
    type V = JobStepView;

    open spec fn view(&self) -> JobStepView {
        match self {
            JobStep::Run { cmd, next } => JobStepView::Run { cmd: cmd@, next: next@ },
            JobStep::Done { outcome } => JobStepView::Done { outcome: outcome@ },
        }
    }
}

/// A job's step from the one of the switch that it does.
pub open spec fn from_switch(name: Seq<char>, step: SwitchStepView) -> JobStepView {
    match step {
        SwitchStepView::Run { cmd, stage } => JobStepView::Run {
            cmd,
            next: JobStageView::Checkout { name, stage },
        },
        SwitchStepView::Done { switched } => JobStepView::Done { outcome: switch_outcome(name, switched) },
        SwitchStepView::Failed { error } => JobStepView::Done { outcome: OutcomeView::Failed(error.details()) },
    }
}

/// A job's step from the one of the switch to the default branch that it does.
pub open spec fn from_default(branch: Seq<char>, remote: Option<Seq<char>>, step: DefaultStepView) -> JobStepView {
    match step {
        DefaultStepView::Run { cmd, stage } => JobStepView::Run {
            cmd,
            next: JobStageView::DefaultBranch { branch, remote, step: stage },
        },
        DefaultStepView::Done { result } => JobStepView::Done { outcome: default_outcome(result) },
        DefaultStepView::Failed { error } => JobStepView::Done { outcome: OutcomeView::Failed(error.details()) },
    }
}

/// How far a branch is behind its upstream.
pub open spec fn behind_of(upstream: UpstreamView) -> u32 {
    match upstream {
        UpstreamView::Tracking { name, ahead, behind } => behind,
        _ => 0,
    }
}

/// The first step of a batch's operation on a repo.
pub open spec fn job_start(batch: BatchView, cwd: Seq<u8>, s: SummaryView) -> JobStepView {
    match batch {
        BatchView::Checkout(name) => JobStepView::Run {
            cmd: list_branches(cwd, name, s.remotes),
            next: JobStageView::Checkout { name, stage: SwitchStageView::List },
        },
        BatchView::NewBranch(name) => JobStepView::Run {
            cmd: write_command(cwd, seq!["checkout"@, "-b"@, name]),
            next: JobStageView::NewBranch { name },
        },
        BatchView::DefaultBranch => match s.default_branch {
            None => JobStepView::Done { outcome: OutcomeView::Skipped("no default branch found"@) },
            Some(default) => {
                let (branch, remote) = default_parts(default, s.remotes);
                from_default(
                    branch,
                    remote,
                    if s.head.branch() == Some(branch) {
                        ask_upstream(cwd, None)
                    } else {
                        DefaultStepView::Run {
                            cmd: list_branches(cwd, branch, default_remotes(remote)),
                            stage: DefaultStageView::Switch { stage: SwitchStageView::List },
                        }
                    },
                )
            },
        },
        BatchView::Pull => JobStepView::Run {
            cmd: network_command(cwd, seq!["pull"@, "--no-edit"@, "--recurse-submodules=no"@]),
            next: JobStageView::Pull,
        },
        BatchView::Push => {
            let has_upstream = s.upstream is Tracking;
            let remote = main_remote(s.remotes, None);
            JobStepView::Run {
                cmd: network_command(cwd, push_args(has_upstream, remote, false)),
                next: JobStageView::Push { has_upstream, remote },
            }
        },
        BatchView::FastForward => JobStepView::Run {
            cmd: write_command(cwd, seq!["merge"@, "--ff-only"@, "@{upstream}"@]),
            next: JobStageView::FastForward { behind: behind_of(s.upstream) },
        },
    }
}

/// The next step of a batch's operation on a repo, on a command's reply.
pub open spec fn job_next(
    cwd: Seq<u8>,
    remotes: Seq<Seq<char>>,
    stage: JobStageView,
    reply: Result<OutputView, ErrorView>,
) -> JobStepView {
    match stage {
        JobStageView::Checkout { name, stage } => from_switch(
            name,
            switch_next(cwd, name, remotes, stage, reply),
        ),
        JobStageView::DefaultBranch { branch, remote, step } => from_default(
            branch,
            remote,
            default_next(cwd, branch, remote, step, reply),
        ),
        JobStageView::NewBranch { name } => JobStepView::Done { outcome: new_branch_outcome(name, reply) },
        JobStageView::Pull => JobStepView::Done { outcome: pull_outcome(reply) },
        JobStageView::Push { has_upstream, remote } => JobStepView::Done {
            outcome: push_outcome(has_upstream, remote, reply),
        },
        JobStageView::FastForward { behind } => JobStepView::Done {
            outcome: fast_forward_outcome(behind, reply),
        },
    }
}

/// A job's step from the one of the switch that it does.
fn continue_switch(name: String, step: SwitchStep) -> (r: JobStep)
    ensures
        r@ == from_switch(name@, step@),
{
    match step {
        SwitchStep::Run { cmd, stage } => JobStep::Run { cmd, next: JobStage::Checkout { name, stage } },
        SwitchStep::Done { switched } => JobStep::Done { outcome: describe_switch(name.as_str(), &switched) },
        SwitchStep::Failed { error } => JobStep::Done { outcome: Outcome::Failed(error.details()) },
    }
}

/// A job's step from the one of the switch to the default branch that it does.
fn continue_default(branch: String, remote: Option<String>, step: DefaultStep) -> (r: JobStep)
    ensures
        r@ == from_default(branch@, text_opt(remote), step@),
{
    match step {
        DefaultStep::Run { cmd, stage } => JobStep::Run {
            cmd,
            next: JobStage::DefaultBranch { branch, remote, step: stage },
        },
        DefaultStep::Done { result } => JobStep::Done { outcome: describe_default(&result) },
        DefaultStep::Failed { error } => JobStep::Done { outcome: Outcome::Failed(error.details()) },
    }
}

/// The first step of a batch's operation on a repo.
pub fn start_job(batch: &Batch, repo: &RepoLocation, s: &RepoSummary) -> (r: JobStep)
    ensures
        r@ == job_start(batch@, repo@.root, s@),
{
    match batch {
        Batch::Checkout(name) => {
            let step = ops::switch_branch(repo, name.as_str(), s.remotes.as_slice());
            continue_switch(name.clone(), step)
        },
        Batch::NewBranch(name) => {
            assert(seq!["checkout"@, "-b"@, name@] + Seq::<Seq<char>>::empty() =~= seq!["checkout"@, "-b"@, name@]);
            JobStep::Run {
                cmd: ops::new_branch(repo, name.as_str(), None),
                next: JobStage::NewBranch { name: name.clone() },
            }
        },
        Batch::DefaultBranch => match &s.default_branch {
            None => JobStep::Done { outcome: skip("no default branch found") },
            Some(default) => {
                let step = ops::switch_to_default(repo, default, s.remotes.as_slice(), s.head.branch_name());
                let (branch, remote) = ops::default_branch_parts(default, s.remotes.as_slice());
                continue_default(branch, remote, step)
            },
        },
        Batch::Pull => JobStep::Run { cmd: ops::pull(repo), next: JobStage::Pull },
        Batch::Push => {
            let has_upstream = match &s.upstream {
                Upstream::Tracking { .. } => true,
                _ => false,
            };
            let remote = primary_remote(s.remotes.as_slice(), None);
            let cmd = ops::push(repo, has_upstream, remote, false);
            let remote = match remote {
                Some(remote) => Some(remote.to_owned()),
                None => None,
            };
            JobStep::Run { cmd, next: JobStage::Push { has_upstream, remote } }
        },
        Batch::FastForward => {
            let behind: u32 = match &s.upstream {
                Upstream::Tracking { name: _, ahead: _, behind } => *behind,
                _ => 0,
            };
            JobStep::Run { cmd: ops::fast_forward_head(repo), next: JobStage::FastForward { behind } }
        },
    }
}

/// The next step of a batch's operation on a repo, on a command's reply.
pub fn continue_job(
    repo: &RepoLocation,
    s: &RepoSummary,
    stage: JobStage,
    reply: Result<GitOutput, GitError>,
) -> (r: JobStep)
    ensures
        r@ == job_next(repo@.root, s@.remotes, stage@, reply_view(reply)),
{
    match stage {
        JobStage::Checkout { name, stage } => {
            let step = ops::switch_branch_next(repo, name.as_str(), s.remotes.as_slice(), stage, reply);
            continue_switch(name, step)
        },
        JobStage::DefaultBranch { branch, remote, step } => {
            let step = ops::switch_to_default_next(repo, branch.as_str(), &remote, step, reply);
            continue_default(branch, remote, step)
        },
        JobStage::NewBranch { name } => JobStep::Done { outcome: describe_new_branch(name.as_str(), &reply) },
        JobStage::Pull => JobStep::Done { outcome: describe_pull(&reply) },
        JobStage::Push { has_upstream, remote } => JobStep::Done {
            outcome: describe_push(has_upstream, &remote, &reply),
        },
        JobStage::FastForward { behind } => JobStep::Done { outcome: describe_fast_forward(behind, &reply) },
    }
}

/// A batch never pushes by force: every push that it runs is an ordinary one, and one that
/// the remote rejects fails instead of being forced.
pub proof fn law_batches_never_force(
    cwd: Seq<u8>,
    s: SummaryView,
    remotes: Seq<Seq<char>>,
    reply: Result<OutputView, ErrorView>,
)
    ensures
        job_start(BatchView::Push, cwd, s) matches JobStepView::Run { cmd, next } && cmd.args == push_args(
            s.upstream is Tracking,
            main_remote(s.remotes, None),
            false,
        ),
        ({
            let next = JobStageView::Push {
                has_upstream: s.upstream is Tracking,
                remote: main_remote(s.remotes, None),
            };
            &&& job_next(cwd, remotes, next, reply) is Done
            &&& reply is Err && push_rejected(reply->Err_0) ==> job_next(cwd, remotes, next, reply)->outcome is Failed
        }),
{
}

} // verus!
