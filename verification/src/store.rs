//! `RepoStore`: every repo's live summary, the selected repo's detail, the command log, and
//! what to do next to keep them fresh.
//!
//! Methods that call for git to run return the work as a value; the caller runs it and hands
//! the result back.

use std::collections::VecDeque;

use vstd::prelude::*;

use crate::config::Config;
use crate::detail::{DetailView, RepoDetail};
use crate::discovery::{display_name, name_of, Candidate};
use crate::git::{CmdKind, CommandRecord, ErrorView, GitError, RecordView};
use crate::model::{default_opt, DefaultBranch, DefaultView, Head, LocationView, RepoLocation, RepoSummary, SummaryView};
use crate::path::{join_path, law_same_path_is_an_equivalence, path_opt, path_views, same_path, FsPath};
use crate::text::number::{count_up, next_count};
use crate::text::order::{comes_before, is_before, law_texts_are_ordered};
use crate::text::outside::{lossy_text, text_lossy};
use crate::text::strings::{cat2, text_opt, utf8};
use crate::watch::route::WatchEvent;

verus! {

/// How many commands the log keeps.
pub const LOG_CAPACITY: usize = 500;

/// What is known of a repo.
#[derive(Debug, PartialEq, Eq)]
pub struct RepoEntry {
    pub location: RepoLocation,
    pub summary: Option<RepoSummary>,
    /// Why the repo couldn't be read (e.g. `safe.directory`).
    pub error: Option<String>,
    pub fetch_error: Option<String>,
    /// Label of the operation running on this repo, e.g. "Fetching".
    pub busy: Option<String>,
    pub refreshing: bool,
    pub refresh_again: bool,
}

#[verifier::ext_equal]
pub ghost struct EntryView {
    pub location: LocationView,
    pub summary: Option<SummaryView>,
    pub error: Option<Seq<char>>,
    pub fetch_error: Option<Seq<char>>,
    pub busy: Option<Seq<char>>,
    pub refreshing: bool,
    pub refresh_again: bool,
}

/// The view of a summary that may be missing.
pub open spec fn summary_opt(s: Option<RepoSummary>) -> Option<SummaryView> {
    match s {
        Some(s) => Some(s@),
        None => None,
    }
}

impl View for RepoEntry {
    type V = EntryView;

    open spec fn view(&self) -> EntryView {
        EntryView {
            location: self.location@,
            summary: summary_opt(self.summary),
            error: text_opt(self.error),
            fetch_error: text_opt(self.fetch_error),
            busy: text_opt(self.busy),
            refreshing: self.refreshing,
            refresh_again: self.refresh_again,
        }
    }
}

/// The views of some entries.
pub open spec fn entry_views(repos: Seq<RepoEntry>) -> Seq<EntryView> {
    repos.map_values(|e: RepoEntry| e@)
}

/// A repo of which only the location is known.
pub open spec fn new_entry(location: LocationView) -> EntryView {
    EntryView {
        location,
        summary: None,
        error: None,
        fetch_error: None,
        busy: None,
        refreshing: false,
        refresh_again: false,
    }
}

impl RepoEntry {
    pub fn new(location: RepoLocation) -> (r: RepoEntry)
        ensures
            r@ == new_entry(location@),
    {
        RepoEntry {
            location,
            summary: None,
            error: None,
            fetch_error: None,
            busy: None,
            refreshing: false,
            refresh_again: false,
        }
    }

    /// The repo's name.
    pub fn name(&self) -> (r: &str)
        ensures
            r@ == self@.location.name,
    {
        self.location.name.as_str()
    }
}

/// The panels of a repo.
#[derive(Debug, PartialEq, Eq)]
pub struct Detail {
    pub root: FsPath,
    pub data: RepoDetail,
    pub error: Option<String>,
}

#[verifier::ext_equal]
pub ghost struct LoadedView {
    pub root: Seq<u8>,
    pub data: DetailView,
    pub error: Option<Seq<char>>,
}

impl View for Detail {
    type V = LoadedView;

    open spec fn view(&self) -> LoadedView {
        LoadedView { root: self.root@, data: self.data@, error: text_opt(self.error) }
    }
}

/// The view of a detail that may be missing.
pub open spec fn loaded_opt(d: Option<Detail>) -> Option<LoadedView> {
    match d {
        Some(d) => Some(d@),
        None => None,
    }
}

/// Every repo below the workdir.
#[derive(Debug)]
pub struct RepoStore {
    pub workdir: FsPath,
    pub config: Config,
    pub repos: Vec<RepoEntry>,
    pub scanning: bool,
    /// Commands shown in the command log (mutations, network, and failures).
    pub log: VecDeque<CommandRecord>,
    pub selected: Option<FsPath>,
    pub detail: Option<Detail>,
    /// Bumped whenever `detail` is replaced, so views can tell data changed.
    pub detail_generation: u64,
    pub detail_loading: bool,
    pub detail_again: bool,
    /// `(done, total)` while a fetch-all round is running.
    pub fetch_round: Option<(usize, usize)>,
}

#[verifier::ext_equal]
pub ghost struct StoreView {
    pub workdir: Seq<u8>,
    pub config: crate::config::ConfigView,
    pub repos: Seq<EntryView>,
    pub scanning: bool,
    pub log: Seq<RecordView>,
    pub selected: Option<Seq<u8>>,
    pub detail: Option<LoadedView>,
    pub detail_generation: u64,
    pub detail_loading: bool,
    pub detail_again: bool,
    pub fetch_round: Option<(usize, usize)>,
}

/// The views of some records.
pub open spec fn record_views(log: Seq<CommandRecord>) -> Seq<RecordView> {
    log.map_values(|r: CommandRecord| r@)
}

impl View for RepoStore {
    type V = StoreView;

    open spec fn view(&self) -> StoreView {
        StoreView {
            workdir: self.workdir@,
            config: self.config@,
            repos: entry_views(self.repos@),
            scanning: self.scanning,
            log: record_views(self.log@),
            selected: path_opt(self.selected),
            detail: loaded_opt(self.detail),
            detail_generation: self.detail_generation,
            detail_loading: self.detail_loading,
            detail_again: self.detail_again,
            fetch_round: self.fetch_round,
        }
    }
}

/// A summary to compute, or panels to load.
#[derive(Debug, PartialEq, Eq)]
pub struct DetailJob {
    pub location: RepoLocation,
    /// The branch that the branches are compared with.
    pub base: Option<DefaultBranch>,
    pub has_commits: bool,
}

#[verifier::ext_equal]
pub ghost struct JobView {
    pub location: LocationView,
    pub base: Option<DefaultView>,
    pub has_commits: bool,
}

impl View for DetailJob {
    type V = JobView;

    open spec fn view(&self) -> JobView {
        JobView { location: self.location@, base: default_opt(self.base), has_commits: self.has_commits }
    }
}

/// The view of a job that may be missing.
pub open spec fn job_opt(j: Option<DetailJob>) -> Option<JobView> {
    match j {
        Some(j) => Some(j@),
        None => None,
    }
}

/// The view of a location that may be missing.
pub open spec fn location_opt(l: Option<RepoLocation>) -> Option<LocationView> {
    match l {
        Some(l) => Some(l@),
        None => None,
    }
}

/// Work for git: summaries to compute, panels to load, and whether to look for repos.
#[derive(Debug, PartialEq, Eq)]
pub struct Work {
    pub refresh: Vec<RepoLocation>,
    pub detail: Option<DetailJob>,
    pub scan: bool,
}

#[verifier::ext_equal]
pub ghost struct WorkView {
    pub refresh: Seq<LocationView>,
    pub detail: Option<JobView>,
    pub scan: bool,
}

impl View for Work {
    type V = WorkView;

    open spec fn view(&self) -> WorkView {
        WorkView {
            refresh: crate::model::location_views(self.refresh@),
            detail: job_opt(self.detail),
            scan: self.scan,
        }
    }
}

/// Whether two paths that may be missing are the same.
pub open spec fn same_path_opt(a: Option<Seq<u8>>, b: Option<Seq<u8>>) -> bool {
    match (a, b) {
        (Some(a), Some(b)) => same_path(a, b),
        (None, None) => true,
        _ => false,
    }
}

/// Whether two paths that may be missing are the same.
pub fn is_same_path(a: &Option<FsPath>, b: &Option<FsPath>) -> (r: bool)
    ensures
        r == same_path_opt(path_opt(*a), path_opt(*b)),
{
    match (a, b) {
        (Some(a), Some(b)) => a.same(b),
        (None, None) => true,
        _ => false,
    }
}

/// The first repo at a path.
pub open spec fn place_of(repos: Seq<EntryView>, root: Seq<u8>) -> Option<int>
    decreases repos.len(),
{
    if repos.len() == 0 {
        None
    } else {
        match place_of(repos.drop_last(), root) {
            Some(i) => Some(i),
            None => if same_path(repos.last().location.root, root) {
                Some(repos.len() - 1)
            } else {
                None
            },
        }
    }
}

/// A place is one of the list, and the repo there is the first at the path.
pub proof fn lemma_place(repos: Seq<EntryView>, root: Seq<u8>)
    ensures
        match place_of(repos, root) {
            Some(i) => 0 <= i < repos.len() && same_path(repos[i].location.root, root) && (forall|j: int|
                0 <= j < i ==> !same_path((#[trigger] repos[j]).location.root, root)),
            None => forall|j: int|
                0 <= j < repos.len() ==> !same_path((#[trigger] repos[j]).location.root, root),
        },
    decreases repos.len(),
{
    if repos.len() > 0 {
        lemma_place(repos.drop_last(), root);
        assert forall|j: int| 0 <= j < repos.len() - 1 implies repos.drop_last()[j] == repos[j] by {}
        if place_of(repos, root) is None {
            assert forall|j: int| 0 <= j < repos.len() implies !same_path(
                (#[trigger] repos[j]).location.root,
                root,
            ) by {
                if j < repos.len() - 1 {
                    assert(!same_path(repos.drop_last()[j].location.root, root));
                }
            }
        } else if place_of(repos, root) == Some(repos.len() - 1) {
            assert forall|j: int| 0 <= j < repos.len() - 1 implies !same_path(
                (#[trigger] repos[j]).location.root,
                root,
            ) by {
                assert(!same_path(repos.drop_last()[j].location.root, root));
            }
        } else {
            let i = place_of(repos, root)->0;
            assert forall|j: int| 0 <= j < i implies !same_path((#[trigger] repos[j]).location.root, root) by {
                assert(!same_path(repos.drop_last()[j].location.root, root));
            }
        }
    }
}

/// The place of the first repo at a path.
fn find_place(repos: &Vec<RepoEntry>, root: &FsPath) -> (r: Option<usize>)
    ensures
        match r {
            Some(i) => place_of(entry_views(repos@), root@) == Some(i as int) && i < repos@.len(),
            None => place_of(entry_views(repos@), root@) is None,
        },
{
    let ghost all = entry_views(repos@);
    let mut i: usize = 0;
    assert(all.take(0) =~= Seq::<EntryView>::empty());
    while i < repos.len()
        invariant
            i <= repos@.len(),
            all == entry_views(repos@),
            place_of(all.take(i as int), root@) is None,
        decreases repos@.len() - i,
    {
        let ghost next = all.take(i + 1);
        assert(next.drop_last() =~= all.take(i as int));
        assert(next.last() == repos@[i as int]@);
        if repos[i].location.root.same(root) {
            proof {
                lemma_place_of_prefix(all, i + 1, root@);
            }
            return Some(i);
        }
        i = i + 1;
    }
    assert(all.take(all.len() as int) =~= all);
    None
}

/// A repo found in the first entries is the one found.
proof fn lemma_place_of_prefix(repos: Seq<EntryView>, n: int, root: Seq<u8>)
    requires
        0 <= n <= repos.len(),
        place_of(repos.take(n), root) is Some,
    ensures
        place_of(repos, root) == place_of(repos.take(n), root),
    decreases repos.len() - n,
{
    if n < repos.len() {
        assert(repos.take(n + 1).drop_last() =~= repos.take(n));
        lemma_place_of_prefix(repos, n + 1, root);
    } else {
        assert(repos.take(n) =~= repos);
    }
}

impl EntryView {
    /// What a request for a fresh summary does: nothing while an operation runs, a note to
    /// do it again while one is computed, else it starts.
    pub open spec fn asked(self) -> EntryView {
        if self.busy is Some {
            self
        } else if self.refreshing {
            EntryView { refresh_again: true, ..self }
        } else {
            EntryView { refreshing: true, ..self }
        }
    }

    /// Whether a request for a fresh summary starts one.
    pub open spec fn starts(self) -> bool {
        self.busy is None && !self.refreshing
    }

    /// The entry once a summary has been computed, before it is asked for again.
    pub open spec fn answered(self, result: Result<SummaryView, Seq<char>>) -> EntryView {
        match result {
            Ok(summary) => EntryView {
                summary: Some(summary),
                error: None,
                refreshing: false,
                refresh_again: false,
                ..self
            },
            Err(error) => EntryView {
                error: Some(error),
                refreshing: false,
                refresh_again: false,
                ..self
            },
        }
    }
}

/// The view of a summary, or of the reason that there is none.
pub open spec fn summary_result(r: Result<RepoSummary, String>) -> Result<SummaryView, Seq<char>> {
    match r {
        Ok(summary) => Ok(summary@),
        Err(error) => Err(error@),
    }
}

/// The repos after a request to refresh the one at `root`.
pub open spec fn asked_at(repos: Seq<EntryView>, root: Seq<u8>) -> Seq<EntryView> {
    match place_of(repos, root) {
        Some(i) => repos.update(i, repos[i].asked()),
        None => repos,
    }
}

/// The summary that a request to refresh the repo at `root` starts.
pub open spec fn started_at(repos: Seq<EntryView>, root: Seq<u8>) -> Option<LocationView> {
    match place_of(repos, root) {
        Some(i) => if repos[i].starts() {
            Some(repos[i].location)
        } else {
            None
        },
        None => None,
    }
}

/// The repos after requests to refresh those at `roots`, in turn.
pub open spec fn asked_all(repos: Seq<EntryView>, roots: Seq<Seq<u8>>) -> Seq<EntryView>
    decreases roots.len(),
{
    if roots.len() == 0 {
        repos
    } else {
        asked_at(asked_all(repos, roots.drop_last()), roots.last())
    }
}

/// The summaries that requests to refresh those at `roots` start.
pub open spec fn started_all(repos: Seq<EntryView>, roots: Seq<Seq<u8>>) -> Seq<LocationView>
    decreases roots.len(),
{
    if roots.len() == 0 {
        Seq::empty()
    } else {
        let before = started_all(repos, roots.drop_last());
        match started_at(asked_all(repos, roots.drop_last()), roots.last()) {
            Some(location) => before.push(location),
            None => before,
        }
    }
}

/// The roots of some repos.
pub open spec fn roots_of(repos: Seq<EntryView>) -> Seq<Seq<u8>> {
    repos.map_values(|e: EntryView| e.location.root)
}

impl StoreView {
    /// What every operation keeps: the log is bounded, and a running round of fetches isn't
    /// done.
    pub open spec fn wf(self) -> bool {
        &&& self.log.len() <= LOG_CAPACITY
        &&& match self.fetch_round {
            Some((done, total)) => done < total,
            None => true,
        }
    }

    /// The repo at a path.
    pub open spec fn entry(self, root: Seq<u8>) -> Option<EntryView> {
        match place_of(self.repos, root) {
            Some(i) => Some(self.repos[i]),
            None => None,
        }
    }

    /// The selected repo.
    pub open spec fn selected_entry(self) -> Option<EntryView> {
        match self.selected {
            Some(root) => self.entry(root),
            None => None,
        }
    }

    /// The selected repo's panels, if loaded.
    pub open spec fn selected_detail(self) -> Option<DetailView> {
        match (self.detail, self.selected) {
            (Some(detail), Some(root)) => if same_path(detail.root, root) {
                Some(detail.data)
            } else {
                None
            },
            _ => None,
        }
    }

    /// The panels that a request to load the selected repo's starts loading, if none are
    /// being loaded: those of a repo that can be read.
    pub open spec fn detail_job(self) -> Option<JobView> {
        match self.selected_entry() {
            Some(entry) => if entry.error is Some {
                None
            } else {
                Some(
                    JobView {
                        location: entry.location,
                        base: match entry.summary {
                            Some(s) => s.default_branch,
                            None => None,
                        },
                        has_commits: match entry.summary {
                            Some(s) => !(s.head is Unborn),
                            None => true,
                        },
                    },
                )
            },
            None => None,
        }
    }

    /// The store after a request to load the selected repo's panels.
    pub open spec fn detail_asked(self) -> StoreView {
        if self.selected is None {
            self
        } else if self.detail_loading {
            StoreView { detail_again: true, ..self }
        } else if self.detail_job() is Some {
            StoreView { detail_loading: true, ..self }
        } else {
            self
        }
    }

    /// What a request to load the selected repo's panels starts.
    pub open spec fn detail_started(self) -> Option<JobView> {
        if self.detail_loading {
            None
        } else {
            self.detail_job()
        }
    }

    /// The store after a request to refresh the repo at `root`.
    pub open spec fn refresh_asked(self, root: Seq<u8>) -> StoreView {
        StoreView { repos: asked_at(self.repos, root), ..self }
    }
}

/// Whether a command is shown in the log: it changes something, uses the network or failed.
pub open spec fn logged(record: RecordView) -> bool {
    record.kind != CmdKind::Read || record.error is Some
}

/// A log with one more command; the oldest makes room.
pub open spec fn log_with(log: Seq<RecordView>, record: RecordView) -> Seq<RecordView> {
    if log.len() == LOG_CAPACITY {
        log.drop_first().push(record)
    } else {
        log.push(record)
    }
}

impl RepoStore {
    /// A store that knows no repos yet.
    pub fn new(workdir: FsPath, config: Config) -> (r: RepoStore)
        ensures
            r@ == (StoreView {
                workdir: workdir@,
                config: config@,
                repos: Seq::empty(),
                scanning: false,
                log: Seq::empty(),
                selected: None,
                detail: None,
                detail_generation: 0,
                detail_loading: false,
                detail_again: false,
                fetch_round: None,
            }),
            r@.wf(),
    {
        let r = RepoStore {
            workdir,
            config,
            repos: Vec::new(),
            scanning: false,
            log: VecDeque::new(),
            selected: None,
            detail: None,
            detail_generation: 0,
            detail_loading: false,
            detail_again: false,
            fetch_round: None,
        };
        assert(r@.repos =~= Seq::<EntryView>::empty());
        assert(r@.log =~= Seq::<RecordView>::empty());
        r
    }

    /// Seconds between polls of every repo's status.
    pub fn poll_secs(&self) -> (r: u64)
        ensures
            r == (if self@.config.poll_interval_secs < 5 {
                5
            } else {
                self@.config.poll_interval_secs
            }),
    {
        if self.config.poll_interval_secs < 5 {
            5
        } else {
            self.config.poll_interval_secs
        }
    }

    /// Seconds between background fetches.
    pub fn fetch_secs(&self) -> (r: u64)
        ensures
            r == (if self@.config.fetch_interval_secs < 30 {
                30
            } else {
                self@.config.fetch_interval_secs
            }),
    {
        if self.config.fetch_interval_secs < 30 {
            30
        } else {
            self.config.fetch_interval_secs
        }
    }

    /// The place of the repo at a path.
    pub fn index_of(&self, root: &FsPath) -> (r: Option<usize>)
        ensures
            match r {
                Some(i) => place_of(self@.repos, root@) == Some(i as int) && i < self.repos@.len(),
                None => place_of(self@.repos, root@) is None,
            },
    {
        find_place(&self.repos, root)
    }

    /// The repo at a path.
    pub fn entry(&self, root: &FsPath) -> (r: Option<&RepoEntry>)
        ensures
            match r {
                Some(e) => self@.entry(root@) == Some(e@),
                None => self@.entry(root@) is None,
            },
    {
        match self.index_of(root) {
            Some(i) => Some(&self.repos[i]),
            None => None,
        }
    }

    /// The selected repo.
    pub fn selected_entry(&self) -> (r: Option<&RepoEntry>)
        ensures
            match r {
                Some(e) => self@.selected_entry() == Some(e@),
                None => self@.selected_entry() is None,
            },
    {
        match &self.selected {
            Some(root) => self.entry(root),
            None => None,
        }
    }

    /// Detail for the selected repo, if loaded.
    pub fn selected_detail(&self) -> (r: Option<&RepoDetail>)
        ensures
            match r {
                Some(d) => self@.selected_detail() == Some(d@),
                None => self@.selected_detail() is None,
            },
    {
        match (&self.detail, &self.selected) {
            (Some(detail), Some(root)) => if detail.root.same(root) {
                Some(&detail.data)
            } else {
                None
            },
            _ => None,
        }
    }

    /// Adds a command to the log.
    pub fn push_log(&mut self, record: CommandRecord)
        requires
            old(self)@.wf(),
        ensures
            final(self)@ == (StoreView { log: log_with(old(self)@.log, record@), ..old(self)@ }),
            final(self)@.wf(),
    {
        let ghost before = self.log@;
        if self.log.len() == LOG_CAPACITY {
            let oldest = self.log.pop_front();
            assert(record_views(self.log@) =~= record_views(before).drop_first());
        }
        let ghost kept = self.log@;
        self.log.push_back(record);
        assert(record_views(self.log@) =~= record_views(kept).push(record@));
    }

    /// Takes note of a command that ran: reads that worked aren't logged.
    pub fn note_command(&mut self, record: CommandRecord)
        requires
            old(self)@.wf(),
        ensures
            final(self)@ == (if logged(record@) {
                StoreView { log: log_with(old(self)@.log, record@), ..old(self)@ }
            } else {
                old(self)@
            }),
            final(self)@.wf(),
    {
        if record.kind != CmdKind::Read || record.error.is_some() {
            self.push_log(record);
        }
    }

    /// Whether to look for repos now; not while that goes on already.
    pub fn scan(&mut self) -> (r: bool)
        ensures
            r == !old(self)@.scanning,
            final(self)@ == (StoreView { scanning: true, ..old(self)@ }),
    {
        if self.scanning {
            return false;
        }
        self.scanning = true;
        true
    }

    /// Asks for a fresh summary of one repo; `Some` if it is to be computed now. Coalesces:
    /// at most one in flight per repo.
    pub fn refresh(&mut self, root: &FsPath) -> (r: Option<RepoLocation>)
        ensures
            final(self)@ == old(self)@.refresh_asked(root@),
            location_opt(r) == started_at(old(self)@.repos, root@),
    {
        let ix: usize = match self.index_of(root) {
            Some(ix) => ix,
            None => {
                return None;
            },
        };
        let ghost before = self.repos@;
        if self.repos[ix].busy.is_some() {
            // refreshed when the operation finishes
            assert(entry_views(before).update(ix as int, before[ix as int]@) =~= entry_views(before));
            return None;
        }
        if self.repos[ix].refreshing {
            self.repos[ix].refresh_again = true;
            assert(entry_views(self.repos@) =~= entry_views(before).update(
                ix as int,
                before[ix as int]@.asked(),
            ));
            return None;
        }
        self.repos[ix].refreshing = true;
        assert(entry_views(self.repos@) =~= entry_views(before).update(ix as int, before[ix as int]@.asked()));
        Some(self.repos[ix].location.clone())
    }

    /// Asks for fresh summaries of the repos at some paths.
    pub fn refresh_these(&mut self, roots: &Vec<FsPath>) -> (r: Vec<RepoLocation>)
        ensures
            final(self)@ == (StoreView {
                repos: asked_all(old(self)@.repos, path_views(roots@)),
                ..old(self)@
            }),
            crate::model::location_views(r@) == started_all(old(self)@.repos, path_views(roots@)),
    {
        let ghost all = path_views(roots@);
        let ghost repos = self@.repos;
        let mut jobs: Vec<RepoLocation> = Vec::new();
        let mut i: usize = 0;
        assert(all.take(0) =~= Seq::<Seq<u8>>::empty());
        assert(crate::model::location_views(jobs@) =~= Seq::<LocationView>::empty());
        assert(self@ =~= (StoreView { repos: asked_all(repos, all.take(0)), ..old(self)@ }));
        while i < roots.len()
            invariant
                i <= roots@.len(),
                all == path_views(roots@),
                repos == old(self)@.repos,
                self@ == (StoreView { repos: asked_all(repos, all.take(i as int)), ..old(self)@ }),
                crate::model::location_views(jobs@) == started_all(repos, all.take(i as int)),
            decreases roots@.len() - i,
        {
            let ghost next = all.take(i + 1);
            let ghost before = jobs@;
            assert(next.drop_last() =~= all.take(i as int));
            assert(next.last() == roots@[i as int]@);
            if let Some(location) = self.refresh(&roots[i]) {
                jobs.push(location);
                assert(crate::model::location_views(jobs@) =~= crate::model::location_views(before).push(
                    location@,
                ));
            }
            i = i + 1;
        }
        assert(all.take(all.len() as int) =~= all);
        jobs
    }

    /// The roots of all repos.
    fn roots(&self) -> (r: Vec<FsPath>)
        ensures
            path_views(r@) == roots_of(self@.repos),
    {
        let mut roots: Vec<FsPath> = Vec::new();
        let mut i: usize = 0;
        let ghost all = roots_of(self@.repos);
        assert(path_views(roots@) =~= all.take(0));
        while i < self.repos.len()
            invariant
                i <= self.repos@.len(),
                all == roots_of(self@.repos),
                path_views(roots@) == all.take(i as int),
            decreases self.repos@.len() - i,
        {
            let ghost before = roots@;
            let root = self.repos[i].location.root.clone();
            roots.push(root);
            assert(path_views(roots@) =~= path_views(before).push(root@));
            assert(all.take(i + 1) =~= all.take(i as int).push(all[i as int]));
            i = i + 1;
        }
        assert(all.take(all.len() as int) =~= all);
        roots
    }

    /// Asks for fresh summaries of every repo.
    pub fn refresh_all(&mut self) -> (r: Vec<RepoLocation>)
        ensures
            final(self)@ == (StoreView {
                repos: asked_all(old(self)@.repos, roots_of(old(self)@.repos)),
                ..old(self)@
            }),
            crate::model::location_views(r@) == started_all(old(self)@.repos, roots_of(old(self)@.repos)),
    {
        let roots = self.roots();
        self.refresh_these(&roots)
    }

    /// Takes a summary that was computed; `Some` if it is to be computed again, because it
    /// was asked for in the meantime.
    pub fn finish_refresh(&mut self, root: &FsPath, result: Result<RepoSummary, String>) -> (r: Option<
        RepoLocation,
    >)
        ensures
            ({
                let outcome = summary_result(result);
                match place_of(old(self)@.repos, root@) {
                    Some(i) => {
                        let entry = old(self)@.repos[i];
                        let answered = StoreView {
                            repos: old(self)@.repos.update(i, entry.answered(outcome)),
                            ..old(self)@
                        };
                        if entry.refresh_again {
                            &&& final(self)@ == answered.refresh_asked(root@)
                            &&& location_opt(r) == started_at(answered.repos, root@)
                        } else {
                            &&& final(self)@ == answered
                            &&& r is None
                        }
                    },
                    None => final(self)@ == old(self)@ && r is None,
                }
            }),
    {
        let ix: usize = match self.index_of(root) {
            Some(ix) => ix,
            None => {
                return None;
            },
        };
        let ghost before = self.repos@;
        let ghost outcome = summary_result(result);
        let again = self.repos[ix].refresh_again;
        self.repos[ix].refreshing = false;
        self.repos[ix].refresh_again = false;
        match result {
            Ok(summary) => {
                self.repos[ix].summary = Some(summary);
                self.repos[ix].error = None;
            },
            Err(error) => {
                self.repos[ix].error = Some(error);
            },
        }
        assert(entry_views(self.repos@) =~= entry_views(before).update(
            ix as int,
            before[ix as int]@.answered(outcome),
        ));
        if again {
            self.refresh(root)
        } else {
            None
        }
    }

    /// Asks to (re)load the selected repo's panels; `Some` if that is to be done now.
    /// Coalesces like [`Self::refresh`].
    pub fn load_detail(&mut self) -> (r: Option<DetailJob>)
        ensures
            final(self)@ == old(self)@.detail_asked(),
            job_opt(r) == old(self)@.detail_started(),
    {
        if self.selected.is_none() {
            return None;
        }
        if self.detail_loading {
            self.detail_again = true;
            return None;
        }
        let job = match self.selected_entry() {
            None => {
                return None;
            },
            Some(entry) => {
                if entry.error.is_some() {
                    return None;
                }
                let base = match &entry.summary {
                    Some(s) => match &s.default_branch {
                        Some(d) => Some(d.clone()),
                        None => None,
                    },
                    None => None,
                };
                let has_commits = match &entry.summary {
                    Some(s) => match s.head {
                        Head::Unborn(_) => false,
                        _ => true,
                    },
                    None => true,
                };
                DetailJob { location: entry.location.clone(), base, has_commits }
            },
        };
        self.detail_loading = true;
        Some(job)
    }

    /// Selects a repo, and asks for its panels.
    pub fn select(&mut self, root: Option<FsPath>) -> (r: Option<DetailJob>)
        ensures
            ({
                let moved = StoreView { selected: path_opt(root), ..old(self)@ };
                if same_path_opt(old(self)@.selected, path_opt(root)) {
                    final(self)@ == old(self)@ && r is None
                } else {
                    final(self)@ == moved.detail_asked() && job_opt(r) == moved.detail_started()
                }
            }),
    {
        if is_same_path(&self.selected, &root) {
            return None;
        }
        self.selected = root;
        self.load_detail()
    }
}

/// Whether a path is among some paths.
pub open spec fn among_paths(paths: Seq<Seq<u8>>, path: Seq<u8>) -> bool {
    exists|i: int| 0 <= i < paths.len() && same_path(#[trigger] paths[i], path)
}

/// Whether a path is among some paths.
pub fn has_path(paths: &Vec<FsPath>, path: &FsPath) -> (r: bool)
    ensures
        r == among_paths(path_views(paths@), path@),
{
    let ghost all = path_views(paths@);
    let mut i: usize = 0;
    while i < paths.len()
        invariant
            i <= paths@.len(),
            all == path_views(paths@),
            forall|j: int| 0 <= j < i ==> !same_path(#[trigger] all[j], path@),
        decreases paths@.len() - i,
    {
        assert(all[i as int] == paths@[i as int]@);
        if paths[i].same(path) {
            return true;
        }
        i = i + 1;
    }
    false
}

/// The panels of a repo, or why there are none.
pub open spec fn loaded(root: Seq<u8>, result: Result<RepoDetail, String>) -> LoadedView {
    match result {
        Ok(data) => LoadedView { root, data: data@, error: None },
        Err(error) => LoadedView { root, data: crate::detail::no_detail(), error: Some(error@) },
    }
}

impl StoreView {
    /// The store once the panels of the repo at `root` are loaded, before they are asked for
    /// again.
    pub open spec fn detail_loaded(self, root: Seq<u8>, result: Result<RepoDetail, String>) -> StoreView {
        StoreView {
            detail: Some(loaded(root, result)),
            detail_generation: next_count(self.detail_generation),
            detail_loading: false,
            detail_again: false,
            ..self
        }
    }

    /// Whether the panels are asked for again once those of the repo at `root` are loaded:
    /// something changed in the meantime, or another repo is selected.
    pub open spec fn detail_stale(self, root: Seq<u8>) -> bool {
        self.detail_again || !same_path_opt(self.selected, Some(root))
    }

    /// The store and the work for a change that the watcher saw.
    pub open spec fn watched(self, event: WatchEvent) -> (StoreView, WorkView) {
        match event {
            WatchEvent::Rescan => (
                StoreView { scanning: true, ..self },
                WorkView { refresh: Seq::empty(), detail: None, scan: !self.scanning },
            ),
            WatchEvent::Changed(roots) => {
                let refreshed = StoreView { repos: asked_all(self.repos, path_views(roots@)), ..self };
                let refresh = started_all(self.repos, path_views(roots@));
                if self.selected is Some && among_paths(path_views(roots@), self.selected->0) {
                    (
                        refreshed.detail_asked(),
                        WorkView { refresh, detail: refreshed.detail_started(), scan: false },
                    )
                } else {
                    (refreshed, WorkView { refresh, detail: None, scan: false })
                }
            },
        }
    }

    /// The store with an operation marked as running on the repo at `root`.
    pub open spec fn busy_at(self, root: Seq<u8>, label: Seq<char>) -> StoreView {
        match place_of(self.repos, root) {
            Some(i) => StoreView {
                repos: self.repos.update(i, EntryView { busy: Some(label), ..self.repos[i] }),
                ..self
            },
            None => self,
        }
    }

    /// The store with no operation marked as running on the repo at `root`.
    pub open spec fn idle_at(self, root: Seq<u8>) -> StoreView {
        match place_of(self.repos, root) {
            Some(i) => StoreView {
                repos: self.repos.update(i, EntryView { busy: None, ..self.repos[i] }),
                ..self
            },
            None => self,
        }
    }

    /// The store and the work once an operation on the repo at `root` finished: its summary
    /// and, if it is selected, its panels are out of date.
    pub open spec fn op_finished(self, root: Seq<u8>) -> (StoreView, WorkView) {
        let idle = self.idle_at(root);
        let asked = idle.refresh_asked(root);
        let refresh = match started_at(idle.repos, root) {
            Some(location) => seq![location],
            None => Seq::empty(),
        };
        if same_path_opt(self.selected, Some(root)) {
            (asked.detail_asked(), WorkView { refresh, detail: asked.detail_started(), scan: false })
        } else {
            (asked, WorkView { refresh, detail: None, scan: false })
        }
    }

    /// The store with the outcome of a fetch noted on the repo at `root`.
    pub open spec fn fetched_at(self, root: Seq<u8>, error: Option<Seq<char>>) -> StoreView {
        match place_of(self.repos, root) {
            Some(i) => StoreView {
                repos: self.repos.update(i, EntryView { fetch_error: error, ..self.repos[i] }),
                ..self
            },
            None => self,
        }
    }

    /// The store with operations marked as running on the repos at some paths.
    pub open spec fn busy_all(self, roots: Seq<Seq<u8>>, label: Seq<char>) -> StoreView
        decreases roots.len(),
    {
        if roots.len() == 0 {
            self
        } else {
            self.busy_all(roots.drop_last(), label).busy_at(roots.last(), label)
        }
    }
}

/// Why an operation can't run on a repo that isn't there.
pub open spec fn gone_error(root: Seq<u8>, label: Seq<char>) -> ErrorView {
    ErrorView::Failed {
        command: label,
        code: None,
        stderr: lossy_text(root) + " is no longer in the workdir"@,
        stdout: Seq::empty(),
    }
}

impl EntryView {
    /// Whether a repo can be fetched now: it is idle, can be read and has a remote.
    pub open spec fn fetchable(self) -> bool {
        &&& self.busy is None
        &&& self.error is None
        &&& self.summary is Some
        &&& self.summary->0.remotes.len() > 0
    }
}

/// Whether a shared git dir is that of one of some repos.
pub open spec fn shares_dir(targets: Seq<LocationView>, dir: Seq<u8>) -> bool {
    exists|i: int| 0 <= i < targets.len() && same_path((#[trigger] targets[i]).common_dir, dir)
}

/// Those of the repos at `roots` to fetch: once per shared git dir.
pub open spec fn fetch_targets(repos: Seq<EntryView>, roots: Seq<Seq<u8>>) -> Seq<LocationView>
    decreases roots.len(),
{
    if roots.len() == 0 {
        Seq::empty()
    } else {
        let before = fetch_targets(repos, roots.drop_last());
        match place_of(repos, roots.last()) {
            Some(i) => if repos[i].fetchable() && !shares_dir(before, repos[i].location.common_dir) {
                before.push(repos[i].location)
            } else {
                before
            },
            None => before,
        }
    }
}

/// The roots of some locations.
pub open spec fn location_roots(locations: Seq<LocationView>) -> Seq<Seq<u8>> {
    locations.map_values(|l: LocationView| l.root)
}

/// How many fetches a round has.
pub open spec fn round_total(round: Option<(usize, usize)>) -> int {
    match round {
        Some((done, total)) => total as int,
        None => 0,
    }
}

/// How many fetches of a round are done.
pub open spec fn round_done(round: Option<(usize, usize)>) -> int {
    match round {
        Some((done, total)) => done as int,
        None => 0,
    }
}

/// A round once one more of its fetches is done.
pub open spec fn round_next(round: Option<(usize, usize)>) -> Option<(usize, usize)> {
    match round {
        Some((done, total)) => if done + 1 >= total {
            None
        } else {
            Some(((done + 1) as usize, total))
        },
        None => None,
    }
}

impl StoreView {
    /// The store once the repos at `roots` are being fetched: they join the round.
    pub open spec fn fetching(self, roots: Seq<Seq<u8>>) -> StoreView {
        let targets = fetch_targets(self.repos, roots);
        if targets.len() == 0 {
            self
        } else {
            let round = StoreView {
                fetch_round: Some(
                    (
                        round_done(self.fetch_round) as usize,
                        (round_total(self.fetch_round) + targets.len()) as usize,
                    ),
                ),
                ..self
            };
            round.busy_all(location_roots(targets), "Fetching"@)
        }
    }
}

impl RepoStore {
    /// Takes panels that were loaded; `Some` if panels are to be loaded again.
    pub fn finish_detail(&mut self, root: &FsPath, result: Result<RepoDetail, String>) -> (r: Option<
        DetailJob,
    >)
        ensures
            ({
                let next = old(self)@.detail_loaded(root@, result);
                if old(self)@.detail_stale(root@) {
                    final(self)@ == next.detail_asked() && job_opt(r) == next.detail_started()
                } else {
                    final(self)@ == next && r is None
                }
            }),
    {
        self.detail_loading = false;
        let again = self.detail_again;
        self.detail_again = false;
        let detail = match result {
            Ok(data) => Detail { root: root.clone(), data, error: None },
            Err(error) => Detail { root: root.clone(), data: RepoDetail::default(), error: Some(error) },
        };
        self.detail = Some(detail);
        self.detail_generation = count_up(self.detail_generation);
        let selected = match &self.selected {
            Some(s) => s.same(root),
            None => false,
        };
        if again || !selected {
            self.load_detail()
        } else {
            None
        }
    }

    /// What to do about a change that the watcher saw.
    pub fn on_watch_event(&mut self, event: &WatchEvent) -> (r: Work)
        ensures
            (final(self)@, r@) == old(self)@.watched(*event),
    {
        match event {
            WatchEvent::Rescan => {
                let scan = self.scan();
                let work = Work { refresh: Vec::new(), detail: None, scan };
                assert(work@.refresh =~= Seq::<LocationView>::empty());
                work
            },
            WatchEvent::Changed(roots) => {
                let refresh = self.refresh_these(roots);
                let selected = match &self.selected {
                    Some(s) => has_path(roots, s),
                    None => false,
                };
                let detail = if selected {
                    self.load_detail()
                } else {
                    None
                };
                Work { refresh, detail, scan: false }
            },
        }
    }

    /// Marks a repo busy with an operation, and says where it is to run; an error if the
    /// repo is gone.
    pub fn run_op(&mut self, root: &FsPath, label: &str) -> (r: Result<RepoLocation, GitError>)
        ensures
            final(self)@ == old(self)@.busy_at(root@, label@),
            match old(self)@.entry(root@) {
                Some(entry) => r matches Ok(l) && l@ == entry.location,
                None => r matches Err(e) && e@ == gone_error(root@, label@),
            },
    {
        match self.index_of(root) {
            Some(ix) => {
                let ghost before = self.repos@;
                self.repos[ix].busy = Some(label.to_owned());
                assert(entry_views(self.repos@) =~= entry_views(before).update(
                    ix as int,
                    EntryView { busy: Some(label@), ..before[ix as int]@ },
                ));
                Ok(self.repos[ix].location.clone())
            },
            None => {
                let shown = text_lossy(root.bytes.as_slice());
                let empty = String::new();
                assert(empty@ =~= Seq::<char>::empty());
                Err(
                    GitError::Failed {
                        command: label.to_owned(),
                        code: None,
                        stderr: cat2(shown.as_str(), " is no longer in the workdir"),
                        stdout: empty,
                    },
                )
            },
        }
    }

    /// What to do once an operation on a repo finished.
    pub fn finish_op(&mut self, root: &FsPath) -> (r: Work)
        ensures
            (final(self)@, r@) == old(self)@.op_finished(root@),
    {
        if let Some(ix) = self.index_of(root) {
            let ghost before = self.repos@;
            self.repos[ix].busy = None;
            assert(entry_views(self.repos@) =~= entry_views(before).update(
                ix as int,
                EntryView { busy: None, ..before[ix as int]@ },
            ));
        }
        assert(self@ =~= old(self)@.idle_at(root@));
        let mut refresh: Vec<RepoLocation> = Vec::new();
        if let Some(location) = self.refresh(root) {
            refresh.push(location);
        }
        let selected = match &self.selected {
            Some(s) => s.same(root),
            None => false,
        };
        let detail = if selected {
            self.load_detail()
        } else {
            None
        };
        let work = Work { refresh, detail, scan: false };
        assert(work@.refresh =~= old(self)@.op_finished(root@).1.refresh);
        work
    }

    /// Marks a repo as being fetched, and says where; an error if it is gone.
    pub fn fetch(&mut self, root: &FsPath) -> (r: Result<RepoLocation, GitError>)
        ensures
            final(self)@ == old(self)@.busy_at(root@, "Fetching"@),
            match old(self)@.entry(root@) {
                Some(entry) => r matches Ok(l) && l@ == entry.location,
                None => r matches Err(e) && e@ == gone_error(root@, "Fetching"@),
            },
    {
        self.run_op(root, "Fetching")
    }

    /// What to do once a fetch finished, with its error if it failed.
    pub fn finish_fetch(&mut self, root: &FsPath, error: Option<String>) -> (r: Work)
        ensures
            ({
                let (next, work) = old(self)@.op_finished(root@);
                final(self)@ == next.fetched_at(root@, text_opt(error)) && r@ == work
            }),
    {
        let work = self.finish_op(root);
        if let Some(ix) = self.index_of(root) {
            let ghost before = self.repos@;
            let ghost e = text_opt(error);
            self.repos[ix].fetch_error = error;
            assert(entry_views(self.repos@) =~= entry_views(before).update(
                ix as int,
                EntryView { fetch_error: e, ..before[ix as int]@ },
            ));
        }
        work
    }

    /// Those of the repos at `roots` to fetch.
    fn targets_to_fetch(&self, roots: &Vec<FsPath>) -> (r: Vec<RepoLocation>)
        ensures
            crate::model::location_views(r@) == fetch_targets(self@.repos, path_views(roots@)),
            r@.len() <= roots@.len(),
    {
        let ghost all = path_views(roots@);
        let mut targets: Vec<RepoLocation> = Vec::new();
        let mut i: usize = 0;
        assert(all.take(0) =~= Seq::<Seq<u8>>::empty());
        assert(crate::model::location_views(targets@) =~= Seq::<LocationView>::empty());
        while i < roots.len()
            invariant
                i <= roots@.len(),
                targets@.len() <= i,
                all == path_views(roots@),
                crate::model::location_views(targets@) == fetch_targets(self@.repos, all.take(i as int)),
            decreases roots@.len() - i,
        {
            let ghost next = all.take(i + 1);
            let ghost before = targets@;
            assert(next.drop_last() =~= all.take(i as int));
            assert(next.last() == roots@[i as int]@);
            if let Some(entry) = self.entry(&roots[i]) {
                let has_remote = match &entry.summary {
                    Some(s) => s.has_remote(),
                    None => false,
                };
                if entry.busy.is_none() && entry.error.is_none() && has_remote && !has_common_dir(
                    &targets,
                    &entry.location.common_dir,
                ) {
                    let location = entry.location.clone();
                    targets.push(location);
                    assert(crate::model::location_views(targets@) =~= crate::model::location_views(before).push(
                        location@,
                    ));
                }
            }
            i = i + 1;
        }
        assert(all.take(all.len() as int) =~= all);
        targets
    }

    /// Starts to fetch the given repos that have a remote, once per shared git dir. Joins
    /// the running round, if any, so the bottom bar counts them all. Returns where to fetch.
    pub fn fetch_many(&mut self, roots: &Vec<FsPath>) -> (r: Vec<RepoLocation>)
        requires
            old(self)@.wf(),
            round_total(old(self)@.fetch_round) + roots@.len() <= usize::MAX,
        ensures
            final(self)@ == old(self)@.fetching(path_views(roots@)),
            crate::model::location_views(r@) == fetch_targets(old(self)@.repos, path_views(roots@)),
            final(self)@.wf(),
    {
        let targets = self.targets_to_fetch(roots);
        let ghost views = crate::model::location_views(targets@);
        if targets.len() == 0 {
            return targets;
        }
        let (done, total): (usize, usize) = match self.fetch_round {
            Some((done, total)) => (done, total),
            None => (0, 0),
        };
        self.fetch_round = Some((done, total + targets.len()));
        let ghost round = self@;
        let ghost all = location_roots(views);
        let mut i: usize = 0;
        assert(all.take(0) =~= Seq::<Seq<u8>>::empty());
        while i < targets.len()
            invariant
                i <= targets@.len(),
                views == crate::model::location_views(targets@),
                all == location_roots(views),
                self@ == round.busy_all(all.take(i as int), "Fetching"@),
            decreases targets@.len() - i,
        {
            let ghost next = all.take(i + 1);
            assert(next.drop_last() =~= all.take(i as int));
            assert(next.last() == targets@[i as int]@.root);
            let started = self.fetch(&targets[i].root);
            i = i + 1;
        }
        assert(all.take(all.len() as int) =~= all);
        proof {
            lemma_busy_all_keeps(round, all, "Fetching"@);
        }
        targets
    }

    /// Starts to fetch every repo, if repos are to be fetched in the background. Returns where
    /// to fetch.
    pub fn auto_fetch(&mut self) -> (r: Vec<RepoLocation>)
        requires
            old(self)@.wf(),
        ensures
            if old(self)@.config.auto_fetch && old(self)@.fetch_round is None {
                final(self)@ == old(self)@.fetching(roots_of(old(self)@.repos)) && crate::model::location_views(r@)
                    == fetch_targets(old(self)@.repos, roots_of(old(self)@.repos))
            } else {
                final(self)@ == old(self)@ && r@.len() == 0
            },
            final(self)@.wf(),
    {
        if self.config.auto_fetch {
            self.fetch_all()
        } else {
            Vec::new()
        }
    }

    /// Starts to fetch every repo with a remote, once per shared git dir, unless a round is
    /// running. Returns where to fetch.
    pub fn fetch_all(&mut self) -> (r: Vec<RepoLocation>)
        requires
            old(self)@.wf(),
        ensures
            match old(self)@.fetch_round {
                Some(_) => final(self)@ == old(self)@ && r@.len() == 0,
                None => final(self)@ == old(self)@.fetching(roots_of(old(self)@.repos))
                    && crate::model::location_views(r@) == fetch_targets(
                    old(self)@.repos,
                    roots_of(old(self)@.repos),
                ),
            },
            final(self)@.wf(),
    {
        if self.fetch_round.is_some() {
            return Vec::new();
        }
        let roots = self.roots();
        assert(roots@.len() == roots.len());
        self.fetch_many(&roots)
    }

    /// Counts a fetch of the running round as done.
    pub fn finish_round_fetch(&mut self)
        requires
            old(self)@.wf(),
        ensures
            final(self)@ == (StoreView { fetch_round: round_next(old(self)@.fetch_round), ..old(self)@ }),
            final(self)@.wf(),
    {
        if let Some((done, total)) = self.fetch_round {
            let next: usize = done + 1;
            self.fetch_round = if next >= total {
                None
            } else {
                Some((next, total))
            };
        }
    }
}

/// Whether a shared git dir is that of one of some repos.
fn has_common_dir(targets: &Vec<RepoLocation>, dir: &FsPath) -> (r: bool)
    ensures
        r == shares_dir(crate::model::location_views(targets@), dir@),
{
    let ghost all = crate::model::location_views(targets@);
    let mut i: usize = 0;
    while i < targets.len()
        invariant
            i <= targets@.len(),
            all == crate::model::location_views(targets@),
            forall|j: int| 0 <= j < i ==> !same_path((#[trigger] all[j]).common_dir, dir@),
        decreases targets@.len() - i,
    {
        assert(all[i as int] == targets@[i as int]@);
        if targets[i].common_dir.same(dir) {
            return true;
        }
        i = i + 1;
    }
    false
}

/// Marking repos busy changes nothing else.
proof fn lemma_busy_all_keeps(s: StoreView, roots: Seq<Seq<u8>>, label: Seq<char>)
    ensures
        s.busy_all(roots, label).log == s.log,
        s.busy_all(roots, label).fetch_round == s.fetch_round,
        s.busy_all(roots, label).repos.len() == s.repos.len(),
    decreases roots.len(),
{
    if roots.len() > 0 {
        lemma_busy_all_keeps(s, roots.drop_last(), label);
        lemma_place(s.busy_all(roots.drop_last(), label).repos, roots.last());
    }
}

/// A directory that was found, and where its repo is or why it can't be read.
#[derive(Debug, PartialEq, Eq)]
pub struct Found {
    pub candidate: Candidate,
    pub resolved: Result<RepoLocation, String>,
}

#[verifier::ext_equal]
pub ghost struct FoundView {
    pub root: Seq<u8>,
    pub bare: bool,
    pub resolved: Result<LocationView, Seq<char>>,
}

impl View for Found {
    type V = FoundView;

    open spec fn view(&self) -> FoundView {
        FoundView {
            root: self.candidate.root@,
            bare: self.candidate.bare,
            resolved: match self.resolved {
                Ok(location) => Ok(location@),
                Err(error) => Err(error@),
            },
        }
    }
}

/// The views of what was found.
pub open spec fn found_views(found: Seq<Found>) -> Seq<FoundView> {
    found.map_values(|f: Found| f@)
}

impl FoundView {
    /// Where the repo is; a guess if it can't be read.
    pub open spec fn location(self, workdir: Seq<u8>) -> LocationView {
        match self.resolved {
            Ok(location) => location,
            Err(_) => LocationView {
                root: self.root,
                name: name_of(workdir, self.root),
                git_dir: join_path(self.root, utf8(".git")),
                common_dir: join_path(self.root, utf8(".git")),
                bare: self.bare,
            },
        }
    }

    /// Why the repo can't be read.
    pub open spec fn error(self) -> Option<Seq<char>> {
        match self.resolved {
            Ok(_) => None,
            Err(error) => Some(error),
        }
    }
}

/// A list without the item at `i`, in whose place the last one goes.
pub open spec fn swap_removed<T>(list: Seq<T>, i: int) -> Seq<T> {
    list.update(i, list.last()).drop_last()
}

/// The known repos that weren't found yet, and the repos found so far.
pub open spec fn scanned(workdir: Seq<u8>, known: Seq<EntryView>, found: Seq<FoundView>) -> (
    Seq<EntryView>,
    Seq<EntryView>,
)
    decreases found.len(),
{
    if found.len() == 0 {
        (known, Seq::empty())
    } else {
        let (left, repos) = scanned(workdir, known, found.drop_last());
        let location = found.last().location(workdir);
        let error = found.last().error();
        match place_of(left, location.root) {
            Some(i) => (
                swap_removed(left, i),
                repos.push(EntryView { location, error, ..left[i] }),
            ),
            None => (left, repos.push(EntryView { error, ..new_entry(location) })),
        }
    }
}

/// Where a name goes in a list of repos in order of their names: after those with the same.
pub open spec fn name_slot(repos: Seq<EntryView>, name: Seq<char>) -> int
    decreases repos.len(),
{
    if repos.len() == 0 {
        0
    } else if comes_before(name, repos.last().location.name) {
        name_slot(repos.drop_last(), name)
    } else {
        repos.len() as int
    }
}

/// Repos in order of their names; those with the same name stay in the order they had.
pub open spec fn by_name(repos: Seq<EntryView>) -> Seq<EntryView>
    decreases repos.len(),
{
    if repos.len() == 0 {
        Seq::empty()
    } else {
        let sorted = by_name(repos.drop_last());
        sorted.insert(name_slot(sorted, repos.last().location.name), repos.last())
    }
}

/// The locations of the repos that can be read.
pub open spec fn readable(repos: Seq<EntryView>) -> Seq<LocationView>
    decreases repos.len(),
{
    if repos.len() == 0 {
        Seq::empty()
    } else if repos.last().error is None {
        readable(repos.drop_last()).push(repos.last().location)
    } else {
        readable(repos.drop_last())
    }
}

proof fn lemma_name_slot(repos: Seq<EntryView>, name: Seq<char>)
    ensures
        0 <= name_slot(repos, name) <= repos.len(),
        forall|i: int|
            name_slot(repos, name) <= i < repos.len() ==> comes_before(
                name,
                (#[trigger] repos[i]).location.name,
            ),
        name_slot(repos, name) > 0 ==> !comes_before(
            name,
            repos[name_slot(repos, name) - 1].location.name,
        ),
    decreases repos.len(),
{
    if repos.len() > 0 && comes_before(name, repos.last().location.name) {
        let front = repos.drop_last();
        lemma_name_slot(front, name);
        assert forall|i: int| name_slot(repos, name) <= i < repos.len() implies comes_before(
            name,
            (#[trigger] repos[i]).location.name,
        ) by {
            if i < front.len() {
                assert(front[i] == repos[i]);
            }
        }
    }
}

/// Whether repos are in order of their names.
pub open spec fn in_name_order(repos: Seq<EntryView>) -> bool {
    forall|i: int, j: int|
        0 <= i < j < repos.len() ==> !comes_before(
            (#[trigger] repos[j]).location.name,
            (#[trigger] repos[i]).location.name,
        )
}

/// After a scan the repos are in order of their names, and none is lost or added by that.
pub proof fn law_repos_are_in_name_order(repos: Seq<EntryView>)
    ensures
        in_name_order(by_name(repos)),
        by_name(repos).to_multiset() == repos.to_multiset(),
        by_name(repos).len() == repos.len(),
    decreases repos.len(),
{
    broadcast use vstd::seq_lib::group_to_multiset_ensures;

    if repos.len() == 0 {
        assert(by_name(repos) =~= repos);
    } else {
        let front = repos.drop_last();
        let last = repos.last();
        let name = last.location.name;
        law_repos_are_in_name_order(front);
        let sorted = by_name(front);
        let slot = name_slot(sorted, name);
        lemma_name_slot(sorted, name);
        let all = sorted.insert(slot, last);
        assert forall|i: int, j: int| 0 <= i < j < all.len() implies !comes_before(
            (#[trigger] all[j]).location.name,
            (#[trigger] all[i]).location.name,
        ) by {
            if i < slot && j == slot {
                let edge = sorted[slot - 1].location.name;
                if i < slot - 1 {
                    assert(!comes_before(sorted[slot - 1].location.name, sorted[i].location.name));
                }
                law_texts_are_ordered(sorted[i].location.name, edge, name);
                law_texts_are_ordered(edge, edge, name);
            } else if i == slot {
                let other = sorted[j - 1].location.name;
                assert(comes_before(name, other));
                law_texts_are_ordered(name, other, name);
            } else if i < slot && j < slot {
                assert(!comes_before(sorted[j].location.name, sorted[i].location.name));
            } else if i < slot {
                assert(!comes_before(sorted[j - 1].location.name, sorted[i].location.name));
            } else {
                assert(!comes_before(sorted[j - 1].location.name, sorted[i - 1].location.name));
            }
        }
        vstd::seq_lib::to_multiset_insert(sorted, slot, last);
        assert(repos =~= front.push(last));
    }
}

/// Inserts a repo where its name goes.
fn insert_by_name(repos: &mut Vec<RepoEntry>, entry: RepoEntry)
    ensures
        entry_views(final(repos)@) == entry_views(old(repos)@).insert(
            name_slot(entry_views(old(repos)@), entry@.location.name),
            entry@,
        ),
{
    let ghost all = entry_views(repos@);
    let ghost name = entry@.location.name;
    let mut i: usize = repos.len();
    assert(all.take(all.len() as int) =~= all);
    while i > 0 && is_before(entry.name(), repos[i - 1].name())
        invariant
            i <= repos@.len(),
            *repos == *old(repos),
            all == entry_views(repos@),
            name == entry@.location.name,
            name_slot(all, name) == name_slot(all.take(i as int), name),
        decreases i,
    {
        assert(all.take(i as int).drop_last() =~= all.take(i - 1));
        assert(all.take(i as int).last() == repos@[i - 1]@);
        i = i - 1;
    }
    proof {
        if i > 0 {
            assert(all.take(i as int).last() == repos@[i - 1]@);
        }
        assert(name_slot(all.take(i as int), name) == i);
    }
    let ghost before = repos@;
    repos.insert(i, entry);
    assert(entry_views(repos@) =~= entry_views(before).insert(i as int, entry@));
}

/// What a scan calls for: repos to watch, and summaries to compute.
#[derive(Debug, PartialEq, Eq)]
pub struct Scanned {
    pub watch: Vec<RepoLocation>,
    pub refresh: Vec<RepoLocation>,
}

impl StoreView {
    /// The repos after a scan, before their summaries are asked for.
    pub open spec fn scanned_repos(self, found: Seq<FoundView>) -> Seq<EntryView> {
        by_name(scanned(self.workdir, self.repos, found).1)
    }
}

/// Where a repo that was found is.
fn found_location(workdir: &FsPath, found: &Found) -> (r: RepoLocation)
    ensures
        r@ == found@.location(workdir@),
{
    match &found.resolved {
        Ok(location) => location.clone(),
        Err(_) => RepoLocation {
            name: display_name(workdir, &found.candidate.root),
            git_dir: found.candidate.root.child(".git"),
            common_dir: found.candidate.root.child(".git"),
            root: found.candidate.root.clone(),
            bare: found.candidate.bare,
        },
    }
}

impl RepoStore {
    /// The entry of a repo that was found: the known one, if there is one.
    fn take_known(known: &mut Vec<RepoEntry>, workdir: &FsPath, found: &Found) -> (r: RepoEntry)
        ensures
            ({
                let location = found@.location(workdir@);
                let left = entry_views(old(known)@);
                match place_of(left, location.root) {
                    Some(i) => {
                        &&& entry_views(final(known)@) == swap_removed(left, i)
                        &&& r@ == (EntryView { location, error: found@.error(), ..left[i] })
                    },
                    None => {
                        &&& entry_views(final(known)@) == left
                        &&& r@ == (EntryView { error: found@.error(), ..new_entry(location) })
                    },
                }
            }),
    {
        let location = found_location(workdir, found);
        let ghost left = known@;
        let mut entry = match find_place(known, &location.root) {
            Some(ix) => {
                let entry = known.swap_remove(ix);
                assert(entry_views(known@) =~= swap_removed(entry_views(left), ix as int));
                entry
            },
            None => RepoEntry::new(location.clone()),
        };
        entry.location = location;
        entry.error = match &found.resolved {
            Ok(_) => None,
            Err(error) => Some(error.clone()),
        };
        entry
    }

    /// Takes the repos that a scan found, keeping known state for existing ones.
    pub fn apply_scan(&mut self, found: &Vec<Found>) -> (r: Scanned)
        ensures
            ({
                let repos = old(self)@.scanned_repos(found_views(found@));
                &&& final(self)@ == (StoreView {
                    scanning: false,
                    repos: asked_all(repos, roots_of(repos)),
                    ..old(self)@
                })
                &&& crate::model::location_views(r.watch@) == readable(repos)
                &&& crate::model::location_views(r.refresh@) == started_all(repos, roots_of(repos))
            }),
    {
        self.scanning = false;
        let mut known: Vec<RepoEntry> = Vec::new();
        std::mem::swap(&mut known, &mut self.repos);
        let ghost start = entry_views(known@);
        let ghost workdir = self.workdir@;
        let ghost all = found_views(found@);
        let mut i: usize = 0;
        assert(all.take(0) =~= Seq::<FoundView>::empty());
        assert(entry_views(self.repos@) =~= by_name(Seq::empty()));
        while i < found.len()
            invariant
                i <= found@.len(),
                all == found_views(found@),
                workdir == self.workdir@,
                entry_views(known@) == scanned(workdir, start, all.take(i as int)).0,
                entry_views(self.repos@) == by_name(scanned(workdir, start, all.take(i as int)).1),
                self@ == (StoreView { scanning: false, repos: entry_views(self.repos@), ..old(self)@ }),
            decreases found@.len() - i,
        {
            let ghost next = all.take(i + 1);
            assert(next.drop_last() =~= all.take(i as int));
            assert(next.last() == found@[i as int]@);
            let ghost before = scanned(workdir, start, all.take(i as int)).1;
            let entry = RepoStore::take_known(&mut known, &self.workdir, &found[i]);
            proof {
                let after = scanned(workdir, start, next).1;
                assert(after =~= before.push(entry@));
                assert(after.drop_last() =~= before);
            }
            insert_by_name(&mut self.repos, entry);
            i = i + 1;
        }
        assert(all.take(all.len() as int) =~= all);
        let watch = self.readable_locations();
        let refresh = self.refresh_all();
        Scanned { watch, refresh }
    }

    /// The locations of the repos that can be read.
    fn readable_locations(&self) -> (r: Vec<RepoLocation>)
        ensures
            crate::model::location_views(r@) == readable(self@.repos),
    {
        let ghost all = self@.repos;
        let mut out: Vec<RepoLocation> = Vec::new();
        let mut i: usize = 0;
        assert(all.take(0) =~= Seq::<EntryView>::empty());
        assert(crate::model::location_views(out@) =~= Seq::<LocationView>::empty());
        while i < self.repos.len()
            invariant
                i <= self.repos@.len(),
                all == self@.repos,
                crate::model::location_views(out@) == readable(all.take(i as int)),
            decreases self.repos@.len() - i,
        {
            let ghost next = all.take(i + 1);
            let ghost before = out@;
            assert(next.drop_last() =~= all.take(i as int));
            assert(next.last() == self.repos@[i as int]@);
            if self.repos[i].error.is_none() {
                let location = self.repos[i].location.clone();
                out.push(location);
                assert(crate::model::location_views(out@) =~= crate::model::location_views(before).push(
                    location@,
                ));
            }
            i = i + 1;
        }
        assert(all.take(all.len() as int) =~= all);
        out
    }
}

/// The place of a repo depends on the repos' roots alone.
pub proof fn lemma_place_by_roots(a: Seq<EntryView>, b: Seq<EntryView>, root: Seq<u8>)
    requires
        roots_of(a) == roots_of(b),
    ensures
        place_of(a, root) == place_of(b, root),
    decreases a.len(),
{
    assert(roots_of(a).len() == a.len());
    assert(roots_of(b).len() == b.len());
    if a.len() > 0 {
        assert(roots_of(a.drop_last()) =~= roots_of(a).drop_last());
        assert(roots_of(b.drop_last()) =~= roots_of(b).drop_last());
        lemma_place_by_roots(a.drop_last(), b.drop_last(), root);
        assert(roots_of(a).last() == a.last().location.root);
        assert(roots_of(b).last() == b.last().location.root);
    }
}

/// At most one summary of a repo is computed at a time, and a request made meanwhile isn't
/// lost: it is noted, and asked again once the summary is there.
pub proof fn law_one_summary_at_a_time(e: EntryView, result: Result<SummaryView, Seq<char>>)
    ensures
        e.starts() ==> e.asked().refreshing && !e.asked().starts(),
        e.refreshing && e.busy is None ==> !e.starts() && e.asked().refresh_again,
        !e.answered(result).refreshing,
        e.busy is None ==> e.answered(result).starts(),
{
}

/// No summary starts while an operation runs on the repo; once it finishes a fresh one is
/// due: it starts, or is noted if an older one is still being computed.
pub proof fn law_operations_end_with_a_fresh_summary(s: StoreView, root: Seq<u8>, label: Seq<char>)
    requires
        place_of(s.repos, root) is Some,
    ensures
        started_at(s.busy_at(root, label).repos, root) is None,
        ({
            let i = place_of(s.repos, root)->0;
            let (next, work) = s.op_finished(root);
            &&& next.repos[i].busy is None
            &&& next.repos[i].refreshing
            &&& if s.repos[i].refreshing {
                next.repos[i].refresh_again
            } else {
                work.refresh == seq![s.repos[i].location]
            }
        }),
{
    lemma_place(s.repos, root);
    let busy = s.busy_at(root, label);
    let idle = s.idle_at(root);
    assert(roots_of(busy.repos) =~= roots_of(s.repos));
    assert(roots_of(idle.repos) =~= roots_of(s.repos));
    lemma_place_by_roots(busy.repos, s.repos, root);
    lemma_place_by_roots(idle.repos, s.repos, root);
}

/// The log keeps the latest commands, and never more than its capacity.
pub proof fn law_log_keeps_the_latest(log: Seq<RecordView>, record: RecordView)
    requires
        log.len() <= LOG_CAPACITY,
    ensures
        log_with(log, record).len() <= LOG_CAPACITY,
        log_with(log, record).last() == record,
        log.len() < LOG_CAPACITY ==> log_with(log, record).drop_last() == log,
{
    if log.len() < LOG_CAPACITY {
        assert(log_with(log, record).drop_last() =~= log);
    }
}

/// Whether a repo that can be fetched is at a location.
pub open spec fn has_fetchable(repos: Seq<EntryView>, location: LocationView) -> bool {
    exists|k: int|
        0 <= k < repos.len() && (#[trigger] repos[k]).fetchable() && repos[k].location == location
}

/// Repos that share a git dir are fetched once, and only repos that can be fetched are.
pub proof fn law_each_git_dir_is_fetched_once(repos: Seq<EntryView>, roots: Seq<Seq<u8>>)
    ensures
        forall|i: int, j: int|
            0 <= i < j < fetch_targets(repos, roots).len() ==> !same_path(
                (#[trigger] fetch_targets(repos, roots)[i]).common_dir,
                (#[trigger] fetch_targets(repos, roots)[j]).common_dir,
            ),
        forall|i: int|
            0 <= i < fetch_targets(repos, roots).len() ==> has_fetchable(
                repos,
                #[trigger] fetch_targets(repos, roots)[i],
            ),
    decreases roots.len(),
{
    if roots.len() > 0 {
        let before = fetch_targets(repos, roots.drop_last());
        let all = fetch_targets(repos, roots);
        law_each_git_dir_is_fetched_once(repos, roots.drop_last());
        lemma_place(repos, roots.last());
        if all.len() > before.len() {
            let k = place_of(repos, roots.last())->0;
            assert forall|i: int, j: int| 0 <= i < j < all.len() implies !same_path(
                (#[trigger] all[i]).common_dir,
                (#[trigger] all[j]).common_dir,
            ) by {
                assert(all[i] == before[i]);
                if j < before.len() {
                    assert(all[j] == before[j]);
                } else {
                    assert(!same_path(before[i].common_dir, repos[k].location.common_dir));
                }
            }
            assert forall|i: int| 0 <= i < all.len() implies has_fetchable(repos, #[trigger] all[i]) by {
                if i < before.len() {
                    assert(all[i] == before[i]);
                } else {
                    assert(repos[k].fetchable() && repos[k].location == all[i]);
                }
            }
        }
    }
}

/// A round after some more of its fetches are done.
pub open spec fn round_after(round: Option<(usize, usize)>, n: nat) -> Option<(usize, usize)>
    decreases n,
{
    if n == 0 {
        round
    } else {
        round_after(round_next(round), (n - 1) as nat)
    }
}

/// A round of fetches ends with the last of them, and not before.
pub proof fn law_round_ends_with_the_last_fetch(done: usize, total: usize, n: nat)
    requires
        done < total,
    ensures
        done + n < total ==> round_after(Some((done, total)), n) == Some(((done + n) as usize, total)),
        done + n >= total ==> round_after(Some((done, total)), n) is None,
    decreases n,
{
    if n > 0 {
        if done + 1 < total {
            law_round_ends_with_the_last_fetch((done + 1) as usize, total, (n - 1) as nat);
        } else {
            lemma_no_round(None, (n - 1) as nat);
        }
    }
}

proof fn lemma_no_round(round: Option<(usize, usize)>, n: nat)
    requires
        round is None,
    ensures
        round_after(round, n) is None,
    decreases n,
{
    if n > 0 {
        lemma_no_round(round_next(round), (n - 1) as nat);
    }
}

/// Whether no two repos are at the same path.
pub open spec fn roots_differ(repos: Seq<EntryView>) -> bool {
    forall|i: int, j: int|
        0 <= i < j < repos.len() ==> !same_path(
            (#[trigger] repos[i]).location.root,
            (#[trigger] repos[j]).location.root,
        )
}

/// Whether no two of the directories found are at the same path.
pub open spec fn found_differ(workdir: Seq<u8>, found: Seq<FoundView>) -> bool {
    forall|i: int, j: int|
        0 <= i < j < found.len() ==> !same_path(
            (#[trigger] found[i]).location(workdir).root,
            (#[trigger] found[j]).location(workdir).root,
        )
}

/// Known repos that weren't found yet are still there, and they are at different paths.
proof fn lemma_scan_leaves(workdir: Seq<u8>, known: Seq<EntryView>, found: Seq<FoundView>)
    requires
        roots_differ(known),
    ensures
        roots_differ(scanned(workdir, known, found).0),
        forall|i: int|
            0 <= i < known.len() && (forall|j: int|
                0 <= j < found.len() ==> !same_path(
                    (#[trigger] found[j]).location(workdir).root,
                    known[i].location.root,
                )) ==> scanned(workdir, known, found).0.contains(#[trigger] known[i]),
        scanned(workdir, known, found).1.len() == found.len(),
    decreases found.len(),
{
    let (left, repos) = scanned(workdir, known, found);
    if found.len() == 0 {
        assert forall|i: int| 0 <= i < known.len() implies left.contains(#[trigger] known[i]) by {}
    } else {
        let front = found.drop_last();
        lemma_scan_leaves(workdir, known, front);
        let (before, _) = scanned(workdir, known, front);
        let root = found.last().location(workdir).root;
        lemma_place(before, root);
        if let Some(k) = place_of(before, root) {
            assert forall|a: int, b: int| 0 <= a < b < left.len() implies !same_path(
                (#[trigger] left[a]).location.root,
                (#[trigger] left[b]).location.root,
            ) by {
                let last = before.len() - 1;
                if a == k {
                    law_same_path_is_an_equivalence(
                        before[b].location.root,
                        before[last].location.root,
                        root,
                    );
                    assert(!same_path(before[b].location.root, before[last].location.root));
                } else if b == k {
                    assert(!same_path(before[a].location.root, before[last].location.root));
                } else {
                    assert(!same_path(before[a].location.root, before[b].location.root));
                }
            }
        }
        assert forall|i: int|
            0 <= i < known.len() && (forall|j: int|
                0 <= j < found.len() ==> !same_path(
                    (#[trigger] found[j]).location(workdir).root,
                    known[i].location.root,
                )) implies left.contains(#[trigger] known[i]) by {
            assert forall|j: int| 0 <= j < front.len() implies !same_path(
                (#[trigger] front[j]).location(workdir).root,
                known[i].location.root,
            ) by {
                assert(front[j] == found[j]);
            }
            assert(before.contains(known[i]));
            let p = choose|p: int| 0 <= p < before.len() && before[p] == known[i];
            assert(!same_path(found[found.len() - 1].location(workdir).root, known[i].location.root));
            if let Some(k) = place_of(before, root) {
                law_same_path_is_an_equivalence(root, before[k].location.root, root);
                assert(p != k);
                if p == before.len() - 1 {
                    assert(left[k] == known[i]);
                } else {
                    assert(left[p] == known[i]);
                }
            }
        }
    }
}

/// A scan keeps what is known of a repo that it finds again: its summary, whether its last
/// fetch failed, the operation that runs on it and the summary being computed.
pub proof fn law_scan_keeps_known_state(
    workdir: Seq<u8>,
    known: Seq<EntryView>,
    found: Seq<FoundView>,
    i: int,
    k: int,
)
    requires
        roots_differ(known),
        found_differ(workdir, found),
        0 <= i < known.len(),
        0 <= k < found.len(),
        same_path(known[i].location.root, found[k].location(workdir).root),
    ensures
        scanned(workdir, known, found).1.len() == found.len(),
        scanned(workdir, known, found).1[k] == (EntryView {
            location: found[k].location(workdir),
            error: found[k].error(),
            ..known[i]
        }),
    decreases found.len(),
{
    let front = found.drop_last();
    let (before, repos) = scanned(workdir, known, front);
    lemma_scan_leaves(workdir, known, found);
    lemma_scan_leaves(workdir, known, front);
    assert forall|a: int, b: int| 0 <= a < b < front.len() implies !same_path(
        (#[trigger] front[a]).location(workdir).root,
        (#[trigger] front[b]).location(workdir).root,
    ) by {
        assert(front[a] == found[a] && front[b] == found[b]);
    }
    if k < front.len() {
        assert(front[k] == found[k]);
        law_scan_keeps_known_state(workdir, known, front, i, k);
    } else {
        let root = found[k].location(workdir).root;
        assert forall|j: int| 0 <= j < front.len() implies !same_path(
            (#[trigger] front[j]).location(workdir).root,
            known[i].location.root,
        ) by {
            assert(front[j] == found[j]);
            assert(!same_path(found[j].location(workdir).root, found[k].location(workdir).root));
            law_same_path_is_an_equivalence(
                found[j].location(workdir).root,
                known[i].location.root,
                found[k].location(workdir).root,
            );
        }
        assert(before.contains(known[i]));
        let p = choose|p: int| 0 <= p < before.len() && before[p] == known[i];
        lemma_place(before, root);
        let q = place_of(before, root)->0;
        if q != p {
            law_same_path_is_an_equivalence(before[q].location.root, root, before[p].location.root);
            law_same_path_is_an_equivalence(before[p].location.root, root, before[q].location.root);
            if q < p {
                assert(!same_path(before[q].location.root, before[p].location.root));
            } else {
                assert(!same_path(before[p].location.root, before[q].location.root));
            }
        }
    }
}

} // verus!
