//! What the store keeps of each repo, and what is fetched.

use vstd::prelude::*;

use crate::config::default_config;
use crate::git::CmdKind;
use crate::model::{LocationView, SummaryView};
use crate::path::same_path;
use crate::store::{
    fetch_targets, log_with, logged, new_entry, place_of, readable, round_next, same_path_opt, EntryView,
    FoundView, LoadedView, StoreView,
};
use crate::git::RecordView;

verus! {

/// A repo is found by its root: the first entry there, if any.
pub proof fn law_repos_are_found_by_root(repos: Seq<EntryView>, root: Seq<u8>)
    ensures
        match place_of(repos, root) {
            Some(i) => 0 <= i < repos.len() && same_path(repos[i].location.root, root) && forall|j: int|
                0 <= j < i ==> !same_path((#[trigger] repos[j]).location.root, root),
            None => forall|j: int| 0 <= j < repos.len() ==> !same_path((#[trigger] repos[j]).location.root, root),
        },
    decreases repos.len(),
{
    if repos.len() > 0 {
        let before = repos.drop_last();
        law_repos_are_found_by_root(before, root);
        match place_of(before, root) {
            Some(i) => {
                assert(before[i] == repos[i]);
                assert forall|j: int| 0 <= j < i implies !same_path((#[trigger] repos[j]).location.root, root) by {
                    assert(before[j] == repos[j]);
                }
            },
            None => {
                assert forall|j: int| 0 <= j < repos.len() - 1 implies !same_path(
                    (#[trigger] repos[j]).location.root,
                    root,
                ) by {
                    assert(before[j] == repos[j]);
                }
            },
        }
    }
}

/// A repo that is asked for starts exactly if it is idle and isn't being read; one that is
/// being read is read once more; a busy one waits for its operation. Nothing else changes.
pub proof fn law_refreshes_start_when_idle(e: EntryView)
    ensures
        e.starts() <==> e.busy is None && !e.refreshing,
        e.starts() ==> e.asked().refreshing && e.asked().refresh_again == e.refresh_again,
        e.busy is None && e.refreshing ==> e.asked().refreshing && e.asked().refresh_again,
        e.busy is Some ==> e.asked() == e,
        e.asked().summary == e.summary && e.asked().error == e.error && e.asked().location == e.location
            && e.asked().busy == e.busy && e.asked().fetch_error == e.fetch_error,
{
}

/// A new summary replaces the old one and any error; an error is told and the last summary
/// stays. Either way the repo is no longer being read.
pub proof fn law_answers_replace_what_was_known(e: EntryView, summary: SummaryView, error: Seq<char>)
    ensures
        ({
            let after = e.answered(Ok(summary));
            &&& after.summary == Some(summary) && after.error is None && !after.refreshing && !after.refresh_again
            &&& after.location == e.location && after.busy == e.busy && after.fetch_error == e.fetch_error
        }),
        ({
            let after = e.answered(Err(error));
            &&& after.summary == e.summary && after.error == Some(error) && !after.refreshing && !after.refresh_again
            &&& after.location == e.location && after.busy == e.busy && after.fetch_error == e.fetch_error
        }),
{
}

/// The panels are those of the selected repo, or none are shown.
pub proof fn law_panels_are_of_the_selected_repo(store: StoreView, loaded: LoadedView, root: Seq<u8>)
    requires
        store.detail == Some(loaded),
        store.selected == Some(root),
    ensures
        same_path(loaded.root, root) ==> store.selected_detail() == Some(loaded.data),
        !same_path(loaded.root, root) ==> store.selected_detail() is None,
        (StoreView { selected: None, ..store }).selected_detail() is None,
        (StoreView { detail: None, ..store }).selected_detail() is None,
{
}

/// Panels are loaded for a selected repo that can be read: measured against its default
/// branch, and with its history unless it has none. One load at a time; asking again during
/// one is remembered.
pub proof fn law_panels_are_loaded_once(store: StoreView, e: EntryView)
    requires
        store.selected_entry() == Some(e),
    ensures
        e.error is Some ==> store.detail_job() is None,
        e.error is None ==> (store.detail_job() matches Some(job) && job.location == e.location && (
        e.summary matches Some(s) ==> job.base == s.default_branch && (job.has_commits <==> !(s.head is Unborn)))),
        store.detail_loading ==> store.detail_started() is None && store.detail_asked().detail_again
            && store.detail_asked().detail_loading,
        !store.detail_loading ==> store.detail_started() == store.detail_job() && (
        store.detail_asked().detail_loading <==> e.error is None),
        store.detail_asked().repos == store.repos && store.detail_asked().selected == store.selected,
{
}

/// Loaded panels are shown for the repo they were loaded for; they are loaded again if that
/// was asked for meanwhile, or if another repo is selected by now.
pub proof fn law_stale_panels_are_loaded_again(store: StoreView, root: Seq<u8>)
    ensures
        store.detail_stale(root) <==> store.detail_again || !same_path_opt(store.selected, Some(root)),
{
}

/// Being busy concerns that repo alone, and so does being done.
pub proof fn law_only_that_repo_is_busy(store: StoreView, root: Seq<u8>, label: Seq<char>, i: int, k: int)
    requires
        place_of(store.repos, root) == Some(i),
        0 <= i < store.repos.len(),
        0 <= k < store.repos.len(),
    ensures
        ({
            let busy = store.busy_at(root, label);
            let idle = store.idle_at(root);
            &&& busy.repos[k].busy == (if k == i {
                Some(label)
            } else {
                store.repos[k].busy
            })
            &&& idle.repos[k].busy == (if k == i {
                None
            } else {
                store.repos[k].busy
            })
            &&& busy.repos[k].summary == store.repos[k].summary && idle.repos[k].summary == store.repos[k].summary
            &&& busy.repos.len() == store.repos.len() && idle.repos.len() == store.repos.len()
        }),
{
}

/// What a fetch failed with is kept on that repo until it succeeds.
pub proof fn law_fetch_errors_are_kept(store: StoreView, root: Seq<u8>, error: Option<Seq<char>>, i: int)
    requires
        place_of(store.repos, root) == Some(i),
        0 <= i < store.repos.len(),
    ensures
        store.fetched_at(root, error).repos[i].fetch_error == error,
        store.fetched_at(root, error).repos[i].error == store.repos[i].error,
{
}

/// A repo is fetched exactly if it is idle, readable and has a remote.
pub proof fn law_repos_with_a_remote_are_fetched(e: EntryView)
    ensures
        e.fetchable() <==> e.busy is None && e.error is None && (e.summary matches Some(s) && s.remotes.len() > 0),
{
}

/// What one more repo adds to a fetch: itself, if it can be fetched and no repo before it has
/// the same git dir.
pub proof fn law_each_repo_is_fetched(repos: Seq<EntryView>, roots: Seq<Seq<u8>>, root: Seq<u8>, i: int)
    requires
        place_of(repos, root) == Some(i),
    ensures
        ({
            let before = fetch_targets(repos, roots);
            let there = exists|k: int|
                0 <= k < before.len() && same_path((#[trigger] before[k]).common_dir, repos[i].location.common_dir);
            fetch_targets(repos, roots.push(root)) == (if repos[i].fetchable() && !there {
                before.push(repos[i].location)
            } else {
                before
            })
        }),
        fetch_targets(repos, Seq::empty()).len() == 0,
{
    assert(roots.push(root).drop_last() =~= roots);
}

/// A round counts the fetches that are done and ends with the last one.
pub proof fn law_rounds_count_up(done: usize, total: usize)
    requires
        done < total,
    ensures
        round_next(Some((done, total))) == (if done + 1 == total {
            None
        } else {
            Some(((done + 1) as usize, total))
        }),
        round_next(None) is None,
{
}

/// The log keeps commands that change something or talk to a remote, and failures; reads that
/// went well are left out. The latest stand last.
pub proof fn law_the_log_keeps_what_matters(log: Seq<RecordView>, record: RecordView)
    requires
        log.len() <= crate::store::LOG_CAPACITY,
    ensures
        logged(record) <==> record.kind != CmdKind::Read || record.error is Some,
        log_with(log, record).last() == record,
        log_with(log, record).len() <= crate::store::LOG_CAPACITY,
        log.len() < crate::store::LOG_CAPACITY ==> log_with(log, record) == log.push(record),
{
}

/// A repo that git confirmed is where git says; one that it didn't is shown where it was
/// found, with the error.
pub proof fn law_unconfirmed_repos_are_shown(found: FoundView, workdir: Seq<u8>)
    ensures
        found.resolved matches Ok(location) ==> found.location(workdir) == location && found.error() is None,
        found.resolved matches Err(error) ==> found.error() == Some(error) && found.location(workdir).root == found.root
            && found.location(workdir).bare == found.bare && found.location(workdir).name
            == crate::discovery::name_of(workdir, found.root),
{
}

/// A repo that is new starts with nothing known of it.
pub proof fn law_new_repos_start_empty(location: LocationView)
    ensures
        ({
            let e = new_entry(location);
            e.location == location && e.summary is None && e.error is None && e.busy is None && e.fetch_error is None
                && !e.refreshing && !e.refresh_again
        }),
{
}

/// Repos that could be read are summarised, in the order of the list; the others aren't.
pub proof fn law_readable_repos(repos: Seq<EntryView>, e: EntryView)
    ensures
        readable(repos.push(e)) == (if e.error is None {
            readable(repos).push(e.location)
        } else {
            readable(repos)
        }),
        readable(Seq::empty()).len() == 0,
{
    assert(repos.push(e).drop_last() =~= repos);
}

/// A finished operation leaves the repo idle and has it summarised afresh, and its panels
/// loaded if it is the selected one.
pub proof fn law_operations_end_idle(store: StoreView, root: Seq<u8>, i: int)
    requires
        place_of(store.repos, root) == Some(i),
        0 <= i < store.repos.len(),
    ensures
        ({
            let (after, work) = store.op_finished(root);
            &&& after.repos[i].busy is None
            &&& !store.repos[i].refreshing ==> after.repos[i].refreshing
            &&& store.repos[i].refreshing ==> after.repos[i].refresh_again
            &&& !work.scan
            &&& !same_path_opt(store.selected, Some(root)) ==> work.detail is None && after.detail_loading
                == store.detail_loading
        }),
{
    let idle = store.idle_at(root);
    law_repos_are_found_by_root(store.repos, root);
    law_repos_are_found_by_root(idle.repos, root);
    assert(idle.repos[i].location == store.repos[i].location);
    assert forall|j: int| 0 <= j < i implies idle.repos[j] == store.repos[j] by {}
    let k = place_of(idle.repos, root);
    assert(k == Some(i)) by {
        if k is None {
            assert(same_path(idle.repos[i].location.root, root));
        } else if k->0 < i {
            assert(idle.repos[k->0] == store.repos[k->0]);
        } else if k->0 > i {
            assert(same_path(idle.repos[i].location.root, root));
        }
    }
}

/// The settings without a file: three levels deep, fetching every five minutes, asking before
/// it quits, hunks first.
pub proof fn law_default_settings()
    ensures
        default_config().max_depth == 3 && default_config().auto_fetch && default_config().fetch_interval_secs == 300
            && default_config().poll_interval_secs == 60,
        default_config().confirm_quit && default_config().staging_hunk_mode && default_config().workdir is None
            && default_config().lazygit_command is None,
{
}

} // verus!
