//! Which changes on disk concern which repo, and when they are told.

use vstd::prelude::*;

use crate::discovery::skip_dir;
use crate::path::{below, components, last_name, parent_of, same_path};
use crate::text::outside::lossy_text;
use crate::text::strings::utf8;
use crate::watch::coalesce::{all_marked, due_roots, still_pending, CoalescerView, PendingView, RESCAN_DELAY};
use crate::watch::route::{
    among, ignored_git_path, ignored_git_paths, noted, shared_git_paths, GitDirView, RouteView, RouterView,
};

verus! {

/// A change is told once it has been quiet for a quarter of a second, or two seconds after
/// the first one at the latest; not before either.
pub proof fn law_changes_are_told_in_time(p: PendingView, now: u64)
    requires
        p.first <= p.last <= now,
    ensures
        p.due(now) <==> now - p.last >= 250 || now - p.first >= 2000,
{
}

/// What one more waiting repo adds: it is told if it is due and waits on otherwise.
pub proof fn law_due_changes_are_told(list: Seq<PendingView>, p: PendingView, now: u64)
    ensures
        p.due(now) ==> due_roots(list.push(p), now) == due_roots(list, now).push(p.root) && still_pending(
            list.push(p),
            now,
        ) == still_pending(list, now),
        !p.due(now) ==> due_roots(list.push(p), now) == due_roots(list, now) && still_pending(list.push(p), now)
            == still_pending(list, now).push(p),
{
    assert(list.push(p).drop_last() =~= list);
}

/// A rescan waits from when it was first asked for.
pub proof fn law_rescans_wait_from_the_first(c: CoalescerView, at: u64, now: u64)
    ensures
        c.rescan is None ==> c.with_rescan(now).rescan == Some(now),
        c.rescan is Some ==> c.with_rescan(now).rescan == c.rescan,
        c.with_rescan(now).pending == c.pending,
        c.rescan == Some(at) && at <= now ==> (c.rescan_due(now) <==> now - at >= RESCAN_DELAY),
        c.rescan is None ==> !c.rescan_due(now),
{
}

/// A change of a worktree concerns its repo, unless it is in the git dir, in a directory of
/// dependencies or build outputs, or ignored by git's rules. The root itself doesn't count.
pub proof fn law_worktree_changes_concern_their_repo(r: RouterView, repo: int, path: Seq<u8>)
    ensures
        ({
            let parts = below(path, r.roots[repo]);
            let rel = lossy_text(crate::path::rest_of(path, r.roots[repo]));
            let left_out = exists|i: int|
                0 <= i < parts.len() && (utf8(".git") == #[trigger] parts[i] || skip_dir(parts[i]));
            &&& r.route_tree(repo, path) is Ignore <==> parts.len() == 0 || left_out || r.ignores[repo].ignore(rel)
                || r.global.ignore(rel)
            &&& !(r.route_tree(repo, path) is Ignore) ==> r.route_tree(repo, path) == RouteView::Repos(
                seq![r.roots[repo]],
            )
        }),
{
}

/// A change in a git dir is ignored if it is a lock, or of the objects, logs and the like.
/// Refs and the configuration concern every repo that shares the dir, anything else only the
/// repos whose own it is.
pub proof fn law_git_dir_changes_concern_its_repos(r: RouterView, git: GitDirView, parts: Seq<Seq<u8>>)
    ensures
        ignored_git_path(parts) ==> r.route_git(git, parts) is Ignore,
        !ignored_git_path(parts) ==> {
            let shared = parts.len() > 0 && among(parts[0], shared_git_paths());
            let concerned = if shared {
                git.sharing
            } else {
                git.own
            };
            &&& concerned.len() == 0 ==> r.route_git(git, parts) is Ignore
            &&& concerned.len() > 0 ==> (r.route_git(git, parts) matches RouteView::Repos(roots) && roots.len()
                == concerned.len() && forall|k: int|
                0 <= k < roots.len() ==> #[trigger] roots[k] == r.roots[concerned[k] as int])
        },
{
}

/// What of a git dir is shared between worktrees, and what tells nothing.
pub proof fn law_parts_of_a_git_dir()
    ensures
        among(utf8("refs"), shared_git_paths()) && among(utf8("packed-refs"), shared_git_paths()) && among(
            utf8("config"),
            shared_git_paths(),
        ),
        among(utf8("objects"), ignored_git_paths()) && among(utf8("logs"), ignored_git_paths()) && among(
            utf8("hooks"),
            ignored_git_paths(),
        ) && among(utf8("COMMIT_EDITMSG"), ignored_git_paths()) && among(utf8("lfs"), ignored_git_paths()) && among(
            utf8("modules"),
            ignored_git_paths(),
        ) && among(utf8("worktrees"), ignored_git_paths()),
        shared_git_paths().len() == 6,
        ignored_git_paths().len() == 10,
{
    let s = shared_git_paths();
    let g = ignored_git_paths();
    assert(s[0] == "refs" && s[1] == "packed-refs" && s[2] == "config");
    assert(g[0] == "objects" && g[1] == "logs" && g[2] == "hooks" && g[3] == "lfs" && g[4] == "modules" && g[6]
        == "worktrees" && g[7] == "COMMIT_EDITMSG");
}

/// Outside of the repos, a change has the workdir scanned again if it is directly in it or is
/// that of a `.git`; anything else is ignored.
pub proof fn law_changes_outside_find_new_repos(r: RouterView, path: Seq<u8>)
    ensures
        r.route_outside(path) is Rescan <==> parent_of(path) == Some(components(r.workdir)) || last_name(path) == Some(
            utf8(".git"),
        ),
        r.route_outside(path) is Rescan || r.route_outside(path) is Ignore,
{
}

/// A repo shares each git dir that it is noted for, and has it as its own exactly if it was
/// noted so.
pub proof fn law_repos_are_noted_at_their_dir(list: Seq<GitDirView>, dir: Seq<u8>, repo: usize, own: bool)
    ensures
        ({
            let after = noted(list, dir, repo, own);
            exists|i: int|
                0 <= i < after.len() && same_path((#[trigger] after[i]).dir, dir) && after[i].sharing.contains(repo) && (
                own ==> after[i].own.contains(repo))
        }),
    decreases list.len(),
{
    let after = noted(list, dir, repo, own);
    crate::path::law_same_path_is_an_equivalence(dir, dir, dir);
    if list.len() == 0 {
        assert(after[0].sharing[0] == repo);
        if own {
            assert(after[0].own[0] == repo);
        }
    } else if same_path(list[0].dir, dir) {
        assert(after[0].sharing[list[0].sharing.len() as int] == repo);
        if own {
            assert(after[0].own[list[0].own.len() as int] == repo);
        }
    } else {
        let rest = noted(list.drop_first(), dir, repo, own);
        law_repos_are_noted_at_their_dir(list.drop_first(), dir, repo, own);
        let i = choose|i: int|
            0 <= i < rest.len() && same_path((#[trigger] rest[i]).dir, dir) && rest[i].sharing.contains(repo) && (own
                ==> rest[i].own.contains(repo));
        assert(after[i + 1] == rest[i]);
    }
}

/// Routed changes are noted for the repos that they concern; one that is ignored changes
/// nothing. Lost events concern every repo, and have the workdir scanned.
pub proof fn law_routed_changes_are_noted(
    c: CoalescerView,
    roots: Seq<Seq<u8>>,
    now: u64,
    router: RouterView,
    all_roots: Seq<Seq<u8>>,
)
    ensures
        c.with_route(RouteView::Ignore, now) == c,
        c.with_route(RouteView::Repos(roots), now).pending == all_marked(c.pending, roots, now),
        c.with_route(RouteView::Repos(roots), now).rescan == c.rescan,
        c.with_route(RouteView::Rescan, now).rescan is Some,
        c.with_event(router, all_roots, true, Seq::empty(), now).pending == all_marked(c.pending, all_roots, now),
        c.with_event(router, all_roots, true, Seq::empty(), now).rescan is Some,
        c.with_event(router, all_roots, false, Seq::empty(), now) == c,
{
}

} // verus!
