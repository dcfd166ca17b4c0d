//! Maps a changed path to the repos it affects.

use ignore::gitignore::Gitignore;
use vstd::prelude::*;

use crate::discovery::{is_one_of, is_skip_dir, skip_dir};
use crate::model::{location_views, LocationView, RepoLocation};
use crate::path::{
    below, components, last_name, parent_of, path_views, rest_of, same_path, within, FsPath,
};
use crate::text::ascii::{DOT, SLASH};
use crate::text::outside::{lossy_text, text_lossy};
use crate::text::seqs::{ends_with, same_slice, views};
use crate::text::strings::{bytes_of, texts, utf8};
use crate::watch::coalesce::{Coalescer, CoalescerView};
use crate::watch::ignored::{compile_rules, compiled, is_below, is_ignored, rules_ignore};
use crate::watch::ignored::{matcher_root, matcher_rules};

verus! {

/// What a changed path means.
#[derive(Debug, PartialEq, Eq)]
pub enum Route {
    Ignore,
    /// These repos (by root) changed.
    Repos(Vec<FsPath>),
    /// Something appeared or disappeared at the top of the workdir: rediscover.
    Rescan,
}

#[verifier::ext_equal]
pub ghost enum RouteView {
    Ignore,
    Repos(Seq<Seq<u8>>),
    Rescan,
}

impl View for Route {
    type V = RouteView;

    open spec fn view(&self) -> RouteView {
        match self {
            Route::Ignore => RouteView::Ignore,
            Route::Repos(roots) => RouteView::Repos(path_views(roots@)),
            Route::Rescan => RouteView::Rescan,
        }
    }
}

/// What to tell the program.
#[derive(Debug, PartialEq, Eq)]
pub enum WatchEvent {
    /// These repo roots changed.
    Changed(Vec<FsPath>),
    /// Something appeared or disappeared at the top of the workdir: rediscover.
    Rescan,
}

/// A git dir. `own` are repos whose per-worktree state (HEAD, index...) lives here;
/// `sharing` also includes linked worktrees that share its refs and config.
#[derive(Debug, PartialEq, Eq)]
pub struct GitDir {
    pub dir: FsPath,
    pub own: Vec<usize>,
    pub sharing: Vec<usize>,
}

#[verifier::ext_equal]
pub ghost struct GitDirView {
    pub dir: Seq<u8>,
    pub own: Seq<usize>,
    pub sharing: Seq<usize>,
}

impl View for GitDir {
    type V = GitDirView;

    open spec fn view(&self) -> GitDirView {
        GitDirView { dir: self.dir@, own: self.own@, sharing: self.sharing@ }
    }
}

/// The views of some git dirs.
pub open spec fn git_dir_views(list: Seq<GitDir>) -> Seq<GitDirView> {
    list.map_values(|g: GitDir| g@)
}

/// The git dirs with `repo` noted for `dir`: as sharing it, and as having its own state
/// there if `own` is set.
pub open spec fn noted(list: Seq<GitDirView>, dir: Seq<u8>, repo: usize, own: bool) -> Seq<GitDirView>
    decreases list.len(),
{
    if list.len() == 0 {
        seq![
            GitDirView {
                dir,
                own: if own {
                    seq![repo]
                } else {
                    Seq::empty()
                },
                sharing: seq![repo],
            },
        ]
    } else if same_path(list[0].dir, dir) {
        seq![
            GitDirView {
                dir: list[0].dir,
                own: if own {
                    list[0].own.push(repo)
                } else {
                    list[0].own
                },
                sharing: list[0].sharing.push(repo),
            },
        ] + list.drop_first()
    } else {
        seq![list[0]] + noted(list.drop_first(), dir, repo, own)
    }
}

/// The git dirs of the first `n` repos.
pub open spec fn git_dirs_of(repos: Seq<LocationView>, n: nat) -> Seq<GitDirView>
    decreases n,
{
    if n == 0 {
        Seq::empty()
    } else {
        let i = (n - 1) as usize;
        let repo = repos[n - 1];
        let own = noted(git_dirs_of(repos, (n - 1) as nat), repo.git_dir, i, true);
        if same_path(repo.common_dir, repo.git_dir) {
            own
        } else {
            noted(own, repo.common_dir, i, false)
        }
    }
}

/// Maps a changed path to the repos it affects.
pub struct Router {
    workdir: FsPath,
    roots: Vec<FsPath>,
    /// Whether each repo is bare: those have no working tree to watch.
    bare: Vec<bool>,
    git_dirs: Vec<GitDir>,
    ignores: Vec<Gitignore>,
    global_ignore: Gitignore,
}

/// A directory with the gitignore rules that count there.
#[verifier::ext_equal]
pub ghost struct RulesView {
    pub root: Seq<char>,
    pub rules: Seq<Seq<char>>,
}

/// The rules of a matcher.
pub open spec fn rules_of(g: Gitignore) -> RulesView {
    RulesView { root: matcher_root(g), rules: matcher_rules(g) }
}

impl RulesView {
    /// Whether the rules ignore a path below their directory. Without rules nothing is
    /// ignored.
    pub open spec fn ignore(self, rel: Seq<char>) -> bool {
        self.rules.len() > 0 && is_below(self.root, rel) && rules_ignore(self.root, self.rules, rel)
    }
}

#[verifier::ext_equal]
pub ghost struct RouterView {
    pub workdir: Seq<u8>,
    pub roots: Seq<Seq<u8>>,
    pub bare: Seq<bool>,
    pub git_dirs: Seq<GitDirView>,
    pub ignores: Seq<RulesView>,
    pub global: RulesView,
}

impl View for Router {
    type V = RouterView;

    closed spec fn view(&self) -> RouterView {
        RouterView {
            workdir: self.workdir@,
            roots: path_views(self.roots@),
            bare: self.bare@,
            git_dirs: git_dir_views(self.git_dirs@),
            ignores: self.ignores@.map_values(|g: Gitignore| rules_of(g)),
            global: rules_of(self.global_ignore),
        }
    }
}

/// Entries of a common git dir that all of its worktrees share.
pub open spec fn shared_git_paths() -> Seq<&'static str> {
    seq!["refs", "packed-refs", "config", "reftable", "shallow", "info"]
}

/// Paths inside a git dir that never affect what is displayed.
pub open spec fn ignored_git_paths() -> Seq<&'static str> {
    seq![
        "objects",
        "logs",
        "hooks",
        "lfs",
        "modules",
        "fsmonitor--daemon",
        "worktrees",
        "COMMIT_EDITMSG",
        "gc.log",
        "gc.pid",
    ]
}

/// Whether a name is among some texts.
pub open spec fn among(name: Seq<u8>, list: Seq<&str>) -> bool {
    exists|i: int| 0 <= i < list.len() && utf8(#[trigger] list[i]) == name
}

/// Whether a component is a name, and not `/`, `.` or `..`.
pub open spec fn is_name(part: Seq<u8>) -> bool {
    part != seq![SLASH] && part != seq![DOT] && part != seq![DOT, DOT]
}

/// Whether a path inside a git dir never affects what is displayed.
pub open spec fn ignored_git_path(parts: Seq<Seq<u8>>) -> bool {
    &&& parts.len() > 0
    &&& is_name(parts[0])
    &&& among(parts[0], ignored_git_paths()) || is_name(parts.last()) && utf8(".lock").is_suffix_of(
        parts.last(),
    )
}

/// What lies behind a path's longest prefix.
pub ghost enum Target {
    /// The working tree of a repo.
    WorkTree(int),
    /// A git dir.
    Git(int),
}

impl RouterView {
    /// The directory of a target.
    pub open spec fn dir(self, target: Target) -> Seq<u8> {
        match target {
            Target::WorkTree(i) => self.roots[i],
            Target::Git(i) => self.git_dirs[i].dir,
        }
    }

    /// Whether a path lies in a target.
    pub open spec fn holds(self, target: Target, path: Seq<u8>) -> bool {
        match target {
            Target::WorkTree(i) => 0 <= i < self.roots.len() && !self.bare[i] && within(
                path,
                self.roots[i],
            ),
            Target::Git(i) => 0 <= i < self.git_dirs.len() && within(path, self.git_dirs[i].dir),
        }
    }

    /// Which of two targets is more specific: the one whose directory is longer.
    pub open spec fn better(self, old: Option<Target>, new: Target) -> Option<Target> {
        match old {
            Some(t) if self.dir(t).len() >= self.dir(new).len() => old,
            _ => Some(new),
        }
    }

    /// The most specific of the first `n` working trees.
    pub open spec fn best_tree(self, path: Seq<u8>, n: nat) -> Option<Target>
        decreases n,
    {
        if n == 0 {
            None
        } else {
            let best = self.best_tree(path, (n - 1) as nat);
            let t = Target::WorkTree(n - 1);
            if self.holds(t, path) {
                self.better(best, t)
            } else {
                best
            }
        }
    }

    /// The most specific of the working trees and the first `n` git dirs.
    pub open spec fn best(self, path: Seq<u8>, n: nat) -> Option<Target>
        decreases n,
    {
        if n == 0 {
            self.best_tree(path, self.roots.len())
        } else {
            let best = self.best(path, (n - 1) as nat);
            let t = Target::Git(n - 1);
            if self.holds(t, path) {
                self.better(best, t)
            } else {
                best
            }
        }
    }

    /// The roots of some repos.
    pub open spec fn roots_of(self, repos: Seq<usize>) -> Seq<Seq<u8>> {
        repos.map_values(|i: usize| self.roots[i as int])
    }

    /// What a change in a git dir means: nothing if it never affects what is displayed;
    /// else a change of the repos with their state there, or, for what worktrees share, of
    /// all the repos that share it.
    pub open spec fn route_git(self, git: GitDirView, parts: Seq<Seq<u8>>) -> RouteView {
        if ignored_git_path(parts) {
            RouteView::Ignore
        } else {
            let shared = parts.len() > 0 && among(parts[0], shared_git_paths());
            let repos = if shared {
                git.sharing
            } else {
                git.own
            };
            if repos.len() == 0 {
                RouteView::Ignore
            } else {
                RouteView::Repos(self.roots_of(repos))
            }
        }
    }

    /// Whether a path in a working tree never matters: it lies in `.git`, or in a directory
    /// of dependencies or build outputs.
    pub open spec fn skipped(parts: Seq<Seq<u8>>) -> bool {
        exists|i: int|
            0 <= i < parts.len() && (utf8(".git") == #[trigger] parts[i] || skip_dir(parts[i]))
    }

    /// What a change in a working tree means: nothing for the tree itself, what is skipped,
    /// and what gitignore rules ignore. Rules are matched against text: a name that isn't
    /// UTF-8 is looked up with U+FFFD for what isn't.
    pub open spec fn route_tree(self, repo: int, path: Seq<u8>) -> RouteView {
        let parts = below(path, self.roots[repo]);
        let rel = lossy_text(rest_of(path, self.roots[repo]));
        if parts.len() == 0 || Self::skipped(parts) || self.ignores[repo].ignore(rel)
            || self.global.ignore(rel) {
            RouteView::Ignore
        } else {
            RouteView::Repos(seq![self.roots[repo]])
        }
    }

    /// What a change outside every repo means: something at the top of the workdir, or a
    /// `.git` that came or went, may be a repo.
    pub open spec fn route_outside(self, path: Seq<u8>) -> RouteView {
        if parent_of(path) == Some(components(self.workdir)) || last_name(path) == Some(utf8(".git")) {
            RouteView::Rescan
        } else {
            RouteView::Ignore
        }
    }

    /// What a changed path means.
    pub open spec fn route(self, path: Seq<u8>) -> RouteView {
        match self.best(path, self.git_dirs.len()) {
            None => self.route_outside(path),
            Some(Target::Git(i)) => self.route_git(
                self.git_dirs[i],
                below(path, self.git_dirs[i].dir),
            ),
            Some(Target::WorkTree(i)) => self.route_tree(i, path),
        }
    }

    /// What holds of every router: a repo that a git dir names is one of the repos.
    pub open spec fn wf(self) -> bool {
        &&& self.bare.len() == self.roots.len()
        &&& self.ignores.len() == self.roots.len()
        &&& forall|g: int, k: int|
            0 <= g < self.git_dirs.len() && 0 <= k < (#[trigger] self.git_dirs[g]).own.len()
                ==> #[trigger] self.git_dirs[g].own[k] < self.roots.len()
        &&& forall|g: int, k: int|
            0 <= g < self.git_dirs.len() && 0 <= k < (#[trigger] self.git_dirs[g]).sharing.len()
                ==> #[trigger] self.git_dirs[g].sharing[k] < self.roots.len()
    }
}

/// The gitignore lines that count in a repo; none are given for repos past the end.
pub open spec fn lines_for(lines: Seq<Vec<String>>, i: int) -> Seq<Seq<char>> {
    if 0 <= i < lines.len() {
        texts(lines[i]@)
    } else {
        Seq::empty()
    }
}

/// The rules that some lines give for a directory.
pub open spec fn rules_for(root: Seq<char>, lines: Seq<Seq<char>>) -> RulesView {
    let (root, rules) = compiled(root, lines);
    RulesView { root, rules }
}

/// The router of some repos. `lines` are the gitignore lines of each repo.
pub open spec fn router_of(
    workdir: Seq<u8>,
    repos: Seq<LocationView>,
    lines: Seq<Vec<String>>,
    global: RulesView,
) -> RouterView {
    RouterView {
        workdir,
        roots: repos.map_values(|r: LocationView| r.root),
        bare: repos.map_values(|r: LocationView| r.bare),
        git_dirs: git_dirs_of(repos, repos.len()),
        ignores: Seq::new(
            repos.len(),
            |i: int| rules_for(lossy_text(repos[i].root), lines_for(lines, i)),
        ),
        global,
    }
}

/// Every repo that is noted is one that was there or the new one.
proof fn lemma_noted_in_range(list: Seq<GitDirView>, dir: Seq<u8>, repo: usize, own: bool, n: int)
    requires
        repo < n,
        forall|g: int, k: int|
            0 <= g < list.len() && 0 <= k < (#[trigger] list[g]).own.len() ==> #[trigger] list[g].own[k]
                < n,
        forall|g: int, k: int|
            0 <= g < list.len() && 0 <= k < (#[trigger] list[g]).sharing.len()
                ==> #[trigger] list[g].sharing[k] < n,
    ensures
        ({
            let after = noted(list, dir, repo, own);
            &&& forall|g: int, k: int|
                0 <= g < after.len() && 0 <= k < (#[trigger] after[g]).own.len()
                    ==> #[trigger] after[g].own[k] < n
            &&& forall|g: int, k: int|
                0 <= g < after.len() && 0 <= k < (#[trigger] after[g]).sharing.len()
                    ==> #[trigger] after[g].sharing[k] < n
        }),
    decreases list.len(),
{
    let after = noted(list, dir, repo, own);
    if list.len() > 0 {
        let rest = list.drop_first();
        assert forall|g: int| 0 <= g < rest.len() implies #[trigger] rest[g] == list[g + 1] by {
        }
        if same_path(list[0].dir, dir) {
            assert forall|g: int| 0 < g < after.len() implies #[trigger] after[g] == list[g] by {
            }
            assert(list[0].own.len() >= 0 && list[0].sharing.len() >= 0);
            assert forall|g: int, k: int|
                0 <= g < after.len() && 0 <= k < (#[trigger] after[g]).own.len() implies #[trigger] after[g].own[k]
                < n by {
                if g > 0 {
                    assert(after[g] == list[g]);
                    assert(list[g].own[k] < n);
                } else if k < list[0].own.len() {
                    assert(list[0].own[k] < n);
                }
            }
            assert forall|g: int, k: int|
                0 <= g < after.len() && 0 <= k < (#[trigger] after[g]).sharing.len() implies #[trigger] after[g].sharing[k]
                < n by {
                if g > 0 {
                    assert(after[g] == list[g]);
                    assert(list[g].sharing[k] < n);
                } else if k < list[0].sharing.len() {
                    assert(list[0].sharing[k] < n);
                }
            }
        } else {
            assert forall|g: int, k: int|
                0 <= g < rest.len() && 0 <= k < (#[trigger] rest[g]).own.len() implies #[trigger] rest[g].own[k]
                < n by {
                assert(list[g + 1].own[k] < n);
            }
            assert forall|g: int, k: int|
                0 <= g < rest.len() && 0 <= k < (#[trigger] rest[g]).sharing.len() implies #[trigger] rest[g].sharing[k]
                < n by {
                assert(list[g + 1].sharing[k] < n);
            }
            lemma_noted_in_range(rest, dir, repo, own, n);
            let tail = noted(rest, dir, repo, own);
            assert forall|g: int, k: int|
                0 <= g < after.len() && 0 <= k < (#[trigger] after[g]).own.len() implies #[trigger] after[g].own[k]
                < n by {
                if g > 0 {
                    assert(after[g] == tail[g - 1]);
                    assert(tail[g - 1].own[k] < n);
                } else {
                    assert(list[0].own[k] < n);
                }
            }
            assert forall|g: int, k: int|
                0 <= g < after.len() && 0 <= k < (#[trigger] after[g]).sharing.len() implies #[trigger] after[g].sharing[k]
                < n by {
                if g > 0 {
                    assert(after[g] == tail[g - 1]);
                    assert(tail[g - 1].sharing[k] < n);
                } else {
                    assert(list[0].sharing[k] < n);
                }
            }
        }
    }
}

/// Every repo that a git dir names is one of those it was made of.
proof fn lemma_git_dirs_in_range(repos: Seq<LocationView>, n: nat, total: int)
    requires
        n <= total <= usize::MAX,
    ensures
        ({
            let list = git_dirs_of(repos, n);
            &&& forall|g: int, k: int|
                0 <= g < list.len() && 0 <= k < (#[trigger] list[g]).own.len()
                    ==> #[trigger] list[g].own[k] < total
            &&& forall|g: int, k: int|
                0 <= g < list.len() && 0 <= k < (#[trigger] list[g]).sharing.len()
                    ==> #[trigger] list[g].sharing[k] < total
        }),
    decreases n,
{
    if n > 0 {
        let i = (n - 1) as usize;
        let repo = repos[n - 1];
        let before = git_dirs_of(repos, (n - 1) as nat);
        lemma_git_dirs_in_range(repos, (n - 1) as nat, total);
        lemma_noted_in_range(before, repo.git_dir, i, true, total);
        lemma_noted_in_range(noted(before, repo.git_dir, i, true), repo.common_dir, i, false, total);
    }
}

/// Notes a repo for a git dir.
fn note_git_dir(list: &mut Vec<GitDir>, dir: &FsPath, repo: usize, own: bool)
    ensures
        git_dir_views(final(list)@) == noted(git_dir_views(old(list)@), dir@, repo, own),
{
    let ghost all = git_dir_views(list@);
    let n: usize = list.len();
    let mut i: usize = 0;
    assert(all.skip(0) =~= all);
    assert(all.take(0) =~= Seq::<GitDirView>::empty());
    while i < n
        invariant
            i <= n,
            n == list@.len(),
            *list == *old(list),
            all == git_dir_views(list@),
            noted(all, dir@, repo, own) == all.take(i as int) + noted(all.skip(i as int), dir@, repo, own),
        decreases n - i,
    {
        let ghost rest = all.skip(i as int);
        assert(rest[0] == list@[i as int]@);
        assert(rest.drop_first() =~= all.skip(i + 1));
        if list[i].dir.same(dir) {
            let mut owners = list[i].own.clone();
            let mut sharers = list[i].sharing.clone();
            assert(owners@ =~= all[i as int].own);
            assert(sharers@ =~= all[i as int].sharing);
            if own {
                owners.push(repo);
            }
            sharers.push(repo);
            let entry = GitDir { dir: list[i].dir.clone(), own: owners, sharing: sharers };
            list.set(i, entry);
            assert(git_dir_views(list@) =~= all.take(i as int) + (seq![entry@] + all.skip(i + 1)));
            return;
        }
        assert(all.take(i + 1) + noted(all.skip(i + 1), dir@, repo, own) =~= all.take(i as int) + (seq![
            rest[0],
        ] + noted(rest.drop_first(), dir@, repo, own)));
        i = i + 1;
    }
    let mut owners: Vec<usize> = Vec::new();
    if own {
        owners.push(repo);
    }
    let mut sharers: Vec<usize> = Vec::new();
    sharers.push(repo);
    let entry = GitDir { dir: dir.clone(), own: owners, sharing: sharers };
    assert(entry.own@ =~= if own {
        seq![repo]
    } else {
        Seq::empty()
    });
    assert(entry.sharing@ =~= seq![repo]);
    list.push(entry);
    assert(all.skip(n as int) =~= Seq::<GitDirView>::empty());
    assert(all.take(n as int) =~= all);
    assert(git_dir_views(list@) =~= all + seq![entry@]);
}

/// Whether a path inside a git dir never affects what is displayed. `rel` is the path below
/// the git dir.
pub fn is_ignored_git_path(rel: &FsPath) -> (r: bool)
    ensures
        r == ignored_git_path(components(rel@)),
{
    let parts = rel.parts();
    ignored_parts(&parts, 0)
}

/// Whether a component is a name.
fn part_is_name(part: &[u8]) -> (r: bool)
    ensures
        r == is_name(part@),
{
    let n: usize = part.len();
    if n == 1 && (part[0] == SLASH || part[0] == DOT) {
        assert(part@ =~= seq![SLASH] || part@ =~= seq![DOT]);
        return false;
    }
    if n == 2 && part[0] == DOT && part[1] == DOT {
        assert(part@ =~= seq![DOT, DOT]);
        return false;
    }
    true
}

/// Whether the path from component `from` on never affects what is displayed.
fn ignored_parts(parts: &Vec<&[u8]>, from: usize) -> (r: bool)
    requires
        from <= parts@.len(),
    ensures
        r == ignored_git_path(views(parts@).skip(from as int)),
{
    let n: usize = parts.len();
    let ghost rest = views(parts@).skip(from as int);
    if from == n {
        return false;
    }
    let first = parts[from];
    let last = parts[n - 1];
    assert(rest[0] == first@);
    assert(rest.last() == last@);
    if !part_is_name(first) {
        return false;
    }
    let list = vec![
        "objects",
        "logs",
        "hooks",
        "lfs",
        "modules",
        "fsmonitor--daemon",
        "worktrees",
        "COMMIT_EDITMSG",
        "gc.log",
        "gc.pid",
    ];
    assert(list@ =~= ignored_git_paths());
    is_one_of(first, &list) || (part_is_name(last) && ends_with(last, bytes_of(".lock")))
}

/// Whether a path in a working tree never matters.
fn skipped_parts(parts: &Vec<&[u8]>, from: usize) -> (r: bool)
    requires
        from <= parts@.len(),
    ensures
        r == RouterView::skipped(views(parts@).skip(from as int)),
{
    let ghost rest = views(parts@).skip(from as int);
    let mut i: usize = from;
    while i < parts.len()
        invariant
            from <= i <= parts@.len(),
            rest == views(parts@).skip(from as int),
            forall|j: int|
                0 <= j < i - from ==> utf8(".git") != #[trigger] rest[j] && !skip_dir(rest[j]),
        decreases parts@.len() - i,
    {
        let part = parts[i];
        assert(rest[i - from] == part@);
        if same_slice(part, bytes_of(".git")) || is_skip_dir(part) {
            assert(utf8(".git") == rest[i - from] || skip_dir(rest[i - from]));
            return true;
        }
        i = i + 1;
    }
    false
}

/// What [`Router::best_target`] found.
enum Found {
    Nothing,
    Tree(usize),
    Git(usize),
}

impl Router {
    #[verifier::type_invariant]
    spec fn inv(self) -> bool {
        self@.wf()
    }

    /// A router for the repos under `workdir`. `lines` are the lines of each repo's
    /// `.gitignore` and `info/exclude`; `global_lines` are those of the user's own excludes
    /// file, which count from `global_root` on.
    pub fn new(
        workdir: &FsPath,
        repos: &Vec<RepoLocation>,
        lines: &Vec<Vec<String>>,
        global_root: &str,
        global_lines: &Vec<String>,
    ) -> (r: Router)
        ensures
            r@ == router_of(
                workdir@,
                location_views(repos@),
                lines@,
                rules_for(global_root@, texts(global_lines@)),
            ),
            r@.wf(),
    {
        let ghost locs = location_views(repos@);
        let n: usize = repos.len();
        let mut roots: Vec<FsPath> = Vec::new();
        let mut bare: Vec<bool> = Vec::new();
        let mut git_dirs: Vec<GitDir> = Vec::new();
        let mut ignores: Vec<Gitignore> = Vec::new();
        let ghost f = |g: Gitignore| rules_of(g);
        let mut i: usize = 0;
        assert(git_dir_views(git_dirs@) =~= Seq::<GitDirView>::empty());
        while i < n
            invariant
                i <= n,
                n == repos@.len(),
                locs == location_views(repos@),
                f == (|g: Gitignore| rules_of(g)),
                path_views(roots@) == locs.take(i as int).map_values(|r: LocationView| r.root),
                bare@ == locs.take(i as int).map_values(|r: LocationView| r.bare),
                git_dir_views(git_dirs@) == git_dirs_of(locs, i as nat),
                ignores@.map_values(f) == Seq::new(
                    i as nat,
                    |i: int| rules_for(lossy_text(locs[i].root), lines_for(lines@, i)),
                ),
            decreases n - i,
        {
            let repo = &repos[i];
            assert(locs[i as int] == repo@);
            let ghost roots0 = roots@;
            let root = repo.root.clone();
            roots.push(root);
            bare.push(repo.bare);
            assert(path_views(roots@) =~= locs.take(i + 1).map_values(|r: LocationView| r.root)) by {
                assert(path_views(roots@) =~= path_views(roots0).push(root@));
                assert(locs.take(i + 1) =~= locs.take(i as int).push(repo@));
            }
            assert(bare@ =~= locs.take(i + 1).map_values(|r: LocationView| r.bare)) by {
                assert(locs.take(i + 1) =~= locs.take(i as int).push(repo@));
            }
            note_git_dir(&mut git_dirs, &repo.git_dir, i, true);
            if !repo.common_dir.same(&repo.git_dir) {
                note_git_dir(&mut git_dirs, &repo.common_dir, i, false);
            }
            let root_text = text_lossy(repo.root.bytes.as_slice());
            let ghost ignores0 = ignores@;
            let g = if i < lines.len() {
                compile_rules(root_text.as_str(), &lines[i])
            } else {
                let none: Vec<String> = Vec::new();
                assert(texts(none@) =~= Seq::<Seq<char>>::empty());
                compile_rules(root_text.as_str(), &none)
            };
            ignores.push(g);
            assert(rules_of(g) == rules_for(lossy_text(locs[i as int].root), lines_for(lines@, i as int)));
            assert(ignores@.map_values(f) =~= ignores0.map_values(f).push(rules_of(g)));
            assert(ignores@.map_values(f) =~= Seq::new(
                (i + 1) as nat,
                |i: int| rules_for(lossy_text(locs[i].root), lines_for(lines@, i)),
            ));
            i = i + 1;
        }
        let global_ignore = compile_rules(global_root, global_lines);
        proof {
            assert(locs.take(n as int) =~= locs);
            lemma_git_dirs_in_range(locs, n as nat, n as int);
        }
        let ghost view = RouterView {
            workdir: workdir@,
            roots: path_views(roots@),
            bare: bare@,
            git_dirs: git_dir_views(git_dirs@),
            ignores: ignores@.map_values(f),
            global: rules_of(global_ignore),
        };
        assert(view =~= router_of(
            workdir@,
            locs,
            lines@,
            rules_for(global_root@, texts(global_lines@)),
        ));
        Router { workdir: workdir.clone(), roots, bare, git_dirs, ignores, global_ignore }
    }

    /// The most specific directory that holds a path.
    fn best_target(&self, path: &FsPath) -> (r: Found)
        ensures
            match r {
                Found::Nothing => self@.best(path@, self@.git_dirs.len()) is None,
                Found::Tree(i) => i < self@.roots.len() && self@.best(path@, self@.git_dirs.len())
                    == Some(Target::WorkTree(i as int)) && within(path@, self@.roots[i as int]),
                Found::Git(i) => i < self@.git_dirs.len() && self@.best(path@, self@.git_dirs.len())
                    == Some(Target::Git(i as int)) && within(path@, self@.git_dirs[i as int].dir),
            },
    {
        proof {
            use_type_invariant(self);
        }
        let ghost v = self@;
        let mut best = Found::Nothing;
        let mut len: usize = 0;
        let mut i: usize = 0;
        while i < self.roots.len()
            invariant
                v == self@,
                v.wf(),
                i <= v.roots.len(),
                match best {
                    Found::Nothing => v.best_tree(path@, i as nat) is None,
                    Found::Tree(b) => b < i && v.best_tree(path@, i as nat) == Some(
                        Target::WorkTree(b as int),
                    ) && within(path@, v.roots[b as int]) && len == v.roots[b as int].len(),
                    Found::Git(_) => false,
                },
            decreases v.roots.len() - i,
        {
            assert(v.roots[i as int] == self.roots@[i as int]@);
            if !self.bare[i] && path.starts_with(&self.roots[i]) {
                let n: usize = self.roots[i].bytes.len();
                let better = match best {
                    Found::Nothing => true,
                    _ => n > len,
                };
                if better {
                    best = Found::Tree(i);
                    len = n;
                }
            }
            i = i + 1;
        }
        let mut k: usize = 0;
        while k < self.git_dirs.len()
            invariant
                v == self@,
                v.wf(),
                k <= v.git_dirs.len(),
                match best {
                    Found::Nothing => v.best(path@, k as nat) is None,
                    Found::Tree(b) => b < v.roots.len() && v.best(path@, k as nat) == Some(
                        Target::WorkTree(b as int),
                    ) && within(path@, v.roots[b as int]) && len == v.roots[b as int].len(),
                    Found::Git(b) => b < k && v.best(path@, k as nat) == Some(Target::Git(b as int))
                        && within(path@, v.git_dirs[b as int].dir) && len == v.git_dirs[b as int].dir.len(),
                },
            decreases v.git_dirs.len() - k,
        {
            assert(v.git_dirs[k as int] == self.git_dirs@[k as int]@);
            if path.starts_with(&self.git_dirs[k].dir) {
                let n: usize = self.git_dirs[k].dir.bytes.len();
                let better = match best {
                    Found::Nothing => true,
                    _ => n > len,
                };
                if better {
                    best = Found::Git(k);
                    len = n;
                }
            }
            k = k + 1;
        }
        best
    }

    /// The roots of some repos.
    fn repo_roots(&self, repos: &Vec<usize>) -> (r: Vec<FsPath>)
        requires
            forall|k: int| 0 <= k < repos@.len() ==> repos@[k] < self@.roots.len(),
        ensures
            path_views(r@) == self@.roots_of(repos@),
    {
        let mut out: Vec<FsPath> = Vec::new();
        let mut i: usize = 0;
        while i < repos.len()
            invariant
                i <= repos@.len(),
                forall|k: int| 0 <= k < repos@.len() ==> repos@[k] < self@.roots.len(),
                path_views(out@) == self@.roots_of(repos@).take(i as int),
            decreases repos@.len() - i,
        {
            let ghost before = path_views(out@);
            let root = self.roots[repos[i]].clone();
            out.push(root);
            assert(path_views(out@) =~= before.push(root@));
            assert(self@.roots_of(repos@).take(i + 1) =~= self@.roots_of(repos@).take(i as int).push(
                root@,
            ));
            i = i + 1;
        }
        assert(self@.roots_of(repos@).take(repos@.len() as int) =~= self@.roots_of(repos@));
        out
    }

    /// What a change in a working tree means.
    fn route_in_tree(&self, i: usize, path: &FsPath) -> (r: Route)
        requires
            i < self@.roots.len(),
            within(path@, self@.roots[i as int]),
        ensures
            r@ == self@.route_tree(i as int, path@),
    {
        proof {
            use_type_invariant(self);
        }
        let parts = path.parts();
        let base = self.roots[i].parts();
        let from: usize = base.len();
        let ghost rest = below(path@, self@.roots[i as int]);
        assert(self@.roots[i as int] == self.roots@[i as int]@);
        assert(views(parts@).skip(from as int) == rest);
        if from == parts.len() || skipped_parts(&parts, from) {
            return Route::Ignore;
        }
        match path.strip_prefix(&self.roots[i]) {
            Some(rel) => {
                let text = text_lossy(rel.bytes.as_slice());
                // Events don't say whether the path was a directory; directory-only
                // patterns like `build/` still match through the parent check.
                if is_ignored(&self.ignores[i], text.as_str()) || is_ignored(
                    &self.global_ignore,
                    text.as_str(),
                ) {
                    Route::Ignore
                } else {
                    let mut out: Vec<FsPath> = Vec::new();
                    out.push(self.roots[i].clone());
                    assert(path_views(out@) =~= seq![self@.roots[i as int]]);
                    Route::Repos(out)
                }
            },
            None => Route::Ignore,
        }
    }

    /// What a change in a git dir means.
    fn route_in_git(&self, i: usize, path: &FsPath) -> (r: Route)
        requires
            i < self@.git_dirs.len(),
            within(path@, self@.git_dirs[i as int].dir),
        ensures
            r@ == self@.route_git(
                self@.git_dirs[i as int],
                below(path@, self@.git_dirs[i as int].dir),
            ),
    {
        proof {
            use_type_invariant(self);
        }
        let ghost git = self@.git_dirs[i as int];
        assert(git == self.git_dirs@[i as int]@);
        let parts = path.parts();
        let base = self.git_dirs[i].dir.parts();
        let from: usize = base.len();
        let ghost rest = below(path@, git.dir);
        assert(views(parts@).skip(from as int) == rest);
        if ignored_parts(&parts, from) {
            return Route::Ignore;
        }
        let list = vec!["refs", "packed-refs", "config", "reftable", "shallow", "info"];
        assert(list@ =~= shared_git_paths());
        assert(from < parts@.len() ==> rest[0] == parts@[from as int]@);
        let shared = from < parts.len() && is_one_of(parts[from], &list);
        assert(shared == (rest.len() > 0 && among(rest[0], shared_git_paths())));
        let repos: &Vec<usize> = if shared {
            &self.git_dirs[i].sharing
        } else {
            &self.git_dirs[i].own
        };
        if repos.len() == 0 {
            Route::Ignore
        } else {
            Route::Repos(self.repo_roots(repos))
        }
    }

    /// What a changed path means.
    pub fn route(&self, path: &FsPath) -> (r: Route)
        ensures
            r@ == self@.route(path@),
    {
        match self.best_target(path) {
            Found::Nothing => {
                let marker = match path.file_name() {
                    Some(name) => same_slice(name.as_slice(), bytes_of(".git")),
                    None => false,
                };
                if path.is_directly_in(&self.workdir) || marker {
                    Route::Rescan
                } else {
                    Route::Ignore
                }
            },
            Found::Tree(i) => self.route_in_tree(i, path),
            Found::Git(i) => self.route_in_git(i, path),
        }
    }
}

impl CoalescerView {
    /// With what a path that changed means.
    pub open spec fn with_route(self, route: RouteView, now: u64) -> CoalescerView {
        match route {
            RouteView::Ignore => self,
            RouteView::Repos(roots) => self.with_changes(roots, now),
            RouteView::Rescan => self.with_rescan(now),
        }
    }

    /// With what some paths that changed mean.
    pub open spec fn with_paths(self, router: RouterView, paths: Seq<Seq<u8>>, now: u64) -> CoalescerView
        decreases paths.len(),
    {
        if paths.len() == 0 {
            self
        } else {
            self.with_paths(router, paths.drop_last(), now).with_route(router.route(paths.last()), now)
        }
    }

    /// With an event. One that lost track of what changed means that anything may have.
    pub open spec fn with_event(
        self,
        router: RouterView,
        all_roots: Seq<Seq<u8>>,
        lost: bool,
        paths: Seq<Seq<u8>>,
        now: u64,
    ) -> CoalescerView {
        let start = if lost {
            self.with_changes(all_roots, now).with_rescan(now)
        } else {
            self
        };
        start.with_paths(router, paths, now)
    }
}

/// Takes in an event: `lost` says that the watcher lost track of what changed.
pub fn note_event(
    state: &mut Coalescer,
    router: &Router,
    all_roots: &Vec<FsPath>,
    lost: bool,
    paths: &Vec<FsPath>,
    now: u64,
)
    ensures
        final(state)@ == old(state)@.with_event(
            router@,
            path_views(all_roots@),
            lost,
            path_views(paths@),
            now,
        ),
        old(state)@.wf() ==> final(state)@.wf(),
{
    if lost {
        state.mark_all(all_roots, now);
        state.ask_rescan(now);
    }
    let ghost start = state@;
    let ghost all = path_views(paths@);
    let mut i: usize = 0;
    assert(all.take(0) =~= Seq::<Seq<u8>>::empty());
    while i < paths.len()
        invariant
            i <= paths@.len(),
            all == path_views(paths@),
            state@ == start.with_paths(router@, all.take(i as int), now),
            old(state)@.wf() ==> state@.wf(),
        decreases paths@.len() - i,
    {
        let ghost next = all.take(i + 1);
        assert(next.drop_last() =~= all.take(i as int));
        assert(next.last() == paths@[i as int]@);
        match router.route(&paths[i]) {
            Route::Ignore => {},
            Route::Repos(roots) => state.mark_all(&roots, now),
            Route::Rescan => state.ask_rescan(now),
        }
        i = i + 1;
    }
    assert(all.take(all.len() as int) =~= all);
}

/// Whether the git dirs of a repo need a watch of their own: those outside the workdir do
/// (e.g. worktrees of a repo elsewhere).
pub fn needs_own_watch(workdir: &FsPath, dir: &FsPath) -> (r: bool)
    ensures
        r == !within(dir@, workdir@),
{
    !dir.starts_with(workdir)
}

/// The most specific prefix wins: no directory that holds the path is longer than the one
/// that was chosen.
pub proof fn law_most_specific_directory_wins(v: RouterView, path: Seq<u8>, other: Target)
    requires
        v.holds(other, path),
    ensures
        v.best(path, v.git_dirs.len()) matches Some(t) && v.holds(t, path) && v.dir(t).len() >= v.dir(
            other,
        ).len(),
{
    lemma_best_is_longest(v, path, v.git_dirs.len());
    lemma_best_tree_is_longest(v, path, v.roots.len());
    match other {
        Target::WorkTree(i) => {},
        Target::Git(i) => {},
    }
}

proof fn lemma_best_tree_is_longest(v: RouterView, path: Seq<u8>, n: nat)
    requires
        n <= v.roots.len(),
    ensures
        v.best_tree(path, n) matches Some(t) ==> v.holds(t, path),
        forall|i: int|
            0 <= i < n && #[trigger] v.holds(Target::WorkTree(i), path) ==> (v.best_tree(
                path,
                n,
            ) matches Some(t) && v.dir(t).len() >= v.dir(Target::WorkTree(i)).len()),
    decreases n,
{
    if n > 0 {
        lemma_best_tree_is_longest(v, path, (n - 1) as nat);
    }
}

proof fn lemma_best_is_longest(v: RouterView, path: Seq<u8>, n: nat)
    requires
        n <= v.git_dirs.len(),
    ensures
        v.best(path, n) matches Some(t) ==> v.holds(t, path),
        forall|i: int|
            0 <= i < n && #[trigger] v.holds(Target::Git(i), path) ==> (v.best(path, n) matches Some(t)
                && v.dir(t).len() >= v.dir(Target::Git(i)).len()),
        forall|i: int|
            0 <= i < v.roots.len() && #[trigger] v.holds(Target::WorkTree(i), path) ==> (v.best(
                path,
                n,
            ) matches Some(t) && v.dir(t).len() >= v.dir(Target::WorkTree(i)).len()),
    decreases n,
{
    if n > 0 {
        lemma_best_is_longest(v, path, (n - 1) as nat);
    } else {
        lemma_best_tree_is_longest(v, path, v.roots.len());
    }
}

/// Without gitignore rules, every path in a working tree that isn't skipped refreshes its
/// repo.
pub proof fn law_without_rules_every_path_counts(v: RouterView, path: Seq<u8>, repo: int)
    requires
        v.best(path, v.git_dirs.len()) == Some(Target::WorkTree(repo)),
        v.ignores[repo].rules.len() == 0,
        v.global.rules.len() == 0,
        below(path, v.roots[repo]).len() > 0,
        !RouterView::skipped(below(path, v.roots[repo])),
    ensures
        v.route(path) == RouteView::Repos(seq![v.roots[repo]]),
{
}

/// A path in no repo never refreshes one.
pub proof fn law_paths_outside_refresh_nothing(v: RouterView, path: Seq<u8>)
    requires
        forall|t: Target| !v.holds(t, path),
    ensures
        !(v.route(path) is Repos),
{
    lemma_best_is_longest(v, path, v.git_dirs.len());
    if let Some(t) = v.best(path, v.git_dirs.len()) {
        assert(!v.holds(t, path));
    }
}

} // verus!
