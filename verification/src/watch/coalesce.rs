//! Gathers changes per repo, so that a burst of events refreshes it once.

use vstd::prelude::*;

use crate::path::{path_views, paths_differ, same_path, FsPath};

verus! {

/// Quiet period after the last event before a repo is refreshed, in milliseconds.
pub const DEBOUNCE: u64 = 250;

/// Longest a repo waits under a continuous stream of events, in milliseconds.
pub const MAX_DELAY: u64 = 2000;

/// How long a rescan waits for more changes, in milliseconds.
pub const RESCAN_DELAY: u64 = 1000;

/// A repo with changes that were not reported yet. Times are milliseconds on a clock that
/// never goes back.
#[derive(Debug, PartialEq, Eq)]
pub struct Pending {
    pub root: FsPath,
    pub first: u64,
    pub last: u64,
}

#[verifier::ext_equal]
pub ghost struct PendingView {
    pub root: Seq<u8>,
    pub first: u64,
    pub last: u64,
}

impl View for Pending {
    type V = PendingView;

    open spec fn view(&self) -> PendingView {
        PendingView { root: self.root@, first: self.first, last: self.last }
    }
}

/// The views of some pending changes.
pub open spec fn pending_views(list: Seq<Pending>) -> Seq<PendingView> {
    list.map_values(|p: Pending| p@)
}

impl PendingView {
    /// Whether the repo has to be refreshed: it has been quiet, or has waited long enough.
    pub open spec fn due(self, now: u64) -> bool {
        now - self.last >= DEBOUNCE || now - self.first >= MAX_DELAY
    }
}

/// The changes with one more to `root`.
pub open spec fn marked(list: Seq<PendingView>, root: Seq<u8>, now: u64) -> Seq<PendingView>
    decreases list.len(),
{
    if list.len() == 0 {
        seq![PendingView { root, first: now, last: now }]
    } else if same_path(list[0].root, root) {
        seq![PendingView { last: now, ..list[0] }] + list.drop_first()
    } else {
        seq![list[0]] + marked(list.drop_first(), root, now)
    }
}

/// The changes with one more to each of the roots.
pub open spec fn all_marked(list: Seq<PendingView>, roots: Seq<Seq<u8>>, now: u64) -> Seq<PendingView>
    decreases roots.len(),
{
    if roots.len() == 0 {
        list
    } else {
        marked(all_marked(list, roots.drop_last(), now), roots.last(), now)
    }
}

/// The roots that are due.
pub open spec fn due_roots(list: Seq<PendingView>, now: u64) -> Seq<Seq<u8>>
    decreases list.len(),
{
    if list.len() == 0 {
        Seq::empty()
    } else if list.last().due(now) {
        due_roots(list.drop_last(), now).push(list.last().root)
    } else {
        due_roots(list.drop_last(), now)
    }
}

/// The changes that still wait.
pub open spec fn still_pending(list: Seq<PendingView>, now: u64) -> Seq<PendingView>
    decreases list.len(),
{
    if list.len() == 0 {
        Seq::empty()
    } else if list.last().due(now) {
        still_pending(list.drop_last(), now)
    } else {
        still_pending(list.drop_last(), now).push(list.last())
    }
}

/// Whether a change to `root` waits.
pub open spec fn waits(list: Seq<PendingView>, root: Seq<u8>) -> bool {
    exists|i: int| 0 <= i < list.len() && same_path((#[trigger] list[i]).root, root)
}

/// Whether a root is among some.
pub open spec fn reported(roots: Seq<Seq<u8>>, root: Seq<u8>) -> bool {
    exists|i: int| 0 <= i < roots.len() && same_path(#[trigger] roots[i], root)
}

/// What waits to be reported.
#[derive(Debug, PartialEq, Eq)]
pub struct Coalescer {
    pub pending: Vec<Pending>,
    /// When the first unreported change asked for a rescan of the workdir.
    pub rescan: Option<u64>,
}

#[verifier::ext_equal]
pub ghost struct CoalescerView {
    pub pending: Seq<PendingView>,
    pub rescan: Option<u64>,
}

impl View for Coalescer {
    type V = CoalescerView;

    open spec fn view(&self) -> CoalescerView {
        CoalescerView { pending: pending_views(self.pending@), rescan: self.rescan }
    }
}

/// The roots of some pending changes.
pub open spec fn roots_in(list: Seq<PendingView>) -> Seq<Seq<u8>> {
    list.map_values(|p: PendingView| p.root)
}

impl CoalescerView {
    /// What every operation keeps: a repo waits once.
    pub open spec fn wf(self) -> bool {
        paths_differ(roots_in(self.pending))
    }

    /// With a rescan asked for.
    pub open spec fn with_rescan(self, now: u64) -> CoalescerView {
        CoalescerView {
            rescan: if self.rescan is Some {
                self.rescan
            } else {
                Some(now)
            },
            ..self
        }
    }

    /// With a change to each of the roots.
    pub open spec fn with_changes(self, roots: Seq<Seq<u8>>, now: u64) -> CoalescerView {
        CoalescerView { pending: all_marked(self.pending, roots, now), ..self }
    }

    /// Whether a rescan is due.
    pub open spec fn rescan_due(self, now: u64) -> bool {
        self.rescan matches Some(at) && now - at >= RESCAN_DELAY
    }
}

/// Whether at least `delay` has passed since `then`.
fn passed(now: u64, then: u64, delay: u64) -> (r: bool)
    ensures
        r == (now - then >= delay),
{
    now >= then && now - then >= delay
}

impl Coalescer {
    /// Nothing waits.
    pub fn new() -> (r: Coalescer)
        ensures
            r@ == (CoalescerView { pending: Seq::empty(), rescan: None }),
            r@.wf(),
    {
        let r = Coalescer { pending: Vec::new(), rescan: None };
        assert(pending_views(r.pending@) =~= Seq::<PendingView>::empty());
        r
    }

    /// Notes a change to a repo.
    pub fn mark(&mut self, root: &FsPath, now: u64)
        ensures
            final(self)@ == (CoalescerView {
                pending: marked(old(self)@.pending, root@, now),
                ..old(self)@
            }),
            old(self)@.wf() ==> final(self)@.wf(),
    {
        proof {
            if self@.wf() {
                law_repos_wait_once(self@.pending, root@, now);
            }
        }
        let ghost all = pending_views(self.pending@);
        let n: usize = self.pending.len();
        let mut i: usize = 0;
        assert(all.skip(0) =~= all);
        assert(all.take(0) =~= Seq::<PendingView>::empty());
        while i < n
            invariant
                i <= n,
                n == self.pending@.len(),
                *self == *old(self),
                all == pending_views(self.pending@),
                marked(all, root@, now) == all.take(i as int) + marked(all.skip(i as int), root@, now),
                old(self)@.wf() ==> paths_differ(roots_in(marked(all, root@, now))),
            decreases n - i,
        {
            let ghost rest = all.skip(i as int);
            assert(rest[0] == self.pending@[i as int]@);
            assert(rest.drop_first() =~= all.skip(i + 1));
            if self.pending[i].root.same(root) {
                let ghost before = self.pending@;
                let p = Pending {
                    root: self.pending[i].root.clone(),
                    first: self.pending[i].first,
                    last: now,
                };
                self.pending.set(i, p);
                assert(pending_views(self.pending@) =~= all.take(i as int) + (seq![
                    PendingView { last: now, ..all[i as int] },
                ] + all.skip(i + 1)));
                return;
            }
            assert(all.take(i + 1) + marked(all.skip(i + 1), root@, now) =~= all.take(i as int) + (seq![
                rest[0],
            ] + marked(rest.drop_first(), root@, now)));
            i = i + 1;
        }
        let p = Pending { root: root.clone(), first: now, last: now };
        self.pending.push(p);
        assert(all.skip(n as int) =~= Seq::<PendingView>::empty());
        assert(all.take(n as int) =~= all);
        assert(pending_views(self.pending@) =~= all + seq![p@]);
    }

    /// Notes a change to each of some repos.
    pub fn mark_all(&mut self, roots: &Vec<FsPath>, now: u64)
        ensures
            final(self)@ == old(self)@.with_changes(path_views(roots@), now),
            old(self)@.wf() ==> final(self)@.wf(),
    {
        let ghost all = path_views(roots@);
        let mut i: usize = 0;
        assert(all.take(0) =~= Seq::<Seq<u8>>::empty());
        while i < roots.len()
            invariant
                i <= roots@.len(),
                all == path_views(roots@),
                self@ == old(self)@.with_changes(all.take(i as int), now),
                old(self)@.wf() ==> self@.wf(),
            decreases roots@.len() - i,
        {
            let ghost next = all.take(i + 1);
            assert(next.drop_last() =~= all.take(i as int));
            assert(next.last() == roots@[i as int]@);
            self.mark(&roots[i], now);
            i = i + 1;
        }
        assert(all.take(all.len() as int) =~= all);
    }

    /// Asks for a rescan of the workdir.
    pub fn ask_rescan(&mut self, now: u64)
        ensures
            final(self)@ == old(self)@.with_rescan(now),
            old(self)@.wf() ==> final(self)@.wf(),
    {
        if self.rescan.is_none() {
            self.rescan = Some(now);
        }
    }

    /// What is due: the roots of the repos to refresh, and whether to rescan the workdir.
    pub fn take_due(&mut self, now: u64) -> (r: (Vec<FsPath>, bool))
        ensures
            path_views(r.0@) == due_roots(old(self)@.pending, now),
            r.1 == old(self)@.rescan_due(now),
            final(self)@ == (CoalescerView {
                pending: still_pending(old(self)@.pending, now),
                rescan: if old(self)@.rescan_due(now) {
                    None
                } else {
                    old(self)@.rescan
                },
            }),
            old(self)@.wf() ==> final(self)@.wf() && paths_differ(path_views(r.0@)),
    {
        proof {
            if self@.wf() {
                law_repos_wait_once(self@.pending, Seq::empty(), now);
            }
        }
        let ghost all = pending_views(self.pending@);
        let mut due: Vec<FsPath> = Vec::new();
        let mut rest: Vec<Pending> = Vec::new();
        let mut i: usize = 0;
        assert(all.take(0) =~= Seq::<PendingView>::empty());
        assert(path_views(due@) =~= Seq::<Seq<u8>>::empty());
        assert(pending_views(rest@) =~= Seq::<PendingView>::empty());
        while i < self.pending.len()
            invariant
                i <= self.pending@.len(),
                *self == *old(self),
                all == pending_views(self.pending@),
                path_views(due@) == due_roots(all.take(i as int), now),
                pending_views(rest@) == still_pending(all.take(i as int), now),
            decreases self.pending@.len() - i,
        {
            let ghost next = all.take(i + 1);
            assert(next.drop_last() =~= all.take(i as int));
            assert(next.last() == self.pending@[i as int]@);
            let p = &self.pending[i];
            if passed(now, p.last, DEBOUNCE) || passed(now, p.first, MAX_DELAY) {
                let ghost before = path_views(due@);
                let root = p.root.clone();
                due.push(root);
                assert(path_views(due@) =~= before.push(root@));
            } else {
                let ghost before = pending_views(rest@);
                let kept = Pending { root: p.root.clone(), first: p.first, last: p.last };
                rest.push(kept);
                assert(pending_views(rest@) =~= before.push(kept@));
            }
            i = i + 1;
        }
        assert(all.take(all.len() as int) =~= all);
        let rescan = match self.rescan {
            Some(at) => passed(now, at, RESCAN_DELAY),
            None => false,
        };
        self.pending = rest;
        if rescan {
            self.rescan = None;
        }
        (due, rescan)
    }
}

/// A noted change waits, and every change that waited before still does.
pub proof fn law_marked_changes_wait(list: Seq<PendingView>, root: Seq<u8>, now: u64, other: Seq<u8>)
    ensures
        waits(marked(list, root, now), root),
        waits(list, other) ==> waits(marked(list, root, now), other),
    decreases list.len(),
{
    let after = marked(list, root, now);
    if list.len() == 0 {
        assert(after[0].root == root);
    } else if same_path(list[0].root, root) {
        assert(same_path(after[0].root, root));
        if waits(list, other) {
            let i = choose|i: int| 0 <= i < list.len() && same_path((#[trigger] list[i]).root, other);
            if i > 0 {
                assert(after[i] == list[i]);
            } else {
                assert(after[0].root == list[0].root);
            }
        }
    } else {
        let rest = list.drop_first();
        law_marked_changes_wait(rest, root, now, other);
        let tail = marked(rest, root, now);
        let k = choose|k: int| 0 <= k < tail.len() && same_path((#[trigger] tail[k]).root, root);
        assert(after[k + 1] == tail[k]);
        if waits(list, other) {
            let i = choose|i: int| 0 <= i < list.len() && same_path((#[trigger] list[i]).root, other);
            if i == 0 {
                assert(after[0] == list[0]);
            } else {
                assert(rest[i - 1] == list[i]);
                let m = choose|m: int|
                    0 <= m < tail.len() && same_path((#[trigger] tail[m]).root, other);
                assert(after[m + 1] == tail[m]);
            }
        }
    }
}

proof fn lemma_marked_roots(list: Seq<PendingView>, root: Seq<u8>, now: u64)
    ensures
        roots_in(marked(list, root, now)) == (if waits(list, root) {
            roots_in(list)
        } else {
            roots_in(list).push(root)
        }),
    decreases list.len(),
{
    let after = marked(list, root, now);
    if list.len() == 0 {
        assert(roots_in(after) =~= roots_in(list).push(root));
    } else if same_path(list[0].root, root) {
        assert(waits(list, root));
        assert(roots_in(after) =~= roots_in(list));
    } else {
        let rest = list.drop_first();
        lemma_marked_roots(rest, root, now);
        let tail = marked(rest, root, now);
        assert(roots_in(after) =~= seq![list[0].root] + roots_in(tail));
        assert(roots_in(list) =~= seq![list[0].root] + roots_in(rest));
        if waits(rest, root) {
            let i = choose|i: int| 0 <= i < rest.len() && same_path((#[trigger] rest[i]).root, root);
            assert(list[i + 1] == rest[i]);
            assert(waits(list, root));
            assert(roots_in(after) =~= roots_in(list));
        } else {
            if waits(list, root) {
                let i = choose|i: int| 0 <= i < list.len() && same_path((#[trigger] list[i]).root, root);
                assert(rest[i - 1] == list[i]);
            }
            assert(roots_in(after) =~= roots_in(list).push(root));
        }
    }
}

/// A repo waits once, however often it changes, and is reported once: noting a change keeps
/// the roots that wait pairwise different, and so does reporting those that are due.
pub proof fn law_repos_wait_once(list: Seq<PendingView>, root: Seq<u8>, now: u64)
    requires
        paths_differ(roots_in(list)),
    ensures
        paths_differ(roots_in(marked(list, root, now))),
        paths_differ(roots_in(still_pending(list, now))),
        paths_differ(due_roots(list, now)),
{
    lemma_marked_roots(list, root, now);
    let roots = roots_in(list);
    if !waits(list, root) {
        assert forall|i: int| 0 <= i < roots.len() implies !same_path(#[trigger] roots[i], root) by {
            assert(!same_path(list[i].root, root));
        }
    }
    lemma_parted(list, now);
}

/// What is due and what still waits are parts of what waited.
proof fn lemma_parted(list: Seq<PendingView>, now: u64)
    requires
        paths_differ(roots_in(list)),
    ensures
        paths_differ(roots_in(still_pending(list, now))),
        paths_differ(due_roots(list, now)),
        forall|i: int|
            0 <= i < still_pending(list, now).len() ==> roots_in(list).contains(
                #[trigger] roots_in(still_pending(list, now))[i],
            ),
        forall|i: int|
            0 <= i < due_roots(list, now).len() ==> roots_in(list).contains(
                #[trigger] due_roots(list, now)[i],
            ),
    decreases list.len(),
{
    if list.len() > 0 {
        let front = list.drop_last();
        let roots = roots_in(list);
        let last = roots[roots.len() - 1];
        assert(roots_in(front) =~= roots.drop_last());
        lemma_parted(front, now);
        let rest = roots_in(still_pending(front, now));
        let due = due_roots(front, now);
        assert forall|x: Seq<u8>| #[trigger] roots_in(front).contains(x) implies roots.contains(x)
            && !same_path(x, last) by {
            let k = choose|k: int| 0 <= k < roots_in(front).len() && roots_in(front)[k] == x;
            assert(roots[k] == x);
            assert(!same_path(roots[k], roots[roots.len() - 1]));
        }
        assert(roots.contains(last));
        if list.last().due(now) {
            assert(roots_in(still_pending(list, now)) == rest);
            assert(due_roots(list, now) == due.push(last));
        } else {
            assert(roots_in(still_pending(list, now)) =~= rest.push(last));
            assert(due_roots(list, now) == due);
        }
    }
}

/// Nothing is lost: a change that waits is reported or waits on.
pub proof fn law_no_change_is_lost(list: Seq<PendingView>, now: u64, root: Seq<u8>)
    requires
        waits(list, root),
    ensures
        reported(due_roots(list, now), root) || waits(still_pending(list, now), root),
    decreases list.len(),
{
    let i = choose|i: int| 0 <= i < list.len() && same_path((#[trigger] list[i]).root, root);
    let before = list.drop_last();
    let due = due_roots(list, now);
    let rest = still_pending(list, now);
    if i == list.len() - 1 {
        if list.last().due(now) {
            assert(due[due.len() - 1] == list.last().root);
        } else {
            assert(rest[rest.len() - 1] == list.last());
        }
    } else {
        assert(before[i] == list[i]);
        law_no_change_is_lost(before, now, root);
        if reported(due_roots(before, now), root) {
            let k = choose|k: int|
                0 <= k < due_roots(before, now).len() && same_path(
                    #[trigger] due_roots(before, now)[k],
                    root,
                );
            assert(due[k] == due_roots(before, now)[k]);
        } else {
            let k = choose|k: int|
                0 <= k < still_pending(before, now).len() && same_path(
                    (#[trigger] still_pending(before, now)[k]).root,
                    root,
                );
            assert(rest[k] == still_pending(before, now)[k]);
        }
    }
}

/// Under a continuous stream of events a repo waits no longer than the longest delay: what
/// still waits has its first event less than that ago.
pub proof fn law_no_change_waits_too_long(list: Seq<PendingView>, now: u64, i: int)
    requires
        0 <= i < still_pending(list, now).len(),
    ensures
        now - still_pending(list, now)[i].first < MAX_DELAY,
        now - still_pending(list, now)[i].last < DEBOUNCE,
    decreases list.len(),
{
    let before = still_pending(list.drop_last(), now);
    if i < before.len() {
        law_no_change_waits_too_long(list.drop_last(), now, i);
        assert(still_pending(list, now)[i] == before[i]);
    }
}

/// More events for a repo that waits don't restart its longest delay: the time of the
/// first event stays.
pub proof fn law_marking_keeps_the_first_event(list: Seq<PendingView>, root: Seq<u8>, now: u64, i: int)
    requires
        0 <= i < list.len(),
    ensures
        i < marked(list, root, now).len(),
        marked(list, root, now)[i].first == list[i].first,
        marked(list, root, now)[i].root == list[i].root,
    decreases list.len(),
{
    if same_path(list[0].root, root) {
        if i > 0 {
            assert(marked(list, root, now)[i] == list[i]);
        }
    } else if i > 0 {
        let rest = list.drop_first();
        law_marking_keeps_the_first_event(rest, root, now, i - 1);
        assert(rest[i - 1] == list[i]);
        assert(marked(list, root, now)[i] == marked(rest, root, now)[i - 1]);
    }
}

} // verus!
