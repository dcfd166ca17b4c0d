//! Moving between the changed lines of a diff.

use vstd::prelude::*;

use crate::patch::diff::{is_marker, PatchView};

verus! {

/// The view of an optional index.
pub open spec fn index_opt(i: Option<usize>) -> Option<int> {
    match i {
        Some(i) => Some(i as int),
        None => None,
    }
}

impl PatchView {
    /// Whether line `i` can be staged.
    pub open spec fn change(self, i: int) -> bool {
        0 <= i < self.changes.len() && self.changes[i]
    }

    /// The first changed line at or after `from`.
    pub open spec fn next_change(self, from: int) -> Option<int>
        decreases self.changes.len() - from,
    {
        if from >= self.changes.len() {
            None
        } else if self.change(from) {
            Some(from)
        } else {
            self.next_change(from + 1)
        }
    }

    /// The last changed line before `to`.
    pub open spec fn previous_change(self, to: int) -> Option<int>
        decreases to,
    {
        if to <= 0 {
            None
        } else if self.change(to - 1) {
            Some(to - 1)
        } else {
            self.previous_change(to - 1)
        }
    }

    /// The first changed line at or after `ix`, else the last one before it.
    pub open spec fn closest_change(self, ix: int) -> Option<int> {
        match self.next_change(ix) {
            Some(i) => Some(i),
            None => self.previous_change(ix),
        }
    }

    /// Whether line `i` belongs to a block of changes when its neighbour does.
    pub open spec fn in_run(self, i: int) -> bool {
        0 <= i < self.lines.len() && (self.change(i) || is_marker(self.lines[i]))
    }

    /// Where the run of changes and markers that ends before `i` starts.
    pub open spec fn run_start(self, i: int) -> int
        decreases i,
    {
        if i > 0 && self.in_run(i - 1) {
            self.run_start(i - 1)
        } else {
            i
        }
    }

    /// Where the run of changes and markers that starts at `i` ends.
    pub open spec fn run_end(self, i: int) -> int
        decreases self.lines.len() - i,
    {
        if self.in_run(i) {
            self.run_end(i + 1)
        } else {
            i
        }
    }

    /// The run of adjacent changed lines around `ix`, with the markers among them.
    pub open spec fn block_of(self, ix: int) -> Option<(int, int)> {
        if self.change(ix) {
            Some((self.run_start(ix), self.run_end(ix + 1)))
        } else {
            None
        }
    }

    /// The first line of the next (or previous) block of changes.
    pub open spec fn block_beside(self, ix: int, forward: bool) -> Option<int> {
        let (start, end) = match self.block_of(ix) {
            Some(block) => block,
            None => (ix, ix + 1),
        };
        if forward {
            self.next_change(end)
        } else {
            match self.previous_change(start) {
                Some(i) => Some(self.run_start(i)),
                None => None,
            }
        }
    }
}

/// The next change is the first one: nothing between it and the start is changed, and
/// there is none only when nothing from the start on is.
pub proof fn law_next_change_is_first(p: PatchView, from: int)
    requires
        0 <= from,
    ensures
        match p.next_change(from) {
            Some(i) => from <= i && p.change(i) && forall|j: int| from <= j < i ==> !p.change(j),
            None => forall|j: int| from <= j ==> !p.change(j),
        },
    decreases p.changes.len() - from,
{
    if from < p.changes.len() && !p.change(from) {
        law_next_change_is_first(p, from + 1);
        match p.next_change(from + 1) {
            Some(i) => {
                assert forall|j: int| from <= j < i implies !p.change(j) by {
                    if j > from {
                    }
                }
            },
            None => {
                assert forall|j: int| from <= j implies !p.change(j) by {
                    if j > from {
                    }
                }
            },
        }
    }
}

/// The previous change is the last one before the start.
pub proof fn law_previous_change_is_last(p: PatchView, to: int)
    ensures
        match p.previous_change(to) {
            Some(i) => i < to && p.change(i) && forall|j: int| i < j < to ==> !p.change(j),
            None => forall|j: int| j < to ==> !p.change(j),
        },
    decreases to,
{
    if to > 0 && !p.change(to - 1) {
        law_previous_change_is_last(p, to - 1);
        match p.previous_change(to - 1) {
            Some(i) => {
                assert forall|j: int| i < j < to implies !p.change(j) by {
                    if j < to - 1 {
                    }
                }
            },
            None => {
                assert forall|j: int| j < to implies !p.change(j) by {
                    if j < to - 1 {
                    }
                }
            },
        }
    }
}

/// A run's start: everything from there on belongs to it, and the line before doesn't.
pub proof fn lemma_run_start(p: PatchView, i: int)
    requires
        0 <= i,
    ensures
        0 <= p.run_start(i) <= i,
        forall|j: int| p.run_start(i) <= j < i ==> p.in_run(j),
        !p.in_run(p.run_start(i) - 1),
    decreases i,
{
    if i > 0 && p.in_run(i - 1) {
        lemma_run_start(p, i - 1);
    }
}

/// A run's end: everything up to there belongs to it, and the line there doesn't.
pub proof fn lemma_run_end(p: PatchView, i: int)
    requires
        0 <= i,
    ensures
        i <= p.run_end(i),
        i <= p.lines.len() ==> p.run_end(i) <= p.lines.len(),
        forall|j: int| i <= j < p.run_end(i) ==> p.in_run(j),
        !p.in_run(p.run_end(i)),
    decreases p.lines.len() - i,
{
    if p.in_run(i) {
        lemma_run_end(p, i + 1);
    }
}

/// A block is a maximal run of changes and markers: the line that it was asked for is in
/// it, every line in it is a change or a marker, and the lines around it are neither.
pub proof fn law_block_is_maximal_run(p: PatchView, ix: int)
    requires
        p.wf(),
        p.change(ix),
    ensures
        ({
            let (start, end) = p.block_of(ix).unwrap();
            &&& 0 <= start <= ix < end <= p.lines.len()
            &&& forall|j: int| start <= j < end ==> p.in_run(j)
            &&& !p.in_run(start - 1)
            &&& !p.in_run(end)
        }),
{
    lemma_run_start(p, ix);
    lemma_run_end(p, ix + 1);
}

/// Every changed line of a block has that same block.
pub proof fn law_block_of_any_line_in_it(p: PatchView, ix: int, other: int)
    requires
        p.wf(),
        p.change(ix),
        p.change(other),
        p.block_of(ix).unwrap().0 <= other < p.block_of(ix).unwrap().1,
    ensures
        p.block_of(other) == p.block_of(ix),
{
    law_block_is_maximal_run(p, ix);
    law_block_is_maximal_run(p, other);
    let (s1, e1) = p.block_of(ix).unwrap();
    let (s2, e2) = p.block_of(other).unwrap();
    if s2 < s1 {
        assert(p.in_run(s1 - 1));
    }
    if s1 < s2 {
        assert(p.in_run(s2 - 1));
    }
    if e2 < e1 {
        assert(p.in_run(e2));
    }
    if e1 < e2 {
        assert(p.in_run(e1));
    }
}

} // verus!
