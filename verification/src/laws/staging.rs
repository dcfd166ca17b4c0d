//! What the staging view selects, and where its cursor goes.

use vstd::prelude::*;

use crate::ops::PatchAction;
use crate::patch::diff::{is_marker, PatchView};
use crate::patch::navigate::{
    law_block_is_maximal_run, law_next_change_is_first, law_previous_change_is_last, lemma_run_start,
};
use crate::ui::staging::StagingView;

verus! {

/// Whether a line is selected.
pub open spec fn selects(s: StagingView, patch: PatchView, k: int) -> bool {
    s.selection(patch).0 <= k < s.selection(patch).1
}

/// Whether a line lies between two others, both included.
pub open spec fn between(a: int, b: int, k: int) -> bool {
    a <= k <= b || b <= k <= a
}

/// While a range is open, a line is selected exactly if it lies between the line where the
/// range started and the cursor, both ends included.
pub proof fn law_range_is_selected(s: StagingView, patch: PatchView, anchor: int, k: int)
    requires
        s.anchor == Some(anchor),
    ensures
        selects(s, patch, k) <==> between(anchor, s.cursor, k),
{
}

/// Without a range, line mode selects the cursor's line and no other.
pub proof fn law_line_is_selected(s: StagingView, patch: PatchView, k: int)
    requires
        s.anchor is None,
        !s.hunk,
    ensures
        selects(s, patch, k) <==> k == s.cursor,
{
}

/// Without a range, hunk mode selects, around a change, every line that only changes and
/// their end-of-file markers separate from it, and no other; elsewhere just the cursor's line.
pub proof fn law_hunk_is_selected(s: StagingView, patch: PatchView, k: int)
    requires
        patch.wf(),
        s.anchor is None,
        s.hunk,
        0 <= s.cursor,
        0 <= k,
    ensures
        !patch.change(s.cursor) ==> (selects(s, patch, k) <==> k == s.cursor),
        patch.change(s.cursor) ==> (selects(s, patch, k) <==> (forall|j: int|
            between(s.cursor, k, j) ==> #[trigger] patch.in_run(j))),
{
    if patch.change(s.cursor) {
        law_block_is_maximal_run(patch, s.cursor);
        let (start, end) = patch.block_of(s.cursor).unwrap();
        assert(s.selection(patch) == (start, end));
        if k < start {
            assert(between(s.cursor, k, start - 1));
        }
        if k >= end {
            assert(between(s.cursor, k, end));
        }
    }
}

/// A line belongs to a hunk's selection if it is a change or an end-of-file marker.
pub proof fn law_runs_are_changes_and_markers(patch: PatchView, k: int)
    requires
        patch.in_run(k),
    ensures
        0 <= k < patch.lines.len(),
        (0 <= k < patch.changes.len() && patch.changes[k]) || is_marker(patch.lines[k]),
{
}

/// Extending selects everything from where the range started (the cursor, if none was open)
/// to the new line; the other fields stay.
pub proof fn law_extending_selects_up_to_the_new_line(s: StagingView, patch: PatchView, to: int, k: int)
    ensures
        ({
            let after = s.moved(true, Some(to));
            let start = if s.anchor is Some {
                s.anchor->0
            } else {
                s.cursor
            };
            &&& after.cursor == to
            &&& selects(after, patch, k) <==> between(start, to, k)
            &&& after.path == s.path && after.staged == s.staged && after.pending == s.pending
        }),
        ({
            let still = s.moved(true, None);
            &&& still.cursor == s.cursor
            &&& still.anchor is Some
            &&& s.anchor is Some ==> still == s
        }),
{
}

/// A plain move goes to the line and changes nothing else; with nowhere to go it does nothing.
pub proof fn law_plain_moves_only_move_the_cursor(s: StagingView, to: int)
    ensures
        s.moved(false, None) == s,
        s.moved(false, Some(to)).cursor == to,
        ({
            let after = s.moved(false, Some(to));
            &&& after.anchor == s.anchor && after.hunk == s.hunk
            &&& after.path == s.path && after.staged == s.staged && after.pending == s.pending
        }),
{
}

/// `v` starts a range of just the cursor's line, and ends one that is open; either way the
/// cursor stays and lines are selected, not hunks.
pub proof fn law_ranges_start_at_the_cursor(s: StagingView, patch: PatchView, k: int)
    ensures
        ({
            let after = s.range_toggled();
            &&& after.anchor is Some <==> s.anchor is None
            &&& selects(after, patch, k) <==> k == s.cursor
            &&& after.cursor == s.cursor
            &&& after.path == s.path && after.staged == s.staged && after.pending == s.pending
        }),
{
}

/// `a` switches between hunks and lines, and back again; a range is gone.
pub proof fn law_hunk_mode_toggles(s: StagingView)
    ensures
        s.hunk_toggled().hunk <==> !s.hunk,
        s.hunk_toggled().hunk_toggled().hunk <==> s.hunk,
        s.hunk_toggled().anchor is None,
        ({
            let after = s.hunk_toggled();
            &&& after.cursor == s.cursor
            &&& after.path == s.path && after.staged == s.staged && after.pending == s.pending
        }),
        s.without_range().anchor is None,
        ({
            let after = s.without_range();
            &&& after.cursor == s.cursor && after.hunk == s.hunk
            &&& after.path == s.path && after.staged == s.staged && after.pending == s.pending
        }),
{
}

/// In line mode, or with a range, `j` goes to the nearest change below the cursor and `k` to
/// the nearest above; they stay only if there is none.
pub proof fn law_steps_go_to_the_nearest_change(s: StagingView, patch: PatchView)
    requires
        !s.hunk || s.anchor is Some,
        0 <= s.cursor,
    ensures
        match s.step_target(patch, true) {
            Some(to) => s.cursor < to && patch.change(to) && forall|j: int| s.cursor < j < to ==> !patch.change(j),
            None => forall|j: int| s.cursor < j ==> !patch.change(j),
        },
        match s.step_target(patch, false) {
            Some(to) => to < s.cursor && patch.change(to) && forall|j: int| to < j < s.cursor ==> !patch.change(j),
            None => forall|j: int| j < s.cursor ==> !patch.change(j),
        },
{
    law_next_change_is_first(patch, s.cursor + 1);
    law_previous_change_is_last(patch, s.cursor);
}

/// In hunk mode, `j` goes to the first change past the cursor's block. `k` goes to the start
/// of the run that holds the last change before it. Both leave the block.
pub proof fn law_hunk_steps_leave_the_block(s: StagingView, patch: PatchView)
    requires
        patch.wf(),
        s.hunk,
        s.anchor is None,
        0 <= s.cursor,
        patch.change(s.cursor),
    ensures
        match s.step_target(patch, true) {
            Some(to) => s.cursor < to && patch.change(to) && !selects(s, patch, to) && forall|j: int|
                s.cursor < j < to && patch.change(j) ==> selects(s, patch, j),
            None => forall|j: int| s.cursor < j && patch.change(j) ==> selects(s, patch, j),
        },
        match s.step_target(patch, false) {
            Some(to) => to < s.cursor && patch.in_run(to) && !patch.in_run(to - 1) && !selects(s, patch, to),
            None => forall|j: int| j < s.cursor && patch.change(j) ==> selects(s, patch, j),
        },
{
    law_block_is_maximal_run(patch, s.cursor);
    let (start, end) = patch.block_of(s.cursor).unwrap();
    assert(s.selection(patch) == (start, end));
    law_next_change_is_first(patch, end);
    law_previous_change_is_last(patch, start);
    match patch.previous_change(start) {
        Some(i) => {
            lemma_run_start(patch, i);
            assert(patch.in_run(i));
            assert(patch.in_run(patch.run_start(i)));
        },
        None => {},
    }
}

/// Paging down goes to the first change at least that far down, else to the last change of
/// all; paging up to the last change at least that far up, else to the first of all. It goes
/// nowhere only in a diff without changes.
pub proof fn law_paging_goes_that_far(s: StagingView, patch: PatchView, amount: int)
    requires
        0 <= s.cursor,
        0 <= amount,
        patch.wf(),
        s.cursor + amount <= usize::MAX,
    ensures
        match s.page_target(patch, true, amount) {
            Some(to) => patch.change(to) && if to >= s.cursor + amount {
                forall|j: int| s.cursor + amount <= j < to ==> !patch.change(j)
            } else {
                forall|j: int| to < j ==> !patch.change(j)
            },
            None => forall|j: int| !patch.change(j),
        },
        match s.page_target(patch, false, amount) {
            Some(to) => patch.change(to) && if to <= s.cursor - amount || to <= 0 {
                forall|j: int| to < j <= s.cursor - amount ==> !patch.change(j)
            } else {
                forall|j: int| j < to ==> !patch.change(j)
            },
            None => forall|j: int| !patch.change(j),
        },
{
    law_next_change_is_first(patch, s.cursor + amount);
    law_previous_change_is_last(patch, s.cursor + amount);
    let target = if s.cursor >= amount {
        s.cursor - amount
    } else {
        0
    };
    law_previous_change_is_last(patch, target + 1);
    law_next_change_is_first(patch, 0);
}

/// After the diff changed, the cursor stays if its line is a change, else it is on the next
/// change below, else on the last one above; a diff without changes has it at the top. A
/// range stays unless it starts past the end.
pub proof fn law_cursor_settles_on_a_change(s: StagingView, patch: PatchView)
    requires
        0 <= s.cursor,
    ensures
        ({
            let after = s.settled(patch);
            &&& patch.change(s.cursor) ==> after.cursor == s.cursor
            &&& (exists|j: int| patch.change(j)) ==> patch.change(after.cursor)
            &&& after.cursor > s.cursor ==> forall|j: int| s.cursor <= j < after.cursor ==> !patch.change(j)
            &&& after.cursor < s.cursor ==> forall|j: int| after.cursor < j ==> !patch.change(j)
            &&& (forall|j: int| !patch.change(j)) ==> after.cursor == 0
            &&& after.anchor == (if s.anchor is Some && s.anchor->0 >= patch.lines.len() {
                None
            } else {
                s.anchor
            })
            &&& after.hunk == s.hunk && after.path == s.path && after.staged == s.staged && after.pending == s.pending
        }),
{
    law_next_change_is_first(patch, s.cursor);
    law_previous_change_is_last(patch, s.cursor);
}

/// What is built for an action covers exactly the selected lines. Staging applies the
/// changes as they are, unstaging and discarding take them back.
pub proof fn law_selection_is_what_is_built(s: StagingView, patch: PatchView, k: int)
    ensures
        forall|action: PatchAction|
            {
                let sel = #[trigger] s.selected(patch, action);
                &&& sel.lo <= k < sel.hi <==> selects(s, patch, k)
                &&& sel.reverse <==> !(action is Stage)
            },
{
}

} // verus!
