//! What a patch of some selected lines does to a file.

use vstd::prelude::*;

use crate::patch::diff::{
    hunk_at, hunk_body_end, hunk_header, is_marker, is_plus_minus, led_by, lemma_hunk_body_end, markers_end,
    stageable, stageable_in, HunkView, PatchView,
};
use crate::patch::selection::{hunk_at_line, lemma_push, line_text, new_side, old_side, Selection, Written};
use crate::text::ascii::{BACKSLASH, MINUS, PLUS};

verus! {

/// The texts of the hunk lines `from..to` on one side of a diff: all but the markers and
/// the lines of the other side, which start with `other`.
pub open spec fn side_of(lines: Seq<Seq<u8>>, from: int, to: int, other: u8) -> Seq<Seq<u8>>
    decreases to - from,
{
    if to <= from {
        Seq::empty()
    } else {
        let before = side_of(lines, from, to - 1, other);
        let line = lines[to - 1];
        if is_marker(line) || led_by(line, other) {
            before
        } else {
            before.push(line_text(line))
        }
    }
}

/// Whether every changed line of `from..to` is selected.
pub open spec fn all_picked(p: PatchView, sel: Selection, from: int, to: int) -> bool {
    forall|i: int| from <= i < to && is_plus_minus(#[trigger] p.lines[i]) ==> p.picked(sel, i)
}

/// Whether no line of `from..to` is selected.
pub open spec fn none_picked(p: PatchView, sel: Selection, from: int, to: int) -> bool {
    forall|i: int| from <= i < to ==> !#[trigger] p.picked(sel, i)
}

/// Staging: the lines that a patch expects in the file are those of the whole diff, so it
/// applies wherever the whole diff does.
pub proof fn law_forward_patch_expects_the_same_file(p: PatchView, sel: Selection, from: int, to: int)
    requires
        !sel.reverse,
    ensures
        old_side(p.written(sel, from, to)) == side_of(p.lines, from, to, PLUS),
    decreases to - from,
{
    if from < to {
        law_forward_patch_expects_the_same_file(p, sel, from, to - 1);
        lemma_last_written(p, sel, from, to);
    }
}

/// Unstaging and discarding: the lines that a reversed patch expects in the file are those
/// of the whole diff, so it applies wherever the whole diff does.
pub proof fn law_reverse_patch_expects_the_same_file(p: PatchView, sel: Selection, from: int, to: int)
    requires
        sel.reverse,
    ensures
        new_side(p.written(sel, from, to)) == side_of(p.lines, from, to, MINUS),
    decreases to - from,
{
    if from < to {
        law_reverse_patch_expects_the_same_file(p, sel, from, to - 1);
        lemma_last_written(p, sel, from, to);
    }
}

/// What the last line adds to either side.
pub proof fn lemma_last_written(p: PatchView, sel: Selection, from: int, to: int)
    requires
        from < to,
    ensures
        ({
            let line = p.lines[to - 1];
            let before = p.written(sel, from, to - 1);
            let after = p.written(sel, from, to);
            if is_marker(line) {
                old_side(after) == old_side(before) && new_side(after) == new_side(before)
            } else {
                match p.keeps(sel, to - 1) {
                    None => after == before,
                    Some(w) => {
                        &&& old_side(after) == (if w.on_old() {
                            old_side(before).push(w.text)
                        } else {
                            old_side(before)
                        })
                        &&& new_side(after) == (if w.on_new() {
                            new_side(before).push(w.text)
                        } else {
                            new_side(before)
                        })
                    },
                }
            }
        }),
{
    let line = p.lines[to - 1];
    let before = p.written(sel, from, to - 1);
    if is_marker(line) {
        lemma_push(before, Written { kind: BACKSLASH, text: line.drop_first() });
    } else if let Some(w) = p.keeps(sel, to - 1) {
        lemma_push(before, w);
    }
}

/// Staging every change of a hunk gives the lines that the whole diff gives, and so does
/// reversing every change.
pub proof fn law_selecting_everything_is_the_whole_diff(p: PatchView, sel: Selection, from: int, to: int)
    requires
        all_picked(p, sel, from, to),
    ensures
        old_side(p.written(sel, from, to)) == side_of(p.lines, from, to, PLUS),
        new_side(p.written(sel, from, to)) == side_of(p.lines, from, to, MINUS),
    decreases to - from,
{
    if from < to {
        law_selecting_everything_is_the_whole_diff(p, sel, from, to - 1);
        lemma_last_written(p, sel, from, to);
    }
}

/// A patch with nothing selected would change nothing.
pub proof fn law_selecting_nothing_changes_nothing(p: PatchView, sel: Selection, from: int, to: int)
    requires
        none_picked(p, sel, from, to),
    ensures
        old_side(p.written(sel, from, to)) == new_side(p.written(sel, from, to)),
    decreases to - from,
{
    if from < to {
        assert(!p.picked(sel, to - 1));
        law_selecting_nothing_changes_nothing(p, sel, from, to - 1);
        lemma_last_written(p, sel, from, to);
    }
}

/// Lines outside the selection stay as they are in the file being patched: a line is
/// written as added or removed only if it is a selected change, with the text it has in
/// the diff.
pub proof fn law_only_selected_lines_change(p: PatchView, sel: Selection, from: int, to: int, k: int)
    requires
        0 <= k < p.written(sel, from, to).len(),
        p.written(sel, from, to)[k].kind == PLUS || p.written(sel, from, to)[k].kind == MINUS,
    ensures
        exists|i: int|
            from <= i < to && #[trigger] p.picked(sel, i) && p.written(sel, from, to)[k] == (Written {
                kind: p.lines[i][0],
                text: line_text(p.lines[i]),
            }),
    decreases to - from,
{
    let after = p.written(sel, from, to);
    let before = p.written(sel, from, to - 1);
    if k < before.len() {
        assert(after[k] == before[k]);
        law_only_selected_lines_change(p, sel, from, to - 1, k);
        let i = choose|i: int|
            from <= i < to - 1 && #[trigger] p.picked(sel, i) && before[k] == (Written {
                kind: p.lines[i][0],
                text: line_text(p.lines[i]),
            });
        assert(p.picked(sel, i));
    } else {
        assert(p.keeps(sel, to - 1) == Some(after[k]));
        assert(p.picked(sel, to - 1));
    }
}

/// The lines that add or remove something.
pub open spec fn changed(ws: Seq<Written>) -> Seq<Written>
    decreases ws.len(),
{
    if ws.len() == 0 {
        Seq::empty()
    } else if ws.last().kind == PLUS || ws.last().kind == MINUS {
        changed(ws.drop_last()).push(ws.last())
    } else {
        changed(ws.drop_last())
    }
}

/// The selected changes among the lines `from..to`, as they stand in the diff.
pub open spec fn selected_changes(p: PatchView, sel: Selection, from: int, to: int) -> Seq<Written>
    decreases to - from,
{
    if to <= from {
        Seq::empty()
    } else {
        let before = selected_changes(p, sel, from, to - 1);
        if p.picked(sel, to - 1) {
            before.push(Written { kind: p.lines[to - 1][0], text: line_text(p.lines[to - 1]) })
        } else {
            before
        }
    }
}

/// The lines that a hunk adds and removes are its selected changes: all of them, no others,
/// in their order, with the texts they have in the diff.
pub proof fn law_changed_lines_are_the_selected_ones(p: PatchView, sel: Selection, from: int, to: int)
    requires
        p.wf(),
        0 <= from,
        to <= p.lines.len(),
    ensures
        changed(p.written(sel, from, to)) == selected_changes(p, sel, from, to),
    decreases to - from,
{
    if from < to {
        law_changed_lines_are_the_selected_ones(p, sel, from, to - 1);
        let before = p.written(sel, from, to - 1);
        let after = p.written(sel, from, to);
        if p.picked(sel, to - 1) {
            assert(p.changes[to - 1] == stageable(p.lines, p.files, to - 1));
            assert(is_plus_minus(p.lines[to - 1]));
        }
        if after != before {
            assert(after.drop_last() =~= before);
        }
    }
}

/// The counts in a hunk's header are the numbers of lines it has on either side.
pub proof fn law_header_counts_are_line_counts(lines: Seq<Seq<u8>>, at: int)
    requires
        hunk_at(lines, at) is Some,
    ensures
        ({
            let h = hunk_at(lines, at).unwrap();
            &&& side_of(lines, at + 1, h.end, PLUS).len() == h.old_count
            &&& side_of(lines, at + 1, h.end, MINUS).len() == h.new_count
        }),
{
    let (old, new, _) = hunk_header(lines[at]).unwrap();
    let end = hunk_body_end(lines, at + 1, old.1, new.1).unwrap();
    lemma_hunk_body_end(lines, at + 1, old.1, new.1);
    lemma_body_counts(lines, at + 1, at + 1, old.1, new.1);
    lemma_marker_sides(lines, at + 1, end);
}

proof fn lemma_body_counts(lines: Seq<Seq<u8>>, from: int, ix: int, old: nat, new: nat)
    requires
        0 <= from <= ix <= lines.len(),
        hunk_body_end(lines, ix, old, new) is Some,
    ensures
        ({
            let end = hunk_body_end(lines, ix, old, new).unwrap();
            &&& side_of(lines, from, end, PLUS).len() == side_of(lines, from, ix, PLUS).len() + old
            &&& side_of(lines, from, end, MINUS).len() == side_of(lines, from, ix, MINUS).len() + new
        }),
    decreases lines.len() - ix,
{
    if !(old == 0 && new == 0) {
        let line = lines[ix];
        if led_by(line, MINUS) && old > 0 {
            lemma_body_counts(lines, from, ix + 1, (old - 1) as nat, new);
        } else if led_by(line, PLUS) && new > 0 {
            lemma_body_counts(lines, from, ix + 1, old, (new - 1) as nat);
        } else if is_marker(line) {
            lemma_body_counts(lines, from, ix + 1, old, new);
        } else {
            lemma_body_counts(lines, from, ix + 1, (old - 1) as nat, (new - 1) as nat);
        }
    }
}

proof fn lemma_marker_sides(lines: Seq<Seq<u8>>, from: int, ix: int)
    requires
        0 <= from <= ix <= lines.len(),
    ensures
        side_of(lines, from, markers_end(lines, ix), PLUS) == side_of(lines, from, ix, PLUS),
        side_of(lines, from, markers_end(lines, ix), MINUS) == side_of(lines, from, ix, MINUS),
    decreases lines.len() - ix,
{
    if ix < lines.len() && is_marker(lines[ix]) {
        lemma_marker_sides(lines, from, ix + 1);
    }
}

/// Something is written for a hunk exactly when one of its changes is selected.
proof fn lemma_hunks_text_empty(p: PatchView, sel: Selection, hunks: Seq<HunkView>, k: int)
    requires
        0 <= k <= hunks.len(),
    ensures
        (p.hunks_text(sel, hunks, k).len() == 0) == (forall|m: int|
            0 <= m < k ==> !p.touches(sel, #[trigger] hunks[m])),
    decreases k,
{
    if k > 0 {
        lemma_hunks_text_empty(p, sel, hunks, k - 1);
        if p.touches(sel, hunks[k - 1]) {
            let ws = p.hunk_written(sel, hunks[k - 1]);
            let (old, new) = p.totals(sel, hunks, k - 1);
            assert(hunk_at_line(
                hunks[k - 1],
                sel.reverse,
                new - old,
                old_side(ws).len() as int,
                new_side(ws).len() as int,
            ).len() > 0);
        } else {
            assert forall|m: int|
                (forall|m: int| 0 <= m < k - 1 ==> !p.touches(sel, #[trigger] hunks[m])) && 0 <= m
                    < k implies !p.touches(sel, #[trigger] hunks[m]) by {
                if m < k - 1 {
                    assert(!p.touches(sel, hunks[m]));
                }
            }
        }
    }
}

proof fn lemma_files_text_empty(p: PatchView, sel: Selection, k: int)
    requires
        0 <= k <= p.files.len(),
    ensures
        (p.files_text(sel, k).len() == 0) == (forall|f: int, m: int|
            0 <= f < k && 0 <= m < (#[trigger] p.files[f]).hunks.len() ==> !p.touches(
                sel,
                #[trigger] p.files[f].hunks[m],
            )),
    decreases k,
{
    if k > 0 {
        lemma_files_text_empty(p, sel, k - 1);
        let file = p.files[k - 1];
        lemma_hunks_text_empty(p, sel, file.hunks, file.hunks.len() as int);
        if p.files_text(sel, k).len() == 0 {
            assert forall|f: int, m: int|
                0 <= f < k && 0 <= m < (#[trigger] p.files[f]).hunks.len() implies !p.touches(
                sel,
                #[trigger] p.files[f].hunks[m],
            ) by {
                if f < k - 1 {
                    assert(p.files_text(sel, k - 1).len() == 0);
                }
            }
        }
    }
}

/// There is a patch exactly when a changed line is selected.
pub proof fn law_no_patch_without_a_selected_change(p: PatchView, sel: Selection)
    requires
        p.wf(),
    ensures
        (p.patch_text(sel).len() == 0) == (forall|i: int| !#[trigger] p.picked(sel, i)),
{
    lemma_files_text_empty(p, sel, p.files.len() as int);
    if p.patch_text(sel).len() == 0 {
        assert forall|i: int| !#[trigger] p.picked(sel, i) by {
            if p.picked(sel, i) {
                let f = choose|f: int|
                    0 <= f < p.files.len() && stageable_in(p.lines, #[trigger] p.files[f], i);
                let k = choose|k: int|
                    0 <= k < p.files[f].hunks.len() && (#[trigger] p.files[f].hunks[k]).at < i
                        < p.files[f].hunks[k].end;
                assert(p.touches(sel, p.files[f].hunks[k]));
            }
        }
    }
}

/// Without a selected change nothing can clash, either.
pub proof fn law_no_conflict_without_a_selected_change(p: PatchView, sel: Selection)
    requires
        forall|i: int| !#[trigger] p.picked(sel, i),
    ensures
        !p.conflicts(sel),
{
    if p.conflicts(sel) {
        let (f, k) = choose|f: int, k: int| p.conflicts_at(sel, f, k);
        let h = p.files[f].hunks[k];
        let i = choose|i: int| h.at < i < h.end && #[trigger] p.picked(sel, i);
        assert(!p.picked(sel, i));
    }
}

} // verus!
