//! Where the hunks of a patch come to lie.

use vstd::prelude::*;

use crate::patch::diff::{hunk_at, hunks_from, lemma_hunk_at, HunkView, PatchView};
use crate::patch::laws::{
    law_forward_patch_expects_the_same_file, law_header_counts_are_line_counts, law_reverse_patch_expects_the_same_file,
    lemma_last_written, side_of,
};
use crate::patch::selection::{first_line_of, new_side, old_side, Selection};
use crate::text::ascii::{MINUS, PLUS};

verus! {

/// The number of a hunk's first line in the file before the change.
pub open spec fn old_line(h: HunkView) -> int {
    first_line_of(h.old_start as int, h.old_count as int)
}

/// The number of a hunk's first line in the file after the change.
pub open spec fn new_line(h: HunkView) -> int {
    first_line_of(h.new_start as int, h.new_count as int)
}

/// Whether hunks are as git gives them: numbered from 1 on, each after the end of the one
/// before, in files whose line numbers together fit in 32 bits.
pub open spec fn in_order(hunks: Seq<HunkView>) -> bool {
    &&& forall|k: int|
        0 <= k < hunks.len() ==> 1 <= old_line(#[trigger] hunks[k]) && 1 <= new_line(hunks[k]) && old_line(hunks[k])
            + new_line(hunks[k]) + hunks[k].old_count + hunks[k].new_count <= u32::MAX
    &&& forall|j: int, k: int|
        0 <= j && k == j + 1 && k < hunks.len() ==> old_line(#[trigger] hunks[j]) + hunks[j].old_count <= old_line(
            #[trigger] hunks[k],
        ) && new_line(hunks[j]) + hunks[j].new_count <= new_line(hunks[k])
}

/// How far the sides of what is written can be apart.
proof fn lemma_sides_apart(p: PatchView, sel: Selection, from: int, to: int)
    ensures
        ({
            let old = old_side(p.written(sel, from, to)).len();
            let new = new_side(p.written(sel, from, to)).len();
            &&& new <= old + side_of(p.lines, from, to, MINUS).len()
            &&& old <= new + side_of(p.lines, from, to, PLUS).len()
        }),
    decreases to - from,
{
    if from < to {
        lemma_sides_apart(p, sel, from, to - 1);
        lemma_last_written(p, sel, from, to);
    }
}

/// How many lines a hunk of the patch has.
proof fn lemma_hunk_sides(p: PatchView, sel: Selection, h: HunkView)
    requires
        hunk_at(p.lines, h.at) == Some(h),
    ensures
        ({
            let old = old_side(p.hunk_written(sel, h)).len();
            let new = new_side(p.hunk_written(sel, h)).len();
            &&& new <= old + h.new_count
            &&& old <= new + h.old_count
            &&& sel.reverse ==> new == h.new_count
            &&& !sel.reverse ==> old == h.old_count
        }),
{
    lemma_sides_apart(p, sel, h.at + 1, h.end);
    law_header_counts_are_line_counts(p.lines, h.at);
    if sel.reverse {
        law_reverse_patch_expects_the_same_file(p, sel, h.at + 1, h.end);
    } else {
        law_forward_patch_expects_the_same_file(p, sel, h.at + 1, h.end);
    }
}

/// The lines that earlier hunks add or remove are fewer than the lines before a hunk.
proof fn lemma_added(p: PatchView, sel: Selection, hunks: Seq<HunkView>, k: int)
    requires
        in_order(hunks),
        forall|m: int| 0 <= m < hunks.len() ==> hunk_at(p.lines, (#[trigger] hunks[m]).at) == Some(hunks[m]),
        0 <= k < hunks.len(),
    ensures
        p.added(sel, hunks, k) < new_line(hunks[k]),
        -p.added(sel, hunks, k) < old_line(hunks[k]),
    decreases k,
{
    if k > 0 {
        let h = hunks[k - 1];
        lemma_added(p, sel, hunks, k - 1);
        assert(hunk_at(p.lines, hunks[k - 1].at) == Some(h));
        lemma_hunk_sides(p, sel, h);
        assert(old_line(hunks[k - 1]) + hunks[k - 1].old_count <= old_line(hunks[k]));
    } else {
        assert(1 <= old_line(hunks[0]));
    }
}

proof fn lemma_hunks_at(p: PatchView, ix: int)
    ensures
        forall|m: int|
            0 <= m < hunks_from(p.lines, ix).len() ==> hunk_at(p.lines, (#[trigger] hunks_from(p.lines, ix)[m]).at)
                == Some(hunks_from(p.lines, ix)[m]),
    decreases p.lines.len() - ix,
{
    lemma_hunk_at(p.lines, ix);
    if let Some(h) = hunk_at(p.lines, ix) {
        lemma_hunks_at(p, h.end);
        let rest = hunks_from(p.lines, h.end);
        let all = hunks_from(p.lines, ix);
        assert(all =~= seq![h] + rest);
        assert forall|m: int| 0 <= m < all.len() implies hunk_at(p.lines, (#[trigger] all[m]).at) == Some(all[m]) by {
            if m > 0 {
                assert(all[m] == rest[m - 1]);
            }
        }
    }
}

/// The hunks of a patch lie within the file: of hunks as git gives them, whatever is
/// selected, none gets a line number below 0 or one that doesn't fit in 32 bits.
pub proof fn law_ordered_hunks_stay_in_the_file(p: PatchView, sel: Selection, ix: int)
    requires
        in_order(hunks_from(p.lines, ix)),
    ensures
        p.file_fits(sel, hunks_from(p.lines, ix)),
{
    let hunks = hunks_from(p.lines, ix);
    lemma_hunks_at(p, ix);
    assert forall|k: int| 0 <= k < hunks.len() && p.touches(sel, #[trigger] hunks[k]) implies p.hunk_fits(
        sel,
        hunks[k],
        p.added(sel, hunks, k),
    ) by {
        lemma_added(p, sel, hunks, k);
        lemma_hunk_sides(p, sel, hunks[k]);
    }
}

} // verus!
