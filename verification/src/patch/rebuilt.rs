//! Reading a patch that was built, and building it once more.

use vstd::prelude::*;

use crate::patch::diff::{
    begins, diff_lines, gitlink_line, hunk_at, hunks_from, hunks_end, in_hunk, is_plus_minus, is_submodule,
    lemma_header_end, lemma_hunk_at, lemma_hunks_from, lemma_sections_from, patch_of, sections_from, stageable,
    stageable_in, HunkView, PatchView, SectionView,
};
use crate::patch::rebuild::{
    is_mode, lemma_after_first, lemma_at_row, lemma_copy_lines, lemma_files_are_read, lemma_first_bytes,
    lemma_header_rows, lemma_mode_rows, lemma_plain_kinds, lemma_plain_rows, lemma_sections_are_found,
    lemma_stands_apart, mode_rows, plain_rows, stands_at,
};
use crate::patch::rows::{
    lemma_lines_of_text, lemma_render_all, lemma_text_of_add, lemma_text_of_one, one_line_each, plain_kinds, row,
    rows, text_of,
};
use crate::patch::selection::{after_first, plain_header, sided, without_tab, Selection, Written};
use crate::text::ascii::{LOWER_A, LOWER_B, MINUS, NEWLINE, PLUS};
use crate::text::seqs::{lemma_sub_index, law_split_pieces_have_no_separator, split, strip_prefix};
use crate::text::strings::utf8;

verus! {

/// Everything in a diff selected.
pub open spec fn whole(p: PatchView, reverse: bool) -> Selection {
    Selection { lo: 0, hi: p.lines.len() as int, reverse }
}

/// How many of the lines `lo..hi` are selected changes.
pub open spec fn picked_in(p: PatchView, sel: Selection, lo: int, hi: int) -> nat
    decreases hi - lo,
{
    if hi <= lo {
        0
    } else {
        picked_in(p, sel, lo, hi - 1) + (if p.picked(sel, hi - 1) {
            1nat
        } else {
            0
        })
    }
}

/// How many changes the lines of a hunk make.
pub open spec fn changes_written(ws: Seq<Written>) -> nat
    decreases ws.len(),
{
    if ws.len() == 0 {
        0
    } else {
        changes_written(ws.drop_last()) + (if ws.last().kind == PLUS || ws.last().kind == MINUS {
            1nat
        } else {
            0
        })
    }
}

/// How many selected changes the first `k` hunks have.
pub open spec fn picked_in_hunks(p: PatchView, sel: Selection, hunks: Seq<HunkView>, k: int) -> nat
    decreases k,
{
    if k <= 0 {
        0
    } else {
        picked_in_hunks(p, sel, hunks, k - 1) + picked_in(p, sel, hunks[k - 1].at + 1, hunks[k - 1].end)
    }
}

/// How many selected changes the first `k` files have.
pub open spec fn picked_in_files(p: PatchView, sel: Selection, k: int) -> nat
    decreases k,
{
    if k <= 0 {
        0
    } else {
        picked_in_files(p, sel, k - 1) + picked_in_hunks(
            p,
            sel,
            p.files[k - 1].hunks,
            p.files[k - 1].hunks.len() as int,
        )
    }
}

// ---- what holds of every diff

proof fn lemma_patch_wf(diff: Seq<u8>)
    ensures
        patch_of(diff).wf(),
        patch_of(diff).is_read(),
{
    let lines = diff_lines(diff);
    let p = patch_of(diff);
    lemma_sections_from(lines, 0);
    law_split_pieces_have_no_separator(diff, NEWLINE);
    assert forall|i: int| 0 <= i < lines.len() implies !(#[trigger] lines[i]).contains(NEWLINE) by {
        assert(lines[i] == split(diff, NEWLINE)[i]);
    }
    lemma_sections_read(p, 0);
}

proof fn lemma_sections_read(p: PatchView, ix: int)
    requires
        0 <= ix <= p.lines.len(),
    ensures
        forall|f: int|
            0 <= f < sections_from(p.lines, ix).len() ==> p.section_is_read(#[trigger] sections_from(p.lines, ix)[f]),
    decreases p.lines.len() - ix,
{
    let lines = p.lines;
    if ix < lines.len() {
        if !begins(lines[ix], "diff --git ") {
            lemma_sections_read(p, ix + 1);
            assert(sections_from(lines, ix) == sections_from(lines, ix + 1));
        } else {
            let body = crate::patch::diff::header_end(lines, ix + 1);
            lemma_header_end(lines, ix + 1);
            lemma_hunks_from(lines, body);
            let rest = sections_from(lines, hunks_end(lines, body));
            lemma_sections_read(p, hunks_end(lines, body));
            let all = sections_from(lines, ix);
            assert(all =~= seq![SectionView { start: ix, body, hunks: hunks_from(lines, body) }] + rest);
            assert forall|f: int| 0 <= f < all.len() implies p.section_is_read(#[trigger] all[f]) by {
                if f > 0 {
                    assert(all[f] == rest[f - 1]);
                }
            }
        }
    } else {
        assert(sections_from(lines, ix) =~= Seq::<SectionView>::empty());
    }
}

/// The headings of hunks are parts of lines.
proof fn lemma_headings(p: PatchView, ix: int)
    requires
        one_line_each(p.lines),
        0 <= ix <= p.lines.len(),
    ensures
        forall|k: int|
            0 <= k < hunks_from(p.lines, ix).len() ==> !(#[trigger] hunks_from(p.lines, ix)[k]).heading.contains(
                NEWLINE,
            ),
    decreases p.lines.len() - ix,
{
    let lines = p.lines;
    lemma_hunk_at(lines, ix);
    if let Some(h) = hunk_at(lines, ix) {
        lemma_headings(p, h.end);
        let rest = hunks_from(lines, h.end);
        let all = hunks_from(lines, ix);
        assert(all =~= seq![h] + rest);
        let line = lines[ix];
        let after = line.skip(utf8("@@ -").len() as int);
        assert(!line.contains(NEWLINE));
        lemma_sub_index(after, utf8(" @@"));
        assert(!h.heading.contains(NEWLINE)) by {
            if h.heading.contains(NEWLINE) {
                let i = choose|i: int| 0 <= i < h.heading.len() && h.heading[i] == NEWLINE;
                let cut = after.len() - h.heading.len();
                assert(after[cut + i] == h.heading[i]);
                assert(line[utf8("@@ -").len() + (cut + i)] == NEWLINE);
            }
        }
        assert forall|k: int| 0 <= k < all.len() implies !(#[trigger] all[k]).heading.contains(NEWLINE) by {
            if k > 0 {
                assert(all[k] == rest[k - 1]);
            }
        }
    }
}

// ---- the text of a patch is the text of its lines

proof fn lemma_written_rows(p: PatchView, sel: Selection, from: int, to: int)
    requires
        one_line_each(p.lines),
        0 <= from,
        to <= p.lines.len(),
    ensures
        one_line_each(rows(p.written(sel, from, to))),
    decreases to - from,
{
    if from < to {
        lemma_written_rows(p, sel, from, to - 1);
        let before = p.written(sel, from, to - 1);
        let after = p.written(sel, from, to);
        let line = p.lines[to - 1];
        assert(!line.contains(NEWLINE));
        assert forall|i: int| 0 <= i < rows(after).len() implies !(#[trigger] rows(after)[i]).contains(NEWLINE) by {
            if i < before.len() {
                assert(rows(after)[i] == rows(before)[i]);
            } else {
                let w = after[i];
                if row(w).contains(NEWLINE) {
                    let j = choose|j: int| 0 <= j < row(w).len() && row(w)[j] == NEWLINE;
                    lemma_plain_kinds(p, sel, from, to);
                    assert(j > 0);
                    assert(row(w)[j] == w.text[j - 1]);
                    if line.len() > 0 {
                        assert(w.text == line.drop_first());
                        assert(line[j] == NEWLINE);
                    }
                }
            }
        }
    } else {
        assert(rows(p.written(sel, from, to)) =~= Seq::<Seq<u8>>::empty());
    }
}

proof fn lemma_hunks_text(p: PatchView, sel: Selection, hunks: Seq<HunkView>, k: int)
    requires
        one_line_each(p.lines),
        p.file_fits(sel, hunks),
        0 <= k <= hunks.len(),
        forall|m: int|
            0 <= m < hunks.len() ==> 0 <= (#[trigger] hunks[m]).at && hunks[m].end <= p.lines.len()
                && !hunks[m].heading.contains(NEWLINE),
    ensures
        text_of(p.hunks_rows(sel, hunks, k)) == p.hunks_text(sel, hunks, k),
        one_line_each(p.hunks_rows(sel, hunks, k)),
    decreases k,
{
    if k > 0 {
        lemma_hunks_text(p, sel, hunks, k - 1);
        let h = hunks[k - 1];
        if p.touches(sel, h) {
            let before = p.hunks_rows(sel, hunks, k - 1);
            let delta = p.added(sel, hunks, k - 1);
            let more = p.hunk_rows(sel, h, delta);
            let ws = p.hunk_written(sel, h);
            lemma_at_row(p, sel, h, delta);
            lemma_written_rows(p, sel, h.at + 1, h.end);
            lemma_render_all(ws);
            assert(more =~= seq![more[0]] + rows(ws));
            lemma_text_of_add(seq![more[0]], rows(ws));
            lemma_text_of_one(more[0]);
            lemma_text_of_add(before, more);
            let all = p.hunks_rows(sel, hunks, k);
            assert forall|i: int| 0 <= i < all.len() implies !(#[trigger] all[i]).contains(NEWLINE) by {
                if i < before.len() {
                    assert(all[i] == before[i]);
                } else if i == before.len() {
                    assert(all[i] == more[0]);
                } else {
                    assert(all[i] == rows(ws)[i - before.len() - 1]);
                }
            }
        }
    }
}

/// The hunks of a section lie within the diff, and their headings within lines.
proof fn lemma_section_hunks(p: PatchView, file: SectionView)
    requires
        p.is_read(),
        p.section_is_read(file),
    ensures
        forall|m: int|
            0 <= m < file.hunks.len() ==> 0 <= (#[trigger] file.hunks[m]).at && file.hunks[m].at < file.hunks[m].end
                <= p.lines.len() && !file.hunks[m].heading.contains(NEWLINE),
{
    lemma_hunks_from(p.lines, file.body);
    lemma_headings(p, file.body);
}

proof fn lemma_text_is_empty(ls: Seq<Seq<u8>>)
    ensures
        (text_of(ls).len() == 0) == (ls.len() == 0),
{
}

proof fn lemma_file_text(p: PatchView, sel: Selection, file: SectionView)
    requires
        p.is_read(),
        p.section_is_read(file),
        p.file_body(sel, file).len() > 0 ==> p.file_fits(sel, file.hunks),
    ensures
        text_of(p.file_rows(sel, file)) == p.file_text(sel, file),
        one_line_each(p.file_rows(sel, file)),
{
    let n = file.hunks.len() as int;
    let (old, new) = p.totals(sel, file.hunks, n);
    lemma_section_hunks(p, file);
    if p.file_body(sel, file).len() == 0 {
        lemma_no_rows(p, sel, file.hunks, n);
    } else {
        lemma_hunks_text(p, sel, file.hunks, n);
        lemma_text_is_empty(p.file_body(sel, file));
        lemma_header_rows(p, file, old, new);
        let header = p.file_header(sel, file);
        let body = p.file_body(sel, file);
        lemma_text_of_add(header, body);
        let all = header + body;
        assert forall|i: int| 0 <= i < all.len() implies !(#[trigger] all[i]).contains(NEWLINE) by {
            if i < header.len() {
                assert(all[i] == header[i]);
            } else {
                assert(all[i] == body[i - header.len()]);
            }
        }
    }
}

/// Where no line is written, no text is.
proof fn lemma_no_rows(p: PatchView, sel: Selection, hunks: Seq<HunkView>, k: int)
    requires
        p.hunks_rows(sel, hunks, k).len() == 0,
        0 <= k <= hunks.len(),
    ensures
        p.hunks_text(sel, hunks, k).len() == 0,
        forall|m: int| 0 <= m < k ==> !p.touches(sel, #[trigger] hunks[m]),
    decreases k,
{
    if k > 0 {
        lemma_no_rows(p, sel, hunks, k - 1);
    }
}

proof fn lemma_files_text(p: PatchView, sel: Selection, k: int)
    requires
        p.is_read(),
        p.readable(sel),
        0 <= k <= p.files.len(),
    ensures
        text_of(p.files_rows(sel, k)) == p.files_text(sel, k),
        one_line_each(p.files_rows(sel, k)),
    decreases k,
{
    if k > 0 {
        lemma_files_text(p, sel, k - 1);
        let file = p.files[k - 1];
        assert(p.section_is_read(p.files[k - 1]));
        lemma_file_text(p, sel, file);
        let before = p.files_rows(sel, k - 1);
        let more = p.file_rows(sel, file);
        lemma_text_of_add(before, more);
        let all = before + more;
        assert forall|i: int| 0 <= i < all.len() implies !(#[trigger] all[i]).contains(NEWLINE) by {
            if i < before.len() {
                assert(all[i] == before[i]);
            } else {
                assert(all[i] == more[i - before.len()]);
            }
        }
    }
}

/// What is read of a patch that was built.
pub proof fn lemma_built_is_read(p: PatchView, sel: Selection)
    requires
        p.is_read(),
        p.readable(sel),
    ensures
        ({
            let q = patch_of(p.patch_text(sel));
            let n = p.files.len() as int;
            &&& q.lines == p.files_rows(sel, n)
            &&& q.files == p.built_files(sel, n)
            &&& q.wf()
            &&& q.is_read()
        }),
{
    let n = p.files.len() as int;
    let lines = p.files_rows(sel, n);
    lemma_files_text(p, sel, n);
    lemma_lines_of_text(lines);
    lemma_patch_wf(p.patch_text(sel));
    lemma_files_are_read(p, sel, n, lines);
    lemma_sections_are_found(lines, p.built_files(sel, n), 0, lines.len() as int);
    assert(sections_from(lines, lines.len() as int) =~= Seq::<SectionView>::empty());
    assert(sections_from(lines, 0) =~= p.built_files(sel, n));
}

// ---- building it once more

/// The lines of a hunk that is selected as a whole are written as they are.
proof fn lemma_written_again(q: PatchView, sel: Selection, ws: Seq<Written>, at: int, i: int)
    requires
        0 <= at,
        0 <= i <= ws.len(),
        plain_kinds(ws),
        forall|j: int| 0 <= j < ws.len() ==> #[trigger] q.lines[at + j] == row(ws[j]),
        forall|j: int| 0 <= j < ws.len() && is_plus_minus(row(#[trigger] ws[j])) ==> q.picked(sel, at + j),
    ensures
        q.written(sel, at, at + i) == ws.take(i),
        !q.left_out_before(sel, at, at + i),
    decreases i,
{
    if i > 0 {
        lemma_written_again(q, sel, ws, at, i - 1);
        let w = ws[i - 1];
        let line = q.lines[at + (i - 1)];
        assert(line == row(w));
        assert(line[0] == w.kind);
        assert(line.drop_first() =~= w.text);
        assert(ws.take(i) =~= ws.take(i - 1).push(w));
    } else {
        assert(ws.take(0) =~= Seq::<Written>::empty());
    }
}

/// A selected change is written as one.
proof fn lemma_picked_is_written(p: PatchView, sel: Selection, from: int, to: int, i: int) -> (k: int)
    requires
        p.wf(),
        from <= i < to,
        0 <= from,
        to <= p.lines.len(),
        p.picked(sel, i),
    ensures
        0 <= k < p.written(sel, from, to).len(),
        is_plus_minus(row(p.written(sel, from, to)[k])),
    decreases to,
{
    let before = p.written(sel, from, to - 1);
    let after = p.written(sel, from, to);
    if i < to - 1 {
        let k = lemma_picked_is_written(p, sel, from, to - 1, i);
        assert(after[k] == before[k]);
        k
    } else {
        assert(p.changes[i] == stageable(p.lines, p.files, i));
        let line = p.lines[i];
        assert(is_plus_minus(line));
        assert(after == before.push(Written { kind: line[0], text: line.drop_first() }));
        before.len() as int
    }
}

/// As many changes are written as are selected.
proof fn lemma_changes_written(p: PatchView, sel: Selection, from: int, to: int)
    requires
        p.wf(),
        0 <= from,
        to <= p.lines.len(),
    ensures
        changes_written(p.written(sel, from, to)) == picked_in(p, sel, from, to),
    decreases to - from,
{
    if from < to {
        lemma_changes_written(p, sel, from, to - 1);
        let before = p.written(sel, from, to - 1);
        let after = p.written(sel, from, to);
        if p.picked(sel, to - 1) {
            assert(p.changes[to - 1] == stageable(p.lines, p.files, to - 1));
            assert(is_plus_minus(p.lines[to - 1]));
        }
        if after != before {
            assert(after.drop_last() =~= before);
        }
    }
}

proof fn lemma_hunks_prefix(p: PatchView, sel: Selection, hunks: Seq<HunkView>, k: int, n: int, base: int)
    requires
        0 <= k <= n,
    ensures
        p.built_hunks(sel, hunks, k, base).is_prefix_of(p.built_hunks(sel, hunks, n, base)),
        p.hunks_rows(sel, hunks, k).is_prefix_of(p.hunks_rows(sel, hunks, n)),
    decreases n - k,
{
    if k < n {
        lemma_hunks_prefix(p, sel, hunks, k, n - 1, base);
    }
}

proof fn lemma_files_prefix(p: PatchView, sel: Selection, k: int, n: int)
    requires
        0 <= k <= n,
    ensures
        p.built_files(sel, k).is_prefix_of(p.built_files(sel, n)),
        p.files_rows(sel, k).is_prefix_of(p.files_rows(sel, n)),
    decreases n - k,
{
    if k < n {
        lemma_files_prefix(p, sel, k, n - 1);
    }
}

/// A hunk of a built patch is built again as it is.
proof fn lemma_hunk_again(
    p: PatchView,
    sel: Selection,
    q: PatchView,
    all: Selection,
    h: HunkView,
    delta: int,
    g: int,
    j: int,
)
    requires
        p.wf(),
        0 <= h.at,
        h.end <= p.lines.len(),
        q.wf(),
        all == whole(q, sel.reverse),
        p.touches(sel, h),
        p.hunk_fits(sel, h, delta),
        0 <= g < q.files.len(),
        0 <= j < q.files[g].hunks.len(),
        !is_submodule(q.lines, q.files[g]),
        ({
            let b = q.files[g].hunks[j];
            b == p.built_hunk(sel, h, delta, b.at) && stands_at(q.lines, p.hunk_rows(sel, h, delta), b.at)
        }),
    ensures
        ({
            let b = q.files[g].hunks[j];
            &&& q.hunk_written(all, b) == p.hunk_written(sel, h)
            &&& q.touches(all, b)
            &&& q.hunk_text(all, b, delta) == p.hunk_text(sel, h, delta)
            &&& picked_in(q, all, b.at + 1, b.end) == picked_in(p, sel, h.at + 1, h.end)
        }),
{
    let b = q.files[g].hunks[j];
    let ws = p.hunk_written(sel, h);
    let part = p.hunk_rows(sel, h, delta);
    let at = b.at + 1;
    lemma_plain_kinds(p, sel, h.at + 1, h.end);
    assert forall|m: int| 0 <= m < ws.len() implies #[trigger] q.lines[at + m] == row(ws[m]) by {
        assert(q.lines[b.at + (m + 1)] == part[m + 1]);
        assert(part[m + 1] == rows(ws)[m]);
    }
    assert forall|m: int| 0 <= m < ws.len() && is_plus_minus(row(#[trigger] ws[m])) implies q.picked(all, at + m) by {
        assert(q.lines[at + m] == row(ws[m]));
        assert(in_hunk(q.files[g], at + m)) by {
            assert(q.files[g].hunks[j].at < at + m < q.files[g].hunks[j].end);
        }
        assert(stageable_in(q.lines, q.files[g], at + m));
        assert(q.changes[at + m] == stageable(q.lines, q.files, at + m));
    }
    lemma_written_again(q, all, ws, at, ws.len() as int);
    assert(ws.take(ws.len() as int) =~= ws);
    let i = choose|i: int| h.at < i < h.end && #[trigger] p.picked(sel, i);
    let k = lemma_picked_is_written(p, sel, h.at + 1, h.end, i);
    assert(is_plus_minus(row(ws[k])));
    assert(q.picked(all, at + k));
    lemma_changes_written(p, sel, h.at + 1, h.end);
    lemma_changes_written(q, all, at, b.end);
}

proof fn lemma_none_picked(p: PatchView, sel: Selection, lo: int, hi: int)
    requires
        forall|i: int| lo <= i < hi ==> !#[trigger] p.picked(sel, i),
    ensures
        picked_in(p, sel, lo, hi) == 0,
    decreases hi - lo,
{
    if lo < hi {
        lemma_none_picked(p, sel, lo, hi - 1);
        assert(!p.picked(sel, hi - 1));
    }
}

/// The hunks of a file of a built patch are built again as they are.
proof fn lemma_hunks_again(
    p: PatchView,
    sel: Selection,
    q: PatchView,
    all: Selection,
    hunks: Seq<HunkView>,
    k: int,
    g: int,
)
    requires
        p.wf(),
        forall|m: int|
            0 <= m < hunks.len() ==> 0 <= (#[trigger] hunks[m]).at && hunks[m].end <= p.lines.len(),
        q.wf(),
        all == whole(q, sel.reverse),
        p.file_fits(sel, hunks),
        0 <= k <= hunks.len(),
        0 <= g < q.files.len(),
        !is_submodule(q.lines, q.files[g]),
        q.files[g].hunks == p.built_hunks(sel, hunks, hunks.len() as int, q.files[g].body),
        stands_at(q.lines, p.hunks_rows(sel, hunks, hunks.len() as int), q.files[g].body),
        forall|m: int| 0 <= m < k ==> !p.hunk_conflicts(sel, #[trigger] hunks[m]),
    ensures
        ({
            let b = p.built_hunks(sel, hunks, k, q.files[g].body).len() as int;
            &&& q.totals(all, q.files[g].hunks, b) == p.totals(sel, hunks, k)
            &&& q.hunks_text(all, q.files[g].hunks, b) == p.hunks_text(sel, hunks, k)
            &&& picked_in_hunks(q, all, q.files[g].hunks, b) == picked_in_hunks(p, sel, hunks, k)
            &&& forall|j: int| 0 <= j < b ==> !q.hunk_conflicts(all, #[trigger] q.files[g].hunks[j])
        }),
    decreases k,
{
    let base = q.files[g].body;
    let n = hunks.len() as int;
    if k > 0 {
        lemma_hunks_again(p, sel, q, all, hunks, k - 1, g);
        let h = hunks[k - 1];
        if p.touches(sel, h) {
            let delta = p.added(sel, hunks, k - 1);
            let before = p.built_hunks(sel, hunks, k - 1, base);
            let j = before.len() as int;
            lemma_hunks_prefix(p, sel, hunks, k, n, base);
            let b = q.files[g].hunks[j];
            assert(b == p.built_hunks(sel, hunks, k, base)[j]);
            let rows_before = p.hunks_rows(sel, hunks, k - 1);
            let more = p.hunk_rows(sel, h, delta);
            let rows_all = p.hunks_rows(sel, hunks, n);
            assert(stands_at(q.lines, more, b.at)) by {
                assert forall|m: int| 0 <= m < more.len() implies #[trigger] q.lines[b.at + m] == more[m] by {
                    assert(p.hunks_rows(sel, hunks, k)[rows_before.len() + m] == more[m]);
                    assert(q.lines[base + (rows_before.len() + m)] == rows_all[rows_before.len() + m]);
                }
            }
            lemma_hunk_again(p, sel, q, all, h, delta, g, j);
            assert(!p.hunk_conflicts(sel, hunks[k - 1]));
        } else {
            assert forall|i: int| h.at + 1 <= i < h.end implies !#[trigger] p.picked(sel, i) by {
            }
            lemma_none_picked(p, sel, h.at + 1, h.end);
        }
    }
}

proof fn lemma_sided_again(name: Seq<u8>, x: u8, y: u8)
    requires
        x == LOWER_A || x == LOWER_B,
    ensures
        sided(sided(name, x), y) == sided(name, y),
        without_tab(sided(name, x)) == sided(without_tab(name), x),
        sided(without_tab(sided(name, x)), y) == sided(without_tab(name), y),
{
    let bare = without_tab(name);
    assert(sided(sided(name, x), y) =~= sided(name, y));
    assert(without_tab(sided(name, x)) =~= sided(bare, x));
    assert(sided(sided(bare, x), y) =~= sided(bare, y));
}

proof fn lemma_after_first_at(lines: Seq<Seq<u8>>, from: int, to: int, prefix: &str, at: int)
    requires
        0 <= from <= at < to,
        forall|i: int| from <= i < at ==> !begins(#[trigger] lines[i], prefix),
        begins(lines[at], prefix),
    ensures
        after_first(lines, from, to, prefix) == strip_prefix(lines[at], utf8(prefix)),
    decreases at - from,
{
    if from < at {
        lemma_after_first_at(lines, from + 1, to, prefix, at);
    }
}

proof fn lemma_after_first_none(lines: Seq<Seq<u8>>, from: int, to: int, prefix: &str)
    requires
        0 <= from,
        forall|i: int| from <= i < to ==> !begins(#[trigger] lines[i], prefix),
    ensures
        after_first(lines, from, to, prefix) is None,
    decreases to - from,
{
    if from < to {
        lemma_after_first_none(lines, from + 1, to, prefix);
    }
}

proof fn lemma_after_first_moved(
    a: Seq<Seq<u8>>,
    from: int,
    b: Seq<Seq<u8>>,
    start: int,
    n: int,
    prefix: &str,
)
    requires
        0 <= from,
        0 <= start,
        forall|i: int| 0 <= i < n ==> #[trigger] a[from + i] == b[start + i],
    ensures
        after_first(a, from, from + n, prefix) == after_first(b, start, start + n, prefix),
    decreases n,
{
    if n > 0 {
        assert(a[from + 0] == b[start + 0]);
        assert forall|i: int| 0 <= i < n - 1 implies #[trigger] a[from + 1 + i] == b[start + 1 + i] by {
            assert(a[from + (i + 1)] == b[start + (i + 1)]);
        }
        lemma_after_first_moved(a, from + 1, b, start + 1, n - 1, prefix);
    }
}

/// The mode changes in a rewritten header are those it was written with.
proof fn lemma_modes_again(lines: Seq<Seq<u8>>, start: int, modes: Seq<Seq<u8>>, i: int)
    requires
        0 <= start,
        0 <= i <= modes.len(),
        !is_mode(lines[start]),
        forall|j: int| 0 <= j < modes.len() ==> #[trigger] lines[start + 1 + j] == modes[j] && is_mode(modes[j]),
    ensures
        mode_rows(lines, start, start + 1 + i) == modes.take(i),
    decreases i,
{
    if i > 0 {
        lemma_modes_again(lines, start, modes, i - 1);
        assert(lines[start + 1 + (i - 1)] == modes[i - 1]);
        assert(modes.take(i) =~= modes.take(i - 1).push(modes[i - 1]));
    } else {
        assert(mode_rows(lines, start, start) =~= Seq::<Seq<u8>>::empty());
        assert(modes.take(0) =~= Seq::<Seq<u8>>::empty());
    }
}

/// Where the lines of a rewritten header stand, only the last two begin with a sign.
proof fn lemma_plain_lines(lines: Seq<Seq<u8>>, start: int, modes: Seq<Seq<u8>>, git: Seq<u8>, minus: Seq<u8>, plus: Seq<u8>)
    requires
        stands_at(lines, seq![git] + modes + seq![minus, plus], start),
        begins(git, "diff --git "),
        forall|i: int| 0 <= i < modes.len() ==> is_mode(#[trigger] modes[i]),
        begins(minus, "--- "),
        begins(plus, "+++ "),
    ensures
        ({
            let end = start + modes.len() + 3;
            &&& after_first(lines, start, end, "--- ") == strip_prefix(minus, utf8("--- "))
            &&& after_first(lines, start, end, "+++ ") == strip_prefix(plus, utf8("+++ "))
            &&& after_first(lines, start, end, "rename from ") is None
            &&& after_first(lines, start, end, "copy from ") is None
            &&& mode_rows(lines, start, end) == modes
        }),
{
    let all = seq![git] + modes + seq![minus, plus];
    let n = modes.len() as int;
    let end = start + n + 3;
    lemma_first_bytes();
    assert(all[0] == git);
    assert(all[n + 1] == minus);
    assert(all[n + 2] == plus);
    assert(lines[start + 0] == git);
    assert(lines[start + (n + 1)] == minus);
    assert(lines[start + (n + 2)] == plus);
    assert(git[0] == utf8("diff --git ")[0]);
    assert(minus[0] == utf8("--- ")[0]);
    assert(plus[0] == utf8("+++ ")[0]);
    assert forall|j: int| 0 <= j < n implies #[trigger] lines[start + 1 + j] == modes[j] && is_mode(modes[j]) by {
        assert(lines[start + (1 + j)] == all[1 + j]);
    }
    assert forall|i: int| start <= i < start + n + 1 implies (#[trigger] lines[i]).len() > 0 && (lines[i][0] == 100
        || lines[i][0] == 110 || lines[i][0] == 111) by {
        if i > start {
            let j = i - start - 1;
            assert(lines[start + 1 + j] == modes[j]);
            assert(is_mode(modes[j]));
        }
    }
    assert forall|i: int| start <= i < start + n + 1 implies !begins(#[trigger] lines[i], "--- ") by {
    }
    assert forall|i: int| start <= i < start + n + 2 implies !begins(#[trigger] lines[i], "+++ ") by {
        assert(i == start + n + 1 ==> lines[i] == minus);
    }
    assert forall|i: int| start <= i < end implies !begins(#[trigger] lines[i], "rename from ") && !begins(
        lines[i],
        "copy from ",
    ) by {
        assert(i == start + n + 1 ==> lines[i] == minus);
        assert(i == start + n + 2 ==> lines[i] == plus);
    }
    lemma_after_first_at(lines, start, end, "--- ", start + n + 1);
    lemma_after_first_at(lines, start, end, "+++ ", start + n + 2);
    lemma_after_first_none(lines, start, end, "rename from ");
    lemma_after_first_none(lines, start, end, "copy from ");
    assert(!is_mode(git));
    lemma_modes_again(lines, start, modes, n);
    assert(modes.take(n) =~= modes);
    assert(!is_mode(minus));
    assert(!is_mode(plus));
    assert(mode_rows(lines, start, start + n + 2) == modes);
}

/// A rewritten header is written again as it is.
proof fn lemma_plain_again(p: PatchView, file: SectionView, name: Seq<u8>, q: PatchView, s: SectionView, old: int, new: int)
    requires
        p.is_read(),
        p.section_is_read(file),
        !name.contains(NEWLINE),
        q.is_read(),
        q.section_is_read(s),
        stands_at(q.lines, plain_rows(p.lines, file.start, file.body, name), s.start),
        s.body == s.start + plain_rows(p.lines, file.start, file.body, name).len(),
    ensures
        q.header_text(s, old, new) == plain_header(p.lines, file.start, file.body, name),
{
    let all = plain_rows(p.lines, file.start, file.body, name);
    let modes = mode_rows(p.lines, file.start, file.body);
    let lines = q.lines;
    let bare = without_tab(name);
    let a = sided(name, LOWER_A);
    let b = sided(name, LOWER_B);
    let minus = utf8("--- ") + a;
    let plus = utf8("+++ ") + b;
    lemma_plain_rows(p.lines, file.start, file.body, name);
    lemma_mode_rows(p.lines, file.start, file.body);
    assert(all =~= seq![all[0]] + modes + seq![minus, plus]);
    assert(utf8("--- ").is_prefix_of(minus));
    assert(utf8("+++ ").is_prefix_of(plus));
    assert(minus.skip(utf8("--- ").len() as int) =~= a);
    assert(plus.skip(utf8("+++ ").len() as int) =~= b);
    lemma_plain_lines(lines, s.start, modes, all[0], minus, plus);
    lemma_mode_rows(lines, s.start, s.body);
    lemma_copy_lines(lines, s.start, s.body);
    assert(lines.subrange(s.start, s.body) =~= all) by {
        assert forall|i: int| 0 <= i < all.len() implies lines.subrange(s.start, s.body)[i] == all[i] by {
            assert(lines[s.start + i] == all[i]);
        }
    }
    lemma_sided_again(name, LOWER_A, LOWER_A);
    lemma_sided_again(name, LOWER_A, LOWER_B);
    lemma_sided_again(name, LOWER_B, LOWER_A);
    lemma_sided_again(name, LOWER_B, LOWER_B);
    assert(plain_header(lines, s.start, s.body, a) == plain_header(p.lines, file.start, file.body, name));
    assert(plain_header(lines, s.start, s.body, b) == plain_header(p.lines, file.start, file.body, name));
}

/// A header is written again as it is.
proof fn lemma_header_again(p: PatchView, file: SectionView, q: PatchView, s: SectionView, old: int, new: int)
    requires
        p.is_read(),
        p.section_is_read(file),
        q.is_read(),
        q.section_is_read(s),
        stands_at(q.lines, p.header_rows(file, old, new), s.start),
        s.body == s.start + p.header_rows(file, old, new).len(),
    ensures
        q.header_text(s, old, new) == p.header_text(file, old, new),
{
    let all = p.header_rows(file, old, new);
    let n = all.len() as int;
    lemma_header_rows(p, file, old, new);
    match p.rewritten(file, old, new) {
        Some(name) => {
            lemma_after_first(p.lines, file.start, file.body, "--- ");
            lemma_after_first(p.lines, file.start, file.body, "+++ ");
            lemma_plain_again(p, file, name, q, s, old, new);
        },
        None => {
            assert(n == file.body - file.start);
            assert forall|i: int| 0 <= i < n implies #[trigger] q.lines[s.start + i] == p.lines[file.start + i] by {
                assert(q.lines[s.start + i] == all[i]);
            }
            lemma_after_first_moved(q.lines, s.start, p.lines, file.start, n, "--- ");
            lemma_after_first_moved(q.lines, s.start, p.lines, file.start, n, "+++ ");
            lemma_after_first_moved(q.lines, s.start, p.lines, file.start, n, "rename from ");
            lemma_after_first_moved(q.lines, s.start, p.lines, file.start, n, "copy from ");
            lemma_copy_lines(q.lines, s.start, s.body);
            assert(q.lines.subrange(s.start, s.body) =~= all) by {
                assert forall|i: int| 0 <= i < n implies q.lines.subrange(s.start, s.body)[i] == all[i] by {
                    assert(q.lines[s.start + i] == all[i]);
                }
            }
        },
    }
}

/// The files of a built patch are built again as they are.
proof fn lemma_files_again(p: PatchView, sel: Selection, q: PatchView, all: Selection, k: int)
    requires
        p.wf(),
        p.is_read(),
        p.readable(sel),
        !p.conflicts(sel),
        q.wf(),
        q.is_read(),
        q.lines == p.files_rows(sel, p.files.len() as int),
        q.files == p.built_files(sel, p.files.len() as int),
        all == whole(q, sel.reverse),
        0 <= k <= p.files.len(),
    ensures
        ({
            let g = p.built_files(sel, k).len() as int;
            &&& q.files_text(all, g) == p.files_text(sel, k)
            &&& picked_in_files(q, all, g) == picked_in_files(p, sel, k)
            &&& forall|f: int, j: int| 0 <= f < g ==> !#[trigger] q.conflicts_at(all, f, j)
        }),
    decreases k,
{
    if k > 0 {
        lemma_files_again(p, sel, q, all, k - 1);
        let file = p.files[k - 1];
        let n = file.hunks.len() as int;
        assert(p.section_is_read(p.files[k - 1]));
        lemma_section_hunks(p, file);
        if p.file_body(sel, file).len() == 0 {
            lemma_no_rows(p, sel, file.hunks, n);
            lemma_nothing_picked(p, sel, file.hunks, n);
            assert(p.file_text(sel, file).len() == 0);
            assert(p.files_text(sel, k) =~= p.files_text(sel, k - 1));
        } else {
            let g = p.built_files(sel, k - 1).len() as int;
            let start = p.files_rows(sel, k - 1).len() as int;
            lemma_files_prefix(p, sel, k, p.files.len() as int);
            let s = p.built_section(sel, file, start);
            assert(q.files[g] == p.built_files(sel, k)[g]);
            assert(q.files[g] == s);
            let header = p.file_header(sel, file);
            let body = p.file_body(sel, file);
            assert(stands_at(q.lines, header + body, start)) by {
                let part = header + body;
                assert forall|m: int| 0 <= m < part.len() implies #[trigger] q.lines[start + m] == part[m] by {
                    assert(p.files_rows(sel, k)[start + m] == part[m]);
                }
            }
            lemma_stands_apart(q.lines, header, body, start);
            assert(!is_submodule(q.lines, q.files[g])) by {
                assert forall|i: int| s.start <= i < s.body implies !gitlink_line(#[trigger] q.lines[i]) by {
                    assert(q.lines[start + (i - start)] == header[i - start]);
                    assert(!gitlink_line(p.file_header(sel, p.files[k - 1])[i - start]));
                }
            }
            assert forall|m: int| 0 <= m < n implies !p.hunk_conflicts(sel, #[trigger] file.hunks[m]) by {
                assert(!p.conflicts_at(sel, k - 1, m));
            }
            lemma_hunks_again(p, sel, q, all, file.hunks, n, g);
            assert(q.section_is_read(q.files[g]));
            let (old, new) = p.totals(sel, file.hunks, n);
            lemma_header_again(p, file, q, s, old, new);
            assert(q.file_text(all, s) == p.file_text(sel, file));
            assert forall|f: int, j: int| 0 <= f < g + 1 implies !#[trigger] q.conflicts_at(all, f, j) by {
                if f == g && 0 <= j < s.hunks.len() {
                    assert(!q.hunk_conflicts(all, q.files[g].hunks[j]));
                }
            }
        }
    }
}

/// Hunks that aren't written have no selected changes.
proof fn lemma_nothing_picked(p: PatchView, sel: Selection, hunks: Seq<HunkView>, k: int)
    requires
        0 <= k <= hunks.len(),
        forall|m: int| 0 <= m < k ==> !p.touches(sel, #[trigger] hunks[m]),
    ensures
        picked_in_hunks(p, sel, hunks, k) == 0,
    decreases k,
{
    if k > 0 {
        let h = hunks[k - 1];
        lemma_nothing_picked(p, sel, hunks, k - 1);
        assert(!p.touches(sel, hunks[k - 1]));
        lemma_none_picked(p, sel, h.at + 1, h.end);
    }
}

// ---- how many changes there are

proof fn lemma_picked_apart(p: PatchView, sel: Selection, lo: int, mid: int, hi: int)
    requires
        lo <= mid <= hi,
    ensures
        picked_in(p, sel, lo, hi) == picked_in(p, sel, lo, mid) + picked_in(p, sel, mid, hi),
    decreases hi - mid,
{
    if mid < hi {
        lemma_picked_apart(p, sel, lo, mid, hi - 1);
    }
}

/// Where a section ends: at the next one, or with the diff.
spec fn section_end(p: PatchView, f: int) -> int {
    if 0 <= f < p.files.len() {
        p.files[f].start
    } else {
        p.lines.len() as int
    }
}

/// Where the lines before hunk `k` of a file end.
spec fn hunk_start(p: PatchView, f: int, k: int) -> int {
    if 0 <= k < p.files[f].hunks.len() {
        p.files[f].hunks[k].at
    } else {
        section_end(p, f + 1)
    }
}

/// Lines that are in no hunk are not selected.
proof fn lemma_gap(p: PatchView, sel: Selection, lo: int, hi: int)
    requires
        p.wf(),
        forall|i: int, g: int, m: int|
            lo <= i < hi && 0 <= g < p.files.len() && 0 <= m < (#[trigger] p.files[g]).hunks.len()
                ==> !((#[trigger] p.files[g].hunks[m]).at < i && #[trigger] within_end(i, p.files[g].hunks[m].end)),
    ensures
        picked_in(p, sel, lo, hi) == 0,
{
    assert forall|i: int| lo <= i < hi implies !#[trigger] p.picked(sel, i) by {
        if p.picked(sel, i) {
            assert(p.changes[i] == stageable(p.lines, p.files, i));
            let g = choose|g: int| 0 <= g < p.files.len() && stageable_in(p.lines, #[trigger] p.files[g], i);
            let m = choose|m: int|
                0 <= m < p.files[g].hunks.len() && (#[trigger] p.files[g].hunks[m]).at < i < p.files[g].hunks[m].end;
            assert(within_end(i, p.files[g].hunks[m].end));
        }
    }
    lemma_none_picked(p, sel, lo, hi);
}

/// Whether a line comes before an end.
spec fn within_end(i: int, end: int) -> bool {
    i < end
}

/// The selected changes of a file's lines are those of its hunks.
proof fn lemma_picked_in_file(p: PatchView, sel: Selection, f: int, k: int)
    requires
        p.wf(),
        0 <= f < p.files.len(),
        0 <= k <= p.files[f].hunks.len(),
    ensures
        p.files[f].start <= hunk_start(p, f, k) <= p.lines.len(),
        picked_in(p, sel, p.files[f].start, hunk_start(p, f, k)) == picked_in_hunks(p, sel, p.files[f].hunks, k),
    decreases k,
{
    let file = p.files[f];
    let hunks = file.hunks;
    if k == 0 {
        assert forall|i: int, g: int, m: int|
            file.start <= i < hunk_start(p, f, 0) && 0 <= g < p.files.len() && 0 <= m < (
            #[trigger] p.files[g]).hunks.len() implies !((#[trigger] p.files[g].hunks[m]).at < i && #[trigger] within_end(
            i,
            p.files[g].hunks[m].end,
        )) by {
            lemma_not_covered(p, f, -1, i, g, m);
        }
        lemma_gap(p, sel, file.start, hunk_start(p, f, 0));
    } else {
        lemma_picked_in_file(p, sel, f, k - 1);
        let h = hunks[k - 1];
        let end = hunk_start(p, f, k);
        assert(h.at < h.end <= end) by {
            if k < hunks.len() {
                assert(hunks[k - 1].end <= hunks[k].at);
            } else if f + 1 < p.files.len() {
                assert(p.files[f].hunks[k - 1].end <= p.files[f + 1].start);
            }
        }
        assert forall|i: int, g: int, m: int|
            h.end <= i < end && 0 <= g < p.files.len() && 0 <= m < (
            #[trigger] p.files[g]).hunks.len() implies !((#[trigger] p.files[g].hunks[m]).at < i && #[trigger] within_end(
            i,
            p.files[g].hunks[m].end,
        )) by {
            lemma_not_covered(p, f, k - 1, i, g, m);
        }
        lemma_gap(p, sel, h.end, end);
        assert forall|i: int, g: int, m: int|
            h.at <= i < h.at + 1 && 0 <= g < p.files.len() && 0 <= m < (
            #[trigger] p.files[g]).hunks.len() implies !((#[trigger] p.files[g].hunks[m]).at < i && #[trigger] within_end(
            i,
            p.files[g].hunks[m].end,
        )) by {
            lemma_not_covered(p, f, k - 2, i, g, m);
        }
        lemma_gap(p, sel, h.at, h.at + 1);
        lemma_picked_apart(p, sel, file.start, h.at, end);
        lemma_picked_apart(p, sel, h.at, h.at + 1, end);
        lemma_picked_apart(p, sel, h.at + 1, h.end, end);
    }
}

/// A line after hunk `k` of file `f`, up to the next hunk or section, is in no hunk; the line
/// that starts that hunk isn't, either.
proof fn lemma_not_covered(p: PatchView, f: int, k: int, i: int, g: int, m: int)
    requires
        p.wf(),
        0 <= f < p.files.len(),
        -1 <= k < p.files[f].hunks.len(),
        k >= 0 ==> p.files[f].hunks[k].end <= i,
        p.files[f].start <= i,
        k + 1 < p.files[f].hunks.len() ==> i <= p.files[f].hunks[k + 1].at,
        k + 1 == p.files[f].hunks.len() ==> i < section_end(p, f + 1),
        0 <= g < p.files.len(),
        0 <= m < p.files[g].hunks.len(),
    ensures
        !(p.files[g].hunks[m].at < i < p.files[g].hunks[m].end),
{
    let hunks = p.files[f].hunks;
    let other = p.files[g].hunks[m];
    if g < f {
        assert(p.files[g].hunks[m].end <= p.files[f].start);
    } else if g > f {
        assert(p.files[g].body <= p.files[g].hunks[m].at);
        if k + 1 < hunks.len() {
            assert(p.files[f].hunks[k + 1].end <= p.files[g].start);
        } else if g > f + 1 {
            assert(p.files[f + 1].body <= p.files[g].start);
        }
    } else if m <= k {
        if m < k {
            assert(hunks[m].end <= hunks[k].at);
        }
    } else if m > k + 1 {
        assert(hunks[k + 1].end <= hunks[m].at);
    }
}

/// The selected changes of a diff are those of its files.
proof fn lemma_picked_in_files(p: PatchView, sel: Selection, k: int)
    requires
        p.wf(),
        0 <= k <= p.files.len(),
    ensures
        0 <= section_end(p, k) <= p.lines.len(),
        picked_in(p, sel, 0, section_end(p, k)) == picked_in_files(p, sel, k),
    decreases k,
{
    if k == 0 {
        let end = section_end(p, 0);
        assert forall|i: int, g: int, m: int|
            0 <= i < end && 0 <= g < p.files.len() && 0 <= m < (
            #[trigger] p.files[g]).hunks.len() implies !((#[trigger] p.files[g].hunks[m]).at < i && #[trigger] within_end(
            i,
            p.files[g].hunks[m].end,
        )) by {
            assert(p.files[g].body <= p.files[g].hunks[m].at);
            if g > 0 {
                assert(p.files[0].body <= p.files[g].start);
            }
        }
        lemma_gap(p, sel, 0, end);
    } else {
        lemma_picked_in_files(p, sel, k - 1);
        let n = p.files[k - 1].hunks.len() as int;
        lemma_picked_in_file(p, sel, k - 1, n);
        lemma_picked_apart(p, sel, 0, p.files[k - 1].start, section_end(p, k));
    }
}

/// A patch that was built is a diff like any other: it has as many changes as were selected,
/// none of them is in conflict with another, and the patch of all of them is the same patch.
pub proof fn law_built_patch_is_a_diff(diff: Seq<u8>, sel: Selection)
    requires
        !patch_of(diff).conflicts(sel),
        patch_of(diff).readable(sel),
    ensures
        ({
            let p = patch_of(diff);
            let q = patch_of(p.patch_text(sel));
            &&& !q.conflicts(whole(q, sel.reverse))
            &&& q.patch_text(whole(q, sel.reverse)) == p.patch_text(sel)
            &&& picked_in(q, whole(q, sel.reverse), 0, q.lines.len() as int) == picked_in(
                p,
                sel,
                0,
                p.lines.len() as int,
            )
        }),
{
    let p = patch_of(diff);
    let q = patch_of(p.patch_text(sel));
    let all = whole(q, sel.reverse);
    lemma_patch_wf(diff);
    lemma_built_is_read(p, sel);
    lemma_files_again(p, sel, q, all, p.files.len() as int);
    lemma_picked_in_files(p, sel, p.files.len() as int);
    lemma_picked_in_files(q, all, q.files.len() as int);
    if q.conflicts(all) {
        let (f, k) = choose|f: int, k: int| q.conflicts_at(all, f, k);
        assert(!q.conflicts_at(all, f, k));
    }
}

} // verus!
