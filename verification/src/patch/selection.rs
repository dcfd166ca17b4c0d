//! What a patch of some selected lines says.

use vstd::prelude::*;

use crate::patch::diff::{is_marker, is_plus_minus, begins, HunkView, PatchView, SectionView};
use crate::text::ascii::{BACKSLASH, COMMA, LOWER_A, LOWER_B, MINUS, NEWLINE, PLUS, QUOTE, SLASH, SPACE, TAB};
use crate::text::number::{decimal_bytes, signed_bytes};
use crate::text::seqs::strip_prefix;
use crate::text::strings::utf8;

verus! {

/// The lines `lo..hi` of a diff, for a patch that is applied forwards or in reverse.
pub ghost struct Selection {
    pub lo: int,
    pub hi: int,
    pub reverse: bool,
}

/// A line of a hunk as it is written: context (a space), added, removed, or a
/// `\ No newline at end of file` marker.
#[verifier::ext_equal]
pub ghost struct Written {
    pub kind: u8,
    pub text: Seq<u8>,
}

impl Written {
    /// Whether this is a line of the file before the change.
    pub open spec fn on_old(self) -> bool {
        self.kind == SPACE || self.kind == MINUS
    }

    /// Whether this is a line of the file after the change.
    pub open spec fn on_new(self) -> bool {
        self.kind == SPACE || self.kind == PLUS
    }

    /// Whether this is a marker.
    pub open spec fn is_mark(self) -> bool {
        self.kind == BACKSLASH
    }

    /// The line with its line ending.
    pub open spec fn render(self) -> Seq<u8> {
        seq![self.kind] + self.text + seq![NEWLINE]
    }
}

/// A hunk line's text, without the leading `+`, `-` or space. An empty line is an empty
/// context line.
pub open spec fn line_text(line: Seq<u8>) -> Seq<u8> {
    if line.len() == 0 {
        line
    } else {
        line.drop_first()
    }
}

/// How a line that isn't a marker is written, if at all. A change outside the selection
/// stays as it is in the file that is patched: there already (context) or not (left out).
pub open spec fn kept(line: Seq<u8>, selected: bool, reverse: bool) -> Option<Written> {
    if !is_plus_minus(line) {
        Some(Written { kind: SPACE, text: line_text(line) })
    } else if selected {
        Some(Written { kind: line[0], text: line_text(line) })
    } else if (line[0] == PLUS) == reverse {
        Some(Written { kind: SPACE, text: line_text(line) })
    } else {
        None
    }
}

/// The number of a hunk's first line in a file; a header gives one less for an empty side.
pub open spec fn first_line_of(start: int, count: int) -> int {
    start + (if count == 0 {
        1int
    } else {
        0
    })
}

/// The start that a header gives.
pub open spec fn start_of(first: int, count: int) -> int {
    first - (if count == 0 {
        1int
    } else {
        0
    })
}

/// `start,count` in a hunk's header.
pub open spec fn range_text(first: int, count: int) -> Seq<u8> {
    signed_bytes(start_of(first, count)) + seq![COMMA] + decimal_bytes(count as nat)
}

/// A hunk's `@@` line.
pub open spec fn at_line(old_first: int, old: int, new_first: int, new: int, heading: Seq<u8>) -> Seq<u8> {
    utf8("@@ -") + range_text(old_first, old) + utf8(" +") + range_text(new_first, new) + utf8(
        " @@",
    ) + heading + seq![NEWLINE]
}

/// The `@@` line of a hunk with `old` and `new` lines on its sides. The side it is applied
/// to stays where it is; the other side moves by the lines that earlier hunks added.
pub open spec fn hunk_at_line(h: HunkView, reverse: bool, delta: int, old: int, new: int) -> Seq<u8> {
    if reverse {
        let first = first_line_of(h.new_start as int, h.new_count as int);
        at_line(first - delta, old, first, new, h.heading)
    } else {
        let first = first_line_of(h.old_start as int, h.old_count as int);
        at_line(first, old, first + delta, new, h.heading)
    }
}

/// All lines with their line endings.
pub open spec fn render_all(ws: Seq<Written>) -> Seq<u8>
    decreases ws.len(),
{
    if ws.len() == 0 {
        Seq::empty()
    } else {
        render_all(ws.drop_last()) + ws.last().render()
    }
}

/// The lines of the file before the change.
pub open spec fn old_side(ws: Seq<Written>) -> Seq<Seq<u8>>
    decreases ws.len(),
{
    if ws.len() == 0 {
        Seq::empty()
    } else if ws.last().on_old() {
        old_side(ws.drop_last()).push(ws.last().text)
    } else {
        old_side(ws.drop_last())
    }
}

/// The lines of the file after the change.
pub open spec fn new_side(ws: Seq<Written>) -> Seq<Seq<u8>>
    decreases ws.len(),
{
    if ws.len() == 0 {
        Seq::empty()
    } else if ws.last().on_new() {
        new_side(ws.drop_last()).push(ws.last().text)
    } else {
        new_side(ws.drop_last())
    }
}

/// The kind of the last line that isn't a marker.
pub open spec fn last_kind(ws: Seq<Written>) -> Option<u8>
    decreases ws.len(),
{
    if ws.len() == 0 {
        None
    } else if ws.last().is_mark() {
        last_kind(ws.drop_last())
    } else {
        Some(ws.last().kind)
    }
}

/// Whether line `j` marks the end of the file before the change.
pub open spec fn ends_old(ws: Seq<Written>, j: int) -> bool {
    0 <= j < ws.len() && ws[j].is_mark() && last_kind(ws.take(j)) != Some(PLUS)
}

/// Whether line `j` marks the end of the file after the change.
pub open spec fn ends_new(ws: Seq<Written>, j: int) -> bool {
    0 <= j < ws.len() && ws[j].is_mark() && last_kind(ws.take(j)) != Some(MINUS)
}

/// Whether line `k` continues a file that line `j` marked the end of.
pub open spec fn clash(ws: Seq<Written>, j: int, k: int) -> bool {
    &&& j < k < ws.len()
    &&& ends_old(ws, j) && ws[k].on_old() || ends_new(ws, j) && ws[k].on_new()
}

/// Whether the lines can't be applied: a file goes on after its end.
pub open spec fn conflict(ws: Seq<Written>) -> bool {
    exists|j: int, k: int| clash(ws, j, k)
}

/// The first of the lines `from..to` that starts with `prefix`, without the prefix.
pub open spec fn after_first(lines: Seq<Seq<u8>>, from: int, to: int, prefix: &str) -> Option<Seq<u8>>
    decreases to - from,
{
    if from < 0 || from >= to {
        None
    } else if begins(lines[from], prefix) {
        strip_prefix(lines[from], utf8(prefix))
    } else {
        after_first(lines, from + 1, to, prefix)
    }
}

/// The lines `from..to` with their line endings; only the mode changes if `modes` is set.
pub open spec fn copy_lines(lines: Seq<Seq<u8>>, from: int, to: int, modes: bool) -> Seq<u8>
    decreases to - from,
{
    if from >= to {
        Seq::empty()
    } else {
        let line = lines[to - 1];
        copy_lines(lines, from, to - 1, modes) + (if !modes || begins(line, "old mode ") || begins(
            line,
            "new mode ",
        ) {
            line.push(NEWLINE)
        } else {
            Seq::empty()
        })
    }
}

/// `b/name` (or `"b/name"`) with its `a/` or `b/` prefix set to `side`.
pub open spec fn sided(name: Seq<u8>, side: u8) -> Seq<u8> {
    let at: int = if name.len() > 0 && name[0] == QUOTE {
        1
    } else {
        0
    };
    if at + 2 <= name.len() && (name[at] == LOWER_A || name[at] == LOWER_B) && name[at + 1] == SLASH {
        name.update(at, side)
    } else {
        name
    }
}

/// A name without the tab that git adds after names with spaces.
pub open spec fn without_tab(name: Seq<u8>) -> Seq<u8> {
    if name.len() > 0 && name.last() == TAB {
        name.drop_last()
    } else {
        name
    }
}

/// The header of a plain change to the file `name`, with the mode changes of the lines
/// `from..to`.
pub open spec fn plain_header(lines: Seq<Seq<u8>>, from: int, to: int, name: Seq<u8>) -> Seq<u8> {
    let bare = without_tab(name);
    utf8("diff --git ") + sided(bare, LOWER_A) + seq![SPACE] + sided(bare, LOWER_B) + seq![NEWLINE]
        + copy_lines(lines, from, to, true) + utf8("--- ") + sided(name, LOWER_A) + seq![NEWLINE]
        + utf8("+++ ") + sided(name, LOWER_B) + seq![NEWLINE]
}

impl PatchView {
    /// Whether line `i` is a selected change.
    pub open spec fn picked(self, sel: Selection, i: int) -> bool {
        sel.lo <= i < sel.hi && 0 <= i < self.changes.len() && self.changes[i]
    }

    /// How line `i` is written, if at all.
    pub open spec fn keeps(self, sel: Selection, i: int) -> Option<Written> {
        kept(self.lines[i], self.picked(sel, i), sel.reverse)
    }

    /// Whether the last line of `from..i` that isn't a marker is left out.
    pub open spec fn left_out_before(self, sel: Selection, from: int, i: int) -> bool
        decreases i - from,
    {
        if i <= from {
            false
        } else if is_marker(self.lines[i - 1]) {
            self.left_out_before(sel, from, i - 1)
        } else {
            self.keeps(sel, i - 1) is None
        }
    }

    /// How the lines `from..to` of a hunk are written. A marker goes with the line before it.
    pub open spec fn written(self, sel: Selection, from: int, to: int) -> Seq<Written>
        decreases to - from,
    {
        if to <= from {
            Seq::empty()
        } else {
            let before = self.written(sel, from, to - 1);
            let line = self.lines[to - 1];
            if is_marker(line) {
                if self.left_out_before(sel, from, to - 1) {
                    before
                } else {
                    before.push(Written { kind: BACKSLASH, text: line.drop_first() })
                }
            } else {
                match self.keeps(sel, to - 1) {
                    None => before,
                    Some(w) => before.push(w),
                }
            }
        }
    }

    /// How a hunk's lines are written.
    pub open spec fn hunk_written(self, sel: Selection, h: HunkView) -> Seq<Written> {
        self.written(sel, h.at + 1, h.end)
    }

    /// Whether a hunk has a selected change.
    pub open spec fn touches(self, sel: Selection, h: HunkView) -> bool {
        exists|i: int| h.at < i < h.end && #[trigger] self.picked(sel, i)
    }

    /// How many lines the first `k` hunks have before and after the change.
    pub open spec fn totals(self, sel: Selection, hunks: Seq<HunkView>, k: int) -> (int, int)
        decreases k,
    {
        if k <= 0 {
            (0, 0)
        } else {
            let (old, new) = self.totals(sel, hunks, k - 1);
            let h = hunks[k - 1];
            if self.touches(sel, h) {
                let ws = self.hunk_written(sel, h);
                (old + old_side(ws).len(), new + new_side(ws).len())
            } else {
                (old, new)
            }
        }
    }

    /// A hunk with only the selected changes, after hunks that added `delta` lines.
    pub open spec fn hunk_text(self, sel: Selection, h: HunkView, delta: int) -> Seq<u8> {
        let ws = self.hunk_written(sel, h);
        hunk_at_line(h, sel.reverse, delta, old_side(ws).len() as int, new_side(ws).len() as int)
            + render_all(ws)
    }

    /// The first `k` hunks with only the selected changes.
    pub open spec fn hunks_text(self, sel: Selection, hunks: Seq<HunkView>, k: int) -> Seq<u8>
        decreases k,
    {
        if k <= 0 {
            Seq::empty()
        } else {
            let before = self.hunks_text(sel, hunks, k - 1);
            let (old, new) = self.totals(sel, hunks, k - 1);
            if self.touches(sel, hunks[k - 1]) {
                before + self.hunk_text(sel, hunks[k - 1], new - old)
            } else {
                before
            }
        }
    }

    /// A file's header, rewritten as a plain change to one file where a partial patch
    /// can't keep it: a new file that keeps lines when the patch is reversed, a deleted
    /// file that keeps lines, or a rename.
    pub open spec fn header_text(self, file: SectionView, old_total: int, new_total: int) -> Seq<u8> {
        let minus = after_first(self.lines, file.start, file.body, "--- ");
        let plus = after_first(self.lines, file.start, file.body, "+++ ");
        let created = minus == Some(utf8("/dev/null"));
        let deleted = plus == Some(utf8("/dev/null"));
        let renamed = after_first(self.lines, file.start, file.body, "rename from ") is Some
            || after_first(self.lines, file.start, file.body, "copy from ") is Some;
        let path = if deleted {
            minus
        } else {
            plus
        };
        if path is Some && (renamed || created && old_total > 0 || deleted && new_total > 0) {
            plain_header(self.lines, file.start, file.body, path.unwrap())
        } else {
            copy_lines(self.lines, file.start, file.body, false)
        }
    }

    /// A file's part of the patch: nothing if none of its changes is selected.
    pub open spec fn file_text(self, sel: Selection, file: SectionView) -> Seq<u8> {
        let n = file.hunks.len() as int;
        let body = self.hunks_text(sel, file.hunks, n);
        let (old, new) = self.totals(sel, file.hunks, n);
        if body.len() == 0 {
            Seq::empty()
        } else {
            self.header_text(file, old, new) + body
        }
    }

    /// The patch of the first `k` files.
    pub open spec fn files_text(self, sel: Selection, k: int) -> Seq<u8>
        decreases k,
    {
        if k <= 0 {
            Seq::empty()
        } else {
            self.files_text(sel, k - 1) + self.file_text(sel, self.files[k - 1])
        }
    }

    /// The patch of the selected changes; empty when nothing is selected.
    pub open spec fn patch_text(self, sel: Selection) -> Seq<u8> {
        self.files_text(sel, self.files.len() as int)
    }

    /// Whether a hunk has selected changes that can't be applied on their own.
    pub open spec fn hunk_conflicts(self, sel: Selection, h: HunkView) -> bool {
        self.touches(sel, h) && conflict(self.hunk_written(sel, h))
    }

    /// Whether hunk `k` of file `f` can't be applied.
    pub open spec fn conflicts_at(self, sel: Selection, f: int, k: int) -> bool {
        &&& 0 <= f < self.files.len()
        &&& 0 <= k < self.files[f].hunks.len()
        &&& self.hunk_conflicts(sel, self.files[f].hunks[k])
    }

    /// Whether the selected changes can't be applied on their own.
    pub open spec fn conflicts(self, sel: Selection) -> bool {
        exists|f: int, k: int| self.conflicts_at(sel, f, k)
    }
}

/// What one more line changes.
pub proof fn lemma_push(ws: Seq<Written>, w: Written)
    ensures
        render_all(ws.push(w)) == render_all(ws) + w.render(),
        old_side(ws.push(w)) == (if w.on_old() {
            old_side(ws).push(w.text)
        } else {
            old_side(ws)
        }),
        new_side(ws.push(w)) == (if w.on_new() {
            new_side(ws).push(w.text)
        } else {
            new_side(ws)
        }),
        last_kind(ws.push(w)) == (if w.is_mark() {
            last_kind(ws)
        } else {
            Some(w.kind)
        }),
        forall|j: int| #[trigger]
            ends_old(ws.push(w), j) == (ends_old(ws, j) || j == ws.len() && w.is_mark() && last_kind(ws)
                != Some(PLUS)),
        forall|j: int| #[trigger]
            ends_new(ws.push(w), j) == (ends_new(ws, j) || j == ws.len() && w.is_mark() && last_kind(ws)
                != Some(MINUS)),
        (exists|j: int| ends_old(ws.push(w), j)) == ((exists|j: int| ends_old(ws, j)) || w.is_mark()
            && last_kind(ws) != Some(PLUS)),
        (exists|j: int| ends_new(ws.push(w), j)) == ((exists|j: int| ends_new(ws, j)) || w.is_mark()
            && last_kind(ws) != Some(MINUS)),
        conflict(ws.push(w)) == (conflict(ws) || w.on_old() && (exists|j: int| ends_old(ws, j))
            || w.on_new() && (exists|j: int| ends_new(ws, j))),
{
    let all = ws.push(w);
    assert(all.drop_last() =~= ws);
    assert(all.take(ws.len() as int) =~= ws);
    assert forall|j: int| 0 <= j < ws.len() implies #[trigger] all.take(j) == ws.take(j) by {
        assert(all.take(j) =~= ws.take(j));
    }
    assert forall|j: int| #[trigger]
        ends_old(all, j) == (ends_old(ws, j) || j == ws.len() && w.is_mark() && last_kind(ws) != Some(
            PLUS,
        )) by {
        if 0 <= j < ws.len() {
            assert(all.take(j) == ws.take(j));
        }
    }
    assert forall|j: int| #[trigger]
        ends_new(all, j) == (ends_new(ws, j) || j == ws.len() && w.is_mark() && last_kind(ws) != Some(
            MINUS,
        )) by {
        if 0 <= j < ws.len() {
            assert(all.take(j) == ws.take(j));
        }
    }
    if exists|j: int| ends_old(ws, j) {
        let j = choose|j: int| ends_old(ws, j);
        assert(ends_old(all, j));
        if w.on_old() {
            assert(clash(all, j, ws.len() as int));
        }
    }
    if exists|j: int| ends_new(ws, j) {
        let j = choose|j: int| ends_new(ws, j);
        assert(ends_new(all, j));
        if w.on_new() {
            assert(clash(all, j, ws.len() as int));
        }
    }
    if w.is_mark() && last_kind(ws) != Some(PLUS) {
        assert(ends_old(all, ws.len() as int));
    }
    if w.is_mark() && last_kind(ws) != Some(MINUS) {
        assert(ends_new(all, ws.len() as int));
    }
    if exists|j: int| ends_old(all, j) {
        let j = choose|j: int| ends_old(all, j);
        assert(ends_old(ws, j) || w.is_mark() && last_kind(ws) != Some(PLUS));
    }
    if exists|j: int| ends_new(all, j) {
        let j = choose|j: int| ends_new(all, j);
        assert(ends_new(ws, j) || w.is_mark() && last_kind(ws) != Some(MINUS));
    }
    if conflict(ws) {
        let (j, k) = choose|j: int, k: int| clash(ws, j, k);
        assert(clash(all, j, k));
    }
    if conflict(all) {
        let (j, k) = choose|j: int, k: int| clash(all, j, k);
        if k < ws.len() {
            assert(clash(ws, j, k));
        } else {
            assert(ends_old(all, j) ==> ends_old(ws, j));
            assert(ends_new(all, j) ==> ends_new(ws, j));
        }
    }
}

/// More lines only add to what is written.
pub proof fn lemma_written_grows(p: PatchView, sel: Selection, from: int, mid: int, to: int)
    requires
        mid <= to,
    ensures
        p.written(sel, from, mid).is_prefix_of(p.written(sel, from, to)),
    decreases to - mid,
{
    if mid < to {
        lemma_written_grows(p, sel, from, mid, to - 1);
    }
}

/// A conflict stays one when more lines follow.
pub proof fn lemma_conflict_grows(ws: Seq<Written>, more: Seq<Written>)
    requires
        ws.is_prefix_of(more),
        conflict(ws),
    ensures
        conflict(more),
{
    let (j, k) = choose|j: int, k: int| clash(ws, j, k);
    assert(more.take(j) =~= ws.take(j));
    assert(clash(more, j, k));
}

/// A hunk has no more lines on either side than it has lines.
pub proof fn lemma_side_lengths(p: PatchView, sel: Selection, from: int, to: int)
    requires
        from <= to,
    ensures
        old_side(p.written(sel, from, to)).len() <= to - from,
        new_side(p.written(sel, from, to)).len() <= to - from,
    decreases to - from,
{
    if from < to {
        lemma_side_lengths(p, sel, from, to - 1);
        let before = p.written(sel, from, to - 1);
        let after = p.written(sel, from, to);
        if after != before {
            lemma_push(before, after.last());
            assert(after =~= before.push(after.last()));
        }
    }
}

} // verus!
