//! A patch that was built is a diff like any other.

use vstd::prelude::*;
use vstd::utf8::is_ascii_chars_encode_utf8;

use crate::patch::diff::{
    begins, gitlink_line, header_end, hunk_at, hunk_header, hunks_end, hunks_from, is_marker, lemma_header_end,
    lemma_hunk_at, lemma_hunks_from, sections_from, HunkView, PatchView, SectionView,
};
use crate::patch::rows::{
    header_number, lemma_at_bytes, lemma_body_is_read, lemma_header_is_read, lemma_text_of_add, lemma_text_of_one,
    one_line_each, plain_kinds, row, rows, text_of,
};
use crate::patch::selection::{
    after_first, copy_lines, first_line_of, hunk_at_line, new_side, old_side, plain_header, sided, start_of,
    without_tab, Selection, Written,
};
use crate::text::ascii::{AT, LOWER_A, LOWER_B, MINUS, NEWLINE, PLUS, SPACE};
use crate::text::strings::utf8;

verus! {

/// The first line of a hunk in the file before the change, when the patch is written.
pub open spec fn old_first(h: HunkView, reverse: bool, delta: int) -> int {
    if reverse {
        first_line_of(h.new_start as int, h.new_count as int) - delta
    } else {
        first_line_of(h.old_start as int, h.old_count as int)
    }
}

/// The first line of a hunk in the file after the change, when the patch is written.
pub open spec fn new_first(h: HunkView, reverse: bool, delta: int) -> int {
    if reverse {
        first_line_of(h.new_start as int, h.new_count as int)
    } else {
        first_line_of(h.old_start as int, h.old_count as int) + delta
    }
}

/// The lines of the header of a plain change to the file `name`.
pub open spec fn plain_rows(lines: Seq<Seq<u8>>, from: int, to: int, name: Seq<u8>) -> Seq<Seq<u8>> {
    let bare = without_tab(name);
    seq![utf8("diff --git ") + sided(bare, LOWER_A) + seq![SPACE] + sided(bare, LOWER_B)] + mode_rows(
        lines,
        from,
        to,
    ) + seq![utf8("--- ") + sided(name, LOWER_A), utf8("+++ ") + sided(name, LOWER_B)]
}

/// Whether a line says how a file's mode changes.
pub open spec fn is_mode(line: Seq<u8>) -> bool {
    begins(line, "old mode ") || begins(line, "new mode ")
}

/// The mode changes among the lines `from..to`.
pub open spec fn mode_rows(lines: Seq<Seq<u8>>, from: int, to: int) -> Seq<Seq<u8>>
    decreases to - from,
{
    if from >= to {
        Seq::empty()
    } else if is_mode(lines[to - 1]) {
        mode_rows(lines, from, to - 1).push(lines[to - 1])
    } else {
        mode_rows(lines, from, to - 1)
    }
}

impl PatchView {
    /// The lines of a hunk with only the selected changes.
    pub open spec fn hunk_rows(self, sel: Selection, h: HunkView, delta: int) -> Seq<Seq<u8>> {
        let ws = self.hunk_written(sel, h);
        seq![
            hunk_at_line(
                h,
                sel.reverse,
                delta,
                old_side(ws).len() as int,
                new_side(ws).len() as int,
            ).drop_last(),
        ] + rows(ws)
    }

    /// How many lines the first `k` hunks add.
    pub open spec fn added(self, sel: Selection, hunks: Seq<HunkView>, k: int) -> int {
        self.totals(sel, hunks, k).1 - self.totals(sel, hunks, k).0
    }

    /// The lines of the first `k` hunks with only the selected changes.
    pub open spec fn hunks_rows(self, sel: Selection, hunks: Seq<HunkView>, k: int) -> Seq<Seq<u8>>
        decreases k,
    {
        if k <= 0 {
            Seq::empty()
        } else if self.touches(sel, hunks[k - 1]) {
            self.hunks_rows(sel, hunks, k - 1) + self.hunk_rows(
                sel,
                hunks[k - 1],
                self.added(sel, hunks, k - 1),
            )
        } else {
            self.hunks_rows(sel, hunks, k - 1)
        }
    }

    /// The name in a header that has to be rewritten.
    pub open spec fn rewritten(self, file: SectionView, old_total: int, new_total: int) -> Option<Seq<u8>> {
        let minus = after_first(self.lines, file.start, file.body, "--- ");
        let plus = after_first(self.lines, file.start, file.body, "+++ ");
        let created = minus == Some(utf8("/dev/null"));
        let deleted = plus == Some(utf8("/dev/null"));
        let renamed = after_first(self.lines, file.start, file.body, "rename from ") is Some
            || after_first(self.lines, file.start, file.body, "copy from ") is Some;
        let path = if deleted {
            minus
        } else {
            plus
        };
        if renamed || created && old_total > 0 || deleted && new_total > 0 {
            path
        } else {
            None
        }
    }

    /// The lines of a file's header.
    pub open spec fn header_rows(self, file: SectionView, old_total: int, new_total: int) -> Seq<Seq<u8>> {
        match self.rewritten(file, old_total, new_total) {
            Some(name) => plain_rows(self.lines, file.start, file.body, name),
            None => self.lines.subrange(file.start, file.body),
        }
    }

    /// The lines of a file's header in the patch of some changes.
    pub open spec fn file_header(self, sel: Selection, file: SectionView) -> Seq<Seq<u8>> {
        let (old, new) = self.totals(sel, file.hunks, file.hunks.len() as int);
        self.header_rows(file, old, new)
    }

    /// The lines of a file's hunks in the patch of some changes.
    pub open spec fn file_body(self, sel: Selection, file: SectionView) -> Seq<Seq<u8>> {
        self.hunks_rows(sel, file.hunks, file.hunks.len() as int)
    }

    /// The lines of a file's part of the patch.
    pub open spec fn file_rows(self, sel: Selection, file: SectionView) -> Seq<Seq<u8>> {
        if self.file_body(sel, file).len() == 0 {
            Seq::empty()
        } else {
            self.file_header(sel, file) + self.file_body(sel, file)
        }
    }

    /// The lines of the patch of the first `k` files.
    pub open spec fn files_rows(self, sel: Selection, k: int) -> Seq<Seq<u8>>
        decreases k,
    {
        if k <= 0 {
            Seq::empty()
        } else {
            self.files_rows(sel, k - 1) + self.file_rows(sel, self.files[k - 1])
        }
    }

    /// A hunk of the patch, at line `at`.
    pub open spec fn built_hunk(self, sel: Selection, h: HunkView, delta: int, at: int) -> HunkView {
        let ws = self.hunk_written(sel, h);
        let old = old_side(ws).len();
        let new = new_side(ws).len();
        HunkView {
            at,
            end: at + 1 + ws.len(),
            old_start: start_of(old_first(h, sel.reverse, delta), old as int) as nat,
            old_count: old,
            new_start: start_of(new_first(h, sel.reverse, delta), new as int) as nat,
            new_count: new,
            heading: h.heading,
        }
    }

    /// The hunks of the patch that come of the first `k`, from line `base` on.
    pub open spec fn built_hunks(self, sel: Selection, hunks: Seq<HunkView>, k: int, base: int) -> Seq<HunkView>
        decreases k,
    {
        if k <= 0 {
            Seq::empty()
        } else if self.touches(sel, hunks[k - 1]) {
            self.built_hunks(sel, hunks, k - 1, base).push(
                self.built_hunk(
                    sel,
                    hunks[k - 1],
                    self.added(sel, hunks, k - 1),
                    base + self.hunks_rows(sel, hunks, k - 1).len(),
                ),
            )
        } else {
            self.built_hunks(sel, hunks, k - 1, base)
        }
    }

    /// A file's section of the patch, at line `start`.
    pub open spec fn built_section(self, sel: Selection, file: SectionView, start: int) -> SectionView {
        let body = start + self.file_header(sel, file).len();
        SectionView {
            start,
            body,
            hunks: self.built_hunks(sel, file.hunks, file.hunks.len() as int, body),
        }
    }

    /// The sections of the patch that come of the first `k` files.
    pub open spec fn built_files(self, sel: Selection, k: int) -> Seq<SectionView>
        decreases k,
    {
        if k <= 0 {
            Seq::empty()
        } else if self.file_body(sel, self.files[k - 1]).len() == 0 {
            self.built_files(sel, k - 1)
        } else {
            self.built_files(sel, k - 1).push(
                self.built_section(sel, self.files[k - 1], self.files_rows(sel, k - 1).len() as int),
            )
        }
    }

    /// Whether the numbers in a hunk's header are ones that a header can give.
    pub open spec fn hunk_fits(self, sel: Selection, h: HunkView, delta: int) -> bool {
        let ws = self.hunk_written(sel, h);
        let old = old_side(ws).len() as int;
        let new = new_side(ws).len() as int;
        &&& header_number(old)
        &&& header_number(new)
        &&& header_number(start_of(old_first(h, sel.reverse, delta), old))
        &&& header_number(start_of(new_first(h, sel.reverse, delta), new))
    }

    /// Whether the headers of a file's hunks can be read again.
    pub open spec fn file_fits(self, sel: Selection, hunks: Seq<HunkView>) -> bool {
        forall|k: int|
            0 <= k < hunks.len() && self.touches(sel, #[trigger] hunks[k]) ==> self.hunk_fits(
                sel,
                hunks[k],
                self.added(sel, hunks, k),
            )
    }

    /// Whether the patch of some changes reads as the diff of files: the line numbers of its
    /// hunks are not negative and fit in 32 bits, and no line of its headers reads like that
    /// of a submodule. It does for every diff of git's but one of a file with billions of
    /// lines.
    pub open spec fn readable(self, sel: Selection) -> bool {
        forall|f: int|
            0 <= f < self.files.len() && self.file_body(sel, #[trigger] self.files[f]).len() > 0
                ==> self.file_fits(sel, self.files[f].hunks) && forall|i: int|
                0 <= i < self.file_header(sel, self.files[f]).len() ==> !gitlink_line(
                    #[trigger] self.file_header(sel, self.files[f])[i],
                )
    }

    /// What holds of the sections of every parsed diff.
    pub open spec fn section_is_read(self, s: SectionView) -> bool {
        &&& 0 <= s.start < s.body <= self.lines.len()
        &&& begins(self.lines[s.start], "diff --git ")
        &&& s.body == header_end(self.lines, s.start + 1)
        &&& s.hunks == hunks_from(self.lines, s.body)
    }

    /// What holds of every parsed diff.
    pub open spec fn is_read(self) -> bool {
        &&& one_line_each(self.lines)
        &&& forall|f: int| 0 <= f < self.files.len() ==> self.section_is_read(#[trigger] self.files[f])
    }
}

/// Hunks that follow one another from line `lo` to line `hi`.
pub open spec fn chained(hs: Seq<HunkView>, lo: int, hi: int) -> bool {
    if hs.len() == 0 {
        lo == hi
    } else {
        &&& hs[0].at == lo
        &&& hs.last().end == hi
        &&& forall|j: int, k: int| 0 <= j && k == j + 1 && k < hs.len() ==> (#[trigger] hs[j]).end == (#[trigger] hs[k]).at
    }
}

/// Whether each hunk is what is read at its line.
pub open spec fn hunks_are_read(lines: Seq<Seq<u8>>, hs: Seq<HunkView>) -> bool {
    forall|j: int| 0 <= j < hs.len() ==> hunk_at(lines, (#[trigger] hs[j]).at) == Some(hs[j])
}

/// Hunks that follow one another are found.
proof fn lemma_chain_is_found(lines: Seq<Seq<u8>>, hs: Seq<HunkView>, lo: int, hi: int)
    requires
        chained(hs, lo, hi),
        hunks_are_read(lines, hs),
        hunk_at(lines, hi) is None,
    ensures
        hunks_from(lines, lo) == hs,
        hunks_end(lines, lo) == hi,
    decreases hs.len(),
{
    if hs.len() > 0 {
        let rest = hs.drop_first();
        assert(hunk_at(lines, hs[0].at) == Some(hs[0]));
        assert forall|j: int| 0 <= j < rest.len() implies hunk_at(lines, (#[trigger] rest[j]).at) == Some(rest[j]) by {
            assert(rest[j] == hs[j + 1]);
        }
        if rest.len() > 0 {
            assert(rest[0] == hs[1]);
            assert(hs[0].end == hs[1].at);
            assert(rest.last() == hs.last());
            assert forall|j: int, k: int| 0 <= j && k == j + 1 && k < rest.len() implies (#[trigger] rest[j]).end == (
            #[trigger] rest[k]).at by {
                assert(rest[j] == hs[j + 1]);
                assert(rest[k] == hs[k + 1]);
            }
        }
        lemma_chain_is_found(lines, rest, hs[0].end, hi);
        lemma_hunk_at(lines, lo);
        assert(hunks_from(lines, lo) =~= seq![hs[0]] + rest);
        assert(hs =~= seq![hs[0]] + rest);
    } else {
        assert(hunks_from(lines, lo) =~= hs);
    }
}

pub proof fn lemma_plain_kinds(p: PatchView, sel: Selection, from: int, to: int)
    ensures
        plain_kinds(p.written(sel, from, to)),
    decreases to - from,
{
    if from < to {
        lemma_plain_kinds(p, sel, from, to - 1);
    }
}

pub proof fn lemma_at_row(p: PatchView, sel: Selection, h: HunkView, delta: int)
    requires
        p.hunk_fits(sel, h, delta),
    ensures
        ({
            let ws = p.hunk_written(sel, h);
            let old = old_side(ws).len() as int;
            let new = new_side(ws).len() as int;
            let line = p.hunk_rows(sel, h, delta)[0];
            &&& hunk_header(line) == Some(
                (
                    (start_of(old_first(h, sel.reverse, delta), old) as nat, old as nat),
                    (start_of(new_first(h, sel.reverse, delta), new) as nat, new as nat),
                    h.heading,
                ),
            )
            &&& line.len() > 0 && line[0] == AT
            &&& begins(line, "@@ ")
            &&& line.push(NEWLINE) == hunk_at_line(h, sel.reverse, delta, old, new)
            &&& !h.heading.contains(NEWLINE) ==> !line.contains(NEWLINE)
        }),
{
    let ws = p.hunk_written(sel, h);
    lemma_header_is_read(
        old_first(h, sel.reverse, delta),
        old_side(ws).len() as int,
        new_first(h, sel.reverse, delta),
        new_side(ws).len() as int,
        h.heading,
    );
}

/// Whether `part` stands in `lines` from line `at` on.
pub open spec fn stands_at(lines: Seq<Seq<u8>>, part: Seq<Seq<u8>>, at: int) -> bool {
    &&& 0 <= at
    &&& at + part.len() <= lines.len()
    &&& forall|j: int| 0 <= j < part.len() ==> #[trigger] lines[at + j] == part[j]
}

pub proof fn lemma_stands_apart(lines: Seq<Seq<u8>>, a: Seq<Seq<u8>>, b: Seq<Seq<u8>>, at: int)
    requires
        stands_at(lines, a + b, at),
    ensures
        stands_at(lines, a, at),
        stands_at(lines, b, at + a.len()),
{
    let all = a + b;
    assert forall|j: int| 0 <= j < a.len() implies #[trigger] lines[at + j] == a[j] by {
        assert(lines[at + j] == all[j]);
    }
    assert forall|j: int| 0 <= j < b.len() implies #[trigger] lines[at + a.len() + j] == b[j] by {
        assert(lines[at + (a.len() + j)] == all[a.len() + j]);
    }
}

/// A hunk that was written is read again.
proof fn lemma_hunk_is_read(p: PatchView, sel: Selection, h: HunkView, delta: int, lines: Seq<Seq<u8>>, at: int)
    requires
        p.hunk_fits(sel, h, delta),
        stands_at(lines, p.hunk_rows(sel, h, delta), at),
        ({
            let end = at + p.hunk_rows(sel, h, delta).len();
            end < lines.len() ==> !is_marker(lines[end])
        }),
    ensures
        hunk_at(lines, at) == Some(p.built_hunk(sel, h, delta, at)),
        p.hunk_rows(sel, h, delta).len() == 1 + p.hunk_written(sel, h).len(),
{
    let ws = p.hunk_written(sel, h);
    let all = p.hunk_rows(sel, h, delta);
    lemma_at_row(p, sel, h, delta);
    lemma_plain_kinds(p, sel, h.at + 1, h.end);
    lemma_stands_apart(lines, seq![all[0]], rows(ws), at);
    assert(all =~= seq![all[0]] + rows(ws));
    assert(lines[at + 0] == seq![all[0]][0]);
    assert forall|j: int| 0 <= j < ws.len() implies #[trigger] lines[at + 1 + j] == row(ws[j]) by {
        assert(lines[at + 1 + j] == rows(ws)[j]);
    }
    lemma_body_is_read(lines, at + 1, ws, 0);
    assert(ws.take(0) =~= Seq::<Written>::empty());
}

/// Hunks that were written are read again, one after another.
proof fn lemma_hunks_are_read(
    p: PatchView,
    sel: Selection,
    hunks: Seq<HunkView>,
    k: int,
    lines: Seq<Seq<u8>>,
    base: int,
)
    requires
        0 <= k <= hunks.len(),
        p.file_fits(sel, hunks),
        stands_at(lines, p.hunks_rows(sel, hunks, k), base),
        ({
            let end = base + p.hunks_rows(sel, hunks, k).len();
            end < lines.len() ==> !is_marker(lines[end])
        }),
    ensures
        hunks_are_read(lines, p.built_hunks(sel, hunks, k, base)),
        chained(p.built_hunks(sel, hunks, k, base), base, base + p.hunks_rows(sel, hunks, k).len()),
    decreases k,
{
    if k > 0 {
        let h = hunks[k - 1];
        let before = p.hunks_rows(sel, hunks, k - 1);
        if p.touches(sel, h) {
            let delta = p.added(sel, hunks, k - 1);
            let more = p.hunk_rows(sel, h, delta);
            let at = base + before.len();
            lemma_stands_apart(lines, before, more, base);
            lemma_at_row(p, sel, h, delta);
            assert(lines[at + 0] == more[0]);
            lemma_hunks_are_read(p, sel, hunks, k - 1, lines, base);
            lemma_hunk_is_read(p, sel, h, delta, lines, at);
            let hs = p.built_hunks(sel, hunks, k - 1, base);
            let all = p.built_hunks(sel, hunks, k, base);
            assert(all =~= hs.push(p.built_hunk(sel, h, delta, at)));
            assert forall|j: int| 0 <= j < all.len() implies hunk_at(lines, (#[trigger] all[j]).at) == Some(all[j]) by {
                if j < hs.len() {
                    assert(all[j] == hs[j]);
                }
            }
            assert forall|j: int, m: int| 0 <= j && m == j + 1 && m < all.len() implies (#[trigger] all[j]).end == (
            #[trigger] all[m]).at by {
                assert(all[j] == hs[j]);
                if m < hs.len() {
                    assert(all[m] == hs[m]);
                } else {
                    assert(hs.last() == hs[j]);
                }
            }
            if hs.len() > 0 {
                assert(all[0] == hs[0]);
            }
        } else {
            lemma_hunks_are_read(p, sel, hunks, k - 1, lines, base);
        }
    }
}

/// The first bytes of the lines of a header.
pub proof fn lemma_first_bytes()
    ensures
        utf8("diff --git ").len() > 0 && utf8("diff --git ")[0] == 100,
        utf8("diff ").len() > 0 && utf8("diff ")[0] == 100,
        utf8("@@ ").len() > 0 && utf8("@@ ")[0] == AT,
        utf8("@@ -").len() > 0 && utf8("@@ -")[0] == AT,
        utf8("old mode ").len() > 0 && utf8("old mode ")[0] == 111,
        utf8("new mode ").len() > 0 && utf8("new mode ")[0] == 110,
        utf8("--- ") == seq![MINUS, MINUS, MINUS, SPACE],
        utf8("+++ ") == seq![PLUS, PLUS, PLUS, SPACE],
        utf8("rename from ").len() > 0 && utf8("rename from ")[0] == 114,
        utf8("copy from ").len() > 0 && utf8("copy from ")[0] == 99,
        !utf8("diff --git ").contains(NEWLINE),
{
    lemma_at_bytes();
    reveal_strlit("diff --git ");
    reveal_strlit("diff ");
    reveal_strlit("old mode ");
    reveal_strlit("new mode ");
    reveal_strlit("--- ");
    reveal_strlit("+++ ");
    reveal_strlit("rename from ");
    reveal_strlit("copy from ");
    is_ascii_chars_encode_utf8("diff --git "@);
    is_ascii_chars_encode_utf8("diff "@);
    is_ascii_chars_encode_utf8("old mode "@);
    is_ascii_chars_encode_utf8("new mode "@);
    is_ascii_chars_encode_utf8("--- "@);
    is_ascii_chars_encode_utf8("+++ "@);
    is_ascii_chars_encode_utf8("rename from "@);
    is_ascii_chars_encode_utf8("copy from "@);
    assert(utf8("--- ") =~= seq![MINUS, MINUS, MINUS, SPACE]);
    assert(utf8("+++ ") =~= seq![PLUS, PLUS, PLUS, SPACE]);
    assert forall|i: int| 0 <= i < utf8("diff --git ").len() implies utf8("diff --git ")[i] != NEWLINE by {
        assert("diff --git "@[i] as u8 == utf8("diff --git ")[i]);
    }
}

/// Whether lines read as the header of a section.
pub open spec fn header_ok(ls: Seq<Seq<u8>>) -> bool {
    &&& ls.len() > 0
    &&& begins(ls[0], "diff --git ")
    &&& forall|i: int| 0 < i < ls.len() ==> !begins(#[trigger] ls[i], "@@ ") && !begins(ls[i], "diff ")
}

proof fn lemma_header_lines(lines: Seq<Seq<u8>>, ix: int)
    requires
        0 <= ix <= lines.len(),
    ensures
        forall|i: int|
            ix <= i < header_end(lines, ix) ==> !begins(#[trigger] lines[i], "@@ ") && !begins(lines[i], "diff "),
    decreases lines.len() - ix,
{
    if ix < lines.len() && !begins(lines[ix], "@@ ") && !begins(lines[ix], "diff ") {
        lemma_header_lines(lines, ix + 1);
    }
}

proof fn lemma_header_end_is(lines: Seq<Seq<u8>>, ix: int, end: int)
    requires
        0 <= ix <= end < lines.len(),
        forall|i: int| ix <= i < end ==> !begins(#[trigger] lines[i], "@@ ") && !begins(lines[i], "diff "),
        begins(lines[end], "@@ "),
    ensures
        header_end(lines, ix) == end,
    decreases end - ix,
{
    if ix < end {
        lemma_header_end_is(lines, ix + 1, end);
    }
}

pub proof fn lemma_mode_rows(lines: Seq<Seq<u8>>, from: int, to: int)
    requires
        0 <= from,
        to <= lines.len(),
        one_line_each(lines),
    ensures
        one_line_each(mode_rows(lines, from, to)),
        forall|i: int| 0 <= i < mode_rows(lines, from, to).len() ==> is_mode(#[trigger] mode_rows(lines, from, to)[i]),
        copy_lines(lines, from, to, true) == text_of(mode_rows(lines, from, to)),
    decreases to - from,
{
    if from < to {
        lemma_mode_rows(lines, from, to - 1);
        let before = mode_rows(lines, from, to - 1);
        let line = lines[to - 1];
        if is_mode(line) {
            assert(before.push(line).drop_last() =~= before);
        }
        assert(copy_lines(lines, from, to, true) =~= text_of(mode_rows(lines, from, to)));
    }
}

pub proof fn lemma_copy_lines(lines: Seq<Seq<u8>>, from: int, to: int)
    requires
        0 <= from <= to <= lines.len(),
    ensures
        copy_lines(lines, from, to, false) == text_of(lines.subrange(from, to)),
    decreases to - from,
{
    if from < to {
        lemma_copy_lines(lines, from, to - 1);
        assert(lines.subrange(from, to).drop_last() =~= lines.subrange(from, to - 1));
    }
}

pub proof fn lemma_after_first(lines: Seq<Seq<u8>>, from: int, to: int, prefix: &str)
    requires
        0 <= from,
        to <= lines.len(),
        one_line_each(lines),
    ensures
        after_first(lines, from, to, prefix) matches Some(rest) ==> !rest.contains(NEWLINE),
    decreases to - from,
{
    if from < to {
        if begins(lines[from], prefix) {
            let line = lines[from];
            let rest = line.skip(utf8(prefix).len() as int);
            assert(!line.contains(NEWLINE));
            if rest.contains(NEWLINE) {
                let i = choose|i: int| 0 <= i < rest.len() && rest[i] == NEWLINE;
                assert(line[i + utf8(prefix).len()] == NEWLINE);
            }
        } else {
            lemma_after_first(lines, from + 1, to, prefix);
        }
    }
}

proof fn lemma_sided(name: Seq<u8>, side: u8)
    requires
        !name.contains(NEWLINE),
        side != NEWLINE,
    ensures
        !sided(name, side).contains(NEWLINE),
{
    let s = sided(name, side);
    if s.contains(NEWLINE) {
        let i = choose|i: int| 0 <= i < s.len() && s[i] == NEWLINE;
        assert(name[i] == NEWLINE);
        assert(name.contains(NEWLINE));
    }
}

proof fn lemma_no_feed_add(a: Seq<u8>, b: Seq<u8>)
    requires
        !a.contains(NEWLINE),
        !b.contains(NEWLINE),
    ensures
        !(a + b).contains(NEWLINE),
{
    let s = a + b;
    if s.contains(NEWLINE) {
        let i = choose|i: int| 0 <= i < s.len() && s[i] == NEWLINE;
        if i < a.len() {
            assert(a[i] == NEWLINE);
        } else {
            assert(b[i - a.len()] == NEWLINE);
        }
    }
}

/// The lines of a rewritten header read as one, and are its text.
pub proof fn lemma_plain_rows(lines: Seq<Seq<u8>>, from: int, to: int, name: Seq<u8>)
    requires
        0 <= from,
        to <= lines.len(),
        one_line_each(lines),
        !name.contains(NEWLINE),
    ensures
        header_ok(plain_rows(lines, from, to, name)),
        one_line_each(plain_rows(lines, from, to, name)),
        text_of(plain_rows(lines, from, to, name)) == plain_header(lines, from, to, name),
{
    lemma_first_bytes();
    lemma_mode_rows(lines, from, to);
    let bare = without_tab(name);
    let all = plain_rows(lines, from, to, name);
    let modes = mode_rows(lines, from, to);
    let git = utf8("diff --git ") + sided(bare, LOWER_A) + seq![SPACE] + sided(bare, LOWER_B);
    let minus = utf8("--- ") + sided(name, LOWER_A);
    let plus = utf8("+++ ") + sided(name, LOWER_B);
    assert(all =~= seq![git] + modes + seq![minus, plus]);
    assert(!bare.contains(NEWLINE)) by {
        if bare.contains(NEWLINE) {
            let i = choose|i: int| 0 <= i < bare.len() && bare[i] == NEWLINE;
            assert(name[i] == NEWLINE);
        }
    }
    lemma_sided(bare, LOWER_A);
    lemma_sided(bare, LOWER_B);
    lemma_sided(name, LOWER_A);
    lemma_sided(name, LOWER_B);
    lemma_no_feed_add(utf8("diff --git "), sided(bare, LOWER_A));
    lemma_no_feed_add(utf8("diff --git ") + sided(bare, LOWER_A), seq![SPACE]);
    lemma_no_feed_add(utf8("diff --git ") + sided(bare, LOWER_A) + seq![SPACE], sided(bare, LOWER_B));
    lemma_no_feed_add(utf8("--- "), sided(name, LOWER_A));
    lemma_no_feed_add(utf8("+++ "), sided(name, LOWER_B));
    let n = modes.len() as int;
    assert(all[0] == git);
    assert(all[n + 1] == minus);
    assert(all[n + 2] == plus);
    assert forall|i: int| 0 <= i < all.len() implies !(#[trigger] all[i]).contains(NEWLINE) by {
        if 0 < i <= n {
            assert(all[i] == modes[i - 1]);
        }
    }
    assert(utf8("diff --git ").is_prefix_of(git));
    assert forall|i: int| 0 < i < all.len() implies !begins(#[trigger] all[i], "@@ ") && !begins(all[i], "diff ") by {
        if i <= n {
            assert(all[i] == modes[i - 1]);
            assert(is_mode(modes[i - 1]));
        }
    }
    lemma_text_of_add(seq![git] + modes, seq![minus, plus]);
    lemma_text_of_add(seq![git], modes);
    lemma_text_of_add(seq![minus], seq![plus]);
    assert(seq![minus] + seq![plus] =~= seq![minus, plus]);
    lemma_text_of_one(git);
    lemma_text_of_one(minus);
    lemma_text_of_one(plus);
    assert(text_of(all) =~= plain_header(lines, from, to, name));
}

/// The lines of a header read as one, and are its text.
pub proof fn lemma_header_rows(p: PatchView, file: SectionView, old: int, new: int)
    requires
        p.is_read(),
        p.section_is_read(file),
    ensures
        header_ok(p.header_rows(file, old, new)),
        one_line_each(p.header_rows(file, old, new)),
        text_of(p.header_rows(file, old, new)) == p.header_text(file, old, new),
{
    let all = p.header_rows(file, old, new);
    match p.rewritten(file, old, new) {
        Some(name) => {
            lemma_after_first(p.lines, file.start, file.body, "--- ");
            lemma_after_first(p.lines, file.start, file.body, "+++ ");
            lemma_plain_rows(p.lines, file.start, file.body, name);
        },
        None => {
            lemma_header_lines(p.lines, file.start + 1);
            lemma_copy_lines(p.lines, file.start, file.body);
            assert forall|i: int| 0 < i < all.len() implies !begins(#[trigger] all[i], "@@ ") && !begins(
                all[i],
                "diff ",
            ) by {
                assert(all[i] == p.lines[file.start + i]);
            }
            assert forall|i: int| 0 <= i < all.len() implies !(#[trigger] all[i]).contains(NEWLINE) by {
                assert(all[i] == p.lines[file.start + i]);
            }
        },
    }
}

/// What a line that starts a section is not.
proof fn lemma_section_line(line: Seq<u8>)
    requires
        begins(line, "diff --git "),
    ensures
        hunk_header(line) is None,
        !is_marker(line),
{
    lemma_first_bytes();
    assert(line[0] == utf8("diff --git ")[0]);
    if utf8("@@ -").is_prefix_of(line) {
        assert(line[0] == utf8("@@ -")[0]);
    }
}

/// A file's part of a patch that was written is read again.
proof fn lemma_file_is_read(p: PatchView, sel: Selection, file: SectionView, lines: Seq<Seq<u8>>, start: int)
    requires
        p.is_read(),
        p.section_is_read(file),
        p.file_body(sel, file).len() > 0,
        p.file_fits(sel, file.hunks),
        stands_at(lines, p.file_rows(sel, file), start),
        ({
            let end = start + p.file_rows(sel, file).len();
            end < lines.len() ==> begins(lines[end], "diff --git ")
        }),
    ensures
        ({
            let s = p.built_section(sel, file, start);
            &&& start < s.body < lines.len()
            &&& begins(lines[start], "diff --git ")
            &&& header_end(lines, start + 1) == s.body
            &&& hunks_from(lines, s.body) == s.hunks
            &&& hunks_end(lines, s.body) == start + p.file_rows(sel, file).len()
        }),
{
    let header = p.file_header(sel, file);
    let body = p.file_body(sel, file);
    let n = file.hunks.len() as int;
    let (old, new) = p.totals(sel, file.hunks, n);
    lemma_header_rows(p, file, old, new);
    lemma_stands_apart(lines, header, body, start);
    let at = start + header.len();
    let end = at + body.len();
    if end < lines.len() {
        lemma_section_line(lines[end]);
    }
    lemma_hunks_are_read(p, sel, file.hunks, n, lines, at);
    assert(lines[start + 0] == header[0]);
    assert(lines[at + 0] == body[0]);
    lemma_first_row(p, sel, file.hunks, n);
    assert forall|i: int| start + 1 <= i < at implies !begins(#[trigger] lines[i], "@@ ") && !begins(
        lines[i],
        "diff ",
    ) by {
        assert(lines[start + (i - start)] == header[i - start]);
    }
    lemma_header_end_is(lines, start + 1, at);
    lemma_chain_is_found(lines, p.built_hunks(sel, file.hunks, n, at), at, end);
}

/// The hunks of a file start with a header.
proof fn lemma_first_row(p: PatchView, sel: Selection, hunks: Seq<HunkView>, k: int)
    requires
        0 <= k <= hunks.len(),
        p.file_fits(sel, hunks),
        p.hunks_rows(sel, hunks, k).len() > 0,
    ensures
        begins(p.hunks_rows(sel, hunks, k)[0], "@@ "),
    decreases k,
{
    if k > 0 {
        let before = p.hunks_rows(sel, hunks, k - 1);
        if before.len() > 0 {
            lemma_first_row(p, sel, hunks, k - 1);
            assert(p.hunks_rows(sel, hunks, k)[0] == before[0]);
        } else {
            lemma_at_row(p, sel, hunks[k - 1], p.added(sel, hunks, k - 1));
        }
    }
}

/// Sections that follow one another from line `lo` to line `hi`.
pub open spec fn sections_are_read(lines: Seq<Seq<u8>>, ss: Seq<SectionView>, lo: int, hi: int) -> bool
    decreases ss.len(),
{
    if ss.len() == 0 {
        lo == hi
    } else {
        let s = ss.last();
        &&& sections_are_read(lines, ss.drop_last(), lo, s.start)
        &&& lo <= s.start < s.body <= hi
        &&& s.start < lines.len()
        &&& begins(lines[s.start], "diff --git ")
        &&& header_end(lines, s.start + 1) == s.body
        &&& hunks_from(lines, s.body) == s.hunks
        &&& hunks_end(lines, s.body) == hi
    }
}

/// Sections that follow one another are found, before whatever follows them.
pub proof fn lemma_sections_are_found(lines: Seq<Seq<u8>>, ss: Seq<SectionView>, lo: int, hi: int)
    requires
        0 <= lo,
        hi <= lines.len(),
        sections_are_read(lines, ss, lo, hi),
    ensures
        sections_from(lines, lo) == ss + sections_from(lines, hi),
    decreases ss.len(),
{
    if ss.len() > 0 {
        let s = ss.last();
        lemma_sections_are_found(lines, ss.drop_last(), lo, s.start);
        let rest = sections_from(lines, hi);
        lemma_header_end(lines, s.start + 1);
        lemma_hunks_from(lines, s.body);
        assert(sections_from(lines, s.start) =~= seq![s] + rest);
        assert(ss.drop_last() + (seq![s] + rest) =~= ss + rest);
    } else {
        assert(ss + sections_from(lines, hi) =~= sections_from(lines, lo));
    }
}

/// The files of a patch that were written are read again, one after another.
pub proof fn lemma_files_are_read(p: PatchView, sel: Selection, k: int, lines: Seq<Seq<u8>>)
    requires
        p.is_read(),
        p.readable(sel),
        0 <= k <= p.files.len(),
        stands_at(lines, p.files_rows(sel, k), 0),
        ({
            let end = p.files_rows(sel, k).len() as int;
            end < lines.len() ==> begins(lines[end], "diff --git ")
        }),
    ensures
        sections_are_read(lines, p.built_files(sel, k), 0, p.files_rows(sel, k).len() as int),
    decreases k,
{
    if k > 0 {
        let file = p.files[k - 1];
        let before = p.files_rows(sel, k - 1);
        let more = p.file_rows(sel, file);
        assert(p.section_is_read(p.files[k - 1]));
        lemma_stands_apart(lines, before, more, 0);
        if p.file_body(sel, file).len() == 0 {
            assert(p.files_rows(sel, k) =~= before);
            lemma_files_are_read(p, sel, k - 1, lines);
        } else {
            let at = before.len() as int;
            assert(p.files_rows(sel, k) =~= before + more);
            lemma_file_is_read(p, sel, file, lines, at);
            lemma_files_are_read(p, sel, k - 1, lines);
            let ss = p.built_files(sel, k);
            assert(ss.drop_last() =~= p.built_files(sel, k - 1));
            assert(ss.last() == p.built_section(sel, file, at));
        }
    }
}

} // verus!
