//! Staging, unstaging and discarding single lines or hunks.
//!
//! [`Patch::parse`] reads the `git diff` of a file. [`Patch::build`] turns the selected
//! lines into a smaller patch for `git apply`. Lines outside the selection stay as they
//! are in the file being patched:
//! - applied forwards (staging, onto the index), an unselected `-` line becomes context and
//!   an unselected `+` line is dropped;
//! - applied in reverse (unstaging from the index, or discarding from the worktree), an
//!   unselected `+` line becomes context and an unselected `-` line is dropped.
//!
//! Everything works on bytes, so content that isn't UTF-8 is staged unchanged.

use std::ops::Range;

use vstd::prelude::*;
use vstd::slice::slice_subrange;

use crate::patch::diff::{
    diff_lines, gitlink_line, header_end, hunk_at, hunk_body_end, hunk_header, hunks_end, hunks_from, is_plus_minus,
    is_submodule, lemma_hunk_at, lemma_hunks_from, lemma_sections_from, markers_end, patch_of, range_of,
    sections_from, hunks_within, stageable, stageable_in, HunkView, PatchView, SectionView,
};
use crate::patch::navigate::{index_opt, law_next_change_is_first, law_previous_change_is_last};
use crate::patch::selection::{
    after_first, conflict, copy_lines, ends_new, ends_old, first_line_of, hunk_at_line, last_kind, lemma_conflict_grows, lemma_push,
    lemma_side_lengths, lemma_written_grows, line_text, new_side, old_side, plain_header, range_text, render_all,
    sided, without_tab, Selection, Written,
};
use crate::text::ascii::{BACKSLASH, COMMA, LOWER_A, LOWER_B, MINUS, NEWLINE, PLUS, QUOTE, SLASH, SPACE, TAB};
use crate::text::number::{parse_number, push_decimal_bytes, push_signed_bytes, read_number};
use crate::text::seqs::{
    after_prefix, ends_with, extend, lemma_split_not_empty, split, split_at, split_first, split_first_sub, same_slice,
    starts_with, views,
};
use crate::text::strings::{bytes_of, utf8};

pub mod diff;
pub mod laws;
pub mod navigate;
pub mod order;
pub mod rebuild;
pub mod rebuilt;
pub mod rows;
pub mod selection;
pub mod shown;

verus! {

/// The views of a diff's lines.
pub open spec fn byte_lines(lines: Seq<Vec<u8>>) -> Seq<Seq<u8>> {
    lines.map_values(|l: Vec<u8>| l@)
}

/// A parsed `git diff`. Line numbers are indices into the diff's lines (split on `\n`).
pub struct Patch {
    lines: Vec<Vec<u8>>,
    /// Whether each line is a `+` or `-` line that can be staged on its own.
    changes: Vec<bool>,
    files: Vec<FileSection>,
}

/// One `diff --git` section. There's usually one per diff, but a rename git didn't pair
/// up shows as a deletion and an addition.
pub struct FileSection {
    /// From the `diff --git` line up to the first hunk.
    pub header: Range<usize>,
    pub hunks: Vec<Hunk>,
}

/// A hunk of a diff.
pub struct Hunk {
    /// The `@@` line.
    pub at: usize,
    /// One past the hunk's last line, including any `\ No newline at end of file`.
    pub end: usize,
    pub old_start: u32,
    pub old_count: u32,
    pub new_start: u32,
    pub new_count: u32,
    /// Whatever follows the closing `@@` (usually the enclosing function).
    pub heading: Vec<u8>,
}

impl View for Hunk {
    type V = HunkView;

    open spec fn view(&self) -> HunkView {
        HunkView {
            at: self.at as int,
            end: self.end as int,
            old_start: self.old_start as nat,
            old_count: self.old_count as nat,
            new_start: self.new_start as nat,
            new_count: self.new_count as nat,
            heading: self.heading@,
        }
    }
}

/// The views of some hunks.
pub open spec fn hunk_views(hunks: Seq<Hunk>) -> Seq<HunkView> {
    hunks.map_values(|h: Hunk| h@)
}

impl View for FileSection {
    type V = SectionView;

    open spec fn view(&self) -> SectionView {
        SectionView {
            start: self.header.start as int,
            body: self.header.end as int,
            hunks: hunk_views(self.hunks@),
        }
    }
}

/// The views of some sections.
pub open spec fn section_views(files: Seq<FileSection>) -> Seq<SectionView> {
    files.map_values(|f: FileSection| f@)
}

impl View for Patch {
    type V = PatchView;

    closed spec fn view(&self) -> PatchView {
        PatchView {
            lines: byte_lines(self.lines@),
            changes: self.changes@,
            files: section_views(self.files@),
        }
    }
}

/// A header line of a submodule (gitlink, mode 160000).
pub fn is_gitlink(line: &[u8]) -> (r: bool)
    ensures
        r == gitlink_line(line@),
{
    ends_with(line, bytes_of("mode 160000")) || (starts_with(line, bytes_of("index ")) && ends_with(
        line,
        bytes_of(" 160000"),
    ))
}

/// A decimal `u32`.
fn number(s: &[u8]) -> (r: Option<u32>)
    ensures
        match r {
            Some(n) => parse_number(s@, u32::MAX as nat) == Some(n as nat),
            None => parse_number(s@, u32::MAX as nat) is None,
        },
{
    match read_number(s, PLUS, u32::MAX as u64) {
        Some(n) => Some(n as u32),
        None => None,
    }
}

/// `start,count`, or `start` for a count of 1.
fn range(s: &[u8]) -> (r: Option<(u32, u32)>)
    ensures
        match r {
            Some((start, count)) => range_of(s@) == Some((start as nat, count as nat)),
            None => range_of(s@) is None,
        },
{
    match split_first(s, COMMA) {
        Some((start, count)) => match (number(start), number(count)) {
            (Some(start), Some(count)) => Some((start, count)),
            _ => None,
        },
        None => match number(s) {
            Some(start) => Some((start, 1)),
            None => None,
        },
    }
}

/// Parses the hunk whose `@@` line is `lines[at]`. `None` if it isn't one, or if the diff
/// ends before the hunk does.
pub fn parse_hunk(lines: &Vec<Vec<u8>>, at: usize) -> (r: Option<Hunk>)
    ensures
        match r {
            Some(h) => hunk_at(byte_lines(lines@), at as int) == Some(h@),
            None => hunk_at(byte_lines(lines@), at as int) is None,
        },
{
    let n: usize = lines.len();
    let ghost all = byte_lines(lines@);
    if at >= n {
        return None;
    }
    let line: &[u8] = lines[at].as_slice();
    assert(all[at as int] == line@);
    let rest = match after_prefix(line, bytes_of("@@ -")) {
        None => return None,
        Some(rest) => rest,
    };
    let (ranges, heading) = match split_first_sub(rest, bytes_of(" @@")) {
        None => return None,
        Some(parts) => parts,
    };
    let (old, new) = match split_first_sub(ranges, bytes_of(" +")) {
        None => return None,
        Some(parts) => parts,
    };
    let ((old_start, old_count), (new_start, new_count)) = match (range(old), range(new)) {
        (Some(o), Some(n)) => (o, n),
        _ => return None,
    };
    let mut old_left: u32 = old_count;
    let mut new_left: u32 = new_count;
    let mut ix: usize = at + 1;
    while old_left > 0 || new_left > 0
        invariant
            ix <= n,
            n == lines@.len(),
            at < n,
            all == byte_lines(lines@),
            hunk_header(all[at as int]) == Some(
                (
                    (old_start as nat, old_count as nat),
                    (new_start as nat, new_count as nat),
                    heading@,
                ),
            ),
            hunk_body_end(all, ix as int, old_left as nat, new_left as nat) == hunk_body_end(
                all,
                at + 1,
                old_count as nat,
                new_count as nat,
            ),
        decreases n - ix,
    {
        if ix >= n {
            return None;
        }
        let line: &[u8] = lines[ix].as_slice();
        assert(all[ix as int] == line@);
        if line.len() == 0 {
            if old_left > 0 && new_left > 0 {
                old_left = old_left - 1;
                new_left = new_left - 1;
            } else {
                return None;
            }
        } else {
            let kind: u8 = line[0];
            if kind == MINUS && old_left > 0 {
                old_left = old_left - 1;
            } else if kind == PLUS && new_left > 0 {
                new_left = new_left - 1;
            } else if kind == BACKSLASH {
            } else if kind == SPACE && old_left > 0 && new_left > 0 {
                old_left = old_left - 1;
                new_left = new_left - 1;
            } else {
                return None;
            }
        }
        ix = ix + 1;
    }
    let ghost end = ix as int;
    while ix < n && lines[ix].len() > 0 && lines[ix][0] == BACKSLASH
        invariant
            ix <= n,
            n == lines@.len(),
            all == byte_lines(lines@),
            markers_end(all, ix as int) == markers_end(all, end),
        decreases n - ix,
    {
        ix = ix + 1;
    }
    let heading = slice_to_vec(heading);
    Some(Hunk { at, end: ix, old_start, old_count, new_start, new_count, heading })
}

/// A copy of a slice of bytes.
fn slice_to_vec(s: &[u8]) -> (r: Vec<u8>)
    ensures
        r@ == s@,
{
    let mut out: Vec<u8> = Vec::new();
    extend(&mut out, s);
    assert(out@ =~= s@);
    out
}

/// The lines of a diff.
fn split_diff(diff: &[u8]) -> (r: Vec<Vec<u8>>)
    ensures
        byte_lines(r@) == diff_lines(diff@),
{
    let pieces = split_at(diff, NEWLINE);
    proof {
        lemma_split_not_empty(diff@, NEWLINE);
    }
    let mut out: Vec<Vec<u8>> = Vec::new();
    let mut i: usize = 0;
    let ghost all = views(pieces@);
    while i < pieces.len()
        invariant
            i <= pieces@.len(),
            all == views(pieces@),
            byte_lines(out@) == all.take(i as int),
        decreases pieces@.len() - i,
    {
        let ghost before = byte_lines(out@);
        let line = slice_to_vec(pieces[i]);
        out.push(line);
        assert(byte_lines(out@) =~= before.push(line@));
        assert(all.take(i + 1) =~= all.take(i as int).push(all[i as int]));
        i = i + 1;
    }
    assert(all.take(all.len() as int) =~= all);
    let n: usize = out.len();
    let ghost before = out@;
    assert(byte_lines(before).last() == before.last()@);
    if out[n - 1].len() == 0 {
        out.pop();
        assert(byte_lines(out@) =~= byte_lines(before).drop_last());
    }
    out
}

/// Marks the `+` and `-` lines among `from..to`.
fn mark_changes(changes: &mut Vec<bool>, lines: &Vec<Vec<u8>>, from: usize, to: usize)
    requires
        old(changes)@.len() == lines@.len(),
        to <= lines@.len(),
    ensures
        final(changes)@.len() == lines@.len(),
        forall|i: int|
            0 <= i < lines@.len() ==> #[trigger] final(changes)@[i] == (old(changes)@[i] || from <= i
                < to && is_plus_minus(byte_lines(lines@)[i])),
{
    let mut i: usize = from;
    while i < to
        invariant
            from <= i,
            i <= to || to < from,
            to <= lines@.len(),
            changes@.len() == lines@.len(),
            forall|j: int|
                0 <= j < lines@.len() ==> #[trigger] changes@[j] == (old(changes)@[j] || from <= j < i
                    && j < to && is_plus_minus(byte_lines(lines@)[j])),
        decreases to - i,
    {
        assert(byte_lines(lines@)[i as int] == lines@[i as int]@);
        if lines[i].len() > 0 && (lines[i][0] == PLUS || lines[i][0] == MINUS) {
            changes.set(i, true);
        }
        i = i + 1;
    }
}

/// Whether a header line of a section is a submodule's.
fn any_gitlink(lines: &Vec<Vec<u8>>, from: usize, to: usize) -> (r: bool)
    requires
        from <= to <= lines@.len(),
    ensures
        r == (exists|i: int| from <= i < to && gitlink_line(#[trigger] byte_lines(lines@)[i])),
{
    let mut i: usize = from;
    while i < to
        invariant
            from <= i <= to <= lines@.len(),
            forall|j: int| from <= j < i ==> !gitlink_line(#[trigger] byte_lines(lines@)[j]),
        decreases to - i,
    {
        if is_gitlink(lines[i].as_slice()) {
            assert(gitlink_line(byte_lines(lines@)[i as int]));
            return true;
        }
        i = i + 1;
    }
    false
}

impl Patch {
    #[verifier::type_invariant]
    spec fn inv(self) -> bool {
        self@.wf()
    }

    /// Reads a diff.
    pub fn parse(diff: &[u8]) -> (r: Patch)
        ensures
            r@ == patch_of(diff@),
            r@.wf(),
    {
        let lines = split_diff(diff);
        let ghost all = byte_lines(lines@);
        let n: usize = lines.len();
        let mut changes: Vec<bool> = Vec::new();
        let mut j: usize = 0;
        while j < n
            invariant
                j <= n,
                changes@.len() == j,
                forall|i: int| 0 <= i < j ==> !changes@[i],
            decreases n - j,
        {
            changes.push(false);
            j = j + 1;
        }
        let mut files: Vec<FileSection> = Vec::new();
        let mut ix: usize = 0;
        while ix < n
            invariant
                ix <= n,
                n == lines@.len(),
                all == byte_lines(lines@),
                section_views(files@) + sections_from(all, ix as int) == sections_from(all, 0),
                changes@.len() == n,
                forall|i: int|
                    0 <= i < n ==> #[trigger] changes@[i] == stageable(all, section_views(files@), i),
            decreases n - ix,
        {
            assert(all[ix as int] == lines@[ix as int]@);
            // Combined diffs of conflicted files (`diff --cc`) aren't stageable.
            if !starts_with(lines[ix].as_slice(), bytes_of("diff --git ")) {
                ix = ix + 1;
                continue;
            }
            let ghost before = section_views(files@);
            let ghost old_changes = changes@;
            let start: usize = ix;
            ix = ix + 1;
            while ix < n && !starts_with(lines[ix].as_slice(), bytes_of("@@ ")) && !starts_with(
                lines[ix].as_slice(),
                bytes_of("diff "),
            )
                invariant
                    start < ix <= n,
                    n == lines@.len(),
                    all == byte_lines(lines@),
                    header_end(all, ix as int) == header_end(all, start + 1),
                decreases n - ix,
            {
                ix = ix + 1;
            }
            let body: usize = ix;
            let mut hunks: Vec<Hunk> = Vec::new();
            loop
                invariant
                    body <= ix <= n,
                    n == lines@.len(),
                    all == byte_lines(lines@),
                    hunk_views(hunks@) + hunks_from(all, ix as int) == hunks_from(all, body as int),
                    ix == (if hunks@.len() == 0 {
                        body as int
                    } else {
                        hunks@.last()@.end
                    }),
                ensures
                    hunk_views(hunks@) == hunks_from(all, body as int),
                    ix == hunks_end(all, body as int),
                    ix <= n,
                decreases n - ix,
            {
                proof {
                    lemma_hunk_at(all, ix as int);
                }
                match parse_hunk(&lines, ix) {
                    None => {
                        assert(hunk_views(hunks@) + Seq::<HunkView>::empty() =~= hunk_views(hunks@));
                        assert(hunks@.len() > 0 ==> hunk_views(hunks@).last() == hunks@.last()@);
                        break;
                    },
                    Some(hunk) => {
                        let ghost seen = hunk_views(hunks@);
                        ix = hunk.end;
                        hunks.push(hunk);
                        assert(hunk_views(hunks@) =~= seen.push(hunk@));
                        assert(seen.push(hunk@) + hunks_from(all, ix as int) =~= seen + (seq![hunk@]
                            + hunks_from(all, ix as int)));
                    },
                }
            }
            // A submodule's "hunk" is a commit id: stage or discard it as a whole file.
            let submodule = any_gitlink(&lines, start, body);
            let ghost file = SectionView {
                start: start as int,
                body: body as int,
                hunks: hunk_views(hunks@),
            };
            proof {
                lemma_hunks_from(all, body as int);
                assert forall|m: int| 0 <= m < hunks@.len() implies (#[trigger] hunks@[m]).at
                    < hunks@[m].end <= n by {
                    assert(file.hunks[m] == hunks@[m]@);
                }
            }
            if !submodule {
                let mut k: usize = 0;
                while k < hunks.len()
                    invariant
                        k <= hunks@.len(),
                        n == lines@.len(),
                        all == byte_lines(lines@),
                        changes@.len() == n,
                        file.hunks == hunk_views(hunks@),
                        forall|m: int|
                            0 <= m < hunks@.len() ==> (#[trigger] hunks@[m]).at < hunks@[m].end <= n,
                        forall|i: int|
                            0 <= i < n ==> #[trigger] changes@[i] == (old_changes[i] || is_plus_minus(
                                all[i],
                            ) && exists|m: int|
                                0 <= m < k && (#[trigger] file.hunks[m]).at < i < file.hunks[m].end),
                    decreases hunks@.len() - k,
                {
                    let ghost seen = changes@;
                    assert(file.hunks[k as int] == hunks@[k as int]@);
                    mark_changes(&mut changes, &lines, hunks[k].at + 1, hunks[k].end);
                    assert forall|i: int| 0 <= i < n implies #[trigger] changes@[i] == (old_changes[i]
                        || is_plus_minus(all[i]) && exists|m: int|
                        0 <= m < k + 1 && (#[trigger] file.hunks[m]).at < i < file.hunks[m].end) by {
                        if changes@[i] && !seen[i] {
                            assert(file.hunks[k as int].at < i < file.hunks[k as int].end);
                        }
                    }
                    k = k + 1;
                }
            }
            files.push(FileSection { header: start..body, hunks });
            proof {
                let now = section_views(files@);
                assert(now =~= before.push(file));
                assert(file.hunks == hunks_from(all, body as int));
                assert(before.push(file) + sections_from(all, ix as int) =~= before + (seq![file]
                    + sections_from(all, ix as int)));
                assert forall|i: int| 0 <= i < n implies #[trigger] changes@[i] == stageable(all, now, i) by {
                    assert(submodule == is_submodule(all, file));
                    assert(changes@[i] == (old_changes[i] || stageable_in(all, file, i)));
                    if stageable(all, before, i) {
                        let f = choose|f: int|
                            0 <= f < before.len() && stageable_in(all, #[trigger] before[f], i);
                        assert(now[f] == before[f]);
                    }
                    if stageable_in(all, file, i) {
                        assert(now[before.len() as int] == file);
                    }
                    if stageable(all, now, i) {
                        let f = choose|f: int|
                            0 <= f < now.len() && stageable_in(all, #[trigger] now[f], i);
                        if f < before.len() {
                            assert(now[f] == before[f]);
                        }
                    }
                }
            }
        }
        proof {
            lemma_sections_from(all, 0);
            assert(section_views(files@) =~= sections_from(all, 0));
            assert(changes@ =~= patch_of(diff@).changes);
        }
        Patch { lines, changes, files }
    }

    /// How many lines the diff has.
    pub fn len(&self) -> (r: usize)
        ensures
            r == self@.lines.len(),
    {
        self.lines.len()
    }

    pub fn is_empty(&self) -> (r: bool)
        ensures
            r == (self@.lines.len() == 0),
    {
        self.lines.len() == 0
    }

    /// Whether line `ix` is a `+` or `-` line that can be staged.
    pub fn is_change(&self, ix: usize) -> (r: bool)
        ensures
            r == self@.change(ix as int),
    {
        ix < self.changes.len() && self.changes[ix]
    }

    /// Whether anything can be staged.
    pub fn has_changes(&self) -> (r: bool)
        ensures
            r == (exists|i: int| self@.change(i)),
    {
        proof {
            law_next_change_is_first(self@, 0);
        }
        let first = self.first_change();
        first.is_some()
    }

    /// The first changed line.
    pub fn first_change(&self) -> (r: Option<usize>)
        ensures
            index_opt(r) == self@.next_change(0),
            r matches Some(i) ==> i < self@.lines.len() <= usize::MAX,
    {
        self.change_from(0)
    }

    /// The first changed line at or after `ix`.
    fn change_from(&self, ix: usize) -> (r: Option<usize>)
        ensures
            index_opt(r) == self@.next_change(ix as int),
            r matches Some(i) ==> i < self@.lines.len() <= usize::MAX,
    {
        proof {
            use_type_invariant(self);
        }
        let n: usize = self.lines.len();
        let mut i: usize = ix;
        while i < self.changes.len()
            invariant
                self@.changes.len() == self@.lines.len() == n,
                self@.next_change(i as int) == self@.next_change(ix as int),
            decreases self.changes@.len() - i,
        {
            if self.changes[i] {
                return Some(i);
            }
            i = i + 1;
        }
        None
    }

    /// The last changed line before `ix`.
    fn change_before(&self, ix: usize) -> (r: Option<usize>)
        ensures
            index_opt(r) == self@.previous_change(ix as int),
            r matches Some(i) ==> i < self@.lines.len() <= usize::MAX,
    {
        proof {
            use_type_invariant(self);
        }
        let n: usize = self.lines.len();
        let mut i: usize = ix;
        while i > 0
            invariant
                self@.changes.len() == self@.lines.len() == n,
                self@.previous_change(i as int) == self@.previous_change(ix as int),
            decreases i,
        {
            i = i - 1;
            if i < self.changes.len() && self.changes[i] {
                return Some(i);
            }
        }
        None
    }

    /// The first changed line at or after `ix`, else the last one before it.
    pub fn nearest_change(&self, ix: usize) -> (r: Option<usize>)
        ensures
            index_opt(r) == self@.closest_change(ix as int),
            r matches Some(i) ==> i < self@.lines.len() <= usize::MAX,
    {
        match self.change_from(ix) {
            Some(i) => Some(i),
            None => self.change_before(ix),
        }
    }

    /// The next (or previous) changed line after (or before) `ix`.
    pub fn adjacent_change(&self, ix: usize, forward: bool) -> (r: Option<usize>)
        ensures
            index_opt(r) == (if forward {
                self@.next_change(ix + 1)
            } else {
                self@.previous_change(ix as int)
            }),
            r matches Some(i) ==> i < self@.lines.len() <= usize::MAX,
    {
        if forward {
            let n: usize = self.changes.len();
            if ix >= n {
                None
            } else {
                self.change_from(ix + 1)
            }
        } else {
            self.change_before(ix)
        }
    }

    /// Whether line `i` is a change or a marker.
    fn part(&self, i: usize) -> (r: bool)
        requires
            i < self@.lines.len(),
        ensures
            r == self@.in_run(i as int),
    {
        proof {
            use_type_invariant(self);
        }
        self.changes[i] || (self.lines[i].len() > 0 && self.lines[i][0] == BACKSLASH)
    }

    /// The run of adjacent changed lines around `ix`. It includes the
    /// `\\ No newline at end of file` markers among them.
    pub fn block(&self, ix: usize) -> (r: Option<Range<usize>>)
        ensures
            match r {
                Some(b) => self@.block_of(ix as int) == Some((b.start as int, b.end as int)) && b.start < b.end
                    <= self@.lines.len() <= usize::MAX,
                None => self@.block_of(ix as int) is None,
            },
    {
        proof {
            use_type_invariant(self);
        }
        if !self.is_change(ix) {
            return None;
        }
        let n: usize = self.lines.len();
        let mut start: usize = ix;
        while start > 0 && self.part(start - 1)
            invariant
                start <= ix < n,
                n == self@.lines.len(),
                self@.run_start(start as int) == self@.run_start(ix as int),
            decreases start,
        {
            start = start - 1;
        }
        let mut end: usize = ix + 1;
        while end < n && self.part(end)
            invariant
                ix < end <= n,
                n == self@.lines.len(),
                self@.run_end(end as int) == self@.run_end(ix + 1),
            decreases n - end,
        {
            end = end + 1;
        }
        Some(start..end)
    }

    /// The first line of the next (or previous) block of changes.
    pub fn adjacent_block(&self, ix: usize, forward: bool) -> (r: Option<usize>)
        ensures
            index_opt(r) == self@.block_beside(ix as int, forward),
            r matches Some(i) ==> i < self@.lines.len() <= usize::MAX,
    {
        proof {
            use_type_invariant(self);
        }
        let current = self.block(ix);
        if forward {
            match current {
                Some(block) => self.change_from(block.end),
                None => self.adjacent_change(ix, true),
            }
        } else {
            let start: usize = match current {
                Some(block) => block.start,
                None => ix,
            };
            match self.change_before(start) {
                None => None,
                Some(i) => {
                    proof {
                        law_previous_change_is_last(self@, start as int);
                    }
                    match self.block(i) {
                        Some(block) => Some(block.start),
                        None => None,
                    }
                },
            }
        }
    }

    /// A hunk's body with only the selected changes, and its old and new line counts.
    fn hunk_lines(&self, hunk: &Hunk, selected: &Range<usize>, reverse: bool) -> (r: Result<
        (Vec<u8>, u64, u64),
        NoNewlineConflict,
    >)
        requires
            hunk@.at < hunk@.end <= self@.lines.len(),
        ensures
            ({
                let ws = self@.hunk_written(selection(selected, reverse), hunk@);
                match r {
                    Ok((out, old, new)) => {
                        &&& !conflict(ws)
                        &&& out@ == render_all(ws)
                        &&& old == old_side(ws).len()
                        &&& new == new_side(ws).len()
                    },
                    Err(_) => conflict(ws),
                }
            }),
    {
        proof {
            use_type_invariant(self);
        }
        let ghost sel = selection(selected, reverse);
        let ghost from = hunk.at + 1;
        let mut out: Vec<u8> = Vec::new();
        let mut old: u64 = 0;
        let mut new: u64 = 0;
        // What the last line written was, and whether the last line read was dropped.
        let mut last: Option<u8> = None;
        let mut dropped = false;
        // Set by a marker: that side of the hunk can't go on.
        let mut old_ended = false;
        let mut new_ended = false;
        let mut ix: usize = hunk.at + 1;
        let ghost mut ws: Seq<Written> = Seq::empty();
        while ix < hunk.end
            invariant
                from <= ix <= hunk.end,
                from == hunk.at + 1,
                hunk.end <= self@.lines.len(),
                self@.wf(),
                sel == selection(selected, reverse),
                ws == self@.written(sel, from, ix as int),
                out@ == render_all(ws),
                old == old_side(ws).len(),
                new == new_side(ws).len(),
                old <= ix,
                new <= ix,
                last == last_kind(ws),
                dropped == self@.left_out_before(sel, from, ix as int),
                old_ended == (exists|j: int| ends_old(ws, j)),
                new_ended == (exists|j: int| ends_new(ws, j)),
                !conflict(ws),
            decreases hunk.end - ix,
        {
            let line: &[u8] = self.lines[ix].as_slice();
            assert(self@.lines[ix as int] == line@);
            let ghost before = ws;
            let at: usize = ix;
            ix = ix + 1;
            let end: usize = line.len();
            if end > 0 && line[0] == BACKSLASH {
                if !dropped {
                    let ghost w = Written { kind: BACKSLASH, text: line@.drop_first() };
                    match last {
                        Some(kind) => {
                            if kind != PLUS {
                                old_ended = true;
                            }
                            if kind != MINUS {
                                new_ended = true;
                            }
                        },
                        None => {
                            old_ended = true;
                            new_ended = true;
                        },
                    }
                    extend(&mut out, line);
                    out.push(NEWLINE);
                    proof {
                        ws = before.push(w);
                        assert(line@ =~= seq![w.kind] + w.text);
                        lemma_push(before, w);
                        assert(out@ =~= render_all(ws));
                    }
                }
                continue;
            }
            let is_selected = selected.start <= at && at < selected.end && self.changes[at];
            let changed = end > 0 && (line[0] == PLUS || line[0] == MINUS);
            let kind: u8 = if changed && is_selected {
                line[0]
            } else if changed && (line[0] == PLUS) != reverse {
                dropped = true;
                continue;
            } else {
                SPACE
            };
            let text: &[u8] = if end > 0 {
                slice_subrange(line, 1, end)
            } else {
                line
            };
            assert(text@ =~= line_text(line@));
            let ghost w = Written { kind, text: text@ };
            assert(self@.keeps(sel, at as int) == Some(w));
            proof {
                ws = before.push(w);
                lemma_push(before, w);
            }
            dropped = false;
            let ended = if kind == MINUS {
                old_ended
            } else if kind == PLUS {
                new_ended
            } else {
                old_ended || new_ended
            };
            if ended {
                proof {
                    lemma_written_grows(self@, sel, from, ix as int, hunk.end as int);
                    lemma_conflict_grows(ws, self@.hunk_written(sel, hunk@));
                }
                return Err(NoNewlineConflict);
            }
            if kind != PLUS {
                old = old + 1;
            }
            if kind != MINUS {
                new = new + 1;
            }
            last = Some(kind);
            out.push(kind);
            extend(&mut out, text);
            out.push(NEWLINE);
            assert(out@ =~= render_all(ws));
        }
        Ok((out, old, new))
    }

    /// What follows `prefix` in the first header line that starts with it.
    fn header_value(&self, file: &FileSection, prefix: &str) -> (r: Option<&[u8]>)
        requires
            file@.start <= file@.body <= self@.lines.len(),
        ensures
            match r {
                Some(rest) => after_first(self@.lines, file@.start, file@.body, prefix) == Some(rest@),
                None => after_first(self@.lines, file@.start, file@.body, prefix) is None,
            },
    {
        let mut i: usize = file.header.start;
        while i < file.header.end
            invariant
                file@.start <= i <= file@.body <= self@.lines.len(),
                after_first(self@.lines, i as int, file@.body, prefix) == after_first(
                    self@.lines,
                    file@.start,
                    file@.body,
                    prefix,
                ),
            decreases file@.body - i,
        {
            assert(self@.lines[i as int] == self.lines@[i as int]@);
            match after_prefix(self.lines[i].as_slice(), bytes_of(prefix)) {
                Some(rest) => return Some(rest),
                None => {},
            }
            i = i + 1;
        }
        None
    }

    /// Appends header lines; only the mode changes if `modes` is set.
    fn copy_header(&self, out: &mut Vec<u8>, file: &FileSection, modes: bool)
        requires
            file@.start <= file@.body <= self@.lines.len(),
        ensures
            final(out)@ == old(out)@ + copy_lines(self@.lines, file@.start, file@.body, modes),
    {
        let mut i: usize = file.header.start;
        while i < file.header.end
            invariant
                file@.start <= i <= file@.body <= self@.lines.len(),
                out@ == old(out)@ + copy_lines(self@.lines, file@.start, i as int, modes),
            decreases file@.body - i,
        {
            let line: &[u8] = self.lines[i].as_slice();
            assert(self@.lines[i as int] == line@);
            let ghost before = out@;
            if !modes || starts_with(line, bytes_of("old mode ")) || starts_with(
                line,
                bytes_of("new mode "),
            ) {
                extend(out, line);
                out.push(NEWLINE);
                assert(out@ =~= before + line@.push(NEWLINE));
            }
            assert(out@ =~= old(out)@ + copy_lines(self@.lines, file@.start, i + 1, modes));
            i = i + 1;
        }
    }

    /// Writes the header of a plain change to the file `name`.
    fn push_plain_header(&self, out: &mut Vec<u8>, file: &FileSection, name: &[u8])
        requires
            old(out)@.len() == 0,
            file@.start <= file@.body <= self@.lines.len(),
        ensures
            final(out)@ == plain_header(self@.lines, file@.start, file@.body, name@),
    {
        // Git adds a tab after names with spaces; the name is quoted when it has special
        // characters.
        let end: usize = name.len();
        let bare: &[u8] = if end > 0 && name[end - 1] == TAB {
            slice_subrange(name, 0, end - 1)
        } else {
            name
        };
        assert(bare@ =~= without_tab(name@));
        extend(out, bytes_of("diff --git "));
        extend(out, with_side(bare, LOWER_A).as_slice());
        out.push(SPACE);
        extend(out, with_side(bare, LOWER_B).as_slice());
        out.push(NEWLINE);
        assert(out@ =~= utf8("diff --git ") + sided(bare@, LOWER_A) + seq![SPACE] + sided(bare@, LOWER_B)
            + seq![NEWLINE]);
        self.copy_header(out, file, true);
        extend(out, bytes_of("--- "));
        extend(out, with_side(name, LOWER_A).as_slice());
        out.push(NEWLINE);
        extend(out, bytes_of("+++ "));
        extend(out, with_side(name, LOWER_B).as_slice());
        out.push(NEWLINE);
        assert(out@ =~= plain_header(self@.lines, file@.start, file@.body, name@));
    }

    /// The file's header, rewritten as a plain change to one file where a partial patch
    /// can't keep it: a new file that the patch doesn't wholly remove when reversed, a
    /// deleted file that isn't wholly deleted, or a rename (only the content is staged).
    fn header(&self, file: &FileSection, old_total: u64, new_total: u64) -> (r: Vec<u8>)
        requires
            file@.start <= file@.body <= self@.lines.len(),
        ensures
            r@ == self@.header_text(file@, old_total as int, new_total as int),
    {
        let minus = self.header_value(file, "--- ");
        let plus = self.header_value(file, "+++ ");
        let created = match minus {
            Some(name) => same_slice(name, bytes_of("/dev/null")),
            None => false,
        };
        let deleted = match plus {
            Some(name) => same_slice(name, bytes_of("/dev/null")),
            None => false,
        };
        let renamed = self.header_value(file, "rename from ").is_some() || self.header_value(
            file,
            "copy from ",
        ).is_some();
        let rewrite = renamed || created && old_total > 0 || deleted && new_total > 0;
        let path = if deleted {
            minus
        } else {
            plus
        };
        let mut out: Vec<u8> = Vec::new();
        match path {
            Some(name) => {
                if rewrite {
                    self.push_plain_header(&mut out, file, name);
                    return out;
                }
            },
            None => {},
        }
        self.copy_header(&mut out, file, false);
        assert(out@ =~= copy_lines(self@.lines, file@.start, file@.body, false));
        out
    }

    /// Whether a hunk has a selected change.
    fn has_selected(&self, hunk: &Hunk, selected: &Range<usize>, reverse: bool) -> (r: bool)
        requires
            hunk@.at < hunk@.end <= self@.lines.len(),
        ensures
            r == self@.touches(selection(selected, reverse), hunk@),
    {
        proof {
            use_type_invariant(self);
        }
        let ghost sel = selection(selected, reverse);
        let mut i: usize = hunk.at + 1;
        while i < hunk.end
            invariant
                hunk.at < i <= hunk.end <= self@.lines.len(),
                self@.wf(),
                sel == selection(selected, reverse),
                forall|j: int| hunk.at < j < i ==> !#[trigger] self@.picked(sel, j),
            decreases hunk.end - i,
        {
            if selected.start <= i && i < selected.end && self.changes[i] {
                assert(self@.picked(sel, i as int));
                return true;
            }
            i = i + 1;
        }
        false
    }

    /// The hunks of a file with only the selected changes, and their line counts.
    fn file_hunks(&self, f: usize, selected: &Range<usize>, reverse: bool) -> (r: Result<
        (Vec<u8>, u64, u64),
        NoNewlineConflict,
    >)
        requires
            f < self@.files.len(),
        ensures
            ({
                let sel = selection(selected, reverse);
                let hunks = self@.files[f as int].hunks;
                match r {
                    Ok((body, old, new)) => {
                        &&& forall|k: int| !#[trigger] self@.conflicts_at(sel, f as int, k)
                        &&& body@ == self@.hunks_text(sel, hunks, hunks.len() as int)
                        &&& self@.totals(sel, hunks, hunks.len() as int) == (old as int, new as int)
                    },
                    Err(_) => exists|k: int| self@.conflicts_at(sel, f as int, k),
                }
            }),
    {
        proof {
            use_type_invariant(self);
        }
        let ghost sel = selection(selected, reverse);
        let ghost p = self@;
        let file: &FileSection = &self.files[f];
        let ghost hunks = p.files[f as int].hunks;
        assert(p.files[f as int] == file@);
        let mut body: Vec<u8> = Vec::new();
        let mut old_total: u64 = 0;
        let mut new_total: u64 = 0;
        let mut k: usize = 0;
        while k < file.hunks.len()
            invariant
                k <= file.hunks@.len(),
                f < p.files.len(),
                p == self@,
                p.wf(),
                file@ == p.files[f as int],
                hunks == hunk_views(file.hunks@),
                hunks == p.files[f as int].hunks,
                sel == selection(selected, reverse),
                body@ == p.hunks_text(sel, hunks, k as int),
                p.totals(sel, hunks, k as int) == (old_total as int, new_total as int),
                forall|m: int| 0 <= m < k ==> !#[trigger] p.conflicts_at(sel, f as int, m),
                k > 0 ==> old_total <= hunks[k - 1].end && new_total <= hunks[k - 1].end,
                k == 0 ==> old_total == 0 && new_total == 0,
            decreases file.hunks@.len() - k,
        {
            let hunk: &Hunk = &file.hunks[k];
            assert(hunks[k as int] == hunk@);
            assert(hunks_within(hunks, file@.body, p.lines.len() as int));
            if k > 0 {
                assert(hunks[k - 1].end <= hunks[k as int].at);
            }
            k = k + 1;
            if !self.has_selected(hunk, selected, reverse) {
                continue;
            }
            let (lines, old, new) = match self.hunk_lines(hunk, selected, reverse) {
                Ok(parts) => parts,
                Err(e) => {
                    assert(p.conflicts_at(sel, f as int, k - 1));
                    return Err(e);
                },
            };
            proof {
                lemma_side_lengths(p, sel, hunk.at + 1, hunk.end as int);
            }
            let ghost before = body@;
            let delta: i128 = new_total as i128 - old_total as i128;
            push_hunk(&mut body, hunk, reverse, delta, old, new, lines.as_slice());
            assert(body@ == before + p.hunk_text(sel, hunk@, delta as int));
            old_total = old_total + old;
            new_total = new_total + new;
        }
        Ok((body, old_total, new_total))
    }

    /// A patch of just the changed lines in `selected`, to be applied forwards (`git apply
    /// --cached`) or in reverse (`git apply -R`, with `--cached` to unstage). `None` when
    /// the selection has no changed lines.
    pub fn build(&self, selected: Range<usize>, reverse: bool) -> (r: Result<
        Option<Vec<u8>>,
        NoNewlineConflict,
    >)
        ensures
            ({
                let sel = selection(&selected, reverse);
                match r {
                    Err(_) => self@.conflicts(sel),
                    Ok(None) => !self@.conflicts(sel) && self@.patch_text(sel).len() == 0,
                    Ok(Some(out)) => !self@.conflicts(sel) && out@ == self@.patch_text(sel)
                        && out@.len() > 0,
                }
            }),
    {
        proof {
            use_type_invariant(self);
        }
        let ghost sel = selection(&selected, reverse);
        let ghost p = self@;
        let mut out: Vec<u8> = Vec::new();
        let mut f: usize = 0;
        while f < self.files.len()
            invariant
                f <= p.files.len(),
                p == self@,
                p.wf(),
                sel == selection(&selected, reverse),
                out@ == p.files_text(sel, f as int),
                forall|g: int, k: int| g < f ==> !#[trigger] p.conflicts_at(sel, g, k),
            decreases p.files.len() - f,
        {
            let file: &FileSection = &self.files[f];
            assert(p.files[f as int] == file@);
            let (body, old_total, new_total) = match self.file_hunks(f, &selected, reverse) {
                Ok(parts) => parts,
                Err(e) => {
                    return Err(e);
                },
            };
            let ghost before = out@;
            if body.len() > 0 {
                let header = self.header(file, old_total, new_total);
                extend(&mut out, header.as_slice());
                extend(&mut out, body.as_slice());
            }
            assert(out@ =~= before + p.file_text(sel, file@));
            f = f + 1;
        }
        if out.len() == 0 {
            Ok(None)
        } else {
            Ok(Some(out))
        }
    }
}

/// The selection of a range of lines.
pub open spec fn selection(selected: &Range<usize>, reverse: bool) -> Selection {
    Selection { lo: selected.start as int, hi: selected.end as int, reverse }
}

/// The selection can't be applied on its own because of a missing newline at the end of
/// the file (e.g. adding a line after a last line that has no newline).
#[derive(Clone, Copy, Debug, PartialEq, Eq, Structural)]
pub struct NoNewlineConflict;

impl NoNewlineConflict {
    /// What to tell the user.
    pub fn message(&self) -> (r: String)
        ensures
            r@
                == "The last line of this file has no newline, so this change can't be split there. Select the lines next to it as well (or the whole hunk)."@,
    {
        "The last line of this file has no newline, so this change can't be split there. Select the lines next to it as well (or the whole hunk).".to_owned()
    }
}

/// The number of a hunk's first line.
fn first_line(start: u32, count: u32) -> (r: i128)
    ensures
        r == first_line_of(start as int, count as int),
        0 <= r <= u32::MAX + 1,
{
    if count == 0 {
        start as i128 + 1
    } else {
        start as i128
    }
}

/// Writes a hunk. The side the patch is applied to is unchanged; the other side moves by
/// what the earlier hunks added or removed.
fn push_hunk(
    out: &mut Vec<u8>,
    hunk: &Hunk,
    reverse: bool,
    delta: i128,
    old_count: u64,
    new_count: u64,
    lines: &[u8],
)
    requires
        -0x1_0000_0000_0000_0000 <= delta <= 0x1_0000_0000_0000_0000,
    ensures
        final(out)@ == old(out)@ + hunk_at_line(
            hunk@,
            reverse,
            delta as int,
            old_count as int,
            new_count as int,
        ) + lines@,
{
    let (old_first, new_first) = if reverse {
        let first: i128 = first_line(hunk.new_start, hunk.new_count);
        (first - delta, first)
    } else {
        let first: i128 = first_line(hunk.old_start, hunk.old_count);
        (first, first + delta)
    };
    extend(out, bytes_of("@@ -"));
    push_range(out, old_first, old_count);
    extend(out, bytes_of(" +"));
    push_range(out, new_first, new_count);
    extend(out, bytes_of(" @@"));
    extend(out, hunk.heading.as_slice());
    out.push(NEWLINE);
    assert(out@ =~= old(out)@ + hunk_at_line(
        hunk@,
        reverse,
        delta as int,
        old_count as int,
        new_count as int,
    ));
    extend(out, lines);
}

/// Writes `start,count`.
fn push_range(out: &mut Vec<u8>, first: i128, count: u64)
    requires
        -0x2_0000_0000_0000_0000 <= first <= 0x2_0000_0000_0000_0000,
    ensures
        final(out)@ == old(out)@ + range_text(first as int, count as int),
{
    let start: i128 = if count == 0 {
        first - 1
    } else {
        first
    };
    push_signed_bytes(out, start);
    out.push(COMMA);
    push_decimal_bytes(out, count as u128);
    assert(out@ =~= old(out)@ + range_text(first as int, count as int));
}

/// `b/name` (or `"b/name"`) with its `a/` or `b/` prefix set to `side`.
pub fn with_side(name: &[u8], side: u8) -> (r: Vec<u8>)
    ensures
        r@ == sided(name@, side),
{
    let mut out = slice_to_vec(name);
    let n: usize = out.len();
    let at: usize = if n > 0 && out[0] == QUOTE {
        1
    } else {
        0
    };
    if n >= 2 && at <= n - 2 && (out[at] == LOWER_A || out[at] == LOWER_B) && out[at + 1] == SLASH {
        out.set(at, side);
    }
    out
}

} // verus!
