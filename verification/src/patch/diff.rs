//! What a `git diff` says: its lines, its files and its hunks.

use vstd::prelude::*;

use crate::text::ascii::{BACKSLASH, COMMA, MINUS, NEWLINE, PLUS, SPACE};
use crate::text::number::parse_number;
use crate::text::seqs::{split, split_once, split_once_sub, strip_prefix};
use crate::text::strings::utf8;

verus! {

/// A hunk of a diff.
#[verifier::ext_equal]
pub ghost struct HunkView {
    /// The `@@` line.
    pub at: int,
    /// One past the hunk's last line, including any `\ No newline at end of file`.
    pub end: int,
    pub old_start: nat,
    pub old_count: nat,
    pub new_start: nat,
    pub new_count: nat,
    /// Whatever follows the closing `@@`.
    pub heading: Seq<u8>,
}

/// One `diff --git` section: its header lines `start..body`, then its hunks.
#[verifier::ext_equal]
pub ghost struct SectionView {
    pub start: int,
    pub body: int,
    pub hunks: Seq<HunkView>,
}

/// A parsed diff.
#[verifier::ext_equal]
pub ghost struct PatchView {
    pub lines: Seq<Seq<u8>>,
    pub changes: Seq<bool>,
    pub files: Seq<SectionView>,
}

/// The lines of a diff: split at line feeds, without an empty last piece.
pub open spec fn diff_lines(diff: Seq<u8>) -> Seq<Seq<u8>> {
    let pieces = split(diff, NEWLINE);
    if pieces.last().len() == 0 {
        pieces.drop_last()
    } else {
        pieces
    }
}

/// Whether a line starts with `text`.
pub open spec fn begins(line: Seq<u8>, text: &str) -> bool {
    utf8(text).is_prefix_of(line)
}

/// Whether a line's first byte is `b`.
pub open spec fn led_by(line: Seq<u8>, b: u8) -> bool {
    line.len() > 0 && line[0] == b
}

/// A `\ No newline at end of file` line.
pub open spec fn is_marker(line: Seq<u8>) -> bool {
    led_by(line, BACKSLASH)
}

/// An added or removed line.
pub open spec fn is_plus_minus(line: Seq<u8>) -> bool {
    led_by(line, PLUS) || led_by(line, MINUS)
}

/// `start,count` of a hunk's header; a count left out is 1.
pub open spec fn range_of(s: Seq<u8>) -> Option<(nat, nat)> {
    match split_once(s, COMMA) {
        Some((start, count)) => match (
            parse_number(start, u32::MAX as nat),
            parse_number(count, u32::MAX as nat),
        ) {
            (Some(start), Some(count)) => Some((start, count)),
            _ => None,
        },
        None => match parse_number(s, u32::MAX as nat) {
            Some(start) => Some((start, 1)),
            None => None,
        },
    }
}

/// The old range, the new range and the heading of an `@@ -a,b +c,d @@ heading` line.
pub open spec fn hunk_header(line: Seq<u8>) -> Option<((nat, nat), (nat, nat), Seq<u8>)> {
    match strip_prefix(line, utf8("@@ -")) {
        None => None,
        Some(rest) => match split_once_sub(rest, utf8(" @@")) {
            None => None,
            Some((ranges, heading)) => match split_once_sub(ranges, utf8(" +")) {
                None => None,
                Some((old, new)) => match (range_of(old), range_of(new)) {
                    (Some(o), Some(n)) => Some((o, n, heading)),
                    _ => None,
                },
            },
        },
    }
}

/// Where a hunk's lines end when, from line `ix` on, `old` old lines and `new` new lines
/// are left. `None` if a line doesn't fit or the diff ends first.
pub open spec fn hunk_body_end(lines: Seq<Seq<u8>>, ix: int, old: nat, new: nat) -> Option<int>
    decreases lines.len() - ix,
{
    if old == 0 && new == 0 {
        Some(ix)
    } else if ix < 0 || ix >= lines.len() {
        None
    } else {
        let line = lines[ix];
        if led_by(line, MINUS) && old > 0 {
            hunk_body_end(lines, ix + 1, (old - 1) as nat, new)
        } else if led_by(line, PLUS) && new > 0 {
            hunk_body_end(lines, ix + 1, old, (new - 1) as nat)
        } else if is_marker(line) {
            hunk_body_end(lines, ix + 1, old, new)
        } else if (line.len() == 0 || line[0] == SPACE) && old > 0 && new > 0 {
            hunk_body_end(lines, ix + 1, (old - 1) as nat, (new - 1) as nat)
        } else {
            None
        }
    }
}

/// The first line at or after `ix` that isn't a marker.
pub open spec fn markers_end(lines: Seq<Seq<u8>>, ix: int) -> int
    decreases lines.len() - ix,
{
    if 0 <= ix < lines.len() && is_marker(lines[ix]) {
        markers_end(lines, ix + 1)
    } else {
        ix
    }
}

/// The hunk whose `@@` line is line `at`. `None` if that isn't one, or if the diff ends
/// before the hunk does.
pub open spec fn hunk_at(lines: Seq<Seq<u8>>, at: int) -> Option<HunkView> {
    if at < 0 || at >= lines.len() {
        None
    } else {
        match hunk_header(lines[at]) {
            None => None,
            Some((old, new, heading)) => match hunk_body_end(lines, at + 1, old.1, new.1) {
                None => None,
                Some(end) => Some(
                    HunkView {
                        at,
                        end: markers_end(lines, end),
                        old_start: old.0,
                        old_count: old.1,
                        new_start: new.0,
                        new_count: new.1,
                        heading,
                    },
                ),
            },
        }
    }
}

/// A hunk's lines lie within the diff, after its `@@` line.
pub proof fn lemma_hunk_body_end(lines: Seq<Seq<u8>>, ix: int, old: nat, new: nat)
    requires
        0 <= ix <= lines.len(),
    ensures
        hunk_body_end(lines, ix, old, new) matches Some(end) ==> ix <= end <= lines.len(),
    decreases lines.len() - ix,
{
    if !(old == 0 && new == 0) && ix < lines.len() {
        let line = lines[ix];
        if led_by(line, MINUS) && old > 0 {
            lemma_hunk_body_end(lines, ix + 1, (old - 1) as nat, new);
        } else if led_by(line, PLUS) && new > 0 {
            lemma_hunk_body_end(lines, ix + 1, old, (new - 1) as nat);
        } else if is_marker(line) {
            lemma_hunk_body_end(lines, ix + 1, old, new);
        } else if (line.len() == 0 || line[0] == SPACE) && old > 0 && new > 0 {
            lemma_hunk_body_end(lines, ix + 1, (old - 1) as nat, (new - 1) as nat);
        }
    }
}

/// Skipping markers stays within the diff.
pub proof fn lemma_markers_end(lines: Seq<Seq<u8>>, ix: int)
    requires
        0 <= ix <= lines.len(),
    ensures
        ix <= markers_end(lines, ix) <= lines.len(),
    decreases lines.len() - ix,
{
    if ix < lines.len() && is_marker(lines[ix]) {
        lemma_markers_end(lines, ix + 1);
    }
}

/// A hunk lies within the diff and has at least its `@@` line.
pub proof fn lemma_hunk_at(lines: Seq<Seq<u8>>, at: int)
    ensures
        hunk_at(lines, at) matches Some(h) ==> 0 <= at && h.at == at && at < h.end <= lines.len(),
{
    if let Some(h) = hunk_at(lines, at) {
        let (old, new, _) = hunk_header(lines[at]).unwrap();
        lemma_hunk_body_end(lines, at + 1, old.1, new.1);
        lemma_markers_end(lines, hunk_body_end(lines, at + 1, old.1, new.1).unwrap());
    }
}

/// The hunks that follow one another from line `ix` on.
pub open spec fn hunks_from(lines: Seq<Seq<u8>>, ix: int) -> Seq<HunkView>
    decreases lines.len() - ix,
{
    match hunk_at(lines, ix) {
        None => Seq::empty(),
        Some(h) => {
            proof {
                lemma_hunk_at(lines, ix);
            }
            seq![h] + hunks_from(lines, h.end)
        },
    }
}

/// The line after the hunks that start at `ix`.
pub open spec fn hunks_end(lines: Seq<Seq<u8>>, ix: int) -> int {
    let hunks = hunks_from(lines, ix);
    if hunks.len() == 0 {
        ix
    } else {
        hunks.last().end
    }
}

/// Where a section's header ends: at its first hunk, the next section or the diff's end.
pub open spec fn header_end(lines: Seq<Seq<u8>>, ix: int) -> int
    decreases lines.len() - ix,
{
    if 0 <= ix < lines.len() && !begins(lines[ix], "@@ ") && !begins(lines[ix], "diff ") {
        header_end(lines, ix + 1)
    } else {
        ix
    }
}

/// A header stays within the diff.
pub proof fn lemma_header_end(lines: Seq<Seq<u8>>, ix: int)
    requires
        0 <= ix <= lines.len(),
    ensures
        ix <= header_end(lines, ix) <= lines.len(),
    decreases lines.len() - ix,
{
    if ix < lines.len() && !begins(lines[ix], "@@ ") && !begins(lines[ix], "diff ") {
        lemma_header_end(lines, ix + 1);
    }
}

/// Hunks in order: within `lo..hi`, one after another.
pub open spec fn hunks_within(hunks: Seq<HunkView>, lo: int, hi: int) -> bool {
    &&& forall|k: int|
        0 <= k < hunks.len() ==> lo <= (#[trigger] hunks[k]).at && hunks[k].at < hunks[k].end <= hi
    &&& forall|j: int, k: int|
        0 <= j < k < hunks.len() ==> (#[trigger] hunks[j]).end <= (#[trigger] hunks[k]).at
}

/// The hunks that are found lie in order within the diff.
pub proof fn lemma_hunks_from(lines: Seq<Seq<u8>>, ix: int)
    requires
        0 <= ix <= lines.len(),
    ensures
        hunks_within(hunks_from(lines, ix), ix, lines.len() as int),
        ix <= hunks_end(lines, ix) <= lines.len(),
    decreases lines.len() - ix,
{
    lemma_hunk_at(lines, ix);
    if let Some(h) = hunk_at(lines, ix) {
        lemma_hunks_from(lines, h.end);
        let rest = hunks_from(lines, h.end);
        let all = hunks_from(lines, ix);
        assert(all =~= seq![h] + rest);
        assert forall|k: int| 0 <= k < all.len() implies ix <= (#[trigger] all[k]).at && all[k].at
            < all[k].end <= lines.len() by {
            if k > 0 {
                assert(all[k] == rest[k - 1]);
            }
        }
        assert forall|j: int, k: int| 0 <= j < k < all.len() implies (#[trigger] all[j]).end <= (
        #[trigger] all[k]).at by {
            assert(all[k] == rest[k - 1]);
            if j > 0 {
                assert(all[j] == rest[j - 1]);
            }
        }
        if rest.len() > 0 {
            assert(all.last() == rest.last());
        }
    }
}

/// The sections from line `ix` on. Lines before a `diff --git ` line belong to none.
pub open spec fn sections_from(lines: Seq<Seq<u8>>, ix: int) -> Seq<SectionView>
    decreases lines.len() - ix,
{
    if ix < 0 || ix >= lines.len() {
        Seq::empty()
    } else if !begins(lines[ix], "diff --git ") {
        sections_from(lines, ix + 1)
    } else {
        let body = header_end(lines, ix + 1);
        proof {
            lemma_header_end(lines, ix + 1);
            lemma_hunks_from(lines, body);
        }
        seq![SectionView { start: ix, body, hunks: hunks_from(lines, body) }] + sections_from(
            lines,
            hunks_end(lines, body),
        )
    }
}

/// A header line of a submodule (mode 160000).
pub open spec fn gitlink_line(line: Seq<u8>) -> bool {
    ||| utf8("mode 160000").is_suffix_of(line)
    ||| begins(line, "index ") && utf8(" 160000").is_suffix_of(line)
}

/// Whether a section is about a submodule, whose "hunk" is a commit id.
pub open spec fn is_submodule(lines: Seq<Seq<u8>>, file: SectionView) -> bool {
    exists|i: int| file.start <= i < file.body && gitlink_line(#[trigger] lines[i])
}

/// Whether line `i` lies in a hunk of `file`, after the `@@` line.
pub open spec fn in_hunk(file: SectionView, i: int) -> bool {
    exists|k: int| 0 <= k < file.hunks.len() && (#[trigger] file.hunks[k]).at < i < file.hunks[k].end
}

/// Whether line `i` is a `+` or `-` line of `file` that can be staged on its own.
pub open spec fn stageable_in(lines: Seq<Seq<u8>>, file: SectionView, i: int) -> bool {
    is_plus_minus(lines[i]) && in_hunk(file, i) && !is_submodule(lines, file)
}

/// Whether line `i` is a `+` or `-` line that can be staged on its own.
pub open spec fn stageable(lines: Seq<Seq<u8>>, files: Seq<SectionView>, i: int) -> bool {
    exists|f: int| 0 <= f < files.len() && stageable_in(lines, #[trigger] files[f], i)
}

/// The diff as a whole.
pub open spec fn patch_of(diff: Seq<u8>) -> PatchView {
    let lines = diff_lines(diff);
    let files = sections_from(lines, 0);
    PatchView {
        lines,
        changes: Seq::new(lines.len(), |i: int| stageable(lines, files, i)),
        files,
    }
}

/// Sections in order: within `lo..hi`, one after another, each header before its hunks.
pub open spec fn sections_within(files: Seq<SectionView>, lo: int, hi: int) -> bool {
    &&& forall|f: int|
        0 <= f < files.len() ==> lo <= (#[trigger] files[f]).start && files[f].start < files[f].body
            <= hi && hunks_within(files[f].hunks, files[f].body, hi)
    &&& forall|f: int, g: int, k: int|
        0 <= f < g < files.len() && 0 <= k < (#[trigger] files[f]).hunks.len()
            ==> (#[trigger] files[f].hunks[k]).end <= (#[trigger] files[g]).start
    &&& forall|f: int, g: int|
        0 <= f < g < files.len() ==> (#[trigger] files[f]).body <= (#[trigger] files[g]).start
}

/// The sections that are found lie in order within the diff.
pub proof fn lemma_sections_from(lines: Seq<Seq<u8>>, ix: int)
    requires
        0 <= ix <= lines.len(),
    ensures
        sections_within(sections_from(lines, ix), ix, lines.len() as int),
    decreases lines.len() - ix,
{
    if ix < lines.len() {
        if !begins(lines[ix], "diff --git ") {
            lemma_sections_from(lines, ix + 1);
        } else {
            let body = header_end(lines, ix + 1);
            lemma_header_end(lines, ix + 1);
            lemma_hunks_from(lines, body);
            let next = hunks_end(lines, body);
            lemma_sections_from(lines, next);
            let all = sections_from(lines, ix);
            let rest = sections_from(lines, next);
            let first = SectionView { start: ix, body, hunks: hunks_from(lines, body) };
            assert(all =~= seq![first] + rest);
            assert forall|f: int| 0 <= f < all.len() implies ix <= (#[trigger] all[f]).start
                && all[f].start < all[f].body <= lines.len() && hunks_within(
                all[f].hunks,
                all[f].body,
                lines.len() as int,
            ) by {
                if f > 0 {
                    assert(all[f] == rest[f - 1]);
                }
            }
            assert forall|f: int, g: int, k: int|
                0 <= f < g < all.len() && 0 <= k < (#[trigger] all[f]).hunks.len() implies (
            #[trigger] all[f].hunks[k]).end <= (#[trigger] all[g]).start by {
                assert(all[g] == rest[g - 1]);
                if f > 0 {
                    assert(all[f] == rest[f - 1]);
                } else {
                    let hunks = first.hunks;
                    if k < hunks.len() - 1 {
                        assert(hunks[k].end <= hunks[hunks.len() - 1].at);
                    }
                }
            }
            assert forall|f: int, g: int| 0 <= f < g < all.len() implies (#[trigger] all[f]).body <= (
            #[trigger] all[g]).start by {
                assert(all[g] == rest[g - 1]);
                if f > 0 {
                    assert(all[f] == rest[f - 1]);
                }
            }
        }
    }
}

impl PatchView {
    /// What holds of every parsed diff: the sections and hunks lie in order within the
    /// lines, and the changes are the stageable lines.
    pub open spec fn wf(self) -> bool {
        &&& self.changes.len() == self.lines.len()
        &&& sections_within(self.files, 0, self.lines.len() as int)
        &&& forall|i: int|
            0 <= i < self.lines.len() ==> #[trigger] self.changes[i] == stageable(
                self.lines,
                self.files,
                i,
            )
    }
}

} // verus!
