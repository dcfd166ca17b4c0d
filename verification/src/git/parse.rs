//! Parsers for machine-readable git output.

use vstd::prelude::*;
use vstd::slice::slice_subrange;
use vstd::utf8::{decode_utf8, valid_utf8};

use crate::model::{
    file_views, Branch, BranchView, Commit, CommitView, FileEntry, FileKind, FileView, ReflogEntry, ReflogView, Remote,
    RemoteBranch, RemoteBranchView, RemoteView, StashEntry, StashView, StatusReport, StatusView, Submodule,
    SubmoduleView, Tag, TagView, Upstream, UpstreamView, Worktree, WorktreeView,
};
use crate::path::{same_path, FsPath};
use crate::text::ascii::NUL;
use crate::text::decode::{decoded, law_split_of_decoded};
use crate::text::number::{parse_number, parse_u32, parse_u64, read_chars, read_u32, read_u64};
use crate::text::outside::{lossy_text, text_lossy};
use crate::text::seqs::{
    filter_map, join, law_split_of_joined, lemma_filter_map_step, lemma_index_of_is, skip_leading, skipped_leading, split, split_at, split_first, split_once,
    split_upto, splitn, strip_all, strip_prefix, strip_suffix, stripped_all, views,
};
use crate::text::strings::{
    after_text, before_text, chars_of, empty_text, is_text, joined, push_string, split_lines, split_words, string_of, text_opt, texts, trim,
    trimmed, words,
};

verus! {

/// Field separator used in our `--format` strings (`%x1f`, ASCII unit separator).
pub const FS: char = '\x1f';

/// Record separator used in our `--format` strings (`%x1e`, ASCII record separator).
pub const RS: char = '\x1e';

/// Format for [`remote_branches`].
pub const REMOTE_BRANCH_FORMAT: &'static str = "%(refname)%1f%(objectname:short)%1f%(subject)%1e";

/// Format for [`tags`].
pub const TAG_FORMAT: &'static str = "%(refname:short)%1f%(objectname:short)%1f%(subject)%1e";

/// Format for [`log`].
pub const LOG_FORMAT: &'static str = "%H%x1f%h%x1f%an%x1f%ct%x1f%D%x1f%s%x1e";

/// Format for [`reflog`].
pub const REFLOG_FORMAT: &'static str = "%h%x1f%gd%x1f%gs%x1f%ct%x1e";

/// Format for [`stashes`].
pub const STASH_FORMAT: &'static str = "%gd%x1f%ct%x1f%gs%x1e";

/// The seconds since 1970 that a text gives.
pub open spec fn time_of(text: Seq<char>) -> Option<u64> {
    parse_u64(trim(text))
}

/// Reads seconds since 1970.
pub fn unix_time(secs: &str) -> (r: Option<u64>)
    ensures
        r == time_of(secs@),
{
    let chars = chars_of(secs);
    read_u64(trimmed(&chars))
}

/// The fields of a record.
pub open spec fn fields_of(record: Seq<char>) -> Option<Seq<Seq<char>>> {
    let r = skip_leading(record, '\n');
    if r.len() == 0 {
        None
    } else {
        Some(split(r, FS))
    }
}

/// The records of a text, each as its fields.
pub open spec fn records_of(out: Seq<char>) -> Seq<Seq<Seq<char>>> {
    filter_map(split(out, RS), |r: Seq<char>| fields_of(r))
}

/// The views of some records.
pub open spec fn record_views(records: Seq<Vec<String>>) -> Seq<Seq<Seq<char>>> {
    records.map_values(|r: Vec<String>| texts(r@))
}

/// The strings of some slices.
fn strings_of(pieces: &Vec<&[char]>) -> (r: Vec<String>)
    ensures
        texts(r@) == views(pieces@),
{
    let mut out: Vec<String> = Vec::new();
    let mut i: usize = 0;
    let ghost all = views(pieces@);
    while i < pieces.len()
        invariant
            i <= pieces@.len(),
            all == views(pieces@),
            texts(out@) == all.take(i as int),
        decreases pieces@.len() - i,
    {
        let ghost before = texts(out@);
        let s = string_of(pieces[i]);
        out.push(s);
        assert(texts(out@) =~= before.push(s@));
        assert(all.take(i + 1) =~= all.take(i as int).push(all[i as int]));
        i = i + 1;
    }
    assert(all.take(all.len() as int) =~= all);
    out
}

/// Splits `%1e`-terminated records into `%1f`-separated fields.
pub fn records(out: &str) -> (r: Vec<Vec<String>>)
    ensures
        record_views(r@) == records_of(out@),
{
    let chars = chars_of(out);
    let pieces = split_at(chars.as_slice(), RS);
    let ghost all = split(out@, RS);
    let ghost f = |r: Seq<char>| fields_of(r);
    let mut result: Vec<Vec<String>> = Vec::new();
    let mut i: usize = 0;
    assert(all.take(0) =~= Seq::<Seq<char>>::empty());
    assert(record_views(result@) =~= Seq::<Seq<Seq<char>>>::empty());
    while i < pieces.len()
        invariant
            i <= pieces@.len(),
            all == views(pieces@),
            f == (|r: Seq<char>| fields_of(r)),
            record_views(result@) == filter_map(all.take(i as int), f),
        decreases pieces@.len() - i,
    {
        let ghost before = record_views(result@);
        proof {
            lemma_filter_map_step(all, f, i as int);
            assert(all[i as int] == pieces@[i as int]@);
        }
        let record = skipped_leading(pieces[i], '\n');
        if record.len() > 0 {
            let fields = split_at(record, FS);
            let strings = strings_of(&fields);
            result.push(strings);
            assert(record_views(result@) =~= before.push(texts(strings@)));
        }
        i = i + 1;
    }
    assert(all.take(all.len() as int) =~= all);
    result
}

/// The status letters and the path of a file, if a record has all its fields.
pub open spec fn file_of(fields: Seq<Seq<char>>, n: int, orig: Option<Seq<char>>, kind: FileKind) -> Option<
    FileView,
> {
    if fields.len() == n {
        Some(entry_of(fields[0], fields[n - 1], orig, kind))
    } else {
        None
    }
}

/// A file with the status letters `xy`; a letter that is missing means no change.
pub open spec fn entry_of(xy: Seq<char>, path: Seq<char>, orig: Option<Seq<char>>, kind: FileKind) -> FileView {
    FileView {
        path,
        orig_path: orig,
        index: if xy.len() > 0 {
            xy[0]
        } else {
            '.'
        },
        worktree: if xy.len() > 1 {
            xy[1]
        } else {
            '.'
        },
        kind,
    }
}

/// What a record says after its tag.
pub open spec fn after_tag(record: Seq<char>) -> Seq<char> {
    let rest = record.drop_first();
    if rest.len() > 0 && rest[0] == ' ' {
        rest.drop_first()
    } else {
        rest
    }
}

/// The key and the value of a header; a header without a space has an empty value.
pub open spec fn key_value(header: Seq<char>) -> (Seq<char>, Seq<char>) {
    match split_once(header, ' ') {
        Some(parts) => parts,
        None => (header, Seq::empty()),
    }
}

/// The commits ahead and behind in `+1 -2`.
pub open spec fn ahead_behind_of(value: Seq<char>) -> Option<(u32, u32)> {
    let parts = words(value);
    if parts.len() < 2 {
        None
    } else {
        match (parse_u32(skip_leading(parts[0], '+')), parse_u32(skip_leading(parts[1], '-'))) {
            (Some(ahead), Some(behind)) => Some((ahead, behind)),
            _ => None,
        }
    }
}

impl StatusView {
    /// The report with one more header line.
    pub open spec fn with_header(self, header: Seq<char>) -> StatusView {
        let (key, value) = key_value(header);
        if key == "branch.oid"@ {
            StatusView {
                oid: if value == "(initial)"@ {
                    None
                } else {
                    Some(value)
                },
                ..self
            }
        } else if key == "branch.head"@ {
            StatusView {
                branch: if value == "(detached)"@ {
                    None
                } else {
                    Some(value)
                },
                ..self
            }
        } else if key == "branch.upstream"@ {
            StatusView { upstream: Some(value), ..self }
        } else if key == "branch.ab"@ {
            match ahead_behind_of(value) {
                Some(ab) => StatusView { ahead_behind: Some(ab), ..self },
                None => self,
            }
        } else if key == "stash"@ {
            StatusView {
                stash_count: match parse_u32(trim(value)) {
                    Some(n) => n,
                    None => 0,
                },
                ..self
            }
        } else {
            self
        }
    }

    /// The report with one more file.
    pub open spec fn with_file(self, file: Option<FileView>) -> StatusView {
        match file {
            Some(f) => StatusView { files: self.files.push(f), ..self },
            None => self,
        }
    }

    /// The report with what the records from `i` on say. A rename's original path is a
    /// record of its own.
    pub open spec fn with_records(self, records: Seq<Seq<char>>, i: int) -> StatusView
        decreases records.len() - i,
    {
        if i < 0 || i >= records.len() {
            self
        } else {
            let record = records[i];
            if record.len() == 0 {
                self.with_records(records, i + 1)
            } else if "# "@.is_prefix_of(record) {
                self.with_header(record.skip("# "@.len() as int)).with_records(records, i + 1)
            } else {
                let rest = after_tag(record);
                if record[0] == '1' {
                    // 1 XY sub mH mI mW hH hI path
                    self.with_file(file_of(splitn(rest, 8, ' '), 8, None, FileKind::Ordinary)).with_records(
                        records,
                        i + 1,
                    )
                } else if record[0] == '2' {
                    // 2 XY sub mH mI mW hH hI Xscore path, then origPath
                    let (orig, next) = if i + 1 < records.len() {
                        (Some(records[i + 1]), i + 2)
                    } else {
                        (None, i + 1)
                    };
                    self.with_file(file_of(splitn(rest, 9, ' '), 9, orig, FileKind::Renamed)).with_records(
                        records,
                        next,
                    )
                } else if record[0] == 'u' {
                    // u XY sub m1 m2 m3 mW h1 h2 h3 path
                    self.with_file(file_of(splitn(rest, 10, ' '), 10, None, FileKind::Unmerged)).with_records(
                        records,
                        i + 1,
                    )
                } else if record[0] == '?' {
                    self.with_file(
                        Some(
                            FileView {
                                path: rest,
                                orig_path: None,
                                index: '?',
                                worktree: '?',
                                kind: FileKind::Untracked,
                            },
                        ),
                    ).with_records(records, i + 1)
                } else {
                    self.with_records(records, i + 1)
                }
            }
        }
    }
}

/// What a text printed by `git status --porcelain=v2 --branch --show-stash -z` says.
pub open spec fn status_of(text: Seq<char>) -> StatusView {
    StatusView::empty().with_records(split(text, '\0'), 0)
}

/// The text of a record.
pub open spec fn record_text(record: Seq<u8>) -> Seq<char> {
    if record.len() == 0 {
        Seq::empty()
    } else {
        lossy_text(record)
    }
}

/// The texts of some records.
pub open spec fn record_texts(records: Seq<Seq<u8>>) -> Seq<Seq<char>> {
    records.map_values(|record: Seq<u8>| record_text(record))
}

/// What the bytes printed by `git status --porcelain=v2 --branch --show-stash -z` say.
/// Each record is a text of its own.
pub open spec fn status_in(out: Seq<u8>) -> StatusView {
    StatusView::empty().with_records(record_texts(split(out, NUL)), 0)
}

/// Whether a record is that of a rename, which another one with the original path follows.
pub open spec fn is_rename(record: Seq<char>) -> bool {
    record.len() > 0 && record[0] == '2'
}

/// Whether the records from `i` on are whole: each rename has its original path.
pub open spec fn whole_records(records: Seq<Seq<char>>, i: int) -> bool
    decreases records.len() - i,
{
    if i < 0 || i >= records.len() {
        i == records.len()
    } else if is_rename(records[i]) {
        if i + 1 < records.len() {
            whole_records(records, i + 2)
        } else {
            false
        }
    } else {
        whole_records(records, i + 1)
    }
}

/// The records of an output in which each ends in a NUL.
pub open spec fn ended_records(out: Seq<u8>) -> Seq<Seq<char>> {
    record_texts(split(out, NUL).drop_last())
}

/// A header is no rename.
proof fn lemma_header_is_no_rename(record: Seq<char>)
    requires
        "# "@.is_prefix_of(record),
    ensures
        !is_rename(record),
{
    reveal_strlit("# ");
    assert(record[0] == "# "@[0]);
}

/// Files come after those that are there already, whatever else is known.
proof fn lemma_files_follow(s: StatusView, records: Seq<Seq<char>>, i: int)
    ensures
        s.with_records(records, i).files == s.files + StatusView::empty().with_records(records, i).files,
    decreases records.len() - i,
{
    let e = StatusView::empty();
    if i < 0 || i >= records.len() {
        assert(s.files + e.files =~= s.files);
    } else {
        let record = records[i];
        if record.len() == 0 {
            lemma_files_follow(s, records, i + 1);
        } else if "# "@.is_prefix_of(record) {
            let header = record.skip("# "@.len() as int);
            lemma_files_follow(s.with_header(header), records, i + 1);
            lemma_files_follow(e.with_header(header), records, i + 1);
            assert(e.files + e.with_records(records, i + 1).files =~= e.with_records(records, i + 1).files);
        } else {
            let rest = after_tag(record);
            let next = if is_rename(record) && i + 1 < records.len() {
                i + 2
            } else {
                i + 1
            };
            let file = if record[0] == '1' {
                file_of(splitn(rest, 8, ' '), 8, None, FileKind::Ordinary)
            } else if record[0] == '2' {
                let orig = if i + 1 < records.len() {
                    Some(records[i + 1])
                } else {
                    None
                };
                file_of(splitn(rest, 9, ' '), 9, orig, FileKind::Renamed)
            } else if record[0] == 'u' {
                file_of(splitn(rest, 10, ' '), 10, None, FileKind::Unmerged)
            } else if record[0] == '?' {
                Some(
                    FileView {
                        path: rest,
                        orig_path: None,
                        index: '?',
                        worktree: '?',
                        kind: FileKind::Untracked,
                    },
                )
            } else {
                None
            };
            let s1 = s.with_file(file);
            let e1 = e.with_file(file);
            assert(s.with_records(records, i) == s1.with_records(records, next));
            assert(e.with_records(records, i) == e1.with_records(records, next));
            lemma_files_follow(s1, records, next);
            lemma_files_follow(e1, records, next);
            assert(s1.files =~= s.files + e1.files);
            let more = e.with_records(records, next).files;
            assert((s.files + e1.files) + more =~= s.files + (e1.files + more));
        }
    }
}

/// Records are read the same behind others.
proof fn lemma_records_moved(s: StatusView, a: Seq<Seq<char>>, b: Seq<Seq<char>>, i: int)
    requires
        0 <= i,
    ensures
        s.with_records(a + b, a.len() + i) == s.with_records(b, i),
    decreases b.len() - i,
{
    let all = a + b;
    if i < b.len() {
        let record = b[i];
        assert(all[a.len() + i] == record);
        if i + 1 < b.len() {
            assert(all[a.len() + i + 1] == b[i + 1]);
        }
        let rest = after_tag(record);
        if record.len() == 0 {
            lemma_records_moved(s, a, b, i + 1);
        } else if "# "@.is_prefix_of(record) {
            lemma_records_moved(s.with_header(record.skip("# "@.len() as int)), a, b, i + 1);
        } else if record[0] == '1' {
            lemma_records_moved(s.with_file(file_of(splitn(rest, 8, ' '), 8, None, FileKind::Ordinary)), a, b, i + 1);
        } else if record[0] == '2' {
            let (orig, next) = if i + 1 < b.len() {
                (Some(b[i + 1]), i + 2)
            } else {
                (None, i + 1)
            };
            lemma_records_moved(s.with_file(file_of(splitn(rest, 9, ' '), 9, orig, FileKind::Renamed)), a, b, next);
        } else if record[0] == 'u' {
            lemma_records_moved(s.with_file(file_of(splitn(rest, 10, ' '), 10, None, FileKind::Unmerged)), a, b, i + 1);
        } else if record[0] == '?' {
            lemma_records_moved(
                s.with_file(
                    Some(
                        FileView {
                            path: rest,
                            orig_path: None,
                            index: '?',
                            worktree: '?',
                            kind: FileKind::Untracked,
                        },
                    ),
                ),
                a,
                b,
                i + 1,
            );
        } else {
            lemma_records_moved(s, a, b, i + 1);
        }
    }
}

/// Whole records are read the same before others, and then those are read.
proof fn lemma_records_joined(s: StatusView, a: Seq<Seq<char>>, b: Seq<Seq<char>>, i: int)
    requires
        0 <= i <= a.len(),
        whole_records(a, i),
    ensures
        s.with_records(a + b, i) == s.with_records(a, i).with_records(b, 0),
    decreases a.len() - i,
{
    let all = a + b;
    if i == a.len() {
        lemma_records_moved(s, a, b, 0);
    } else {
        let record = a[i];
        assert(all[i] == record);
        if is_rename(record) {
            assert(i + 1 < a.len());
            assert(all[i + 1] == a[i + 1]);
        }
        let rest = after_tag(record);
        if record.len() == 0 {
            lemma_records_joined(s, a, b, i + 1);
        } else if "# "@.is_prefix_of(record) {
            lemma_header_is_no_rename(record);
            lemma_records_joined(s.with_header(record.skip("# "@.len() as int)), a, b, i + 1);
        } else if record[0] == '1' {
            lemma_records_joined(s.with_file(file_of(splitn(rest, 8, ' '), 8, None, FileKind::Ordinary)), a, b, i + 1);
        } else if record[0] == '2' {
            lemma_records_joined(
                s.with_file(file_of(splitn(rest, 9, ' '), 9, Some(a[i + 1]), FileKind::Renamed)),
                a,
                b,
                i + 2,
            );
        } else if record[0] == 'u' {
            lemma_records_joined(s.with_file(file_of(splitn(rest, 10, ' '), 10, None, FileKind::Unmerged)), a, b, i + 1);
        } else if record[0] == '?' {
            lemma_records_joined(
                s.with_file(
                    Some(
                        FileView {
                            path: rest,
                            orig_path: None,
                            index: '?',
                            worktree: '?',
                            kind: FileKind::Untracked,
                        },
                    ),
                ),
                a,
                b,
                i + 1,
            );
        } else {
            lemma_records_joined(s, a, b, i + 1);
        }
    }
}

/// The records of two outputs, the first of whole records that each end in a NUL, are read
/// one after the other: the files are those of the first, then those of the second, in
/// their order, none lost and none twice.
pub proof fn law_status_of_joined_records(a: Seq<u8>, b: Seq<u8>)
    requires
        a.len() == 0 || a.last() == NUL,
        whole_records(ended_records(a), 0),
    ensures
        status_in(a + b).files == status_in(a).files + status_in(b).files,
        status_in(a + b) == status_in(a).with_records(record_texts(split(b, NUL)), 0),
{
    let e = StatusView::empty();
    let first = ended_records(a);
    let second = record_texts(split(b, NUL));
    let none = Seq::<u8>::empty();
    lemma_index_of_is(none, NUL, 0);
    assert(split(none, NUL) =~= seq![none]);
    if a.len() == 0 {
        assert(a =~= none);
        assert(a + b =~= b);
        assert(first =~= Seq::<Seq<char>>::empty());
        assert(record_texts(split(a + b, NUL)) =~= first + second);
        assert(record_texts(split(a, NUL)) =~= first + seq![Seq::<char>::empty()]);
    } else {
        let front = a.drop_last();
        law_split_of_joined(front, NUL, b);
        law_split_of_joined(front, NUL, none);
        assert(a + b =~= front + seq![NUL] + b);
        assert(a =~= front + seq![NUL] + none);
        assert(split(a, NUL).drop_last() =~= split(front, NUL));
        assert(record_texts(split(a + b, NUL)) =~= first + second);
        assert(record_texts(split(a, NUL)) =~= first + seq![Seq::<char>::empty()]);
    }
    lemma_records_joined(e, first, second, 0);
    lemma_records_joined(e, first, seq![Seq::<char>::empty()], 0);
    assert(e.with_records(first, 0).with_records(seq![Seq::<char>::empty()], 0) == e.with_records(first, 0)) by {
        reveal_with_fuel(StatusView::with_records, 2);
    }
    lemma_files_follow(e.with_records(first, 0), second, 0);
}

/// A file with the status letters `xy`.
fn entry(xy: &[char], path: &[char], orig_path: Option<String>, kind: FileKind) -> (r: FileEntry)
    ensures
        r@ == entry_of(xy@, path@, text_opt(orig_path), kind),
{
    let n: usize = xy.len();
    FileEntry {
        path: string_of(path),
        orig_path,
        index: if n > 0 {
            xy[0]
        } else {
            '.'
        },
        worktree: if n > 1 {
            xy[1]
        } else {
            '.'
        },
        kind,
    }
}

/// Adds a file whose record has `n` fields, if it has them all.
fn push_file(report: &mut StatusReport, rest: &[char], n: usize, orig: Option<String>, kind: FileKind)
    requires
        n > 0,
    ensures
        final(report)@ == old(report)@.with_file(
            file_of(splitn(rest@, n as nat, ' '), n as int, text_opt(orig), kind),
        ),
{
    let parts = split_upto(rest, n, ' ');
    let ghost all = views(parts@);
    if parts.len() == n {
        let ghost before = report.files@;
        assert(all[0] == parts@[0]@);
        assert(all[n - 1] == parts@[n - 1]@);
        let file = entry(parts[0], parts[n - 1], orig, kind);
        report.files.push(file);
        assert(file_views(report.files@) =~= file_views(before).push(file@));
    }
}

/// Reads the commits ahead and behind.
fn read_ahead_behind(value: &[char]) -> (r: Option<(u32, u32)>)
    ensures
        r == ahead_behind_of(value@),
{
    let parts = split_words(value);
    let ghost all = views(parts@);
    if parts.len() < 2 {
        return None;
    }
    assert(all[0] == parts@[0]@ && all[1] == parts@[1]@);
    match (read_u32(skipped_leading(parts[0], '+')), read_u32(skipped_leading(parts[1], '-'))) {
        (Some(ahead), Some(behind)) => Some((ahead, behind)),
        _ => None,
    }
}

/// Splits a header at its first space.
fn read_key_value<'a>(header: &'a [char]) -> (r: (&'a [char], &'a [char]))
    ensures
        (r.0@, r.1@) == key_value(header@),
{
    match split_first(header, ' ') {
        Some(parts) => parts,
        None => {
            let end: usize = header.len();
            let none = slice_subrange(header, end, end);
            assert(none@ =~= Seq::<char>::empty());
            (header, none)
        },
    }
}

/// Takes in a header line.
fn read_header(report: &mut StatusReport, header: &[char])
    ensures
        final(report)@ == old(report)@.with_header(header@),
{
    let (key, value) = read_key_value(header);
    if is_text(key, "branch.oid") {
        report.oid = if is_text(value, "(initial)") {
            None
        } else {
            Some(string_of(value))
        };
    } else if is_text(key, "branch.head") {
        report.branch = if is_text(value, "(detached)") {
            None
        } else {
            Some(string_of(value))
        };
    } else if is_text(key, "branch.upstream") {
        report.upstream = Some(string_of(value));
    } else if is_text(key, "branch.ab") {
        match read_ahead_behind(value) {
            Some(ab) => {
                report.ahead_behind = Some(ab);
            },
            None => {},
        }
    } else if is_text(key, "stash") {
        report.stash_count = match read_u32(trimmed(value)) {
            Some(n) => n,
            None => 0,
        };
    }
}

/// Reads the records that `git status --porcelain=v2 --branch --show-stash -z` printed.
pub fn status_records(records: &Vec<String>) -> (report: StatusReport)
    ensures
        report@ == StatusView::empty().with_records(texts(records@), 0),
{
    let ghost all = texts(records@);
    let mut report: StatusReport = StatusReport::default();
    let n: usize = records.len();
    let mut i: usize = 0;
    while i < n
        invariant
            i <= n,
            n == records@.len(),
            all == texts(records@),
            report@.with_records(all, i as int) == StatusView::empty().with_records(all, 0),
        decreases n - i,
    {
        let chars = chars_of(records[i].as_str());
        let record = chars.as_slice();
        assert(all[i as int] == record@);
        i = i + 1;
        let end: usize = record.len();
        if end == 0 {
            continue;
        }
        match after_text(record, "# ") {
            Some(header) => {
                read_header(&mut report, header);
                continue;
            },
            None => {},
        }
        let rest: &[char] = if end > 1 && record[1] == ' ' {
            slice_subrange(record, 2, end)
        } else {
            slice_subrange(record, 1, end)
        };
        assert(rest@ =~= after_tag(record@));
        let tag: char = record[0];
        if tag == '1' {
            push_file(&mut report, rest, 8, None, FileKind::Ordinary);
        } else if tag == '2' {
            let orig = if i < n {
                assert(all[i as int] == records@[i as int]@);
                let orig = records[i].clone();
                i = i + 1;
                Some(orig)
            } else {
                None
            };
            push_file(&mut report, rest, 9, orig, FileKind::Renamed);
        } else if tag == 'u' {
            push_file(&mut report, rest, 10, None, FileKind::Unmerged);
        } else if tag == '?' {
            let ghost before = report.files@;
            let file = FileEntry {
                path: string_of(rest),
                orig_path: None,
                index: '?',
                worktree: '?',
                kind: FileKind::Untracked,
            };
            report.files.push(file);
            assert(file_views(report.files@) =~= file_views(before).push(file@));
        }
    }
    report
}

/// Reads what `git status --porcelain=v2 --branch --show-stash -z` printed. Output that is
/// UTF-8 is read as its text.
pub fn status_v2(out: &[u8]) -> (report: StatusReport)
    ensures
        report@ == status_in(out@),
        valid_utf8(out@) ==> report@ == status_of(decode_utf8(out@)),
{
    let pieces = split_at(out, NUL);
    let ghost all = split(out@, NUL);
    proof {
        if valid_utf8(out@) {
            law_split_of_decoded(out@, NUL);
        }
    }
    let mut records: Vec<String> = Vec::new();
    let mut i: usize = 0;
    while i < pieces.len()
        invariant
            i <= pieces@.len(),
            all == views(pieces@),
            texts(records@) == record_texts(all.take(i as int)),
            valid_utf8(out@) ==> forall|k: int| 0 <= k < all.len() ==> valid_utf8(#[trigger] all[k]),
            valid_utf8(out@) ==> texts(records@) == decoded(all.take(i as int)),
        decreases pieces@.len() - i,
    {
        assert(all[i as int] == pieces@[i as int]@);
        let text = if pieces[i].len() == 0 {
            empty_text()
        } else {
            text_lossy(pieces[i])
        };
        assert(all.take(i + 1) =~= all.take(i as int).push(all[i as int]));
        assert(record_texts(all.take(i + 1)) =~= record_texts(all.take(i as int)).push(text@));
        assert(valid_utf8(out@) ==> text@ == decode_utf8(all[i as int]));
        assert(valid_utf8(out@) ==> decoded(all.take(i + 1)) =~= decoded(all.take(i as int)).push(text@));
        push_string(&mut records, text);
        i = i + 1;
    }
    assert(all.take(all.len() as int) =~= all);
    status_records(&records)
}

/// The commits ahead and behind in `ahead 1, behind 2`: the last count of each word wins.
pub open spec fn track_counts(parts: Seq<Seq<char>>) -> (u32, u32)
    decreases parts.len(),
{
    if parts.len() == 0 {
        (0, 0)
    } else {
        let (ahead, behind) = track_counts(parts.drop_last());
        let ws = words(parts.last());
        if ws.len() < 2 {
            (ahead, behind)
        } else {
            match parse_u32(ws[1]) {
                Some(n) => if ws[0] == "ahead"@ {
                    (n, behind)
                } else if ws[0] == "behind"@ {
                    (ahead, n)
                } else {
                    (ahead, behind)
                },
                None => (ahead, behind),
            }
        }
    }
}

/// What `%(upstream:short)` and `%(upstream:track,nobracket)` say.
pub open spec fn track_of(upstream: Seq<char>, track: Seq<char>) -> UpstreamView {
    if upstream.len() == 0 {
        UpstreamView::Unset
    } else if trim(track) == "gone"@ {
        UpstreamView::Gone { name: upstream }
    } else {
        let (ahead, behind) = track_counts(split(track, ','));
        UpstreamView::Tracking { name: upstream, ahead, behind }
    }
}

/// Reads `%(upstream:track,nobracket)`: `ahead 1, behind 2` / `ahead 1` / `gone` / empty.
pub fn upstream_track(upstream: &str, track: &str) -> (r: Upstream)
    ensures
        r@ == track_of(upstream@, track@),
{
    if upstream.is_empty() {
        return Upstream::Unset;
    }
    let chars = chars_of(track);
    if is_text(trimmed(&chars), "gone") {
        return Upstream::Gone { name: upstream.to_owned() };
    }
    let parts = split_at(chars.as_slice(), ',');
    let ghost all = split(track@, ',');
    let mut ahead: u32 = 0;
    let mut behind: u32 = 0;
    let mut i: usize = 0;
    assert(all.take(0) =~= Seq::<Seq<char>>::empty());
    while i < parts.len()
        invariant
            i <= parts@.len(),
            all == views(parts@),
            track_counts(all.take(i as int)) == (ahead, behind),
        decreases parts@.len() - i,
    {
        let ghost next = all.take(i + 1);
        assert(next.drop_last() =~= all.take(i as int));
        assert(next.last() == parts@[i as int]@);
        let ws = split_words(parts[i]);
        let ghost seen = views(ws@);
        if ws.len() >= 2 {
            assert(seen[0] == ws@[0]@ && seen[1] == ws@[1]@);
            match read_u32(ws[1]) {
                Some(n) => {
                    if is_text(ws[0], "ahead") {
                        ahead = n;
                    } else if is_text(ws[0], "behind") {
                        behind = n;
                    }
                },
                None => {},
            }
        }
        i = i + 1;
    }
    assert(all.take(all.len() as int) =~= all);
    Upstream::Tracking { name: upstream.to_owned(), ahead, behind }
}

/// The parts of [`branch_format`].
pub open spec fn branch_format_parts(base: Option<Seq<char>>) -> Seq<Seq<char>> {
    seq![
        "%(HEAD)"@,
        "%(refname:short)"@,
        "%(objectname:short)"@,
        "%(upstream:short)"@,
        "%(upstream:track,nobracket)"@,
        "%(committerdate:unix)"@,
        "%(subject)"@,
        match base {
            Some(b) => "%(ahead-behind:"@ + b + ")"@,
            None => Seq::empty(),
        },
        "%(worktreepath)"@,
    ]
}

/// Format for [`branches`]; `base` is the full default-branch ref, if any.
pub fn branch_format(base: Option<&str>) -> (r: String)
    ensures
        r@ == join(
            branch_format_parts(
                match base {
                    Some(b) => Some(b@),
                    None => None,
                },
            ),
            "%1f"@,
        ) + "%1e"@,
{
    let mut ahead_behind = String::new();
    match base {
        Some(b) => {
            ahead_behind.push_str("%(ahead-behind:");
            ahead_behind.push_str(b);
            ahead_behind.push_str(")");
            assert(ahead_behind@ =~= "%(ahead-behind:"@ + b@ + ")"@);
        },
        None => {
            assert(ahead_behind@ =~= Seq::<char>::empty());
        },
    }
    let ghost ab = ahead_behind@;
    let mut parts: Vec<String> = Vec::new();
    parts.push("%(HEAD)".to_owned());
    parts.push("%(refname:short)".to_owned());
    parts.push("%(objectname:short)".to_owned());
    parts.push("%(upstream:short)".to_owned());
    parts.push("%(upstream:track,nobracket)".to_owned());
    parts.push("%(committerdate:unix)".to_owned());
    parts.push("%(subject)".to_owned());
    parts.push(ahead_behind);
    parts.push("%(worktreepath)".to_owned());
    assert(texts(parts@) =~= branch_format_parts(
        match base {
            Some(b) => Some(b@),
            None => None,
        },
    ));
    let mut out = joined(&parts, "%1f");
    out.push_str("%1e");
    out
}

/// Two counts separated by white space.
pub open spec fn two_counts(text: Seq<char>) -> Option<(u32, u32)> {
    let ws = words(text);
    if ws.len() < 2 {
        None
    } else {
        match (parse_u32(ws[0]), parse_u32(ws[1])) {
            (Some(a), Some(b)) => Some((a, b)),
            _ => None,
        }
    }
}

/// `git rev-list --left-right --count A...B` as `(left, right)`.
pub fn left_right(out: &str) -> (r: Option<(u32, u32)>)
    ensures
        r == two_counts(out@),
{
    let chars = chars_of(out);
    let ws = split_words(&chars);
    let ghost seen = views(ws@);
    if ws.len() < 2 {
        return None;
    }
    assert(seen[0] == ws@[0]@ && seen[1] == ws@[1]@);
    match (read_u32(ws[0]), read_u32(ws[1])) {
        (Some(a), Some(b)) => Some((a, b)),
        _ => None,
    }
}

/// The branch a record of [`branch_format`] describes. Its worktree counts only if it is
/// not the current one.
pub open spec fn branch_of(fields: Seq<Seq<char>>, current: Option<Seq<u8>>) -> Option<BranchView> {
    if fields.len() != 9 {
        None
    } else {
        let worktree = vstd::utf8::encode_utf8(fields[8]);
        Some(
            BranchView {
                name: fields[1],
                is_head: fields[0] == "*"@,
                short_oid: fields[2],
                upstream: track_of(fields[3], fields[4]),
                base: two_counts(fields[7]),
                committed: time_of(fields[5]),
                subject: fields[6],
                worktree: if fields[8].len() == 0 || (current matches Some(c) && same_path(worktree, c)) {
                    None
                } else {
                    Some(worktree)
                },
            },
        )
    }
}

/// The branches that a text lists.
pub open spec fn branches_of(out: Seq<char>, current: Option<Seq<u8>>) -> Seq<BranchView> {
    filter_map(records_of(out), |r: Seq<Seq<char>>| branch_of(r, current))
}

/// The views of some branches.
pub open spec fn branch_views(branches: Seq<Branch>) -> Seq<BranchView> {
    branches.map_values(|b: Branch| b@)
}

/// The view of an optional path by reference.
pub open spec fn path_ref_opt(path: Option<&FsPath>) -> Option<Seq<u8>> {
    match path {
        Some(p) => Some(p@),
        None => None,
    }
}

/// Reads one branch.
fn read_branch(fields: &Vec<String>, current: Option<&FsPath>) -> (r: Option<Branch>)
    ensures
        match r {
            Some(b) => branch_of(texts(fields@), path_ref_opt(current)) == Some(b@),
            None => branch_of(texts(fields@), path_ref_opt(current)) is None,
        },
{
    if fields.len() != 9 {
        return None;
    }
    let path = FsPath::new(fields[8].as_str());
    let elsewhere = match current {
        Some(c) => !path.same(c),
        None => true,
    };
    let worktree = if fields[8].as_str().is_empty() || !elsewhere {
        None
    } else {
        Some(path)
    };
    Some(
        Branch {
            name: fields[1].clone(),
            is_head: crate::text::strings::same_str(fields[0].as_str(), "*"),
            short_oid: fields[2].clone(),
            upstream: upstream_track(fields[3].as_str(), fields[4].as_str()),
            base: left_right(fields[7].as_str()),
            committed: unix_time(fields[5].as_str()),
            subject: fields[6].clone(),
            worktree,
        },
    )
}

/// Reads what `git for-each-ref --format=<branch_format> refs/heads` printed.
pub fn branches(out: &str, current_worktree: Option<&FsPath>) -> (r: Vec<Branch>)
    ensures
        branch_views(r@) == branches_of(out@, path_ref_opt(current_worktree)),
{
    let all = records(out);
    let ghost recs = record_views(all@);
    let ghost f = |r: Seq<Seq<char>>| branch_of(r, path_ref_opt(current_worktree));
    let mut result: Vec<Branch> = Vec::new();
    let mut i: usize = 0;
    assert(recs.take(0) =~= Seq::<Seq<Seq<char>>>::empty());
    assert(branch_views(result@) =~= Seq::<BranchView>::empty());
    while i < all.len()
        invariant
            i <= all@.len(),
            recs == record_views(all@),
            f == (|r: Seq<Seq<char>>| branch_of(r, path_ref_opt(current_worktree))),
            branch_views(result@) == filter_map(recs.take(i as int), f),
        decreases all@.len() - i,
    {
        let ghost before = branch_views(result@);
        proof {
            lemma_filter_map_step(recs, f, i as int);
            assert(recs[i as int] == texts(all@[i as int]@));
        }
        match read_branch(&all[i], current_worktree) {
            Some(b) => {
                result.push(b);
                assert(branch_views(result@) =~= before.push(b@));
            },
            None => {},
        }
        i = i + 1;
    }
    assert(recs.take(recs.len() as int) =~= recs);
    result
}

/// The remote branch a record of [`REMOTE_BRANCH_FORMAT`] describes; a remote's `HEAD` is none.
pub open spec fn remote_branch_of(fields: Seq<Seq<char>>) -> Option<RemoteBranchView> {
    if fields.len() != 3 {
        None
    } else {
        match strip_prefix(fields[0], "refs/remotes/"@) {
            None => None,
            Some(short) => match split_once(short, '/') {
                None => None,
                Some((remote, name)) => if name == "HEAD"@ {
                    None
                } else {
                    Some(RemoteBranchView { remote, name, short_oid: fields[1], subject: fields[2] })
                },
            },
        }
    }
}

/// What a text lists.
pub open spec fn remote_branches_of(out: Seq<char>) -> Seq<RemoteBranchView> {
    filter_map(records_of(out), |r: Seq<Seq<char>>| remote_branch_of(r))
}

/// The views of a list.
pub open spec fn remote_branch_views(list: Seq<RemoteBranch>) -> Seq<RemoteBranchView> {
    list.map_values(|x: RemoteBranch| x@)
}

/// Reads one record.
fn read_remote_branch(fields: &Vec<String>) -> (r: Option<RemoteBranch>)
    ensures
        match r {
            Some(x) => remote_branch_of(texts(fields@)) == Some(x@),
            None => remote_branch_of(texts(fields@)) is None,
        },
{
    if fields.len() != 3 {
        return None;
    }
    let refname = chars_of(fields[0].as_str());
    match after_text(refname.as_slice(), "refs/remotes/") {
        None => None,
        Some(short) => match split_first(short, '/') {
            None => None,
            Some((remote, name)) => {
                if is_text(name, "HEAD") {
                    None
                } else {
                    Some(
                        RemoteBranch {
                            remote: string_of(remote),
                            name: string_of(name),
                            short_oid: fields[1].clone(),
                            subject: fields[2].clone(),
                        },
                    )
                }
            },
        },
    }
}

/// Reads what `git for-each-ref --format=REMOTE_BRANCH_FORMAT refs/remotes` printed.
pub fn remote_branches(out: &str) -> (r: Vec<RemoteBranch>)
    ensures
        remote_branch_views(r@) == remote_branches_of(out@),
{
    let all = records(out);
    let ghost recs = record_views(all@);
    let ghost f = |r: Seq<Seq<char>>| remote_branch_of(r);
    let mut result: Vec<RemoteBranch> = Vec::new();
    let mut i: usize = 0;
    assert(recs.take(0) =~= Seq::<Seq<Seq<char>>>::empty());
    assert(remote_branch_views(result@) =~= Seq::<RemoteBranchView>::empty());
    while i < all.len()
        invariant
            i <= all@.len(),
            recs == record_views(all@),
            f == (|r: Seq<Seq<char>>| remote_branch_of(r)),
            remote_branch_views(result@) == filter_map(recs.take(i as int), f),
        decreases all@.len() - i,
    {
        let ghost before = remote_branch_views(result@);
        proof {
            lemma_filter_map_step(recs, f, i as int);
            assert(recs[i as int] == texts(all@[i as int]@));
        }
        match read_remote_branch(&all[i]) {
            Some(x) => {
                result.push(x);
                assert(remote_branch_views(result@) =~= before.push(x@));
            },
            None => {},
        }
        i = i + 1;
    }
    assert(recs.take(recs.len() as int) =~= recs);
    result
}

/// The tag a record of [`TAG_FORMAT`] describes.
pub open spec fn tag_of(fields: Seq<Seq<char>>) -> Option<TagView> {
    if fields.len() != 3 {
        None
    } else {
        Some(TagView { name: fields[0], short_oid: fields[1], subject: fields[2] })
    }
}

/// What a text lists.
pub open spec fn tags_of(out: Seq<char>) -> Seq<TagView> {
    filter_map(records_of(out), |r: Seq<Seq<char>>| tag_of(r))
}

/// The views of a list.
pub open spec fn tag_views(list: Seq<Tag>) -> Seq<TagView> {
    list.map_values(|x: Tag| x@)
}

/// Reads one record.
fn read_tag(fields: &Vec<String>) -> (r: Option<Tag>)
    ensures
        match r {
            Some(x) => tag_of(texts(fields@)) == Some(x@),
            None => tag_of(texts(fields@)) is None,
        },
{
    if fields.len() != 3 {
        return None;
    }
    Some(
        Tag {
            name: fields[0].clone(),
            short_oid: fields[1].clone(),
            subject: fields[2].clone(),
        },
    )
}

/// Reads what `git for-each-ref --sort=-creatordate --format=TAG_FORMAT refs/tags` printed.
pub fn tags(out: &str) -> (r: Vec<Tag>)
    ensures
        tag_views(r@) == tags_of(out@),
{
    let all = records(out);
    let ghost recs = record_views(all@);
    let ghost f = |r: Seq<Seq<char>>| tag_of(r);
    let mut result: Vec<Tag> = Vec::new();
    let mut i: usize = 0;
    assert(recs.take(0) =~= Seq::<Seq<Seq<char>>>::empty());
    assert(tag_views(result@) =~= Seq::<TagView>::empty());
    while i < all.len()
        invariant
            i <= all@.len(),
            recs == record_views(all@),
            f == (|r: Seq<Seq<char>>| tag_of(r)),
            tag_views(result@) == filter_map(recs.take(i as int), f),
        decreases all@.len() - i,
    {
        let ghost before = tag_views(result@);
        proof {
            lemma_filter_map_step(recs, f, i as int);
            assert(recs[i as int] == texts(all@[i as int]@));
        }
        match read_tag(&all[i]) {
            Some(x) => {
                result.push(x);
                assert(tag_views(result@) =~= before.push(x@));
            },
            None => {},
        }
        i = i + 1;
    }
    assert(recs.take(recs.len() as int) =~= recs);
    result
}

/// The commit a record of [`LOG_FORMAT`] describes.
pub open spec fn commit_of(fields: Seq<Seq<char>>) -> Option<CommitView> {
    if fields.len() != 6 {
        None
    } else {
        Some(
            CommitView {
                oid: fields[0],
                short_oid: fields[1],
                author: fields[2],
                time: time_of(fields[3]),
                subject: fields[5],
                refs: fields[4],
            },
        )
    }
}

/// What a text lists.
pub open spec fn log_of(out: Seq<char>) -> Seq<CommitView> {
    filter_map(records_of(out), |r: Seq<Seq<char>>| commit_of(r))
}

/// The views of a list.
pub open spec fn commit_views(list: Seq<Commit>) -> Seq<CommitView> {
    list.map_values(|x: Commit| x@)
}

/// Reads one record.
fn read_commit(fields: &Vec<String>) -> (r: Option<Commit>)
    ensures
        match r {
            Some(x) => commit_of(texts(fields@)) == Some(x@),
            None => commit_of(texts(fields@)) is None,
        },
{
    if fields.len() != 6 {
        return None;
    }
    Some(
        Commit {
            oid: fields[0].clone(),
            short_oid: fields[1].clone(),
            author: fields[2].clone(),
            time: unix_time(fields[3].as_str()),
            subject: fields[5].clone(),
            refs: fields[4].clone(),
        },
    )
}

/// Reads what `git log --format=LOG_FORMAT` printed.
pub fn log(out: &str) -> (r: Vec<Commit>)
    ensures
        commit_views(r@) == log_of(out@),
{
    let all = records(out);
    let ghost recs = record_views(all@);
    let ghost f = |r: Seq<Seq<char>>| commit_of(r);
    let mut result: Vec<Commit> = Vec::new();
    let mut i: usize = 0;
    assert(recs.take(0) =~= Seq::<Seq<Seq<char>>>::empty());
    assert(commit_views(result@) =~= Seq::<CommitView>::empty());
    while i < all.len()
        invariant
            i <= all@.len(),
            recs == record_views(all@),
            f == (|r: Seq<Seq<char>>| commit_of(r)),
            commit_views(result@) == filter_map(recs.take(i as int), f),
        decreases all@.len() - i,
    {
        let ghost before = commit_views(result@);
        proof {
            lemma_filter_map_step(recs, f, i as int);
            assert(recs[i as int] == texts(all@[i as int]@));
        }
        match read_commit(&all[i]) {
            Some(x) => {
                result.push(x);
                assert(commit_views(result@) =~= before.push(x@));
            },
            None => {},
        }
        i = i + 1;
    }
    assert(recs.take(recs.len() as int) =~= recs);
    result
}

/// The entry a record of [`REFLOG_FORMAT`] describes.
pub open spec fn reflog_entry_of(fields: Seq<Seq<char>>) -> Option<ReflogView> {
    if fields.len() != 4 {
        None
    } else {
        Some(
            ReflogView {
                short_oid: fields[0],
                selector: fields[1],
                subject: fields[2],
                time: time_of(fields[3]),
            },
        )
    }
}

/// What a text lists.
pub open spec fn reflog_of(out: Seq<char>) -> Seq<ReflogView> {
    filter_map(records_of(out), |r: Seq<Seq<char>>| reflog_entry_of(r))
}

/// The views of a list.
pub open spec fn reflog_views(list: Seq<ReflogEntry>) -> Seq<ReflogView> {
    list.map_values(|x: ReflogEntry| x@)
}

/// Reads one record.
fn read_reflog_entry(fields: &Vec<String>) -> (r: Option<ReflogEntry>)
    ensures
        match r {
            Some(x) => reflog_entry_of(texts(fields@)) == Some(x@),
            None => reflog_entry_of(texts(fields@)) is None,
        },
{
    if fields.len() != 4 {
        return None;
    }
    Some(
        ReflogEntry {
            short_oid: fields[0].clone(),
            selector: fields[1].clone(),
            subject: fields[2].clone(),
            time: unix_time(fields[3].as_str()),
        },
    )
}

/// Reads what `git reflog --format=REFLOG_FORMAT` printed.
pub fn reflog(out: &str) -> (r: Vec<ReflogEntry>)
    ensures
        reflog_views(r@) == reflog_of(out@),
{
    let all = records(out);
    let ghost recs = record_views(all@);
    let ghost f = |r: Seq<Seq<char>>| reflog_entry_of(r);
    let mut result: Vec<ReflogEntry> = Vec::new();
    let mut i: usize = 0;
    assert(recs.take(0) =~= Seq::<Seq<Seq<char>>>::empty());
    assert(reflog_views(result@) =~= Seq::<ReflogView>::empty());
    while i < all.len()
        invariant
            i <= all@.len(),
            recs == record_views(all@),
            f == (|r: Seq<Seq<char>>| reflog_entry_of(r)),
            reflog_views(result@) == filter_map(recs.take(i as int), f),
        decreases all@.len() - i,
    {
        let ghost before = reflog_views(result@);
        proof {
            lemma_filter_map_step(recs, f, i as int);
            assert(recs[i as int] == texts(all@[i as int]@));
        }
        match read_reflog_entry(&all[i]) {
            Some(x) => {
                result.push(x);
                assert(reflog_views(result@) =~= before.push(x@));
            },
            None => {},
        }
        i = i + 1;
    }
    assert(recs.take(recs.len() as int) =~= recs);
    result
}

/// The number of a stash in `stash@{1}`.
pub open spec fn stash_index(selector: Seq<char>) -> Option<nat> {
    match strip_prefix(selector, "stash@{"@) {
        None => None,
        Some(rest) => match strip_suffix(rest, "}"@) {
            None => None,
            Some(number) => parse_number(number, usize::MAX as nat),
        },
    }
}

/// Reads the number of a stash.
fn read_stash_index(selector: &str) -> (r: Option<usize>)
    ensures
        match r {
            Some(n) => stash_index(selector@) == Some(n as nat),
            None => stash_index(selector@) is None,
        },
{
    let chars = chars_of(selector);
    match after_text(chars.as_slice(), "stash@{") {
        None => None,
        Some(rest) => match before_text(rest, "}") {
            None => None,
            Some(number) => match read_chars(number, usize::MAX as u64) {
                Some(n) => Some(n as usize),
                None => None,
            },
        },
    }
}

/// The stash a record of [`STASH_FORMAT`] describes.
pub open spec fn stash_of(fields: Seq<Seq<char>>) -> Option<StashView> {
    if fields.len() != 3 {
        None
    } else {
        match stash_index(fields[0]) {
            Some(index) => Some(StashView { index, subject: fields[2], time: time_of(fields[1]) }),
            None => None,
        }
    }
}

/// What a text lists.
pub open spec fn stashes_of(out: Seq<char>) -> Seq<StashView> {
    filter_map(records_of(out), |r: Seq<Seq<char>>| stash_of(r))
}

/// The views of a list.
pub open spec fn stash_views(list: Seq<StashEntry>) -> Seq<StashView> {
    list.map_values(|x: StashEntry| x@)
}

/// Reads one record.
fn read_stash(fields: &Vec<String>) -> (r: Option<StashEntry>)
    ensures
        match r {
            Some(x) => stash_of(texts(fields@)) == Some(x@),
            None => stash_of(texts(fields@)) is None,
        },
{
    if fields.len() != 3 {
        return None;
    }
    match read_stash_index(fields[0].as_str()) {
        Some(index) => Some(
            StashEntry {
                index,
                subject: fields[2].clone(),
                time: unix_time(fields[1].as_str()),
            },
        ),
        None => None,
    }
}

/// Reads what `git stash list --format=STASH_FORMAT` printed.
pub fn stashes(out: &str) -> (r: Vec<StashEntry>)
    ensures
        stash_views(r@) == stashes_of(out@),
{
    let all = records(out);
    let ghost recs = record_views(all@);
    let ghost f = |r: Seq<Seq<char>>| stash_of(r);
    let mut result: Vec<StashEntry> = Vec::new();
    let mut i: usize = 0;
    assert(recs.take(0) =~= Seq::<Seq<Seq<char>>>::empty());
    assert(stash_views(result@) =~= Seq::<StashView>::empty());
    while i < all.len()
        invariant
            i <= all@.len(),
            recs == record_views(all@),
            f == (|r: Seq<Seq<char>>| stash_of(r)),
            stash_views(result@) == filter_map(recs.take(i as int), f),
        decreases all@.len() - i,
    {
        let ghost before = stash_views(result@);
        proof {
            lemma_filter_map_step(recs, f, i as int);
            assert(recs[i as int] == texts(all@[i as int]@));
        }
        match read_stash(&all[i]) {
            Some(x) => {
                result.push(x);
                assert(stash_views(result@) =~= before.push(x@));
            },
            None => {},
        }
        i = i + 1;
    }
    assert(recs.take(recs.len() as int) =~= recs);
    result
}

/// Whether a remote of that name is listed.
pub open spec fn lists_remote(remotes: Seq<RemoteView>, name: Seq<char>) -> bool {
    exists|i: int| 0 <= i < remotes.len() && (#[trigger] remotes[i]).name == name
}

/// The remotes that some lines list: the first URL of each name.
pub open spec fn remotes_in(lines: Seq<Seq<char>>) -> Seq<RemoteView>
    decreases lines.len(),
{
    if lines.len() == 0 {
        Seq::empty()
    } else {
        let before = remotes_in(lines.drop_last());
        let ws = words(lines.last());
        if ws.len() < 2 || lists_remote(before, ws[0]) {
            before
        } else {
            before.push(RemoteView { name: ws[0], url: ws[1] })
        }
    }
}

/// The remotes that `git remote -v` lists.
pub open spec fn remotes_of(out: Seq<char>) -> Seq<RemoteView> {
    remotes_in(crate::text::strings::lines(out))
}

/// The views of some remotes.
pub open spec fn remote_views(remotes: Seq<Remote>) -> Seq<RemoteView> {
    remotes.map_values(|r: Remote| r@)
}

/// Whether a remote of that name is among them.
fn has_remote(remotes: &Vec<Remote>, name: &[char]) -> (r: bool)
    ensures
        r == lists_remote(remote_views(remotes@), name@),
{
    let mut i: usize = 0;
    while i < remotes.len()
        invariant
            i <= remotes@.len(),
            forall|j: int| 0 <= j < i ==> (#[trigger] remote_views(remotes@)[j]).name != name@,
        decreases remotes@.len() - i,
    {
        if is_text(name, remotes[i].name.as_str()) {
            assert(remote_views(remotes@)[i as int].name == name@);
            return true;
        }
        i = i + 1;
    }
    false
}

/// Reads what `git remote -v` printed.
pub fn remotes(out: &str) -> (r: Vec<Remote>)
    ensures
        remote_views(r@) == remotes_of(out@),
{
    let chars = chars_of(out);
    let all = split_lines(chars.as_slice());
    let ghost ls = views(all@);
    let mut result: Vec<Remote> = Vec::new();
    let mut i: usize = 0;
    assert(ls.take(0) =~= Seq::<Seq<char>>::empty());
    assert(remote_views(result@) =~= Seq::<RemoteView>::empty());
    while i < all.len()
        invariant
            i <= all@.len(),
            ls == views(all@),
            remote_views(result@) == remotes_in(ls.take(i as int)),
        decreases all@.len() - i,
    {
        let ghost next = ls.take(i + 1);
        let ghost before = remote_views(result@);
        assert(next.drop_last() =~= ls.take(i as int));
        assert(next.last() == all@[i as int]@);
        let ws = split_words(all[i]);
        let ghost seen = views(ws@);
        if ws.len() >= 2 {
            assert(seen[0] == ws@[0]@ && seen[1] == ws@[1]@);
            if !has_remote(&result, ws[0]) {
                let remote = Remote { name: string_of(ws[0]), url: string_of(ws[1]) };
                result.push(remote);
                assert(remote_views(result@) =~= before.push(remote@));
            }
        }
        i = i + 1;
    }
    assert(ls.take(ls.len() as int) =~= ls);
    result
}

/// No remote is listed twice.
pub proof fn law_remotes_are_distinct(lines: Seq<Seq<char>>, i: int, j: int)
    requires
        0 <= i < j < remotes_in(lines).len(),
    ensures
        remotes_in(lines)[i].name != remotes_in(lines)[j].name,
    decreases lines.len(),
{
    let before = remotes_in(lines.drop_last());
    let all = remotes_in(lines);
    if j < before.len() {
        law_remotes_are_distinct(lines.drop_last(), i, j);
    } else {
        assert(all[i] == before[i]);
    }
}

/// The submodule that a line of `git submodule status` describes.
pub open spec fn submodule_of(line: Seq<char>) -> Option<SubmoduleView> {
    if line.len() == 0 {
        None
    } else {
        let ws = words(line.drop_first());
        if ws.len() < 2 {
            None
        } else {
            Some(
                SubmoduleView {
                    path: ws[1],
                    short_oid: if ws[0].len() > 7 {
                        ws[0].take(7)
                    } else {
                        ws[0]
                    },
                    state: line[0],
                },
            )
        }
    }
}

/// The submodules that a text lists.
pub open spec fn submodules_of(out: Seq<char>) -> Seq<SubmoduleView> {
    filter_map(crate::text::strings::lines(out), |l: Seq<char>| submodule_of(l))
}

/// The views of some submodules.
pub open spec fn submodule_views(list: Seq<Submodule>) -> Seq<SubmoduleView> {
    list.map_values(|x: Submodule| x@)
}

/// Reads one line.
fn read_submodule(line: &[char]) -> (r: Option<Submodule>)
    ensures
        match r {
            Some(x) => submodule_of(line@) == Some(x@),
            None => submodule_of(line@) is None,
        },
{
    let end: usize = line.len();
    if end == 0 {
        return None;
    }
    let rest = slice_subrange(line, 1, end);
    assert(rest@ =~= line@.drop_first());
    let ws = split_words(rest);
    let ghost seen = views(ws@);
    if ws.len() < 2 {
        return None;
    }
    assert(seen[0] == ws@[0]@ && seen[1] == ws@[1]@);
    let short_oid = if ws[0].len() > 7 {
        string_of(slice_subrange(ws[0], 0, 7))
    } else {
        string_of(ws[0])
    };
    Some(Submodule { path: string_of(ws[1]), short_oid, state: line[0] })
}

/// Reads what `git submodule status` printed.
pub fn submodules(out: &str) -> (r: Vec<Submodule>)
    ensures
        submodule_views(r@) == submodules_of(out@),
{
    let chars = chars_of(out);
    let all = split_lines(chars.as_slice());
    let ghost ls = views(all@);
    let ghost f = |l: Seq<char>| submodule_of(l);
    let mut result: Vec<Submodule> = Vec::new();
    let mut i: usize = 0;
    assert(ls.take(0) =~= Seq::<Seq<char>>::empty());
    assert(submodule_views(result@) =~= Seq::<SubmoduleView>::empty());
    while i < all.len()
        invariant
            i <= all@.len(),
            ls == views(all@),
            f == (|l: Seq<char>| submodule_of(l)),
            submodule_views(result@) == filter_map(ls.take(i as int), f),
        decreases all@.len() - i,
    {
        let ghost before = submodule_views(result@);
        proof {
            lemma_filter_map_step(ls, f, i as int);
            assert(ls[i as int] == all@[i as int]@);
        }
        match read_submodule(all[i]) {
            Some(x) => {
                result.push(x);
                assert(submodule_views(result@) =~= before.push(x@));
            },
            None => {},
        }
        i = i + 1;
    }
    assert(ls.take(ls.len() as int) =~= ls);
    result
}

/// The worktrees seen so far: those that are complete, and the one being read.
#[verifier::ext_equal]
pub ghost struct WorktreesView {
    pub done: Seq<WorktreeView>,
    pub open: Option<WorktreeView>,
}

impl WorktreesView {
    /// All worktrees, with the one being read.
    pub open spec fn all(self) -> Seq<WorktreeView> {
        match self.open {
            Some(w) => self.done.push(w),
            None => self.done,
        }
    }

    /// What one more field says. An empty field or a new worktree ends the one before.
    pub open spec fn with_field(self, field: Seq<char>, current: Seq<u8>) -> WorktreesView {
        let (key, value) = key_value(field);
        if field.len() == 0 {
            WorktreesView { done: self.all(), open: None }
        } else if key == "worktree"@ {
            let path = vstd::utf8::encode_utf8(value);
            WorktreesView {
                done: self.all(),
                open: Some(
                    WorktreeView {
                        path,
                        head: None,
                        branch: None,
                        bare: false,
                        is_current: same_path(path, current),
                    },
                ),
            }
        } else {
            match self.open {
                None => self,
                Some(w) => WorktreesView {
                    done: self.done,
                    open: Some(
                        if key == "HEAD"@ {
                            WorktreeView { head: Some(value), ..w }
                        } else if key == "branch"@ {
                            WorktreeView { branch: Some(strip_all(value, "refs/heads/"@)), ..w }
                        } else if key == "bare"@ {
                            WorktreeView { bare: true, ..w }
                        } else {
                            w
                        },
                    ),
                },
            }
        }
    }
}

/// The worktrees that some fields describe.
pub open spec fn worktrees_in(fields: Seq<Seq<char>>, current: Seq<u8>) -> WorktreesView
    decreases fields.len(),
{
    if fields.len() == 0 {
        WorktreesView { done: Seq::empty(), open: None }
    } else {
        worktrees_in(fields.drop_last(), current).with_field(fields.last(), current)
    }
}

/// The worktrees that a text of `git worktree list --porcelain -z` describes.
pub open spec fn worktrees_of(text: Seq<char>, current: Seq<u8>) -> Seq<WorktreeView> {
    worktrees_in(split(text, '\0'), current).all()
}

/// The views of some worktrees.
pub open spec fn worktree_views(list: Seq<Worktree>) -> Seq<WorktreeView> {
    list.map_values(|x: Worktree| x@)
}

/// The view of an optional worktree.
pub open spec fn worktree_opt(w: Option<Worktree>) -> Option<WorktreeView> {
    match w {
        Some(w) => Some(w@),
        None => None,
    }
}

/// Adds the worktree being read to those that are complete.
fn finish_worktree(result: &mut Vec<Worktree>, open: Option<Worktree>)
    ensures
        worktree_views(final(result)@) == (WorktreesView {
            done: worktree_views(old(result)@),
            open: worktree_opt(open),
        }).all(),
{
    match open {
        Some(w) => {
            let ghost before = worktree_views(result@);
            result.push(w);
            assert(worktree_views(result@) =~= before.push(w@));
        },
        None => {},
    }
}

/// Takes in one more field of the worktree being read.
fn update_worktree(open: Option<Worktree>, key: &[char], value: &[char]) -> (r: Option<Worktree>)
    ensures
        worktree_opt(r) == (match worktree_opt(open) {
            None => None,
            Some(w) => Some(
                if key@ == "HEAD"@ {
                    WorktreeView { head: Some(value@), ..w }
                } else if key@ == "branch"@ {
                    WorktreeView { branch: Some(strip_all(value@, "refs/heads/"@)), ..w }
                } else if key@ == "bare"@ {
                    WorktreeView { bare: true, ..w }
                } else {
                    w
                },
            ),
        }),
{
    match open {
        None => None,
        Some(wt) => {
            let mut w = wt;
            if is_text(key, "HEAD") {
                w.head = Some(string_of(value));
            } else if is_text(key, "branch") {
                let prefix = chars_of("refs/heads/");
                w.branch = Some(string_of(stripped_all(value, prefix.as_slice())));
            } else if is_text(key, "bare") {
                w.bare = true;
            }
            Some(w)
        },
    }
}

/// Reads what `git worktree list --porcelain -z` printed, as text.
pub fn worktrees_text(text: &str, current: &FsPath) -> (r: Vec<Worktree>)
    ensures
        worktree_views(r@) == worktrees_of(text@, current@),
{
    let chars = chars_of(text);
    let fields = split_at(chars.as_slice(), '\0');
    let ghost all = views(fields@);
    let mut result: Vec<Worktree> = Vec::new();
    let mut open: Option<Worktree> = None;
    let mut i: usize = 0;
    assert(all.take(0) =~= Seq::<Seq<char>>::empty());
    assert(worktree_views(result@) =~= Seq::<WorktreeView>::empty());
    while i < fields.len()
        invariant
            i <= fields@.len(),
            all == views(fields@),
            worktrees_in(all.take(i as int), current@) == (WorktreesView {
                done: worktree_views(result@),
                open: worktree_opt(open),
            }),
        decreases fields@.len() - i,
    {
        let field = fields[i];
        let ghost next = all.take(i + 1);
        assert(next.drop_last() =~= all.take(i as int));
        assert(next.last() == field@);
        let (key, value) = read_key_value(field);
        if field.len() == 0 {
            finish_worktree(&mut result, open);
            open = None;
        } else if is_text(key, "worktree") {
            finish_worktree(&mut result, open);
            let name = string_of(value);
            let path = FsPath::new(name.as_str());
            open = Some(
                Worktree {
                    is_current: path.same(current),
                    path,
                    head: None,
                    branch: None,
                    bare: false,
                },
            );
        } else {
            open = update_worktree(open, key, value);
        }
        i = i + 1;
    }
    assert(all.take(all.len() as int) =~= all);
    finish_worktree(&mut result, open);
    result
}

/// Reads what `git worktree list --porcelain -z` printed.
pub fn worktrees(out: &[u8], current: &FsPath) -> (r: Vec<Worktree>)
    ensures
        worktree_views(r@) == worktrees_of(lossy_text(out@), current@),
{
    let text = text_lossy(out);
    worktrees_text(text.as_str(), current)
}

} // verus!
