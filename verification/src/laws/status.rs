//! What `git status` and its kin print is what is shown of the files, the remotes, the
//! submodules and the worktrees.

use vstd::prelude::*;

use crate::git::parse::{
    lists_remote, remotes_in, submodule_of, worktrees_in, WorktreesView,
};
use crate::laws::text::{
    law_numbers_are_read_back, law_split_once, law_two_words, law_white_space_makes_no_words,
    law_words_are_read_one_by_one, lemma_decimal_has_no_space, no_space,
};
use crate::model::{
    count_files, lemma_count_files, no_changes, FileKind, FileView, HeadView, OpView, RemoteView, StatusView,
    SubmoduleView, SummaryView, UpstreamView, WorktreeView,
};
use crate::path::same_path;
use crate::text::number::decimal;
use crate::text::seqs::{skip_leading, split_once, splitn, strip_all};
use crate::text::strings::{is_space, words};

verus! {

/// Texts with a space after each but the last.
pub open spec fn spaced(parts: Seq<Seq<char>>) -> Seq<char>
    decreases parts.len(),
{
    if parts.len() == 0 {
        Seq::empty()
    } else if parts.len() == 1 {
        parts[0]
    } else {
        parts[0] + seq![' '] + spaced(parts.drop_first())
    }
}

proof fn lemma_splitn_of_spaced(parts: Seq<Seq<char>>)
    requires
        parts.len() > 0,
        forall|i: int| 0 <= i < parts.len() - 1 ==> !(#[trigger] parts[i]).contains(' '),
    ensures
        splitn(spaced(parts), parts.len(), ' ') == parts,
    decreases parts.len(),
{
    if parts.len() == 1 {
        assert(parts =~= seq![parts[0]]);
    } else {
        let rest = parts.drop_first();
        assert forall|i: int| 0 <= i < rest.len() - 1 implies !(#[trigger] rest[i]).contains(' ') by {
            assert(rest[i] == parts[i + 1]);
        }
        lemma_splitn_of_spaced(rest);
        law_split_once(parts[0], ' ', spaced(rest));
        assert(seq![parts[0]] + rest =~= parts);
    }
}

/// What git prints of a file: a tag, the two status letters, fields in between and the path.
pub open spec fn file_record(tag: char, x: char, y: char, fields: Seq<Seq<char>>, path: Seq<char>) -> Seq<char> {
    seq![tag, ' '] + spaced(seq![seq![x, y]] + fields + seq![path])
}

/// Whether fields have no space in them.
pub open spec fn spaceless(fields: Seq<Seq<char>>) -> bool {
    forall|i: int| 0 <= i < fields.len() ==> !(#[trigger] fields[i]).contains(' ')
}

proof fn lemma_file_record(tag: char, x: char, y: char, fields: Seq<Seq<char>>, path: Seq<char>)
    requires
        x != ' ',
        y != ' ',
        tag != '#',
        spaceless(fields),
    ensures
        ({
            let record = file_record(tag, x, y, fields, path);
            let parts = seq![seq![x, y]] + fields + seq![path];
            &&& record.len() > 0 && record[0] == tag
            &&& !"# "@.is_prefix_of(record)
            &&& splitn(crate::git::parse::after_tag(record), (fields.len() + 2) as nat, ' ') == parts
        }),
{
    reveal_strlit("# ");
    assert("# "@.len() == 2);
    let record = file_record(tag, x, y, fields, path);
    let parts = seq![seq![x, y]] + fields + seq![path];
    assert forall|i: int| 0 <= i < parts.len() - 1 implies !(#[trigger] parts[i]).contains(' ') by {
        if i > 0 {
            assert(parts[i] == fields[i - 1]);
        }
    }
    lemma_splitn_of_spaced(parts);
    assert(record.drop_first()[0] == ' ');
    assert(record.drop_first().drop_first() =~= spaced(parts));
    assert("# "@[0] == '#');
    assert(parts.len() == fields.len() + 2);
}

proof fn lemma_one_record(s: StatusView, record: Seq<char>)
    ensures
        s.with_records(Seq::<Seq<char>>::empty(), 0) == s,
        s.with_records(seq![record], 1) == s,
        s.with_records(seq![record, record], 2) == s,
{
}

/// A changed file is listed with its path, as git prints it, and its two letters: the first
/// tells of the index, the second of the worktree.
pub proof fn law_changed_files_are_listed(s: StatusView, x: char, y: char, fields: Seq<Seq<char>>, path: Seq<char>)
    requires
        x != ' ',
        y != ' ',
        spaceless(fields),
        fields.len() == 6,
    ensures
        s.with_records(seq![file_record('1', x, y, fields, path)], 0).files == s.files.push(
            FileView { path, orig_path: None, index: x, worktree: y, kind: FileKind::Ordinary },
        ),
{
    let record = file_record('1', x, y, fields, path);
    lemma_file_record('1', x, y, fields, path);
    let parts = seq![seq![x, y]] + fields + seq![path];
    assert(parts[0] == seq![x, y]);
    assert(parts[7] == path);
    assert(seq![record][0] == record);
    let file = FileView { path, orig_path: None, index: x, worktree: y, kind: FileKind::Ordinary };
    lemma_one_record(s.with_file(Some(file)), record);
}

/// A renamed file is listed at its new path, with the old one, which git prints next.
pub proof fn law_renamed_files_are_listed(
    s: StatusView,
    x: char,
    y: char,
    fields: Seq<Seq<char>>,
    path: Seq<char>,
    orig: Seq<char>,
)
    requires
        x != ' ',
        y != ' ',
        spaceless(fields),
        fields.len() == 7,
    ensures
        s.with_records(seq![file_record('2', x, y, fields, path), orig], 0).files == s.files.push(
            FileView { path, orig_path: Some(orig), index: x, worktree: y, kind: FileKind::Renamed },
        ),
{
    let record = file_record('2', x, y, fields, path);
    lemma_file_record('2', x, y, fields, path);
    let parts = seq![seq![x, y]] + fields + seq![path];
    assert(parts[0] == seq![x, y]);
    assert(parts[8] == path);
    let records = seq![record, orig];
    assert(records[0] == record && records[1] == orig);
    let file = FileView { path, orig_path: Some(orig), index: x, worktree: y, kind: FileKind::Renamed };
    let next = s.with_file(Some(file));
    assert(next.with_records(records, 2) == next);
}

/// A file with a conflict is listed as one.
pub proof fn law_conflicts_are_listed(s: StatusView, x: char, y: char, fields: Seq<Seq<char>>, path: Seq<char>)
    requires
        x != ' ',
        y != ' ',
        spaceless(fields),
        fields.len() == 8,
    ensures
        s.with_records(seq![file_record('u', x, y, fields, path)], 0).files == s.files.push(
            FileView { path, orig_path: None, index: x, worktree: y, kind: FileKind::Unmerged },
        ),
{
    let record = file_record('u', x, y, fields, path);
    lemma_file_record('u', x, y, fields, path);
    let parts = seq![seq![x, y]] + fields + seq![path];
    assert(parts[0] == seq![x, y]);
    assert(parts[9] == path);
    assert(seq![record][0] == record);
    let file = FileView { path, orig_path: None, index: x, worktree: y, kind: FileKind::Unmerged };
    lemma_one_record(s.with_file(Some(file)), record);
}

/// A file that git doesn't track is listed under its whole path; one that it ignores isn't.
pub proof fn law_untracked_files_are_listed(s: StatusView, path: Seq<char>)
    ensures
        s.with_records(seq![seq!['?', ' '] + path], 0).files == s.files.push(
            FileView { path, orig_path: None, index: '?', worktree: '?', kind: FileKind::Untracked },
        ),
        s.with_records(seq![seq!['!', ' '] + path], 0) == s,
{
    reveal_strlit("# ");
    assert("# "@.len() == 2);
    assert("# "@[0] == '#');
    let a = seq!['?', ' '] + path;
    let b = seq!['!', ' '] + path;
    assert(seq![a][0] == a && seq![b][0] == b);
    assert(a[0] == '?' && b[0] == '!');
    assert(a.drop_first()[0] == ' ');
    assert(a.drop_first().drop_first() =~= path);
    assert(!"# "@.is_prefix_of(a) && !"# "@.is_prefix_of(b));
    let file = FileView { path, orig_path: None, index: '?', worktree: '?', kind: FileKind::Untracked };
    lemma_one_record(s.with_file(Some(file)), a);
    lemma_one_record(s, b);
}

proof fn lemma_header(s: StatusView, key: Seq<char>, value: Seq<char>)
    requires
        !key.contains(' '),
    ensures
        ({
            let record = seq!['#', ' '] + key + seq![' '] + value;
            &&& s.with_records(seq![record], 0) == s.with_header(key + seq![' '] + value)
            &&& crate::git::parse::key_value(key + seq![' '] + value) == (key, value)
        }),
{
    reveal_strlit("# ");
    assert("# "@.len() == 2);
    let record = seq!['#', ' '] + key + seq![' '] + value;
    let header = key + seq![' '] + value;
    assert(seq!['#', ' '] =~= "# "@);
    assert(record =~= "# "@ + header);
    assert(record.take(2) =~= "# "@);
    assert("# "@.is_prefix_of(record));
    assert(record.skip(2) =~= header);
    assert(seq![record][0] == record);
    law_split_once(key, ' ', value);
    lemma_one_record(s.with_header(header), record);
}

/// The header lines tell the commit, the branch and the upstream as they stand, and that
/// there is no commit yet, or no branch.
pub proof fn law_headers_tell_the_branch(s: StatusView, value: Seq<char>)
    ensures
        ({
            let oid = s.with_records(seq![seq!['#', ' '] + "branch.oid"@ + seq![' '] + value], 0);
            let head = s.with_records(seq![seq!['#', ' '] + "branch.head"@ + seq![' '] + value], 0);
            let upstream = s.with_records(seq![seq!['#', ' '] + "branch.upstream"@ + seq![' '] + value], 0);
            &&& oid == (StatusView {
                oid: if value == "(initial)"@ {
                    None
                } else {
                    Some(value)
                },
                ..s
            })
            &&& head == (StatusView {
                branch: if value == "(detached)"@ {
                    None
                } else {
                    Some(value)
                },
                ..s
            })
            &&& upstream == (StatusView { upstream: Some(value), ..s })
        }),
{
    reveal_strlit("branch.oid");
    assert("branch.oid"@.len() == 10);
    reveal_strlit("branch.head");
    assert("branch.head"@.len() == 11);
    reveal_strlit("branch.upstream");
    assert("branch.upstream"@.len() == 15);
    reveal_strlit("branch.ab");
    assert("branch.ab"@.len() == 9);
    reveal_strlit("stash");
    assert("stash"@.len() == 5);
    assert(!"branch.oid"@.contains(' '));
    assert(!"branch.head"@.contains(' '));
    assert(!"branch.upstream"@.contains(' '));
    lemma_header(s, "branch.oid"@, value);
    lemma_header(s, "branch.head"@, value);
    lemma_header(s, "branch.upstream"@, value);
}

/// The header lines count the commits ahead and behind, in this order, and the stashes.
pub proof fn law_headers_count(s: StatusView, ahead: u32, behind: u32, stashes: u32)
    ensures
        ({
            let ab = seq!['+'] + decimal(ahead as nat) + seq![' '] + (seq!['-'] + decimal(behind as nat));
            let counted = s.with_records(seq![seq!['#', ' '] + "branch.ab"@ + seq![' '] + ab], 0);
            let stashed = s.with_records(
                seq![seq!['#', ' '] + "stash"@ + seq![' '] + decimal(stashes as nat)],
                0,
            );
            &&& counted == (StatusView { ahead_behind: Some((ahead, behind)), ..s })
            &&& stashed == (StatusView { stash_count: stashes, ..s })
        }),
{
    reveal_strlit("branch.oid");
    assert("branch.oid"@.len() == 10);
    reveal_strlit("branch.head");
    assert("branch.head"@.len() == 11);
    reveal_strlit("branch.upstream");
    assert("branch.upstream"@.len() == 15);
    reveal_strlit("branch.ab");
    assert("branch.ab"@.len() == 9);
    reveal_strlit("stash");
    assert("stash"@.len() == 5);
    assert(!"branch.ab"@.contains(' '));
    assert(!"stash"@.contains(' '));
    let a = decimal(ahead as nat);
    let b = decimal(behind as nat);
    let pa = seq!['+'] + a;
    let mb = seq!['-'] + b;
    let ab = pa + seq![' '] + mb;
    lemma_header(s, "branch.ab"@, ab);
    lemma_header(s, "stash"@, decimal(stashes as nat));
    law_numbers_are_read_back(ahead, 0);
    law_numbers_are_read_back(behind, 0);
    law_numbers_are_read_back(stashes, 0);
    lemma_decimal_has_no_space(ahead as nat);
    lemma_decimal_has_no_space(behind as nat);
    assert(no_space(pa)) by {
        assert forall|i: int| 0 <= i < pa.len() implies !is_space(#[trigger] pa[i]) by {
            if i > 0 {
                assert(pa[i] == a[i - 1]);
            }
        }
    }
    assert(no_space(mb)) by {
        assert forall|i: int| 0 <= i < mb.len() implies !is_space(#[trigger] mb[i]) by {
            if i > 0 {
                assert(mb[i] == b[i - 1]);
            }
        }
    }
    law_two_words(pa, ' ', mb);
    assert(words(ab) == seq![pa, mb]);
    assert(pa.drop_first() =~= a && mb.drop_first() =~= b);
    assert(pa[0] == '+' && mb[0] == '-');
    assert(skip_leading(a, '+') == a && skip_leading(b, '-') == b);
    assert(skip_leading(pa, '+') == a) by {
        reveal_with_fuel(skip_leading, 3);
    }
    assert(skip_leading(mb, '-') == b) by {
        reveal_with_fuel(skip_leading, 3);
    }
    assert(seq!['+'] + a + seq![' '] + mb =~= ab);
}

/// A branch without a commit is unborn, a commit without a branch is detached, and with both
/// the branch is checked out.
pub proof fn law_heads_are_told_apart(s: StatusView)
    ensures
        s.head() is Branch <==> s.branch is Some && s.oid is Some,
        s.head() is Unborn <==> s.branch is Some && s.oid is None,
        s.head() is Detached <==> s.branch is None,
        s.branch matches Some(b) ==> s.head().branch() == Some(b),
        s.branch is None ==> s.head().branch() is None,
        s.branch is None && s.oid is Some ==> s.head() == HeadView::Detached(s.oid->0),
{
}

/// An upstream that git counts commits against is tracked, with those counts; one that it
/// doesn't is gone; without one nothing is tracked.
pub proof fn law_upstreams_are_told_apart(s: StatusView)
    ensures
        s.tracking() is Unset <==> s.upstream is None,
        s.tracking() is Gone <==> s.upstream is Some && s.ahead_behind is None,
        s.tracking() matches UpstreamView::Tracking { name, ahead, behind } ==> s.upstream == Some(name)
            && s.ahead_behind == Some((ahead, behind)),
        s.tracking() matches UpstreamView::Gone { name } ==> s.upstream == Some(name),
{
}

/// Whether a file is tracked and has no conflict.
pub open spec fn in_git(f: FileView) -> bool {
    f.kind != FileKind::Untracked && f.kind != FileKind::Unmerged
}

/// What one more file adds to the counts: it is one more file, staged if its index letter
/// says so and unstaged if its worktree letter does (it can be both), and else untracked or
/// in conflict.
pub proof fn law_each_file_is_counted(s: StatusView, f: FileView)
    requires
        s.files.len() < u32::MAX,
    ensures
        ({
            let before = s.counts();
            let after = (StatusView { files: s.files.push(f), ..s }).counts();
            &&& after.files == before.files + 1
            &&& after.staged == before.staged + (if in_git(f) && f.index != '.' {
                1int
            } else {
                0
            })
            &&& after.unstaged == before.unstaged + (if in_git(f) && f.worktree != '.' {
                1int
            } else {
                0
            })
            &&& after.untracked == before.untracked + (if f.kind == FileKind::Untracked {
                1int
            } else {
                0
            })
            &&& after.conflicted == before.conflicted + (if f.kind == FileKind::Unmerged {
                1int
            } else {
                0
            })
        }),
        (StatusView { files: Seq::empty(), ..s }).counts() == no_changes(),
        no_changes().files == 0 && no_changes().staged == 0 && no_changes().unstaged == 0 && no_changes().untracked == 0
            && no_changes().conflicted == 0,
{
    let all = s.files.push(f);
    assert(all.drop_last() =~= s.files);
    assert(all.last() == f);
    lemma_count_files(s.files, |f: FileView| f.staged());
    lemma_count_files(s.files, |f: FileView| f.counts_unstaged());
    lemma_count_files(s.files, |f: FileView| f.kind == FileKind::Untracked);
    lemma_count_files(s.files, |f: FileView| f.kind == FileKind::Unmerged);
    reveal_with_fuel(count_files, 2);
}

/// A file has something staged or unstaged as its letters say; one that git doesn't track or
/// that has a conflict has nothing staged and something unstaged.
pub proof fn law_letters_tell_what_is_staged(f: FileView)
    ensures
        in_git(f) ==> (f.staged() <==> f.index != '.') && (f.unstaged() <==> f.worktree != '.'),
        !in_git(f) ==> !f.staged() && f.unstaged(),
        f.short().len() == 2,
        f.short()[0] == (if f.index == '.' {
            ' '
        } else {
            f.index
        }),
        f.short()[1] == (if f.worktree == '.' {
            ' '
        } else {
            f.worktree
        }),
{
}

/// Nothing needs the user exactly if nothing is changed, nothing is in progress, and the
/// branch is where its upstream is.
pub proof fn law_settled_repos_need_nothing(s: SummaryView)
    ensures
        s.settled() <==> s.changes == no_changes() && s.op is None && (
        s.upstream matches UpstreamView::Tracking { name, ahead, behind } && ahead == 0 && behind == 0),
{
}

/// An operation's label says what it is, a rebase's where it stands.
pub proof fn law_labels_tell_the_operation(n: u32, total: u32, branch: Option<Seq<char>>)
    ensures
        (OpView::Rebasing { step: Some((n, total)), branch }).label() == "rebasing "@ + decimal(n as nat) + "/"@ + decimal(
            total as nat,
        ),
        (OpView::Rebasing { step: None, branch }).label() == "rebasing"@,
        OpView::Merging.label() == "merging"@,
        OpView::CherryPicking.label() == "cherry-picking"@,
        OpView::Reverting.label() == "reverting"@,
        OpView::Bisecting.label() == "bisecting"@,
        OpView::ApplyingMailbox.label() == "applying"@,
{
}

/// A remote is listed once, under its name and with the first URL that git prints for it.
pub proof fn law_remotes_are_listed(lines: Seq<Seq<char>>, name: Seq<char>, url: Seq<char>, way: Seq<char>)
    requires
        name.len() > 0,
        no_space(name),
        url.len() > 0,
        no_space(url),
    ensures
        ({
            let line = name + seq!['\t'] + url + seq![' '] + way;
            let before = remotes_in(lines);
            remotes_in(lines.push(line)) == (if lists_remote(before, name) {
                before
            } else {
                before.push((RemoteView { name, url }))
            })
        }),
        remotes_in(Seq::<Seq<char>>::empty()).len() == 0,
{
    let line = name + seq!['\t'] + url + seq![' '] + way;
    let tail = seq![' '] + way;
    let rest = seq!['\t'] + (url + tail);
    assert(line =~= name + rest);
    assert(rest[0] == '\t' && tail[0] == ' ');
    law_words_are_read_one_by_one(name, rest);
    law_white_space_makes_no_words('\t', url + tail);
    law_words_are_read_one_by_one(url, tail);
    let ws = words(line);
    assert(ws =~= seq![name] + (seq![url] + words(tail)));
    assert(ws[0] == name && ws[1] == url);
    assert(lines.push(line).drop_last() =~= lines);
}

/// A submodule is listed under its path, with its state and the first seven characters of
/// its commit.
pub proof fn law_submodules_are_listed(state: char, oid: Seq<char>, path: Seq<char>, tail: Seq<char>)
    requires
        oid.len() >= 7,
        no_space(oid),
        path.len() > 0,
        no_space(path),
        tail.len() == 0 || tail[0] == ' ',
    ensures
        submodule_of(seq![state] + oid + seq![' '] + path + tail) == Some(
            SubmoduleView { path, short_oid: oid.take(7), state },
        ),
        submodule_of(Seq::empty()) is None,
{
    let line = seq![state] + oid + seq![' '] + path + tail;
    let rest = seq![' '] + (path + tail);
    assert(line.drop_first() =~= oid + rest);
    assert(rest[0] == ' ');
    law_words_are_read_one_by_one(oid, rest);
    law_white_space_makes_no_words(' ', path + tail);
    law_words_are_read_one_by_one(path, tail);
    let ws = words(line.drop_first());
    assert(ws =~= seq![oid] + (seq![path] + words(tail)));
    assert(ws[0] == oid && ws[1] == path);
    assert(oid.take(7) =~= oid.take(7));
    if oid.len() == 7 {
        assert(oid.take(7) =~= oid);
    }
}

proof fn lemma_worktree_field(w: WorktreesView, key: Seq<char>, value: Seq<char>, current: Seq<u8>)
    requires
        !key.contains(' '),
        key.len() > 0,
    ensures
        crate::git::parse::key_value(key + seq![' '] + value) == (key, value),
        (key + seq![' '] + value).len() > 0,
{
    law_split_once(key, ' ', value);
}

/// A worktree is listed with its path, commit and branch, and marked as the current one
/// exactly if its path is the repo's. An empty field ends it; the next one starts afresh.
pub proof fn law_worktrees_are_listed(
    fields: Seq<Seq<char>>,
    path: Seq<char>,
    head: Seq<char>,
    branch: Seq<char>,
    current: Seq<u8>,
)
    requires
        !"refs/heads/"@.is_prefix_of(branch),
    ensures
        ({
            let before = worktrees_in(fields, current);
            let more = fields.push("worktree"@ + seq![' '] + path).push("HEAD"@ + seq![' '] + head).push(
                "branch"@ + seq![' '] + ("refs/heads/"@ + branch),
            ).push(Seq::empty());
            let bytes = vstd::utf8::encode_utf8(path);
            worktrees_in(more, current).all() == before.all().push(
                WorktreeView {
                    path: bytes,
                    head: Some(head),
                    branch: Some(branch),
                    bare: false,
                    is_current: same_path(bytes, current),
                },
            ) && worktrees_in(more, current).open is None
        }),
        ({
            let before = worktrees_in(fields, current);
            let more = fields.push("worktree"@ + seq![' '] + path).push("bare"@).push(Seq::empty());
            let bytes = vstd::utf8::encode_utf8(path);
            worktrees_in(more, current).all() == before.all().push(
                WorktreeView { path: bytes, head: None, branch: None, bare: true, is_current: same_path(bytes, current) },
            )
        }),
{
    reveal_strlit("worktree");
    assert("worktree"@.len() == 8);
    reveal_strlit("HEAD");
    assert("HEAD"@.len() == 4);
    reveal_strlit("branch");
    assert("branch"@.len() == 6);
    reveal_strlit("bare");
    assert("bare"@.len() == 4);
    reveal_strlit("refs/heads/");
    assert("refs/heads/"@.len() == 11);
    assert(!"worktree"@.contains(' '));
    assert(!"HEAD"@.contains(' '));
    assert(!"branch"@.contains(' '));
    assert("HEAD"@[0] == 'H' && "bare"@[0] == 'b');
    let before = worktrees_in(fields, current);
    let w0 = "worktree"@ + seq![' '] + path;
    let w1 = "HEAD"@ + seq![' '] + head;
    let full = "refs/heads/"@ + branch;
    let w2 = "branch"@ + seq![' '] + full;
    let none = Seq::<char>::empty();
    lemma_worktree_field(before, "worktree"@, path, current);
    lemma_worktree_field(before, "HEAD"@, head, current);
    lemma_worktree_field(before, "branch"@, full, current);
    let f0 = fields.push(w0);
    let f1 = f0.push(w1);
    let f2 = f1.push(w2);
    let f3 = f2.push(none);
    assert(f0.drop_last() =~= fields && f1.drop_last() =~= f0 && f2.drop_last() =~= f1 && f3.drop_last() =~= f2);
    assert(full.take(11) =~= "refs/heads/"@);
    assert(full.skip(11) =~= branch);
    assert(strip_all(full, "refs/heads/"@) == branch) by {
        reveal_with_fuel(strip_all, 3);
    }
    let s0 = worktrees_in(f0, current);
    let s1 = worktrees_in(f1, current);
    let s2 = worktrees_in(f2, current);
    let s3 = worktrees_in(f3, current);
    assert(s0 == before.with_field(w0, current));
    assert(s1 == s0.with_field(w1, current));
    assert(s2 == s1.with_field(w2, current));
    assert(s3 == s2.with_field(none, current));
    assert(s3.done == s2.all());
    let b1 = f0.push("bare"@);
    let b2 = b1.push(none);
    assert(b1.drop_last() =~= f0 && b2.drop_last() =~= b1);
    assert(split_once("bare"@, ' ') is None) by {
        crate::text::seqs::lemma_index_of("bare"@, ' ');
    }
    let t1 = worktrees_in(b1, current);
    let t2 = worktrees_in(b2, current);
    assert(t1 == s0.with_field("bare"@, current));
    assert("bare"@ != "HEAD"@ && "bare"@ != "branch"@ && "bare"@ != "worktree"@);
    assert(t2 == t1.with_field(none, current));
    assert(t2.done == t1.all());
}

} // verus!
