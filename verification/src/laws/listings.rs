//! What git prints of a repo's branches, commits and stashes is what is listed.

use vstd::prelude::*;

use crate::git::parse::{
    branch_format_parts, branch_of, branches_of, commit_of, fields_of, log_of, records_of, reflog_entry_of, reflog_of,
    remote_branch_of, remote_branches_of, stash_of, stashes_of, tag_of, tags_of, time_of, track_counts, track_of,
    two_counts, FS, LOG_FORMAT, REFLOG_FORMAT, REMOTE_BRANCH_FORMAT, RS, STASH_FORMAT, TAG_FORMAT,
};
use crate::laws::commands::law_stash_names_are_read_back;
use crate::laws::text::{
    law_numbers_are_read_back, law_split_of_join, law_split_once, law_two_words, law_white_space_makes_no_words,
    law_words_are_read_one_by_one, lemma_decimal_has_no_space, lemma_filter_map_all, lemma_filter_map_cons, no_space,
};
use crate::model::{
    BranchView, CommitView, ReflogView, RemoteBranchView, StashView, TagView, UpstreamView,
};
use crate::ops::stash_selector;
use crate::path::same_path;
use crate::text::number::decimal;
use crate::text::seqs::{filter_map, index_of, join, law_split_of_joined, lemma_index_of, skip_leading, split};
use crate::text::strings::{trim, words};

verus! {

/// Whether fields can be told apart in a record, and records from each other.
pub open spec fn plain_record(fields: Seq<Seq<char>>) -> bool {
    &&& fields.len() > 0
    &&& fields[0].len() > 0
    &&& fields[0][0] != '\n'
    &&& forall|i: int| 0 <= i < fields.len() ==> !(#[trigger] fields[i]).contains(FS) && !fields[i].contains(RS)
}

/// What git prints for a record: its fields with a separator between them, and the end of
/// the record.
pub open spec fn record(fields: Seq<Seq<char>>) -> Seq<char> {
    join(fields, seq![FS]) + seq![RS] + seq!['\n']
}

/// What git prints for some records.
pub open spec fn listing(records: Seq<Seq<Seq<char>>>) -> Seq<char>
    decreases records.len(),
{
    if records.len() == 0 {
        Seq::empty()
    } else {
        record(records[0]) + listing(records.drop_first())
    }
}

proof fn lemma_join_has_none(fields: Seq<Seq<char>>, sep: char, x: char)
    requires
        fields.len() > 0,
        sep != x,
        forall|i: int| 0 <= i < fields.len() ==> !(#[trigger] fields[i]).contains(x),
    ensures
        !join(fields, seq![sep]).contains(x),
        fields[0].len() > 0 ==> join(fields, seq![sep]).len() > 0 && join(fields, seq![sep])[0] == fields[0][0],
    decreases fields.len(),
{
    if fields.len() > 1 {
        let before = fields.drop_last();
        assert forall|i: int| 0 <= i < before.len() implies !(#[trigger] before[i]).contains(x) by {
            assert(before[i] == fields[i]);
        }
        lemma_join_has_none(before, sep, x);
        let a = join(before, seq![sep]);
        let all = a + seq![sep] + fields.last();
        assert(join(fields, seq![sep]) == all);
        if all.contains(x) {
            let i = choose|i: int| 0 <= i < all.len() && all[i] == x;
            if i < a.len() {
                assert(a[i] == x);
                assert(a.contains(x));
            } else if i > a.len() {
                assert(fields.last()[i - a.len() - 1] == x);
                assert(fields[fields.len() - 1].contains(x));
            }
        }
        assert(before[0] == fields[0]);
    } else {
        assert(join(fields, seq![sep]) == fields[0]);
    }
}

proof fn lemma_records_are_read_back(lead: Seq<char>, records: Seq<Seq<Seq<char>>>)
    requires
        lead == Seq::<char>::empty() || lead == seq!['\n'],
        forall|i: int| 0 <= i < records.len() ==> plain_record(#[trigger] records[i]),
    ensures
        records_of(lead + listing(records)) == records,
    decreases records.len(),
{
    let f = |r: Seq<char>| fields_of(r);
    let s = lead + listing(records);
    if records.len() == 0 {
        assert(s =~= lead);
        lemma_index_of(s, RS);
        assert(split(s, RS) =~= seq![s]);
        assert(skip_leading(Seq::<char>::empty(), '\n') =~= Seq::empty());
        if lead.len() > 0 {
            assert(lead.drop_first() =~= Seq::<char>::empty());
        }
        assert(fields_of(s) is None);
        assert(seq![s].drop_last() =~= Seq::<Seq<char>>::empty());
        assert(filter_map(seq![s].drop_last(), f) =~= Seq::<Seq<Seq<char>>>::empty());
        assert(filter_map(seq![s], f) =~= records);
    } else {
        let fields = records[0];
        assert(plain_record(fields));
        let rest = records.drop_first();
        assert forall|i: int| 0 <= i < rest.len() implies plain_record(#[trigger] rest[i]) by {
            assert(rest[i] == records[i + 1]);
        }
        let body = join(fields, seq![FS]);
        lemma_records_are_read_back(seq!['\n'], rest);
        lemma_join_has_none(fields, FS, RS);
        let a = lead + body;
        let b = seq!['\n'] + listing(rest);
        assert(s =~= a + seq![RS] + b);
        law_split_of_joined(a, RS, b);
        lemma_index_of(a, RS);
        if index_of(a, RS) < a.len() {
            let i = index_of(a, RS);
            if i >= lead.len() {
                assert(body[i - lead.len()] == RS);
                assert(body.contains(RS));
            }
        }
        assert(split(a, RS) =~= seq![a]);
        assert(skip_leading(a, '\n') == body) by {
            if lead.len() > 0 {
                assert(a[0] == '\n');
                assert(a.drop_first() =~= body);
            } else {
                assert(a =~= body);
            }
        }
        law_split_of_join(fields, FS);
        assert(fields_of(a) == Some(fields));
        lemma_filter_map_cons(a, split(b, RS), f);
        assert(seq![fields] + rest =~= records);
    }
}

/// The records that git prints are read back, each with its fields, in order.
pub proof fn law_records_are_read_back(records: Seq<Seq<Seq<char>>>)
    requires
        forall|i: int| 0 <= i < records.len() ==> plain_record(#[trigger] records[i]),
    ensures
        records_of(listing(records)) == records,
{
    lemma_records_are_read_back(Seq::empty(), records);
    assert(Seq::<char>::empty() + listing(records) =~= listing(records));
}

/// The seconds of a time, as git prints them.
pub open spec fn seconds(time: Option<u64>) -> Seq<char> {
    match time {
        Some(t) => decimal(t as nat),
        None => Seq::empty(),
    }
}

/// Times are read back.
pub proof fn law_times_are_read_back(time: Option<u64>)
    ensures
        time_of(seconds(time)) == time,
{
    match time {
        Some(t) => law_numbers_are_read_back(0, t),
        None => {},
    }
}

/// What git prints for a remote branch.
pub open spec fn remote_branch_record(b: RemoteBranchView) -> Seq<Seq<char>> {
    seq!["refs/remotes/"@ + b.remote + seq!['/'] + b.name, b.short_oid, b.subject]
}

/// A listed remote branch's full ref is `refs/remotes/<remote>/<name>`, where the remote has
/// no slash; its commit and subject are those printed with the ref.
pub proof fn law_remote_branches_are_named_by_their_ref(fields: Seq<Seq<char>>)
    ensures
        remote_branch_of(fields) matches Some(b) ==> fields.len() == 3 && fields == remote_branch_record(b)
            && !b.remote.contains('/') && b.name != "HEAD"@,
{
    reveal_strlit("refs/remotes/");
    assert("refs/remotes/"@.len() == 13);
    if remote_branch_of(fields) is Some {
        let b = remote_branch_of(fields)->0;
        let full = fields[0];
        let short = full.skip(13);
        assert(full =~= "refs/remotes/"@ + short);
        lemma_index_of(short, '/');
        assert(short =~= b.remote + seq!['/'] + b.name);
        assert(full =~= "refs/remotes/"@ + b.remote + seq!['/'] + b.name);
        assert(fields =~= remote_branch_record(b));
        if b.remote.contains('/') {
            let i = choose|i: int| 0 <= i < b.remote.len() && b.remote[i] == '/';
            assert(short[i] == '/');
        }
    }
}

/// Every remote branch that git prints is listed as it is, under its remote and its name, in
/// order; only a remote's `HEAD` is left out.
pub proof fn law_remote_branches_are_listed(list: Seq<RemoteBranchView>)
    requires
        forall|i: int|
            0 <= i < list.len() ==> !(#[trigger] list[i]).remote.contains('/') && list[i].name != "HEAD"@
                && plain_record(remote_branch_record(list[i])),
    ensures
        remote_branches_of(listing(list.map_values(|b: RemoteBranchView| remote_branch_record(b)))) == list,
{
    reveal_strlit("refs/remotes/");
    assert("refs/remotes/"@.len() == 13);
    let records = list.map_values(|b: RemoteBranchView| remote_branch_record(b));
    assert forall|i: int| 0 <= i < records.len() implies plain_record(#[trigger] records[i]) by {
        assert(records[i] == remote_branch_record(list[i]));
    }
    law_records_are_read_back(records);
    let f = |r: Seq<Seq<char>>| remote_branch_of(r);
    assert forall|i: int| 0 <= i < records.len() implies f(#[trigger] records[i]) == Some(list[i]) by {
        let b = list[i];
        let full = records[i][0];
        let short = b.remote + seq!['/'] + b.name;
        assert(full =~= "refs/remotes/"@ + short);
        assert(full.take(13) =~= "refs/remotes/"@);
        assert(full.skip(13) =~= short);
        law_split_once(b.remote, '/', b.name);
    }
    lemma_filter_map_all(records, f, list);
}

/// What git prints for a tag.
pub open spec fn tag_record(t: TagView) -> Seq<Seq<char>> {
    seq![t.name, t.short_oid, t.subject]
}

/// Every tag that git prints is listed as it is, in order.
pub proof fn law_tags_are_listed(list: Seq<TagView>)
    requires
        forall|i: int| 0 <= i < list.len() ==> plain_record(#[trigger] tag_record(list[i])),
    ensures
        tags_of(listing(list.map_values(|t: TagView| tag_record(t)))) == list,
{
    let records = list.map_values(|t: TagView| tag_record(t));
    assert forall|i: int| 0 <= i < records.len() implies plain_record(#[trigger] records[i]) by {
        assert(records[i] == tag_record(list[i]));
    }
    law_records_are_read_back(records);
    let f = |r: Seq<Seq<char>>| tag_of(r);
    lemma_filter_map_all(records, f, list);
}

/// What git prints for a commit: its id and short id, who made it when, what points to it,
/// and its subject.
pub open spec fn commit_record(c: CommitView) -> Seq<Seq<char>> {
    seq![c.oid, c.short_oid, c.author, seconds(c.time), c.refs, c.subject]
}

/// Every commit that git prints is listed as it is, in order.
pub proof fn law_commits_are_listed(list: Seq<CommitView>)
    requires
        forall|i: int| 0 <= i < list.len() ==> plain_record(#[trigger] commit_record(list[i])),
    ensures
        log_of(listing(list.map_values(|c: CommitView| commit_record(c)))) == list,
{
    let records = list.map_values(|c: CommitView| commit_record(c));
    assert forall|i: int| 0 <= i < records.len() implies plain_record(#[trigger] records[i]) by {
        assert(records[i] == commit_record(list[i]));
    }
    law_records_are_read_back(records);
    let f = |r: Seq<Seq<char>>| commit_of(r);
    assert forall|i: int| 0 <= i < records.len() implies f(#[trigger] records[i]) == Some(list[i]) by {
        law_times_are_read_back(list[i].time);
    }
    lemma_filter_map_all(records, f, list);
}

/// What git prints for an entry of the reflog.
pub open spec fn reflog_record(r: ReflogView) -> Seq<Seq<char>> {
    seq![r.short_oid, r.selector, r.subject, seconds(r.time)]
}

/// Every entry of the reflog that git prints is listed as it is, in order.
pub proof fn law_reflog_is_listed(list: Seq<ReflogView>)
    requires
        forall|i: int| 0 <= i < list.len() ==> plain_record(#[trigger] reflog_record(list[i])),
    ensures
        reflog_of(listing(list.map_values(|r: ReflogView| reflog_record(r)))) == list,
{
    let records = list.map_values(|r: ReflogView| reflog_record(r));
    assert forall|i: int| 0 <= i < records.len() implies plain_record(#[trigger] records[i]) by {
        assert(records[i] == reflog_record(list[i]));
    }
    law_records_are_read_back(records);
    let f = |r: Seq<Seq<char>>| reflog_entry_of(r);
    assert forall|i: int| 0 <= i < records.len() implies f(#[trigger] records[i]) == Some(list[i]) by {
        law_times_are_read_back(list[i].time);
    }
    lemma_filter_map_all(records, f, list);
}

/// What git prints for a stash.
pub open spec fn stash_record(s: StashView) -> Seq<Seq<char>> {
    seq![stash_selector(s.index), seconds(s.time), s.subject]
}

/// Every stash that git prints is listed as it is, under its number, in order.
pub proof fn law_stashes_are_listed(list: Seq<StashView>)
    requires
        forall|i: int|
            0 <= i < list.len() ==> (#[trigger] list[i]).index <= usize::MAX && plain_record(stash_record(list[i])),
    ensures
        stashes_of(listing(list.map_values(|s: StashView| stash_record(s)))) == list,
{
    let records = list.map_values(|s: StashView| stash_record(s));
    assert forall|i: int| 0 <= i < records.len() implies plain_record(#[trigger] records[i]) by {
        assert(records[i] == stash_record(list[i]));
    }
    law_records_are_read_back(records);
    let f = |r: Seq<Seq<char>>| stash_of(r);
    assert forall|i: int| 0 <= i < records.len() implies f(#[trigger] records[i]) == Some(list[i]) by {
        law_times_are_read_back(list[i].time);
        law_stash_names_are_read_back(list[i].index);
    }
    lemma_filter_map_all(records, f, list);
}

/// How git counts a branch against its upstream.
pub open spec fn track_text(ahead: u32, behind: u32) -> Seq<char> {
    let a = "ahead"@ + seq![' '] + decimal(ahead as nat);
    let b = "behind"@ + seq![' '] + decimal(behind as nat);
    if ahead > 0 && behind > 0 {
        a + seq![','] + (seq![' '] + b)
    } else if ahead > 0 {
        a
    } else if behind > 0 {
        b
    } else {
        Seq::empty()
    }
}

/// What git prints of a branch's upstream: its name, and how the two compare.
pub open spec fn upstream_texts(u: UpstreamView) -> (Seq<char>, Seq<char>) {
    match u {
        UpstreamView::Unset => (Seq::empty(), Seq::empty()),
        UpstreamView::Gone { name } => (name, "gone"@),
        UpstreamView::Tracking { name, ahead, behind } => (name, track_text(ahead, behind)),
    }
}

proof fn lemma_count_words(w: Seq<char>, n: u32, lead: Seq<char>)
    requires
        w == "ahead"@ || w == "behind"@,
        lead == Seq::<char>::empty() || lead == seq![' '],
    ensures
        words(lead + (w + seq![' '] + decimal(n as nat))) == seq![w, decimal(n as nat)],
        !(lead + (w + seq![' '] + decimal(n as nat))).contains(','),
{
    reveal_strlit("ahead");
    assert("ahead"@.len() == 5);
    reveal_strlit("behind");
    assert("behind"@.len() == 6);
    lemma_decimal_has_no_space(n as nat);
    crate::text::number::lemma_decimal_value(n as nat);
    let d = decimal(n as nat);
    let s = w + seq![' '] + d;
    assert(no_space(w));
    law_two_words(w, ' ', d);
    if lead.len() > 0 {
        law_white_space_makes_no_words(' ', s);
    } else {
        assert(lead + s =~= s);
    }
    if (lead + s).contains(',') {
        let i = choose|i: int| 0 <= i < (lead + s).len() && (lead + s)[i] == ',';
        let k = i - lead.len();
        if k >= 0 {
            if k < w.len() {
                assert(w[k] == ',');
            } else if k > w.len() {
                assert(crate::text::number::is_digit(d[k - w.len() - 1]));
            }
        }
    }
}

/// How a branch compares to its upstream is read back from what git prints: ahead is ahead,
/// behind is behind, and one that is gone is told from one that was never set.
pub proof fn law_upstreams_are_read_back(u: UpstreamView)
    requires
        match u {
            UpstreamView::Unset => true,
            UpstreamView::Gone { name } => name.len() > 0,
            UpstreamView::Tracking { name, ahead, behind } => name.len() > 0,
        },
    ensures
        track_of(upstream_texts(u).0, upstream_texts(u).1) == u,
{
    reveal_strlit("ahead");
    assert("ahead"@.len() == 5);
    reveal_strlit("behind");
    assert("behind"@.len() == 6);
    reveal_strlit("gone");
    assert("gone"@.len() == 4);
    match u {
        UpstreamView::Unset => {},
        UpstreamView::Gone { name } => {
            crate::laws::text::law_tidy_texts_stay("gone"@);
        },
        UpstreamView::Tracking { name, ahead, behind } => {
            let none = Seq::<char>::empty();
            let a = "ahead"@ + seq![' '] + decimal(ahead as nat);
            let b = "behind"@ + seq![' '] + decimal(behind as nat);
            lemma_count_words("ahead"@, ahead, none);
            lemma_count_words("behind"@, behind, none);
            lemma_count_words("behind"@, behind, seq![' ']);
            assert(none + a =~= a);
            assert(none + b =~= b);
            law_numbers_are_read_back(ahead, 0);
            law_numbers_are_read_back(behind, 0);
            lemma_decimal_has_no_space(ahead as nat);
            lemma_decimal_has_no_space(behind as nat);
            let track = track_text(ahead, behind);
            assert(trim(track) != "gone"@) by {
                if track.len() > 0 {
                    assert(track[0] == 'a' || track[0] == 'b');
                    let d = if behind > 0 {
                        decimal(behind as nat)
                    } else {
                        decimal(ahead as nat)
                    };
                    assert(track.last() == d.last());
                    crate::laws::text::law_tidy_texts_stay(track);
                }
            }
            assert("ahead"@ != "behind"@);
            let empty = Seq::<Seq<char>>::empty();
            assert(track_counts(empty) == (0u32, 0u32));
            if ahead > 0 && behind > 0 {
                let c = seq![' '] + b;
                law_split_of_join(seq![a, c], ',');
                assert(seq![a, c].drop_last() =~= seq![a]);
                assert(join(seq![a], seq![',']) == a);
                assert(join(seq![a, c], seq![',']) =~= track);
                assert(seq![a].drop_last() =~= empty);
                assert(track_counts(seq![a]) == (ahead, 0u32));
                assert(track_counts(seq![a, c]) == (ahead, behind));
            } else if ahead > 0 {
                law_split_of_join(seq![a], ',');
                assert(join(seq![a], seq![',']) == a);
                assert(seq![a].drop_last() =~= empty);
                assert(track_counts(seq![a]) == (ahead, 0u32));
            } else if behind > 0 {
                law_split_of_join(seq![b], ',');
                assert(join(seq![b], seq![',']) == b);
                assert(seq![b].drop_last() =~= empty);
                assert(track_counts(seq![b]) == (0u32, behind));
            } else {
                law_split_of_join(seq![none], ',');
                assert(join(seq![none], seq![',']) == none);
                assert(seq![none].drop_last() =~= empty);
                law_white_space_makes_no_words(' ', none);
                assert(track_counts(seq![none]) == (0u32, 0u32));
            }
        },
    }
}

/// Two counts with white space between them are read in their order.
pub proof fn law_counts_are_read_in_order(left: u32, right: u32)
    ensures
        two_counts(decimal(left as nat) + seq!['\t'] + decimal(right as nat)) == Some((left, right)),
        two_counts(decimal(left as nat) + seq![' '] + decimal(right as nat)) == Some((left, right)),
        two_counts(decimal(left as nat) + seq!['\t'] + decimal(right as nat) + seq!['\n']) == Some((left, right)),
        two_counts(Seq::empty()) is None,
{
    let a = decimal(left as nat);
    let b = decimal(right as nat);
    lemma_decimal_has_no_space(left as nat);
    lemma_decimal_has_no_space(right as nat);
    law_numbers_are_read_back(left, 0);
    law_numbers_are_read_back(right, 0);
    law_two_words(a, '\t', b);
    law_two_words(a, ' ', b);
    law_white_space_makes_no_words('\n', Seq::empty());
    assert(seq!['\n'] + Seq::<char>::empty() =~= seq!['\n']);
    law_words_are_read_one_by_one(b, seq!['\n']);
    law_white_space_makes_no_words('\t', b + seq!['\n']);
    law_words_are_read_one_by_one(a, seq!['\t'] + (b + seq!['\n']));
    assert(a + seq!['\t'] + b + seq!['\n'] =~= a + (seq!['\t'] + (b + seq!['\n'])));
}

/// What git prints for a branch, with its divergence from the default branch and where it is
/// checked out.
pub open spec fn branch_record(b: BranchView, worktree: Seq<char>) -> Seq<Seq<char>> {
    seq![
        if b.is_head {
            "*"@
        } else {
            " "@
        },
        b.name,
        b.short_oid,
        upstream_texts(b.upstream).0,
        upstream_texts(b.upstream).1,
        seconds(b.committed),
        b.subject,
        match b.base {
            Some((ahead, behind)) => decimal(ahead as nat) + seq![' '] + decimal(behind as nat),
            None => Seq::empty(),
        },
        worktree,
    ]
}

/// A branch is read back from what git prints for it: its name and commit, whether it is
/// checked out here, how it compares to its upstream and to the default branch, and the other
/// worktree that has it, if one does.
pub proof fn law_branches_are_read_back(b: BranchView, worktree: Seq<char>, current: Option<Seq<u8>>)
    requires
        match b.upstream {
            UpstreamView::Unset => true,
            UpstreamView::Gone { name } => name.len() > 0,
            UpstreamView::Tracking { name, ahead, behind } => name.len() > 0,
        },
        b.worktree is None ==> worktree.len() == 0 || current is Some && same_path(
            vstd::utf8::encode_utf8(worktree),
            current->0,
        ),
        b.worktree matches Some(w) ==> worktree.len() > 0 && w == vstd::utf8::encode_utf8(worktree) && (
        current matches Some(c) ==> !same_path(w, c)),
    ensures
        branch_of(branch_record(b, worktree), current) == Some(b),
{
    reveal_strlit("*");
    assert("*"@.len() == 1);
    reveal_strlit(" ");
    assert(" "@.len() == 1);
    assert("*"@[0] == '*' && " "@[0] == ' ');
    law_upstreams_are_read_back(b.upstream);
    law_times_are_read_back(b.committed);
    match b.base {
        Some((ahead, behind)) => law_counts_are_read_in_order(ahead, behind),
        None => law_counts_are_read_in_order(0, 0),
    }
}

/// Every branch that git prints is listed, in order.
pub proof fn law_branches_are_listed(records: Seq<Seq<Seq<char>>>, list: Seq<BranchView>, current: Option<Seq<u8>>)
    requires
        records.len() == list.len(),
        forall|i: int|
            0 <= i < records.len() ==> plain_record(#[trigger] records[i]) && branch_of(records[i], current) == Some(
                list[i],
            ),
    ensures
        branches_of(listing(records), current) == list,
{
    law_records_are_read_back(records);
    let f = |r: Seq<Seq<char>>| branch_of(r, current);
    lemma_filter_map_all(records, f, list);
}

/// The fields that git is asked for are those that are read, in their order.
pub proof fn law_formats_ask_for_what_is_read(base: Seq<char>)
    ensures
        REMOTE_BRANCH_FORMAT@ == "%(refname)"@ + "%1f"@ + "%(objectname:short)"@ + "%1f"@ + "%(subject)"@ + "%1e"@,
        TAG_FORMAT@ == "%(refname:short)"@ + "%1f"@ + "%(objectname:short)"@ + "%1f"@ + "%(subject)"@ + "%1e"@,
        LOG_FORMAT@ == "%H"@ + "%x1f"@ + "%h"@ + "%x1f"@ + "%an"@ + "%x1f"@ + "%ct"@ + "%x1f"@ + "%D"@ + "%x1f"@
            + "%s"@ + "%x1e"@,
        REFLOG_FORMAT@ == "%h"@ + "%x1f"@ + "%gd"@ + "%x1f"@ + "%gs"@ + "%x1f"@ + "%ct"@ + "%x1e"@,
        STASH_FORMAT@ == "%gd"@ + "%x1f"@ + "%ct"@ + "%x1f"@ + "%gs"@ + "%x1e"@,
        ({
            let parts = branch_format_parts(Some(base));
            &&& parts.len() == 9
            &&& parts[0] == "%(HEAD)"@ && parts[1] == "%(refname:short)"@ && parts[2] == "%(objectname:short)"@
            &&& parts[3] == "%(upstream:short)"@ && parts[4] == "%(upstream:track,nobracket)"@
            &&& parts[5] == "%(committerdate:unix)"@ && parts[6] == "%(subject)"@
            &&& parts[7] == "%(ahead-behind:"@ + base + ")"@
            &&& parts[8] == "%(worktreepath)"@
            &&& branch_format_parts(None) == parts.update(7, Seq::empty())
        }),
        FS as u32 == 0x1f,
        RS as u32 == 0x1e,
{
    reveal_strlit("%(refname)%1f%(objectname:short)%1f%(subject)%1e");
    assert("%(refname)%1f%(objectname:short)%1f%(subject)%1e"@.len() == 48);
    reveal_strlit("%(refname:short)%1f%(objectname:short)%1f%(subject)%1e");
    assert("%(refname:short)%1f%(objectname:short)%1f%(subject)%1e"@.len() == 54);
    reveal_strlit("%H%x1f%h%x1f%an%x1f%ct%x1f%D%x1f%s%x1e");
    assert("%H%x1f%h%x1f%an%x1f%ct%x1f%D%x1f%s%x1e"@.len() == 38);
    reveal_strlit("%h%x1f%gd%x1f%gs%x1f%ct%x1e");
    assert("%h%x1f%gd%x1f%gs%x1f%ct%x1e"@.len() == 27);
    reveal_strlit("%gd%x1f%ct%x1f%gs%x1e");
    assert("%gd%x1f%ct%x1f%gs%x1e"@.len() == 21);
    reveal_strlit("%(refname)");
    assert("%(refname)"@.len() == 10);
    reveal_strlit("%(refname:short)");
    assert("%(refname:short)"@.len() == 16);
    reveal_strlit("%(objectname:short)");
    assert("%(objectname:short)"@.len() == 19);
    reveal_strlit("%(subject)");
    assert("%(subject)"@.len() == 10);
    reveal_strlit("%1f");
    assert("%1f"@.len() == 3);
    reveal_strlit("%1e");
    assert("%1e"@.len() == 3);
    reveal_strlit("%x1f");
    assert("%x1f"@.len() == 4);
    reveal_strlit("%x1e");
    assert("%x1e"@.len() == 4);
    reveal_strlit("%H");
    assert("%H"@.len() == 2);
    reveal_strlit("%h");
    assert("%h"@.len() == 2);
    reveal_strlit("%an");
    assert("%an"@.len() == 3);
    reveal_strlit("%ct");
    assert("%ct"@.len() == 3);
    reveal_strlit("%D");
    assert("%D"@.len() == 2);
    reveal_strlit("%s");
    assert("%s"@.len() == 2);
    reveal_strlit("%gd");
    assert("%gd"@.len() == 3);
    reveal_strlit("%gs");
    assert("%gs"@.len() == 3);
    assert(REMOTE_BRANCH_FORMAT@ =~= "%(refname)"@ + "%1f"@ + "%(objectname:short)"@ + "%1f"@ + "%(subject)"@
        + "%1e"@);
    assert(TAG_FORMAT@ =~= "%(refname:short)"@ + "%1f"@ + "%(objectname:short)"@ + "%1f"@ + "%(subject)"@ + "%1e"@);
    assert(LOG_FORMAT@ =~= "%H"@ + "%x1f"@ + "%h"@ + "%x1f"@ + "%an"@ + "%x1f"@ + "%ct"@ + "%x1f"@ + "%D"@ + "%x1f"@
        + "%s"@ + "%x1e"@);
    assert(REFLOG_FORMAT@ =~= "%h"@ + "%x1f"@ + "%gd"@ + "%x1f"@ + "%gs"@ + "%x1f"@ + "%ct"@ + "%x1e"@);
    assert(STASH_FORMAT@ =~= "%gd"@ + "%x1f"@ + "%ct"@ + "%x1f"@ + "%gs"@ + "%x1e"@);
    assert(branch_format_parts(None) =~= branch_format_parts(Some(base)).update(7, Seq::empty()));
}

} // verus!
