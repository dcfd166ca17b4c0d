//! The at-a-glance state shown for every repo.

use vstd::prelude::*;

use crate::git::parse::{left_right, record_views, records, records_of, status_in, status_v2, two_counts};
use crate::git::{read_command, reply_view, CommandView, ErrorView, GitCommand, GitError, GitOutput, OutputView};
use crate::git::{trimmed_text, CmdKind};
use crate::model::{
    base_opt, default_opt, op_opt, BaseDivergence, BaseView, DefaultBranch, DefaultView, Head, HeadView, OpView,
    RepoLocation, RepoOp, RepoSummary, StatusReport, StatusView, SummaryView,
};
use crate::path::FsPath;
use crate::text::number::{parse_u32, read_u32};
use crate::text::seqs::{filter_map, lemma_filter_map_step, strip_all, strip_prefix, stripped_all, views};
use crate::text::strings::{
    after_text, cat2, cat4, chars_of, copied, lines, push_string, same_str, split_lines, str_opt, str_starts_with,
    str_views, string_of, strings, text_opt, texts, trim, trimmed,
};

verus! {

/// Whether `text` is below the remote `remote`, as `<remote>/...`.
pub open spec fn on_remote(remote: Seq<char>, text: Seq<char>) -> bool {
    (remote + "/"@).is_prefix_of(text)
}

/// The longest of the remotes that `text` is on. Remote names may contain '/'.
pub open spec fn longest_remote(remotes: Seq<Seq<char>>, text: Seq<char>) -> Option<Seq<char>>
    decreases remotes.len(),
{
    if remotes.len() == 0 {
        None
    } else {
        let best = longest_remote(remotes.drop_last(), text);
        let last = remotes.last();
        if !on_remote(last, text) {
            best
        } else {
            match best {
                Some(b) if b.len() > last.len() => Some(b),
                _ => Some(last),
            }
        }
    }
}

/// Which remote the repo's default branch lives on: the upstream's remote, else `origin`,
/// else the first remote.
pub open spec fn main_remote(remotes: Seq<Seq<char>>, upstream: Option<Seq<char>>) -> Option<Seq<char>> {
    let from_upstream = match upstream {
        Some(u) => longest_remote(remotes, u),
        None => None,
    };
    match from_upstream {
        Some(remote) => Some(remote),
        None => if remotes.contains("origin"@) {
            Some("origin"@)
        } else if remotes.len() > 0 {
            Some(remotes[0])
        } else {
            None
        },
    }
}

/// The longest remote really is one: listed, a prefix, and no other that fits is longer.
pub proof fn law_longest_remote(remotes: Seq<Seq<char>>, text: Seq<char>)
    ensures
        match longest_remote(remotes, text) {
            Some(r) => remotes.contains(r) && on_remote(r, text) && forall|i: int|
                0 <= i < remotes.len() && on_remote(#[trigger] remotes[i], text) ==> remotes[i].len()
                    <= r.len(),
            None => forall|i: int| 0 <= i < remotes.len() ==> !on_remote(#[trigger] remotes[i], text),
        },
    decreases remotes.len(),
{
    if remotes.len() > 0 {
        let rest = remotes.drop_last();
        law_longest_remote(rest, text);
        assert forall|i: int| 0 <= i < remotes.len() - 1 implies remotes[i] == #[trigger] rest[i] by {
        }
        match longest_remote(rest, text) {
            Some(b) => {
                let k = choose|k: int| 0 <= k < rest.len() && rest[k] == b;
                assert(remotes[k] == b);
            },
            None => {},
        }
        assert(remotes[remotes.len() - 1] == remotes.last());
        match longest_remote(remotes, text) {
            Some(r) => {
                assert forall|i: int|
                    0 <= i < remotes.len() && on_remote(#[trigger] remotes[i], text) implies remotes[i].len()
                    <= r.len() by {
                    if i < remotes.len() - 1 {
                        assert(rest[i] == remotes[i]);
                    }
                }
            },
            None => {
                assert forall|i: int| 0 <= i < remotes.len() implies !on_remote(
                    #[trigger] remotes[i],
                    text,
                ) by {
                    if i < remotes.len() - 1 {
                        assert(rest[i] == remotes[i]);
                    }
                }
            },
        }
    }
}

/// The index of the longest of the remotes that `text` is on.
pub fn find_longest_remote(remotes: &[String], text: &str) -> (r: Option<usize>)
    ensures
        match r {
            Some(i) => i < remotes@.len() && longest_remote(texts(remotes@), text@) == Some(
                remotes@[i as int]@,
            ),
            None => longest_remote(texts(remotes@), text@) is None,
        },
{
    let ghost all = texts(remotes@);
    let n: usize = remotes.len();
    let mut best: Option<usize> = None;
    let mut i: usize = 0;
    assert(all.take(0) =~= Seq::<Seq<char>>::empty());
    while i < n
        invariant
            i <= n,
            n == remotes@.len(),
            all == texts(remotes@),
            match best {
                Some(b) => b < n && longest_remote(all.take(i as int), text@) == Some(
                    remotes@[b as int]@,
                ),
                None => longest_remote(all.take(i as int), text@) is None,
            },
        decreases n - i,
    {
        let ghost next = all.take(i + 1);
        assert(next.drop_last() =~= all.take(i as int));
        assert(next.last() == remotes@[i as int]@);
        let prefix = cat2(remotes[i].as_str(), "/");
        if str_starts_with(text, prefix.as_str()) {
            let longer = match best {
                Some(b) => remotes[b].as_str().unicode_len() > remotes[i].as_str().unicode_len(),
                None => false,
            };
            if !longer {
                best = Some(i);
            }
        }
        i = i + 1;
    }
    assert(all.take(n as int) =~= all);
    best
}

/// Which remote the repo's default branch lives on: the upstream's remote, else
/// `origin`, else the only/first remote.
pub fn primary_remote<'a>(remotes: &'a [String], upstream: Option<&str>) -> (r: Option<&'a str>)
    ensures
        str_opt(r) == main_remote(texts(remotes@), str_opt(upstream)),
{
    match upstream {
        Some(u) => match find_longest_remote(remotes, u) {
            Some(i) => return Some(remotes[i].as_str()),
            None => {},
        },
        None => {},
    }
    let ghost all = texts(remotes@);
    let n: usize = remotes.len();
    let mut i: usize = 0;
    while i < n
        invariant
            i <= n,
            n == remotes@.len(),
            all == texts(remotes@),
            match upstream {
                Some(u) => longest_remote(all, u@) is None,
                None => true,
            },
            forall|j: int| 0 <= j < i ==> all[j] != "origin"@,
        decreases n - i,
    {
        if same_str(remotes[i].as_str(), "origin") {
            assert(all[i as int] == "origin"@);
            return Some(remotes[i].as_str());
        }
        i = i + 1;
    }
    assert(!all.contains("origin"@));
    if n > 0 {
        Some(remotes[0].as_str())
    } else {
        None
    }
}

/// The refs that may be the default branch, the best first: `<remote>/HEAD`, else
/// `<remote>/main`, else `<remote>/master`; with no remote, local `main` then `master`.
pub open spec fn default_patterns(remote: Option<Seq<char>>) -> Seq<Seq<char>> {
    match remote {
        Some(r) => seq![
            "refs/remotes/"@ + r + "/"@ + "HEAD"@,
            "refs/remotes/"@ + r + "/"@ + "main"@,
            "refs/remotes/"@ + r + "/"@ + "master"@,
        ],
        None => seq!["refs/heads/main"@, "refs/heads/master"@],
    }
}

/// The refs that may be the default branch, the best first.
pub fn default_branch_patterns(remotes: &[String], upstream: Option<&str>) -> (r: Vec<String>)
    ensures
        texts(r@) == default_patterns(main_remote(texts(remotes@), str_opt(upstream))),
{
    let mut out: Vec<String> = Vec::new();
    match primary_remote(remotes, upstream) {
        Some(remote) => {
            out.push(cat4("refs/remotes/", remote, "/", "HEAD"));
            out.push(cat4("refs/remotes/", remote, "/", "main"));
            out.push(cat4("refs/remotes/", remote, "/", "master"));
            assert(texts(out@) =~= default_patterns(Some(remote@)));
        },
        None => {
            out.push("refs/heads/main".to_owned());
            out.push("refs/heads/master".to_owned());
            assert(texts(out@) =~= default_patterns(None));
        },
    }
    out
}

/// The command that lists which of the refs exist and what they point to.
pub open spec fn default_command(cwd: Seq<u8>, patterns: Seq<Seq<char>>) -> CommandView {
    read_command(cwd, seq!["for-each-ref"@, "--format=%(refname)%1f%(symref)%1e"@] + patterns)
}

/// The command that lists which of the refs exist and what they point to.
pub fn default_branch_command(cwd: &FsPath, patterns: &Vec<String>) -> (r: GitCommand)
    ensures
        r@ == default_command(cwd@, texts(patterns@)),
{
    let mut args = strings(vec!["for-each-ref", "--format=%(refname)%1f%(symref)%1e"]);
    let ghost first = args@;
    let mut more = copied(patterns);
    let ghost second = more@;
    args.append(&mut more);
    assert(texts(args@) =~= seq!["for-each-ref"@, "--format=%(refname)%1f%(symref)%1e"@] + texts(
        patterns@,
    )) by {
        assert(texts(args@) =~= texts(first) + texts(second));
    }
    GitCommand::new(cwd, CmdKind::Read, args)
}

/// A ref and what it points to, if a record has both.
pub open spec fn ref_of(fields: Seq<Seq<char>>) -> Option<(Seq<char>, Seq<char>)> {
    if fields.len() == 2 {
        Some((fields[0], fields[1]))
    } else {
        None
    }
}

/// The refs that a text lists.
pub open spec fn refs_of(text: Seq<char>) -> Seq<(Seq<char>, Seq<char>)> {
    filter_map(records_of(text), |f: Seq<Seq<char>>| ref_of(f))
}

/// The views of some refs.
pub open spec fn ref_views(refs: Seq<(String, String)>) -> Seq<(Seq<char>, Seq<char>)> {
    refs.map_values(|r: (String, String)| (r.0@, r.1@))
}

/// Reads which refs exist and what they point to.
pub fn default_branch_refs(text: &str) -> (r: Vec<(String, String)>)
    ensures
        ref_views(r@) == refs_of(text@),
{
    let all = records(text);
    let ghost recs = record_views(all@);
    let ghost f = |f: Seq<Seq<char>>| ref_of(f);
    let mut result: Vec<(String, String)> = Vec::new();
    let mut i: usize = 0;
    assert(recs.take(0) =~= Seq::<Seq<Seq<char>>>::empty());
    assert(ref_views(result@) =~= Seq::<(Seq<char>, Seq<char>)>::empty());
    while i < all.len()
        invariant
            i <= all@.len(),
            recs == record_views(all@),
            f == (|f: Seq<Seq<char>>| ref_of(f)),
            ref_views(result@) == filter_map(recs.take(i as int), f),
        decreases all@.len() - i,
    {
        let ghost before = ref_views(result@);
        proof {
            lemma_filter_map_step(recs, f, i as int);
            assert(recs[i as int] == texts(all@[i as int]@));
        }
        if all[i].len() == 2 {
            let pair = (all[i][0].clone(), all[i][1].clone());
            result.push(pair);
            assert(ref_views(result@) =~= before.push((pair.0@, pair.1@)));
        }
        i = i + 1;
    }
    assert(recs.take(recs.len() as int) =~= recs);
    result
}

/// What a ref of that name points to: its symbolic target, or itself. `None` if there is
/// no such ref.
pub open spec fn target_of(refs: Seq<(Seq<char>, Seq<char>)>, name: Seq<char>) -> Option<Seq<char>>
    decreases refs.len(),
{
    if refs.len() == 0 {
        None
    } else if refs[0].0 == name {
        Some(
            if refs[0].1.len() == 0 {
                refs[0].0
            } else {
                refs[0].1
            },
        )
    } else {
        target_of(refs.drop_first(), name)
    }
}

/// A ref without its `refs/remotes/` or `refs/heads/`.
pub open spec fn short_name(full_ref: Seq<char>) -> Seq<char> {
    match strip_prefix(full_ref, "refs/remotes/"@) {
        Some(s) => s,
        None => match strip_prefix(full_ref, "refs/heads/"@) {
            Some(s) => s,
            None => full_ref,
        },
    }
}

/// The default branch: what the first of the patterns that exists points to.
pub open spec fn picked_default(
    patterns: Seq<Seq<char>>,
    refs: Seq<(Seq<char>, Seq<char>)>,
) -> Option<DefaultView>
    decreases patterns.len(),
{
    if patterns.len() == 0 {
        None
    } else {
        match target_of(refs, patterns[0]) {
            Some(full_ref) => Some(DefaultView { full_ref, short: short_name(full_ref) }),
            None => picked_default(patterns.drop_first(), refs),
        }
    }
}

/// The index of the ref of that name.
fn find_ref(refs: &[(String, String)], name: &str) -> (r: Option<usize>)
    ensures
        match r {
            Some(i) => i < refs@.len() && target_of(ref_views(refs@), name@) == Some(
                if refs@[i as int].1@.len() == 0 {
                    refs@[i as int].0@
                } else {
                    refs@[i as int].1@
                },
            ),
            None => target_of(ref_views(refs@), name@) is None,
        },
{
    let ghost all = ref_views(refs@);
    let n: usize = refs.len();
    let mut i: usize = 0;
    assert(all.skip(0) =~= all);
    while i < n
        invariant
            i <= n,
            n == refs@.len(),
            all == ref_views(refs@),
            target_of(all.skip(i as int), name@) == target_of(all, name@),
        decreases n - i,
    {
        assert(all.skip(i as int)[0] == (refs@[i as int].0@, refs@[i as int].1@));
        assert(all.skip(i as int).drop_first() =~= all.skip(i + 1));
        if same_str(refs[i].0.as_str(), name) {
            return Some(i);
        }
        i = i + 1;
    }
    None
}

/// `refs` are `(refname, symref-target)` pairs that exist, `patterns` in priority order.
pub fn pick_default_branch(patterns: &[String], refs: &[(String, String)]) -> (r: Option<DefaultBranch>)
    ensures
        default_opt(r) == picked_default(texts(patterns@), ref_views(refs@)),
{
    let ghost all = texts(patterns@);
    let n: usize = patterns.len();
    let mut i: usize = 0;
    assert(all.skip(0) =~= all);
    while i < n
        invariant
            i <= n,
            n == patterns@.len(),
            all == texts(patterns@),
            picked_default(all.skip(i as int), ref_views(refs@)) == picked_default(
                all,
                ref_views(refs@),
            ),
        decreases n - i,
    {
        assert(all.skip(i as int)[0] == patterns@[i as int]@);
        assert(all.skip(i as int).drop_first() =~= all.skip(i + 1));
        match find_ref(refs, patterns[i].as_str()) {
            Some(k) => {
                let full_ref = if refs[k].1.as_str().is_empty() {
                    refs[k].0.clone()
                } else {
                    refs[k].1.clone()
                };
                return Some(DefaultBranch { short: short_ref(full_ref.as_str()), full_ref });
            },
            None => {},
        }
        i = i + 1;
    }
    None
}

/// A ref without its `refs/remotes/` or `refs/heads/`.
pub fn short_ref(full_ref: &str) -> (r: String)
    ensures
        r@ == short_name(full_ref@),
{
    let chars = chars_of(full_ref);
    match after_text(chars.as_slice(), "refs/remotes/") {
        Some(s) => string_of(s),
        None => match after_text(chars.as_slice(), "refs/heads/") {
            Some(s) => string_of(s),
            None => full_ref.to_owned(),
        },
    }
}

/// What a rebase leaves in its directory: the step it is at, how many there are, and the
/// branch. Each is the content of a file, if it could be read.
#[derive(Debug, PartialEq, Eq)]
pub struct RebaseFiles {
    pub number: Option<String>,
    pub total: Option<String>,
    pub head_name: Option<String>,
}

#[verifier::ext_equal]
pub ghost struct RebaseView {
    pub number: Option<Seq<char>>,
    pub total: Option<Seq<char>>,
    pub head_name: Option<Seq<char>>,
}

impl View for RebaseFiles {
    type V = RebaseView;

    open spec fn view(&self) -> RebaseView {
        RebaseView {
            number: text_opt(self.number),
            total: text_opt(self.total),
            head_name: text_opt(self.head_name),
        }
    }
}

/// The marker files in a git dir.
#[derive(Debug, PartialEq, Eq)]
pub struct GitDirMarkers {
    /// `rebase-merge/` with `msgnum`, `end` and `head-name`.
    pub rebase_merge: Option<RebaseFiles>,
    /// `rebase-apply/` with `next`, `last` and `head-name`.
    pub rebase_apply: Option<RebaseFiles>,
    /// `rebase-apply/applying`.
    pub applying: bool,
    pub merge_head: bool,
    pub cherry_pick_head: bool,
    pub revert_head: bool,
    pub bisect_log: bool,
}

/// The number in a file.
pub open spec fn file_number(content: Option<Seq<char>>) -> Option<u32> {
    match content {
        Some(s) => parse_u32(trim(s)),
        None => None,
    }
}

/// The rebase that its files describe.
pub open spec fn rebasing(files: RebaseView) -> OpView {
    OpView::Rebasing {
        step: match (file_number(files.number), file_number(files.total)) {
            (Some(n), Some(total)) => Some((n, total)),
            _ => None,
        },
        branch: match files.head_name {
            Some(name) => Some(strip_all(trim(name), "refs/heads/"@)),
            None => None,
        },
    }
}

impl GitDirMarkers {
    /// What git is in the middle of.
    pub open spec fn op(self) -> Option<OpView> {
        if self.rebase_merge is Some {
            Some(rebasing(self.rebase_merge.unwrap()@))
        } else if self.rebase_apply is Some {
            if self.applying {
                Some(OpView::ApplyingMailbox)
            } else {
                Some(rebasing(self.rebase_apply.unwrap()@))
            }
        } else if self.merge_head {
            Some(OpView::Merging)
        } else if self.cherry_pick_head {
            Some(OpView::CherryPicking)
        } else if self.revert_head {
            Some(OpView::Reverting)
        } else if self.bisect_log {
            Some(OpView::Bisecting)
        } else {
            None
        }
    }
}

fn read_number(content: &Option<String>) -> (r: Option<u32>)
    ensures
        r == file_number(text_opt(*content)),
{
    match content {
        Some(s) => {
            let chars = chars_of(s.as_str());
            read_u32(trimmed(&chars))
        },
        None => None,
    }
}

fn read_rebase(files: &RebaseFiles) -> (r: RepoOp)
    ensures
        r@ == rebasing(files@),
{
    let step = match (read_number(&files.number), read_number(&files.total)) {
        (Some(n), Some(total)) => Some((n, total)),
        _ => None,
    };
    let branch = match &files.head_name {
        Some(name) => {
            let chars = chars_of(name.as_str());
            let prefix = chars_of("refs/heads/");
            Some(string_of(stripped_all(trimmed(&chars), prefix.as_slice())))
        },
        None => None,
    };
    RepoOp::Rebasing { step, branch }
}

/// Detects an in-progress rebase/merge/etc. from marker files in the git dir.
pub fn repo_op(markers: &GitDirMarkers) -> (r: Option<RepoOp>)
    ensures
        op_opt(r) == markers.op(),
{
    match &markers.rebase_merge {
        Some(files) => return Some(read_rebase(files)),
        None => {},
    }
    match &markers.rebase_apply {
        Some(files) => {
            if markers.applying {
                return Some(RepoOp::ApplyingMailbox);
            }
            return Some(read_rebase(files));
        },
        None => {},
    }
    if markers.merge_head {
        Some(RepoOp::Merging)
    } else if markers.cherry_pick_head {
        Some(RepoOp::CherryPicking)
    } else if markers.revert_head {
        Some(RepoOp::Reverting)
    } else if markers.bisect_log {
        Some(RepoOp::Bisecting)
    } else {
        None
    }
}

/// The later of two times, if any.
pub open spec fn later(a: Option<u64>, b: Option<u64>) -> Option<u64> {
    match (a, b) {
        (Some(x), Some(y)) => Some(
            if x >= y {
                x
            } else {
                y
            },
        ),
        (Some(x), None) => Some(x),
        (None, y) => y,
    }
}

/// Most recent FETCH_HEAD write for this worktree (`git_dir`) or the shared repo
/// (`common_dir`).
pub fn last_fetch(git_dir: Option<u64>, common_dir: Option<u64>) -> (r: Option<u64>)
    ensures
        r == later(git_dir, common_dir),
{
    match (git_dir, common_dir) {
        (Some(x), Some(y)) => Some(
            if x >= y {
                x
            } else {
                y
            },
        ),
        (Some(x), None) => Some(x),
        (None, y) => y,
    }
}

/// The status of a bare repo: what HEAD names, and the commit there.
pub open spec fn bare_status(branch: Option<Seq<char>>, oid: Seq<char>) -> StatusView {
    StatusView {
        branch: match branch {
            Some(b) => Some(trim(b)),
            None => None,
        },
        oid: if trim(oid).len() == 0 {
            None
        } else {
            Some(trim(oid))
        },
        ..StatusView::empty()
    }
}

/// The lines of a text.
pub fn list_remotes(text: &str) -> (r: Vec<String>)
    ensures
        texts(r@) == lines(text@),
{
    let chars = chars_of(text);
    let all = split_lines(chars.as_slice());
    let ghost ls = views(all@);
    let mut out: Vec<String> = Vec::new();
    let mut i: usize = 0;
    while i < all.len()
        invariant
            i <= all@.len(),
            ls == views(all@),
            texts(out@) == ls.take(i as int),
        decreases all@.len() - i,
    {
        push_string(&mut out, string_of(all[i]));
        assert(ls.take(i + 1) =~= ls.take(i as int).push(ls[i as int]));
        i = i + 1;
    }
    assert(ls.take(ls.len() as int) =~= ls);
    out
}

/// Where a summary stands: which command's reply comes next, and what is known so far.
#[derive(Debug, PartialEq, Eq)]
pub enum SummaryStage {
    BareBranch,
    BareOid { branch: Option<String> },
    Status,
    Remotes { status: StatusReport },
    Default { status: StatusReport, remotes: Vec<String>, patterns: Vec<String> },
    Base { status: StatusReport, remotes: Vec<String>, default: DefaultBranch },
}

/// What a summary needs from git's commands.
#[derive(Debug, PartialEq, Eq)]
pub struct SummaryParts {
    pub status: StatusReport,
    pub remotes: Vec<String>,
    pub default_branch: Option<DefaultBranch>,
    pub base: Option<BaseDivergence>,
}

/// What to do next.
#[derive(Debug, PartialEq, Eq)]
pub enum SummaryStep {
    Run { cmd: GitCommand, stage: SummaryStage },
    Done { parts: SummaryParts },
    Failed { error: GitError },
}

#[verifier::ext_equal]
pub ghost enum StageView {
    BareBranch,
    BareOid { branch: Option<Seq<char>> },
    Status,
    Remotes { status: StatusView },
    Default { status: StatusView, remotes: Seq<Seq<char>>, patterns: Seq<Seq<char>> },
    Base { status: StatusView, remotes: Seq<Seq<char>>, default: DefaultView },
}

#[verifier::ext_equal]
pub ghost struct PartsView {
    pub status: StatusView,
    pub remotes: Seq<Seq<char>>,
    pub default_branch: Option<DefaultView>,
    pub base: Option<BaseView>,
}

#[verifier::ext_equal]
pub ghost enum StepView {
    Run { cmd: CommandView, stage: StageView },
    Done { parts: PartsView },
    Failed { error: ErrorView },
}

impl View for SummaryStage {
    type V = StageView;

    open spec fn view(&self) -> StageView {
        match self {
            SummaryStage::BareBranch => StageView::BareBranch,
            SummaryStage::BareOid { branch } => StageView::BareOid { branch: text_opt(*branch) },
            SummaryStage::Status => StageView::Status,
            SummaryStage::Remotes { status } => StageView::Remotes { status: status@ },
            SummaryStage::Default { status, remotes, patterns } => StageView::Default {
                status: status@,
                remotes: texts(remotes@),
                patterns: texts(patterns@),
            },
            SummaryStage::Base { status, remotes, default } => StageView::Base {
                status: status@,
                remotes: texts(remotes@),
                default: default@,
            },
        }
    }
}

impl View for SummaryParts {
    type V = PartsView;

    open spec fn view(&self) -> PartsView {
        PartsView {
            status: self.status@,
            remotes: texts(self.remotes@),
            default_branch: default_opt(self.default_branch),
            base: base_opt(self.base),
        }
    }
}

impl View for SummaryStep {
    type V = StepView;

    open spec fn view(&self) -> StepView {
        match self {
            SummaryStep::Run { cmd, stage } => StepView::Run { cmd: cmd@, stage: stage@ },
            SummaryStep::Done { parts } => StepView::Done { parts: parts@ },
            SummaryStep::Failed { error } => StepView::Failed { error: error@ },
        }
    }
}

/// The command that a stage waits for.
pub open spec fn stage_command(cwd: Seq<u8>, stage: StageView) -> CommandView {
    match stage {
        StageView::BareBranch => read_command(
            cwd,
            seq!["symbolic-ref"@, "-q"@, "--short"@, "HEAD"@],
        ),
        StageView::BareOid { .. } => CommandView {
            // Exit code 1 just means there are no commits yet.
            ok_codes: seq![1i32],
            ..read_command(cwd, seq!["rev-parse"@, "-q"@, "--verify"@, "HEAD^{commit}"@])
        },
        StageView::Status => read_command(
            cwd,
            seq![
                "status"@,
                "--porcelain=v2"@,
                "--branch"@,
                "--show-stash"@,
                "-z"@,
                "--untracked-files=normal"@,
            ],
        ),
        StageView::Remotes { .. } => read_command(cwd, seq!["remote"@]),
        StageView::Default { patterns, .. } => default_command(cwd, patterns),
        StageView::Base { default, .. } => read_command(
            cwd,
            seq!["rev-list"@, "--left-right"@, "--count"@, "HEAD..."@ + default.full_ref],
        ),
    }
}

/// Runs the command that a stage waits for.
pub open spec fn await_stage(cwd: Seq<u8>, stage: StageView) -> StepView {
    StepView::Run { cmd: stage_command(cwd, stage), stage }
}

/// The divergence from the default branch that git counted.
pub open spec fn divergence(default: DefaultView, text: Seq<char>) -> Option<BaseView> {
    match two_counts(text) {
        Some((ahead, behind)) => Some(BaseView { base: default.short, ahead, behind }),
        None => None,
    }
}

/// What follows once the default branch is known: counting against it, if there is one
/// and HEAD has commits.
pub open spec fn after_default(
    cwd: Seq<u8>,
    status: StatusView,
    remotes: Seq<Seq<char>>,
    default: Option<DefaultView>,
) -> StepView {
    match (default, status.head()) {
        (Some(d), HeadView::Branch(_)) => await_stage(
            cwd,
            StageView::Base { status, remotes, default: d },
        ),
        (Some(d), HeadView::Detached(_)) => await_stage(
            cwd,
            StageView::Base { status, remotes, default: d },
        ),
        _ => StepView::Done {
            parts: PartsView { status, remotes, default_branch: default, base: None },
        },
    }
}

/// What follows on a command's reply. Any failure ends the summary, but for a bare repo
/// whose HEAD names no branch.
pub open spec fn summary_next(cwd: Seq<u8>, stage: StageView, reply: Result<OutputView, ErrorView>) -> StepView {
    match (stage, reply) {
        (StageView::BareBranch, Ok(out)) => await_stage(
            cwd,
            StageView::BareOid { branch: Some(out.text()) },
        ),
        (StageView::BareBranch, Err(_)) => await_stage(cwd, StageView::BareOid { branch: None }),
        (_, Err(error)) => StepView::Failed { error },
        (StageView::BareOid { branch }, Ok(out)) => await_stage(
            cwd,
            StageView::Remotes { status: bare_status(branch, out.text()) },
        ),
        (StageView::Status, Ok(out)) => await_stage(
            cwd,
            StageView::Remotes { status: status_in(out.stdout) },
        ),
        (StageView::Remotes { status }, Ok(out)) => {
            let remotes = lines(out.text());
            await_stage(
                cwd,
                StageView::Default {
                    status,
                    remotes,
                    patterns: default_patterns(main_remote(remotes, status.upstream)),
                },
            )
        },
        (StageView::Default { status, remotes, patterns }, Ok(out)) => after_default(
            cwd,
            status,
            remotes,
            picked_default(patterns, refs_of(out.text())),
        ),
        (StageView::Base { status, remotes, default }, Ok(out)) => StepView::Done {
            parts: PartsView {
                status,
                remotes,
                default_branch: Some(default),
                base: divergence(default, out.text()),
            },
        },
    }
}

/// The command that a stage waits for.
fn command_for(cwd: &FsPath, stage: &SummaryStage) -> (r: GitCommand)
    ensures
        r@ == stage_command(cwd@, stage@),
{
    match stage {
        SummaryStage::BareBranch => {
            let args = vec!["symbolic-ref", "-q", "--short", "HEAD"];
            assert(str_views(args@) =~= seq!["symbolic-ref"@, "-q"@, "--short"@, "HEAD"@]);
            GitCommand::read(cwd, args)
        },
        SummaryStage::BareOid { branch: _ } => {
            let args = vec!["rev-parse", "-q", "--verify", "HEAD^{commit}"];
            assert(str_views(args@) =~= seq!["rev-parse"@, "-q"@, "--verify"@, "HEAD^{commit}"@]);
            let codes: Vec<i32> = vec![1];
            assert(codes@ =~= seq![1i32]);
            GitCommand::read(cwd, args).ok_codes(codes)
        },
        SummaryStage::Status => {
            let args = vec![
                "status",
                "--porcelain=v2",
                "--branch",
                "--show-stash",
                "-z",
                "--untracked-files=normal",
            ];
            assert(str_views(args@) =~= seq![
                "status"@,
                "--porcelain=v2"@,
                "--branch"@,
                "--show-stash"@,
                "-z"@,
                "--untracked-files=normal"@,
            ]);
            GitCommand::read(cwd, args)
        },
        SummaryStage::Remotes { status: _ } => {
            let args = vec!["remote"];
            assert(str_views(args@) =~= seq!["remote"@]);
            GitCommand::read(cwd, args)
        },
        SummaryStage::Default { status: _, remotes: _, patterns } => default_branch_command(
            cwd,
            patterns,
        ),
        SummaryStage::Base { status: _, remotes: _, default } => {
            let range = cat2("HEAD...", default.full_ref.as_str());
            let args = vec!["rev-list", "--left-right", "--count", range.as_str()];
            assert(str_views(args@) =~= seq![
                "rev-list"@,
                "--left-right"@,
                "--count"@,
                "HEAD..."@ + default.full_ref@,
            ]);
            GitCommand::read(cwd, args)
        },
    }
}

/// Runs the command that a stage waits for.
fn run_stage(cwd: &FsPath, stage: SummaryStage) -> (r: SummaryStep)
    ensures
        r@ == await_stage(cwd@, stage@),
{
    SummaryStep::Run { cmd: command_for(cwd, &stage), stage }
}

/// The first step of a repo's summary.
pub fn summarize(repo: &RepoLocation) -> (r: SummaryStep)
    ensures
        r@ == await_stage(
            repo@.root,
            if repo@.bare {
                StageView::BareBranch
            } else {
                StageView::Status
            },
        ),
{
    if repo.bare {
        run_stage(&repo.root, SummaryStage::BareBranch)
    } else {
        run_stage(&repo.root, SummaryStage::Status)
    }
}

/// The status of a bare repo.
fn read_bare_status(branch: Option<String>, oid: &str) -> (r: StatusReport)
    ensures
        r@ == bare_status(text_opt(branch), oid@),
{
    let oid = trimmed_text(oid);
    let mut status = StatusReport::default();
    status.branch = match branch {
        Some(b) => Some(trimmed_text(b.as_str())),
        None => None,
    };
    status.oid = if oid.as_str().is_empty() {
        None
    } else {
        Some(oid)
    };
    status
}

/// A string slice of an optional string.
pub fn as_str_opt(s: &Option<String>) -> (r: Option<&str>)
    ensures
        str_opt(r) == text_opt(*s),
{
    match s {
        Some(s) => Some(s.as_str()),
        None => None,
    }
}

/// The next step of a repo's summary, on a command's reply.
pub fn summarize_next(repo: &RepoLocation, stage: SummaryStage, reply: Result<GitOutput, GitError>) -> (r:
    SummaryStep)
    ensures
        r@ == summary_next(repo@.root, stage@, reply_view(reply)),
{
    match reply {
        Err(error) => match stage {
            SummaryStage::BareBranch => run_stage(
                &repo.root,
                SummaryStage::BareOid { branch: None },
            ),
            _ => SummaryStep::Failed { error },
        },
        Ok(out) => match stage {
            SummaryStage::BareBranch => run_stage(
                &repo.root,
                SummaryStage::BareOid { branch: Some(out.stdout_str()) },
            ),
            SummaryStage::BareOid { branch } => {
                let oid = out.stdout_str();
                let status = read_bare_status(branch, oid.as_str());
                run_stage(&repo.root, SummaryStage::Remotes { status })
            },
            SummaryStage::Status => run_stage(
                &repo.root,
                SummaryStage::Remotes { status: status_v2(out.stdout.as_slice()) },
            ),
            SummaryStage::Remotes { status } => {
                let text = out.stdout_str();
                let remotes = list_remotes(text.as_str());
                let patterns = default_branch_patterns(
                    remotes.as_slice(),
                    as_str_opt(&status.upstream),
                );
                run_stage(&repo.root, SummaryStage::Default { status, remotes, patterns })
            },
            SummaryStage::Default { status, remotes, patterns } => {
                let text = out.stdout_str();
                let refs = default_branch_refs(text.as_str());
                let default = pick_default_branch(patterns.as_slice(), refs.as_slice());
                let counted = match status.head() {
                    Head::Branch(_) => true,
                    Head::Detached(_) => true,
                    Head::Unborn(_) => false,
                };
                match default {
                    Some(default) => {
                        if counted {
                            run_stage(&repo.root, SummaryStage::Base { status, remotes, default })
                        } else {
                            SummaryStep::Done {
                                parts: SummaryParts {
                                    status,
                                    remotes,
                                    default_branch: Some(default),
                                    base: None,
                                },
                            }
                        }
                    },
                    None => SummaryStep::Done {
                        parts: SummaryParts { status, remotes, default_branch: None, base: None },
                    },
                }
            },
            SummaryStage::Base { status, remotes, default } => {
                let text = out.stdout_str();
                let base = match left_right(text.as_str()) {
                    Some((ahead, behind)) => Some(
                        BaseDivergence { base: default.short.clone(), ahead, behind },
                    ),
                    None => None,
                };
                SummaryStep::Done {
                    parts: SummaryParts { status, remotes, default_branch: Some(default), base },
                }
            },
        },
    }
}

/// The summary of what git and the marker files said.
pub open spec fn summary_of(
    parts: PartsView,
    op: Option<OpView>,
    last_fetch: Option<u64>,
    shallow: bool,
) -> SummaryView {
    SummaryView {
        head: parts.status.head(),
        upstream: parts.status.tracking(),
        base: parts.base,
        changes: parts.status.counts(),
        stash_count: parts.status.stash_count,
        op,
        last_fetch,
        remotes: parts.remotes,
        default_branch: parts.default_branch,
        shallow,
    }
}

/// Puts a summary together: `op`, `last_fetch` and `shallow` come from files in the git dir.
pub fn finish_summary(
    parts: SummaryParts,
    op: Option<RepoOp>,
    last_fetch: Option<u64>,
    shallow: bool,
) -> (r: RepoSummary)
    requires
        parts.status.files@.len() <= u32::MAX,
    ensures
        r@ == summary_of(parts@, op_opt(op), last_fetch, shallow),
{
    RepoSummary {
        head: parts.status.head(),
        upstream: parts.status.upstream(),
        base: parts.base,
        changes: parts.status.change_counts(),
        stash_count: parts.status.stash_count,
        op,
        last_fetch,
        remotes: parts.remotes,
        default_branch: parts.default_branch,
        shallow,
    }
}

/// Summarising only reads: whatever git replies, the next command is one that must not
/// write to the repo.
pub proof fn law_summary_only_reads(cwd: Seq<u8>, stage: StageView, reply: Result<OutputView, ErrorView>)
    ensures
        stage_command(cwd, stage).kind == CmdKind::Read,
        summary_next(cwd, stage, reply) matches StepView::Run { cmd, .. } ==> cmd.kind == CmdKind::Read,
{
}

} // verus!
