//! What is found under the workdir, and what is said of each repo.

use vstd::prelude::*;

use crate::discovery::{location_of, name_of, resolve_args, skip_dir, skip_dir_names, visit_of, EntryFacts, Visit};
use crate::git::parse::{status_in, two_counts};
use crate::git::{ErrorView, OutputView};
use crate::laws::text::law_numbers_are_read_back;
use crate::model::{DefaultView, HeadView, OpView, StatusView};
use crate::path::{below, components, last_name, within};
use crate::summary::{
    after_default, bare_status, default_patterns, divergence, later, main_remote, picked_default, rebasing, refs_of,
    short_name, stage_command, summary_next, summary_of, target_of, GitDirMarkers, PartsView, RebaseView, StageView,
    StepView,
};
use crate::text::number::decimal;
use crate::text::outside::lossy_text;
use crate::text::seqs::{join, strip_all};
use crate::text::strings::{lines, trim, utf8};

verus! {

/// The default branch is looked for on the remote: its `HEAD` first, then `main`, then
/// `master`. Without a remote it is the local `main`, then `master`.
pub proof fn law_default_branch_candidates(remote: Seq<char>)
    ensures
        ({
            let on = "refs/remotes/"@ + remote + "/"@;
            default_patterns(Some(remote)) == seq![on + "HEAD"@, on + "main"@, on + "master"@]
        }),
        default_patterns(None) == seq!["refs/heads/main"@, "refs/heads/master"@],
{
}

/// What a ref points to: what it is a name for, or itself if it is one of its own.
pub proof fn law_refs_lead_to_their_target(refs: Seq<(Seq<char>, Seq<char>)>, name: Seq<char>)
    ensures
        match target_of(refs, name) {
            Some(target) => exists|i: int|
                0 <= i < refs.len() && (#[trigger] refs[i]).0 == name && target == (if refs[i].1.len() > 0 {
                    refs[i].1
                } else {
                    name
                }),
            None => forall|i: int| 0 <= i < refs.len() ==> (#[trigger] refs[i]).0 != name,
        },
    decreases refs.len(),
{
    if refs.len() > 0 {
        let rest = refs.drop_first();
        law_refs_lead_to_their_target(rest, name);
        if refs[0].0 != name {
            match target_of(rest, name) {
                Some(target) => {
                    let i = choose|i: int|
                        0 <= i < rest.len() && (#[trigger] rest[i]).0 == name && target == (if rest[i].1.len() > 0 {
                            rest[i].1
                        } else {
                            name
                        });
                    assert(refs[i + 1] == rest[i]);
                },
                None => {
                    assert forall|i: int| 0 <= i < refs.len() implies (#[trigger] refs[i]).0 != name by {
                        if i > 0 {
                            assert(rest[i - 1] == refs[i]);
                        }
                    }
                },
            }
        }
    }
}

/// The default branch is where the first candidate that exists points to: none before it
/// exists, and there is none only if no candidate does.
pub proof fn law_first_candidate_wins(patterns: Seq<Seq<char>>, refs: Seq<(Seq<char>, Seq<char>)>)
    ensures
        match picked_default(patterns, refs) {
            Some(d) => exists|k: int|
                0 <= k < patterns.len() && target_of(refs, #[trigger] patterns[k]) == Some(d.full_ref) && forall|j: int|
                    0 <= j < k ==> target_of(refs, #[trigger] patterns[j]) is None,
            None => forall|j: int| 0 <= j < patterns.len() ==> target_of(refs, #[trigger] patterns[j]) is None,
        },
        picked_default(patterns, refs) matches Some(d) ==> d.short == short_name(d.full_ref),
    decreases patterns.len(),
{
    if patterns.len() > 0 {
        let rest = patterns.drop_first();
        law_first_candidate_wins(rest, refs);
        if target_of(refs, patterns[0]) is None {
            match picked_default(rest, refs) {
                Some(d) => {
                    let k = choose|k: int|
                        0 <= k < rest.len() && target_of(refs, #[trigger] rest[k]) == Some(d.full_ref) && forall|j: int|
                            0 <= j < k ==> target_of(refs, #[trigger] rest[j]) is None;
                    assert(patterns[k + 1] == rest[k]);
                    assert forall|j: int| 0 <= j < k + 1 implies target_of(refs, #[trigger] patterns[j]) is None by {
                        if j > 0 {
                            assert(rest[j - 1] == patterns[j]);
                        }
                    }
                },
                None => {
                    assert forall|j: int| 0 <= j < patterns.len() implies target_of(
                        refs,
                        #[trigger] patterns[j],
                    ) is None by {
                        if j > 0 {
                            assert(rest[j - 1] == patterns[j]);
                        }
                    }
                },
            }
        }
    }
}

/// A ref's short name is what follows `refs/remotes/` or `refs/heads/`.
pub proof fn law_short_names(name: Seq<char>, full: Seq<char>)
    ensures
        short_name("refs/remotes/"@ + name) == name,
        short_name("refs/heads/"@ + name) == name,
        !"refs/remotes/"@.is_prefix_of(full) && !"refs/heads/"@.is_prefix_of(full) ==> short_name(full) == full,
{
    reveal_strlit("refs/remotes/");
    assert("refs/remotes/"@.len() == 13);
    reveal_strlit("refs/heads/");
    assert("refs/heads/"@.len() == 11);
    let r = "refs/remotes/"@ + name;
    let h = "refs/heads/"@ + name;
    assert(r.take(13) =~= "refs/remotes/"@);
    assert(r.skip(13) =~= name);
    assert(h.take(11) =~= "refs/heads/"@);
    assert(h.skip(11) =~= name);
    assert(h[5] == 'h');
    assert("refs/remotes/"@[5] == 'r');
}

/// What git is in the middle of: a rebase comes before all else, then a merge, a
/// cherry-pick, a revert and a bisection; nothing exactly if no marker is there.
pub proof fn law_operations_are_recognised(m: GitDirMarkers)
    ensures
        m.op() is None <==> m.rebase_merge is None && m.rebase_apply is None && !m.merge_head && !m.cherry_pick_head
            && !m.revert_head && !m.bisect_log,
        m.op() matches Some(op) ==> {
            let no_rebase = m.rebase_merge is None && m.rebase_apply is None;
            &&& op is Rebasing <==> m.rebase_merge is Some || m.rebase_apply is Some && !m.applying
            &&& op is ApplyingMailbox <==> m.rebase_merge is None && m.rebase_apply is Some && m.applying
            &&& op is Merging <==> no_rebase && m.merge_head
            &&& op is CherryPicking <==> no_rebase && !m.merge_head && m.cherry_pick_head
            &&& op is Reverting <==> no_rebase && !m.merge_head && !m.cherry_pick_head && m.revert_head
            &&& op is Bisecting <==> no_rebase && !m.merge_head && !m.cherry_pick_head && !m.revert_head && m.bisect_log
        },
{
}

/// A rebase is at the step that its files say, out of as many as they say, of the branch that
/// they name.
pub proof fn law_rebases_tell_their_step(n: u32, total: u32, branch: Seq<char>)
    requires
        !"refs/heads/"@.is_prefix_of(branch),
        trim("refs/heads/"@ + branch) == "refs/heads/"@ + branch,
    ensures
        rebasing(
            (RebaseView {
                number: Some(decimal(n as nat)),
                total: Some(decimal(total as nat)),
                head_name: Some("refs/heads/"@ + branch),
            }),
        ) == (OpView::Rebasing { step: Some((n, total)), branch: Some(branch) }),
        rebasing((RebaseView { number: None, total: Some(decimal(total as nat)), head_name: None })) == (
        OpView::Rebasing { step: None, branch: None }),
{
    reveal_strlit("refs/heads/");
    assert("refs/heads/"@.len() == 11);
    law_numbers_are_read_back(n, 0);
    law_numbers_are_read_back(total, 0);
    let full = "refs/heads/"@ + branch;
    assert(full.take(11) =~= "refs/heads/"@);
    assert(full.skip(11) =~= branch);
    assert(strip_all(full, "refs/heads/"@) == branch) by {
        reveal_with_fuel(strip_all, 3);
    }
}

/// The last fetch is the later of the two times, and the one that is known if only one is.
pub proof fn law_later_fetch_counts(a: Option<u64>, b: Option<u64>)
    ensures
        later(a, b) is None <==> a is None && b is None,
        later(a, b) is Some ==> later(a, b) == a || later(a, b) == b,
        a is Some ==> later(a, b) is Some && later(a, b)->0 >= a->0,
        b is Some ==> later(a, b) is Some && later(a, b)->0 >= b->0,
{
}

/// HEAD is counted against the default branch: the left count is what it is ahead, the right
/// one what it is behind, under the default branch's short name.
pub proof fn law_divergence_is_counted_from_head(cwd: Seq<u8>, stage: StageView, default: DefaultView, text: Seq<char>)
    ensures
        stage matches StageView::Base { default: d, .. } ==> stage_command(cwd, stage).args[3] == "HEAD..."@ + d.full_ref
            && stage_command(cwd, stage).args[1] == "--left-right"@ && stage_command(cwd, stage).args[0] == "rev-list"@
            && stage_command(cwd, stage).args[2] == "--count"@,
        two_counts(text) matches Some((left, right)) ==> (divergence(default, text) matches Some(b) && b.base
            == default.short && b.ahead == left && b.behind == right),
        two_counts(text) is None ==> divergence(default, text) is None,
{
}

/// The status that is asked for is the one that is read: with the branch and the stashes, in
/// the machine format, untracked files included.
pub proof fn law_status_is_asked_for(cwd: Seq<u8>)
    ensures
        ({
            let args = stage_command(cwd, StageView::Status).args;
            &&& args[0] == "status"@
            &&& args.contains("--porcelain=v2"@) && args.contains("--branch"@) && args.contains("--show-stash"@)
            &&& args.contains("-z"@) && args.contains("--untracked-files=normal"@)
        }),
{
    let args = stage_command(cwd, StageView::Status).args;
    assert(args[1] == "--porcelain=v2"@ && args[2] == "--branch"@ && args[3] == "--show-stash"@ && args[4] == "-z"@
        && args[5] == "--untracked-files=normal"@);
}

/// HEAD is measured against the default branch exactly if there is one and HEAD has a commit;
/// else the summary is complete without. Nothing that is known gets lost on the way.
pub proof fn law_commits_are_measured(
    cwd: Seq<u8>,
    status: StatusView,
    remotes: Seq<Seq<char>>,
    default: Option<DefaultView>,
)
    ensures
        ({
            let next = after_default(cwd, status, remotes, default);
            &&& next is Run <==> default is Some && !(status.head() is Unborn)
            &&& next matches StepView::Run { cmd, stage } ==> stage == (StageView::Base {
                status,
                remotes,
                default: default->0,
            }) && cmd == stage_command(cwd, stage)
            &&& next matches StepView::Done { parts } ==> parts.status == status && parts.remotes == remotes
                && parts.default_branch == default && parts.base is None
            &&& !(next is Failed)
        }),
{
}

/// Each reply brings the summary on: the status is read, then the remotes, one per line, then
/// the default branch on the main one, then the divergence. A failure ends it, but for a bare
/// repo without a branch.
pub proof fn law_summaries_go_step_by_step(
    cwd: Seq<u8>,
    status: StatusView,
    remotes: Seq<Seq<char>>,
    patterns: Seq<Seq<char>>,
    default: DefaultView,
    branch: Option<Seq<char>>,
    out: OutputView,
    error: ErrorView,
    stage: StageView,
)
    ensures
        ({
            let next = summary_next(cwd, StageView::Status, Ok(out));
            next matches StepView::Run { cmd, stage } && stage == (StageView::Remotes { status: status_in(out.stdout) })
                && cmd == stage_command(cwd, stage) && cmd.args == seq!["remote"@]
        }),
        ({
            let next = summary_next(cwd, StageView::Remotes { status }, Ok(out));
            let found = lines(out.text());
            next matches StepView::Run { cmd, stage } && stage == (StageView::Default {
                status,
                remotes: found,
                patterns: default_patterns(main_remote(found, status.upstream)),
            }) && cmd == stage_command(cwd, stage)
        }),
        summary_next(cwd, StageView::Default { status, remotes, patterns }, Ok(out)) == after_default(
            cwd,
            status,
            remotes,
            picked_default(patterns, refs_of(out.text())),
        ),
        ({
            let next = summary_next(cwd, StageView::Base { status, remotes, default }, Ok(out));
            next matches StepView::Done { parts } && parts.status == status && parts.remotes == remotes
                && parts.default_branch == Some(default) && parts.base == divergence(default, out.text())
        }),
        ({
            let next = summary_next(cwd, StageView::BareOid { branch }, Ok(out));
            next matches StepView::Run { cmd, stage } && stage == (StageView::Remotes {
                status: bare_status(branch, out.text()),
            })
        }),
        !(stage is BareBranch) ==> summary_next(cwd, stage, Err(error)) == (StepView::Failed { error }),
        summary_next(cwd, StageView::BareBranch, Err(error)) is Run,
{
}

/// A bare repo has the branch that HEAD names, without the line's end, and the commit there;
/// no commit means that there is none yet.
pub proof fn law_bare_repos_have_a_head(branch: Seq<char>, oid: Seq<char>)
    ensures
        bare_status(Some(branch), oid).branch == Some(trim(branch)),
        bare_status(None, oid).branch is None,
        trim(oid).len() == 0 ==> bare_status(Some(branch), oid).head() == HeadView::Unborn(trim(branch)),
        trim(oid).len() > 0 ==> bare_status(Some(branch), oid).head() == HeadView::Branch(trim(branch)),
        trim(oid).len() > 0 ==> bare_status(None, oid).head() == HeadView::Detached(trim(oid)),
        bare_status(Some(branch), oid).files.len() == 0,
{
}

/// A summary tells what was found out, each thing under its own name.
pub proof fn law_summaries_tell_what_was_found(
    parts: PartsView,
    op: Option<OpView>,
    last_fetch: Option<u64>,
    shallow: bool,
)
    ensures
        ({
            let s = summary_of(parts, op, last_fetch, shallow);
            &&& s.head == parts.status.head()
            &&& s.upstream == parts.status.tracking()
            &&& s.changes == parts.status.counts()
            &&& s.stash_count == parts.status.stash_count
            &&& s.base == parts.base && s.remotes == parts.remotes && s.default_branch == parts.default_branch
            &&& s.op == op && s.last_fetch == last_fetch && s.shallow == shallow
        }),
{
}

/// Whether the walk leaves a directory out: a hidden one, or one of dependencies or build
/// outputs, but never the workdir itself.
pub open spec fn left_out(name: Seq<u8>, facts: EntryFacts) -> bool {
    facts.depth > 0 && (name.len() > 0 && name[0] == 0x2e || skip_dir(name))
}

/// A directory is a repository exactly if it has a `.git`, or else all the parts of a bare
/// repository, and isn't left out. The walk looks inside of all others, and of no repository.
pub proof fn law_repositories_are_recognised(name: Seq<u8>, facts: EntryFacts)
    requires
        facts.is_dir,
    ensures
        left_out(name, facts) ==> visit_of(name, facts) is Skip,
        !left_out(name, facts) ==> {
            let bare = facts.head_file && facts.objects_dir && facts.refs_dir;
            &&& visit_of(name, facts) == (Visit::Found { bare: false }) <==> facts.has_git
            &&& visit_of(name, facts) == (Visit::Found { bare: true }) <==> !facts.has_git && bare
            &&& visit_of(name, facts) is Descend <==> !facts.has_git && !bare
        },
{
}

/// A file is no repository, whatever its name.
pub proof fn law_files_are_walked_past(name: Seq<u8>, facts: EntryFacts)
    requires
        !facts.is_dir,
    ensures
        visit_of(name, facts) is Descend,
{
}

/// The directories that are never looked into, by name.
pub proof fn law_left_out_names()
    ensures
        skip_dir(utf8("node_modules")),
        skip_dir(utf8("target")),
        skip_dir(utf8("vendor")),
        skip_dir(utf8("dist")),
        skip_dir(utf8("build")),
        skip_dir(utf8(".build")),
        skip_dir(utf8(".venv")),
        skip_dir(utf8("venv")),
        skip_dir(utf8("__pycache__")),
        skip_dir(utf8(".gradle")),
        skip_dir(utf8(".next")),
        skip_dir(utf8("Pods")),
        skip_dir(utf8("DerivedData")),
        skip_dir_names().len() == 13,
{
    let n = skip_dir_names();
    assert(n[0] == "node_modules" && n[1] == "target" && n[2] == "vendor" && n[3] == "dist" && n[4] == "build" && n[5]
        == ".build" && n[6] == ".venv" && n[7] == "venv" && n[8] == "__pycache__" && n[9] == ".gradle" && n[10]
        == ".next" && n[11] == "Pods" && n[12] == "DerivedData");
}

/// A repository is where it was found, with the git dirs that git names, in their order, and
/// it is bare if git says so.
pub proof fn law_locations_are_what_git_says(workdir: Seq<u8>, root: Seq<u8>, ls: Seq<Seq<char>>)
    requires
        ls.len() >= 3,
    ensures
        ({
            let l = location_of(workdir, root, ls);
            &&& l.root == root
            &&& l.git_dir == vstd::utf8::encode_utf8(ls[0])
            &&& l.common_dir == vstd::utf8::encode_utf8(ls[1])
            &&& l.bare <==> trim(ls[2]) == "true"@
            &&& l.name == name_of(workdir, root)
        }),
        resolve_args()[2] == "--git-dir"@ && resolve_args()[3] == "--git-common-dir"@ && resolve_args()[4]
            == "--is-bare-repository"@,
        resolve_args()[0] == "rev-parse"@ && resolve_args()[1] == "--path-format=absolute"@,
        resolve_args().len() == 5,
{
}

/// A repository below the workdir is named by the directories that lead to it from there,
/// with slashes between them. Elsewhere, and for the workdir itself, its last name is used.
pub proof fn law_names_lead_from_the_workdir(workdir: Seq<u8>, root: Seq<u8>, first: Seq<u8>, last: Seq<u8>)
    ensures
        components(root) == components(workdir).push(last) ==> name_of(workdir, root) == lossy_text(last),
        components(root) == components(workdir).push(first).push(last) ==> name_of(workdir, root) == lossy_text(first)
            + "/"@ + lossy_text(last),
        (!within(root, workdir) || components(root) == components(workdir)) && last_name(root) == Some(last)
            ==> name_of(workdir, root) == lossy_text(last),
{
    let base = components(workdir);
    if components(root) == base.push(last) {
        assert(components(root).take(base.len() as int) =~= base);
        assert(below(root, workdir) =~= seq![last]);
        assert(crate::discovery::lossy_texts(seq![last]) =~= seq![lossy_text(last)]);
    }
    if components(root) == base.push(first).push(last) {
        assert(components(root).take(base.len() as int) =~= base);
        assert(below(root, workdir) =~= seq![first, last]);
        let parts = seq![lossy_text(first), lossy_text(last)];
        assert(crate::discovery::lossy_texts(seq![first, last]) =~= parts);
        assert(parts.drop_last() =~= seq![lossy_text(first)]);
        assert(join(seq![lossy_text(first)], "/"@) == lossy_text(first));
    }
}

} // verus!
