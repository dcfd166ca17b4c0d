//! The rows of the lists, and the panels' titles.

use vstd::prelude::*;

use crate::model::{
    Branch, BranchView, Commit, CommitView, DefaultBranch, DefaultView, FileEntry, FileKind, FileView, Head, HeadView,
    ReflogEntry, ReflogView, Remote, RemoteBranch, RemoteBranchView, RemoteView, StashEntry, StashView, Submodule,
    SubmoduleView, SummaryView, RepoSummary, Tag, TagView, Upstream, UpstreamView, Worktree, WorktreeView,
};
use crate::path::last_name;
use crate::store::{among_paths, has_path, EntryView, RepoEntry, RepoStore, StoreView};
use crate::text::number::{decimal, decimal_string};
use crate::text::outside::{lossy_text, text_lossy};
use crate::text::seqs::views;
use crate::text::strings::{
    cat2, cat3, chars_of, lines, pad_right, padded_right, push_string, same_str, split_lines, string_of, text_opt,
    texts,
};
use crate::ui::line::{age, age_of, blank, bold, color, cut, padded, plain, truncate, Line, SpanView};
use crate::ui::panel::{PaneView, Panel};
use crate::ui::spans::{
    arrows, arrows_text, author_color, color_of_author, compact_refs, cut_bytes, first_bytes, health, health_of, initials,
    initials_text, last_part, mark_column, refs_text, short_base, upstream_spans, with_mark, with_upstream,
};
use crate::ui::theme::{Color, ACTIVE_BORDER, BLUE, CYAN, DIM, GREEN, INACTIVE_BORDER, MAGENTA, RED, YELLOW};
use crate::ui::workspace::{ints, items, Workspace, WorkspaceView};

verus! {

/// The spinner's pictures.
pub open spec fn spinner_frames() -> Seq<&'static str> {
    seq!["⠋", "⠙", "⠹", "⠸", "⠼", "⠴", "⠦", "⠧", "⠇", "⠏"]
}

/// A status letter as it is shown.
pub open spec fn shown_status(c: char) -> char {
    if c == '.' {
        ' '
    } else {
        c
    }
}

/// A file's row.
pub open spec fn file_row(f: FileView) -> Seq<SpanView> {
    let (x, y) = if f.kind == FileKind::Untracked {
        ('?', '?')
    } else {
        (shown_status(f.index), shown_status(f.worktree))
    };
    let status = if f.kind == FileKind::Unmerged {
        color(blank(), seq![x, y], RED)
    } else {
        color(color(blank(), seq![x], GREEN), seq![y], RED)
    };
    color(
        plain(status, " "@),
        match f.orig_path {
            Some(orig) => orig + " → "@ + f.path,
            None => f.path,
        },
        if f.unstaged() {
            RED
        } else {
            GREEN
        },
    )
}

/// A text of one character.
fn char_text(c: char) -> (r: String)
    ensures
        r@ == seq![c],
{
    let mut text = String::new();
    text.push(c);
    assert(text@ =~= seq![c]);
    text
}

/// A file's row.
fn show_file(f: &FileEntry) -> (r: Line)
    ensures
        r@ == file_row(f@),
{
    let mut line = Line::new();
    let (x, y) = if f.kind == FileKind::Untracked {
        ('?', '?')
    } else {
        (
            if f.index == '.' {
                ' '
            } else {
                f.index
            },
            if f.worktree == '.' {
                ' '
            } else {
                f.worktree
            },
        )
    };
    let mut index = char_text(x);
    let worktree = char_text(y);
    if f.kind == FileKind::Unmerged {
        index.push(y);
        assert(index@ =~= seq![x, y]);
        line.color(index.as_str(), RED);
    } else {
        line.color(index.as_str(), GREEN);
        line.color(worktree.as_str(), RED);
    }
    line.push(" ");
    let c: Color = if f.has_unstaged() {
        RED
    } else {
        GREEN
    };
    match &f.orig_path {
        Some(orig) => {
            let text = cat3(orig.as_str(), " → ", f.path.as_str());
            line.color(text.as_str(), c);
        },
        None => {
            line.color(f.path.as_str(), c);
        },
    }
    line
}

/// A worktree's row.
pub open spec fn worktree_row(w: WorktreeView) -> Seq<SpanView> {
    color(
        plain(
            plain(
                color(
                    blank(),
                    if w.is_current {
                        "* "@
                    } else {
                        "  "@
                    },
                    GREEN,
                ),
                match last_name(w.path) {
                    Some(name) => lossy_text(name),
                    None => Seq::empty(),
                },
            ),
            " "@,
        ),
        match w.branch {
            Some(branch) => branch,
            None => "(detached)"@,
        },
        BLUE,
    )
}

/// A worktree's row.
fn show_worktree(w: &Worktree) -> (r: Line)
    ensures
        r@ == worktree_row(w@),
{
    let mut line = Line::new();
    line.color(
        if w.is_current {
            "* "
        } else {
            "  "
        },
        GREEN,
    );
    if let Some(name) = w.path.file_name() {
        let text = text_lossy(name.as_slice());
        line.push(text.as_str());
    }
    line.push(" ");
    line.color(
        match &w.branch {
            Some(branch) => branch.as_str(),
            None => "(detached)",
        },
        BLUE,
    );
    line
}

/// A submodule's row.
pub open spec fn submodule_row(s: SubmoduleView) -> Seq<SpanView> {
    color(
        plain(
            color(
                blank(),
                seq![s.state, ' '],
                if s.state == ' ' {
                    GREEN
                } else if s.state == '-' {
                    DIM
                } else {
                    YELLOW
                },
            ),
            s.path,
        ),
        " "@ + s.short_oid,
        DIM,
    )
}

/// A submodule's row.
fn show_submodule(s: &Submodule) -> (r: Line)
    ensures
        r@ == submodule_row(s@),
{
    let mut line = Line::new();
    let mut state = char_text(s.state);
    state.push(' ');
    assert(state@ =~= seq![s.state, ' ']);
    line.color(
        state.as_str(),
        if s.state == ' ' {
            GREEN
        } else if s.state == '-' {
            DIM
        } else {
            YELLOW
        },
    );
    line.push(s.path.as_str());
    let oid = cat2(" ", s.short_oid.as_str());
    line.color(oid.as_str(), DIM);
    line
}

/// How far a branch is from the default branch, unless it is that or level with it.
pub open spec fn with_base(
    line: Seq<SpanView>,
    name: Seq<char>,
    counts: Option<(u32, u32)>,
    default: Option<DefaultView>,
) -> Seq<SpanView> {
    match (counts, default) {
        (Some((ahead, behind)), Some(base)) => if last_part(base.short) != name && (ahead > 0 || behind > 0) {
            color(line, " "@ + last_part(base.short) + arrows_text(ahead, behind), MAGENTA)
        } else {
            line
        },
        _ => line,
    }
}

/// A branch's row.
pub open spec fn branch_row(b: BranchView, default: Option<DefaultView>, now: u64) -> Seq<SpanView> {
    let start = color(blank(), pad_right(age_of(b.committed, now), 4), DIM);
    let named = if b.is_head {
        bold(start, "* "@ + b.name, GREEN)
    } else {
        plain(start, "  "@ + b.name)
    };
    let based = with_base(with_upstream(named, b.upstream), b.name, b.base, default);
    if b.worktree is Some {
        color(based, " (worktree)"@, CYAN)
    } else {
        based
    }
}

/// A branch's row.
fn show_branch(b: &Branch, default: Option<&DefaultBranch>, now: u64) -> (r: Line)
    ensures
        r@ == branch_row(
            b@,
            match default {
                Some(d) => Some(d@),
                None => None,
            },
            now,
        ),
{
    let mut line = Line::new();
    let when = age(b.committed, now);
    let column = padded_right(when.as_str(), 4);
    line.color(column.as_str(), DIM);
    if b.is_head {
        let text = cat2("* ", b.name.as_str());
        line.bold(text.as_str(), GREEN);
    } else {
        let text = cat2("  ", b.name.as_str());
        line.push(text.as_str());
    }
    upstream_spans(&mut line, &b.upstream);
    match (b.base, default) {
        (Some((ahead, behind)), Some(base)) => {
            let name = short_base(base.short.as_str());
            if !same_str(name.as_str(), b.name.as_str()) && (ahead > 0 || behind > 0) {
                let marker = arrows(ahead, behind);
                let text = cat3(" ", name.as_str(), marker.as_str());
                line.color(text.as_str(), MAGENTA);
            }
        },
        _ => {},
    }
    if b.worktree.is_some() {
        line.color(" (worktree)", CYAN);
    }
    line
}

/// A remote branch's row.
pub open spec fn remote_row(b: RemoteBranchView) -> Seq<SpanView> {
    plain(color(blank(), b.remote + "/"@, DIM), b.name)
}

/// A remote branch's row.
fn show_remote(b: &RemoteBranch) -> (r: Line)
    ensures
        r@ == remote_row(b@),
{
    let mut line = Line::new();
    let remote = cat2(b.remote.as_str(), "/");
    line.color(remote.as_str(), DIM);
    line.push(b.name.as_str());
    line
}

/// A tag's row.
pub open spec fn tag_row(t: TagView) -> Seq<SpanView> {
    color(color(blank(), t.name, YELLOW), " "@ + t.subject, DIM)
}

/// A tag's row.
fn show_tag(t: &Tag) -> (r: Line)
    ensures
        r@ == tag_row(t@),
{
    let mut line = Line::new();
    line.color(t.name.as_str(), YELLOW);
    let subject = cat2(" ", t.subject.as_str());
    line.color(subject.as_str(), DIM);
    line
}

/// The names of some remotes.
pub open spec fn remote_names(remotes: Seq<RemoteView>) -> Seq<Seq<char>> {
    remotes.map_values(|r: RemoteView| r.name)
}

/// A commit's row, with its author's initials.
pub open spec fn commit_row_with(c: CommitView, remotes: Seq<RemoteView>, initials: Seq<char>) -> Seq<SpanView> {
    let start = color(
        color(blank(), c.short_oid, YELLOW),
        " "@ + initials + " "@,
        color_of_author(c.author),
    );
    let refs = refs_text(c.refs, remote_names(remotes));
    let named = if refs.len() > 0 {
        bold(start, cut(refs, 32) + " "@, CYAN)
    } else {
        start
    };
    plain(named, c.subject)
}

/// A commit's row.
pub open spec fn commit_row(c: CommitView, remotes: Seq<RemoteView>) -> Seq<SpanView> {
    commit_row_with(c, remotes, initials_text(c.author))
}

/// The names of some remotes.
fn names_of_remotes(remotes: &Vec<Remote>) -> (r: Vec<String>)
    ensures
        texts(r@) == remote_names(remotes@.map_values(|r: Remote| r@)),
{
    let ghost all = remote_names(remotes@.map_values(|r: Remote| r@));
    let mut out: Vec<String> = Vec::new();
    let mut i: usize = 0;
    assert(texts(out@) =~= all.take(0));
    while i < remotes.len()
        invariant
            i <= remotes@.len(),
            all == remote_names(remotes@.map_values(|r: Remote| r@)),
            texts(out@) == all.take(i as int),
        decreases remotes@.len() - i,
    {
        push_string(&mut out, remotes[i].name.clone());
        assert(all.take(i + 1) =~= all.take(i as int).push(all[i as int]));
        i = i + 1;
    }
    assert(all.take(all.len() as int) =~= all);
    out
}

/// A commit's row, with its author's initials.
pub fn show_commit_with(c: &Commit, remotes: &Vec<Remote>, initials: &str) -> (r: Line)
    ensures
        r@ == commit_row_with(c@, remotes@.map_values(|r: Remote| r@), initials@),
{
    let mut line = Line::new();
    line.color(c.short_oid.as_str(), YELLOW);
    let who = cat3(" ", initials, " ");
    line.color(who.as_str(), author_color(c.author.as_str()));
    let names = names_of_remotes(remotes);
    let refs = compact_refs(c.refs.as_str(), &names);
    if !refs.as_str().is_empty() {
        let short = truncate(refs.as_str(), 32);
        let text = cat2(short.as_str(), " ");
        line.bold(text.as_str(), CYAN);
    }
    line.push(c.subject.as_str());
    line
}

/// A commit's row.
fn show_commit(c: &Commit, remotes: &Vec<Remote>) -> (r: Line)
    ensures
        r@ == commit_row(c@, remotes@.map_values(|r: Remote| r@)),
{
    let letters = initials(c.author.as_str());
    show_commit_with(c, remotes, letters.as_str())
}

/// A reflog entry's row.
pub open spec fn reflog_row(e: ReflogView, now: u64) -> Seq<SpanView> {
    plain(
        color(color(blank(), e.short_oid, YELLOW), " "@ + pad_right(age_of(e.time, now), 4), DIM),
        e.subject,
    )
}

/// A reflog entry's row.
fn show_reflog(e: &ReflogEntry, now: u64) -> (r: Line)
    ensures
        r@ == reflog_row(e@, now),
{
    let mut line = Line::new();
    line.color(e.short_oid.as_str(), YELLOW);
    let when = age(e.time, now);
    let column = padded_right(when.as_str(), 4);
    let text = cat2(" ", column.as_str());
    line.color(text.as_str(), DIM);
    line.push(e.subject.as_str());
    line
}

/// A stash's row.
pub open spec fn stash_row(s: StashView, now: u64) -> Seq<SpanView> {
    plain(
        color(
            color(blank(), pad_right(age_of(s.time, now), 4), DIM),
            decimal(s.index) + " "@,
            DIM,
        ),
        s.subject,
    )
}

/// A stash's row.
fn show_stash(s: &StashEntry, now: u64) -> (r: Line)
    ensures
        r@ == stash_row(s@, now),
{
    let mut line = Line::new();
    let when = age(s.time, now);
    let column = padded_right(when.as_str(), 4);
    line.color(column.as_str(), DIM);
    let number = decimal_string(s.index as u64);
    let text = cat2(number.as_str(), " ");
    line.color(text.as_str(), DIM);
    line.push(s.subject.as_str());
    line
}

/// The first line of a text.
pub open spec fn top_line(text: Seq<char>) -> Seq<char> {
    if lines(text).len() > 0 {
        lines(text)[0]
    } else {
        Seq::empty()
    }
}

/// The first line of a text.
pub fn top_line_of(text: &str) -> (r: String)
    ensures
        r@ == top_line(text@),
{
    let chars = chars_of(text);
    let ls = split_lines(chars.as_slice());
    assert(views(ls@).len() == ls@.len());
    if ls.len() > 0 {
        assert(views(ls@)[0] == ls@[0]@);
        string_of(ls[0])
    } else {
        let none = String::new();
        assert(none@ =~= Seq::<char>::empty());
        none
    }
}

/// What is checked out, in its colour: a branch, or a commit cut short.
pub open spec fn with_head(line: Seq<SpanView>, head: HeadView, max: int) -> Seq<SpanView> {
    match head {
        HeadView::Branch(b) => color(line, cut(b, max), BLUE),
        HeadView::Unborn(b) => color(line, cut(b, max), BLUE),
        HeadView::Detached(oid) => color(line, "@"@ + first_bytes(oid, 7), YELLOW),
    }
}

/// What is checked out, in its colour.
fn push_head(line: &mut Line, head: &Head, max: usize)
    ensures
        final(line)@ == with_head(old(line)@, head@, max as int),
{
    match head {
        Head::Branch(b) => {
            let name = truncate(b.as_str(), max);
            line.color(name.as_str(), BLUE);
        },
        Head::Unborn(b) => {
            let name = truncate(b.as_str(), max);
            line.color(name.as_str(), BLUE);
        },
        Head::Detached(oid) => {
            let short = cut_bytes(oid.as_str(), 7);
            let text = cat2("@", short.as_str());
            line.color(text.as_str(), YELLOW);
        },
    }
}

/// Whether the branch that is checked out is the default branch, tracking the remote's.
pub open spec fn on_base(s: SummaryView) -> bool {
    match s.base {
        Some(b) => s.head.branch() == Some(last_part(b.base)) && (s.upstream matches UpstreamView::Tracking {
            name,
            ahead,
            behind,
        } && name == b.base),
        None => false,
    }
}

/// What a repo's row says after its name.
pub open spec fn with_state(line: Seq<SpanView>, s: SummaryView, fetch_failed: bool) -> Seq<SpanView> {
    let up = with_upstream(with_head(line, s.head, 22), s.upstream);
    let based = match s.base {
        Some(b) => if !on_base(s) && (b.ahead > 0 || b.behind > 0) {
            color(up, " "@ + last_part(b.base) + arrows_text(b.ahead, b.behind), MAGENTA)
        } else {
            up
        },
        None => up,
    };
    let changed = if s.changes.files > 0 {
        color(
            based,
            " *"@ + decimal(s.changes.files as nat),
            if s.changes.conflicted > 0 {
                RED
            } else {
                YELLOW
            },
        )
    } else {
        based
    };
    let busy = match s.op {
        Some(op) => color(changed, " ("@ + op.label() + ")"@, YELLOW),
        None => changed,
    };
    if fetch_failed {
        color(busy, " fetch failed"@, RED)
    } else {
        busy
    }
}

/// What a repo's row says after its name.
fn push_state(line: &mut Line, s: &RepoSummary, fetch_failed: bool)
    ensures
        final(line)@ == with_state(old(line)@, s@, fetch_failed),
{
    push_head(line, &s.head, 22);
    upstream_spans(line, &s.upstream);
    if let Some(base) = &s.base {
        let name = short_base(base.base.as_str());
        let there = match s.head.branch_name() {
            Some(branch) => same_str(branch, name.as_str()),
            None => false,
        };
        let tracks = match &s.upstream {
            Upstream::Tracking { name, ahead: _, behind: _ } => same_str(name.as_str(), base.base.as_str()),
            _ => false,
        };
        if !(there && tracks) && (base.ahead > 0 || base.behind > 0) {
            let marker = arrows(base.ahead, base.behind);
            let text = cat3(" ", name.as_str(), marker.as_str());
            line.color(text.as_str(), MAGENTA);
        }
    }
    if s.changes.files > 0 {
        let count = decimal_string(s.changes.files as u64);
        let text = cat2(" *", count.as_str());
        line.color(
            text.as_str(),
            if s.changes.conflicted > 0 {
                RED
            } else {
                YELLOW
            },
        );
    }
    if let Some(op) = &s.op {
        let label = op.label();
        let text = cat3(" (", label.as_str(), ")");
        line.color(text.as_str(), YELLOW);
    }
    if fetch_failed {
        line.color(" fetch failed", RED);
    }
}

impl WorkspaceView {
    /// The spinner's picture.
    pub open spec fn spinner_frame(self) -> Seq<char> {
        spinner_frames()[self.spinner as int % 10]@
    }

    /// Whether a panel takes the keys.
    pub open spec fn is_active(self, panel: Panel) -> bool {
        self.focused == panel && self.dialog is None && self.filter is None
    }

    /// A repo's glyph.
    pub open spec fn repo_glyph(self, e: EntryView) -> (Seq<char>, Color) {
        if e.busy is Some {
            (self.spinner_frame(), CYAN)
        } else if e.error is Some {
            ("⚠"@, RED)
        } else {
            match e.summary {
                Some(s) => health_of(s, e.fetch_error is Some),
                None => ("·"@, DIM),
            }
        }
    }

    /// A repo's row.
    pub open spec fn repo_row(self, e: EntryView, name_width: int) -> Seq<SpanView> {
        let marks = self.marked.len() > 0;
        let start = if marks {
            with_mark(blank(), among_paths(self.marked, e.location.root))
        } else {
            blank()
        };
        let (glyph, c) = self.repo_glyph(e);
        let named = padded(
            plain(plain(color(start, glyph, c), " "@), cut(e.location.name, name_width)),
            if marks {
                name_width + 5
            } else {
                name_width + 3
            },
        );
        match e.summary {
            Some(s) => with_state(named, s, e.fetch_error is Some),
            None => match e.error {
                Some(error) => color(named, cut(top_line(error), 60), RED),
                None => named,
            },
        }
    }

    /// The row of an item.
    pub open spec fn row(self, view: PaneView, ix: int, store: StoreView, name_width: int, now: u64) -> Seq<
        SpanView,
    > {
        if view == PaneView::Repos {
            self.repo_row(store.repos[ix], name_width)
        } else {
            match store.selected_detail() {
                None => blank(),
                Some(d) => match view {
                    PaneView::Files => file_row(d.files[ix]),
                    PaneView::Worktrees => worktree_row(d.worktrees[ix]),
                    PaneView::Submodules => submodule_row(d.submodules[ix]),
                    PaneView::Branches => branch_row(d.branches[ix], selected_default(store), now),
                    PaneView::Remotes => remote_row(d.remote_branches[ix]),
                    PaneView::Tags => tag_row(d.tags[ix]),
                    PaneView::Commits => commit_row(d.commits[ix], d.remotes),
                    PaneView::Reflog => reflog_row(d.reflog[ix], now),
                    PaneView::Stash => stash_row(d.stashes[ix], now),
                    _ => blank(),
                },
            }
        }
    }

    /// The tabs in a title, up to one of them.
    pub open spec fn title_tabs(self, panel: Panel, n: nat) -> Seq<SpanView>
        decreases n,
    {
        let active = self.is_active(panel);
        let tabs = panel.tab_names();
        if n == 0 {
            color(
                color(blank(), "["@ + panel.key()@ + "]"@, DIM),
                "─"@,
                if active {
                    ACTIVE_BORDER
                } else {
                    INACTIVE_BORDER
                },
            )
        } else {
            let before = self.title_tabs(panel, (n - 1) as nat);
            let dashed = if n > 1 {
                plain(before, " - "@)
            } else {
                before
            };
            let tab = tabs[n - 1]@;
            if n - 1 == self.tabs.of(panel) && (tabs.len() > 1 || active) {
                if active {
                    bold(dashed, tab, ACTIVE_BORDER)
                } else {
                    color(dashed, tab, ACTIVE_BORDER)
                }
            } else {
                plain(dashed, tab)
            }
        }
    }

    /// A panel's title: `[2]─Files - Worktrees - Submodules` with the current tab
    /// highlighted, its filter, and how many repos are marked.
    pub open spec fn panel_title(self, panel: Panel) -> Seq<SpanView> {
        let tabs = self.title_tabs(panel, panel.tab_names().len());
        let filtered = match self.filters[self.view_of(panel).place()] {
            Some(filter) if filter.len() > 0 => color(tabs, " (filter: "@ + filter + ")"@, CYAN),
            _ => tabs,
        };
        if panel == Panel::Repos && self.marked.len() > 0 {
            color(filtered, " ("@ + decimal(self.marked.len()) + " marked)"@, CYAN)
        } else {
            filtered
        }
    }

    /// A panel's footer: which item the cursor is on.
    pub open spec fn panel_footer(self, panel: Panel, store: StoreView) -> Option<Seq<char>> {
        let view = self.view_of(panel);
        if view.lists() {
            let n = self.visible(view, store).len();
            Some(
                if n == 0 {
                    "0 of 0"@
                } else {
                    decimal((self.cursor(view, n) + 1) as nat) + " of "@ + decimal(n)
                },
            )
        } else {
            None
        }
    }

    /// What a panel says in place of an empty list.
    pub open spec fn empty_text(self, view: PaneView, store: StoreView) -> Seq<char> {
        if view == PaneView::Repos && store.scanning {
            "Scanning…"@
        } else if view != PaneView::Repos && store.selected is Some && store.selected_detail() is None {
            "Loading…"@
        } else {
            Seq::empty()
        }
    }

    /// How wide the names in the Repos column are, in a column of that many characters:
    /// room is left for branch and status.
    pub open spec fn name_width(self, store: StoreView, panel_chars: int) -> int {
        let reserved = if self.marked.len() > 0 {
            22
        } else {
            20int
        };
        let room = if panel_chars - reserved > 10 {
            panel_chars - reserved
        } else {
            10
        };
        let longest = longest_name(store.repos);
        if longest < room {
            longest
        } else {
            room
        }
    }
}

/// The longest of some repos' names.
pub open spec fn longest_name(repos: Seq<EntryView>) -> int
    decreases repos.len(),
{
    if repos.len() == 0 {
        0
    } else {
        let before = longest_name(repos.drop_last());
        if repos.last().location.name.len() > before {
            repos.last().location.name.len() as int
        } else {
            before
        }
    }
}

/// The selected repo's default branch.
pub open spec fn selected_default(store: StoreView) -> Option<DefaultView> {
    match store.selected_entry() {
        Some(entry) => match entry.summary {
            Some(s) => s.default_branch,
            None => None,
        },
        None => None,
    }
}

impl Workspace {
    /// The spinner's picture.
    pub fn spinner_frame(&self) -> (r: &'static str)
        ensures
            r@ == self@.spinner_frame(),
    {
        let frames = vec!["⠋", "⠙", "⠹", "⠸", "⠼", "⠴", "⠦", "⠧", "⠇", "⠏"];
        assert(frames@ =~= spinner_frames());
        frames[self.spinner % 10]
    }

    /// Whether a panel takes the keys.
    pub fn is_active(&self, panel: Panel) -> (r: bool)
        ensures
            r == self@.is_active(panel),
    {
        self.focused == panel && self.dialog.is_none() && self.filter.is_none()
    }

    /// A repo's row.
    pub fn repo_row(&self, entry: &RepoEntry, name_width: usize) -> (r: Line)
        requires
            name_width <= usize::MAX - 5,
        ensures
            r@ == self@.repo_row(entry@, name_width as int),
    {
        let mut line = Line::new();
        let mut name_end: usize = name_width + 3;
        if self.marked.len() > 0 {
            mark_column(&mut line, has_path(&self.marked, &entry.location.root));
            name_end = name_end + 2;
        }
        let (glyph, c) = if entry.busy.is_some() {
            (self.spinner_frame(), CYAN)
        } else if entry.error.is_some() {
            ("⚠", RED)
        } else {
            match &entry.summary {
                Some(s) => health(s, entry.fetch_error.is_some()),
                None => ("·", DIM),
            }
        };
        line.color(glyph, c);
        line.push(" ");
        let name = truncate(entry.name(), name_width);
        line.push(name.as_str());
        line.pad_to(name_end);
        match &entry.summary {
            Some(s) => {
                push_state(&mut line, s, entry.fetch_error.is_some());
            },
            None => {
                if let Some(error) = &entry.error {
                    let first = top_line_of(error.as_str());
                    let text = truncate(first.as_str(), 60);
                    line.color(text.as_str(), RED);
                }
            },
        }
        line
    }

    /// The row of an item.
    pub fn row(&self, view: PaneView, ix: usize, store: &RepoStore, name_width: usize, now: u64) -> (r: Line)
        requires
            ix < items(view, store@),
            name_width <= usize::MAX - 5,
        ensures
            r@ == self@.row(view, ix as int, store@, name_width as int, now),
    {
        if view == PaneView::Repos {
            return self.repo_row(&store.repos[ix], name_width);
        }
        let d = match store.selected_detail() {
            Some(d) => d,
            None => {
                return Line::new();
            },
        };
        match view {
            PaneView::Files => show_file(&d.files[ix]),
            PaneView::Worktrees => show_worktree(&d.worktrees[ix]),
            PaneView::Submodules => show_submodule(&d.submodules[ix]),
            PaneView::Branches => {
                let default = match store.selected_entry() {
                    Some(entry) => match &entry.summary {
                        Some(s) => s.default_branch.as_ref(),
                        None => None,
                    },
                    None => None,
                };
                show_branch(&d.branches[ix], default, now)
            },
            PaneView::Remotes => show_remote(&d.remote_branches[ix]),
            PaneView::Tags => show_tag(&d.tags[ix]),
            PaneView::Commits => show_commit(&d.commits[ix], &d.remotes),
            PaneView::Reflog => show_reflog(&d.reflog[ix], now),
            PaneView::Stash => show_stash(&d.stashes[ix], now),
            _ => Line::new(),
        }
    }

    /// The tabs in a title.
    fn title(&self, panel: Panel) -> (r: Line)
        ensures
            r@ == self@.title_tabs(panel, panel.tab_names().len()),
    {
        let active = self.is_active(panel);
        let tabs = panel.tabs();
        let current: usize = self.tab(panel);
        let mut line = Line::new();
        let key = cat3("[", panel.jump_key(), "]");
        line.color(key.as_str(), DIM);
        line.color(
            "─",
            if active {
                ACTIVE_BORDER
            } else {
                INACTIVE_BORDER
            },
        );
        let mut i: usize = 0;
        while i < tabs.len()
            invariant
                i <= tabs@.len(),
                tabs@ == panel.tab_names(),
                active == self@.is_active(panel),
                current == self@.tabs.of(panel),
                line@ == self@.title_tabs(panel, i as nat),
            decreases tabs@.len() - i,
        {
            if i > 0 {
                line.push(" - ");
            }
            if i == current && (tabs.len() > 1 || active) {
                if active {
                    line.bold(tabs[i], ACTIVE_BORDER);
                } else {
                    line.color(tabs[i], ACTIVE_BORDER);
                }
            } else {
                line.push(tabs[i]);
            }
            i = i + 1;
        }
        line
    }

    /// A panel's title.
    pub fn panel_title(&self, panel: Panel) -> (r: Line)
        requires
            self@.wf(),
        ensures
            r@ == self@.panel_title(panel),
    {
        let mut line = self.title(panel);
        let at: usize = self.view_of(panel).index();
        assert(self@.filters[at as int] == text_opt(self.filters@[at as int]));
        if let Some(filter) = &self.filters[at] {
            if !filter.as_str().is_empty() {
                let text = cat3(" (filter: ", filter.as_str(), ")");
                line.color(text.as_str(), CYAN);
            }
        }
        assert(self@.marked.len() == self.marked.len());
        if panel == Panel::Repos && self.marked.len() > 0 {
            let count = decimal_string(self.marked.len() as u64);
            let text = cat3(" (", count.as_str(), " marked)");
            line.color(text.as_str(), CYAN);
        }
        line
    }

    /// A panel's footer: which item the cursor is on.
    pub fn panel_footer(&self, panel: Panel, store: &RepoStore) -> (r: Option<String>)
        requires
            self@.wf(),
        ensures
            text_opt(r) == self@.panel_footer(panel, store@),
    {
        let view = self.view_of(panel);
        if !view.is_list() {
            return None;
        }
        let visible = self.visible(view, store);
        let n: usize = visible.len();
        assert(ints(visible@).len() == n);
        if n == 0 {
            return Some("0 of 0".to_owned());
        }
        let at = decimal_string(self.cursor(view, n) as u64 + 1);
        let count = decimal_string(n as u64);
        Some(cat3(at.as_str(), " of ", count.as_str()))
    }

    /// What a panel says in place of an empty list.
    pub fn empty_text(&self, view: PaneView, store: &RepoStore) -> (r: &'static str)
        ensures
            r@ == self@.empty_text(view, store@),
    {
        proof {
            reveal_strlit("");
            assert(""@ =~= Seq::<char>::empty());
        }
        if view == PaneView::Repos && store.scanning {
            "Scanning…"
        } else if view != PaneView::Repos && store.selected.is_some() && store.selected_detail().is_none() {
            "Loading…"
        } else {
            ""
        }
    }

    /// How wide the names in the Repos column are, in a column of that many characters.
    pub fn name_width(&self, store: &RepoStore, panel_chars: usize) -> (r: usize)
        ensures
            r == self@.name_width(store@, panel_chars as int),
    {
        let reserved: usize = if self.marked.len() > 0 {
            22
        } else {
            20
        };
        assert(self@.marked.len() == self.marked.len());
        let room: usize = if panel_chars > reserved && panel_chars - reserved > 10 {
            panel_chars - reserved
        } else {
            10
        };
        let ghost all = store@.repos;
        let mut longest: usize = 0;
        let mut i: usize = 0;
        assert(all.take(0) =~= Seq::<EntryView>::empty());
        while i < store.repos.len()
            invariant
                i <= store.repos@.len(),
                all == store@.repos,
                longest == longest_name(all.take(i as int)),
            decreases store.repos@.len() - i,
        {
            let ghost next = all.take(i + 1);
            assert(next.drop_last() =~= all.take(i as int));
            assert(next.last() == store.repos@[i as int]@);
            let n: usize = store.repos[i].name().unicode_len();
            if n > longest {
                longest = n;
            }
            i = i + 1;
        }
        assert(all.take(all.len() as int) =~= all);
        if longest < room {
            longest
        } else {
            room
        }
    }
}

} // verus!
