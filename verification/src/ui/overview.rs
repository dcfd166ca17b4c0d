//! The dashboard of all repos, a repo's status, the command log and the bottom bar.

use vstd::prelude::*;

use crate::model::{
    BaseDivergence, BaseView, ChangeCounts, Head, HeadView, Remote, RemoteView, RepoSummary, SummaryView, Upstream,
    UpstreamView,
};
use crate::path::same_path;
use crate::store::{among_paths, has_path, EntryView, RepoEntry, RepoStore, StoreView};
use crate::text::number::{decimal, decimal_string};
use crate::text::outside::{lossy_text, text_lossy};
use crate::text::seqs::join;
use crate::text::strings::{
    cat2, cat3, cat4, cat5, joined, pad_left, pad_right, padded_left, padded_right, push_string, text_opt, texts,
};
use crate::ui::line::{age, age_of, blank, bold, color, cut, line_views, plain, truncate, Line, SpanView};
use crate::ui::panel::PaneView;
use crate::ui::rows::{top_line, top_line_of};
use crate::ui::spans::{
    arrows, arrows_text, cut_bytes, first_bytes, health, health_of, last_part, mark_column, short_base, upstream_spans,
    with_mark, with_upstream,
};
use crate::ui::theme::{Color, BLUE, CYAN, DIM, GREEN, MAGENTA, RED, YELLOW};
use crate::ui::workspace::{Workspace, WorkspaceView};

verus! {

/// The dashboard's heading.
pub open spec fn overview_heading(name_w: int) -> Seq<SpanView> {
    bold(
        blank(),
        "  "@ + pad_right("REPO"@, name_w) + "  "@ + pad_right("BRANCH"@, 22) + " "@ + pad_right("UPSTREAM"@, 9)
            + " "@ + pad_right("VS DEFAULT"@, 16) + " "@ + pad_right("CHANGES"@, 16) + " "@ + pad_left("STASH"@, 5)
            + "  "@ + pad_right("FETCHED"@, 7) + " "@ + "STATE"@,
        DIM,
    )
}

/// Adds a text padded to a column.
fn push_column(out: &mut String, text: &str, width: usize)
    ensures
        final(out)@ == old(out)@ + pad_right(text@, width as int),
{
    let column = padded_right(text, width);
    out.push_str(column.as_str());
}

/// The dashboard's heading.
pub fn overview_header(name_w: usize) -> (r: Line)
    ensures
        r@ == overview_heading(name_w as int),
{
    let mut text = "  ".to_owned();
    push_column(&mut text, "REPO", name_w);
    text.push_str("  ");
    push_column(&mut text, "BRANCH", 22);
    text.push_str(" ");
    push_column(&mut text, "UPSTREAM", 9);
    text.push_str(" ");
    push_column(&mut text, "VS DEFAULT", 16);
    text.push_str(" ");
    push_column(&mut text, "CHANGES", 16);
    text.push_str(" ");
    let stash = padded_left("STASH", 5);
    text.push_str(stash.as_str());
    text.push_str("  ");
    push_column(&mut text, "FETCHED", 7);
    text.push_str(" ");
    text.push_str("STATE");
    let mut line = Line::new();
    line.bold(text.as_str(), DIM);
    line
}

/// What is checked out.
pub open spec fn head_text(head: HeadView) -> Seq<char> {
    match head {
        HeadView::Branch(b) => cut(b, 22),
        HeadView::Unborn(b) => cut(b, 22),
        HeadView::Detached(oid) => "@"@ + first_bytes(oid, 7),
    }
}

/// What is checked out.
fn show_head(head: &Head) -> (r: String)
    ensures
        r@ == head_text(head@),
{
    match head {
        Head::Branch(b) => truncate(b.as_str(), 22),
        Head::Unborn(b) => truncate(b.as_str(), 22),
        Head::Detached(oid) => {
            let short = cut_bytes(oid.as_str(), 7);
            cat2("@", short.as_str())
        },
    }
}

/// The upstream column.
pub open spec fn upstream_column(upstream: UpstreamView) -> (Seq<char>, Color) {
    match upstream {
        UpstreamView::Unset => ("-"@, DIM),
        UpstreamView::Gone { .. } => ("gone"@, RED),
        UpstreamView::Tracking { name, ahead, behind } => if ahead == 0 && behind == 0 {
            ("✓"@, GREEN)
        } else {
            (arrows_text(ahead, behind), YELLOW)
        },
    }
}

/// The upstream column.
fn show_upstream(upstream: &Upstream) -> (r: (String, Color))
    ensures
        (r.0@, r.1) == upstream_column(upstream@),
{
    match upstream {
        Upstream::Unset => ("-".to_owned(), DIM),
        Upstream::Gone { .. } => ("gone".to_owned(), RED),
        Upstream::Tracking { name: _, ahead, behind } => if *ahead == 0 && *behind == 0 {
            ("✓".to_owned(), GREEN)
        } else {
            (arrows(*ahead, *behind), YELLOW)
        },
    }
}

/// The column that compares with the default branch.
pub open spec fn base_column(base: Option<BaseView>) -> (Seq<char>, Color) {
    match base {
        None => ("-"@, DIM),
        Some(b) => if b.ahead == 0 && b.behind == 0 {
            (last_part(b.base) + " ✓"@, GREEN)
        } else {
            (last_part(b.base) + " "@ + arrows_text(b.ahead, b.behind), MAGENTA)
        },
    }
}

/// The column that compares with the default branch.
fn show_base(base: &Option<BaseDivergence>) -> (r: (String, Color))
    ensures
        (r.0@, r.1) == base_column(crate::model::base_opt(*base)),
{
    match base {
        None => ("-".to_owned(), DIM),
        Some(b) => {
            let name = short_base(b.base.as_str());
            if b.ahead == 0 && b.behind == 0 {
                (cat2(name.as_str(), " ✓"), GREEN)
            } else {
                let marker = arrows(b.ahead, b.behind);
                (cat3(name.as_str(), " ", marker.as_str()), MAGENTA)
            }
        },
    }
}

/// A count with its sign, if it isn't zero.
pub open spec fn with_count(parts: Seq<Seq<char>>, sign: Seq<char>, n: u32) -> Seq<Seq<char>> {
    if n > 0 {
        parts.push(sign + decimal(n as nat))
    } else {
        parts
    }
}

/// How many files have changes of each kind.
pub open spec fn changes_text(c: ChangeCounts) -> Seq<char> {
    if c.files == 0 {
        "clean"@
    } else {
        join(
            with_count(
                with_count(
                    with_count(with_count(Seq::empty(), "+"@, c.staged), "~"@, c.unstaged),
                    "?"@,
                    c.untracked,
                ),
                "!"@,
                c.conflicted,
            ),
            " "@,
        )
    }
}

/// Adds a count with its sign, if it isn't zero.
fn push_count(parts: &mut Vec<String>, sign: &str, n: u32)
    ensures
        texts(final(parts)@) == with_count(texts(old(parts)@), sign@, n),
{
    if n > 0 {
        let count = decimal_string(n as u64);
        push_string(parts, cat2(sign, count.as_str()));
    }
}

/// How many files have changes of each kind.
fn show_changes(c: &ChangeCounts) -> (r: String)
    ensures
        r@ == changes_text(*c),
{
    if c.files == 0 {
        return "clean".to_owned();
    }
    let mut parts: Vec<String> = Vec::new();
    assert(texts(parts@) =~= Seq::<Seq<char>>::empty());
    push_count(&mut parts, "+", c.staged);
    push_count(&mut parts, "~", c.unstaged);
    push_count(&mut parts, "?", c.untracked);
    push_count(&mut parts, "!", c.conflicted);
    joined(&parts, " ")
}

/// What goes on in a repo: the last column.
pub open spec fn with_activity(line: Seq<SpanView>, e: EntryView, s: SummaryView) -> Seq<SpanView> {
    match e.busy {
        Some(busy) => color(line, busy + "…"@, CYAN),
        None => match s.op {
            Some(op) => color(line, op.label(), YELLOW),
            None => match e.fetch_error {
                Some(error) => color(line, "fetch failed: "@ + cut(error, 60), RED),
                None => if s.shallow {
                    color(line, "shallow"@, DIM)
                } else {
                    line
                },
            },
        },
    }
}

/// A repo's row in the dashboard.
pub open spec fn overview_cells(e: EntryView, name_w: int, now: u64) -> Seq<SpanView> {
    let (glyph, c) = if e.error is Some {
        ("⚠"@, RED)
    } else {
        match e.summary {
            Some(s) => health_of(s, e.fetch_error is Some),
            None => ("·"@, DIM),
        }
    };
    let named = plain(
        plain(color(blank(), glyph, c), " "@),
        pad_right(cut(e.location.name, name_w), name_w) + "  "@,
    );
    match e.summary {
        None => match e.error {
            Some(error) => color(named, cut(top_line(error), 80), RED),
            None => named,
        },
        Some(s) => {
            let (up, up_color) = upstream_column(s.upstream);
            let (base, base_color) = base_column(s.base);
            let l1 = color(
                named,
                pad_right(head_text(s.head), 22) + " "@,
                if s.head is Detached {
                    YELLOW
                } else {
                    BLUE
                },
            );
            let l2 = color(l1, pad_right(up, 9) + " "@, up_color);
            let l3 = color(l2, pad_right(cut(base, 16), 16) + " "@, base_color);
            let l4 = color(
                l3,
                pad_right(changes_text(s.changes), 16) + " "@,
                if s.changes.conflicted > 0 {
                    RED
                } else if s.changes.files > 0 {
                    YELLOW
                } else {
                    DIM
                },
            );
            let l5 = color(
                l4,
                pad_left(
                    if s.stash_count > 0 {
                        decimal(s.stash_count as nat)
                    } else {
                        "-"@
                    },
                    5,
                ) + "  "@,
                DIM,
            );
            let l6 = color(
                l5,
                pad_right(
                    if s.last_fetch is Some {
                        age_of(s.last_fetch, now)
                    } else {
                        "never"@
                    },
                    7,
                ) + " "@,
                if e.fetch_error is Some {
                    RED
                } else {
                    DIM
                },
            );
            with_activity(l6, e, s)
        },
    }
}

/// Adds what goes on in a repo.
fn push_activity(line: &mut Line, entry: &RepoEntry, s: &RepoSummary)
    ensures
        final(line)@ == with_activity(old(line)@, entry@, s@),
{
    if let Some(busy) = &entry.busy {
        let text = cat2(busy.as_str(), "…");
        line.color(text.as_str(), CYAN);
    } else if let Some(op) = &s.op {
        let label = op.label();
        line.color(label.as_str(), YELLOW);
    } else if let Some(error) = &entry.fetch_error {
        let short = truncate(error.as_str(), 60);
        let text = cat2("fetch failed: ", short.as_str());
        line.color(text.as_str(), RED);
    } else if s.shallow {
        line.color("shallow", DIM);
    }
}

/// Adds a coloured text padded to a column.
fn push_cell(line: &mut Line, text: &str, width: usize, c: Color)
    ensures
        final(line)@ == color(old(line)@, pad_right(text@, width as int) + " "@, c),
{
    let column = padded_right(text, width);
    let cell = cat2(column.as_str(), " ");
    line.color(cell.as_str(), c);
}

/// A repo's row in the dashboard.
pub fn overview_row(entry: &RepoEntry, name_w: usize, now: u64) -> (r: Line)
    ensures
        r@ == overview_cells(entry@, name_w as int, now),
{
    let mut line = Line::new();
    let (glyph, c) = if entry.error.is_some() {
        ("⚠", RED)
    } else {
        match &entry.summary {
            Some(s) => health(s, entry.fetch_error.is_some()),
            None => ("·", DIM),
        }
    };
    line.color(glyph, c);
    line.push(" ");
    let short = truncate(entry.name(), name_w);
    let column = padded_right(short.as_str(), name_w);
    let name = cat2(column.as_str(), "  ");
    line.push(name.as_str());
    let s = match &entry.summary {
        Some(s) => s,
        None => {
            if let Some(error) = &entry.error {
                let first = top_line_of(error.as_str());
                let text = truncate(first.as_str(), 80);
                line.color(text.as_str(), RED);
            }
            return line;
        },
    };
    let head = show_head(&s.head);
    let head_color: Color = match &s.head {
        Head::Detached(_) => YELLOW,
        _ => BLUE,
    };
    push_cell(&mut line, head.as_str(), 22, head_color);
    let (up, up_color) = show_upstream(&s.upstream);
    push_cell(&mut line, up.as_str(), 9, up_color);
    let (base, base_color) = show_base(&s.base);
    let short_base = truncate(base.as_str(), 16);
    push_cell(&mut line, short_base.as_str(), 16, base_color);
    let changes = show_changes(&s.changes);
    let changes_color: Color = if s.changes.conflicted > 0 {
        RED
    } else if s.changes.files > 0 {
        YELLOW
    } else {
        DIM
    };
    push_cell(&mut line, changes.as_str(), 16, changes_color);
    let stashes = if s.stash_count > 0 {
        decimal_string(s.stash_count as u64)
    } else {
        "-".to_owned()
    };
    let column = padded_left(stashes.as_str(), 5);
    let text = cat2(column.as_str(), "  ");
    line.color(text.as_str(), DIM);
    let fetched = if s.last_fetch.is_some() {
        age(s.last_fetch, now)
    } else {
        "never".to_owned()
    };
    let fetched_color: Color = if entry.fetch_error.is_some() {
        RED
    } else {
        DIM
    };
    push_cell(&mut line, fetched.as_str(), 7, fetched_color);
    push_activity(&mut line, entry, s);
    line
}

/// The longest name among the first items of a list.
pub open spec fn longest_of(repos: Seq<EntryView>, visible: Seq<int>) -> int
    decreases visible.len(),
{
    if visible.len() == 0 {
        0
    } else {
        let before = longest_of(repos, visible.drop_last());
        let n = repos[visible.last()].location.name.len() as int;
        if n > before {
            n
        } else {
            before
        }
    }
}

/// A width within `4..=32`.
pub open spec fn name_column(longest: int) -> int {
    if longest < 4 {
        4
    } else if longest > 32 {
        32
    } else {
        longest
    }
}

impl WorkspaceView {
    /// How wide the dashboard's names are.
    pub open spec fn overview_width(self, store: StoreView) -> int {
        name_column(longest_of(store.repos, self.visible(PaneView::Repos, store)))
    }

    /// A line of the dashboard: the heading, then a row for each listed repo.
    pub open spec fn overview_line(self, store: StoreView, position: int, now: u64) -> Seq<SpanView> {
        let visible = self.visible(PaneView::Repos, store);
        let name_w = self.overview_width(store);
        let marks = self.marked.len() > 0;
        if position == 0 {
            (if marks {
                plain(blank(), "  "@)
            } else {
                blank()
            }) + overview_heading(name_w)
        } else if position - 1 < visible.len() {
            let e = store.repos[visible[position - 1]];
            (if marks {
                with_mark(blank(), among_paths(self.marked, e.location.root))
            } else {
                blank()
            }) + overview_cells(e, name_w, now)
        } else {
            blank()
        }
    }
}

impl Workspace {
    /// How wide the dashboard's names are.
    pub fn overview_width(&self, store: &RepoStore) -> (r: usize)
        requires
            self@.wf(),
        ensures
            r == self@.overview_width(store@),
    {
        let visible = self.visible(PaneView::Repos, store);
        let ghost all = self@.visible(PaneView::Repos, store@);
        proof {
            crate::ui::workspace::lemma_visible(self@, PaneView::Repos, store@);
        }
        let mut longest: usize = 0;
        let mut i: usize = 0;
        assert(all.take(0) =~= Seq::<int>::empty());
        while i < visible.len()
            invariant
                i <= visible@.len(),
                all == crate::ui::workspace::ints(visible@),
                forall|k: int| 0 <= k < all.len() ==> 0 <= #[trigger] all[k] < store@.repos.len(),
                longest == longest_of(store@.repos, all.take(i as int)),
            decreases visible@.len() - i,
        {
            let ghost next = all.take(i + 1);
            assert(next.drop_last() =~= all.take(i as int));
            assert(next.last() == all[i as int]);
            let ix: usize = visible[i];
            assert(all[i as int] == ix);
            assert(store@.repos[ix as int] == store.repos@[ix as int]@);
            let n: usize = store.repos[ix].name().unicode_len();
            if n > longest {
                longest = n;
            }
            i = i + 1;
        }
        assert(all.take(all.len() as int) =~= all);
        if longest < 4 {
            4
        } else if longest > 32 {
            32
        } else {
            longest
        }
    }

    /// A line of the dashboard: the heading, then a row for each listed repo.
    pub fn overview_line(&self, store: &RepoStore, position: usize, now: u64) -> (r: Line)
        requires
            self@.wf(),
        ensures
            r@ == self@.overview_line(store@, position as int, now),
    {
        let name_w: usize = self.overview_width(store);
        let marks = self.marked.len() > 0;
        assert(self@.marked.len() == self.marked.len());
        let mut line = Line::new();
        if position == 0 {
            if marks {
                line.push("  ");
            }
            line.append(overview_header(name_w));
            return line;
        }
        let visible = self.visible(PaneView::Repos, store);
        assert(crate::ui::workspace::ints(visible@).len() == visible@.len());
        if position - 1 < visible.len() {
            proof {
                crate::ui::workspace::lemma_visible(self@, PaneView::Repos, store@);
                assert(self@.visible(PaneView::Repos, store@)[position - 1] == visible@[position - 1]);
            }
            let entry = &store.repos[visible[position - 1]];
            if marks {
                mark_column(&mut line, has_path(&self.marked, &entry.location.root));
            }
            line.append(overview_row(entry, name_w, now));
        }
        line
    }
}

/// A line of a repo's status: what it is about, and what there is to say.
pub open spec fn status_entry(key: Seq<char>, value: Seq<SpanView>) -> Seq<SpanView> {
    color(blank(), pad_right(key, 14), DIM) + value
}

/// Adds a line to a repo's status.
fn push_status(out: &mut Vec<Line>, key: &str, value: Line)
    ensures
        line_views(final(out)@) == line_views(old(out)@).push(status_entry(key@, value@)),
{
    let ghost before = out@;
    let mut line = Line::new();
    let column = padded_right(key, 14);
    line.color(column.as_str(), DIM);
    line.append(value);
    out.push(line);
    assert(line_views(out@) =~= line_views(before).push(line@));
}

/// What is checked out, in a repo's status.
pub open spec fn status_head(s: SummaryView) -> Seq<SpanView> {
    let head = match s.head {
        HeadView::Branch(b) => color(blank(), b, BLUE),
        HeadView::Unborn(b) => color(blank(), b + " (no commits yet)"@, BLUE),
        HeadView::Detached(oid) => color(blank(), "detached at "@ + first_bytes(oid, 10), YELLOW),
    };
    match s.op {
        Some(op) => color(head, "  ("@ + op.label() + ")"@, YELLOW),
        None => head,
    }
}

/// What is checked out, in a repo's status.
fn show_status_head(s: &RepoSummary) -> (r: Line)
    ensures
        r@ == status_head(s@),
{
    let mut line = Line::new();
    match &s.head {
        Head::Branch(b) => {
            line.color(b.as_str(), BLUE);
        },
        Head::Unborn(b) => {
            let text = cat2(b.as_str(), " (no commits yet)");
            line.color(text.as_str(), BLUE);
        },
        Head::Detached(oid) => {
            let short = cut_bytes(oid.as_str(), 10);
            let text = cat2("detached at ", short.as_str());
            line.color(text.as_str(), YELLOW);
        },
    }
    if let Some(op) = &s.op {
        let label = op.label();
        let text = cat3("  (", label.as_str(), ")");
        line.color(text.as_str(), YELLOW);
    }
    line
}

/// The upstream, in a repo's status.
pub open spec fn status_upstream(upstream: UpstreamView) -> Seq<SpanView> {
    match upstream {
        UpstreamView::Unset => color(blank(), "none"@, DIM),
        UpstreamView::Gone { name } => color(blank(), name + " (upstream gone)"@, RED),
        UpstreamView::Tracking { name, ahead, behind } => {
            let marked = with_upstream(plain(blank(), name), upstream);
            let pushed = if ahead > 0 {
                color(marked, "  "@ + decimal(ahead as nat) + " to push"@, DIM)
            } else {
                marked
            };
            if behind > 0 {
                color(pushed, "  "@ + decimal(behind as nat) + " to pull"@, DIM)
            } else {
                pushed
            }
        },
    }
}

/// The upstream, in a repo's status.
fn show_status_upstream(upstream: &Upstream) -> (r: Line)
    ensures
        r@ == status_upstream(upstream@),
{
    let mut line = Line::new();
    match upstream {
        Upstream::Unset => {
            line.color("none", DIM);
        },
        Upstream::Gone { name } => {
            let text = cat2(name.as_str(), " (upstream gone)");
            line.color(text.as_str(), RED);
        },
        Upstream::Tracking { name, ahead, behind } => {
            line.push(name.as_str());
            upstream_spans(&mut line, upstream);
            if *ahead > 0 {
                let count = decimal_string(*ahead as u64);
                let text = cat3("  ", count.as_str(), " to push");
                line.color(text.as_str(), DIM);
            }
            if *behind > 0 {
                let count = decimal_string(*behind as u64);
                let text = cat3("  ", count.as_str(), " to pull");
                line.color(text.as_str(), DIM);
            }
        },
    }
    line
}

/// How a repo compares with its default branch, in its status.
pub open spec fn status_base(base: Option<BaseView>) -> Seq<SpanView> {
    match base {
        Some(b) => {
            let name = plain(blank(), b.base);
            if b.ahead == 0 && b.behind == 0 {
                color(name, " ✓ up to date"@, GREEN)
            } else {
                color(
                    name,
                    " "@ + decimal(b.ahead as nat) + " ahead, "@ + decimal(b.behind as nat) + " behind"@,
                    MAGENTA,
                )
            }
        },
        None => color(blank(), "unknown"@, DIM),
    }
}

/// How a repo compares with its default branch, in its status.
fn show_status_base(base: &Option<BaseDivergence>) -> (r: Line)
    ensures
        r@ == status_base(crate::model::base_opt(*base)),
{
    let mut line = Line::new();
    match base {
        Some(b) => {
            line.push(b.base.as_str());
            if b.ahead == 0 && b.behind == 0 {
                line.color(" ✓ up to date", GREEN);
            } else {
                let ahead = decimal_string(b.ahead as u64);
                let behind = decimal_string(b.behind as u64);
                let text = cat5(" ", ahead.as_str(), " ahead, ", behind.as_str(), " behind");
                line.color(text.as_str(), MAGENTA);
            }
        },
        None => {
            line.color("unknown", DIM);
        },
    }
    line
}

/// The changes, in a repo's status.
pub open spec fn status_changes(c: ChangeCounts) -> Seq<SpanView> {
    if c.files == 0 {
        color(blank(), "clean"@, GREEN)
    } else {
        let counted = plain(
            color(
                plain(color(blank(), decimal(c.staged as nat) + " staged"@, GREEN), ", "@),
                decimal(c.unstaged as nat) + " unstaged"@,
                RED,
            ),
            ", "@ + decimal(c.untracked as nat) + " untracked"@,
        );
        if c.conflicted > 0 {
            color(counted, ", "@ + decimal(c.conflicted as nat) + " conflicted"@, RED)
        } else {
            counted
        }
    }
}

/// The changes, in a repo's status.
fn show_status_changes(c: &ChangeCounts) -> (r: Line)
    ensures
        r@ == status_changes(*c),
{
    let mut line = Line::new();
    if c.files == 0 {
        line.color("clean", GREEN);
        return line;
    }
    let staged = decimal_string(c.staged as u64);
    let text = cat2(staged.as_str(), " staged");
    line.color(text.as_str(), GREEN);
    line.push(", ");
    let unstaged = decimal_string(c.unstaged as u64);
    let text = cat2(unstaged.as_str(), " unstaged");
    line.color(text.as_str(), RED);
    let untracked = decimal_string(c.untracked as u64);
    let text = cat3(", ", untracked.as_str(), " untracked");
    line.push(text.as_str());
    if c.conflicted > 0 {
        let conflicted = decimal_string(c.conflicted as u64);
        let text = cat3(", ", conflicted.as_str(), " conflicted");
        line.color(text.as_str(), RED);
    }
    line
}

/// The last fetch, in a repo's status.
pub open spec fn status_fetch(last_fetch: Option<u64>, error: Option<Seq<char>>, now: u64) -> Seq<SpanView> {
    let when = match last_fetch {
        Some(t) => plain(blank(), age_of(Some(t), now) + " ago"@),
        None => color(blank(), "never"@, DIM),
    };
    match error {
        Some(error) => color(when, "  failed: "@ + error, RED),
        None => when,
    }
}

/// The last fetch, in a repo's status.
fn show_status_fetch(last_fetch: Option<u64>, error: &Option<String>, now: u64) -> (r: Line)
    ensures
        r@ == status_fetch(last_fetch, text_opt(*error), now),
{
    let mut line = Line::new();
    match last_fetch {
        Some(_) => {
            let when = age(last_fetch, now);
            let text = cat2(when.as_str(), " ago");
            line.push(text.as_str());
        },
        None => {
            line.color("never", DIM);
        },
    }
    if let Some(error) = error {
        let text = cat2("  failed: ", error.as_str());
        line.color(text.as_str(), RED);
    }
    line
}

/// What the summary adds to a repo's status.
pub open spec fn with_summary(lines: Seq<Seq<SpanView>>, e: EntryView, s: SummaryView, now: u64) -> Seq<
    Seq<SpanView>,
> {
    let known = lines.push(status_entry("HEAD"@, status_head(s))).push(
        status_entry("Upstream"@, status_upstream(s.upstream)),
    ).push(status_entry("Default branch"@, status_base(s.base))).push(
        status_entry("Changes"@, status_changes(s.changes)),
    ).push(status_entry("Stashes"@, plain(blank(), decimal(s.stash_count as nat)))).push(
        status_entry("Last fetch"@, status_fetch(s.last_fetch, e.fetch_error, now)),
    );
    if s.shallow {
        known.push(
            status_entry(
                "Note"@,
                color(blank(), "shallow clone: counts may be incomplete"@, YELLOW),
            ),
        )
    } else {
        known
    }
}

/// What the summary adds to a repo's status.
fn push_summary(out: &mut Vec<Line>, entry: &RepoEntry, s: &RepoSummary, now: u64)
    ensures
        line_views(final(out)@) == with_summary(line_views(old(out)@), entry@, s@, now),
{
    push_status(out, "HEAD", show_status_head(s));
    push_status(out, "Upstream", show_status_upstream(&s.upstream));
    push_status(out, "Default branch", show_status_base(&s.base));
    push_status(out, "Changes", show_status_changes(&s.changes));
    let stashes = decimal_string(s.stash_count as u64);
    push_status(out, "Stashes", Line::plain(stashes.as_str()));
    push_status(out, "Last fetch", show_status_fetch(s.last_fetch, &entry.fetch_error, now));
    if s.shallow {
        let mut note = Line::new();
        note.color("shallow clone: counts may be incomplete", YELLOW);
        push_status(out, "Note", note);
    }
}

/// What the remotes add to a repo's status.
pub open spec fn with_remotes(lines: Seq<Seq<SpanView>>, remotes: Seq<RemoteView>) -> Seq<Seq<SpanView>>
    decreases remotes.len(),
{
    if remotes.len() == 0 {
        lines
    } else {
        let r = remotes.last();
        with_remotes(lines, remotes.drop_last()).push(
            status_entry("Remote"@, color(plain(blank(), pad_right(r.name, 8) + " "@), r.url, DIM)),
        )
    }
}

/// What the remotes add to a repo's status.
fn push_remotes(out: &mut Vec<Line>, remotes: &Vec<Remote>)
    ensures
        line_views(final(out)@) == with_remotes(
            line_views(old(out)@),
            remotes@.map_values(|r: Remote| r@),
        ),
{
    let ghost start = line_views(out@);
    let ghost all = remotes@.map_values(|r: Remote| r@);
    let mut i: usize = 0;
    assert(all.take(0) =~= Seq::<RemoteView>::empty());
    while i < remotes.len()
        invariant
            i <= remotes@.len(),
            all == remotes@.map_values(|r: Remote| r@),
            line_views(out@) == with_remotes(start, all.take(i as int)),
        decreases remotes@.len() - i,
    {
        let ghost next = all.take(i + 1);
        assert(next.drop_last() =~= all.take(i as int));
        assert(next.last() == remotes@[i as int]@);
        let mut line = Line::new();
        let column = padded_right(remotes[i].name.as_str(), 8);
        let name = cat2(column.as_str(), " ");
        line.push(name.as_str());
        line.color(remotes[i].url.as_str(), DIM);
        push_status(out, "Remote", line);
        i = i + 1;
    }
    assert(all.take(all.len() as int) =~= all);
}

impl WorkspaceView {
    /// The selected repo's status.
    pub open spec fn status_lines(self, store: StoreView, now: u64) -> Seq<Seq<SpanView>> {
        match store.selected_entry() {
            None => Seq::empty(),
            Some(e) => {
                let named = Seq::<Seq<SpanView>>::empty().push(
                    status_entry("Repository"@, plain(blank(), e.location.name)),
                ).push(status_entry("Path"@, plain(blank(), lossy_text(e.location.root))));
                let linked = if !same_path(e.location.git_dir, e.location.common_dir) {
                    named.push(
                        status_entry("Worktree of"@, plain(blank(), lossy_text(e.location.common_dir))),
                    )
                } else {
                    named
                };
                let failed = match e.error {
                    Some(error) => linked.push(status_entry("Error"@, color(blank(), error, RED))),
                    None => linked,
                };
                let summed = match e.summary {
                    Some(s) => with_summary(failed, e, s, now),
                    None => failed,
                };
                let running = match e.busy {
                    Some(busy) => summed.push(
                        status_entry(
                            "Running"@,
                            color(blank(), self.spinner_frame() + " "@ + busy + "…"@, CYAN),
                        ),
                    ),
                    None => summed,
                };
                match store.selected_detail() {
                    Some(d) => with_remotes(running, d.remotes),
                    None => running,
                }
            },
        }
    }
}

impl Workspace {
    /// The selected repo's status.
    pub fn status_view(&self, store: &RepoStore, now: u64) -> (r: Vec<Line>)
        ensures
            line_views(r@) == self@.status_lines(store@, now),
    {
        let mut out: Vec<Line> = Vec::new();
        assert(line_views(out@) =~= Seq::<Seq<SpanView>>::empty());
        let entry = match store.selected_entry() {
            Some(entry) => entry,
            None => {
                return out;
            },
        };
        push_status(&mut out, "Repository", Line::plain(entry.name()));
        let root = text_lossy(entry.location.root.bytes.as_slice());
        push_status(&mut out, "Path", Line::plain(root.as_str()));
        if entry.location.is_linked_worktree() {
            let common = text_lossy(entry.location.common_dir.bytes.as_slice());
            push_status(&mut out, "Worktree of", Line::plain(common.as_str()));
        }
        if let Some(error) = &entry.error {
            let mut line = Line::new();
            line.color(error.as_str(), RED);
            push_status(&mut out, "Error", line);
        }
        if let Some(s) = &entry.summary {
            push_summary(&mut out, entry, s, now);
        }
        if let Some(busy) = &entry.busy {
            let mut line = Line::new();
            let text = cat4(self.spinner_frame(), " ", busy.as_str(), "…");
            line.color(text.as_str(), CYAN);
            push_status(&mut out, "Running", line);
        }
        if let Some(d) = store.selected_detail() {
            push_remotes(&mut out, &d.remotes);
        }
        out
    }
}

/// The Status panel's line.
pub open spec fn status_line_of(store: StoreView) -> Seq<SpanView> {
    match store.selected_entry() {
        None => color(blank(), "no repository selected"@, DIM),
        Some(e) => match e.summary {
            None => plain(blank(), e.location.name),
            Some(s) => {
                let up = match s.upstream {
                    UpstreamView::Tracking { name, ahead, behind } => if ahead == 0 && behind == 0 {
                        color(blank(), "✓ "@, GREEN)
                    } else {
                        color(blank(), arrows_text(ahead, behind) + " "@, YELLOW)
                    },
                    UpstreamView::Gone { .. } => color(blank(), "(upstream gone) "@, RED),
                    UpstreamView::Unset => blank(),
                };
                let busy = match s.op {
                    Some(op) => color(up, "("@ + op.label() + ") "@, YELLOW),
                    None => up,
                };
                let named = plain(plain(busy, e.location.name), " → "@);
                match s.head {
                    HeadView::Branch(b) => color(named, b, BLUE),
                    HeadView::Unborn(b) => color(named, b, BLUE),
                    HeadView::Detached(oid) => color(named, "@"@ + first_bytes(oid, 7), YELLOW),
                }
            },
        },
    }
}

/// The Status panel's line.
pub fn status_line(store: &RepoStore) -> (r: Line)
    ensures
        r@ == status_line_of(store@),
{
    let mut line = Line::new();
    let entry = match store.selected_entry() {
        Some(entry) => entry,
        None => {
            line.color("no repository selected", DIM);
            return line;
        },
    };
    let s = match &entry.summary {
        Some(s) => s,
        None => {
            line.push(entry.name());
            return line;
        },
    };
    match &s.upstream {
        Upstream::Tracking { name: _, ahead, behind } => {
            if *ahead == 0 && *behind == 0 {
                line.color("✓ ", GREEN);
            } else {
                let marker = arrows(*ahead, *behind);
                let text = cat2(marker.as_str(), " ");
                line.color(text.as_str(), YELLOW);
            }
        },
        Upstream::Gone { .. } => {
            line.color("(upstream gone) ", RED);
        },
        Upstream::Unset => {},
    }
    if let Some(op) = &s.op {
        let label = op.label();
        let text = cat3("(", label.as_str(), ") ");
        line.color(text.as_str(), YELLOW);
    }
    line.push(entry.name());
    line.push(" → ");
    match &s.head {
        Head::Branch(b) => {
            line.color(b.as_str(), BLUE);
        },
        Head::Unborn(b) => {
            line.color(b.as_str(), BLUE);
        },
        Head::Detached(oid) => {
            let short = cut_bytes(oid.as_str(), 7);
            let text = cat2("@", short.as_str());
            line.color(text.as_str(), YELLOW);
        },
    }
    line
}

} // verus!
