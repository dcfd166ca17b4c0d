//! What the lists say of each item.

use vstd::prelude::*;

use crate::model::{FileKind, FileView, RemoteBranchView, SummaryView, TagView, UpstreamView};
use crate::text::number::decimal;
use crate::ui::line::{age_text, blank, color, line_text, plain, with, SpanView, Style};
use crate::ui::rows::{file_row, remote_row, tag_row};
use crate::ui::spans::{arrows_text, health_of, with_upstream};
use crate::ui::theme::{BLUE, DIM, GREEN, RED, YELLOW};

verus! {

/// A line says what was put on it, one text after another.
pub proof fn law_lines_say_what_was_put_on_them(line: Seq<SpanView>, text: Seq<char>, style: Style)
    ensures
        line_text(with(line, text, style)) == line_text(line) + text,
        line_text(blank()) == Seq::<char>::empty(),
{
    if text.len() > 0 {
        let more = line.push(SpanView { text, style });
        assert(more.drop_last() =~= line);
    } else {
        assert(line_text(line) + text =~= line_text(line));
    }
}

/// A file's row has its two letters and its path, with where it was if it was renamed. It is
/// red if anything of it is unstaged, and green otherwise.
pub proof fn law_file_rows(f: FileView)
    requires
        f.path.len() > 0,
    ensures
        f.kind != FileKind::Untracked && f.orig_path is None ==> line_text(file_row(f)) == f.short() + " "@ + f.path,
        f.kind != FileKind::Untracked ==> (f.orig_path matches Some(orig) ==> line_text(file_row(f)) == f.short() + " "@
            + (orig + " → "@ + f.path)),
        file_row(f).last().style == Style::Color(
            if f.unstaged() {
                RED
            } else {
                GREEN
            },
        ),
{
    reveal_strlit(" → ");
    assert(" → "@.len() == 3);
    let (x, y) = if f.kind == FileKind::Untracked {
        ('?', '?')
    } else {
        (f.short()[0], f.short()[1])
    };
    let none = Seq::<char>::empty();
    let a = color(blank(), seq![x], GREEN);
    let b = color(a, seq![y], RED);
    let u = color(blank(), seq![x, y], RED);
    law_lines_say_what_was_put_on_them(blank(), seq![x], Style::Color(GREEN));
    law_lines_say_what_was_put_on_them(a, seq![y], Style::Color(RED));
    law_lines_say_what_was_put_on_them(blank(), seq![x, y], Style::Color(RED));
    let status = if f.kind == FileKind::Unmerged {
        u
    } else {
        b
    };
    assert(line_text(status) =~= seq![x, y]);
    if f.kind != FileKind::Untracked {
        assert(f.short() =~= seq![x, y]);
    }
    law_lines_say_what_was_put_on_them(status, " "@, Style::Plain);
    let spaced = plain(status, " "@);
    let name = match f.orig_path {
        Some(orig) => orig + " → "@ + f.path,
        None => f.path,
    };
    let c = if f.unstaged() {
        RED
    } else {
        GREEN
    };
    law_lines_say_what_was_put_on_them(spaced, name, Style::Color(c));
    assert(file_row(f) == color(spaced, name, c));
}

/// Arrows: down for the commits to take, up for those to give; nothing for none.
pub proof fn law_arrows(ahead: u32, behind: u32)
    ensures
        arrows_text(0, 0).len() == 0,
        ahead > 0 ==> arrows_text(ahead, 0) == "↑"@ + decimal(ahead as nat),
        behind > 0 ==> arrows_text(0, behind) == "↓"@ + decimal(behind as nat),
        ahead > 0 && behind > 0 ==> arrows_text(ahead, behind) == "↓"@ + decimal(behind as nat) + ("↑"@ + decimal(
            ahead as nat,
        )),
{
    if ahead > 0 {
        assert(arrows_text(ahead, 0) =~= "↑"@ + decimal(ahead as nat));
    }
    if behind > 0 {
        assert(arrows_text(0, behind) =~= "↓"@ + decimal(behind as nat));
    }
}

/// How a branch compares to its upstream: a check mark where the two agree, arrows where they
/// don't, `gone` in red for one that is gone, nothing without one.
pub proof fn law_upstreams_are_shown(line: Seq<SpanView>, u: UpstreamView)
    ensures
        u is Unset ==> with_upstream(line, u) == line,
        u is Gone ==> with_upstream(line, u) == color(line, " gone"@, RED),
        u matches UpstreamView::Tracking { name, ahead, behind } ==> if ahead == 0 && behind == 0 {
            with_upstream(line, u) == color(line, " ✓"@, GREEN)
        } else {
            with_upstream(line, u) == color(line, " "@ + arrows_text(ahead, behind), YELLOW)
        },
{
}

/// A repo's health: red for conflicts, failed fetches and upstreams that are gone; green if
/// nothing needs the user and it isn't behind the default branch; yellow for changes and
/// operations; blue for what is only behind.
pub proof fn law_health(s: SummaryView, fetch_failed: bool)
    ensures
        ({
            let trouble = s.changes.conflicted > 0 || fetch_failed || s.upstream is Gone;
            let fine = s.settled() && (s.base matches Some(b) ==> b.behind == 0);
            let at_work = s.changes != crate::model::no_changes() || s.op is Some;
            let behind = s.upstream matches UpstreamView::Tracking { name, ahead, behind } && behind > 0;
            let c = health_of(s, fetch_failed).1;
            &&& trouble ==> c == RED
            &&& !trouble && fine ==> c == GREEN
            &&& !trouble && !fine && at_work ==> c == YELLOW
            &&& !trouble && !fine && !at_work && behind ==> c == BLUE
            &&& !trouble && !fine && !at_work && !behind ==> c == DIM
        }),
{
}

/// Ages are told in the largest unit that fits at least once.
pub proof fn law_ages(secs: nat)
    ensures
        secs < 60 ==> age_text(secs) == decimal(secs) + "s"@,
        60 <= secs < 3600 ==> age_text(secs) == decimal(secs / 60) + "m"@,
        3600 <= secs < 86400 ==> age_text(secs) == decimal(secs / 3600) + "h"@,
        86400 <= secs < 604800 ==> age_text(secs) == decimal(secs / 86400) + "d"@,
        604800 <= secs < 2592000 ==> age_text(secs) == decimal(secs / 604800) + "w"@,
        2592000 <= secs < 31536000 ==> age_text(secs) == decimal(secs / 2592000) + "M"@,
        31536000 <= secs ==> age_text(secs) == decimal(secs / 31536000) + "y"@,
{
}

/// A remote branch's row is its full name, a tag's its name and subject.
pub proof fn law_ref_rows(b: RemoteBranchView, t: TagView)
    ensures
        line_text(remote_row(b)) == b.remote + "/"@ + b.name,
        line_text(tag_row(t)) == t.name + (" "@ + t.subject),
{
    let a = color(blank(), b.remote + "/"@, DIM);
    law_lines_say_what_was_put_on_them(blank(), b.remote + "/"@, Style::Color(DIM));
    law_lines_say_what_was_put_on_them(a, b.name, Style::Plain);
    assert(line_text(remote_row(b)) =~= b.remote + "/"@ + b.name);
    let c = color(blank(), t.name, YELLOW);
    law_lines_say_what_was_put_on_them(blank(), t.name, Style::Color(YELLOW));
    law_lines_say_what_was_put_on_them(c, " "@ + t.subject, Style::Color(DIM));
    assert(line_text(tag_row(t)) =~= t.name + (" "@ + t.subject));
}

} // verus!
