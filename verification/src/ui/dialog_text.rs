//! What popups show.

use vstd::prelude::*;

use crate::batch::{headline, headline_of, row_views, BatchRow, Outcome, OutcomeView, RowView};
use crate::text::number::{decimal, decimal_string};
use crate::text::seqs::views;
use crate::text::strings::{
    cat2, cat3, cat5, chars_of, lines, pad_right, padded_right, push_string, same_str, split_lines, string_of, texts,
};
use crate::ui::dialog::{Dialog, DialogView, MenuItem};
use crate::ui::keymap::{all_keys, display_key, help, help_entry, key_label, Binding, HelpEntry};
use crate::ui::line::{blank, bold, color, cut, line_views, plain, truncate, Line, SpanView};
use crate::ui::overview::name_column;
use crate::ui::panel::PaneView;
use crate::ui::theme::{CYAN, DIM, FG, GREEN, RED};

verus! {

impl DialogView {
    /// The popup's title. `view` is the view that had the focus.
    pub open spec fn heading(self, view: PaneView) -> Seq<char> {
        match self {
            DialogView::Confirm { title, message, next } => title,
            DialogView::Prompt { title, initial, placeholder, allow_empty, asked } => title,
            DialogView::Menu { title, items, selected } => title,
            DialogView::Commit { amend, root, message } => if amend {
                "Amend last commit"@
            } else {
                "Commit summary"@
            },
            DialogView::Error { title, message } => title,
            DialogView::Help => "Keybindings ("@ + view.name()@ + ")"@,
            DialogView::Quit { message } => "Quit"@,
            DialogView::Results { id, title, rows } => title,
        }
    }

    /// The keys that the popup names.
    pub open spec fn footer(self) -> Seq<char> {
        match self {
            DialogView::Confirm { .. } => "<enter>: confirm · <esc>: cancel"@,
            DialogView::Prompt { .. } => "<enter>: confirm · <esc>: cancel"@,
            DialogView::Menu { .. } => "<enter> or the item's key: select · <esc>: cancel"@,
            DialogView::Commit { .. } => "<enter>: commit · <shift-enter>: new line · <esc>: cancel"@,
            DialogView::Error { .. } => "<esc>/<enter>: close"@,
            DialogView::Help => Seq::empty(),
            DialogView::Quit { .. } => "<enter> or q: quit · <esc>: cancel"@,
            DialogView::Results { .. } => "<esc>/<enter>: close"@,
        }
    }

    /// The popup's text.
    pub open spec fn text(self) -> Seq<char> {
        match self {
            DialogView::Confirm { title, message, next } => message,
            DialogView::Error { title, message } => message,
            DialogView::Quit { message } => message,
            _ => Seq::empty(),
        }
    }

    /// The key context of a popup without a text to type.
    pub open spec fn key_context(self) -> Seq<char> {
        if self is Help {
            "Help"@
        } else {
            "Popup"@
        }
    }

    /// The key context, within the popup's, of those that have keys of their own.
    pub open spec fn inner_context(self) -> Option<Seq<char>> {
        match self {
            DialogView::Menu { .. } => Some("Menu"@),
            DialogView::Quit { .. } => Some("Quit"@),
            DialogView::Results { .. } => Some("Results"@),
            _ => None,
        }
    }

    /// Whether the popup has a text to type.
    pub open spec fn has_input(self) -> bool {
        self is Prompt || self is Commit
    }
}

/// A line of a message: an empty one takes room too.
pub open spec fn message_line(line: Seq<char>) -> Seq<char> {
    if line.len() == 0 {
        " "@
    } else {
        line
    }
}

impl Dialog {
    /// The popup's title. `view` is the view that had the focus.
    pub fn heading(&self, view: PaneView) -> (r: String)
        ensures
            r@ == self@.heading(view),
    {
        match self {
            Dialog::Confirm { title, message: _, next: _ } => title.clone(),
            Dialog::Prompt { title, initial: _, placeholder: _, allow_empty: _, asked: _ } => title.clone(),
            Dialog::Menu { title, items: _, selected: _ } => title.clone(),
            Dialog::Commit { amend, root: _, message: _ } => if *amend {
                "Amend last commit".to_owned()
            } else {
                "Commit summary".to_owned()
            },
            Dialog::Error { title, message: _ } => title.clone(),
            Dialog::Help => cat3("Keybindings (", view.context(), ")"),
            Dialog::Quit { message: _ } => "Quit".to_owned(),
            Dialog::Results { id: _, title, rows: _ } => title.clone(),
        }
    }

    /// The keys that the popup names.
    pub fn footer(&self) -> (r: &'static str)
        ensures
            r@ == self@.footer(),
    {
        proof {
            reveal_strlit("");
            assert(""@ =~= Seq::<char>::empty());
        }
        match self {
            Dialog::Confirm { .. } => "<enter>: confirm · <esc>: cancel",
            Dialog::Prompt { .. } => "<enter>: confirm · <esc>: cancel",
            Dialog::Menu { .. } => "<enter> or the item's key: select · <esc>: cancel",
            Dialog::Commit { .. } => "<enter>: commit · <shift-enter>: new line · <esc>: cancel",
            Dialog::Error { .. } => "<esc>/<enter>: close",
            Dialog::Help => "",
            Dialog::Quit { .. } => "<enter> or q: quit · <esc>: cancel",
            Dialog::Results { .. } => "<esc>/<enter>: close",
        }
    }

    /// The popup's text, line by line.
    pub fn message_lines(&self) -> (r: Vec<String>)
        ensures
            texts(r@) == lines(self@.text()).map_values(|l: Seq<char>| message_line(l)),
    {
        proof {
            reveal_strlit("");
            assert(""@ =~= Seq::<char>::empty());
        }
        let text = match self {
            Dialog::Confirm { title: _, message, next: _ } => message.as_str(),
            Dialog::Error { title: _, message } => message.as_str(),
            Dialog::Quit { message } => message.as_str(),
            _ => "",
        };
        let chars = chars_of(text);
        let ls = split_lines(chars.as_slice());
        let ghost f = |l: Seq<char>| message_line(l);
        let ghost all = lines(text@).map_values(f);
        let mut out: Vec<String> = Vec::new();
        let mut i: usize = 0;
        assert(texts(out@) =~= all.take(0));
        while i < ls.len()
            invariant
                i <= ls@.len(),
                f == (|l: Seq<char>| message_line(l)),
                all == views(ls@).map_values(f),
                texts(out@) == all.take(i as int),
            decreases ls@.len() - i,
        {
            assert(all[i as int] == message_line(ls@[i as int]@));
            if ls[i].len() == 0 {
                push_string(&mut out, " ".to_owned());
            } else {
                push_string(&mut out, string_of(ls[i]));
            }
            assert(all.take(i + 1) =~= all.take(i as int).push(all[i as int]));
            i = i + 1;
        }
        assert(all.take(all.len() as int) =~= all);
        out
    }

    /// The key context of a popup without a text to type.
    pub fn key_context(&self) -> (r: &'static str)
        ensures
            r@ == self@.key_context(),
    {
        match self {
            Dialog::Help => "Help",
            _ => "Popup",
        }
    }

    /// The key context, within the popup's, of those that have keys of their own.
    pub fn inner_context(&self) -> (r: Option<&'static str>)
        ensures
            match r {
                Some(context) => self@.inner_context() == Some(context@),
                None => self@.inner_context() is None,
            },
    {
        match self {
            Dialog::Menu { .. } => Some("Menu"),
            Dialog::Quit { .. } => Some("Quit"),
            Dialog::Results { .. } => Some("Results"),
            _ => None,
        }
    }

    /// Whether the popup has a text to type.
    pub fn has_input(&self) -> (r: bool)
        ensures
            r == self@.has_input(),
    {
        match self {
            Dialog::Prompt { .. } => true,
            Dialog::Commit { .. } => true,
            _ => false,
        }
    }
}

/// A menu item's row: its key, then its label.
pub fn menu_row(item: &MenuItem) -> (r: Line)
    ensures
        r@ == plain(color(blank(), pad_right(item.key@, 3), CYAN), item.label@),
{
    let mut line = Line::new();
    let key = padded_right(item.key, 3);
    line.color(key.as_str(), CYAN);
    line.push(item.label);
    line
}

/// The longest name among some rows.
pub open spec fn longest_row(rows: Seq<RowView>) -> int
    decreases rows.len(),
{
    if rows.len() == 0 {
        0
    } else {
        let before = longest_row(rows.drop_last());
        if rows.last().name.len() > before {
            rows.last().name.len() as int
        } else {
            before
        }
    }
}

/// A repo's line in the results: its state, its name, and what became of it.
pub open spec fn result_line(row: RowView, name_w: int, spinner: Seq<char>) -> Seq<SpanView> {
    let (glyph, c) = match row.outcome {
        OutcomeView::Pending => (spinner, CYAN),
        OutcomeView::Done(_) => ("✓"@, GREEN),
        OutcomeView::Skipped(_) => ("-"@, DIM),
        OutcomeView::Failed(_) => ("✗"@, RED),
    };
    let named = plain(color(blank(), glyph, c), " "@ + pad_right(cut(row.name, name_w), name_w) + "  "@);
    match row.outcome {
        OutcomeView::Pending => named,
        OutcomeView::Done(message) => plain(named, message),
        OutcomeView::Skipped(message) => color(named, message, DIM),
        OutcomeView::Failed(message) => color(named, headline_of(message), RED),
    }
}

/// How many of some rows have an outcome of each kind.
pub ghost struct Tally {
    pub pending: nat,
    pub done: nat,
    pub skipped: nat,
    pub failed: nat,
}

/// How many of some rows have an outcome of each kind.
pub open spec fn tally(rows: Seq<RowView>) -> Tally
    decreases rows.len(),
{
    if rows.len() == 0 {
        Tally { pending: 0, done: 0, skipped: 0, failed: 0 }
    } else {
        let t = tally(rows.drop_last());
        match rows.last().outcome {
            OutcomeView::Pending => Tally { pending: t.pending + 1, ..t },
            OutcomeView::Done(_) => Tally { done: t.done + 1, ..t },
            OutcomeView::Skipped(_) => Tally { skipped: t.skipped + 1, ..t },
            OutcomeView::Failed(_) => Tally { failed: t.failed + 1, ..t },
        }
    }
}

/// The line below the results.
pub open spec fn tally_line(rows: Seq<RowView>, max_rows: int, spinner: Seq<char>) -> Seq<SpanView> {
    let t = tally(rows);
    let counted = if t.pending > 0 {
        color(
            blank(),
            decimal((rows.len() - t.pending) as nat) + " of "@ + decimal(rows.len()) + " finished "@ + spinner,
            CYAN,
        )
    } else {
        color(
            color(
                color(blank(), decimal(t.done) + " done"@, GREEN),
                " · "@ + decimal(t.skipped) + " skipped"@,
                DIM,
            ),
            " · "@ + decimal(t.failed) + " failed"@,
            if t.failed > 0 {
                RED
            } else {
                DIM
            },
        )
    };
    if rows.len() > max_rows {
        color(counted, "  (j/k to scroll all "@ + decimal(rows.len()) + ")"@, DIM)
    } else {
        counted
    }
}

/// Every repo is counted once.
pub proof fn law_tally_counts_every_row(rows: Seq<RowView>)
    ensures
        ({
            let t = tally(rows);
            t.pending + t.done + t.skipped + t.failed == rows.len()
        }),
    decreases rows.len(),
{
    if rows.len() > 0 {
        law_tally_counts_every_row(rows.drop_last());
    }
}

/// A repo's line in the results.
fn show_result(row: &BatchRow, name_w: usize, spinner: &str) -> (r: Line)
    ensures
        r@ == result_line(row@, name_w as int, spinner@),
{
    let mut line = Line::new();
    match &row.outcome {
        Outcome::Pending => {
            line.color(spinner, CYAN);
        },
        Outcome::Done(_) => {
            line.color("✓", GREEN);
        },
        Outcome::Skipped(_) => {
            line.color("-", DIM);
        },
        Outcome::Failed(_) => {
            line.color("✗", RED);
        },
    }
    let short = truncate(row.name.as_str(), name_w);
    let column = padded_right(short.as_str(), name_w);
    let name = cat3(" ", column.as_str(), "  ");
    line.push(name.as_str());
    match &row.outcome {
        Outcome::Pending => {},
        Outcome::Done(message) => {
            line.push(message.as_str());
        },
        Outcome::Skipped(message) => {
            line.color(message.as_str(), DIM);
        },
        Outcome::Failed(message) => {
            let text = headline(message.as_str());
            line.color(text.as_str(), RED);
        },
    }
    line
}

/// The line below the results.
fn show_tally(rows: &Vec<BatchRow>, max_rows: usize, spinner: &str) -> (r: Line)
    ensures
        r@ == tally_line(row_views(rows@), max_rows as int, spinner@),
{
    let ghost all = row_views(rows@);
    let n: usize = rows.len();
    let mut pending: usize = 0;
    let mut done: usize = 0;
    let mut skipped: usize = 0;
    let mut failed: usize = 0;
    let mut i: usize = 0;
    assert(all.take(0) =~= Seq::<RowView>::empty());
    while i < n
        invariant
            i <= n,
            n == rows@.len(),
            all == row_views(rows@),
            pending + done + skipped + failed == i,
            tally(all.take(i as int)) == (Tally {
                pending: pending as nat,
                done: done as nat,
                skipped: skipped as nat,
                failed: failed as nat,
            }),
        decreases n - i,
    {
        let ghost next = all.take(i + 1);
        assert(next.drop_last() =~= all.take(i as int));
        assert(next.last() == rows@[i as int]@);
        match &rows[i].outcome {
            Outcome::Pending => {
                pending = pending + 1;
            },
            Outcome::Done(_) => {
                done = done + 1;
            },
            Outcome::Skipped(_) => {
                skipped = skipped + 1;
            },
            Outcome::Failed(_) => {
                failed = failed + 1;
            },
        }
        i = i + 1;
    }
    assert(all.take(n as int) =~= all);
    let mut line = Line::new();
    let total = decimal_string(n as u64);
    if pending > 0 {
        let finished = decimal_string((n - pending) as u64);
        let text = cat5(finished.as_str(), " of ", total.as_str(), " finished ", spinner);
        line.color(text.as_str(), CYAN);
    } else {
        let count = decimal_string(done as u64);
        let text = cat2(count.as_str(), " done");
        line.color(text.as_str(), GREEN);
        let count = decimal_string(skipped as u64);
        let text = cat3(" · ", count.as_str(), " skipped");
        line.color(text.as_str(), DIM);
        let count = decimal_string(failed as u64);
        let text = cat3(" · ", count.as_str(), " failed");
        line.color(
            text.as_str(),
            if failed > 0 {
                RED
            } else {
                DIM
            },
        );
    }
    if n > max_rows {
        let text = cat3("  (j/k to scroll all ", total.as_str(), ")");
        line.color(text.as_str(), DIM);
    }
    line
}

/// One line per repo of a multi-repo action, then a tally. `max_rows` is how many rows fit.
pub fn results_body(rows: &Vec<BatchRow>, max_rows: usize, spinner: &str) -> (r: (Vec<Line>, Line))
    ensures
        ({
            let name_w = name_column(longest_row(row_views(rows@)));
            &&& line_views(r.0@) == row_views(rows@).map_values(
                |row: RowView| result_line(row, name_w, spinner@),
            )
            &&& r.1@ == tally_line(row_views(rows@), max_rows as int, spinner@)
        }),
{
    let ghost all = row_views(rows@);
    let mut longest: usize = 0;
    let mut i: usize = 0;
    assert(all.take(0) =~= Seq::<RowView>::empty());
    while i < rows.len()
        invariant
            i <= rows@.len(),
            all == row_views(rows@),
            longest == longest_row(all.take(i as int)),
        decreases rows@.len() - i,
    {
        let ghost next = all.take(i + 1);
        assert(next.drop_last() =~= all.take(i as int));
        assert(next.last() == rows@[i as int]@);
        let n: usize = rows[i].name.as_str().unicode_len();
        if n > longest {
            longest = n;
        }
        i = i + 1;
    }
    assert(all.take(all.len() as int) =~= all);
    let name_w: usize = if longest < 4 {
        4
    } else if longest > 32 {
        32
    } else {
        longest
    };
    let ghost f = |row: RowView| result_line(row, name_w as int, spinner@);
    let ghost shown = all.map_values(f);
    let mut out: Vec<Line> = Vec::new();
    let mut k: usize = 0;
    assert(line_views(out@) =~= shown.take(0));
    while k < rows.len()
        invariant
            k <= rows@.len(),
            all == row_views(rows@),
            f == (|row: RowView| result_line(row, name_w as int, spinner@)),
            shown == all.map_values(f),
            line_views(out@) == shown.take(k as int),
        decreases rows@.len() - k,
    {
        let ghost before = line_views(out@);
        let line = show_result(&rows[k], name_w, spinner);
        out.push(line);
        assert(line_views(out@) =~= before.push(line@));
        assert(shown[k as int] == result_line(rows@[k as int]@, name_w as int, spinner@));
        assert(shown.take(k + 1) =~= shown.take(k as int).push(shown[k as int]));
        k = k + 1;
    }
    assert(shown.take(shown.len() as int) =~= shown);
    (out, show_tally(rows, max_rows, spinner))
}

/// Whether `?` lists a key under a context; aliases aren't listed.
pub open spec fn listed_under(e: HelpEntry, context: Seq<char>) -> bool {
    e.context@ == context && e.description@.len() > 0
}

/// The keys of a context, for `?`.
pub open spec fn help_rows(entries: Seq<HelpEntry>, context: Seq<char>) -> Seq<Seq<SpanView>>
    decreases entries.len(),
{
    if entries.len() == 0 {
        Seq::empty()
    } else {
        let e = entries.last();
        let before = help_rows(entries.drop_last(), context);
        if listed_under(e, context) {
            before.push(plain(color(blank(), pad_right(key_label(e.key@), 12), CYAN), e.description@))
        } else {
            before
        }
    }
}

/// A heading and the keys of a context, after what is listed already; nothing if it has
/// none.
pub open spec fn with_section(
    listed: Seq<Seq<SpanView>>,
    entries: Seq<HelpEntry>,
    heading: Seq<char>,
    context: Seq<char>,
) -> Seq<Seq<SpanView>> {
    let rows = help_rows(entries, context);
    if rows.len() == 0 {
        listed
    } else {
        (if listed.len() > 0 {
            listed.push(blank())
        } else {
            listed
        }).push(bold(blank(), "--- "@ + heading + " ---"@, FG)) + rows
    }
}

/// All keys, as `?` knows them.
pub open spec fn help_entries() -> Seq<HelpEntry> {
    all_keys().map_values(|b: Binding| help_entry(b))
}

/// What `?` shows in a view: its own keys, then the global ones.
pub open spec fn help_text(view: PaneView) -> Seq<Seq<SpanView>> {
    with_section(
        with_section(Seq::empty(), help_entries(), view.name()@, view.name()@),
        help_entries(),
        "Global"@,
        "Panels"@,
    )
}

/// The keys of a context, for `?`.
fn rows_for(entries: &Vec<HelpEntry>, context: &str) -> (r: Vec<Line>)
    ensures
        line_views(r@) == help_rows(entries@, context@),
{
    let mut out: Vec<Line> = Vec::new();
    let mut i: usize = 0;
    assert(entries@.take(0) =~= Seq::<HelpEntry>::empty());
    assert(line_views(out@) =~= Seq::<Seq<SpanView>>::empty());
    while i < entries.len()
        invariant
            i <= entries@.len(),
            line_views(out@) == help_rows(entries@.take(i as int), context@),
        decreases entries@.len() - i,
    {
        let ghost next = entries@.take(i + 1);
        let ghost before = line_views(out@);
        assert(next.drop_last() =~= entries@.take(i as int));
        assert(next.last() == entries@[i as int]);
        let e = entries[i];
        if same_str(e.context, context) && !e.description.is_empty() {
            let mut line = Line::new();
            let key = display_key(e.key);
            let column = padded_right(key.as_str(), 12);
            line.color(column.as_str(), CYAN);
            line.push(e.description);
            out.push(line);
            assert(line_views(out@) =~= before.push(line@));
        }
        i = i + 1;
    }
    assert(entries@.take(entries@.len() as int) =~= entries@);
    out
}

/// Adds a heading and the keys of a context.
fn push_section(out: &mut Vec<Line>, entries: &Vec<HelpEntry>, heading: &str, context: &str)
    ensures
        line_views(final(out)@) == with_section(line_views(old(out)@), entries@, heading@, context@),
{
    let mut rows = rows_for(entries, context);
    assert(line_views(rows@).len() == rows@.len());
    assert(line_views(out@).len() == out@.len());
    if rows.len() == 0 {
        return;
    }
    let ghost added = line_views(rows@);
    let ghost start = line_views(out@);
    if out.len() > 0 {
        out.push(Line::new());
        assert(line_views(out@) =~= start.push(blank()));
    }
    let ghost spaced = line_views(out@);
    let mut head = Line::new();
    let text = cat3("--- ", heading, " ---");
    head.bold(text.as_str(), FG);
    out.push(head);
    assert(line_views(out@) =~= spaced.push(head@));
    let ghost headed = line_views(out@);
    out.append(&mut rows);
    assert(line_views(out@) =~= headed + added);
}

/// What `?` shows in a view.
pub fn help_body(view: PaneView) -> (r: Vec<Line>)
    ensures
        line_views(r@) == help_text(view),
{
    let entries = help();
    let context = view.context();
    let mut out: Vec<Line> = Vec::new();
    assert(line_views(out@) =~= Seq::<Seq<SpanView>>::empty());
    push_section(&mut out, &entries, context, context);
    push_section(&mut out, &entries, "Global", "Panels");
    out
}

} // verus!
