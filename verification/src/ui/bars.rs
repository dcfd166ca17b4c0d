//! The command log, the bottom bar, and which panels are on screen.

use vstd::prelude::*;

use crate::git::{CmdKind, CommandRecord, RecordView};
use crate::model::{no_changes, Upstream, UpstreamView};
use crate::path::{rest_of, within, FsPath};
use crate::store::{EntryView, RepoStore, StoreView};
use crate::text::number::{decimal, decimal_string};
use crate::text::outside::{lossy_text, seconds_text, show_seconds, text_lossy};
use crate::text::seqs::join;
use crate::text::strings::{cat2, cat3, cat4, cat5, joined, push_string, texts};
use crate::ui::line::{blank, color, cut_left, line_views, truncate_left, Line, SpanView};
use crate::ui::main_view::{ContentView, MainContent};
use crate::ui::panel::{PaneView, Panel, ScreenMode};
use crate::ui::spans::{main_title, main_title_of};
use crate::ui::theme::{BLUE, CYAN, DIM, FG, RED};
use crate::ui::workspace::{Workspace, WorkspaceView};

verus! {

/// How many commands the log shows at most.
pub const LOG_LINES: usize = 80;

/// The name of the first repo that a path is in.
pub open spec fn repo_name_at(repos: Seq<EntryView>, path: Seq<u8>) -> Option<Seq<char>>
    decreases repos.len(),
{
    if repos.len() == 0 {
        None
    } else if within(path, repos[0].location.root) {
        Some(repos[0].location.name)
    } else {
        repo_name_at(repos.drop_first(), path)
    }
}

/// A command's line in the log: where it ran, what it was, and how it ended.
pub open spec fn log_entry(store: StoreView, r: RecordView) -> Seq<SpanView> {
    let name = match repo_name_at(store.repos, r.cwd) {
        Some(name) => name,
        None => lossy_text(r.cwd),
    };
    let shown = color(
        color(blank(), name + ": "@, CYAN),
        r.command,
        if r.kind == CmdKind::Network {
            BLUE
        } else {
            FG
        },
    );
    match r.error {
        Some(error) => color(shown, "  ✗ "@ + error, RED),
        None => if r.duration_ms >= 500 {
            color(shown, "  ("@ + seconds_text(r.duration_ms) + "s)"@, DIM)
        } else {
            shown
        },
    }
}

/// The commands that the log shows: the latest ones, the newest last.
pub open spec fn shown_log(log: Seq<RecordView>) -> Seq<RecordView> {
    if log.len() <= LOG_LINES {
        log
    } else {
        log.skip(log.len() - LOG_LINES)
    }
}

/// The name of the first repo that a path is in.
fn name_at<'a>(store: &'a RepoStore, path: &FsPath) -> (r: Option<&'a str>)
    ensures
        crate::text::strings::str_opt(r) == repo_name_at(store@.repos, path@),
{
    let ghost all = store@.repos;
    let mut i: usize = 0;
    assert(all.skip(0) =~= all);
    while i < store.repos.len()
        invariant
            i <= store.repos@.len(),
            all == store@.repos,
            repo_name_at(all, path@) == repo_name_at(all.skip(i as int), path@),
        decreases store.repos@.len() - i,
    {
        assert(all.skip(i as int)[0] == store.repos@[i as int]@);
        assert(all.skip(i as int).drop_first() =~= all.skip(i + 1));
        if path.starts_with(&store.repos[i].location.root) {
            return Some(store.repos[i].name());
        }
        i = i + 1;
    }
    None
}

/// A command's line in the log.
pub fn log_record(store: &RepoStore, record: &CommandRecord) -> (r: Line)
    ensures
        r@ == log_entry(store@, record@),
{
    let mut line = Line::new();
    let name = match name_at(store, &record.cwd) {
        Some(name) => name.to_owned(),
        None => text_lossy(record.cwd.bytes.as_slice()),
    };
    let place = cat2(name.as_str(), ": ");
    line.color(place.as_str(), CYAN);
    line.color(
        record.command.as_str(),
        if record.kind == CmdKind::Network {
            BLUE
        } else {
            FG
        },
    );
    if let Some(error) = &record.error {
        let text = cat2("  ✗ ", error.as_str());
        line.color(text.as_str(), RED);
    } else if record.duration_ms >= 500 {
        let seconds = show_seconds(record.duration_ms);
        let text = cat3("  (", seconds.as_str(), "s)");
        line.color(text.as_str(), DIM);
    }
    line
}

/// The lines of the command log.
pub fn command_log(store: &RepoStore) -> (r: Vec<Line>)
    ensures
        line_views(r@) == shown_log(store@.log).map_values(|x: RecordView| log_entry(store@, x)),
{
    let ghost f = |x: RecordView| log_entry(store@, x);
    let ghost all = shown_log(store@.log).map_values(f);
    let n: usize = store.log.len();
    let start: usize = if n <= LOG_LINES {
        0
    } else {
        n - LOG_LINES
    };
    let mut out: Vec<Line> = Vec::new();
    let mut i: usize = start;
    assert(line_views(out@) =~= all.take(0));
    while i < n
        invariant
            start <= i <= n,
            n == store.log@.len(),
            start == (if n <= LOG_LINES {
                0
            } else {
                n - LOG_LINES
            }),
            f == (|x: RecordView| log_entry(store@, x)),
            all == shown_log(store@.log).map_values(f),
            line_views(out@) == all.take(i - start),
        decreases n - i,
    {
        let ghost before = line_views(out@);
        let line = log_record(store, &store.log[i]);
        out.push(line);
        assert(line_views(out@) =~= before.push(line@));
        assert(store@.log[i as int] == store.log@[i as int]@);
        assert(all[i - start] == log_entry(store@, store@.log[i as int]));
        assert(all.take(i - start + 1) =~= all.take(i - start).push(all[i - start]));
        i = i + 1;
    }
    assert(all.take(all.len() as int) =~= all);
    out
}

/// A key and what it does, for the bottom bar.
pub open spec fn hint(what: &str, key: &str) -> Seq<char> {
    what@ + ": "@ + key@
}

/// The keys that the bottom bar names for a view.
pub open spec fn hint_parts(view: PaneView) -> Seq<Seq<char>> {
    match view {
        PaneView::Repos => seq![
            hint("Mark", "<space>"),
            hint("Checkout", "c"),
            hint("New branch", "n"),
            hint("Default branch", "m"),
            hint("Pull", "p"),
            hint("Fetch all", "F"),
            hint("Update", "U"),
        ],
        PaneView::Files => seq![
            hint("Stage", "<space>"),
            hint("Stage all", "a"),
            hint("Commit", "c"),
            hint("Discard", "d"),
            hint("Stash", "s"),
        ],
        PaneView::Branches => seq![
            hint("Checkout", "<space>"),
            hint("New", "n"),
            hint("Delete", "d"),
            hint("Fast-forward", "f"),
            hint("Upstream", "u"),
        ],
        PaneView::Remotes => seq![hint("Checkout", "<space>"), hint("New branch", "n"), hint("Fetch", "f")],
        PaneView::Tags => seq![hint("Checkout", "<space>"), hint("View", "<enter>")],
        PaneView::Commits => seq![hint("Checkout", "<space>"), hint("View", "<enter>")],
        PaneView::Stash => seq![
            hint("Apply", "<space>"),
            hint("Pop", "g"),
            hint("Drop", "d"),
            hint("Rename", "r"),
            hint("Branch", "n"),
        ],
        PaneView::Main => seq![hint("Scroll", "j/k"), hint("Back", "<esc>")],
        _ => seq![hint("Push", "P"), hint("Pull", "p"), hint("Fetch", "f")],
    }
}

/// The keys that the bottom bar names.
pub open spec fn hints_text(view: PaneView) -> Seq<char> {
    join(hint_parts(view).push("Repo: {/}"@).push("Keybindings: ?"@), " | "@)
}

/// Adds a key and what it does.
fn push_hint(parts: &mut Vec<String>, what: &str, key: &str)
    ensures
        texts(final(parts)@) == texts(old(parts)@).push(hint(what, key)),
{
    push_string(parts, cat3(what, ": ", key));
}

/// The keys that the bottom bar names.
pub fn hints(view: PaneView) -> (r: String)
    ensures
        r@ == hints_text(view),
{
    let mut parts: Vec<String> = Vec::new();
    assert(texts(parts@) =~= Seq::<Seq<char>>::empty());
    match view {
        PaneView::Repos => {
            push_hint(&mut parts, "Mark", "<space>");
            push_hint(&mut parts, "Checkout", "c");
            push_hint(&mut parts, "New branch", "n");
            push_hint(&mut parts, "Default branch", "m");
            push_hint(&mut parts, "Pull", "p");
            push_hint(&mut parts, "Fetch all", "F");
            push_hint(&mut parts, "Update", "U");
        },
        PaneView::Files => {
            push_hint(&mut parts, "Stage", "<space>");
            push_hint(&mut parts, "Stage all", "a");
            push_hint(&mut parts, "Commit", "c");
            push_hint(&mut parts, "Discard", "d");
            push_hint(&mut parts, "Stash", "s");
        },
        PaneView::Branches => {
            push_hint(&mut parts, "Checkout", "<space>");
            push_hint(&mut parts, "New", "n");
            push_hint(&mut parts, "Delete", "d");
            push_hint(&mut parts, "Fast-forward", "f");
            push_hint(&mut parts, "Upstream", "u");
        },
        PaneView::Remotes => {
            push_hint(&mut parts, "Checkout", "<space>");
            push_hint(&mut parts, "New branch", "n");
            push_hint(&mut parts, "Fetch", "f");
        },
        PaneView::Tags => {
            push_hint(&mut parts, "Checkout", "<space>");
            push_hint(&mut parts, "View", "<enter>");
        },
        PaneView::Commits => {
            push_hint(&mut parts, "Checkout", "<space>");
            push_hint(&mut parts, "View", "<enter>");
        },
        PaneView::Stash => {
            push_hint(&mut parts, "Apply", "<space>");
            push_hint(&mut parts, "Pop", "g");
            push_hint(&mut parts, "Drop", "d");
            push_hint(&mut parts, "Rename", "r");
            push_hint(&mut parts, "Branch", "n");
        },
        PaneView::Main => {
            push_hint(&mut parts, "Scroll", "j/k");
            push_hint(&mut parts, "Back", "<esc>");
        },
        _ => {
            push_hint(&mut parts, "Push", "P");
            push_hint(&mut parts, "Pull", "p");
            push_hint(&mut parts, "Fetch", "f");
        },
    }
    assert(texts(parts@) =~= hint_parts(view));
    push_string(&mut parts, "Repo: {/}".to_owned());
    push_string(&mut parts, "Keybindings: ?".to_owned());
    joined(&parts, " | ")
}

/// How many repos have changes.
pub open spec fn dirty_count(repos: Seq<EntryView>) -> nat
    decreases repos.len(),
{
    if repos.len() == 0 {
        0
    } else {
        dirty_count(repos.drop_last()) + if repos.last().summary matches Some(s) && s.changes != no_changes() {
            1nat
        } else {
            0
        }
    }
}

/// Whether a repo is behind its upstream.
pub open spec fn is_behind(e: EntryView) -> bool {
    match e.summary {
        Some(s) => match s.upstream {
            UpstreamView::Tracking { name, ahead, behind } => behind > 0,
            _ => false,
        },
        None => false,
    }
}

/// How many repos are behind their upstream.
pub open spec fn behind_count(repos: Seq<EntryView>) -> nat
    decreases repos.len(),
{
    if repos.len() == 0 {
        0
    } else {
        behind_count(repos.drop_last()) + if is_behind(repos.last()) {
            1nat
        } else {
            0
        }
    }
}

/// How the workdir is shown: `~` stands for the home directory.
pub open spec fn workdir_text(workdir: Seq<u8>, home: Option<Seq<u8>>) -> Seq<char> {
    match home {
        Some(home) => if within(workdir, home) {
            "~/"@ + lossy_text(rest_of(workdir, home))
        } else {
            lossy_text(workdir)
        },
        None => lossy_text(workdir),
    }
}

/// The bottom bar's counts.
pub open spec fn info_text(store: StoreView, home: Option<Seq<u8>>) -> Seq<char> {
    decimal(store.repos.len()) + " repos · "@ + decimal(dirty_count(store.repos)) + " dirty · "@ + decimal(
        behind_count(store.repos),
    ) + " behind · "@ + cut_left(workdir_text(store.workdir, home), 40)
}

impl WorkspaceView {
    /// What the bottom bar says is going on.
    pub open spec fn activity(self, store: StoreView) -> Seq<SpanView> {
        if store.scanning {
            color(
                blank(),
                "Scanning "@ + lossy_text(store.workdir) + " "@ + self.spinner_frame(),
                CYAN,
            )
        } else {
            match store.fetch_round {
                Some((done, total)) => color(
                    blank(),
                    "Fetching "@ + decimal(done as nat) + "/"@ + decimal(total as nat) + " "@
                        + self.spinner_frame(),
                    CYAN,
                ),
                None => match store.selected_entry() {
                    Some(e) => match e.busy {
                        Some(busy) => color(blank(), busy + " "@ + self.spinner_frame(), CYAN),
                        None => blank(),
                    },
                    None => blank(),
                },
            }
        }
    }
}

/// How many repos have changes, and how many are behind their upstream.
fn counts(store: &RepoStore) -> (r: (usize, usize))
    ensures
        r.0 == dirty_count(store@.repos),
        r.1 == behind_count(store@.repos),
{
    let ghost all = store@.repos;
    let mut dirty: usize = 0;
    let mut behind: usize = 0;
    let mut i: usize = 0;
    assert(all.take(0) =~= Seq::<EntryView>::empty());
    while i < store.repos.len()
        invariant
            i <= store.repos@.len(),
            all == store@.repos,
            dirty <= i,
            behind <= i,
            dirty == dirty_count(all.take(i as int)),
            behind == behind_count(all.take(i as int)),
        decreases store.repos@.len() - i,
    {
        let ghost next = all.take(i + 1);
        assert(next.drop_last() =~= all.take(i as int));
        assert(next.last() == store.repos@[i as int]@);
        if let Some(s) = &store.repos[i].summary {
            if !s.changes.is_clean() {
                dirty = dirty + 1;
            }
            if let Upstream::Tracking { name: _, ahead: _, behind: n } = &s.upstream {
                if *n > 0 {
                    behind = behind + 1;
                }
            }
        }
        i = i + 1;
    }
    assert(all.take(all.len() as int) =~= all);
    (dirty, behind)
}

/// How the workdir is shown.
fn show_workdir(workdir: &FsPath, home: Option<&FsPath>) -> (r: String)
    ensures
        r@ == workdir_text(
            workdir@,
            match home {
                Some(h) => Some(h@),
                None => None,
            },
        ),
{
    if let Some(home) = home {
        if let Some(rest) = workdir.strip_prefix(home) {
            let text = text_lossy(rest.bytes.as_slice());
            return cat2("~/", text.as_str());
        }
    }
    text_lossy(workdir.bytes.as_slice())
}

/// The bottom bar's counts.
pub fn info(store: &RepoStore, home: Option<&FsPath>) -> (r: String)
    ensures
        r@ == info_text(
            store@,
            match home {
                Some(h) => Some(h@),
                None => None,
            },
        ),
{
    let (dirty, behind) = counts(store);
    assert(store@.repos.len() == store.repos.len());
    let total = decimal_string(store.repos.len() as u64);
    let dirty = decimal_string(dirty as u64);
    let behind = decimal_string(behind as u64);
    let workdir = show_workdir(&store.workdir, home);
    let place = truncate_left(workdir.as_str(), 40);
    let start = cat5(total.as_str(), " repos · ", dirty.as_str(), " dirty · ", behind.as_str());
    cat3(start.as_str(), " behind · ", place.as_str())
}

/// Which panels are on screen.
#[derive(Clone, Copy, Debug, PartialEq, Eq, Structural)]
pub enum Shown {
    /// The Repos column, the side panels and the main view, with or without the command
    /// log below it.
    Columns { log: bool },
    /// A side panel beside the main view.
    SideAndMain { side: Panel },
    /// The main view alone.
    OnlyMain,
    /// A side panel alone.
    OnlySide { side: Panel },
}

/// A frame of the main view: its title, whether it is drawn as the active one, and which
/// half of a file's changes it shows.
pub struct MainFrame {
    pub title: Line,
    pub active: bool,
    pub half: Option<bool>,
}

#[verifier::ext_equal]
pub ghost struct FrameView {
    pub title: Seq<SpanView>,
    pub active: bool,
    pub half: Option<bool>,
}

impl View for MainFrame {
    type V = FrameView;

    open spec fn view(&self) -> FrameView {
        FrameView { title: self.title@, active: self.active, half: self.half }
    }
}

/// The views of some frames.
pub open spec fn frame_views(frames: Seq<MainFrame>) -> Seq<FrameView> {
    frames.map_values(|f: MainFrame| f@)
}

impl WorkspaceView {
    /// Which panels are on screen.
    pub open spec fn shown(self) -> Shown {
        match self.screen_mode {
            ScreenMode::Normal => Shown::Columns { log: self.show_command_log },
            ScreenMode::Half => Shown::SideAndMain { side: self.main_source() },
            ScreenMode::Full => if self.focused == Panel::Main {
                Shown::OnlyMain
            } else {
                Shown::OnlySide { side: self.focused }
            },
        }
    }

    /// The frames of the main view: one for each half of a file that has both unstaged and
    /// staged changes, the unstaged half standing for the panel; else a single one.
    pub open spec fn main_frames(self) -> Seq<FrameView> {
        let active = self.is_active(Panel::Main);
        match self.main.content {
            ContentView::File { unstaged, staged } => if unstaged is Some && staged is Some {
                seq![
                    FrameView {
                        title: main_title_of("Unstaged changes"@, true),
                        active,
                        half: Some(false),
                    },
                    FrameView {
                        title: main_title_of("Staged changes"@, false),
                        active: false,
                        half: Some(true),
                    },
                ]
            } else {
                seq![
                    FrameView {
                        title: main_title_of(self.main.title, active),
                        active,
                        half: Some(unstaged is None),
                    },
                ]
            },
            _ => seq![
                FrameView { title: main_title_of(self.main.title, active), active, half: None },
            ],
        }
    }

    /// Whether a line of a half of the diff is selected in the staging view.
    pub open spec fn line_selected(self, in_index: bool, line: int) -> bool {
        match self.main.content.half(in_index) {
            Some(half) => {
                let (lo, hi) = self.staging.selection(half.patch);
                self.current_view() == PaneView::Staging && self.staging.staged == in_index && lo <= line < hi
            },
            None => false,
        }
    }
}

impl Workspace {
    /// What the bottom bar says is going on.
    pub fn activity(&self, store: &RepoStore) -> (r: Line)
        ensures
            r@ == self@.activity(store@),
    {
        let mut line = Line::new();
        if store.scanning {
            let workdir = text_lossy(store.workdir.bytes.as_slice());
            let text = cat4("Scanning ", workdir.as_str(), " ", self.spinner_frame());
            line.color(text.as_str(), CYAN);
        } else if let Some((done, total)) = store.fetch_round {
            let done = decimal_string(done as u64);
            let total = decimal_string(total as u64);
            let start = cat5("Fetching ", done.as_str(), "/", total.as_str(), " ");
            let text = cat2(start.as_str(), self.spinner_frame());
            line.color(text.as_str(), CYAN);
        } else if let Some(entry) = store.selected_entry() {
            if let Some(busy) = &entry.busy {
                let text = cat3(busy.as_str(), " ", self.spinner_frame());
                line.color(text.as_str(), CYAN);
            }
        }
        line
    }

    /// Which panels are on screen.
    pub fn shown(&self) -> (r: Shown)
        ensures
            r == self@.shown(),
    {
        match self.screen_mode {
            ScreenMode::Normal => Shown::Columns { log: self.show_command_log },
            ScreenMode::Half => Shown::SideAndMain { side: self.main_source() },
            ScreenMode::Full => if self.focused == Panel::Main {
                Shown::OnlyMain
            } else {
                Shown::OnlySide { side: self.focused }
            },
        }
    }

    /// The frames of the main view.
    pub fn main_frames(&self) -> (r: Vec<MainFrame>)
        ensures
            frame_views(r@) == self@.main_frames(),
    {
        let active = self.is_active(Panel::Main);
        let mut out: Vec<MainFrame> = Vec::new();
        match &self.main.content {
            MainContent::File { unstaged, staged } => {
                if unstaged.is_some() && staged.is_some() {
                    out.push(
                        MainFrame {
                            title: main_title("Unstaged changes", true),
                            active,
                            half: Some(false),
                        },
                    );
                    out.push(
                        MainFrame {
                            title: main_title("Staged changes", false),
                            active: false,
                            half: Some(true),
                        },
                    );
                } else {
                    out.push(
                        MainFrame {
                            title: main_title(self.main.title, active),
                            active,
                            half: Some(unstaged.is_none()),
                        },
                    );
                }
            },
            _ => {
                out.push(MainFrame { title: main_title(self.main.title, active), active, half: None });
            },
        }
        assert(frame_views(out@) =~= self@.main_frames());
        out
    }

    /// Whether a line of a half of the diff is selected in the staging view.
    pub fn line_selected(&self, in_index: bool, line: usize) -> (r: bool)
        requires
            self@.wf(),
        ensures
            r == self@.line_selected(in_index, line as int),
    {
        if self.current_view() != PaneView::Staging || self.staging.staged != in_index {
            return false;
        }
        match self.main.content.half(in_index) {
            Some(half) => {
                let rows = self.staging.selection(&half.patch);
                rows.start <= line && line < rows.end
            },
            None => false,
        }
    }
}

} // verus!
