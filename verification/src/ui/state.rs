//! UI state kept across restarts: panel sizes, window placement, screen mode, focus and tabs,
//! and each workdir's selected repo. A missing, unreadable or outdated file just means the
//! defaults.

use vstd::prelude::*;

use crate::model::{clone_opt, clone_path_opt};
use crate::path::{join_path, path_opt, same_path, FsPath};
use crate::text::json::{json_number, number_in_json};
use crate::text::strings::{text_opt, utf8};
use crate::ui::panel::{Panel, ScreenMode};
use crate::ui::workspace::{Tabs, Workspace, WorkspaceView};

verus! {

/// Bump when the format changes incompatibly; files with another version are ignored.
pub const VERSION: u32 = 1;

#[derive(Clone, Copy, Debug, PartialEq, Eq, Structural)]
pub enum WindowMode {
    Windowed,
    Maximized,
    Fullscreen,
}

impl Default for WindowMode {
    fn default() -> (r: Self)
        ensures
            r == WindowMode::Windowed,
    {
        WindowMode::Windowed
    }
}

/// The window's top-left corner relative to its display, and its content size, each number as
/// the bits of an `f32`. The display is named by UUID because display ids change when monitors
/// are replugged.
pub struct SavedWindow {
    pub x: u32,
    pub y: u32,
    pub width: u32,
    pub height: u32,
    pub mode: WindowMode,
    pub display: Option<String>,
}

#[verifier::ext_equal]
pub ghost struct SavedWindowView {
    pub x: u32,
    pub y: u32,
    pub width: u32,
    pub height: u32,
    pub mode: WindowMode,
    pub display: Option<Seq<char>>,
}

impl View for SavedWindow {
    type V = SavedWindowView;

    open spec fn view(&self) -> SavedWindowView {
        SavedWindowView {
            x: self.x,
            y: self.y,
            width: self.width,
            height: self.height,
            mode: self.mode,
            display: text_opt(self.display),
        }
    }
}

impl Clone for SavedWindow {
    fn clone(&self) -> (r: Self)
        ensures
            r@ == self@,
    {
        SavedWindow {
            x: self.x,
            y: self.y,
            width: self.width,
            height: self.height,
            mode: self.mode,
            display: clone_opt(&self.display),
        }
    }
}

/// The view of an optional window placement.
pub open spec fn window_opt(window: Option<SavedWindow>) -> Option<SavedWindowView> {
    match window {
        Some(w) => Some(w@),
        None => None,
    }
}

/// The placement to save: while the window is fullscreen or maximized, its windowed one with
/// the new mode.
pub open spec fn captured(now: SavedWindowView, previous: Option<SavedWindowView>) -> SavedWindowView {
    if now.mode != WindowMode::Windowed && previous is Some {
        SavedWindowView { mode: now.mode, ..previous->0 }
    } else {
        now
    }
}

impl SavedWindow {
    /// The placement to save, from the window's placement now and what was saved of it before.
    pub fn capture(now: SavedWindow, previous: Option<&SavedWindow>) -> (r: SavedWindow)
        ensures
            r@ == captured(
                now@,
                match previous {
                    Some(p) => Some(p@),
                    None => None,
                },
            ),
    {
        match previous {
            Some(previous) if now.mode != WindowMode::Windowed => {
                let mut window = previous.clone();
                window.mode = now.mode;
                window
            },
            _ => now,
        }
    }
}

/// Where to open the window.
#[derive(Clone, Copy, Debug, PartialEq, Eq, Structural)]
pub enum Placement {
    /// At the default size, centred on the main display.
    Default,
    /// At its old size, centred on the main display.
    Centred,
    /// Where it was.
    Restored(WindowMode),
}

/// Where to open the window: where it was, if that display is still connected and the window
/// would be reachable on it. `usable` is whether the saved numbers are finite and the sizes
/// positive; `reachable` is about the saved display, if it is connected.
pub fn window_placement(saved: Option<&SavedWindow>, usable: bool, reachable: Option<bool>) -> (r: Placement)
    ensures
        r == (match saved {
            Some(s) if usable => if reachable == Some(true) {
                Placement::Restored(s.mode)
            } else {
                Placement::Centred
            },
            _ => Placement::Default,
        }),
{
    match saved {
        Some(s) if usable => match reachable {
            Some(true) => Placement::Restored(s.mode),
            _ => Placement::Centred,
        },
        _ => Placement::Default,
    }
}

/// Panel sizes along each split, in pixels, each the bits of an `f32`. Only their proportions
/// matter: a split scales them to whatever space it has.
pub struct SavedLayout {
    /// Repos, side panels, main.
    pub columns: Vec<u32>,
    /// Files, Branches, Commits, Stash.
    pub side: Vec<u32>,
    /// Main view, command log.
    pub main: Vec<u32>,
}

#[verifier::ext_equal]
pub ghost struct SavedLayoutView {
    pub columns: Seq<u32>,
    pub side: Seq<u32>,
    pub main: Seq<u32>,
}

impl View for SavedLayout {
    type V = SavedLayoutView;

    open spec fn view(&self) -> SavedLayoutView {
        SavedLayoutView { columns: self.columns@, side: self.side@, main: self.main@ }
    }
}

/// No sizes.
pub open spec fn no_layout() -> SavedLayoutView {
    SavedLayoutView { columns: Seq::empty(), side: Seq::empty(), main: Seq::empty() }
}

impl Default for SavedLayout {
    fn default() -> (r: Self)
        ensures
            r@ == no_layout(),
    {
        SavedLayout { columns: Vec::new(), side: Vec::new(), main: Vec::new() }
    }
}

/// What is kept of a workdir.
pub struct WorkdirState {
    pub workdir: FsPath,
    pub selected_repo: Option<FsPath>,
}

#[verifier::ext_equal]
pub ghost struct WorkdirView {
    pub workdir: Seq<u8>,
    pub selected_repo: Option<Seq<u8>>,
}

impl View for WorkdirState {
    type V = WorkdirView;

    open spec fn view(&self) -> WorkdirView {
        WorkdirView { workdir: self.workdir@, selected_repo: path_opt(self.selected_repo) }
    }
}

impl Clone for WorkdirState {
    fn clone(&self) -> (r: Self)
        ensures
            r@ == self@,
    {
        WorkdirState { workdir: self.workdir.clone(), selected_repo: clone_path_opt(&self.selected_repo) }
    }
}

/// The views of what is kept of some workdirs.
pub open spec fn workdir_views(list: Seq<WorkdirState>) -> Seq<WorkdirView> {
    list.map_values(|w: WorkdirState| w@)
}

/// Whether no workdir occurs twice.
pub open spec fn each_once(list: Seq<WorkdirView>) -> bool {
    forall|i: int, j: int|
        0 <= i < j < list.len() ==> !same_path((#[trigger] list[i]).workdir, (#[trigger] list[j]).workdir)
}

/// Where a workdir's entry is.
pub open spec fn entry_place(list: Seq<WorkdirView>, workdir: Seq<u8>) -> Option<int>
    decreases list.len(),
{
    if list.len() == 0 {
        None
    } else if same_path(list.last().workdir, workdir) {
        Some(list.len() - 1)
    } else {
        entry_place(list.drop_last(), workdir)
    }
}

/// Which repo was selected in a workdir, if anything is kept of it.
pub open spec fn kept(list: Seq<WorkdirView>, workdir: Seq<u8>) -> Option<Option<Seq<u8>>> {
    match entry_place(list, workdir) {
        Some(i) => Some(list[i].selected_repo),
        None => None,
    }
}

/// `list` with `w` for its workdir: in place of the entry that is there, or at the end.
pub open spec fn with_workdir(list: Seq<WorkdirView>, w: WorkdirView) -> Seq<WorkdirView> {
    match entry_place(list, w.workdir) {
        Some(i) => list.update(i, WorkdirView { workdir: list[i].workdir, selected_repo: w.selected_repo }),
        None => list.push(w),
    }
}

/// `list` with the entries of `more`, which replace those for the same workdirs.
pub open spec fn with_workdirs(list: Seq<WorkdirView>, more: Seq<WorkdirView>) -> Seq<WorkdirView>
    decreases more.len(),
{
    if more.len() == 0 {
        list
    } else {
        with_workdir(with_workdirs(list, more.drop_last()), more.last())
    }
}

/// An entry's place is that of the last entry for the workdir.
proof fn lemma_entry_place(list: Seq<WorkdirView>, workdir: Seq<u8>)
    ensures
        match entry_place(list, workdir) {
            Some(i) => {
                &&& 0 <= i < list.len()
                &&& same_path(list[i].workdir, workdir)
                &&& forall|j: int| i < j < list.len() ==> !same_path((#[trigger] list[j]).workdir, workdir)
            },
            None => forall|j: int| 0 <= j < list.len() ==> !same_path((#[trigger] list[j]).workdir, workdir),
        },
    decreases list.len(),
{
    if list.len() > 0 && !same_path(list.last().workdir, workdir) {
        let before = list.drop_last();
        lemma_entry_place(before, workdir);
        assert forall|j: int| 0 <= j < list.len() - 1 implies list[j] == before[j] by {}
        match entry_place(before, workdir) {
            Some(i) => {
                assert forall|j: int| i < j < list.len() implies !same_path((#[trigger] list[j]).workdir, workdir) by {
                    if j < list.len() - 1 {
                        assert(list[j] == before[j]);
                    }
                }
            },
            None => {
                assert forall|j: int| 0 <= j < list.len() implies !same_path((#[trigger] list[j]).workdir, workdir) by {
                    if j < list.len() - 1 {
                        assert(list[j] == before[j]);
                    }
                }
            },
        }
    }
}

/// An entry that is the only one for its workdir has its place.
proof fn lemma_only_entry(list: Seq<WorkdirView>, workdir: Seq<u8>, i: int)
    requires
        0 <= i < list.len(),
        same_path(list[i].workdir, workdir),
        forall|j: int| i < j < list.len() ==> !same_path((#[trigger] list[j]).workdir, workdir),
    ensures
        entry_place(list, workdir) == Some(i),
{
    lemma_entry_place(list, workdir);
    match entry_place(list, workdir) {
        Some(k) => {
            if k < i {
                assert(same_path(list[i].workdir, workdir));
            }
            if k > i {
                assert(same_path(list[k].workdir, workdir));
            }
        },
        None => {
            assert(same_path(list[i].workdir, workdir));
        },
    }
}

/// Putting an entry in changes what is kept of its workdir alone.
proof fn lemma_with_workdir(list: Seq<WorkdirView>, w: WorkdirView, workdir: Seq<u8>)
    requires
        each_once(list),
    ensures
        each_once(with_workdir(list, w)),
        kept(with_workdir(list, w), workdir) == (if same_path(w.workdir, workdir) {
            Some(w.selected_repo)
        } else {
            kept(list, workdir)
        }),
{
    let after = with_workdir(list, w);
    lemma_entry_place(list, w.workdir);
    lemma_entry_place(list, workdir);
    match entry_place(list, w.workdir) {
        Some(i) => {
            assert forall|j: int| 0 <= j < after.len() implies (#[trigger] after[j]).workdir == list[j].workdir by {}
            assert forall|a: int, b: int| 0 <= a < b < after.len() implies !same_path(
                (#[trigger] after[a]).workdir,
                (#[trigger] after[b]).workdir,
            ) by {
                assert(after[a].workdir == list[a].workdir);
                assert(after[b].workdir == list[b].workdir);
            }
            if same_path(w.workdir, workdir) {
                lemma_only_entry(after, workdir, i);
            } else {
                match entry_place(list, workdir) {
                    Some(k) => {
                        assert(k != i);
                        lemma_only_entry(after, workdir, k);
                    },
                    None => {
                        lemma_entry_place(after, workdir);
                        if entry_place(after, workdir) is Some {
                            let k = entry_place(after, workdir)->0;
                            assert(after[k].workdir == list[k].workdir);
                        }
                    },
                }
            }
        },
        None => {
            assert forall|j: int| 0 <= j < list.len() implies after[j] == list[j] by {}
            assert(after.drop_last() =~= list);
            assert forall|a: int, b: int| 0 <= a < b < after.len() implies !same_path(
                (#[trigger] after[a]).workdir,
                (#[trigger] after[b]).workdir,
            ) by {
                assert(after[a] == list[a]);
                if b < list.len() {
                    assert(after[b] == list[b]);
                }
            }
        },
    }
}

/// Saving keeps the file's entries for other workdirs: another window may have saved them
/// since this one started. Its own entries replace those in the file.
pub proof fn law_other_workdirs_are_kept(on_disk: Seq<WorkdirView>, mine: Seq<WorkdirView>, workdir: Seq<u8>)
    requires
        each_once(on_disk),
        each_once(mine),
    ensures
        each_once(with_workdirs(on_disk, mine)),
        kept(with_workdirs(on_disk, mine), workdir) == (match kept(mine, workdir) {
            Some(selected) => Some(selected),
            None => kept(on_disk, workdir),
        }),
    decreases mine.len(),
{
    if mine.len() > 0 {
        let before = mine.drop_last();
        assert forall|i: int, j: int| 0 <= i < j < before.len() implies !same_path(
            (#[trigger] before[i]).workdir,
            (#[trigger] before[j]).workdir,
        ) by {
            assert(before[i] == mine[i]);
            assert(before[j] == mine[j]);
        }
        law_other_workdirs_are_kept(on_disk, before, workdir);
        lemma_with_workdir(with_workdirs(on_disk, before), mine.last(), workdir);
        lemma_entry_place(before, workdir);
        match entry_place(before, workdir) {
            Some(i) => {
                assert(before[i] == mine[i]);
            },
            None => {},
        }
    }
}

/// The state.
pub struct UiState {
    pub version: u32,
    pub window: Option<SavedWindow>,
    pub layout: SavedLayout,
    pub screen_mode: ScreenMode,
    pub show_command_log: bool,
    pub focused: Panel,
    /// The side panel the main view shows while it has focus.
    pub last_side: Panel,
    /// Selected tab of each side panel that has more than one.
    pub tabs: Tabs,
    /// What is kept of each workdir; none occurs twice.
    pub workdirs: Vec<WorkdirState>,
}

#[verifier::ext_equal]
pub ghost struct UiStateView {
    pub version: u32,
    pub window: Option<SavedWindowView>,
    pub layout: SavedLayoutView,
    pub screen_mode: ScreenMode,
    pub show_command_log: bool,
    pub focused: Panel,
    pub last_side: Panel,
    pub tabs: Tabs,
    pub workdirs: Seq<WorkdirView>,
}

impl View for UiState {
    type V = UiStateView;

    open spec fn view(&self) -> UiStateView {
        UiStateView {
            version: self.version,
            window: window_opt(self.window),
            layout: self.layout@,
            screen_mode: self.screen_mode,
            show_command_log: self.show_command_log,
            focused: self.focused,
            last_side: self.last_side,
            tabs: self.tabs,
            workdirs: workdir_views(self.workdirs@),
        }
    }
}

/// The view of an optional state.
pub open spec fn state_opt(state: Option<UiState>) -> Option<UiStateView> {
    match state {
        Some(s) => Some(s@),
        None => None,
    }
}

/// The state without a file.
pub open spec fn default_state() -> UiStateView {
    UiStateView {
        version: VERSION,
        window: None,
        layout: no_layout(),
        screen_mode: ScreenMode::Normal,
        show_command_log: true,
        focused: Panel::Repos,
        last_side: Panel::Repos,
        tabs: Tabs { files: 0, branches: 0, commits: 0 },
        workdirs: Seq::empty(),
    }
}

impl Default for UiState {
    fn default() -> (r: Self)
        ensures
            r@ == default_state(),
    {
        let r = UiState {
            version: VERSION,
            window: None,
            layout: SavedLayout::default(),
            screen_mode: ScreenMode::Normal,
            show_command_log: true,
            focused: Panel::Repos,
            last_side: Panel::Repos,
            tabs: Tabs { files: 0, branches: 0, commits: 0 },
            workdirs: Vec::new(),
        };
        assert(r@.workdirs =~= Seq::<WorkdirView>::empty());
        r
    }
}

/// The state that a file of some version holds, if it is of the current one and can be read.
pub open spec fn state_of(version: Option<u64>, parsed: Option<UiStateView>) -> UiStateView {
    match parsed {
        Some(state) if version == Some(VERSION as u64) => state,
        _ => default_state(),
    }
}

impl UiState {
    /// The state that a file of some version holds, if it is of the current one and can be
    /// read.
    pub fn read(version: Option<u64>, parsed: Option<UiState>) -> (r: UiState)
        ensures
            r@ == state_of(version, state_opt(parsed)),
    {
        match parsed {
            Some(state) => match version {
                Some(v) if v == VERSION as u64 => state,
                _ => UiState::default(),
            },
            None => UiState::default(),
        }
    }

    /// The state to start with, from a file's bytes and what they are as a state.
    pub fn load(bytes: Option<&[u8]>, parsed: Option<UiState>) -> (r: UiState)
        ensures
            r@ == (match bytes {
                Some(b) => state_of(json_number(b@, "version"@), state_opt(parsed)),
                None => default_state(),
            }),
    {
        match bytes {
            Some(bytes) => {
                let version = number_in_json(bytes, "version");
                UiState::read(version, parsed)
            },
            None => UiState::default(),
        }
    }

    /// What to write: this state, with the file's entries for other workdirs.
    pub fn save(self, on_disk: UiState) -> (r: UiState)
        ensures
            r@ == (UiStateView { workdirs: with_workdirs(on_disk@.workdirs, self@.workdirs), ..self@ }),
    {
        let ghost mine = workdir_views(self.workdirs@);
        let ghost base = workdir_views(on_disk.workdirs@);
        let mut workdirs = on_disk.workdirs;
        let mut i: usize = 0;
        assert(mine.take(0) =~= Seq::<WorkdirView>::empty());
        while i < self.workdirs.len()
            invariant
                i <= self.workdirs@.len(),
                mine == workdir_views(self.workdirs@),
                workdir_views(workdirs@) == with_workdirs(base, mine.take(i as int)),
            decreases self.workdirs@.len() - i,
        {
            let ghost next = mine.take(i + 1);
            assert(next.drop_last() =~= mine.take(i as int));
            assert(next.last() == self.workdirs@[i as int]@);
            put_workdir(&mut workdirs, &self.workdirs[i]);
            i = i + 1;
        }
        assert(mine.take(mine.len() as int) =~= mine);
        UiState { workdirs, ..self }
    }

    /// Which repo was selected in a workdir.
    pub fn selected_repo(&self, workdir: &FsPath) -> (r: Option<FsPath>)
        ensures
            path_opt(r) == (match kept(self@.workdirs, workdir@) {
                Some(selected) => selected,
                None => None,
            }),
    {
        match find_workdir(&self.workdirs, workdir) {
            Some(i) => clone_path_opt(&self.workdirs[i].selected_repo),
            None => None,
        }
    }
}

/// Where a workdir's entry is.
fn find_workdir(list: &Vec<WorkdirState>, workdir: &FsPath) -> (r: Option<usize>)
    ensures
        match r {
            Some(i) => entry_place(workdir_views(list@), workdir@) == Some(i as int) && i < list@.len(),
            None => entry_place(workdir_views(list@), workdir@) is None,
        },
{
    let ghost all = workdir_views(list@);
    let mut n: usize = list.len();
    assert(all.take(n as int) =~= all);
    while n > 0
        invariant
            n <= list@.len(),
            all == workdir_views(list@),
            entry_place(all, workdir@) == entry_place(all.take(n as int), workdir@),
        decreases n,
    {
        let ghost now = all.take(n as int);
        assert(now.last() == list@[n - 1]@);
        assert(now.drop_last() =~= all.take(n - 1));
        if list[n - 1].workdir.same(workdir) {
            return Some(n - 1);
        }
        n = n - 1;
    }
    None
}

/// Puts an entry in.
fn put_workdir(list: &mut Vec<WorkdirState>, w: &WorkdirState)
    ensures
        workdir_views(final(list)@) == with_workdir(workdir_views(old(list)@), w@),
{
    let ghost before = workdir_views(list@);
    match find_workdir(list, &w.workdir) {
        Some(i) => {
            let entry = WorkdirState {
                workdir: list[i].workdir.clone(),
                selected_repo: clone_path_opt(&w.selected_repo),
            };
            let ghost view = entry@;
            list.set(i, entry);
            assert(workdir_views(list@) =~= before.update(i as int, view));
        },
        None => {
            list.push(w.clone());
            assert(workdir_views(list@) =~= before.push(w@));
        },
    }
}

/// What a save writes, a later start reads, as long as the file still holds it.
pub proof fn law_saved_state_is_read_back(state: UiStateView, on_disk: UiStateView)
    requires
        state.version == VERSION,
    ensures
        ({
            let written = UiStateView { workdirs: with_workdirs(on_disk.workdirs, state.workdirs), ..state };
            state_of(Some(written.version as u64), Some(written)) == written
        }),
{
}

/// Files of another version, or without one, and files that can't be read as a state mean the
/// defaults.
pub proof fn law_other_versions_are_ignored(version: Option<u64>, parsed: Option<UiStateView>)
    ensures
        version != Some(VERSION as u64) ==> state_of(version, parsed) == default_state(),
        parsed is None ==> state_of(version, parsed) == default_state(),
{
}

/// Where the state is kept: `UBERGIT_STATE` names the file; a scripted run leaves the real one
/// alone; else it is in the user's data directory.
pub fn state_path(named: Option<FsPath>, scripted: bool, data_dir: Option<FsPath>) -> (r: Option<FsPath>)
    ensures
        path_opt(r) == (if path_opt(named) is Some && path_opt(named)->0.len() > 0 {
            path_opt(named)
        } else if scripted || data_dir is None {
            None
        } else {
            Some(join_path(data_dir->0@, utf8("ubergit/state.json")))
        }),
{
    if let Some(path) = named {
        if !path.is_empty() {
            return Some(path);
        }
    }
    if scripted {
        return None;
    }
    match data_dir {
        Some(dir) => Some(dir.child("ubergit/state.json")),
        None => None,
    }
}

impl WorkspaceView {
    /// The UI as it was left.
    pub open spec fn restored(self, saved: UiStateView) -> WorkspaceView {
        WorkspaceView {
            focused: saved.focused,
            last_side: if saved.last_side.is_side() {
                saved.last_side
            } else {
                Panel::Repos
            },
            tabs: saved.tabs,
            screen_mode: saved.screen_mode,
            show_command_log: saved.show_command_log,
            ..self
        }
    }

    /// What to keep of the UI. `window` and `layout` are the window's placement and the panel
    /// sizes.
    pub open spec fn saved(
        self,
        window: Option<SavedWindowView>,
        layout: SavedLayoutView,
        workdirs: Seq<WorkdirView>,
    ) -> UiStateView {
        UiStateView {
            version: VERSION,
            window,
            layout,
            screen_mode: self.screen_mode,
            show_command_log: self.show_command_log,
            focused: self.focused,
            last_side: self.last_side,
            tabs: self.tabs,
            workdirs,
        }
    }
}

impl Workspace {
    /// Makes the UI what it was when it was left.
    pub fn restore(&mut self, saved: &UiState)
        requires
            old(self)@.wf(),
        ensures
            final(self)@ == old(self)@.restored(saved@),
            final(self)@.wf(),
    {
        self.focused = saved.focused;
        self.last_side = if saved.last_side == Panel::Main {
            Panel::Repos
        } else {
            saved.last_side
        };
        self.tabs = saved.tabs;
        self.screen_mode = saved.screen_mode;
        self.show_command_log = saved.show_command_log;
        assert(self@ =~= old(self)@.restored(saved@));
    }

    /// What to keep of the UI, and which repo is selected in the workdir.
    pub fn saved(
        &self,
        window: Option<SavedWindow>,
        layout: SavedLayout,
        workdir: &FsPath,
        selected: &Option<FsPath>,
    ) -> (r: UiState)
        ensures
            r@ == self@.saved(
                window_opt(window),
                layout@,
                seq![WorkdirView { workdir: workdir@, selected_repo: path_opt(*selected) }],
            ),
    {
        let entry = WorkdirState { workdir: workdir.clone(), selected_repo: clone_path_opt(selected) };
        let ghost view = entry@;
        let mut workdirs: Vec<WorkdirState> = Vec::new();
        workdirs.push(entry);
        assert(workdir_views(workdirs@) =~= seq![view]);
        UiState {
            version: VERSION,
            window,
            layout,
            screen_mode: self.screen_mode,
            show_command_log: self.show_command_log,
            focused: self.focused,
            last_side: self.last_side,
            tabs: self.tabs,
            workdirs,
        }
    }
}

/// The layout survives restarts: a UI that is restored from what another kept has its screen
/// mode, command log, focus and tabs.
pub proof fn law_layout_survives_restarts(
    left: WorkspaceView,
    fresh: WorkspaceView,
    window: Option<SavedWindowView>,
    layout: SavedLayoutView,
    workdirs: Seq<WorkdirView>,
)
    requires
        left.wf(),
    ensures
        ({
            let back = fresh.restored(left.saved(window, layout, workdirs));
            &&& back.focused == left.focused
            &&& back.last_side == left.last_side
            &&& back.tabs == left.tabs
            &&& back.screen_mode == left.screen_mode
            &&& back.show_command_log == left.show_command_log
        }),
{
}

} // verus!
