//! Every key binding in one table: lazygit's defaults plus the Repos panel.
//!
//! Key contexts, outermost first:
//! - `Panels` wraps the whole layout: global navigation and remote ops.
//! - The focused view's own context (`Repos`, `Files`, `Branches`, ...) is deeper, so its
//!   bindings win over global ones for the same key (e.g. `f` fast-forwards in Branches).
//! - `Dialog` wraps popups; `Panels` is not on the path while one is open, so plain
//!   letter keys reach text inputs.

use vstd::prelude::*;

use crate::text::seqs::strip_prefix;
use crate::text::strings::{after_text, cat3, chars_of, same_str, string_of};

verus! {

/// What a key does.
#[derive(Clone, Copy, Debug, PartialEq, Eq, Structural)]
pub enum Action {
    PrevPanel,
    NextPanel,
    FocusRepos,
    FocusStatus,
    FocusFiles,
    FocusBranches,
    FocusCommits,
    FocusStash,
    FocusMain,
    NextRepo,
    PrevRepo,
    NextTab,
    PrevTab,
    SelectNext,
    SelectPrev,
    PageDown,
    PageUp,
    SelectLast,
    SelectFirst,
    ScrollMainDown,
    HalfPageMainDown,
    ScrollMainUp,
    HalfPageMainUp,
    Enter,
    Back,
    StartFilter,
    ToggleHelp,
    NextScreenMode,
    PrevScreenMode,
    ToggleCommandLog,
    Refresh,
    Quit,
    QuitApp,
    Fetch,
    Pull,
    Push,
    ToggleMark,
    ToggleMarkAll,
    CheckoutByName,
    NewBranchInRepos,
    SwitchToDefault,
    FetchAll,
    FastForwardAll,
    OpenInLazygit,
    ToggleStage,
    ToggleStageAll,
    Commit,
    Amend,
    Discard,
    StashAll,
    StashOptions,
    ToggleSelectHunk,
    ToggleRangeSelect,
    RangeSelectDown,
    RangeSelectUp,
    NextHunk,
    PrevHunk,
    ToggleStagingPanel,
    Checkout,
    NewBranch,
    DeleteBranch,
    FastForward,
    CheckoutPrevious,
    SetUpstream,
    StashApply,
    StashPop,
    StashDrop,
    RenameStash,
    BranchFromStash,
    CloseDialog,
    ConfirmDialog,
}

/// A key and what it does in some context.
#[derive(Clone, Copy, Debug, PartialEq, Eq)]
pub struct Binding {
    pub key: &'static str,
    pub context: &'static str,
    pub action: Action,
    /// What `?` says of it; empty for an alias, which `?` hides.
    pub description: &'static str,
}

/// A line of the key list that `?` shows.
#[derive(Clone, Copy, Debug, PartialEq, Eq)]
pub struct HelpEntry {
    pub key: &'static str,
    pub context: &'static str,
    pub description: &'static str,
}

/// A binding.
pub open spec fn binding(
    key: &'static str,
    context: &'static str,
    action: Action,
    description: &'static str,
) -> Binding {
    Binding { key, context, action, description }
}

/// A binding.
fn bind(key: &'static str, context: &'static str, action: Action, description: &'static str) -> (r:
    Binding)
    ensures
        r == binding(key, context, action, description),
{
    Binding { key, context, action, description }
}

/// Global keys, lazygit's defaults.
pub open spec fn global_keys() -> Seq<Binding> {
    seq![
        binding("h", "Panels", Action::PrevPanel, "Previous panel"),
        binding("left", "Panels", Action::PrevPanel, ""),
        binding("shift-tab", "Panels", Action::PrevPanel, ""),
        binding("l", "Panels", Action::NextPanel, "Next panel"),
        binding("right", "Panels", Action::NextPanel, ""),
        binding("tab", "Panels", Action::NextPanel, ""),
        binding("cmd-r", "Panels", Action::FocusRepos, "Focus repos (switch repository)"),
        binding("ctrl-r", "Panels", Action::FocusRepos, ""),
        binding("1", "Panels", Action::FocusStatus, "Focus status"),
        binding("2", "Panels", Action::FocusFiles, "Focus files"),
        binding("3", "Panels", Action::FocusBranches, "Focus branches"),
        binding("4", "Panels", Action::FocusCommits, "Focus commits"),
        binding("5", "Panels", Action::FocusStash, "Focus stash"),
        binding("0", "Panels", Action::FocusMain, "Focus main view"),
        binding("}", "Panels", Action::NextRepo, "Next repository (from any panel)"),
        binding("{", "Panels", Action::PrevRepo, "Previous repository (from any panel)"),
        binding("]", "Panels", Action::NextTab, "Next tab"),
        binding("[", "Panels", Action::PrevTab, "Previous tab"),
        binding("j", "Panels", Action::SelectNext, "Next item"),
        binding("down", "Panels", Action::SelectNext, ""),
        binding("k", "Panels", Action::SelectPrev, "Previous item"),
        binding("up", "Panels", Action::SelectPrev, ""),
        binding(".", "Panels", Action::PageDown, "Next page"),
        binding(",", "Panels", Action::PageUp, "Previous page"),
        binding(">", "Panels", Action::SelectLast, "Scroll to bottom"),
        binding("end", "Panels", Action::SelectLast, ""),
        binding("<", "Panels", Action::SelectFirst, "Scroll to top"),
        binding("home", "Panels", Action::SelectFirst, ""),
    ]
}

/// Global keys, lazygit's defaults.
fn global_bindings() -> (r: Vec<Binding>)
    ensures
        r@ == global_keys(),
{
    let r = vec![
        bind("h", "Panels", Action::PrevPanel, "Previous panel"),
        bind("left", "Panels", Action::PrevPanel, ""),
        bind("shift-tab", "Panels", Action::PrevPanel, ""),
        bind("l", "Panels", Action::NextPanel, "Next panel"),
        bind("right", "Panels", Action::NextPanel, ""),
        bind("tab", "Panels", Action::NextPanel, ""),
        bind("cmd-r", "Panels", Action::FocusRepos, "Focus repos (switch repository)"),
        bind("ctrl-r", "Panels", Action::FocusRepos, ""),
        bind("1", "Panels", Action::FocusStatus, "Focus status"),
        bind("2", "Panels", Action::FocusFiles, "Focus files"),
        bind("3", "Panels", Action::FocusBranches, "Focus branches"),
        bind("4", "Panels", Action::FocusCommits, "Focus commits"),
        bind("5", "Panels", Action::FocusStash, "Focus stash"),
        bind("0", "Panels", Action::FocusMain, "Focus main view"),
        bind("}", "Panels", Action::NextRepo, "Next repository (from any panel)"),
        bind("{", "Panels", Action::PrevRepo, "Previous repository (from any panel)"),
        bind("]", "Panels", Action::NextTab, "Next tab"),
        bind("[", "Panels", Action::PrevTab, "Previous tab"),
        bind("j", "Panels", Action::SelectNext, "Next item"),
        bind("down", "Panels", Action::SelectNext, ""),
        bind("k", "Panels", Action::SelectPrev, "Previous item"),
        bind("up", "Panels", Action::SelectPrev, ""),
        bind(".", "Panels", Action::PageDown, "Next page"),
        bind(",", "Panels", Action::PageUp, "Previous page"),
        bind(">", "Panels", Action::SelectLast, "Scroll to bottom"),
        bind("end", "Panels", Action::SelectLast, ""),
        bind("<", "Panels", Action::SelectFirst, "Scroll to top"),
        bind("home", "Panels", Action::SelectFirst, ""),
    ];
    assert(r@ =~= global_keys());
    r
}

/// Keys for the main view and the window.
pub open spec fn view_keys() -> Seq<Binding> {
    seq![
        binding("shift-j", "Panels", Action::ScrollMainDown, "Scroll main view down"),
        binding("pagedown", "Panels", Action::HalfPageMainDown, ""),
        binding("ctrl-d", "Panels", Action::HalfPageMainDown, ""),
        binding("shift-k", "Panels", Action::ScrollMainUp, "Scroll main view up"),
        binding("pageup", "Panels", Action::HalfPageMainUp, ""),
        binding("ctrl-u", "Panels", Action::HalfPageMainUp, ""),
        binding("enter", "Panels", Action::Enter, "View item / drill in"),
        binding("escape", "Panels", Action::Back, "Back / clear filter"),
        binding("/", "Panels", Action::StartFilter, "Filter list"),
        binding("?", "Panels", Action::ToggleHelp, "Keybindings"),
        binding("+", "Panels", Action::NextScreenMode, "Next screen mode (normal/half/full)"),
        binding("_", "Panels", Action::PrevScreenMode, "Previous screen mode"),
        binding("@", "Panels", Action::ToggleCommandLog, "Toggle command log"),
        binding("shift-r", "Panels", Action::Refresh, "Refresh (no fetch)"),
        binding("q", "Panels", Action::Quit, "Quit"),
        binding("ctrl-c", "Panels", Action::Quit, ""),
        binding("cmd-q", "Panels", Action::QuitApp, ""),
        binding("f", "Panels", Action::Fetch, "Fetch"),
        binding("p", "Panels", Action::Pull, "Pull"),
        binding("shift-p", "Panels", Action::Push, "Push"),
    ]
}

/// Keys for the main view and the window.
fn view_bindings() -> (r: Vec<Binding>)
    ensures
        r@ == view_keys(),
{
    let r = vec![
        bind("shift-j", "Panels", Action::ScrollMainDown, "Scroll main view down"),
        bind("pagedown", "Panels", Action::HalfPageMainDown, ""),
        bind("ctrl-d", "Panels", Action::HalfPageMainDown, ""),
        bind("shift-k", "Panels", Action::ScrollMainUp, "Scroll main view up"),
        bind("pageup", "Panels", Action::HalfPageMainUp, ""),
        bind("ctrl-u", "Panels", Action::HalfPageMainUp, ""),
        bind("enter", "Panels", Action::Enter, "View item / drill in"),
        bind("escape", "Panels", Action::Back, "Back / clear filter"),
        bind("/", "Panels", Action::StartFilter, "Filter list"),
        bind("?", "Panels", Action::ToggleHelp, "Keybindings"),
        bind("+", "Panels", Action::NextScreenMode, "Next screen mode (normal/half/full)"),
        bind("_", "Panels", Action::PrevScreenMode, "Previous screen mode"),
        bind("@", "Panels", Action::ToggleCommandLog, "Toggle command log"),
        bind("shift-r", "Panels", Action::Refresh, "Refresh (no fetch)"),
        bind("q", "Panels", Action::Quit, "Quit"),
        bind("ctrl-c", "Panels", Action::Quit, ""),
        bind("cmd-q", "Panels", Action::QuitApp, ""),
        bind("f", "Panels", Action::Fetch, "Fetch"),
        bind("p", "Panels", Action::Pull, "Pull"),
        bind("shift-p", "Panels", Action::Push, "Push"),
    ];
    assert(r@ =~= view_keys());
    r
}

/// Keys in the Repos panel.
pub open spec fn repos_keys() -> Seq<Binding> {
    seq![
        binding("space", "Repos", Action::ToggleMark, "Mark / unmark repository"),
        binding("a", "Repos", Action::ToggleMarkAll, "Mark / unmark all"),
        binding("c", "Repos", Action::CheckoutByName, "Check out a branch by name"),
        binding("n", "Repos", Action::NewBranchInRepos, "New branch"),
        binding("m", "Repos", Action::SwitchToDefault, "Check out and fast-forward the default branch"),
        binding("shift-f", "Repos", Action::FetchAll, "Fetch all repositories"),
        binding("shift-u", "Repos", Action::FastForwardAll, "Fast-forward repositories that are behind"),
        binding("o", "Repos", Action::OpenInLazygit, "Open in lazygit"),
    ]
}

/// Keys in the Repos panel.
fn repos_bindings() -> (r: Vec<Binding>)
    ensures
        r@ == repos_keys(),
{
    let r = vec![
        bind("space", "Repos", Action::ToggleMark, "Mark / unmark repository"),
        bind("a", "Repos", Action::ToggleMarkAll, "Mark / unmark all"),
        bind("c", "Repos", Action::CheckoutByName, "Check out a branch by name"),
        bind("n", "Repos", Action::NewBranchInRepos, "New branch"),
        bind("m", "Repos", Action::SwitchToDefault, "Check out and fast-forward the default branch"),
        bind("shift-f", "Repos", Action::FetchAll, "Fetch all repositories"),
        bind("shift-u", "Repos", Action::FastForwardAll, "Fast-forward repositories that are behind"),
        bind("o", "Repos", Action::OpenInLazygit, "Open in lazygit"),
    ];
    assert(r@ =~= repos_keys());
    r
}

/// Keys in the Files panel.
pub open spec fn files_keys() -> Seq<Binding> {
    seq![
        binding("space", "Files", Action::ToggleStage, "Stage / unstage"),
        binding("a", "Files", Action::ToggleStageAll, "Stage / unstage all"),
        binding("c", "Files", Action::Commit, "Commit"),
        binding("shift-a", "Files", Action::Amend, "Amend last commit"),
        binding("d", "Files", Action::Discard, "Discard changes"),
        binding("s", "Files", Action::StashAll, "Stash all changes"),
        binding("shift-s", "Files", Action::StashOptions, "Stash options"),
    ]
}

/// Keys in the Files panel.
fn files_bindings() -> (r: Vec<Binding>)
    ensures
        r@ == files_keys(),
{
    let r = vec![
        bind("space", "Files", Action::ToggleStage, "Stage / unstage"),
        bind("a", "Files", Action::ToggleStageAll, "Stage / unstage all"),
        bind("c", "Files", Action::Commit, "Commit"),
        bind("shift-a", "Files", Action::Amend, "Amend last commit"),
        bind("d", "Files", Action::Discard, "Discard changes"),
        bind("s", "Files", Action::StashAll, "Stash all changes"),
        bind("shift-s", "Files", Action::StashOptions, "Stash options"),
    ];
    assert(r@ =~= files_keys());
    r
}

/// Keys in the staging view.
pub open spec fn staging_keys() -> Seq<Binding> {
    seq![
        binding("space", "Staging", Action::ToggleStage, "Stage / unstage the selection"),
        binding("d", "Staging", Action::Discard, "Discard the selection (in staged changes: unstage it)"),
        binding("a", "Staging", Action::ToggleSelectHunk, "Select hunks / lines"),
        binding("v", "Staging", Action::ToggleRangeSelect, "Select a range"),
        binding("shift-down", "Staging", Action::RangeSelectDown, "Extend the range down"),
        binding("shift-up", "Staging", Action::RangeSelectUp, "Extend the range up"),
        binding("l", "Staging", Action::NextHunk, "Next hunk"),
        binding("right", "Staging", Action::NextHunk, ""),
        binding("h", "Staging", Action::PrevHunk, "Previous hunk"),
        binding("left", "Staging", Action::PrevHunk, ""),
        binding("tab", "Staging", Action::ToggleStagingPanel, "Switch between unstaged and staged changes"),
        binding("c", "Staging", Action::Commit, "Commit"),
    ]
}

/// Keys in the staging view.
fn staging_bindings() -> (r: Vec<Binding>)
    ensures
        r@ == staging_keys(),
{
    let r = vec![
        bind("space", "Staging", Action::ToggleStage, "Stage / unstage the selection"),
        bind("d", "Staging", Action::Discard, "Discard the selection (in staged changes: unstage it)"),
        bind("a", "Staging", Action::ToggleSelectHunk, "Select hunks / lines"),
        bind("v", "Staging", Action::ToggleRangeSelect, "Select a range"),
        bind("shift-down", "Staging", Action::RangeSelectDown, "Extend the range down"),
        bind("shift-up", "Staging", Action::RangeSelectUp, "Extend the range up"),
        bind("l", "Staging", Action::NextHunk, "Next hunk"),
        bind("right", "Staging", Action::NextHunk, ""),
        bind("h", "Staging", Action::PrevHunk, "Previous hunk"),
        bind("left", "Staging", Action::PrevHunk, ""),
        bind("tab", "Staging", Action::ToggleStagingPanel, "Switch between unstaged and staged changes"),
        bind("c", "Staging", Action::Commit, "Commit"),
    ];
    assert(r@ =~= staging_keys());
    r
}

/// Keys for branches, remote branches, tags and commits.
pub open spec fn branches_keys() -> Seq<Binding> {
    seq![
        binding("space", "Branches", Action::Checkout, "Checkout"),
        binding("n", "Branches", Action::NewBranch, "New branch"),
        binding("d", "Branches", Action::DeleteBranch, "Delete branch"),
        binding("f", "Branches", Action::FastForward, "Fast-forward from upstream"),
        binding("-", "Branches", Action::CheckoutPrevious, "Checkout previous branch"),
        binding("u", "Branches", Action::SetUpstream, "Set upstream to <remote>/<name>"),
        binding("space", "Remotes", Action::Checkout, "Checkout as local branch"),
        binding("n", "Remotes", Action::NewBranch, "New branch from remote branch"),
        binding("space", "Tags", Action::Checkout, "Checkout tag (detached)"),
        binding("n", "Tags", Action::NewBranch, "New branch from tag"),
        binding("space", "Commits", Action::Checkout, "Checkout commit (detached)"),
        binding("n", "Commits", Action::NewBranch, "New branch from commit"),
    ]
}

/// Keys for branches, remote branches, tags and commits.
fn branches_bindings() -> (r: Vec<Binding>)
    ensures
        r@ == branches_keys(),
{
    let r = vec![
        bind("space", "Branches", Action::Checkout, "Checkout"),
        bind("n", "Branches", Action::NewBranch, "New branch"),
        bind("d", "Branches", Action::DeleteBranch, "Delete branch"),
        bind("f", "Branches", Action::FastForward, "Fast-forward from upstream"),
        bind("-", "Branches", Action::CheckoutPrevious, "Checkout previous branch"),
        bind("u", "Branches", Action::SetUpstream, "Set upstream to <remote>/<name>"),
        bind("space", "Remotes", Action::Checkout, "Checkout as local branch"),
        bind("n", "Remotes", Action::NewBranch, "New branch from remote branch"),
        bind("space", "Tags", Action::Checkout, "Checkout tag (detached)"),
        bind("n", "Tags", Action::NewBranch, "New branch from tag"),
        bind("space", "Commits", Action::Checkout, "Checkout commit (detached)"),
        bind("n", "Commits", Action::NewBranch, "New branch from commit"),
    ];
    assert(r@ =~= branches_keys());
    r
}

/// Keys in the Stash panel.
pub open spec fn stash_keys() -> Seq<Binding> {
    seq![
        binding("space", "Stash", Action::StashApply, "Apply"),
        binding("g", "Stash", Action::StashPop, "Pop"),
        binding("d", "Stash", Action::StashDrop, "Drop"),
        binding("r", "Stash", Action::RenameStash, "Rename"),
        binding("n", "Stash", Action::BranchFromStash, "New branch from stash"),
    ]
}

/// Keys in the Stash panel.
fn stash_bindings() -> (r: Vec<Binding>)
    ensures
        r@ == stash_keys(),
{
    let r = vec![
        bind("space", "Stash", Action::StashApply, "Apply"),
        bind("g", "Stash", Action::StashPop, "Pop"),
        bind("d", "Stash", Action::StashDrop, "Drop"),
        bind("r", "Stash", Action::RenameStash, "Rename"),
        bind("n", "Stash", Action::BranchFromStash, "New branch from stash"),
    ];
    assert(r@ =~= stash_keys());
    r
}

/// Keys in popups.
pub open spec fn popup_keys() -> Seq<Binding> {
    seq![
        binding("escape", "Dialog", Action::CloseDialog, "Close"),
        binding("enter", "Dialog", Action::ConfirmDialog, "Confirm"),
        binding("q", "Help", Action::CloseDialog, ""),
        binding("?", "Help", Action::CloseDialog, ""),
        binding("j", "Help", Action::SelectNext, ""),
        binding("k", "Help", Action::SelectPrev, ""),
        binding("q", "Results", Action::CloseDialog, ""),
        binding("j", "Results", Action::SelectNext, ""),
        binding("k", "Results", Action::SelectPrev, ""),
        binding("j", "Menu", Action::SelectNext, ""),
        binding("down", "Menu", Action::SelectNext, ""),
        binding("k", "Menu", Action::SelectPrev, ""),
        binding("up", "Menu", Action::SelectPrev, ""),
        binding("q", "Quit", Action::ConfirmDialog, ""),
        binding("cmd-q", "Quit", Action::QuitApp, ""),
    ]
}

/// Keys in popups.
fn popup_bindings() -> (r: Vec<Binding>)
    ensures
        r@ == popup_keys(),
{
    let r = vec![
        bind("escape", "Dialog", Action::CloseDialog, "Close"),
        bind("enter", "Dialog", Action::ConfirmDialog, "Confirm"),
        bind("q", "Help", Action::CloseDialog, ""),
        bind("?", "Help", Action::CloseDialog, ""),
        bind("j", "Help", Action::SelectNext, ""),
        bind("k", "Help", Action::SelectPrev, ""),
        bind("q", "Results", Action::CloseDialog, ""),
        bind("j", "Results", Action::SelectNext, ""),
        bind("k", "Results", Action::SelectPrev, ""),
        bind("j", "Menu", Action::SelectNext, ""),
        bind("down", "Menu", Action::SelectNext, ""),
        bind("k", "Menu", Action::SelectPrev, ""),
        bind("up", "Menu", Action::SelectPrev, ""),
        bind("q", "Quit", Action::ConfirmDialog, ""),
        bind("cmd-q", "Quit", Action::QuitApp, ""),
    ];
    assert(r@ =~= popup_keys());
    r
}

/// All bindings.
pub open spec fn all_keys() -> Seq<Binding> {
    global_keys() + view_keys() + repos_keys() + files_keys() + staging_keys() + branches_keys() + stash_keys() + popup_keys()
}

/// All bindings.
pub fn key_bindings() -> (r: Vec<Binding>)
    ensures
        r@ == all_keys(),
{
    let mut all = global_bindings();
    let mut more = view_bindings();
    all.append(&mut more);
    let mut more = repos_bindings();
    all.append(&mut more);
    let mut more = files_bindings();
    all.append(&mut more);
    let mut more = staging_bindings();
    all.append(&mut more);
    let mut more = branches_bindings();
    all.append(&mut more);
    let mut more = stash_bindings();
    all.append(&mut more);
    let mut more = popup_bindings();
    all.append(&mut more);
    all
}

/// What `?` says of a binding.
pub open spec fn help_entry(b: Binding) -> HelpEntry {
    HelpEntry { key: b.key, context: b.context, description: b.description }
}

/// The key list, aliases among them.
pub fn help() -> (r: Vec<HelpEntry>)
    ensures
        r@ == all_keys().map_values(|b: Binding| help_entry(b)),
{
    let all = key_bindings();
    let ghost entries = all_keys().map_values(|b: Binding| help_entry(b));
    let mut r: Vec<HelpEntry> = Vec::new();
    let mut i: usize = 0;
    while i < all.len()
        invariant
            i <= all@.len(),
            all@ == all_keys(),
            entries == all_keys().map_values(|b: Binding| help_entry(b)),
            r@ == entries.take(i as int),
        decreases all@.len() - i,
    {
        let b = all[i];
        r.push(HelpEntry { key: b.key, context: b.context, description: b.description });
        assert(entries.take(i + 1) =~= entries.take(i as int).push(entries[i as int]));
        i = i + 1;
    }
    assert(entries.take(entries.len() as int) =~= entries);
    r
}

/// The upper case of an ASCII letter; any other character as it is.
pub open spec fn upper(c: char) -> char {
    if 'a' <= c <= 'z' {
        ((c as u32) - 32) as char
    } else {
        c
    }
}

/// Whether a key is one that is shown in angle brackets.
pub open spec fn is_named_key(key: Seq<char>) -> bool {
    ||| key == "space"@
    ||| key == "enter"@
    ||| key == "escape"@
    ||| key == "tab"@
    ||| key == "up"@
    ||| key == "down"@
    ||| key == "left"@
    ||| key == "right"@
    ||| key == "home"@
    ||| key == "end"@
    ||| key == "pageup"@
    ||| key == "pagedown"@
}

/// The label of a key: `J` for shift and one ASCII character, `<c-r>` for a control key,
/// `<tab>` for a named one.
pub open spec fn key_label(key: Seq<char>) -> Seq<char> {
    match strip_prefix(key, "shift-"@) {
        Some(letter) if letter.len() == 1 && (letter[0] as u32) < 128 => seq![upper(letter[0])],
        _ => match strip_prefix(key, "ctrl-"@) {
            Some(rest) => "<c-"@ + rest + ">"@,
            None => if is_named_key(key) {
                "<"@ + key + ">"@
            } else {
                key
            },
        },
    }
}

/// The upper case of an ASCII letter; any other character as it is.
fn to_upper(c: char) -> (r: char)
    ensures
        r == upper(c),
{
    if 'a' <= c && c <= 'z' {
        let code: u32 = c as u32;
        (code as u8 - 32) as char
    } else {
        c
    }
}

/// Whether a key is one that is shown in angle brackets.
fn is_named(key: &str) -> (r: bool)
    ensures
        r == is_named_key(key@),
{
    same_str(key, "space") || same_str(key, "enter") || same_str(key, "escape") || same_str(key, "tab")
        || same_str(key, "up") || same_str(key, "down") || same_str(key, "left") || same_str(key, "right")
        || same_str(key, "home") || same_str(key, "end") || same_str(key, "pageup") || same_str(
        key,
        "pagedown",
    )
}

/// lazygit-style key label, e.g. `shift-j` → `J`, `ctrl-r` → `<c-r>`.
pub fn display_key(key: &str) -> (r: String)
    ensures
        r@ == key_label(key@),
{
    let chars = chars_of(key);
    if let Some(letter) = after_text(chars.as_slice(), "shift-") {
        if letter.len() == 1 && (letter[0] as u32) < 128 {
            let mut out = String::new();
            out.push(to_upper(letter[0]));
            assert(out@ =~= seq![upper(letter@[0])]);
            return out;
        }
    }
    if let Some(rest) = after_text(chars.as_slice(), "ctrl-") {
        let rest = string_of(rest);
        return cat3("<c-", rest.as_str(), ">");
    }
    if is_named(key) {
        cat3("<", key, ">")
    } else {
        key.to_owned()
    }
}

} // verus!
