//! The panels, the views they show, and moving between them.

use vstd::prelude::*;


verus! {

/// A framed part of the window.
#[derive(Clone, Copy, Debug, PartialEq, Eq, Hash, PartialOrd, Ord, Structural)]
pub enum Panel {
    Repos,
    Status,
    Files,
    Branches,
    Commits,
    Stash,
    Main,
}

/// What a panel shows.
#[derive(Clone, Copy, Debug, PartialEq, Eq, Hash, Structural)]
pub enum PaneView {
    Repos,
    Status,
    Files,
    Worktrees,
    Submodules,
    Branches,
    Remotes,
    Tags,
    Commits,
    Reflog,
    Stash,
    Main,
    /// The main view on a file's diff, with a cursor for staging lines (`enter` in Files).
    Staging,
}

/// How much of the window the focused panel takes.
#[derive(Clone, Copy, Debug, PartialEq, Eq, Structural)]
pub enum ScreenMode {
    Normal,
    Half,
    Full,
}

impl Panel {
    /// The tabs of a panel.
    pub open spec fn tab_names(self) -> Seq<&'static str> {
        match self {
            Panel::Repos => seq!["Repos"],
            Panel::Status => seq!["Status"],
            Panel::Files => seq!["Files", "Worktrees", "Submodules"],
            Panel::Branches => seq!["Local branches", "Remotes", "Tags"],
            Panel::Commits => seq!["Commits", "Reflog"],
            Panel::Stash => seq!["Stash"],
            Panel::Main => seq!["Main"],
        }
    }

    /// The titles of the panel's tabs.
    pub fn tabs(self) -> (r: Vec<&'static str>)
        ensures
            r@ == self.tab_names(),
    {
        let r = match self {
            Panel::Repos => vec!["Repos"],
            Panel::Status => vec!["Status"],
            Panel::Files => vec!["Files", "Worktrees", "Submodules"],
            Panel::Branches => vec!["Local branches", "Remotes", "Tags"],
            Panel::Commits => vec!["Commits", "Reflog"],
            Panel::Stash => vec!["Stash"],
            Panel::Main => vec!["Main"],
        };
        assert(r@ =~= self.tab_names());
        r
    }

    /// The key that a panel is focused with.
    pub open spec fn key(self) -> &'static str {
        match self {
            Panel::Repos => "⌘R",
            Panel::Status => "1",
            Panel::Files => "2",
            Panel::Branches => "3",
            Panel::Commits => "4",
            Panel::Stash => "5",
            Panel::Main => "0",
        }
    }

    /// The key that focuses the panel.
    pub fn jump_key(self) -> (r: &'static str)
        ensures
            r == self.key(),
    {
        match self {
            Panel::Repos => "⌘R",
            Panel::Status => "1",
            Panel::Files => "2",
            Panel::Branches => "3",
            Panel::Commits => "4",
            Panel::Stash => "5",
            Panel::Main => "0",
        }
    }

    /// Whether this is one of the side panels, all but the main view.
    pub open spec fn is_side(self) -> bool {
        self != Panel::Main
    }

    /// The side panel after this one, from the last to the first.
    pub open spec fn after(self) -> Panel {
        match self {
            Panel::Repos => Panel::Status,
            Panel::Status => Panel::Files,
            Panel::Files => Panel::Branches,
            Panel::Branches => Panel::Commits,
            Panel::Commits => Panel::Stash,
            Panel::Stash => Panel::Repos,
            Panel::Main => Panel::Status,
        }
    }

    /// The side panel before this one, from the first to the last.
    pub open spec fn before(self) -> Panel {
        match self {
            Panel::Repos => Panel::Stash,
            Panel::Status => Panel::Repos,
            Panel::Files => Panel::Status,
            Panel::Branches => Panel::Files,
            Panel::Commits => Panel::Branches,
            Panel::Stash => Panel::Commits,
            Panel::Main => Panel::Stash,
        }
    }

    /// The next side panel.
    pub fn next(self) -> (r: Panel)
        ensures
            r == self.after(),
    {
        match self {
            Panel::Repos => Panel::Status,
            Panel::Status => Panel::Files,
            Panel::Files => Panel::Branches,
            Panel::Branches => Panel::Commits,
            Panel::Commits => Panel::Stash,
            Panel::Stash => Panel::Repos,
            Panel::Main => Panel::Status,
        }
    }

    /// The previous side panel.
    pub fn prev(self) -> (r: Panel)
        ensures
            r == self.before(),
    {
        match self {
            Panel::Repos => Panel::Stash,
            Panel::Status => Panel::Repos,
            Panel::Files => Panel::Status,
            Panel::Branches => Panel::Files,
            Panel::Commits => Panel::Branches,
            Panel::Stash => Panel::Commits,
            Panel::Main => Panel::Stash,
        }
    }

    /// What a panel shows on one of its tabs.
    pub open spec fn view_at(self, tab: nat) -> PaneView {
        match self {
            Panel::Repos => PaneView::Repos,
            Panel::Status => PaneView::Status,
            Panel::Files => if tab == 1 {
                PaneView::Worktrees
            } else if tab == 2 {
                PaneView::Submodules
            } else {
                PaneView::Files
            },
            Panel::Branches => if tab == 1 {
                PaneView::Remotes
            } else if tab == 2 {
                PaneView::Tags
            } else {
                PaneView::Branches
            },
            Panel::Commits => if tab == 1 {
                PaneView::Reflog
            } else {
                PaneView::Commits
            },
            Panel::Stash => PaneView::Stash,
            Panel::Main => PaneView::Main,
        }
    }

    /// What the panel shows on a tab.
    pub fn view_on(self, tab: usize) -> (r: PaneView)
        ensures
            r == self.view_at(tab as nat),
    {
        match self {
            Panel::Repos => PaneView::Repos,
            Panel::Status => PaneView::Status,
            Panel::Files => if tab == 1 {
                PaneView::Worktrees
            } else if tab == 2 {
                PaneView::Submodules
            } else {
                PaneView::Files
            },
            Panel::Branches => if tab == 1 {
                PaneView::Remotes
            } else if tab == 2 {
                PaneView::Tags
            } else {
                PaneView::Branches
            },
            Panel::Commits => if tab == 1 {
                PaneView::Reflog
            } else {
                PaneView::Commits
            },
            Panel::Stash => PaneView::Stash,
            Panel::Main => PaneView::Main,
        }
    }
}

/// Going to the next panel and back ends where it started, and six steps go all the way
/// round the side panels.
pub proof fn law_panels_go_round(p: Panel)
    requires
        p.is_side(),
    ensures
        p.after().before() == p,
        p.before().after() == p,
        p.after().is_side(),
        p.before().is_side(),
        p.after().after().after().after().after().after() == p,
{
}

impl PaneView {
    /// The name of the view's key context.
    pub open spec fn name(self) -> &'static str {
        match self {
            PaneView::Repos => "Repos",
            PaneView::Status => "Status",
            PaneView::Files => "Files",
            PaneView::Worktrees => "Worktrees",
            PaneView::Submodules => "Submodules",
            PaneView::Branches => "Branches",
            PaneView::Remotes => "Remotes",
            PaneView::Tags => "Tags",
            PaneView::Commits => "Commits",
            PaneView::Reflog => "Reflog",
            PaneView::Stash => "Stash",
            PaneView::Main => "Main",
            PaneView::Staging => "Staging",
        }
    }

    /// The name of the view's key context.
    pub fn context(self) -> (r: &'static str)
        ensures
            r == self.name(),
    {
        match self {
            PaneView::Repos => "Repos",
            PaneView::Status => "Status",
            PaneView::Files => "Files",
            PaneView::Worktrees => "Worktrees",
            PaneView::Submodules => "Submodules",
            PaneView::Branches => "Branches",
            PaneView::Remotes => "Remotes",
            PaneView::Tags => "Tags",
            PaneView::Commits => "Commits",
            PaneView::Reflog => "Reflog",
            PaneView::Stash => "Stash",
            PaneView::Main => "Main",
            PaneView::Staging => "Staging",
        }
    }

    /// Whether the view is a list with a cursor.
    pub open spec fn lists(self) -> bool {
        self != PaneView::Status && self != PaneView::Main && self != PaneView::Staging
    }

    /// Whether the list belongs to the selected repo.
    pub open spec fn lists_detail(self) -> bool {
        self.lists() && self != PaneView::Repos
    }

    pub fn is_list(self) -> (r: bool)
        ensures
            r == self.lists(),
    {
        match self {
            PaneView::Status => false,
            PaneView::Main => false,
            PaneView::Staging => false,
            _ => true,
        }
    }

    /// Lists that belong to the selected repo (reset when switching repos).
    pub fn is_repo_detail(self) -> (r: bool)
        ensures
            r == self.lists_detail(),
    {
        self.is_list() && self != PaneView::Repos
    }

    /// The place of a view among all views.
    pub open spec fn place(self) -> int {
        match self {
            PaneView::Repos => 0,
            PaneView::Status => 1,
            PaneView::Files => 2,
            PaneView::Worktrees => 3,
            PaneView::Submodules => 4,
            PaneView::Branches => 5,
            PaneView::Remotes => 6,
            PaneView::Tags => 7,
            PaneView::Commits => 8,
            PaneView::Reflog => 9,
            PaneView::Stash => 10,
            PaneView::Main => 11,
            PaneView::Staging => 12,
        }
    }

    /// The place of the view among all views.
    pub fn index(self) -> (r: usize)
        ensures
            r == self.place(),
            r < 13,
    {
        match self {
            PaneView::Repos => 0,
            PaneView::Status => 1,
            PaneView::Files => 2,
            PaneView::Worktrees => 3,
            PaneView::Submodules => 4,
            PaneView::Branches => 5,
            PaneView::Remotes => 6,
            PaneView::Tags => 7,
            PaneView::Commits => 8,
            PaneView::Reflog => 9,
            PaneView::Stash => 10,
            PaneView::Main => 11,
            PaneView::Staging => 12,
        }
    }
}

impl ScreenMode {
    /// The mode after this one.
    pub open spec fn after(self) -> ScreenMode {
        match self {
            ScreenMode::Normal => ScreenMode::Half,
            ScreenMode::Half => ScreenMode::Full,
            ScreenMode::Full => ScreenMode::Normal,
        }
    }

    /// The mode before this one.
    pub open spec fn before(self) -> ScreenMode {
        match self {
            ScreenMode::Normal => ScreenMode::Full,
            ScreenMode::Half => ScreenMode::Normal,
            ScreenMode::Full => ScreenMode::Half,
        }
    }

    pub fn next(self) -> (r: ScreenMode)
        ensures
            r == self.after(),
    {
        match self {
            ScreenMode::Normal => ScreenMode::Half,
            ScreenMode::Half => ScreenMode::Full,
            ScreenMode::Full => ScreenMode::Normal,
        }
    }

    pub fn prev(self) -> (r: ScreenMode)
        ensures
            r == self.before(),
    {
        match self {
            ScreenMode::Normal => ScreenMode::Full,
            ScreenMode::Half => ScreenMode::Normal,
            ScreenMode::Full => ScreenMode::Half,
        }
    }
}

/// The previous screen mode undoes the next one.
pub proof fn law_screen_modes_go_round(m: ScreenMode)
    ensures
        m.after().before() == m,
        m.before().after() == m,
        m.after().after().after() == m,
{
}

} // verus!
