//! What the panels list, and the bottom bar.

use vstd::prelude::*;

use crate::path::FsPath;
use crate::store::{RepoStore, StoreView};
use crate::ui::bars::{hints, hints_text, info, info_text};
use crate::ui::line::{Line, SpanView};
use crate::ui::overview::{status_line, status_line_of};
use crate::ui::panel::{PaneView, Panel};
use crate::ui::workspace::{ints, lemma_visible, Workspace, WorkspaceView};

verus! {

/// What a panel shows.
pub enum ListBody {
    /// The status line.
    Status(Line),
    /// A message in place of an empty list.
    Message(&'static str),
    /// So many rows.
    Rows(usize),
}

#[verifier::ext_equal]
pub ghost enum BodyView {
    Status(Seq<SpanView>),
    Message(Seq<char>),
    Rows(nat),
}

impl View for ListBody {
    type V = BodyView;

    open spec fn view(&self) -> BodyView {
        match self {
            ListBody::Status(line) => BodyView::Status(line@),
            ListBody::Message(text) => BodyView::Message(text@),
            ListBody::Rows(n) => BodyView::Rows(*n as nat),
        }
    }
}

/// How a row is marked.
#[derive(Clone, Copy, Debug, PartialEq, Eq, Structural)]
pub enum Highlight {
    Plain,
    /// Selected in a panel that is not focused.
    Inactive,
    /// Selected in the panel that is focused, or that the main view follows.
    Active,
}

impl WorkspaceView {
    /// What a panel shows.
    pub open spec fn list_body(self, panel: Panel, store: StoreView) -> BodyView {
        let view = self.view_of(panel);
        let n = self.visible(view, store).len();
        if view == PaneView::Status {
            BodyView::Status(status_line_of(store))
        } else if n == 0 {
            BodyView::Message(self.empty_text(view, store))
        } else {
            BodyView::Rows(n)
        }
    }

    /// How the row at a position is marked.
    pub open spec fn highlight(self, panel: Panel, position: int, store: StoreView) -> Highlight {
        let view = self.view_of(panel);
        if position != self.cursor(view, self.visible(view, store).len()) {
            Highlight::Plain
        } else if self.is_active(panel) || (self.focused == Panel::Main && self.last_side == panel) {
            Highlight::Active
        } else {
            Highlight::Inactive
        }
    }
}

impl Workspace {
    /// What a panel shows.
    pub fn list_body(&self, panel: Panel, store: &RepoStore) -> (r: ListBody)
        requires
            self@.wf(),
        ensures
            r@ == self@.list_body(panel, store@),
    {
        let view = self.view_of(panel);
        if view == PaneView::Status {
            return ListBody::Status(status_line(store));
        }
        let visible = self.visible(view, store);
        assert(ints(visible@).len() == visible@.len());
        if visible.len() == 0 {
            ListBody::Message(self.empty_text(view, store))
        } else {
            ListBody::Rows(visible.len())
        }
    }

    /// The row at a position of a panel's list, and how it is marked. `panel_chars` is how
    /// many characters fit in the Repos column.
    pub fn list_row(&self, panel: Panel, position: usize, store: &RepoStore, panel_chars: usize, now: u64) -> (r: Option<
        (Line, Highlight),
    >)
        requires
            self@.wf(),
        ensures
            ({
                let view = self@.view_of(panel);
                let visible = self@.visible(view, store@);
                match r {
                    Some((line, highlight)) => {
                        &&& position < visible.len()
                        &&& line@ == self@.row(
                            view,
                            visible[position as int],
                            store@,
                            self@.name_width(store@, panel_chars as int),
                            now,
                        )
                        &&& highlight == self@.highlight(panel, position as int, store@)
                    },
                    None => position >= visible.len(),
                }
            }),
    {
        let view = self.view_of(panel);
        let visible = self.visible(view, store);
        assert(ints(visible@).len() == visible@.len());
        if position >= visible.len() {
            return None;
        }
        proof {
            lemma_visible(self@, view, store@);
        }
        assert(ints(visible@)[position as int] == visible@[position as int]);
        let width = self.name_width(store, panel_chars);
        let line = self.row(view, visible[position], store, width, now);
        let highlight = if position != self.cursor(view, visible.len()) {
            Highlight::Plain
        } else if self.is_active(panel) || (self.focused == Panel::Main && self.last_side == panel) {
            Highlight::Active
        } else {
            Highlight::Inactive
        };
        Some((line, highlight))
    }
}

/// The bottom bar: what is going on, the keys of the focused view, and counts.
pub struct BottomBar {
    pub activity: Line,
    pub hints: String,
    pub info: String,
}

impl Workspace {
    /// The bottom bar; while a filter is typed, its input is there instead.
    pub fn bottom_bar(&self, store: &RepoStore, home: Option<&FsPath>) -> (r: Option<BottomBar>)
        ensures
            match r {
                Some(bar) => {
                    &&& self@.filter is None
                    &&& bar.activity@ == self@.activity(store@)
                    &&& bar.hints@ == hints_text(self@.current_view())
                    &&& bar.info@ == info_text(
                        store@,
                        match home {
                            Some(h) => Some(h@),
                            None => None,
                        },
                    )
                },
                None => self@.filter is Some,
            },
    {
        if self.filter.is_some() {
            return None;
        }
        Some(
            BottomBar {
                activity: self.activity(store),
                hints: hints(self.current_view()),
                info: info(store, home),
            },
        )
    }
}

} // verus!
