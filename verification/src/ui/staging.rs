//! The staging view's cursor: what it selects and how it moves.

use std::ops::Range;

use vstd::prelude::*;

use crate::ops::{reverses, PatchAction};
use crate::patch::diff::PatchView;
use crate::patch::navigate::index_opt;
use crate::patch::selection::Selection;
use crate::patch::{NoNewlineConflict, Patch};
use crate::text::strings::text_opt;

verus! {

/// The staging view's cursor, while the main view shows the diff of the file selected in
/// Files and has the focus.
#[derive(Debug, PartialEq, Eq)]
pub struct Staging {
    /// The file being staged; `None` when the staging view isn't open.
    pub path: Option<String>,
    /// In the staged changes, rather than the unstaged ones.
    pub staged: bool,
    /// A line of the diff.
    pub cursor: usize,
    /// Where a range selection (`v`) started.
    pub anchor: Option<usize>,
    /// Select the block of changes around the cursor (`a`), not just its line.
    pub hunk: bool,
    /// Set while a patch is applied, then to the first load that will show its result:
    /// until that lands, the diff on screen is out of date and keys that change it wait.
    pub pending: Option<u64>,
}

#[verifier::ext_equal]
pub ghost struct StagingView {
    pub path: Option<Seq<char>>,
    pub staged: bool,
    pub cursor: int,
    pub anchor: Option<int>,
    pub hunk: bool,
    pub pending: Option<u64>,
}

impl View for Staging {
    type V = StagingView;

    open spec fn view(&self) -> StagingView {
        StagingView {
            path: text_opt(self.path),
            staged: self.staged,
            cursor: self.cursor as int,
            anchor: index_opt(self.anchor),
            hunk: self.hunk,
            pending: self.pending,
        }
    }
}

/// The staging view that isn't open.
pub open spec fn not_staging() -> StagingView {
    StagingView { path: None, staged: false, cursor: 0, anchor: None, hunk: false, pending: None }
}

impl Default for Staging {
    fn default() -> (r: Staging)
        ensures
            r@ == not_staging(),
            r@.wf(),
    {
        Staging { path: None, staged: false, cursor: 0, anchor: None, hunk: false, pending: None }
    }
}

/// Whether a line number is one that a text can have.
pub open spec fn line_number(i: int) -> bool {
    0 <= i < usize::MAX
}

impl StagingView {
    /// The cursor and the anchor are lines that a diff can have.
    pub open spec fn wf(self) -> bool {
        &&& line_number(self.cursor)
        &&& self.anchor matches Some(a) ==> line_number(a)
    }

    /// The selected lines, from the first to before the second number: the range, else the
    /// hunk or the line at the cursor.
    pub open spec fn selection(self, patch: PatchView) -> (int, int) {
        match self.anchor {
            Some(anchor) => if anchor <= self.cursor {
                (anchor, self.cursor + 1)
            } else {
                (self.cursor, anchor + 1)
            },
            None => match patch.block_of(self.cursor) {
                Some(block) if self.hunk => block,
                _ => (self.cursor, self.cursor + 1),
            },
        }
    }

    /// The cursor moved to a line, if there is one. With `extend`, the move extends a range
    /// selection (starting one if needed).
    pub open spec fn moved(self, extend: bool, to: Option<int>) -> StagingView {
        let start = if extend && self.anchor is None {
            StagingView { anchor: Some(self.cursor), hunk: false, ..self }
        } else {
            self
        };
        match to {
            Some(line) => StagingView { cursor: line, ..start },
            None => start,
        }
    }

    /// Whether the cursor moves by hunks.
    pub open spec fn by_hunk(self) -> bool {
        self.hunk && self.anchor is None
    }

    /// Where `j` and `k` go: the next line, or the next hunk in hunk mode.
    pub open spec fn step_target(self, patch: PatchView, forward: bool) -> Option<int> {
        if self.by_hunk() {
            patch.block_beside(self.cursor, forward)
        } else {
            patch.change_beside(self.cursor, forward)
        }
    }

    /// Where `.` and `,` go: the change nearest to `amount` lines away.
    pub open spec fn page_target(self, patch: PatchView, forward: bool, amount: int) -> Option<int> {
        if forward {
            let target = self.cursor + amount;
            patch.closest_change(
                if target <= usize::MAX {
                    target
                } else {
                    usize::MAX as int
                },
            )
        } else {
            let target = if self.cursor >= amount {
                self.cursor - amount
            } else {
                0
            };
            match patch.previous_change(target + 1) {
                Some(i) => Some(i),
                None => patch.next_change(0),
            }
        }
    }

    /// The other way to select: hunks or lines.
    pub open spec fn hunk_toggled(self) -> StagingView {
        StagingView { hunk: !self.hunk, anchor: None, ..self }
    }

    /// A range selection started at the cursor, or ended.
    pub open spec fn range_toggled(self) -> StagingView {
        StagingView {
            anchor: match self.anchor {
                Some(_) => None,
                None => Some(self.cursor),
            },
            hunk: false,
            ..self
        }
    }

    /// No range selection.
    pub open spec fn without_range(self) -> StagingView {
        StagingView { anchor: None, ..self }
    }

    /// The cursor, kept right after the diff changed: on its line if that is still a change,
    /// else on the next one; a range that starts past the end is gone.
    pub open spec fn settled(self, patch: PatchView) -> StagingView {
        StagingView {
            cursor: match patch.closest_change(self.cursor) {
                Some(i) => i,
                None => 0,
            },
            anchor: match self.anchor {
                Some(a) if a >= patch.lines.len() => None,
                _ => self.anchor,
            },
            ..self
        }
    }

    /// The part of a patch that is selected.
    pub open spec fn selected(self, patch: PatchView, action: PatchAction) -> Selection {
        let (lo, hi) = self.selection(patch);
        Selection { lo, hi, reverse: reverses(action) }
    }
}

impl PatchView {
    /// The next or the previous change.
    pub open spec fn change_beside(self, ix: int, forward: bool) -> Option<int> {
        if forward {
            self.next_change(ix + 1)
        } else {
            self.previous_change(ix)
        }
    }
}

/// A range as a pair.
pub open spec fn range_pair(r: Range<usize>) -> (int, int) {
    (r.start as int, r.end as int)
}

impl Staging {
    /// The selected lines: the range, else the hunk or the line at the cursor.
    pub fn selection(&self, patch: &Patch) -> (r: Range<usize>)
        requires
            self@.wf(),
        ensures
            range_pair(r) == self@.selection(patch@),
    {
        match self.anchor {
            Some(anchor) => if anchor <= self.cursor {
                anchor..self.cursor + 1
            } else {
                self.cursor..anchor + 1
            },
            None => {
                if self.hunk {
                    match patch.block(self.cursor) {
                        Some(block) => block,
                        None => self.cursor..self.cursor + 1,
                    }
                } else {
                    self.cursor..self.cursor + 1
                }
            },
        }
    }

    /// Moves the cursor to a line, if there is one. With `extend`, the move extends a range
    /// selection (starting one if needed). Returns the lines to scroll into view.
    pub fn move_to(&mut self, patch: &Patch, extend: bool, to: Option<usize>) -> (r: Option<Range<usize>>)
        requires
            old(self)@.wf(),
            to matches Some(i) ==> i < usize::MAX,
        ensures
            final(self)@ == old(self)@.moved(extend, index_opt(to)),
            final(self)@.wf(),
            match (to, r) {
                (Some(line), Some(shown)) => range_pair(shown) == (if final(self)@.anchor is Some {
                    (line as int, line + 1)
                } else {
                    final(self)@.selection(patch@)
                }),
                (None, None) => true,
                _ => false,
            },
    {
        if extend && self.anchor.is_none() {
            self.anchor = Some(self.cursor);
            self.hunk = false;
        }
        match to {
            Some(line) => {
                self.cursor = line;
                if self.anchor.is_some() {
                    Some(line..line + 1)
                } else {
                    Some(self.selection(patch))
                }
            },
            None => None,
        }
    }

    /// Where `j` and `k` go: the next line, or the next hunk in hunk mode.
    pub fn step_to(&self, patch: &Patch, forward: bool) -> (r: Option<usize>)
        requires
            self@.wf(),
        ensures
            index_opt(r) == self@.step_target(patch@, forward),
            r matches Some(i) ==> i < usize::MAX,
    {
        if self.hunk && self.anchor.is_none() {
            patch.adjacent_block(self.cursor, forward)
        } else {
            patch.adjacent_change(self.cursor, forward)
        }
    }

    /// Where `.` and `,` go: the change nearest to `amount` lines away.
    pub fn page_to(&self, patch: &Patch, forward: bool, amount: usize) -> (r: Option<usize>)
        requires
            self@.wf(),
        ensures
            index_opt(r) == self@.page_target(patch@, forward, amount as int),
            r matches Some(i) ==> i < usize::MAX,
    {
        if forward {
            let target: usize = if amount <= usize::MAX - self.cursor {
                self.cursor + amount
            } else {
                usize::MAX
            };
            patch.nearest_change(target)
        } else {
            let target: usize = if self.cursor >= amount {
                self.cursor - amount
            } else {
                0
            };
            match patch.adjacent_change(target + 1, false) {
                Some(i) => Some(i),
                None => patch.first_change(),
            }
        }
    }

    /// Keeps the cursor right after the diff changed.
    pub fn settle(&mut self, patch: &Patch)
        requires
            old(self)@.wf(),
        ensures
            final(self)@ == old(self)@.settled(patch@),
            final(self)@.wf(),
    {
        let n: usize = patch.len();
        let to = patch.nearest_change(self.cursor);
        self.cursor = match to {
            Some(i) => i,
            None => 0,
        };
        if let Some(anchor) = self.anchor {
            if anchor >= n {
                self.anchor = None;
            }
        }
    }

    /// The selection as a patch for `action`, unless there's nothing to apply (or the diff
    /// on screen is about to change).
    pub fn build(&self, patch: &Patch, action: PatchAction) -> (r: Result<Option<Vec<u8>>, NoNewlineConflict>)
        requires
            self@.wf(),
        ensures
            ({
                let sel = self@.selected(patch@, action);
                match r {
                    Err(_) => self@.pending is None && patch@.conflicts(sel),
                    Ok(None) => self@.pending is Some || (!patch@.conflicts(sel) && patch@.patch_text(
                        sel,
                    ).len() == 0),
                    Ok(Some(out)) => self@.pending is None && !patch@.conflicts(sel) && out@
                        == patch@.patch_text(sel) && out@.len() > 0,
                }
            }),
    {
        if self.pending.is_some() {
            return Ok(None);
        }
        patch.build(self.selection(patch), action != PatchAction::Stage)
    }
}

} // verus!
