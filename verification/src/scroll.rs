//! Which entry of a list is selected, and which part of the list is shown.
use vstd::prelude::*;

verus! {

/// The selected entry and the first one that is shown.
#[derive(Clone, Copy, Debug, PartialEq, Eq, Structural)]
pub struct ScrollState {
    pub selected_idx: Option<usize>,
    pub scroll_top: usize,
}

impl ScrollState {
    /// Nothing is selected and the list is shown from its top.
    pub fn new() -> (r: Self)
        ensures
            r == (ScrollState { selected_idx: None, scroll_top: 0 }),
    {
        ScrollState { selected_idx: None, scroll_top: 0 }
    }

    /// The selection one entry up in a list of `len`; from the top it goes to the end.
    pub open spec fn moved_up(self, len: nat) -> Self {
        if len == 0 {
            ScrollState { selected_idx: None, scroll_top: 0 }
        } else {
            ScrollState {
                selected_idx: Some(
                    match self.selected_idx {
                        Some(i) => if i > 0 {
                            (i - 1) as usize
                        } else {
                            (len - 1) as usize
                        },
                        None => 0,
                    },
                ),
                ..self
            }
        }
    }

    /// The selection one entry down in a list of `len`; from the end it goes to the top.
    pub open spec fn moved_down(self, len: nat) -> Self {
        if len == 0 {
            ScrollState { selected_idx: None, scroll_top: 0 }
        } else {
            ScrollState {
                selected_idx: Some(
                    match self.selected_idx {
                        Some(i) => if i + 1 < len {
                            (i + 1) as usize
                        } else {
                            0
                        },
                        None => 0,
                    },
                ),
                ..self
            }
        }
    }

    /// The list scrolled no further than it takes to show the selected entry among `rows` rows.
    pub open spec fn shown(self, len: nat, rows: nat) -> Self {
        ScrollState {
            scroll_top: if len == 0 || rows == 0 {
                0
            } else {
                match self.selected_idx {
                    Some(i) => if i < self.scroll_top {
                        i
                    } else if i >= self.scroll_top + rows {
                        (i + 1 - rows) as usize
                    } else {
                        self.scroll_top
                    },
                    None => 0,
                }
            },
            ..self
        }
    }

    /// Selects the entry above; from the top it goes to the end.
    pub fn move_up_wrap(&mut self, len: usize)
        ensures
            *final(self) == old(self).moved_up(len as nat),
    {
        if len == 0 {
            self.selected_idx = None;
            self.scroll_top = 0;
            return;
        }
        self.selected_idx =
        Some(
            match self.selected_idx {
                Some(i) => if i > 0 {
                    i - 1
                } else {
                    len - 1
                },
                None => 0,
            },
        );
    }

    /// Selects the entry below; from the end it goes to the top.
    pub fn move_down_wrap(&mut self, len: usize)
        ensures
            *final(self) == old(self).moved_down(len as nat),
    {
        if len == 0 {
            self.selected_idx = None;
            self.scroll_top = 0;
            return;
        }
        self.selected_idx =
        Some(
            match self.selected_idx {
                Some(i) => if i < len - 1 {
                    i + 1
                } else {
                    0
                },
                None => 0,
            },
        );
    }

    /// Scrolls no further than it takes to show the selected entry.
    pub fn ensure_visible(&mut self, len: usize, visible_rows: usize)
        ensures
            *final(self) == old(self).shown(len as nat, visible_rows as nat),
    {
        if len == 0 || visible_rows == 0 {
            self.scroll_top = 0;
            return;
        }
        match self.selected_idx {
            Some(i) => {
                if i < self.scroll_top {
                    self.scroll_top = i;
                } else if i - self.scroll_top >= visible_rows {
                    self.scroll_top = i - visible_rows + 1;
                }
            },
            None => {
                self.scroll_top = 0;
            },
        }
    }
}

/// After scrolling, the selected entry is among those that are shown.
pub proof fn law_selection_is_shown(state: ScrollState, len: nat, rows: nat)
    requires
        len > 0,
        rows > 0,
        state.selected_idx is Some,
    ensures
        ({
            let now = state.shown(len, rows);
            &&& now.selected_idx == state.selected_idx
            &&& now.scroll_top <= now.selected_idx->0 < now.scroll_top + rows
        }),
{
}

/// A move selects an entry of the list, and moving back selects the entry before.
pub proof fn law_moves_undo_each_other(state: ScrollState, len: nat)
    requires
        state.selected_idx is Some,
        state.selected_idx->0 < len <= usize::MAX,
    ensures
        state.moved_down(len).selected_idx->0 < len,
        state.moved_up(len).selected_idx->0 < len,
        state.moved_down(len).moved_up(len) == state,
        state.moved_up(len).moved_down(len) == state,
{
}

} // verus!
