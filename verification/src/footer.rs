//! One line on the processes that run in the background.
use vstd::prelude::*;
use crate::ids::{decimal, decimal_text};
use crate::text::{cat2, cat3, opt_view};
use crate::widths::{prefix_within, take_prefix_by_width};

verus! {

/// The ending of a word for a number of things.
pub open spec fn plural(n: nat) -> Seq<char> {
    if n == 1 {
        ""@
    } else {
        "s"@
    }
}

pub(crate) fn plural_suffix(n: usize) -> (r: &'static str)
    ensures
        r@ == plural(n as nat),
{
    if n == 1 {
        ""
    } else {
        "s"
    }
}

/// A number of things.
pub open spec fn counted(n: nat, thing: Seq<char>) -> Seq<char> {
    decimal(n) + thing + plural(n)
}

pub(crate) fn count_of(n: usize, thing: &str) -> (r: String)
    ensures
        r@ == counted(n as nat, thing@),
{
    cat3(decimal_text(n as u64).as_str(), thing, plural_suffix(n))
}

/// The processes that run in the background, by number.
#[derive(Clone, Copy, Debug, PartialEq, Eq)]
pub struct UnifiedExecFooter {
    background_terminal_count: usize,
    monitor_count: usize,
}

/// What the footer says.
pub open spec fn summary(terminals: nat, monitors: nat) -> Option<Seq<char>> {
    if terminals == 0 && monitors == 0 {
        None
    } else if terminals == 0 {
        Some(counted(monitors, " monitor"@) + " · ↓ to manage"@)
    } else if monitors == 0 {
        Some(
            counted(terminals, " background terminal"@)
                + " running · /ps to view · /stop to close"@,
        )
    } else {
        Some(
            counted(terminals, " shell"@) + ", "@ + counted(monitors, " monitor"@)
                + " · ↓ to manage"@,
        )
    }
}

impl UnifiedExecFooter {
    pub closed spec fn terminals(&self) -> nat {
        self.background_terminal_count as nat
    }

    pub closed spec fn monitors(&self) -> nat {
        self.monitor_count as nat
    }

    pub fn new() -> (r: Self)
        ensures
            r.terminals() == 0,
            r.monitors() == 0,
    {
        UnifiedExecFooter { background_terminal_count: 0, monitor_count: 0 }
    }

    /// Sets the numbers; says whether they changed.
    pub fn set_process_counts(&mut self, background_terminal_count: usize, monitor_count: usize) -> (r:
        bool)
        ensures
            final(self).terminals() == background_terminal_count,
            final(self).monitors() == monitor_count,
            r == (old(self).terminals() != background_terminal_count || old(self).monitors()
                != monitor_count),
    {
        if self.background_terminal_count == background_terminal_count && self.monitor_count
            == monitor_count {
            return false;
        }
        self.background_terminal_count = background_terminal_count;
        self.monitor_count = monitor_count;
        true
    }

    pub fn is_empty(&self) -> (r: bool)
        ensures
            r == (self.terminals() == 0 && self.monitors() == 0),
    {
        self.background_terminal_count == 0 && self.monitor_count == 0
    }

    /// What the footer says, without any framing; nothing where nothing runs.
    pub fn summary_text(&self) -> (r: Option<String>)
        ensures
            opt_view(r) == summary(self.terminals(), self.monitors()),
    {
        if self.is_empty() {
            return None;
        }
        if self.background_terminal_count == 0 {
            let monitors = count_of(self.monitor_count, " monitor");
            return Some(cat2(monitors.as_str(), " · ↓ to manage"));
        }
        if self.monitor_count == 0 {
            let terminals = count_of(self.background_terminal_count, " background terminal");
            return Some(cat2(terminals.as_str(), " running · /ps to view · /stop to close"));
        }
        let shells = count_of(self.background_terminal_count, " shell");
        let monitors = count_of(self.monitor_count, " monitor");
        Some(
            cat2(
                cat3(shells.as_str(), ", ", monitors.as_str()).as_str(),
                " · ↓ to manage",
            ),
        )
    }

    /// The row of the footer, cut to the width; there is none where nothing runs or there is no
    /// room.
    pub fn render_line(&self, width: u16) -> (r: Option<String>)
        ensures
            opt_view(r) == (match summary(self.terminals(), self.monitors()) {
                Some(text) if width >= 4 => Some(prefix_within("  "@ + text, width as nat)),
                _ => None,
            }),
    {
        if width < 4 {
            return None;
        }
        match self.summary_text() {
            Some(text) => {
                let message = cat2("  ", text.as_str());
                let (row, _) = take_prefix_by_width(message.as_str(), width as usize);
                Some(row)
            },
            None => None,
        }
    }

    /// How many rows the footer wants.
    pub fn desired_height(&self, width: u16) -> (r: u16)
        ensures
            r == (if width >= 4 && (self.terminals() > 0 || self.monitors() > 0) {
                1int
            } else {
                0int
            }),
    {
        if self.render_line(width).is_some() {
            1
        } else {
            0
        }
    }
}

} // verus!
