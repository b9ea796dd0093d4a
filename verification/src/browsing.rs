//! What keys, answers and new lists do to the view of background processes.
use vstd::prelude::*;
use crate::background::{counts_text, has_id, head_within, listed_as, normalized, utf16_units, BackgroundCommandView, BackgroundMonitorOutputRequestView, BackgroundProcessItemView, BackgroundProcessesModel, KeyCode, KeyPress, MonitorPollLifecycleView, StopStateView, ViewCompletion};
use crate::exec_state::{UnifiedExecProcessKindView, UnifiedExecProcessSummaryView};
use crate::footer::counted;
use crate::monitor_output::{of_chunks, of_snapshot, DetailOutputStateView, ThreadBackgroundTerminalOutputView};
use crate::scroll::ScrollState;
use crate::search::{find_from, lemma_find_from};

verus! {

/// Moving up and down goes round the list by one; without a selection the first entry is selected.
pub proof fn law_moves_go_round(state: ScrollState, len: nat)
    requires
        0 < len <= usize::MAX,
    ensures
        state.selected_idx matches Some(i) ==> i < len ==> state.moved_down(len).selected_idx == Some(
            ((i + 1) % len as int) as usize,
        ) && state.moved_up(len).selected_idx == Some(((i + len - 1) % len as int) as usize),
        state.selected_idx is None ==> state.moved_down(len).selected_idx == Some(0usize)
            && state.moved_up(len).selected_idx == Some(0usize),
        state.moved_down(len).scroll_top == state.scroll_top,
        state.moved_up(len).scroll_top == state.scroll_top,
{
    if let Some(i) = state.selected_idx {
        if i < len {
            let n = len as int;
            if i + 1 < n {
                vstd::arithmetic::div_mod::lemma_small_mod((i + 1) as nat, len);
            } else {
                vstd::arithmetic::div_mod::lemma_mod_self_0(n);
            }
            if i > 0 {
                vstd::arithmetic::div_mod::lemma_small_mod((i - 1) as nat, len);
                vstd::arithmetic::div_mod::lemma_mod_add_multiples_vanish(i - 1, n);
                assert((i + n - 1) % n == i - 1);
            } else {
                vstd::arithmetic::div_mod::lemma_small_mod((n - 1) as nat, len);
            }
        }
    }
}

/// Scrolling moves the first row no further than it takes to show the selection.
pub proof fn law_scrolling_is_least(state: ScrollState, len: nat, rows: nat)
    requires
        len > 0,
        rows > 0,
        state.selected_idx is Some,
        state.selected_idx->0 < usize::MAX,
    ensures
        ({
            let i = state.selected_idx->0;
            let top = state.shown(len, rows).scroll_top;
            &&& state.scroll_top <= i < state.scroll_top + rows ==> top == state.scroll_top
            &&& i < state.scroll_top ==> top == i
            &&& i >= state.scroll_top + rows ==> top + rows == i + 1
        }),
{
}

/// A command is cut to the longest beginning of at most so many units.
pub proof fn law_command_is_cut_least(s: Seq<char>, max: nat)
    ensures
        head_within(s, max).len() <= s.len(),
        head_within(s, max) == s.take(head_within(s, max).len() as int),
        utf16_units(head_within(s, max)) <= max,
        head_within(s, max).len() < s.len() ==> utf16_units(
            s.take(head_within(s, max).len() as int + 1),
        ) > max,
    decreases s.len(),
{
    if utf16_units(s) <= max {
        assert(s.take(s.len() as int) =~= s);
    } else {
        let rest = s.drop_last();
        law_command_is_cut_least(rest, max);
        let h = head_within(rest, max);
        assert(rest.take(h.len() as int) =~= s.take(h.len() as int));
        if h.len() < rest.len() {
            assert(rest.take(h.len() as int + 1) =~= s.take(h.len() as int + 1));
        } else {
            assert(s.take(h.len() as int + 1) =~= s);
        }
    }
}

/// A process is listed under its own key, with its command, its last output and its start, and with
/// what it watches exactly if it is a monitor.
pub proof fn law_process_is_listed_as_it_is(process: UnifiedExecProcessSummaryView)
    ensures
        ({
            let item = listed_as(process);
            &&& item.process_id == process.key
            &&& item.command_display == process.command_display
            &&& item.recent_output == process.recent_chunks
            &&& item.started_at == process.started_at
            &&& item.monitor == match process.kind {
                UnifiedExecProcessKindView::Monitor(state) => Some(state.info),
                UnifiedExecProcessKindView::BackgroundTerminal => None,
            }
        }),
{
}

/// A view opens on the list, with the first entry selected, and on the details where there is but one.
pub proof fn law_view_opens_on_the_list(
    items: Seq<BackgroundProcessItemView>,
    thread_id: Option<u128>,
    max_rows: u16,
    request_timeout: u64,
)
    ensures
        ({
            let view = BackgroundProcessesModel::opened(items, thread_id, max_rows, request_timeout);
            &&& view.items.len() == items.len()
            &&& forall|i: int|
                0 <= i < items.len() ==> #[trigger] view.items[i] == (BackgroundProcessItemView {
                    command_display: head_within(items[i].command_display, 280),
                    ..items[i]
                })
            &&& view.detail_idx == if items.len() == 1 {
                Some(0usize)
            } else {
                None
            }
            &&& items.len() > 0 ==> view.scroll.selected_idx == Some(0usize)
            &&& items.len() == 0 ==> view.scroll.selected_idx is None
            &&& view.scroll.scroll_top == 0
            &&& view.completion is None && view.target is None && view.generation is None
                && view.last_started_at is None
            &&& view.stop == StopStateView::Idle && view.poll == MonitorPollLifecycleView::Idle
                && view.output == DetailOutputStateView::Loading
            &&& view.thread_id == thread_id && view.max_rows == max_rows && view.request_timeout
                == request_timeout
        }),
{
}

impl BackgroundProcessesModel {
    /// Two views show the same entries of the same thread in the same way.
    pub open spec fn same_list(self, other: Self) -> bool {
        &&& self.items == other.items && self.thread_id == other.thread_id
        &&& self.max_rows == other.max_rows && self.request_timeout == other.request_timeout
    }
}

/// A key that goes up again does nothing.
pub proof fn law_released_keys_do_nothing(
    view: BackgroundProcessesModel,
    key: KeyPress,
    now: u64,
    generation: u128,
)
    requires
        key.released,
    ensures
        view.pressed(key, now, generation).0 == view,
        view.pressed(key, now, generation).1 is None,
{
}

/// The key `x` alone stops the process whose details are shown, else the selected one, unless one is
/// being stopped already; nothing else changes.
pub proof fn law_x_stops_the_process(
    view: BackgroundProcessesModel,
    key: KeyPress,
    now: u64,
    generation: u128,
    idx: usize,
)
    requires
        !key.released,
        key.code == KeyCode::Char('x'),
        key.unmodified,
        idx < view.items.len(),
        view.detail_idx == Some(idx) || (view.detail_idx is None && view.scroll.selected_idx == Some(
            idx,
        )),
    ensures
        ({
            let (then, command) = view.pressed(key, now, generation);
            let id = view.items[idx as int].process_id;
            &&& view.stop is InFlight ==> then == view && command is None
            &&& view.stop !is InFlight ==> command == Some(
                BackgroundCommandView::TerminateProcess(id),
            ) && then == (BackgroundProcessesModel {
                stop: StopStateView::InFlight { process_id: id },
                ..view
            })
        }),
{
}

/// The answer to a stop counts only for the process that is being stopped. A process that is gone closes
/// the view with success; one that still runs, or an error, is told and can be tried again.
pub proof fn law_stop_is_answered(
    view: BackgroundProcessesModel,
    process_id: Seq<char>,
    result: Result<bool, Seq<char>>,
)
    ensures
        ({
            let (then, changed) = view.stopped(process_id, result);
            let awaited = view.stop == (StopStateView::InFlight { process_id });
            &&& changed <==> awaited
            &&& !awaited ==> then == view
            &&& awaited && result == Ok::<bool, Seq<char>>(true) ==> then.completion == Some(
                ViewCompletion::Accepted,
            ) && then.stop == view.stop
            &&& awaited && result == Ok::<bool, Seq<char>>(false) ==> then.completion
                == view.completion && then.stop == (StopStateView::Failed {
                message: "Process still running · press x to retry"@,
            })
            &&& awaited ==> (result matches Err(error) ==> then.completion == view.completion
                && then.stop == (StopStateView::Failed {
                message: "Stop failed: "@ + error + ". Press x to retry."@,
            }))
            &&& then.same_list(view) && then.detail_idx == view.detail_idx && then.scroll
                == view.scroll && then.poll == view.poll && then.output == view.output
        }),
{
}

/// In the list, Esc and the cancel key close the view; the keys for up and down move the selection by
/// one round the list and keep it shown; the accept key opens the details of the selection; any other
/// key does nothing.
pub proof fn law_keys_in_the_list(
    view: BackgroundProcessesModel,
    key: KeyPress,
    now: u64,
    generation: u128,
)
    requires
        !key.released,
        !(key.code == KeyCode::Char('x') && key.unmodified),
        view.detail_idx is None,
    ensures
        ({
            let (then, command) = view.pressed(key, now, generation);
            let len = view.items.len();
            let closes = key.code == KeyCode::Esc || key.cancels;
            &&& closes ==> command is None && then == (BackgroundProcessesModel {
                completion: Some(ViewCompletion::Cancelled),
                ..view
            })
            &&& !closes && key.moves_up ==> command is None && then == (BackgroundProcessesModel {
                scroll: then.scroll,
                ..view
            }) && then.scroll.selected_idx == view.scroll.moved_up(len).selected_idx
            &&& !closes && !key.moves_up && key.moves_down ==> command is None && then == (
            BackgroundProcessesModel { scroll: then.scroll, ..view }) && then.scroll.selected_idx
                == view.scroll.moved_down(len).selected_idx
            &&& !closes && !key.moves_up && !key.moves_down && key.accepts ==> then.same_list(view)
                && then.scroll == view.scroll && then.stop == view.stop && then.completion
                == view.completion && then.detail_idx == (match view.scroll.selected_idx {
                Some(i) if i < len => Some(i),
                _ => None,
            })
            &&& !closes && !key.moves_up && !key.moves_down && !key.accepts ==> then == view
                && command is None
        }),
{
}

/// With details shown, the left key goes back to the list, or closes the view where there is but one
/// entry; Esc, Enter, the blank and the cancel key close it; any other key does nothing.
pub proof fn law_keys_in_the_details(
    view: BackgroundProcessesModel,
    key: KeyPress,
    now: u64,
    generation: u128,
)
    requires
        !key.released,
        !(key.code == KeyCode::Char('x') && key.unmodified),
        view.detail_idx is Some,
    ensures
        ({
            let (then, command) = view.pressed(key, now, generation);
            let left = key.code == KeyCode::Left || key.moves_left;
            let closes = key.code == KeyCode::Esc || key.code == KeyCode::Enter || key.code
                == KeyCode::Char(' ') || key.cancels;
            &&& left && view.items.len() != 1 ==> then.detail_idx is None && then.completion
                == view.completion && then.same_list(view) && then.scroll == view.scroll
                && then.target is None && command is None
            &&& (left && view.items.len() == 1) || (!left && closes) ==> command is None && then == (
            BackgroundProcessesModel { completion: Some(ViewCompletion::Cancelled), ..view })
            &&& !left && !closes ==> then == view && command is None
        }),
{
}

/// Output is asked for exactly if a monitor is in view, nothing is on its way, the last answer was not a
/// failure, and a second has gone by since it was last asked for. The request is for that monitor and
/// bears the new number; one that stays unanswered for too long is given up.
pub proof fn law_output_is_asked_for_in_time(
    view: BackgroundProcessesModel,
    now: u64,
    generation: u128,
)
    ensures
        ({
            let (then, changed, request) = view.asked(now, generation);
            let due = view.poll is Idle && view.target is Some && (view.last_started_at is None
                || now - view.last_started_at->0 >= 1_000_000_000);
            let late = view.poll is InFlight && (if now >= view.poll->started_at {
                now - view.poll->started_at
            } else {
                0
            }) >= view.request_timeout;
            &&& request is Some <==> due
            &&& request matches Some(r) ==> {
                &&& r.thread_id == view.target->0.thread_id
                &&& r.process_id == view.target->0.process_id
                &&& r.task_id == view.target->0.task_id
                &&& r.generation == generation
                &&& then == (BackgroundProcessesModel {
                    poll: MonitorPollLifecycleView::InFlight { request: r, started_at: now },
                    generation: Some(generation),
                    last_started_at: Some(now),
                    ..view
                })
                &&& changed
            }
            &&& late ==> then.poll is Suspended && then.output is Suspended && then.output.content()
                == view.output.content() && (changed <==> view.output !is Suspended)
            &&& !due && !late ==> then == view && !changed
        }),
{
}

/// What is in view decides what is asked for: a monitor of a known thread whose details are shown, and
/// nothing else. A new target starts anew, the same one goes on.
pub proof fn law_target_is_the_monitor_in_view(view: BackgroundProcessesModel)
    ensures
        ({
            let then = view.retargeted();
            &&& then.target == view.selected_target()
            &&& view.selected_target() is Some <==> view.thread_id is Some
                && view.detail_idx is Some && view.detail_idx->0 < view.items.len()
                && view.items[view.detail_idx->0 as int].monitor is Some
            &&& view.selected_target() matches Some(target) ==> {
                let item = view.items[view.detail_idx->0 as int];
                &&& target.thread_id == view.thread_id->0
                &&& target.process_id == item.process_id
                &&& target.task_id == item.monitor->0.task_id
            }
            &&& view.selected_target() == view.target ==> then == view
            &&& view.selected_target() != view.target ==> then.output
                == DetailOutputStateView::Loading && then.poll == MonitorPollLifecycleView::Idle
                && then.generation is None && then.last_started_at is None
            &&& then.same_list(view) && then.detail_idx == view.detail_idx && then.scroll
                == view.scroll && then.stop == view.stop && then.completion == view.completion
        }),
{
}

/// An answer counts only if it is the one that is awaited. It is shown if the monitor it was asked for is
/// still in view under the same number; a failure keeps what was shown and stops the asking.
pub proof fn law_answer_is_shown_while_in_view(
    view: BackgroundProcessesModel,
    request: BackgroundMonitorOutputRequestView,
    result: Result<Option<ThreadBackgroundTerminalOutputView>, ()>,
    now: u64,
    generation: u128,
)
    requires
        view.poll matches MonitorPollLifecycleView::InFlight { request: sent, .. } && sent == request,
    ensures
        ({
            let (then, changed, more) = view.answered(request, result, now, generation);
            let current = view.target is Some && view.target->0.thread_id == request.thread_id
                && view.target->0.process_id == request.process_id && view.target->0.task_id
                == request.task_id && view.generation == Some(request.generation);
            &&& result matches Ok(output) ==> {
                &&& then.output == if current {
                    of_snapshot(output)
                } else {
                    view.output
                }
                &&& then.poll !is Suspended
                &&& changed <==> more is Some || then.output != view.output
            }
            &&& result is Err ==> {
                &&& then.poll is Suspended && more is None
                &&& then.output.content() == view.output.content()
                &&& current ==> then.output is Suspended
                &&& !current ==> then.output == view.output
                &&& changed <==> current && view.output !is Suspended
            }
            &&& then.same_list(view) && then.target == view.target && then.detail_idx
                == view.detail_idx && then.scroll == view.scroll && then.stop == view.stop
                && then.completion == view.completion
        }),
{
}

/// A new list is taken over as it is, with its commands cut. Without entries the view closes. With no
/// details shown, the selection stays on its process while that is listed and goes to the first entry
/// when it is not, and a single entry is shown in detail.
pub proof fn law_selection_follows_its_process(
    view: BackgroundProcessesModel,
    items: Seq<BackgroundProcessItemView>,
    now: u64,
    generation: u128,
)
    requires
        view.detail_idx is None,
        items.len() <= usize::MAX,
    ensures
        ({
            let then = view.updated(items, now, generation).0;
            &&& then.items == normalized(items)
            &&& then.thread_id == view.thread_id && then.stop == view.stop && then.max_rows
                == view.max_rows
            &&& items.len() == 0 ==> then.completion == Some(ViewCompletion::Cancelled)
            &&& items.len() > 0 ==> then.completion == view.completion
            &&& items.len() == 1 ==> then.detail_idx == Some(0usize) && then.scroll.selected_idx
                == Some(0usize)
            &&& items.len() > 1 ==> then.detail_idx is None && then.scroll.selected_idx is Some
                && then.scroll.selected_idx->0 < items.len()
            &&& items.len() > 1 && view.selected() is Some ==> {
                let id = view.items[view.selected()->0 as int].process_id;
                let at = then.scroll.selected_idx->0 as int;
                if exists|i: int| 0 <= i < items.len() && (#[trigger] items[i]).process_id == id {
                    items[at].process_id == id && forall|j: int|
                        0 <= j < at ==> (#[trigger] items[j]).process_id != id
                } else {
                    at == 0
                }
            }
            &&& items.len() > 1 && view.selected() is None ==> then.scroll.selected_idx == Some(
                0usize,
            )
        }),
{
    let fresh = normalized(items);
    if view.selected() is Some {
        let id = view.items[view.selected()->0 as int].process_id;
        lemma_find_from(fresh, has_id(id), 0);
        if let Some(k) = find_from(fresh, has_id(id), 0) {
            assert((has_id(id))(fresh[k]));
            assert(items[k].process_id == id);
            assert forall|j: int| 0 <= j < k implies (#[trigger] items[j]).process_id != id by {
                assert(!(has_id(id))(fresh[j]));
            }
        } else {
            assert forall|i: int| 0 <= i < items.len() implies (#[trigger] items[i]).process_id
                != id by {
                assert(!(has_id(id))(fresh[i]));
            }
        }
    }
}

/// The details show the output that a monitor was asked for, and of a terminal its own last lines.
pub proof fn law_details_show_their_own_output(view: BackgroundProcessesModel, idx: usize)
    requires
        view.detail_idx == Some(idx),
        idx < view.items.len(),
    ensures
        view.items[idx as int].monitor is Some ==> view.detail_output() == view.output,
        view.items[idx as int].monitor is None ==> view.detail_output() == of_chunks(
            view.items[idx as int].recent_output,
        ),
{
}

/// A row of the list: the selected one is marked, a monitor goes by its description and a terminal by
/// its command, and the one that is being stopped says so.
pub proof fn law_rows_show_the_list(view: BackgroundProcessesModel, width: nat, height: nat, k: int)
    requires
        0 <= k < view.rows(width, height).len(),
        view.items.len() <= usize::MAX,
    ensures
        ({
            let at = view.scroll.scroll_top + k;
            let row = view.rows(width, height)[k];
            let item = view.items[at];
            &&& at < view.items.len()
            &&& row.selected <==> view.scroll.selected_idx == Some(at as usize)
            &&& row.prefix == if row.selected {
                "› "@
            } else {
                "  "@
            }
            &&& row.label == match item.monitor {
                Some(monitor) => monitor.description,
                None => item.command_display,
            }
            &&& row.suffix == if view.stop == (StopStateView::InFlight {
                process_id: item.process_id,
            }) {
                " (stopping…)"@
            } else {
                " (running)"@
            }
            &&& view.rows(width, height).len() <= height
            &&& view.rows(width, height).len() < height ==> view.scroll.scroll_top + view.rows(
                width,
                height,
            ).len() == view.items.len()
        }),
{
}

/// The words for how many terminals and monitors there are.
pub proof fn law_counts_are_told(shells: nat, monitors: nat)
    ensures
        shells == 0 && monitors == 0 ==> counts_text(shells, monitors) == "No active processes"@,
        shells > 0 && monitors == 0 ==> counts_text(shells, monitors) == counted(
            shells,
            " active shell"@,
        ),
        shells == 0 && monitors > 0 ==> counts_text(shells, monitors) == counted(
            monitors,
            " active monitor"@,
        ),
        shells > 0 && monitors > 0 ==> counts_text(shells, monitors) == counted(shells, " shell"@)
            + ", "@ + counted(monitors, " monitor"@) + " active"@,
{
}

/// As many rows are wanted as there are entries, one where there is none, but no more than the view may
/// have.
pub proof fn law_rows_wanted_are_few(view: BackgroundProcessesModel)
    ensures
        view.visible_rows() <= view.max_rows,
        view.visible_rows() <= view.items.len() || (view.items.len() == 0 && view.visible_rows()
            <= 1),
        view.visible_rows() == view.max_rows || view.visible_rows() == view.items.len() || (
        view.items.len() == 0 && view.visible_rows() == 1),
{
}

} // verus!
