//! Event keys, and which event meets which handle.
use vstd::prelude::*;
use crate::entities::{ClosureState, ClosureStateView, EventKey, EventKeyView, IoHandle, IoHandleView, PassiveEvent, PassiveEventView};
use crate::error::{outcome, Outcome, QunuxError, QunuxErrorView, Result};
use crate::kinds::{IoHandleStatus, PassiveEventKind};
use crate::reports::{PassiveEventInput, PassiveEventInputView, RoutedPassiveEvent, RoutedPassiveEventView};
use crate::search::select;
use crate::strmap::values;
use crate::text::{cat4, debug_option_text, group_views, opt_eq, opt_is, opt_view, option_text_debug, views};

verus! {

broadcast use group_views;

impl EventKeyView {
    /// The key of a passive event of the given kind.
    pub open spec fn passive(
        kind: PassiveEventKind,
        resource: Option<Seq<char>>,
        source: Option<Seq<char>>,
        target_thread_id: Option<Seq<char>>,
    ) -> EventKeyView {
        EventKeyView { kind: kind.key_word(), resource, source, target_thread_id }
    }

    /// The kind of event that the key stands for; a word of its own stands for an external
    /// signal.
    pub open spec fn passive_kind(self) -> PassiveEventKind {
        match PassiveEventKind::of_key_word(self.kind) {
            Some(kind) => kind,
            None => PassiveEventKind::ExternalSignal,
        }
    }
}

impl EventKey {
    pub fn new(
        kind: &str,
        resource: Option<String>,
        source: Option<String>,
        target_thread_id: Option<String>,
    ) -> (r: Self)
        ensures
            r@ == (EventKeyView {
                kind: kind@,
                resource: opt_view(resource),
                source: opt_view(source),
                target_thread_id: opt_view(target_thread_id),
            }),
    {
        EventKey { kind: kind.to_owned(), resource, source, target_thread_id }
    }

    /// The key of a passive event of the given kind.
    pub fn passive(
        kind: PassiveEventKind,
        resource: Option<String>,
        source: Option<String>,
        target_thread_id: Option<String>,
    ) -> (r: Self)
        ensures
            r@ == EventKeyView::passive(
                kind,
                opt_view(resource),
                opt_view(source),
                opt_view(target_thread_id),
            ),
    {
        EventKey::new(kind.event_key_kind(), resource, source, target_thread_id)
    }

    /// The kind of event that the key stands for.
    pub fn passive_kind(&self) -> (r: PassiveEventKind)
        ensures
            r == self@.passive_kind(),
    {
        match PassiveEventKind::from_event_key_kind(self.kind.as_str()) {
            Some(kind) => kind,
            None => PassiveEventKind::ExternalSignal,
        }
    }

    /// Whether two keys are the same.
    pub fn same(&self, other: &EventKey) -> (r: bool)
        ensures
            r == (self@ == other@),
    {
        self.kind == other.kind && opt_eq(&self.resource, &other.resource) && opt_eq(
            &self.source,
            &other.source,
        ) && opt_eq(&self.target_thread_id, &other.target_thread_id)
    }
}

/// Whether two optional keys are the same.
pub fn opt_keys_same(a: &Option<EventKey>, b: &Option<EventKey>) -> (r: bool)
    ensures
        r == (opt_view(*a) == opt_view(*b)),
{
    match (a, b) {
        (Some(x), Some(y)) => x.same(y),
        (None, None) => true,
        _ => false,
    }
}

impl PassiveEventView {
    /// The key that the event is matched by.
    pub open spec fn key(self) -> EventKeyView {
        match self.event_key {
            Some(key) => key,
            None => EventKeyView::passive(
                self.kind,
                self.condition,
                self.source,
                self.target_thread_id,
            ),
        }
    }
}

/// The key that a recorded event is matched by.
pub fn event_key_from_passive_event(event: &PassiveEvent) -> (r: EventKey)
    ensures
        r@ == event@.key(),
{
    match &event.event_key {
        Some(key) => key.clone(),
        None => EventKey::passive(
            event.kind,
            event.condition.clone(),
            event.source.clone(),
            event.target_thread_id.clone(),
        ),
    }
}

impl PassiveEventInputView {
    /// The key that the event is matched by.
    pub open spec fn key(self) -> EventKeyView {
        match self.event_key {
            Some(key) => key,
            None => EventKeyView::passive(
                self.kind,
                self.condition,
                self.source,
                self.target_thread_id,
            ),
        }
    }

    /// The event with its key and its target; refused where the event and its key name different
    /// targets.
    pub open spec fn route(self) -> Outcome<RoutedPassiveEventView> {
        let key = self.key();
        if self.target_thread_id is Some && key.target_thread_id != self.target_thread_id {
            Err(
                QunuxErrorView::InvalidState(
                    "passive event target thread "@ + self.target_thread_id->0
                        + " does not match event key target "@ + option_text_debug(
                        key.target_thread_id,
                    ),
                ),
            )
        } else {
            Ok(
                RoutedPassiveEventView {
                    kind: key.passive_kind(),
                    event_key: key,
                    target_thread_id: key.target_thread_id,
                    input: self,
                },
            )
        }
    }
}

/// Routes events to the key they are matched by.
pub struct EventRoutingAgent;

impl EventRoutingAgent {
    /// The event with its key and its target.
    pub fn route_passive_event(input: PassiveEventInput) -> (r: Result<RoutedPassiveEvent>)
        ensures
            outcome(r) == input@.route(),
    {
        let event_key = match &input.event_key {
            Some(key) => key.clone(),
            None => EventKey::passive(
                input.kind,
                input.condition.clone(),
                input.source.clone(),
                input.target_thread_id.clone(),
            ),
        };
        if let Some(input_target_thread_id) = &input.target_thread_id {
            if !opt_is(&event_key.target_thread_id, input_target_thread_id.as_str()) {
                let shown = debug_option_text(&event_key.target_thread_id);
                return Err(
                    QunuxError::InvalidState(
                        cat4(
                            "passive event target thread ",
                            input_target_thread_id.as_str(),
                            " does not match event key target ",
                            shown.as_str(),
                        ),
                    ),
                );
            }
        }
        Ok(
            RoutedPassiveEvent {
                kind: event_key.passive_kind(),
                target_thread_id: event_key.target_thread_id.clone(),
                event_key,
                input,
            },
        )
    }
}

/// What a handle asks for is there, if it asks for anything.
pub open spec fn agrees(want: Option<Seq<char>>, have: Option<Seq<char>>) -> bool {
    want is None || have == want
}

fn agree(want: &Option<String>, have: &Option<String>) -> (r: bool)
    ensures
        r == agrees(opt_view(*want), opt_view(*have)),
{
    match want {
        Some(x) => opt_is(have, x.as_str()),
        None => true,
    }
}

/// Whether an incoming event is what a handle waits for: by key where the handle has one, else by
/// the thread, the condition and the source that are named.
pub open spec fn input_matches(
    input: PassiveEventInputView,
    key: EventKeyView,
    handle: IoHandleView,
) -> bool {
    match handle.event_key {
        Some(handle_key) => handle_key == key && agrees(handle.dedupe_key, input.dedupe_key),
        None => {
            &&& input.target_thread_id is Some ==> handle.owner_thread_id
                == input.target_thread_id->0
            &&& agrees(handle.condition, input.condition)
            &&& agrees(handle.source, input.source)
            &&& agrees(handle.dedupe_key, input.dedupe_key)
        },
    }
}

/// Whether an incoming event is what a handle waits for.
pub fn passive_input_matches_handle(
    input: &PassiveEventInput,
    event_key: &EventKey,
    handle: &IoHandle,
) -> (r: bool)
    ensures
        r == input_matches(input@, event_key@, handle@),
{
    if let Some(handle_key) = &handle.event_key {
        return handle_key.same(event_key) && agree(&handle.dedupe_key, &input.dedupe_key);
    }
    if let Some(target_thread_id) = &input.target_thread_id {
        if handle.owner_thread_id != *target_thread_id {
            return false;
        }
    }
    agree(&handle.condition, &input.condition) && agree(&handle.source, &input.source) && agree(
        &handle.dedupe_key,
        &input.dedupe_key,
    )
}

/// Whether a recorded event is what a pending handle waits for.
pub open spec fn event_matches(event: PassiveEventView, handle: IoHandleView) -> bool {
    &&& handle.kind == event.kind.handle_kind()
    &&& handle.status == IoHandleStatus::Pending
    &&& if event.event_key is Some && handle.event_key is Some {
        event.event_key == handle.event_key && agrees(handle.dedupe_key, event.dedupe_key)
    } else {
        &&& event.target_thread_id is Some ==> handle.owner_thread_id == event.target_thread_id->0
        &&& agrees(handle.condition, event.condition)
        &&& agrees(handle.source, event.source)
        &&& agrees(handle.dedupe_key, event.dedupe_key)
    }
}

/// Whether a recorded event is what a pending handle waits for.
pub fn passive_event_matches_handle(event: &PassiveEvent, handle: &IoHandle) -> (r: bool)
    ensures
        r == event_matches(event@, handle@),
{
    if handle.kind != event.kind.handle_kind() || handle.status != IoHandleStatus::Pending {
        return false;
    }
    if let (Some(event_key), Some(handle_key)) = (&event.event_key, &handle.event_key) {
        return event_key.same(handle_key) && agree(&handle.dedupe_key, &event.dedupe_key);
    }
    if let Some(target_thread_id) = &event.target_thread_id {
        if handle.owner_thread_id != *target_thread_id {
            return false;
        }
    }
    agree(&handle.condition, &event.condition) && agree(&handle.source, &event.source) && agree(
        &handle.dedupe_key,
        &event.dedupe_key,
    )
}

impl RoutedPassiveEventView {
    /// The handles that the event wakes.
    pub open spec fn wakes(self) -> spec_fn(IoHandleView) -> bool {
        |handle: IoHandleView|
            handle.kind == self.kind.handle_kind() && handle.status == IoHandleStatus::Pending
                && input_matches(self.input, self.event_key, handle)
    }
}

/// The identifiers of handles.
pub open spec fn handle_ids_of(handles: Seq<IoHandleView>) -> Seq<Seq<char>> {
    Seq::new(handles.len(), |i: int| handles[i].id)
}

impl ClosureStateView {
    /// The pending handles that an event is for, in ascending order.
    pub open spec fn matching_passive_handle_ids(
        self,
        routed: RoutedPassiveEventView,
    ) -> Seq<Seq<char>> {
        handle_ids_of(select(values(self.handles), routed.wakes()))
    }
}

/// Decides which handles an event wakes.
pub struct WaitWakeKernel;

impl WaitWakeKernel {
    /// The pending handles that an event is for, in ascending order.
    pub fn matching_passive_handle_ids(
        state: &ClosureState,
        routed: &RoutedPassiveEvent,
    ) -> (r: Vec<String>)
        requires
            state.handles.wf(),
        ensures
            views(r@) == state@.matching_passive_handle_ids(routed@),
    {
        let handle_kind = routed.kind.handle_kind();
        let wakes = |handle: &IoHandle| -> (b: bool)
            ensures
                b == (routed@.wakes())(handle@),
        {
            handle.kind == handle_kind && handle.status == IoHandleStatus::Pending
                && passive_input_matches_handle(&routed.input, &routed.event_key, handle)
        };
        let found = state.handles.filter(wakes, Ghost(routed@.wakes()));
        let mut ids: Vec<String> = Vec::new();
        let mut i: usize = 0;
        while i < found.len()
            invariant
                i <= found@.len(),
                views(ids@) == handle_ids_of(views(found@)).take(i as int),
            decreases found@.len() - i,
        {
            ids.push(found[i].id.clone());
            i = i + 1;
            assert(views(ids@) =~= handle_ids_of(views(found@)).take(i as int));
        }
        assert(handle_ids_of(views(found@)).take(i as int) =~= handle_ids_of(views(found@)));
        ids
    }
}

} // verus!
