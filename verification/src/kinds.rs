//! The enumerations of the runtime.
use vstd::prelude::*;
use crate::text::str_eq;

verus! {

/// Where a problem stands.
#[derive(Clone, Copy, Debug, PartialEq, Eq, Structural)]
pub enum ProblemStatus {
    Todo,
    Doing,
    Checking,
    Followup,
    Done,
}

/// Where a ticket stands.
#[derive(Clone, Copy, Debug, PartialEq, Eq, Structural)]
pub enum TicketStatus {
    Created,
    Defined,
    Classified,
    Executing,
    Splitting,
    Done,
}

/// How a ticket is to be worked.
#[derive(Clone, Copy, Debug, PartialEq, Eq, Structural)]
pub enum TicketClassification {
    OneGo,
    Split,
}

/// How a problem came out of a ticket.
#[derive(Clone, Copy, Debug, PartialEq, Eq, Structural)]
pub enum TicketChildMode {
    Split,
    Spawn,
}

/// The verdict of a check.
#[derive(Clone, Copy, Debug, PartialEq, Eq, Structural)]
pub enum CheckStatus {
    Success,
    NotSuccess,
}

/// What a thread can be told to do next.
#[derive(Clone, Copy, Debug, PartialEq, Eq, Structural)]
pub enum NextAction {
    CreateSolutionTicket,
    DefineTicket,
    ClassifyTicket,
    ExecuteTicket,
    SplitTicket,
    SpawnThread,
    WaitThread,
    WaitIo,
    HandleInbox,
    JoinThread,
    RecoverThread,
    RecordResult,
    CheckSuccess,
    NoAction,
}

/// Whether a step can be run now.
#[derive(Clone, Copy, Debug, PartialEq, Eq, Structural)]
pub enum NextDisposition {
    Runnable,
    IoWait,
    Terminal,
}

/// Where a thread stands.
#[derive(Clone, Copy, Debug, PartialEq, Eq, Structural)]
pub enum ThreadStatus {
    Running,
    WaitingChildren,
    WaitingIo,
    Done,
    Failed,
    Cancelled,
    Recovered,
}

/// What a handle waits for.
#[derive(Clone, Copy, Debug, PartialEq, Eq, Structural)]
pub enum IoHandleKind {
    ChildThread,
    UserInput,
    Timer,
    ExternalSignal,
}

/// Where a handle stands.
#[derive(Clone, Copy, Debug, PartialEq, Eq, Structural)]
pub enum IoHandleStatus {
    Pending,
    Ready,
    Consumed,
    Failed,
    Cancelled,
}

/// Whether a wait needs all of its handles or any one.
#[derive(Clone, Copy, Debug, PartialEq, Eq, Structural)]
pub enum WaitMode {
    All,
    Any,
}

/// Where a wait stands.
#[derive(Clone, Copy, Debug, PartialEq, Eq, Structural)]
pub enum WaitStatus {
    Waiting,
    Ready,
    Consumed,
}

/// What an entry of the I/O log records.
#[derive(Clone, Copy, Debug, PartialEq, Eq, Structural)]
pub enum IoEventKind {
    ChildThreadSpawned,
    ChildThreadDone,
    ChildThreadJoined,
    ActorCompletedWithoutThreadDone,
    ChildThreadFailed,
    ChildThreadSpawnFailed,
    ChildThreadRecovered,
    HandleReady,
    PassiveEventReceived,
    PassiveWaitCreated,
    PassiveEventMatched,
    PassiveEventInboxed,
    PassiveEventHandled,
    PassiveHandleReady,
    PassiveHandleConsumed,
    PassiveHandleCancelled,
}

/// The source of a passive event.
#[derive(Clone, Copy, Debug, PartialEq, Eq, Structural)]
pub enum PassiveEventKind {
    UserInput,
    Timer,
    ExternalSignal,
}

/// What a wait asks for.
#[derive(Clone, Copy, Debug, PartialEq, Eq, Structural)]
pub enum WaitSpecKind {
    UserInput,
    Timer,
    ExternalSignal,
    EventKey,
}

/// What became of a passive event.
#[derive(Clone, Copy, Debug, PartialEq, Eq, Structural)]
pub enum PassiveEventStatus {
    Inboxed,
    Matched,
    Handled,
    Duplicate,
}

/// How much context a spawned thread takes over.
#[derive(Clone, Copy, Debug, PartialEq, Eq, Structural)]
pub enum ContextForkPolicy {
    FullContext,
    SummaryContext,
    FreshContext,
}

/// The kind of entity whose status is set.
#[derive(Clone, Copy, Debug, PartialEq, Eq, Structural)]
pub enum EntityKind {
    Problem,
    Ticket,
}

impl TicketStatus {
    /// The name of the variant.
    pub open spec fn name_view(self) -> Seq<char> {
        match self {
            TicketStatus::Created => "Created"@,
            TicketStatus::Defined => "Defined"@,
            TicketStatus::Classified => "Classified"@,
            TicketStatus::Executing => "Executing"@,
            TicketStatus::Splitting => "Splitting"@,
            TicketStatus::Done => "Done"@,
        }
    }

    /// The name of the variant.
    pub fn name(self) -> (r: &'static str)
        ensures
            r@ == self.name_view(),
    {
        match self {
            TicketStatus::Created => "Created",
            TicketStatus::Defined => "Defined",
            TicketStatus::Classified => "Classified",
            TicketStatus::Executing => "Executing",
            TicketStatus::Splitting => "Splitting",
            TicketStatus::Done => "Done",
        }
    }
}

impl TicketClassification {
    /// The name of the variant.
    pub open spec fn name_view(self) -> Seq<char> {
        match self {
            TicketClassification::OneGo => "OneGo"@,
            TicketClassification::Split => "Split"@,
        }
    }

    /// The name of the variant.
    pub fn name(self) -> (r: &'static str)
        ensures
            r@ == self.name_view(),
    {
        match self {
            TicketClassification::OneGo => "OneGo",
            TicketClassification::Split => "Split",
        }
    }
}

impl TicketChildMode {
    /// The name of the variant.
    pub open spec fn name_view(self) -> Seq<char> {
        match self {
            TicketChildMode::Split => "Split"@,
            TicketChildMode::Spawn => "Spawn"@,
        }
    }

    /// The name of the variant.
    pub fn name(self) -> (r: &'static str)
        ensures
            r@ == self.name_view(),
    {
        match self {
            TicketChildMode::Split => "Split",
            TicketChildMode::Spawn => "Spawn",
        }
    }
}

impl CheckStatus {
    /// The name of the variant.
    pub open spec fn name_view(self) -> Seq<char> {
        match self {
            CheckStatus::Success => "Success"@,
            CheckStatus::NotSuccess => "NotSuccess"@,
        }
    }

    /// The name of the variant.
    pub fn name(self) -> (r: &'static str)
        ensures
            r@ == self.name_view(),
    {
        match self {
            CheckStatus::Success => "Success",
            CheckStatus::NotSuccess => "NotSuccess",
        }
    }
}

impl NextAction {
    /// The name of the variant.
    pub open spec fn name_view(self) -> Seq<char> {
        match self {
            NextAction::CreateSolutionTicket => "CreateSolutionTicket"@,
            NextAction::DefineTicket => "DefineTicket"@,
            NextAction::ClassifyTicket => "ClassifyTicket"@,
            NextAction::ExecuteTicket => "ExecuteTicket"@,
            NextAction::SplitTicket => "SplitTicket"@,
            NextAction::SpawnThread => "SpawnThread"@,
            NextAction::WaitThread => "WaitThread"@,
            NextAction::WaitIo => "WaitIo"@,
            NextAction::HandleInbox => "HandleInbox"@,
            NextAction::JoinThread => "JoinThread"@,
            NextAction::RecoverThread => "RecoverThread"@,
            NextAction::RecordResult => "RecordResult"@,
            NextAction::CheckSuccess => "CheckSuccess"@,
            NextAction::NoAction => "None"@,
        }
    }

    /// The name of the variant.
    pub fn name(self) -> (r: &'static str)
        ensures
            r@ == self.name_view(),
    {
        match self {
            NextAction::CreateSolutionTicket => "CreateSolutionTicket",
            NextAction::DefineTicket => "DefineTicket",
            NextAction::ClassifyTicket => "ClassifyTicket",
            NextAction::ExecuteTicket => "ExecuteTicket",
            NextAction::SplitTicket => "SplitTicket",
            NextAction::SpawnThread => "SpawnThread",
            NextAction::WaitThread => "WaitThread",
            NextAction::WaitIo => "WaitIo",
            NextAction::HandleInbox => "HandleInbox",
            NextAction::JoinThread => "JoinThread",
            NextAction::RecoverThread => "RecoverThread",
            NextAction::RecordResult => "RecordResult",
            NextAction::CheckSuccess => "CheckSuccess",
            NextAction::NoAction => "None",
        }
    }
}

impl ThreadStatus {
    /// The name of the variant.
    pub open spec fn name_view(self) -> Seq<char> {
        match self {
            ThreadStatus::Running => "Running"@,
            ThreadStatus::WaitingChildren => "WaitingChildren"@,
            ThreadStatus::WaitingIo => "WaitingIo"@,
            ThreadStatus::Done => "Done"@,
            ThreadStatus::Failed => "Failed"@,
            ThreadStatus::Cancelled => "Cancelled"@,
            ThreadStatus::Recovered => "Recovered"@,
        }
    }

    /// The name of the variant.
    pub fn name(self) -> (r: &'static str)
        ensures
            r@ == self.name_view(),
    {
        match self {
            ThreadStatus::Running => "Running",
            ThreadStatus::WaitingChildren => "WaitingChildren",
            ThreadStatus::WaitingIo => "WaitingIo",
            ThreadStatus::Done => "Done",
            ThreadStatus::Failed => "Failed",
            ThreadStatus::Cancelled => "Cancelled",
            ThreadStatus::Recovered => "Recovered",
        }
    }
}

impl IoHandleKind {
    /// The name of the variant.
    pub open spec fn name_view(self) -> Seq<char> {
        match self {
            IoHandleKind::ChildThread => "ChildThread"@,
            IoHandleKind::UserInput => "UserInput"@,
            IoHandleKind::Timer => "Timer"@,
            IoHandleKind::ExternalSignal => "ExternalSignal"@,
        }
    }

    /// The name of the variant.
    pub fn name(self) -> (r: &'static str)
        ensures
            r@ == self.name_view(),
    {
        match self {
            IoHandleKind::ChildThread => "ChildThread",
            IoHandleKind::UserInput => "UserInput",
            IoHandleKind::Timer => "Timer",
            IoHandleKind::ExternalSignal => "ExternalSignal",
        }
    }
}

impl IoHandleStatus {
    /// The name of the variant.
    pub open spec fn name_view(self) -> Seq<char> {
        match self {
            IoHandleStatus::Pending => "Pending"@,
            IoHandleStatus::Ready => "Ready"@,
            IoHandleStatus::Consumed => "Consumed"@,
            IoHandleStatus::Failed => "Failed"@,
            IoHandleStatus::Cancelled => "Cancelled"@,
        }
    }

    /// The name of the variant.
    pub fn name(self) -> (r: &'static str)
        ensures
            r@ == self.name_view(),
    {
        match self {
            IoHandleStatus::Pending => "Pending",
            IoHandleStatus::Ready => "Ready",
            IoHandleStatus::Consumed => "Consumed",
            IoHandleStatus::Failed => "Failed",
            IoHandleStatus::Cancelled => "Cancelled",
        }
    }
}

impl PassiveEventKind {
    /// The name of the variant.
    pub open spec fn name_view(self) -> Seq<char> {
        match self {
            PassiveEventKind::UserInput => "UserInput"@,
            PassiveEventKind::Timer => "Timer"@,
            PassiveEventKind::ExternalSignal => "ExternalSignal"@,
        }
    }

    /// The name of the variant.
    pub fn name(self) -> (r: &'static str)
        ensures
            r@ == self.name_view(),
    {
        match self {
            PassiveEventKind::UserInput => "UserInput",
            PassiveEventKind::Timer => "Timer",
            PassiveEventKind::ExternalSignal => "ExternalSignal",
        }
    }
}

impl PassiveEventStatus {
    /// The name of the variant.
    pub open spec fn name_view(self) -> Seq<char> {
        match self {
            PassiveEventStatus::Inboxed => "Inboxed"@,
            PassiveEventStatus::Matched => "Matched"@,
            PassiveEventStatus::Handled => "Handled"@,
            PassiveEventStatus::Duplicate => "Duplicate"@,
        }
    }

    /// The name of the variant.
    pub fn name(self) -> (r: &'static str)
        ensures
            r@ == self.name_view(),
    {
        match self {
            PassiveEventStatus::Inboxed => "Inboxed",
            PassiveEventStatus::Matched => "Matched",
            PassiveEventStatus::Handled => "Handled",
            PassiveEventStatus::Duplicate => "Duplicate",
        }
    }
}

impl NextDisposition {
    /// How a step with the given action is to be taken.
    #[verifier::allow_in_spec]
    pub fn for_action(action: NextAction) -> Self
        returns
            (match action {
                NextAction::WaitThread | NextAction::WaitIo => NextDisposition::IoWait,
                NextAction::NoAction => NextDisposition::Terminal,
                _ => NextDisposition::Runnable,
            }),
    {
        match action {
            NextAction::WaitThread | NextAction::WaitIo => NextDisposition::IoWait,
            NextAction::NoAction => NextDisposition::Terminal,
            NextAction::CreateSolutionTicket
            | NextAction::DefineTicket
            | NextAction::ClassifyTicket
            | NextAction::ExecuteTicket
            | NextAction::SplitTicket
            | NextAction::SpawnThread
            | NextAction::HandleInbox
            | NextAction::JoinThread
            | NextAction::RecoverThread
            | NextAction::RecordResult
            | NextAction::CheckSuccess => NextDisposition::Runnable,
        }
    }
}

impl PassiveEventKind {
    /// The kind of handle that waits for such an event.
    #[verifier::allow_in_spec]
    pub fn handle_kind(self) -> IoHandleKind
        returns
            (match self {
                PassiveEventKind::UserInput => IoHandleKind::UserInput,
                PassiveEventKind::Timer => IoHandleKind::Timer,
                PassiveEventKind::ExternalSignal => IoHandleKind::ExternalSignal,
            }),
    {
        match self {
            PassiveEventKind::UserInput => IoHandleKind::UserInput,
            PassiveEventKind::Timer => IoHandleKind::Timer,
            PassiveEventKind::ExternalSignal => IoHandleKind::ExternalSignal,
        }
    }

    /// The word that stands for the kind in an event key.
    pub open spec fn key_word(self) -> Seq<char> {
        match self {
            PassiveEventKind::UserInput => "user.input"@,
            PassiveEventKind::Timer => "timer"@,
            PassiveEventKind::ExternalSignal => "external.signal"@,
        }
    }

    /// The kind that a word in an event key stands for.
    pub open spec fn of_key_word(kind: Seq<char>) -> Option<PassiveEventKind> {
        if kind == "user.input"@ {
            Some(PassiveEventKind::UserInput)
        } else if kind == "timer"@ {
            Some(PassiveEventKind::Timer)
        } else if kind == "external.signal"@ {
            Some(PassiveEventKind::ExternalSignal)
        } else {
            None
        }
    }

    pub fn event_key_kind(self) -> (r: &'static str)
        ensures
            r@ == self.key_word(),
    {
        match self {
            PassiveEventKind::UserInput => "user.input",
            PassiveEventKind::Timer => "timer",
            PassiveEventKind::ExternalSignal => "external.signal",
        }
    }

    pub fn from_event_key_kind(kind: &str) -> (r: Option<Self>)
        ensures
            r == PassiveEventKind::of_key_word(kind@),
    {
        if str_eq(kind, "user.input") {
            Some(PassiveEventKind::UserInput)
        } else if str_eq(kind, "timer") {
            Some(PassiveEventKind::Timer)
        } else if str_eq(kind, "external.signal") {
            Some(PassiveEventKind::ExternalSignal)
        } else {
            None
        }
    }

    /// Each kind is read back from its own word.
    pub proof fn law_key_word_is_read_back(self)
        ensures
            PassiveEventKind::of_key_word(self.key_word()) == Some(self),
    {
        reveal_strlit("user.input");
        reveal_strlit("timer");
        reveal_strlit("external.signal");
        assert("user.input"@.len() == 10);
        assert("timer"@.len() == 5);
        assert("external.signal"@.len() == 15);
    }
}

impl WaitSpecKind {
    /// The passive event that the wait is for, unless an event key says it.
    #[verifier::allow_in_spec]
    pub fn passive_kind(self) -> Option<PassiveEventKind>
        returns
            (match self {
                WaitSpecKind::UserInput => Some(PassiveEventKind::UserInput),
                WaitSpecKind::Timer => Some(PassiveEventKind::Timer),
                WaitSpecKind::ExternalSignal => Some(PassiveEventKind::ExternalSignal),
                WaitSpecKind::EventKey => None,
            }),
    {
        match self {
            WaitSpecKind::UserInput => Some(PassiveEventKind::UserInput),
            WaitSpecKind::Timer => Some(PassiveEventKind::Timer),
            WaitSpecKind::ExternalSignal => Some(PassiveEventKind::ExternalSignal),
            WaitSpecKind::EventKey => None,
        }
    }
}

impl ThreadStatus {
    /// A thread that has come to an end, one way or another.
    #[verifier::allow_in_spec]
    pub fn is_terminal(self) -> bool
        returns
            (self == ThreadStatus::Done || self == ThreadStatus::Failed || self
                == ThreadStatus::Cancelled || self == ThreadStatus::Recovered),
    {
        match self {
            ThreadStatus::Done
            | ThreadStatus::Failed
            | ThreadStatus::Cancelled
            | ThreadStatus::Recovered => true,
            _ => false,
        }
    }
}

impl IoHandleStatus {
    /// A handle that no longer holds up a wait.
    #[verifier::allow_in_spec]
    pub fn is_settled(self) -> bool
        returns
            (self != IoHandleStatus::Pending),
    {
        match self {
            IoHandleStatus::Pending => false,
            _ => true,
        }
    }
}

} // verus!
