//! Closure state of agent processes: problems, tickets, results and checks; the threads that work
//! on them and the events that wake these; and what of it is shown in a terminal.
pub mod addressing;
pub mod advance;
pub mod announcing;
pub mod background;
pub mod beginnings;
pub mod browsing;
pub mod clock;
pub mod closing;
pub mod cockpit;
pub mod consistency;
pub mod context;
pub mod dashboard;
pub mod dealings;
pub mod dispatch;
pub mod document;
pub mod effects;
pub mod endings;
pub mod entering;
pub mod entities;
pub mod error;
pub mod exactness;
pub mod exec_state;
pub mod faultless;
pub mod followups;
pub mod footer;
pub mod forest;
pub mod frontier;
pub mod graph;
pub mod guidance;
pub mod handover;
pub mod history;
pub mod ids;
pub mod inbox;
pub mod json;
pub mod keeping;
pub mod kinds;
pub mod laws;
pub mod lines;
pub mod lookup;
pub mod matching;
pub mod measures;
pub mod monitor;
pub mod monitor_output;
pub mod order;
pub mod outcomes;
pub mod outline;
pub mod overview;
pub mod pages;
pub mod panels;
pub mod planning;
pub mod progress;
pub mod pty;
pub mod reports;
pub mod routing;
pub mod runtime;
pub mod screening;
pub mod scroll;
pub mod search;
pub mod separators;
pub mod sorting;
pub mod soundness;
pub mod spawning;
pub mod state;
pub mod steering;
pub mod stirring;
pub mod strmap;
pub mod styled;
pub mod tallies;
pub mod telling;
pub mod text;
pub mod threads;
pub mod tickets;
pub mod upkeep;
pub mod validation;
pub mod validity;
pub mod waits;
pub mod wake;
pub mod waking;
pub mod widths;
pub mod wiring;

pub use clock::Timestamp;
pub use context::{process_id_for_session_id, RuntimeContext, DEFAULT_PROCESS_ID, DEFAULT_THREAD_ID};
pub use document::{require_section, title_from_body};
pub use entities::{
    Check, ClosureState, ContextFork, Event, EventKey, ExecutionResult, InboxItem, IoEvent, IoHandle,
    PassiveEvent, Problem, ProcessMetadata, ScaffoldedTask, Thread, ThreadActorRoute, ThreadWait,
    Ticket, UserTaskProblem,
};
pub use error::{QunuxError, Result};
pub use kinds::{
    CheckStatus, ContextForkPolicy, EntityKind, IoEventKind, IoHandleKind, IoHandleStatus,
    NextAction, NextDisposition, PassiveEventKind, PassiveEventStatus, ProblemStatus, ThreadStatus,
    TicketChildMode, TicketClassification, TicketStatus, WaitMode, WaitSpecKind, WaitStatus,
};
pub use matching::{EventRoutingAgent, WaitWakeKernel};
pub use reports::{
    CancelledWait, ConsumedWait, CurrentState, JoinedThread, NextStep, ParkedWait, PassiveEventInput,
    PassiveEventReceipt, PassiveWait, RecoveredThread, RoutedPassiveEvent, RunnableThread,
    RuntimeStatus, SpawnedThread, WaitCommand, WaitHandleSnapshot, WaitResult, WaitSpec,
    WakeDecision,
};
pub use runtime::QunuxRuntime;
pub use state::{DEFAULT_ROOT_PROBLEM_BODY, DEFAULT_ROOT_PROBLEM_TITLE, SCHEMA_VERSION};
pub use strmap::StrMap;
pub use tickets::LEGACY_DEFAULT_ROOT_PROBLEM_TITLE;
