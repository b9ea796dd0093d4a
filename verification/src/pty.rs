//! Processes behind a terminal: how they are ended, and what becomes of their output.
use vstd::prelude::*;

verus! {

/// A signal to a process.
#[derive(Clone, Copy, Debug, PartialEq, Eq, Structural)]
pub enum ProcessSignal {
    Interrupt,
}

/// How hard a process is ended.
#[derive(Clone, Copy, Debug, PartialEq, Eq, Structural)]
pub enum ProcessTerminationMode {
    Regular,
    Force,
}

/// The size of a terminal in characters.
#[derive(Clone, Copy, Debug, PartialEq, Eq, Structural)]
pub struct TerminalSize {
    pub rows: u16,
    pub cols: u16,
}

impl Default for TerminalSize {
    fn default() -> (r: Self)
        ensures
            r == (TerminalSize { rows: 24, cols: 80 }),
    {
        TerminalSize { rows: 24, cols: 80 }
    }
}

/// What is said of a signal that cannot be sent.
pub fn unsupported_signal(signal: ProcessSignal) -> (r: &'static str)
    ensures
        r@ == "process interrupt is not supported by this process backend"@,
{
    match signal {
        ProcessSignal::Interrupt => "process interrupt is not supported by this process backend",
    }
}

/// The exit code that stands for how a process ended: its own code, or the signal that ended it
/// above 128, or -1 where neither is known.
pub open spec fn exit_code(code: Option<i32>, signal: Option<i32>) -> int {
    match (code, signal) {
        (Some(code), _) => code as int,
        (None, Some(signal)) => 128 + signal,
        (None, None) => -1,
    }
}

/// The exit code that stands for how a process ended.
pub fn exit_code_from_status(code: Option<i32>, signal: Option<i32>) -> (r: i32)
    requires
        code is None && signal is Some ==> 128 + signal->0 <= i32::MAX,
    ensures
        r == exit_code(code, signal),
{
    match (code, signal) {
        (Some(code), _) => code,
        (None, Some(signal)) => 128 + signal,
        (None, None) => -1,
    }
}

/// The exit code that was received, or -1 where the sender went away.
pub fn received_exit_code(received: Option<i32>) -> (r: i32)
    ensures
        r == (match received {
            Some(code) => code as int,
            None => -1int,
        }),
{
    match received {
        Some(code) => code,
        None => -1,
    }
}

/// What is known of a process: whether its root has exited, whether nothing writes output any
/// more, and whether the means to end it are still held.
#[derive(Clone, Copy, Debug, PartialEq, Eq, Structural)]
pub struct ProcessState {
    pub exited: bool,
    pub output_closed: bool,
    pub has_terminator: bool,
}

/// What is to be done to a process.
#[derive(Clone, Copy, Debug, PartialEq, Eq, Structural)]
pub enum TerminationStep {
    Nothing,
    Kill,
    ForceKill { root_exited: bool },
}

/// Why a process cannot be ended, or its end not be confirmed.
#[derive(Clone, Copy, Debug, PartialEq, Eq, Structural)]
pub enum TerminationError {
    StillRunning,
    Unavailable,
}

impl TerminationError {
    pub open spec fn text(self) -> Seq<char> {
        match self {
            TerminationError::StillRunning => "process root or output readers are still running"@,
            TerminationError::Unavailable => "process terminator is unavailable"@,
        }
    }

    pub fn message(self) -> (r: &'static str)
        ensures
            r@ == self.text(),
    {
        match self {
            TerminationError::StillRunning => "process root or output readers are still running",
            TerminationError::Unavailable => "process terminator is unavailable",
        }
    }
}

impl ProcessState {
    /// Whether the process and all that writes its output are gone.
    pub open spec fn is_over(self) -> bool {
        self.exited && self.output_closed
    }

    /// The process without the means to end it.
    pub open spec fn retired(self) -> Self {
        ProcessState { has_terminator: false, ..self }
    }

    /// The process after the request to end it, and what is to be done. The means to end it are
    /// used up; where it is over they are given up unused, for its number may be another's by
    /// then. Where `descendants_stay`, the exit of the root ends nothing else, and the means are
    /// kept for a later request.
    pub open spec fn requested(self, descendants_stay: bool) -> (Self, TerminationStep) {
        if self.is_over() {
            (self.retired(), TerminationStep::Nothing)
        } else if self.exited && descendants_stay {
            (self, TerminationStep::Nothing)
        } else if self.has_terminator {
            (self.retired(), TerminationStep::Kill)
        } else {
            (self, TerminationStep::Nothing)
        }
    }

    /// What is to be done on the request to end the process by force. The root may be gone while
    /// something it left behind still writes output.
    pub open spec fn forced(self) -> Result<TerminationStep, TerminationError> {
        if self.is_over() {
            Ok(TerminationStep::Nothing)
        } else if self.has_terminator {
            Ok(TerminationStep::ForceKill { root_exited: self.exited })
        } else {
            Err(TerminationError::Unavailable)
        }
    }

    /// The process once its end is confirmed.
    pub open spec fn confirmed(self) -> (Self, Result<(), TerminationError>) {
        if self.is_over() {
            (self.retired(), Ok(()))
        } else {
            (self, Err(TerminationError::StillRunning))
        }
    }

    /// Asks for the process to be ended; says what is to be done.
    pub fn request_terminate(&mut self, descendants_stay: bool) -> (r: TerminationStep)
        ensures
            (*final(self), r) == old(self).requested(descendants_stay),
    {
        if self.exited && self.output_closed {
            self.has_terminator = false;
            return TerminationStep::Nothing;
        }
        if self.exited && descendants_stay {
            return TerminationStep::Nothing;
        }
        if self.has_terminator {
            self.has_terminator = false;
            TerminationStep::Kill
        } else {
            TerminationStep::Nothing
        }
    }

    /// Asks for the process to be ended by force; says what is to be done.
    pub fn try_request_terminate(&self) -> (r: Result<TerminationStep, TerminationError>)
        ensures
            r == self.forced(),
    {
        if self.exited && self.output_closed {
            return Ok(TerminationStep::Nothing);
        }
        if self.has_terminator {
            Ok(TerminationStep::ForceKill { root_exited: self.exited })
        } else {
            Err(TerminationError::Unavailable)
        }
    }

    /// Confirms that the process is over.
    pub fn confirm_termination(&mut self) -> (r: Result<(), TerminationError>)
        ensures
            (*final(self), r) == old(self).confirmed(),
    {
        if !self.exited || !self.output_closed {
            return Err(TerminationError::StillRunning);
        }
        self.has_terminator = false;
        Ok(())
    }
}

/// Once a process is over, nothing is done to it, and its end can be confirmed.
pub proof fn law_nothing_is_done_to_what_is_over(state: ProcessState, descendants_stay: bool)
    requires
        state.is_over(),
    ensures
        state.requested(descendants_stay).1 == TerminationStep::Nothing,
        state.forced() == Ok::<TerminationStep, TerminationError>(TerminationStep::Nothing),
        state.confirmed() == (state.retired(), Ok::<(), TerminationError>(())),
{
}

/// The plain request kills at most once; the forced one can be repeated until the process is over.
pub proof fn law_kills_once_and_forces_again(state: ProcessState, descendants_stay: bool)
    requires
        state.has_terminator,
        !state.is_over(),
    ensures
        state.requested(descendants_stay).1 == TerminationStep::Kill ==> state.requested(
            descendants_stay,
        ).0.requested(descendants_stay).1 == TerminationStep::Nothing,
        state.forced() == Ok::<TerminationStep, TerminationError>(
            TerminationStep::ForceKill { root_exited: state.exited },
        ),
        state.confirmed() == (state, Err::<(), TerminationError>(TerminationError::StillRunning)),
{
}

/// How a terminal is resized.
#[derive(Clone, Copy, Debug, PartialEq, Eq, Structural)]
pub enum ResizeRoute {
    Terminal,
    Callback,
}

/// How a terminal is resized: the terminal itself where it is held, else by the callback; a
/// process without either has none.
pub fn resize_route(has_terminal: bool, has_callback: bool) -> (r: Result<
    ResizeRoute,
    &'static str,
>)
    ensures
        match r {
            Ok(route) => (has_terminal || has_callback) && route == (if has_terminal {
                ResizeRoute::Terminal
            } else {
                ResizeRoute::Callback
            }),
            Err(text) => !has_terminal && !has_callback && text@
                == "process is not attached to a PTY"@,
        },
{
    if has_terminal {
        Ok(ResizeRoute::Terminal)
    } else if has_callback {
        Ok(ResizeRoute::Callback)
    } else {
        Err("process is not attached to a PTY")
    }
}

/// A stream of output.
#[derive(Clone, Copy, Debug, PartialEq, Eq, Structural)]
pub enum OutputStream {
    Stdout,
    Stderr,
}

/// Which of the streams that are combined are still open.
#[derive(Clone, Copy, Debug, PartialEq, Eq, Structural)]
pub struct CombinedOutput {
    pub stdout_open: bool,
    pub stderr_open: bool,
}

impl CombinedOutput {
    /// Whether all streams are closed.
    pub open spec fn is_closed(self) -> bool {
        !self.stdout_open && !self.stderr_open
    }

    /// The streams after one of them is closed.
    pub open spec fn without(self, stream: OutputStream) -> Self {
        match stream {
            OutputStream::Stdout => CombinedOutput { stdout_open: false, ..self },
            OutputStream::Stderr => CombinedOutput { stderr_open: false, ..self },
        }
    }

    /// Both streams are open.
    pub fn new() -> (r: Self)
        ensures
            r == (CombinedOutput { stdout_open: true, stderr_open: true }),
    {
        CombinedOutput { stdout_open: true, stderr_open: true }
    }

    /// Whether no stream is left to wait for.
    pub fn finished(&self) -> (r: bool)
        ensures
            r == self.is_closed(),
    {
        !self.stdout_open && !self.stderr_open
    }

    /// Takes in what came from a stream, a chunk or its end; hands on the chunk.
    pub fn received(&mut self, stream: OutputStream, chunk: Option<Vec<u8>>) -> (r: Option<Vec<u8>>)
        ensures
            r == chunk,
            *final(self) == (if chunk is Some {
                *old(self)
            } else {
                old(self).without(stream)
            }),
    {
        if chunk.is_none() {
            match stream {
                OutputStream::Stdout => {
                    self.stdout_open = false;
                },
                OutputStream::Stderr => {
                    self.stderr_open = false;
                },
            }
        }
        chunk
    }
}

/// What a reader of a stream meets.
#[derive(Clone, Copy, Debug, PartialEq, Eq, Structural)]
pub enum ReaderEvent {
    /// The exit of the process became known.
    ExitSeen,
    /// A chunk came.
    Chunk,
    /// Chunks were lost because the reader was too slow.
    Lagged,
    /// The stream was closed by its writer.
    Closed,
    /// Nobody takes the chunks any more.
    ReceiverGone,
}

/// What the reader does next.
#[derive(Clone, Copy, Debug, PartialEq, Eq, Structural)]
pub enum ReaderStep {
    /// Waits for the next event.
    Wait,
    /// Hands the chunk on.
    Forward,
    /// Ends, with or without having read all of the stream.
    End { complete: bool },
}

/// What a reader does on an event. The exit of a process does not end its output: the reader goes
/// on until the writer closes the stream.
pub fn reader_step(event: ReaderEvent) -> (r: ReaderStep)
    ensures
        r == (match event {
            ReaderEvent::ExitSeen => ReaderStep::Wait,
            ReaderEvent::Lagged => ReaderStep::Wait,
            ReaderEvent::Chunk => ReaderStep::Forward,
            ReaderEvent::Closed => ReaderStep::End { complete: true },
            ReaderEvent::ReceiverGone => ReaderStep::End { complete: false },
        }),
{
    match event {
        ReaderEvent::ExitSeen => ReaderStep::Wait,
        ReaderEvent::Lagged => ReaderStep::Wait,
        ReaderEvent::Chunk => ReaderStep::Forward,
        ReaderEvent::Closed => ReaderStep::End { complete: true },
        ReaderEvent::ReceiverGone => ReaderStep::End { complete: false },
    }
}

/// Whether all output was read: each reader that there is ended with the end of its stream. A
/// reader that was stopped says nothing.
pub fn output_complete(stdout: Option<bool>, stderr: Option<Option<bool>>) -> (r: bool)
    ensures
        r == (stdout == Some(true) && (stderr is Some ==> stderr->0 == Some(true))),
{
    let stdout_complete = match stdout {
        Some(complete) => complete,
        None => false,
    };
    let stderr_complete = match stderr {
        Some(Some(complete)) => complete,
        Some(None) => false,
        None => true,
    };
    stdout_complete && stderr_complete
}

} // verus!
