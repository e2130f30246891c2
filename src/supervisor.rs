//! The connection supervisor's decisions: a state machine from connection and
//! channel events to actions. The task that runs it owns the connection, the
//! dispatcher's sender and the solution channel's receiver.
use crate::block::{field_value, read_u64_be, HEADER_SIZE, HEIGHT_OFFSET};
use crate::hex::{from_hex, hex_decode, hex_encode, to_hex};
use crate::worker::ThreadNotification;
use vstd::prelude::*;

verus! {

/// Wait between losing the connection and the next attempt, in milliseconds.
pub const RECONNECT_DELAY_MILLIS: u64 = 10000;

/// A job as the work source sends it: the block template as hex text.
#[derive(Debug, Clone)]
pub struct GetBlockTemplateResult {
    pub template: Vec<u8>,
    pub difficulty: u64,
}

/// What the work source sends.
#[derive(Debug, Clone)]
pub enum SocketMessage {
    NewJob(GetBlockTemplateResult),
    BlockAccepted,
    BlockRejected,
}

/// A frame read from the connection.
#[derive(Debug, Clone)]
pub enum InboundFrame {
    /// A text frame that held a message.
    Message(SocketMessage),
    /// A text frame that held no message, or a read error.
    Malformed,
    /// A close frame, or a frame of another kind.
    Closed,
}

#[derive(Debug, Clone)]
pub enum SupervisorEvent {
    /// The supervisor starts, or the backoff after a lost connection is over.
    BackoffElapsed,
    /// The connection could not be made.
    ConnectFailed,
    /// The connection was answered with this status code.
    ConnectResponse { status: u16 },
    Inbound(InboundFrame),
    /// A worker sent a solved block (its encoded bytes).
    SolutionFound(Vec<u8>),
    /// Sending a submission failed.
    SendFailed,
    /// Mining is to stop.
    Stop,
}

#[derive(Debug, Clone)]
pub enum SupervisorAction {
    /// Open the connection.
    Connect,
    /// Wait this many milliseconds, then report `BackoffElapsed`.
    Wait(u64),
    /// Send this notification to every worker.
    Broadcast(ThreadNotification),
    /// Send a submission with this block template (hex text).
    Submit(Vec<u8>),
    /// Wait for the next frame or solution.
    Listen,
    /// Nothing to do.
    Ignore,
}

pub ghost enum SupervisorActionView {
    Connect,
    Wait(u64),
    BroadcastJob(Seq<u8>, u64),
    BroadcastExit,
    Submit(Seq<u8>),
    Listen,
    Ignore,
}

impl View for SupervisorAction {
    type V = SupervisorActionView;

    open spec fn view(&self) -> SupervisorActionView {
        match self {
            SupervisorAction::Connect => SupervisorActionView::Connect,
            SupervisorAction::Wait(ms) => SupervisorActionView::Wait(*ms),
            SupervisorAction::Broadcast(ThreadNotification::NewJob(b, d)) => SupervisorActionView::BroadcastJob(b@, *d),
            SupervisorAction::Broadcast(ThreadNotification::Exit) => SupervisorActionView::BroadcastExit,
            SupervisorAction::Submit(t) => SupervisorActionView::Submit(t@),
            SupervisorAction::Listen => SupervisorActionView::Listen,
            SupervisorAction::Ignore => SupervisorActionView::Ignore,
        }
    }
}

#[derive(Debug, Clone, Copy, PartialEq, Eq, Structural)]
pub enum ConnectionState {
    Disconnected,
    Connecting,
    Connected,
}

/// The supervisor's state and the counters it keeps.
#[derive(Debug, Clone, Copy, PartialEq, Eq, Structural)]
pub struct Supervisor {
    pub connection: ConnectionState,
    pub stopped: bool,
    /// Height of the last job received.
    pub height: u64,
    pub accepted: u64,
    pub rejected: u64,
}

pub open spec fn wrapping_inc(n: u64) -> u64 {
    if n == u64::MAX {
        0
    } else {
        (n + 1) as u64
    }
}

/// A status code of the client-error or server-error class.
pub open spec fn is_error_status(status: u16) -> bool {
    400 <= status <= 599
}

pub open spec fn disconnect(s: Supervisor) -> (Supervisor, SupervisorActionView) {
    (
        Supervisor { connection: ConnectionState::Disconnected, ..s },
        SupervisorActionView::Wait(RECONNECT_DELAY_MILLIS),
    )
}

/// What the supervisor does on a job message: a template that is no hex text
/// of a whole header is dropped, and the connection is ended as after any
/// malformed message.
pub open spec fn on_job(s: Supervisor, job: GetBlockTemplateResult) -> (Supervisor, SupervisorActionView) {
    match hex_decode(job.template@) {
        Some(block) => if block.len() >= HEADER_SIZE {
            (
                Supervisor { height: field_value(block, HEIGHT_OFFSET as nat, 8) as u64, ..s },
                SupervisorActionView::BroadcastJob(block, job.difficulty),
            )
        } else {
            disconnect(s)
        },
        None => disconnect(s),
    }
}

/// One step of the supervisor.
pub open spec fn supervisor_next(s: Supervisor, e: SupervisorEvent) -> (Supervisor, SupervisorActionView) {
    if s.stopped {
        (s, SupervisorActionView::Ignore)
    } else {
        match e {
            SupervisorEvent::Stop => (
                Supervisor { connection: ConnectionState::Disconnected, stopped: true, ..s },
                SupervisorActionView::BroadcastExit,
            ),
            SupervisorEvent::BackoffElapsed => if s.connection == ConnectionState::Disconnected {
                (Supervisor { connection: ConnectionState::Connecting, ..s }, SupervisorActionView::Connect)
            } else {
                (s, SupervisorActionView::Ignore)
            },
            SupervisorEvent::ConnectFailed => if s.connection == ConnectionState::Connecting {
                disconnect(s)
            } else {
                (s, SupervisorActionView::Ignore)
            },
            SupervisorEvent::ConnectResponse { status } => if s.connection == ConnectionState::Connecting {
                if is_error_status(status) {
                    disconnect(s)
                } else {
                    (Supervisor { connection: ConnectionState::Connected, ..s }, SupervisorActionView::Listen)
                }
            } else {
                (s, SupervisorActionView::Ignore)
            },
            SupervisorEvent::Inbound(frame) => if s.connection == ConnectionState::Connected {
                match frame {
                    InboundFrame::Message(SocketMessage::NewJob(job)) => on_job(s, job),
                    InboundFrame::Message(SocketMessage::BlockAccepted) => (
                        Supervisor { accepted: wrapping_inc(s.accepted), ..s },
                        SupervisorActionView::Listen,
                    ),
                    InboundFrame::Message(SocketMessage::BlockRejected) => (
                        Supervisor { rejected: wrapping_inc(s.rejected), ..s },
                        SupervisorActionView::Listen,
                    ),
                    _ => disconnect(s),
                }
            } else {
                (s, SupervisorActionView::Ignore)
            },
            SupervisorEvent::SolutionFound(block) => if s.connection == ConnectionState::Connected
                && 2 * block@.len() <= usize::MAX {
                (s, SupervisorActionView::Submit(hex_encode(block@)))
            } else {
                (s, SupervisorActionView::Ignore)
            },
            SupervisorEvent::SendFailed => if s.connection == ConnectionState::Connected {
                disconnect(s)
            } else {
                (s, SupervisorActionView::Ignore)
            },
        }
    }
}

impl Supervisor {
    pub fn new() -> (r: Supervisor)
        ensures
            r == (Supervisor {
                connection: ConnectionState::Disconnected,
                stopped: false,
                height: 0,
                accepted: 0,
                rejected: 0,
            }),
    {
        Supervisor {
            connection: ConnectionState::Disconnected,
            stopped: false,
            height: 0,
            accepted: 0,
            rejected: 0,
        }
    }

    /// The connectivity flag that workers and the status display read.
    pub fn is_connected(&self) -> (r: bool)
        ensures
            r == (self.connection == ConnectionState::Connected),
    {
        self.connection == ConnectionState::Connected
    }

    fn disconnect(&mut self) -> (a: SupervisorAction)
        ensures
            (*final(self), a@) == disconnect(*old(self)),
    {
        self.connection = ConnectionState::Disconnected;
        SupervisorAction::Wait(RECONNECT_DELAY_MILLIS)
    }

    fn on_job(&mut self, job: GetBlockTemplateResult) -> (a: SupervisorAction)
        ensures
            (*final(self), a@) == on_job(*old(self), job),
    {
        match from_hex(job.template.as_slice()) {
            Some(block) => {
                if block.len() >= HEADER_SIZE {
                    self.height = read_u64_be(&block, HEIGHT_OFFSET);
                    SupervisorAction::Broadcast(ThreadNotification::NewJob(block, job.difficulty))
                } else {
                    self.disconnect()
                }
            },
            None => self.disconnect(),
        }
    }

    /// Takes one event and says what to do next.
    pub fn step(&mut self, event: SupervisorEvent) -> (a: SupervisorAction)
        ensures
            (*final(self), a@) == supervisor_next(*old(self), event),
    {
        if self.stopped {
            return SupervisorAction::Ignore;
        }
        match event {
            SupervisorEvent::Stop => {
                self.connection = ConnectionState::Disconnected;
                self.stopped = true;
                SupervisorAction::Broadcast(ThreadNotification::Exit)
            },
            SupervisorEvent::BackoffElapsed => {
                if self.connection == ConnectionState::Disconnected {
                    self.connection = ConnectionState::Connecting;
                    SupervisorAction::Connect
                } else {
                    SupervisorAction::Ignore
                }
            },
            SupervisorEvent::ConnectFailed => {
                if self.connection == ConnectionState::Connecting {
                    self.disconnect()
                } else {
                    SupervisorAction::Ignore
                }
            },
            SupervisorEvent::ConnectResponse { status } => {
                if self.connection == ConnectionState::Connecting {
                    if 400 <= status && status <= 599 {
                        self.disconnect()
                    } else {
                        self.connection = ConnectionState::Connected;
                        SupervisorAction::Listen
                    }
                } else {
                    SupervisorAction::Ignore
                }
            },
            SupervisorEvent::Inbound(frame) => {
                if self.connection == ConnectionState::Connected {
                    match frame {
                        InboundFrame::Message(SocketMessage::NewJob(job)) => self.on_job(job),
                        InboundFrame::Message(SocketMessage::BlockAccepted) => {
                            self.accepted = self.accepted.wrapping_add(1);
                            SupervisorAction::Listen
                        },
                        InboundFrame::Message(SocketMessage::BlockRejected) => {
                            self.rejected = self.rejected.wrapping_add(1);
                            SupervisorAction::Listen
                        },
                        _ => self.disconnect(),
                    }
                } else {
                    SupervisorAction::Ignore
                }
            },
            SupervisorEvent::SolutionFound(block) => {
                if self.connection == ConnectionState::Connected && block.len() <= usize::MAX / 2 {
                    SupervisorAction::Submit(to_hex(block.as_slice()))
                } else {
                    SupervisorAction::Ignore
                }
            },
            SupervisorEvent::SendFailed => {
                if self.connection == ConnectionState::Connected {
                    self.disconnect()
                } else {
                    SupervisorAction::Ignore
                }
            },
        }
    }
}

/// A failed connection attempt is followed by the fixed backoff and then by a
/// new attempt, as often as it fails; the counters are kept.
pub proof fn lemma_connect_failure_retries(s: Supervisor)
    requires
        !s.stopped,
        s.connection == ConnectionState::Connecting,
    ensures
        ({
            let (s1, a1) = supervisor_next(s, SupervisorEvent::ConnectFailed);
            let (s2, a2) = supervisor_next(s1, SupervisorEvent::BackoffElapsed);
            &&& s1.connection == ConnectionState::Disconnected
            &&& a1 == SupervisorActionView::Wait(RECONNECT_DELAY_MILLIS)
            &&& s2 == s
            &&& a2 == SupervisorActionView::Connect
        }),
{
}

/// An error-class answer to a connection attempt is handled as a failure.
pub proof fn lemma_error_response_retries(s: Supervisor, status: u16)
    requires
        !s.stopped,
        s.connection == ConnectionState::Connecting,
        is_error_status(status),
    ensures
        supervisor_next(s, SupervisorEvent::ConnectResponse { status }) == supervisor_next(
            s,
            SupervisorEvent::ConnectFailed,
        ),
{
}

/// An acknowledgment counts once in its own counter and sends no job.
pub proof fn lemma_acknowledgment_counts_once(s: Supervisor)
    requires
        !s.stopped,
        s.connection == ConnectionState::Connected,
        s.accepted < u64::MAX,
        s.rejected < u64::MAX,
    ensures
        ({
            let (s1, a1) = supervisor_next(
                s,
                SupervisorEvent::Inbound(InboundFrame::Message(SocketMessage::BlockAccepted)),
            );
            &&& s1 == Supervisor { accepted: (s.accepted + 1) as u64, ..s }
            &&& a1 == SupervisorActionView::Listen
        }),
        ({
            let (s1, a1) = supervisor_next(
                s,
                SupervisorEvent::Inbound(InboundFrame::Message(SocketMessage::BlockRejected)),
            );
            &&& s1 == Supervisor { rejected: (s.rejected + 1) as u64, ..s }
            &&& a1 == SupervisorActionView::Listen
        }),
{
}

/// After a stop, the workers are sent `Exit`, and nothing else is done after.
pub proof fn lemma_stop_broadcasts_exit(s: Supervisor, e: SupervisorEvent)
    requires
        !s.stopped,
    ensures
        supervisor_next(s, SupervisorEvent::Stop).1 == SupervisorActionView::BroadcastExit,
        supervisor_next(supervisor_next(s, SupervisorEvent::Stop).0, e).1
            == SupervisorActionView::Ignore,
{
}

/// A job whose template does not decode to a whole header is not sent to the
/// workers, leaves the counters and the height as they were, and ends the
/// connection, which is made again after the backoff.
pub proof fn lemma_corrupt_job_reconnects(s: Supervisor, job: GetBlockTemplateResult)
    requires
        !s.stopped,
        s.connection == ConnectionState::Connected,
        match hex_decode(job.template@) {
            Some(block) => block.len() < HEADER_SIZE,
            None => true,
        },
    ensures
        ({
            let (s1, a1) = supervisor_next(
                s,
                SupervisorEvent::Inbound(InboundFrame::Message(SocketMessage::NewJob(job))),
            );
            &&& s1 == Supervisor { connection: ConnectionState::Disconnected, ..s }
            &&& a1 == SupervisorActionView::Wait(RECONNECT_DELAY_MILLIS)
        }),
{
}

} // verus!
