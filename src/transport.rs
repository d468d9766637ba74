//! The decisions of sending records to a collector: when a send may start,
//! what follows each outcome of the network, and how the collector's reply
//! is read. The network work itself is done by whoever drives a session.
use vstd::prelude::*;

verus! {

/// Why logging or sending failed.
#[derive(Debug, Clone, PartialEq, Eq)]
pub enum LoggerError {
    /// The source file of a snippet could not be read.
    SnippetIo { path: String, reason: String },
    /// A batch with no record was to be sent.
    EmptyBatch,
    /// The collector could not be reached, or the call to it failed in
    /// transit.
    Connection(String),
    /// The collector reported a failure, with its message.
    Remote(String),
    /// The collector answered with a status outside its contract.
    Protocol(i32),
    /// No execution context could be created for the send.
    Runtime(String),
}

/// The collector's answer to a send, by its status tag.
#[derive(Debug, Clone, PartialEq, Eq)]
pub enum Reply {
    Confirmed,
    Error(String),
    /// Any other status tag.
    Unknown(i32),
}

/// The result that a reply stands for.
pub open spec fn reply_result(reply: Reply) -> Result<(), LoggerError> {
    match reply {
        Reply::Confirmed => Ok(()),
        Reply::Error(m) => Err(LoggerError::Remote(m)),
        Reply::Unknown(tag) => Err(LoggerError::Protocol(tag)),
    }
}

/// Reads the collector's reply: success on `Confirmed`, the remote message
/// on `Error`, and a protocol violation on any other tag.
pub fn interpret_reply(reply: Reply) -> (r: Result<(), LoggerError>)
    ensures
        r == reply_result(reply),
{
    match reply {
        Reply::Confirmed => Ok(()),
        Reply::Error(m) => Err(LoggerError::Remote(m)),
        Reply::Unknown(tag) => Err(LoggerError::Protocol(tag)),
    }
}

/// Where a send stands.
#[derive(Debug, Clone, Copy, PartialEq, Eq)]
pub enum SendPhase {
    Connecting,
    AwaitingReply,
    Finished,
}

/// What the network did, as the driver of a session reports it.
#[derive(Debug, Clone, PartialEq, Eq)]
pub enum SendEvent {
    Connected,
    ConnectFailed(String),
    Replied(Reply),
    CallFailed(String),
}

/// What the driver of a session is to do next.
#[derive(Debug, PartialEq, Eq)]
pub enum SendAction {
    /// Open a connection to the collector.
    Connect,
    /// Send the records over the open connection.
    Call,
    /// Stop, with this result for the caller.
    Finish(Result<(), LoggerError>),
}

/// Whether `event` can follow in `phase`.
pub open spec fn event_fits(phase: SendPhase, event: SendEvent) -> bool {
    match phase {
        SendPhase::Connecting => event is Connected || event is ConnectFailed,
        SendPhase::AwaitingReply => event is Replied || event is CallFailed,
        SendPhase::Finished => false,
    }
}

/// The phase and action that follow `event` in `phase`.
pub open spec fn next_step(phase: SendPhase, event: SendEvent) -> (SendPhase, SendAction) {
    match event {
        SendEvent::Connected => (SendPhase::AwaitingReply, SendAction::Call),
        SendEvent::ConnectFailed(m) => (SendPhase::Finished, SendAction::Finish(Err(LoggerError::Connection(m)))),
        SendEvent::Replied(reply) => (SendPhase::Finished, SendAction::Finish(reply_result(reply))),
        SendEvent::CallFailed(m) => (SendPhase::Finished, SendAction::Finish(Err(LoggerError::Connection(m)))),
    }
}

/// One send of records to a collector, one network call at most, with no
/// retry.
#[derive(Debug, Clone, Copy, PartialEq, Eq)]
pub struct SendSession {
    pub phase: SendPhase,
}

impl SendSession {
    /// Starts a send of `n_records` records. An empty send is refused before
    /// any network work: the session is finished at once and its first
    /// action is to stop with [`LoggerError::EmptyBatch`], never to connect.
    pub fn start(n_records: usize) -> (r: (Self, SendAction))
        ensures
            n_records == 0 ==> r.0.phase == SendPhase::Finished
                && r.1 == SendAction::Finish(Err(LoggerError::EmptyBatch)),
            n_records > 0 ==> r.0.phase == SendPhase::Connecting && r.1 == SendAction::Connect,
    {
        if n_records == 0 {
            (SendSession { phase: SendPhase::Finished }, SendAction::Finish(Err(LoggerError::EmptyBatch)))
        } else {
            (SendSession { phase: SendPhase::Connecting }, SendAction::Connect)
        }
    }

    /// Takes the outcome of the last action and says what comes next: a
    /// call once connected; otherwise the end, with the reply read by
    /// [`interpret_reply`], or a connection error where connecting or the
    /// call failed.
    pub fn step(&mut self, event: SendEvent) -> (r: SendAction)
        requires
            event_fits(old(self).phase, event),
        ensures
            (final(self).phase, r) == next_step(old(self).phase, event),
    {
        match event {
            SendEvent::Connected => {
                self.phase = SendPhase::AwaitingReply;
                SendAction::Call
            },
            SendEvent::ConnectFailed(m) => {
                self.phase = SendPhase::Finished;
                SendAction::Finish(Err(LoggerError::Connection(m)))
            },
            SendEvent::Replied(reply) => {
                self.phase = SendPhase::Finished;
                SendAction::Finish(interpret_reply(reply))
            },
            SendEvent::CallFailed(m) => {
                self.phase = SendPhase::Finished;
                SendAction::Finish(Err(LoggerError::Connection(m)))
            },
        }
    }

    /// Whether the session has ended.
    pub fn is_finished(&self) -> (r: bool)
        ensures
            r == (self.phase == SendPhase::Finished),
    {
        match self.phase {
            SendPhase::Finished => true,
            _ => false,
        }
    }
}

/// A session connects at most once: after a refused empty send no event can
/// come at all, and once connected, no event leads back to connecting.
pub proof fn lemma_single_attempt(phase: SendPhase, event: SendEvent)
    requires
        event_fits(phase, event),
    ensures
        phase != SendPhase::Finished,
        next_step(phase, event).1 != SendAction::Connect,
        next_step(phase, event).0 != SendPhase::Connecting,
{
}

} // verus!
