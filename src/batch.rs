//! Batches of records: a builder that appends records in order, under a
//! condition or not, and the finished batch with where it is to be sent.
use std::collections::VecDeque;
use vstd::prelude::*;
use crate::record::{DiagnosticRecord, DEFAULT_SURROUND};
use crate::transport::{SendAction, SendPhase, SendSession, LoggerError};

verus! {

/// The collector's host when none is named.
pub const DEFAULT_HOST: &'static str = "127.0.0.1";

/// The collector's port when none is named.
pub const DEFAULT_PORT: &'static str = "3002";

/// The model of a batch, as built or as finished.
pub struct BatchView {
    pub entries: Seq<DiagnosticRecord>,
    pub host: Seq<char>,
    pub port: Seq<char>,
    pub surround: u32,
}

/// A builder of a batch. Records are only ever appended, in the order of
/// the calls that add them.
#[derive(Debug, Clone)]
pub struct LogBatch {
    log_batch: VecDeque<DiagnosticRecord>,
    host: String,
    port: String,
    surround: u32,
}

impl View for LogBatch {
    type V = BatchView;

    closed spec fn view(&self) -> BatchView {
        BatchView { entries: self.log_batch@, host: self.host@, port: self.port@, surround: self.surround }
    }
}

/// A finished batch: its records and the collector they go to.
#[derive(Debug, Clone)]
pub struct Logger {
    log_batch: VecDeque<DiagnosticRecord>,
    batch_host: String,
    batch_port: String,
}

impl View for Logger {
    type V = BatchView;

    closed spec fn view(&self) -> BatchView {
        BatchView {
            entries: self.log_batch@,
            host: self.batch_host@,
            port: self.batch_port@,
            surround: DEFAULT_SURROUND,
        }
    }
}

impl LogBatch {
    fn new() -> (r: Self)
        ensures
            r@.entries == Seq::<DiagnosticRecord>::empty(),
            r@.host == DEFAULT_HOST@,
            r@.port == DEFAULT_PORT@,
            r@.surround == DEFAULT_SURROUND,
    {
        LogBatch {
            log_batch: VecDeque::new(),
            host: String::from_str(DEFAULT_HOST),
            port: String::from_str(DEFAULT_PORT),
            surround: DEFAULT_SURROUND,
        }
    }

    /// Sends the batch to this host.
    pub fn host(self, host: String) -> (r: Self)
        ensures
            r@ == (BatchView { host: host@, ..self@ }),
    {
        LogBatch { host, ..self }
    }

    /// Sends the batch to this port.
    pub fn port(self, port: String) -> (r: Self)
        ensures
            r@ == (BatchView { port: port@, ..self@ }),
    {
        LogBatch { port, ..self }
    }

    /// The snippet radius of entries that name none.
    pub fn surround(self, surround: u32) -> (r: Self)
        ensures
            r@ == (BatchView { surround, ..self@ }),
    {
        LogBatch { surround, ..self }
    }

    /// The number of records so far.
    pub fn len(&self) -> (r: usize)
        ensures
            r == self@.entries.len(),
    {
        self.log_batch.len()
    }

    /// The radius of the next entry's snippet: the one named, or the batch's.
    pub fn entry_surround(&self, surround: Option<u32>) -> (r: u32)
        ensures
            r == match surround {
                Some(s) => s,
                None => self@.surround,
            },
    {
        match surround {
            Some(s) => s,
            None => self.surround,
        }
    }

    /// Appends `record`.
    pub fn add_log(self, record: DiagnosticRecord) -> (r: Self)
        ensures
            r@ == (BatchView { entries: self@.entries.push(record), ..self@ }),
    {
        let mut b = self;
        b.log_batch.push_back(record);
        b
    }

    /// Appends `record` where `condition` held at the call; the batch is
    /// otherwise unchanged.
    pub fn add_log_if(self, condition: bool, record: DiagnosticRecord) -> (r: Self)
        ensures
            condition ==> r@ == (BatchView { entries: self@.entries.push(record), ..self@ }),
            !condition ==> r@ == self@,
    {
        if condition {
            self.add_log(record)
        } else {
            self
        }
    }

    /// Appends `record` where the gating environment flag is present
    /// (`flag_present`); its value plays no part.
    pub fn add_log_when_env(self, flag_present: bool, record: DiagnosticRecord) -> (r: Self)
        ensures
            flag_present ==> r@ == (BatchView { entries: self@.entries.push(record), ..self@ }),
            !flag_present ==> r@ == self@,
    {
        self.add_log_if(flag_present, record)
    }

    /// Finishes the batch, with its records in the order they were added. An
    /// empty batch may be finished; sending it is what is refused.
    pub fn build(self) -> (r: Logger)
        ensures
            r@ == (BatchView { surround: DEFAULT_SURROUND, ..self@ }),
    {
        Logger { log_batch: self.log_batch, batch_host: self.host, batch_port: self.port }
    }
}

impl Logger {
    /// A new, empty batch builder, for the default collector.
    pub fn start_batch() -> (r: LogBatch)
        ensures
            r@.entries == Seq::<DiagnosticRecord>::empty(),
            r@.host == DEFAULT_HOST@,
            r@.port == DEFAULT_PORT@,
            r@.surround == DEFAULT_SURROUND,
    {
        LogBatch::new()
    }

    /// The records of the batch, in order.
    pub fn records(&self) -> (r: &VecDeque<DiagnosticRecord>)
        ensures
            r@ == self@.entries,
    {
        &self.log_batch
    }

    /// The collector's host.
    pub fn host(&self) -> (r: &String)
        ensures
            r@ == self@.host,
    {
        &self.batch_host
    }

    /// The collector's port.
    pub fn port(&self) -> (r: &String)
        ensures
            r@ == self@.port,
    {
        &self.batch_port
    }

    /// Starts sending the batch: refused, with no network work, when the batch
    /// is empty; otherwise the first action is to connect.
    pub fn start_send(&self) -> (r: (SendSession, SendAction))
        ensures
            self@.entries.len() == 0 ==> r.0.phase == SendPhase::Finished
                && r.1 == SendAction::Finish(Err(LoggerError::EmptyBatch)),
            self@.entries.len() > 0 ==> r.0.phase == SendPhase::Connecting && r.1 == SendAction::Connect,
    {
        SendSession::start(self.log_batch.len())
    }
}

/// Records added one after the other stand in the finished batch in the
/// order of the calls, after the records that were there.
pub proof fn lemma_adds_keep_order(b: BatchView, x: DiagnosticRecord, y: DiagnosticRecord)
    ensures
        ({
            let after = b.entries.push(x).push(y);
            &&& after.len() == b.entries.len() + 2
            &&& after.subrange(0, b.entries.len() as int) == b.entries
            &&& after[b.entries.len() as int] == x
            &&& after[b.entries.len() as int + 1] == y
        }),
{
    assert(b.entries.push(x).push(y).subrange(0, b.entries.len() as int) =~= b.entries);
}

} // verus!
