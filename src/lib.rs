//! Diagnostic capture: the frames of the current stack, the source lines
//! around the call site, records built from them, ordered batches of records,
//! and the decisions of sending them to a collector.
pub mod batch;
pub mod code_snippet;
pub mod decimal;
pub mod frames;
pub mod record;
pub mod text;
pub mod transport;

pub use batch::{BatchView, LogBatch, Logger, DEFAULT_HOST, DEFAULT_PORT};
pub use code_snippet::{CodeSnippet, SnippetKeyError};
pub use frames::{ExclusionRule, FrameFilter, RawFrame, StackFrame};
pub use record::{DiagnosticRecord, Warning, DEFAULT_SURROUND};
pub use transport::{interpret_reply, LoggerError, Reply, SendAction, SendEvent, SendPhase, SendSession};
