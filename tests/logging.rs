use codectrl::frames::StackFrame;
use codectrl::{
    DiagnosticRecord, ExclusionRule, FrameFilter, LogBatch, Logger, LoggerError, Reply,
    SendAction, SendEvent, SendSession, Warning, DEFAULT_HOST, DEFAULT_PORT, DEFAULT_SURROUND,
};

/// A collector stand-in: answers every call with one reply and counts the
/// connections it was asked for.
struct StubCollector {
    reply: Reply,
    connections: u32,
}

impl StubCollector {
    fn new(reply: Reply) -> Self {
        StubCollector { reply, connections: 0 }
    }

    fn run(&mut self, start: (SendSession, SendAction)) -> Result<(), LoggerError> {
        let (mut session, mut action) = start;
        loop {
            action = match action {
                SendAction::Connect => {
                    self.connections += 1;
                    session.step(SendEvent::Connected)
                }
                SendAction::Call => session.step(SendEvent::Replied(self.reply.clone())),
                SendAction::Finish(result) => return result,
            };
        }
    }
}

fn test_filter() -> FrameFilter {
    FrameFilter::new(
        vec![
            ExclusionRule::NameContains("codectrl::".to_string()),
            ExclusionRule::NameContains("backtrace::".to_string()),
            ExclusionRule::PathStartsWith("/rustc/".to_string()),
        ],
        ".rs".to_string(),
    )
}

fn source_lines() -> Vec<String> {
    (1..=20).map(|n| format!("line {n}")).collect()
}

fn record_of(message: &str, surround: Option<u32>) -> DiagnosticRecord {
    let stack = vec![StackFrame {
        name: "logging::caller".to_string(),
        file_path: "tests/logging.rs".to_string(),
        line_number: 10,
        column_number: 5,
        code: String::new(),
    }];
    let record = DiagnosticRecord::assemble(
        format!("{:#?}", message),
        "&str".to_string(),
        true,
        stack,
    );
    assert!(record.snippet_source().is_some());
    record.with_snippet(&source_lines(), surround.unwrap_or(DEFAULT_SURROUND))
}

#[test]
fn log() {
    let record = record_of("Hello", Some(2));
    assert_eq!(record.line_number, 10);
    assert_eq!(record.code_snippet.0.keys().copied().collect::<Vec<u32>>(), vec![8, 9, 10, 11, 12]);
    let mut collector = StubCollector::new(Reply::Confirmed);
    assert_eq!(collector.run(SendSession::start(1)), Ok(()));
    assert_eq!(collector.connections, 1);
}

#[test]
fn log_if() {
    let condition = || true;
    let mut collector = StubCollector::new(Reply::Confirmed);
    let logged = if condition() {
        let _record = record_of("Hello, conditional 2", Some(2));
        collector.run(SendSession::start(1)).map(|_| true)
    } else {
        Ok(false)
    };
    assert_eq!(logged, Ok(true));
    assert_eq!(collector.connections, 1);
}

#[test]
fn log_when_env() {
    let batch = Logger::start_batch()
        .add_log_when_env(false, record_of("Hello, world env", Some(2)));
    assert_eq!(batch.len(), 0);
    let batch = batch.add_log_when_env(true, record_of("Hello, world env", Some(2)));
    assert_eq!(batch.len(), 1);
}

#[test]
fn log_batch() {
    let mut batch = Logger::start_batch();
    let messages = ["now", "Batched hello", "Batched hello conditional"];
    for message in messages {
        let surround = batch.entry_surround(None);
        batch = batch.add_log(record_of(message, Some(surround)));
    }
    batch = batch.add_log_if(false, record_of("This won't show", None));
    let surround = batch.entry_surround(Some(2));
    batch = batch.add_log_when_env(true, record_of("Batched env", Some(surround)));
    let logger = batch.build();
    let lines: Vec<u32> = logger.records().iter().map(|r| r.line_number).collect();
    assert_eq!(lines, vec![10, 10, 10, 10]);
    let messages: Vec<&str> = logger.records().iter().map(|r| r.message.as_str()).collect();
    assert_eq!(messages, vec!["\"now\"", "\"Batched hello\"", "\"Batched hello conditional\"", "\"Batched env\""]);
    let mut collector = StubCollector::new(Reply::Confirmed);
    assert_eq!(collector.run(logger.start_send()), Ok(()));
    assert_eq!(collector.connections, 1);
}

#[test]
fn empty_batch_is_refused_without_connecting() {
    let logger = Logger::start_batch().build();
    let mut collector = StubCollector::new(Reply::Confirmed);
    assert_eq!(collector.run(logger.start_send()), Err(LoggerError::EmptyBatch));
    assert_eq!(collector.connections, 0);
}

#[test]
fn confirmed_reply_is_success() {
    let mut collector = StubCollector::new(Reply::Confirmed);
    assert_eq!(collector.run(SendSession::start(1)), Ok(()));
}

#[test]
fn error_reply_carries_message() {
    let mut collector = StubCollector::new(Reply::Error("boom".to_string()));
    assert_eq!(collector.run(SendSession::start(1)), Err(LoggerError::Remote("boom".to_string())));
}

#[test]
fn unknown_reply_is_protocol_error() {
    let mut collector = StubCollector::new(Reply::Unknown(7));
    assert_eq!(collector.run(SendSession::start(3)), Err(LoggerError::Protocol(7)));
}

#[test]
fn failed_connection_ends_the_send() {
    let (mut session, action) = SendSession::start(1);
    assert_eq!(action, SendAction::Connect);
    let next = session.step(SendEvent::ConnectFailed("refused".to_string()));
    assert_eq!(next, SendAction::Finish(Err(LoggerError::Connection("refused".to_string()))));
    assert!(session.is_finished());
}

#[test]
fn failed_call_ends_the_send() {
    let (mut session, _) = SendSession::start(1);
    assert_eq!(session.step(SendEvent::Connected), SendAction::Call);
    let next = session.step(SendEvent::CallFailed("reset".to_string()));
    assert_eq!(next, SendAction::Finish(Err(LoggerError::Connection("reset".to_string()))));
}

#[test]
fn add_log_if_changes_length_by_condition() {
    let batch: LogBatch = Logger::start_batch();
    let batch = batch.add_log_if(false, record_of("a", None));
    assert_eq!(batch.len(), 0);
    let batch = batch.add_log_if(true, record_of("b", None));
    assert_eq!(batch.len(), 1);
    let batch = batch.add_log(record_of("c", None));
    let logger = batch.build();
    let messages: Vec<&str> = logger.records().iter().map(|r| r.message.as_str()).collect();
    assert_eq!(messages, vec!["\"b\"", "\"c\""]);
}

#[test]
fn batch_settings() {
    let logger = Logger::start_batch().build();
    assert_eq!(logger.host(), DEFAULT_HOST);
    assert_eq!(logger.port(), DEFAULT_PORT);
    let batch = Logger::start_batch()
        .host("10.0.0.2".to_string())
        .port("4000".to_string())
        .surround(5);
    assert_eq!(batch.entry_surround(None), 5);
    assert_eq!(batch.entry_surround(Some(1)), 1);
    let logger = batch.build();
    assert_eq!(logger.host(), "10.0.0.2");
    assert_eq!(logger.port(), "4000");
}

#[test]
fn record_without_debug_info() {
    let stack = vec![StackFrame {
        name: "main".to_string(),
        file_path: "src/main.rs".to_string(),
        line_number: 3,
        column_number: 1,
        code: String::new(),
    }];
    let record = DiagnosticRecord::assemble("1".to_string(), "i32".to_string(), false, stack);
    assert_eq!(record.warnings, vec![Warning::CompiledWithoutDebugInfo]);
    assert!(record.stack.is_empty());
    assert_eq!(record.line_number, 0);
    assert_eq!(record.file_name, "");
    assert!(record.snippet_source().is_none());
    assert_eq!(record.language, "Rust");
    assert_eq!(record.uuid, "");
}

#[test]
fn record_with_no_frame() {
    let record = DiagnosticRecord::assemble("1".to_string(), "i32".to_string(), true, vec![]);
    assert!(record.warnings.is_empty());
    assert_eq!(record.line_number, 0);
    assert_eq!(record.file_name, "");
    assert!(record.snippet_source().is_none());
    assert!(record.code_snippet.0.is_empty());
}

#[test]
fn record_takes_last_frame() {
    let frame = |name: &str, path: &str, line: u32| StackFrame {
        name: name.to_string(),
        file_path: path.to_string(),
        line_number: line,
        column_number: 1,
        code: String::new(),
    };
    let stack = vec![frame("main", "src/main.rs", 30), frame("app::run", "src/app.rs", 7)];
    let record = DiagnosticRecord::assemble("m".to_string(), "&str".to_string(), true, stack);
    assert_eq!(record.line_number, 7);
    assert_eq!(record.file_name, "src/app.rs");
    assert_eq!(record.snippet_source(), Some("src/app.rs".to_string()));
    assert_eq!(record.stack.len(), 2);
}

#[test]
fn warning_text() {
    assert_eq!(
        Warning::CompiledWithoutDebugInfo.to_string(),
        "File was compiled without debug info, meaning information was lost"
    );
}

#[test]
fn captured_stack_has_no_excluded_frame() {
    let filter = test_filter();
    let frames = filter.capture();
    for f in &frames {
        assert!(!f.name.contains("codectrl::"));
        assert!(!f.name.contains("backtrace::"));
        assert!(!f.file_path.starts_with("/rustc/"));
        assert!(f.file_path.contains(".rs"));
    }
}
