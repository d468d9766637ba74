//! Diagnostic records: one captured message with where it came from.
use vstd::prelude::*;
use crate::code_snippet::{CodeSnippet, window_of};
use crate::frames::{FrameView, StackFrame};

verus! {

/// The radius of a snippet when the caller names none.
pub const DEFAULT_SURROUND: u32 = 3;

/// A limit of the capture that a record carries along.
#[derive(Debug, Clone, Copy, PartialEq, Eq)]
pub enum Warning {
    /// The program was built without debug information, so the stack, the
    /// file and the line are missing.
    CompiledWithoutDebugInfo,
}

/// The text of a warning.
pub open spec fn warning_text(w: Warning) -> Seq<char> {
    match w {
        Warning::CompiledWithoutDebugInfo => "File was compiled without debug info, meaning information was lost"@,
    }
}

impl Warning {
    /// The text of the warning, as it is sent.
    pub fn to_string(&self) -> (r: String)
        ensures
            r@ == warning_text(*self),
    {
        match self {
            Warning::CompiledWithoutDebugInfo => String::from_str(
                "File was compiled without debug info, meaning information was lost",
            ),
        }
    }
}

/// One diagnostic record, ready to be sent to a collector.
#[derive(Debug, Clone)]
pub struct DiagnosticRecord {
    /// Empty until the collector assigns one.
    pub uuid: String,
    /// Outermost caller first, the frame nearest the call site last.
    pub stack: Vec<StackFrame>,
    /// Line in the triggering file; 0 where no frame was resolved.
    pub line_number: u32,
    /// The triggering file; empty where no frame was resolved.
    pub file_name: String,
    pub code_snippet: CodeSnippet,
    /// A pretty rendering of the message value.
    pub message: String,
    /// The name of the message value's type.
    pub message_type: String,
    /// Reserved; empty.
    pub address: String,
    pub warnings: Vec<Warning>,
    /// The instrumented language.
    pub language: String,
}

impl DiagnosticRecord {
    /// The models of the record's frames.
    pub open spec fn stack_view(&self) -> Seq<FrameView> {
        self.stack@.map_values(|f: StackFrame| f@)
    }

    /// A record of `message`, whose type is named `message_type`, with the
    /// frames `stack` that were resolved for it. Built without debug
    /// information (`debug_info` false), the record carries the warning and no
    /// frame. Otherwise its file and line are those of the last frame; with no
    /// frame they stay empty and 0.
    pub fn assemble(
        message: String,
        message_type: String,
        debug_info: bool,
        stack: Vec<StackFrame>,
    ) -> (r: Self)
        ensures
            r.uuid@ == Seq::<char>::empty(),
            r.message@ == message@,
            r.message_type@ == message_type@,
            r.address@ == Seq::<char>::empty(),
            r.language@ == "Rust"@,
            r.code_snippet@ == Map::<u32, String>::empty(),
            r.warnings@ == (if debug_info { seq![] } else { seq![Warning::CompiledWithoutDebugInfo] }),
            r.stack@ == (if debug_info { stack@ } else { seq![] }),
            debug_info && stack@.len() > 0 ==> {
                &&& r.line_number == stack@.last().line_number
                &&& r.file_name@ == stack@.last().file_path@
            },
            !(debug_info && stack@.len() > 0) ==> r.line_number == 0 && r.file_name@ == Seq::<char>::empty(),
    {
        let mut warnings: Vec<Warning> = Vec::new();
        let mut frames: Vec<StackFrame> = Vec::new();
        let mut line_number: u32 = 0;
        let mut file_name = String::new();
        if debug_info {
            if stack.len() > 0 {
                let last = &stack[stack.len() - 1];
                line_number = last.line_number;
                file_name = last.file_path.clone();
            }
            frames = stack;
        } else {
            warnings.push(Warning::CompiledWithoutDebugInfo);
            assert(warnings@ =~= seq![Warning::CompiledWithoutDebugInfo]);
        }
        assert(warnings@.len() == 0 ==> warnings@ =~= seq![]);
        assert(frames@.len() == 0 ==> frames@ =~= seq![]);
        DiagnosticRecord {
            uuid: String::new(),
            stack: frames,
            line_number,
            file_name,
            code_snippet: CodeSnippet::new(),
            message,
            message_type,
            address: String::new(),
            warnings,
            language: String::from_str("Rust"),
        }
    }

    /// The file whose lines the record's snippet is cut from: the file of its
    /// last frame, where it has one.
    pub fn snippet_source(&self) -> (r: Option<String>)
        ensures
            r is Some <==> self.stack@.len() > 0,
            r is Some ==> r->Some_0@ == self.file_name@,
    {
        if self.stack.len() > 0 {
            Some(self.file_name.clone())
        } else {
            None
        }
    }

    /// The record with its snippet cut from `lines`, the lines of its file:
    /// the window of radius `surround` around its line. All else is kept.
    pub fn with_snippet(self, lines: &Vec<String>, surround: u32) -> (r: Self)
        requires
            lines@.len() <= u32::MAX,
        ensures
            r.code_snippet@ == window_of(lines@, self.line_number as int, surround as int),
            r == (DiagnosticRecord { code_snippet: r.code_snippet, ..self }),
    {
        let code_snippet = CodeSnippet::extract(lines, self.line_number, surround);
        DiagnosticRecord { code_snippet, ..self }
    }
}

} // verus!
