//! Stack frames: resolving the current stack, and choosing which frames of it
//! belong in a diagnostic record.
use vstd::prelude::*;
use crate::text::{chars_of, contains_chars, ends_with_chars, seq_contains, seq_ends_with, seq_starts_with, starts_with_chars, string_of};

verus! {

/// One symbol of one stack frame as the unwinder resolved it; any part may
/// be missing.
#[derive(Clone, Debug)]
pub struct RawFrame {
    pub name: Option<String>,
    pub file_path: Option<String>,
    pub line: Option<u32>,
    pub column: Option<u32>,
}

/// A resolved stack frame of a diagnostic record.
#[derive(Clone, Debug, PartialEq, Eq)]
pub struct StackFrame {
    pub name: String,
    pub file_path: String,
    pub line_number: u32,
    pub column_number: u32,
    /// The frame's source line, as it stands in the file.
    pub code: String,
}

/// The model of a [`StackFrame`].
pub struct FrameView {
    pub name: Seq<char>,
    pub file_path: Seq<char>,
    pub line_number: u32,
    pub column_number: u32,
    pub code: Seq<char>,
}

impl View for StackFrame {
    type V = FrameView;

    open spec fn view(&self) -> FrameView {
        FrameView {
            name: self.name@,
            file_path: self.file_path@,
            line_number: self.line_number,
            column_number: self.column_number,
            code: self.code@,
        }
    }
}

/// A pattern that marks a frame as internal, to be left out of the stack.
#[derive(Clone, Debug)]
pub enum ExclusionRule {
    /// The symbol name contains this text.
    NameContains(String),
    /// The symbol name ends with this text.
    NameEndsWith(String),
    /// The file path starts with this text (a runtime's own source tree).
    PathStartsWith(String),
}

/// Which frames survive: none that an exclusion rule matches, and only those
/// whose file path contains the source extension.
#[derive(Clone, Debug)]
pub struct FrameFilter {
    pub exclusions: Vec<ExclusionRule>,
    pub source_extension: String,
}

/// Whether the rule matches a frame of this name and path.
pub open spec fn rule_matches(r: ExclusionRule, name: Seq<char>, path: Seq<char>) -> bool {
    match r {
        ExclusionRule::NameContains(p) => seq_contains(name, p@),
        ExclusionRule::NameEndsWith(p) => seq_ends_with(name, p@),
        ExclusionRule::PathStartsWith(p) => seq_starts_with(path, p@),
    }
}

/// Whether some configured rule matches a frame of this name and path.
pub open spec fn matches_exclusion(f: FrameFilter, name: Seq<char>, path: Seq<char>) -> bool {
    exists|i: int| 0 <= i < f.exclusions@.len() && rule_matches(#[trigger] f.exclusions@[i], name, path)
}

/// Whether the filter drops a frame of this name and path.
pub open spec fn excluded(f: FrameFilter, name: Seq<char>, path: Seq<char>) -> bool {
    matches_exclusion(f, name, path) || !seq_contains(path, f.source_extension@)
}

/// Where the last `::` separator starts, scanning from the left as
/// `str::split` does; `found` if there is none from `i` on.
pub open spec fn last_separator(s: Seq<char>, i: int, found: int) -> int
    decreases s.len() - i,
{
    if i < 0 || i + 2 > s.len() {
        found
    } else if s[i] == ':' && s[i + 1] == ':' {
        last_separator(s, i + 2, i)
    } else {
        last_separator(s, i + 1, found)
    }
}

/// A qualified name without its trailing `::`-separated segment (the hash
/// that disambiguates a symbol); a name with no separator stays whole.
pub open spec fn strip_last_segment(s: Seq<char>) -> Seq<char> {
    let p = last_separator(s, 0, -1);
    if p < 0 { s } else { s.subrange(0, p) }
}

/// The symbol name of a raw frame whose name was resolved, without its
/// trailing segment.
pub open spec fn raw_name(r: RawFrame) -> Seq<char> {
    strip_last_segment(r.name->Some_0@)
}

/// Whether a raw frame is kept: symbol name, file, line and column resolved,
/// and not dropped by the filter.
pub open spec fn kept(f: FrameFilter, r: RawFrame) -> bool {
    &&& r.name is Some
    &&& r.file_path is Some
    &&& r.line is Some
    &&& r.column is Some
    &&& !excluded(f, raw_name(r), r.file_path->Some_0@)
}

/// The frame that a kept raw frame becomes, before its code is read.
pub open spec fn frame_of(r: RawFrame) -> FrameView {
    FrameView {
        name: raw_name(r),
        file_path: r.file_path->Some_0@,
        line_number: r.line->Some_0,
        column_number: r.column->Some_0,
        code: Seq::empty(),
    }
}

/// The kept frames of `raws`, listed from the innermost (first in `raws`);
/// the result holds them outermost first, the innermost last.
pub open spec fn selected(f: FrameFilter, raws: Seq<RawFrame>) -> Seq<FrameView>
    decreases raws.len(),
{
    if raws.len() == 0 {
        Seq::empty()
    } else {
        let rest = selected(f, raws.drop_last());
        if kept(f, raws.last()) {
            seq![frame_of(raws.last())] + rest
        } else {
            rest
        }
    }
}

/// No frame that the selection yields is matched by an exclusion rule, and
/// each has the source extension in its path, however deep the stack.
pub proof fn lemma_selected_not_excluded(f: FrameFilter, raws: Seq<RawFrame>)
    ensures
        forall|i: int| 0 <= i < selected(f, raws).len() ==>
            !excluded(f, #[trigger] selected(f, raws)[i].name, selected(f, raws)[i].file_path),
    decreases raws.len(),
{
    if raws.len() > 0 {
        lemma_selected_not_excluded(f, raws.drop_last());
        let rest = selected(f, raws.drop_last());
        if kept(f, raws.last()) {
            assert forall|i: int| 0 < i < selected(f, raws).len() implies
                selected(f, raws)[i] == rest[i - 1] by {}
        }
    }
}

/// A name without its trailing `::` segment.
pub fn strip_disambiguator(name: &str) -> (r: String)
    ensures
        r@ == strip_last_segment(name@),
{
    let cs = chars_of(name);
    let mut i: usize = 0;
    let mut has: bool = false;
    let mut found: usize = 0;
    while cs.len() - i >= 2
        invariant
            cs@ == name@,
            i <= cs@.len(),
            has ==> found < i,
            last_separator(cs@, 0, -1) == last_separator(cs@, i as int, if has { found as int } else { -1 }),
        decreases cs@.len() - i,
    {
        if cs[i] == ':' && cs[i + 1] == ':' {
            has = true;
            found = i;
            i = i + 2;
        } else {
            i = i + 1;
        }
    }
    if has {
        let mut prefix = cs.clone();
        prefix.truncate(found);
        assert(prefix@ =~= cs@.subrange(0, found as int));
        string_of(&prefix)
    } else {
        string_of(&cs)
    }
}

impl ExclusionRule {
    /// Whether this rule matches a frame of this name and path.
    pub fn matches(&self, name: &Vec<char>, path: &Vec<char>) -> (r: bool)
        ensures
            r == rule_matches(*self, name@, path@),
    {
        match self {
            ExclusionRule::NameContains(p) => contains_chars(name, &chars_of(p.as_str())),
            ExclusionRule::NameEndsWith(p) => ends_with_chars(name, &chars_of(p.as_str())),
            ExclusionRule::PathStartsWith(p) => starts_with_chars(path, &chars_of(p.as_str())),
        }
    }
}

impl FrameFilter {
    /// A filter with these exclusion rules and this source extension.
    pub fn new(exclusions: Vec<ExclusionRule>, source_extension: String) -> (r: Self)
        ensures
            r.exclusions@ == exclusions@,
            r.source_extension@ == source_extension@,
    {
        FrameFilter { exclusions, source_extension }
    }

    /// Whether the filter drops a frame of this name and path.
    pub fn excludes(&self, name: &Vec<char>, path: &Vec<char>) -> (r: bool)
        ensures
            r == excluded(*self, name@, path@),
    {
        let mut i: usize = 0;
        while i < self.exclusions.len()
            invariant
                i <= self.exclusions@.len(),
                forall|j: int| 0 <= j < i ==> !rule_matches(#[trigger] self.exclusions@[j], name@, path@),
            decreases self.exclusions@.len() - i,
        {
            if self.exclusions[i].matches(name, path) {
                return true;
            }
            i = i + 1;
        }
        !contains_chars(path, &chars_of(self.source_extension.as_str()))
    }

    /// The frames of a stack that belong in a record, from the raw symbols
    /// listed innermost first: each kept one with its name stripped of the
    /// trailing segment, outermost first and innermost last.
    pub fn select(&self, raws: &Vec<RawFrame>) -> (r: Vec<StackFrame>)
        ensures
            r@.map_values(|s: StackFrame| s@) == selected(*self, raws@),
    {
        let mut out: Vec<StackFrame> = Vec::new();
        let mut i: usize = 0;
        while i < raws.len()
            invariant
                i <= raws@.len(),
                out@.map_values(|s: StackFrame| s@) == selected(*self, raws@.subrange(0, i as int)),
            decreases raws@.len() - i,
        {
            let raw = &raws[i];
            let ghost pre = raws@.subrange(0, i as int);
            let ghost next = raws@.subrange(0, i + 1);
            assert(next.drop_last() =~= pre);
            assert(next.last() == *raw);
            if let (Some(n), Some(path), Some(line), Some(column)) = (&raw.name, &raw.file_path, raw.line, raw.column) {
                let name = strip_disambiguator(n.as_str());
                let name_chars = chars_of(name.as_str());
                let path_chars = chars_of(path.as_str());
                if !self.excludes(&name_chars, &path_chars) {
                    let frame = StackFrame {
                        name,
                        file_path: path.clone(),
                        line_number: line,
                        column_number: column,
                        code: String::new(),
                    };
                    out.insert(0, frame);
                    assert(out@.map_values(|s: StackFrame| s@) =~= selected(*self, next));
                }
            }
            i = i + 1;
        }
        assert(raws@.subrange(0, raws@.len() as int) =~= raws@);
        out
    }
}

/// Relies on `backtrace::Backtrace::new` and `BacktraceFrame::symbols`: the
/// resolved symbols of the current stack, innermost first, starting at the
/// frame of `Backtrace::new` itself. They depend on the running program, so
/// nothing is stated of them.
#[verifier::external_body]
fn stack_symbols() -> (r: Vec<RawFrame>) {
    let mut out = Vec::new();
    for frame in backtrace::Backtrace::new().frames() {
        for symbol in frame.symbols() {
            out.push(RawFrame {
                name: symbol.name().map(|n| n.to_string()),
                file_path: symbol.filename().map(|p| p.to_string_lossy().into_owned()),
                line: symbol.lineno(),
                column: symbol.colno(),
            });
        }
    }
    out
}

/// The resolved symbols of the current stack, innermost first, for a caller
/// that rewrites their paths (to canonical form) before
/// [`FrameFilter::select`]. The frames of the unwinder and of this function
/// come first.
pub fn resolve_stack() -> (r: Vec<RawFrame>) {
    stack_symbols()
}

impl FrameFilter {
    /// The frames of the current stack that belong in a record: those that
    /// [`FrameFilter::select`] keeps of whatever the unwinder resolved. None is
    /// matched by an exclusion rule, whatever the stack. This function's own
    /// frames are on that stack, so the rules should match them.
    pub fn capture(&self) -> (r: Vec<StackFrame>)
        ensures
            exists|raws: Seq<RawFrame>| r@.map_values(|s: StackFrame| s@) == #[trigger] selected(*self, raws),
            forall|i: int| 0 <= i < r@.len() ==> !excluded(*self, #[trigger] r@[i].name@, r@[i].file_path@),
    {
        let raws = stack_symbols();
        let r = self.select(&raws);
        proof {
            lemma_selected_not_excluded(*self, raws@);
            assert forall|i: int| 0 <= i < r@.len() implies !excluded(*self, #[trigger] r@[i].name@, r@[i].file_path@) by {
                assert(r@.map_values(|s: StackFrame| s@)[i] == r@[i]@);
                assert(selected(*self, raws@)[i] == r@[i]@);
                assert(!excluded(*self, selected(*self, raws@)[i].name, selected(*self, raws@)[i].file_path));
            }
        }
        r
    }
}

impl StackFrame {
    /// The frame with its code taken from `lines`, the lines of its file: its
    /// own line as it stands, or nothing where the file has no such line.
    pub fn with_source_lines(self, lines: &Vec<String>) -> (r: Self)
        ensures
            ({
                let at = if self.line_number > 0 { self.line_number - 1 } else { 0 };
                r@ == (FrameView {
                    code: if at < lines@.len() { lines@[at]@ } else { Seq::empty() },
                    ..self@
                })
            }),
    {
        let at = self.line_number.saturating_sub(1) as usize;
        if at < lines.len() {
            StackFrame { code: lines[at].clone(), ..self }
        } else {
            StackFrame { code: String::new(), ..self }
        }
    }
}

} // verus!
