use vstd::prelude::*;

use crate::source::domain::LineNumber;
use crate::sourcing::domain::{SourceLocation, SourceRef};

verus! {

/// The severity of a report.
#[derive(Debug, Clone, Copy, PartialEq, Eq, PartialOrd, Ord, Hash, Structural)]
pub enum Severity {
    /// A suggestion for a fix; always a child of an error or warning.
    SuggestedFix,
    /// A warning.
    Warning,
    /// An error.
    Error,
    /// A fatal error which ended the run.
    FatalError,
}

/// The rank of a severity in render order: 0 for the most severe.
pub open spec fn severity_rank(severity: Severity) -> int {
    match severity {
        Severity::FatalError => 0,
        Severity::Error => 1,
        Severity::Warning => 2,
        Severity::SuggestedFix => 3,
    }
}

impl Severity {
    /// Whether the severity counts as an error.
    pub fn is_error(&self) -> (r: bool)
        ensures
            r == (*self is FatalError || *self is Error),
    {
        match self {
            Severity::FatalError | Severity::Error => true,
            _ => false,
        }
    }

    /// Whether the severity counts as a warning.
    pub fn is_warning(&self) -> (r: bool)
        ensures
            r == (*self is Warning),
    {
        match self {
            Severity::Warning => true,
            _ => false,
        }
    }

    /// Whether the severity is applicable only to child reports, not to
    /// top-level ones.
    pub fn is_for_child_report(&self) -> (r: bool)
        ensures
            r == (*self is SuggestedFix),
    {
        match self {
            Severity::SuggestedFix => true,
            _ => false,
        }
    }
}

/// The code of a report, used to create unique, searchable error codes.
#[derive(Debug, Clone, Copy, PartialEq, Eq, Structural)]
pub enum ReportCode {
    /// A code still needs to be created for this type of report.
    NeedsToBeCreated,
    ES001UnexpectedCharacter,
    ES002NoClosingQuoteForStringOrCharacter,
}

/// The severity a report code declares, where it declares one.
pub open spec fn spec_code_severity(code: ReportCode) -> Option<Severity> {
    match code {
        ReportCode::NeedsToBeCreated => None,
        ReportCode::ES001UnexpectedCharacter => Some(Severity::Error),
        ReportCode::ES002NoClosingQuoteForStringOrCharacter => Some(Severity::Error),
    }
}

impl ReportCode {
    /// The severity of the report code, where it declares one.
    pub fn severity(&self) -> (r: Option<Severity>)
        ensures
            r == spec_code_severity(*self),
    {
        match self {
            ReportCode::NeedsToBeCreated => None,
            ReportCode::ES001UnexpectedCharacter => Some(Severity::Error),
            ReportCode::ES002NoClosingQuoteForStringOrCharacter => Some(Severity::Error),
        }
    }

    /// The short searchable name of the report code, where it has one.
    pub fn name(&self) -> (r: Option<&'static str>)
        ensures
            *self is NeedsToBeCreated <==> r is None,
            *self is ES001UnexpectedCharacter ==> (r matches Some(n) && n@ == "ES001"@),
            *self is ES002NoClosingQuoteForStringOrCharacter ==> (r matches Some(n) && n@
                == "ES002"@),
    {
        match self {
            ReportCode::NeedsToBeCreated => None,
            ReportCode::ES001UnexpectedCharacter => Some("ES001"),
            ReportCode::ES002NoClosingQuoteForStringOrCharacter => Some("ES002"),
        }
    }
}

/// A report's message is non-empty, pure ASCII, and starts with an
/// uppercase ASCII letter.
pub open spec fn valid_report_message(text: Seq<char>) -> bool {
    &&& text.len() > 0
    &&& forall|i: int| 0 <= i < text.len() ==> (#[trigger] text[i]) < 128
    &&& 'A' <= text[0] <= 'Z'
}

/// The common fields every report variant carries.
pub struct ReportBase<'source_context> {
    severity: Severity,
    code: Option<ReportCode>,
    message: String,
    children: Vec<Report<'source_context>>,
}

/// A report of an error or warning, tagged by what it speaks about.
pub enum Report<'source_context> {
    /// A global report, not specific to any source.
    Global { base: ReportBase<'source_context> },
    /// A report about a whole source.
    FromSource { base: ReportBase<'source_context>, source: SourceRef<'source_context> },
    /// A report about one line of a source.
    FromLine {
        base: ReportBase<'source_context>,
        source: SourceRef<'source_context>,
        line_number: LineNumber,
    },
    /// A report about one grapheme-cluster location in a source.
    FromLocation {
        base: ReportBase<'source_context>,
        location: SourceLocation<'source_context>,
    },
    /// A report about a range of grapheme clusters in a source.
    FromRange {
        base: ReportBase<'source_context>,
        first: SourceLocation<'source_context>,
        last: SourceLocation<'source_context>,
    },
}

impl<'source_context> Report<'source_context> {
    /// The base fields of the report, whatever its variant.
    pub closed spec fn spec_base(self) -> ReportBase<'source_context> {
        match self {
            Report::Global { base } => base,
            Report::FromSource { base, .. } => base,
            Report::FromLine { base, .. } => base,
            Report::FromLocation { base, .. } => base,
            Report::FromRange { base, .. } => base,
        }
    }

    pub closed spec fn spec_severity(self) -> Severity {
        self.spec_base().severity
    }

    pub closed spec fn spec_code(self) -> Option<ReportCode> {
        self.spec_base().code
    }

    pub closed spec fn spec_message(self) -> Seq<char> {
        self.spec_base().message@
    }

    pub closed spec fn spec_children(self) -> Seq<Report<'source_context>> {
        self.spec_base().children@
    }

    /// The source the report speaks about, where it names one.
    pub open spec fn spec_source(self) -> Option<SourceRef<'source_context>> {
        match self {
            Report::Global { .. } => None,
            Report::FromSource { source, .. } => Some(source),
            Report::FromLine { source, .. } => Some(source),
            Report::FromLocation { location, .. } => Some(location.source),
            Report::FromRange { first, .. } => Some(first.source),
        }
    }

    /// The first line the report speaks about, where it names one.
    pub open spec fn spec_first_line_number(self) -> Option<LineNumber> {
        match self {
            Report::FromLine { line_number, .. } => Some(line_number),
            Report::FromLocation { location, .. } => Some(location.line_number),
            Report::FromRange { first, .. } => Some(first.line_number),
            _ => None,
        }
    }

    /// The last line the report speaks about, where it names one.
    pub open spec fn spec_last_line_number(self) -> Option<LineNumber> {
        match self {
            Report::FromLine { line_number, .. } => Some(line_number),
            Report::FromLocation { location, .. } => Some(location.line_number),
            Report::FromRange { last, .. } => Some(last.line_number),
            _ => None,
        }
    }

    /// The location of the first grapheme the report speaks about, where it
    /// names one.
    pub open spec fn spec_first_location(self) -> Option<SourceLocation<'source_context>> {
        match self {
            Report::FromLocation { location, .. } => Some(location),
            Report::FromRange { first, .. } => Some(first),
            _ => None,
        }
    }

    /// The location of the last grapheme the report speaks about, where it
    /// names one.
    pub open spec fn spec_last_location(self) -> Option<SourceLocation<'source_context>> {
        match self {
            Report::FromLocation { location, .. } => Some(location),
            Report::FromRange { last, .. } => Some(last),
            _ => None,
        }
    }

    /// The report is a valid top-level report: its message is well formed,
    /// its severity is not reserved for children, it carries a code whose
    /// declared severity matches, and its children are valid child reports.
    pub open spec fn valid(self) -> bool {
        &&& valid_report_message(self.spec_message())
        &&& !(self.spec_severity() is SuggestedFix)
        &&& self.spec_code() is Some
        &&& (spec_code_severity(self.spec_code()->0) matches Some(s) ==> s == self.spec_severity())
        &&& forall|i: int|
            0 <= i < self.spec_children().len() ==> (#[trigger] self.spec_children()[i]).valid_child()
    }

    /// The report is a valid child report: a global report with a well
    /// formed message, a child-only severity, no code, and no children of
    /// its own.
    pub open spec fn valid_child(self) -> bool {
        &&& self is Global
        &&& valid_report_message(self.spec_message())
        &&& self.spec_severity() is SuggestedFix
        &&& self.spec_code() is None
        &&& self.spec_children().len() == 0
    }

    /// Create a new global report.
    pub fn new_global(severity: Severity, code: ReportCode, message: String) -> (r: Report<
        'source_context,
    >)
        requires
            valid_report_message(message@),
            !(severity is SuggestedFix),
            spec_code_severity(code) matches Some(s) ==> s == severity,
        ensures
            r.valid(),
            r is Global,
            r.spec_severity() == severity,
            r.spec_code() == Some(code),
            r.spec_message() == message@,
            r.spec_children().len() == 0,
    {
        Report::Global {
            base: ReportBase { severity, code: Some(code), message, children: Vec::new() },
        }
    }

    /// Create a new report about a whole source.
    pub fn new_from_source(
        severity: Severity,
        code: ReportCode,
        source: SourceRef<'source_context>,
        message: String,
    ) -> (r: Report<'source_context>)
        requires
            valid_report_message(message@),
            !(severity is SuggestedFix),
            spec_code_severity(code) matches Some(s) ==> s == severity,
        ensures
            r.valid(),
            r is FromSource,
            r.spec_severity() == severity,
            r.spec_code() == Some(code),
            r.spec_message() == message@,
            r.spec_children().len() == 0,
            r.spec_source() == Some(source),
    {
        Report::FromSource {
            base: ReportBase { severity, code: Some(code), message, children: Vec::new() },
            source,
        }
    }

    /// Create a new report about one line of a source.
    pub fn new_from_line(
        severity: Severity,
        code: ReportCode,
        source: SourceRef<'source_context>,
        line_number: LineNumber,
        message: String,
    ) -> (r: Report<'source_context>)
        requires
            valid_report_message(message@),
            !(severity is SuggestedFix),
            spec_code_severity(code) matches Some(s) ==> s == severity,
        ensures
            r.valid(),
            r is FromLine,
            r.spec_severity() == severity,
            r.spec_code() == Some(code),
            r.spec_message() == message@,
            r.spec_children().len() == 0,
            r.spec_source() == Some(source),
            r.spec_first_line_number() == Some(line_number),
            r.spec_last_line_number() == Some(line_number),
    {
        Report::FromLine {
            base: ReportBase { severity, code: Some(code), message, children: Vec::new() },
            source,
            line_number,
        }
    }

    /// Create a new report about one location in a source.
    pub fn new_from_location(
        severity: Severity,
        code: ReportCode,
        location: SourceLocation<'source_context>,
        message: String,
    ) -> (r: Report<'source_context>)
        requires
            valid_report_message(message@),
            !(severity is SuggestedFix),
            spec_code_severity(code) matches Some(s) ==> s == severity,
        ensures
            r.valid(),
            r is FromLocation,
            r.spec_severity() == severity,
            r.spec_code() == Some(code),
            r.spec_message() == message@,
            r.spec_children().len() == 0,
            r.spec_first_location() == Some(location),
            r.spec_last_location() == Some(location),
    {
        Report::FromLocation {
            base: ReportBase { severity, code: Some(code), message, children: Vec::new() },
            location,
        }
    }

    /// Create a new report about a range in a source.
    pub fn new_from_range(
        severity: Severity,
        code: ReportCode,
        first: SourceLocation<'source_context>,
        last: SourceLocation<'source_context>,
        message: String,
    ) -> (r: Report<'source_context>)
        requires
            valid_report_message(message@),
            !(severity is SuggestedFix),
            spec_code_severity(code) matches Some(s) ==> s == severity,
        ensures
            r.valid(),
            r is FromRange,
            r.spec_severity() == severity,
            r.spec_code() == Some(code),
            r.spec_message() == message@,
            r.spec_children().len() == 0,
            r.spec_first_location() == Some(first),
            r.spec_last_location() == Some(last),
            r.spec_first_line_number() == Some(first.line_number),
            r.spec_last_line_number() == Some(last.line_number),
    {
        Report::FromRange {
            base: ReportBase { severity, code: Some(code), message, children: Vec::new() },
            first,
            last,
        }
    }

    /// Get the severity of the report.
    pub fn severity(&self) -> (r: Severity)
        ensures
            r == self.spec_severity(),
    {
        self.base().severity
    }

    /// Get the code of the report, where it has one.
    pub fn code(&self) -> (r: Option<ReportCode>)
        ensures
            r == self.spec_code(),
    {
        self.base().code
    }

    /// Get the message of the report.
    pub fn message(&self) -> (r: &str)
        ensures
            r@ == self.spec_message(),
    {
        self.base().message.as_str()
    }

    /// Push a child report under the current one; children carry a
    /// child-only severity and no code.
    pub fn push_child(&mut self, severity: Severity, message: String)
        requires
            valid_report_message(message@),
            severity is SuggestedFix,
        ensures
            final(self).spec_children().len() == old(self).spec_children().len() + 1,
            final(self).spec_children().last().valid_child(),
            final(self).spec_children().last().spec_severity() == severity,
            final(self).spec_children().last().spec_message() == message@,
            final(self).spec_children().take(old(self).spec_children().len() as int) == old(
                self,
            ).spec_children(),
            final(self).spec_severity() == old(self).spec_severity(),
            final(self).spec_code() == old(self).spec_code(),
            final(self).spec_message() == old(self).spec_message(),
            final(self).spec_source() == old(self).spec_source(),
            final(self).spec_first_line_number() == old(self).spec_first_line_number(),
            final(self).spec_last_line_number() == old(self).spec_last_line_number(),
            final(self).spec_first_location() == old(self).spec_first_location(),
            final(self).spec_last_location() == old(self).spec_last_location(),
            old(self).valid() ==> final(self).valid(),
    {
        let child = Report::Global {
            base: ReportBase { severity, code: None, message, children: Vec::new() },
        };
        let ghost gc = child;
        self.base_mut().children.push(child);
        proof {
            assert(self.spec_children().take(self.spec_children().len() - 1) =~= old(
                self,
            ).spec_children());
        }
    }

    /// The children of the report, in the order they were attached.
    pub fn iter_children(&self) -> (r: &Vec<Report<'source_context>>)
        ensures
            r@ == self.spec_children(),
    {
        &self.base().children
    }

    /// Get the source of the report, where it names one.
    pub fn source(&self) -> (r: Option<&SourceRef<'source_context>>)
        ensures
            match self.spec_source() {
                Some(s) => r matches Some(rs) && *rs == s,
                None => r is None,
            },
    {
        match self {
            Report::Global { .. } => None,
            Report::FromSource { source, .. } => Some(source),
            Report::FromLine { source, .. } => Some(source),
            Report::FromLocation { location, .. } => Some(&location.source),
            Report::FromRange { first, .. } => Some(&first.source),
        }
    }

    /// Get the first line number of the report, where it names one.
    pub fn first_line_number(&self) -> (r: Option<LineNumber>)
        ensures
            r == self.spec_first_line_number(),
    {
        match self {
            Report::FromLine { line_number, .. } => Some(*line_number),
            Report::FromLocation { location, .. } => Some(location.line_number),
            Report::FromRange { first, .. } => Some(first.line_number),
            _ => None,
        }
    }

    /// Get the last line number of the report, where it names one.
    pub fn last_line_number(&self) -> (r: Option<LineNumber>)
        ensures
            r == self.spec_last_line_number(),
    {
        match self {
            Report::FromLine { line_number, .. } => Some(*line_number),
            Report::FromLocation { location, .. } => Some(location.line_number),
            Report::FromRange { last, .. } => Some(last.line_number),
            _ => None,
        }
    }

    /// Get the first location of the report, where it names one.
    pub fn first_location(&self) -> (r: Option<&SourceLocation<'source_context>>)
        ensures
            match self.spec_first_location() {
                Some(l) => r matches Some(rl) && *rl == l,
                None => r is None,
            },
    {
        match self {
            Report::FromLocation { location, .. } => Some(location),
            Report::FromRange { first, .. } => Some(first),
            _ => None,
        }
    }

    /// Get the last location of the report, where it names one.
    pub fn last_location(&self) -> (r: Option<&SourceLocation<'source_context>>)
        ensures
            match self.spec_last_location() {
                Some(l) => r matches Some(rl) && *rl == l,
                None => r is None,
            },
    {
        match self {
            Report::FromLocation { location, .. } => Some(location),
            Report::FromRange { last, .. } => Some(last),
            _ => None,
        }
    }

    fn base(&self) -> (r: &ReportBase<'source_context>)
        ensures
            *r == self.spec_base(),
    {
        match self {
            Report::Global { base } => base,
            Report::FromSource { base, .. } => base,
            Report::FromLine { base, .. } => base,
            Report::FromLocation { base, .. } => base,
            Report::FromRange { base, .. } => base,
        }
    }

    fn base_mut(&mut self) -> (r: &mut ReportBase<'source_context>)
        ensures
            *r == old(self).spec_base(),
            final(self).spec_base() == *final(r),
            (*final(self)) is Global <==> (*old(self)) is Global,
            final(self).spec_source() == old(self).spec_source(),
            final(self).spec_first_line_number() == old(self).spec_first_line_number(),
            final(self).spec_last_line_number() == old(self).spec_last_line_number(),
            final(self).spec_first_location() == old(self).spec_first_location(),
            final(self).spec_last_location() == old(self).spec_last_location(),
    {
        match self {
            Report::Global { base } => base,
            Report::FromSource { base, .. } => base,
            Report::FromLine { base, .. } => base,
            Report::FromLocation { base, .. } => base,
            Report::FromRange { base, .. } => base,
        }
    }
}

/// The render order of reports: most severe first, then by first line
/// ascending with absent lines after present ones, then by first column
/// ascending with absent columns first.
pub open spec fn report_le(a: Report, b: Report) -> bool {
    ||| severity_rank(a.spec_severity()) < severity_rank(b.spec_severity())
    ||| (severity_rank(a.spec_severity()) == severity_rank(b.spec_severity()) && (line_key(a)
        < line_key(b) || (line_key(a) == line_key(b) && column_key(a) <= column_key(b))))
}

/// The sort key a report's first line contributes: reports with no line
/// sort after every report with one.
pub open spec fn line_key(r: Report) -> int {
    match r.spec_first_line_number() {
        Some(line) => line as int,
        None => 0x1_0000_0000,
    }
}

/// The sort key a report's first column contributes: reports with no column
/// sort before every report with one.
pub open spec fn column_key(r: Report) -> int {
    match r.spec_first_location() {
        Some(location) => location.column_number as int,
        None => -1,
    }
}

/// Whether `a` may stand before `b` in render order.
pub(crate) fn report_le_exec(a: &Report, b: &Report) -> (r: bool)
    ensures
        r == report_le(*a, *b),
{
    let ra = severity_rank_exec(a.severity());
    let rb = severity_rank_exec(b.severity());
    if ra < rb {
        return true;
    }
    if ra > rb {
        return false;
    }
    let la: u64 = match a.first_line_number() {
        Some(line) => line as u64,
        None => 0x1_0000_0000u64,
    };
    let lb: u64 = match b.first_line_number() {
        Some(line) => line as u64,
        None => 0x1_0000_0000u64,
    };
    if la < lb {
        return true;
    }
    if la > lb {
        return false;
    }
    let ca: i64 = match a.first_location() {
        Some(location) => location.column_number as i64,
        None => -1i64,
    };
    let cb: i64 = match b.first_location() {
        Some(location) => location.column_number as i64,
        None => -1i64,
    };
    ca <= cb
}

/// The rank of a severity, most severe first.
fn severity_rank_exec(severity: Severity) -> (r: u32)
    ensures
        r == severity_rank(severity),
{
    match severity {
        Severity::FatalError => 0,
        Severity::Error => 1,
        Severity::Warning => 2,
        Severity::SuggestedFix => 3,
    }
}

} // verus!
