use vstd::prelude::*;

use crate::source::domain::{ColumnNumber, LineNumber, SourceLocation, SourceRef};

verus! {

/// The severity of a message, from most to least severe.
#[derive(Debug, Clone, Copy, PartialEq, Eq, PartialOrd, Ord, Hash, Structural)]
pub enum Severity {
    FatalError,
    Error,
    Warning,
    Info,
    Fix,
    Suggestion,
    Note,
    Debug,
}

/// The rank of a severity: 0 for the most severe, growing as severities get
/// milder. It drives the order in which messages are kept and rendered.
pub open spec fn severity_rank(severity: Severity) -> int {
    match severity {
        Severity::FatalError => 0,
        Severity::Error => 1,
        Severity::Warning => 2,
        Severity::Info => 3,
        Severity::Fix => 4,
        Severity::Suggestion => 5,
        Severity::Note => 6,
        Severity::Debug => 7,
    }
}

impl Severity {
    /// Whether the severity counts as an error.
    pub fn is_error(&self) -> (r: bool)
        ensures
            r == (*self is FatalError || *self is Error),
    {
        match self {
            Severity::FatalError | Severity::Error => true,
            _ => false,
        }
    }

    /// Whether the severity counts as a warning.
    pub fn is_warning(&self) -> (r: bool)
        ensures
            r == (*self is Warning),
    {
        match self {
            Severity::Warning => true,
            _ => false,
        }
    }
}

/// A single diagnostic: a severity, the place it speaks about (none, a whole
/// source, a line, a point, or a range), its text, and its child messages.
pub struct Message<'source_context> {
    severity: Severity,
    source: Option<SourceRef<'source_context>>,
    first_location_line_number: Option<LineNumber>,
    first_location_column_number: Option<ColumnNumber>,
    last_location_line_number: Option<LineNumber>,
    last_location_column_number: Option<ColumnNumber>,
    text: String,
    children: Vec<Message<'source_context>>,
}

impl<'source_context> Message<'source_context> {
    pub closed spec fn spec_severity(self) -> Severity {
        self.severity
    }

    pub closed spec fn spec_source(self) -> Option<SourceRef<'source_context>> {
        self.source
    }

    pub closed spec fn spec_first_line(self) -> Option<LineNumber> {
        self.first_location_line_number
    }

    pub closed spec fn spec_first_column(self) -> Option<ColumnNumber> {
        self.first_location_column_number
    }

    pub closed spec fn spec_last_line(self) -> Option<LineNumber> {
        self.last_location_line_number
    }

    pub closed spec fn spec_last_column(self) -> Option<ColumnNumber> {
        self.last_location_column_number
    }

    pub closed spec fn spec_text(self) -> Seq<char> {
        self.text@
    }

    pub closed spec fn spec_children(self) -> Seq<Message<'source_context>> {
        self.children@
    }

    /// A global message attached to no source.
    pub fn new(severity: Severity, text: String) -> (r: Message<'source_context>)
        ensures
            r.spec_severity() == severity,
            r.spec_source() is None,
            r.spec_first_line() is None,
            r.spec_first_column() is None,
            r.spec_last_line() is None,
            r.spec_last_column() is None,
            r.spec_text() == text@,
            r.spec_children().len() == 0,
    {
        Message {
            severity,
            source: None,
            first_location_line_number: None,
            first_location_column_number: None,
            last_location_line_number: None,
            last_location_column_number: None,
            text,
            children: Vec::new(),
        }
    }

    /// A message about a whole source.
    pub fn new_from_source(
        severity: Severity,
        source: SourceRef<'source_context>,
        text: String,
    ) -> (r: Message<'source_context>)
        ensures
            r.spec_severity() == severity,
            r.spec_source() == Some(source),
            r.spec_first_line() is None,
            r.spec_first_column() is None,
            r.spec_last_line() is None,
            r.spec_last_column() is None,
            r.spec_text() == text@,
            r.spec_children().len() == 0,
    {
        Message {
            severity,
            source: Some(source),
            first_location_line_number: None,
            first_location_column_number: None,
            last_location_line_number: None,
            last_location_column_number: None,
            text,
            children: Vec::new(),
        }
    }

    /// A message about one whole line of a source.
    pub fn new_from_line(
        severity: Severity,
        source: SourceRef<'source_context>,
        line_number: LineNumber,
        text: String,
    ) -> (r: Message<'source_context>)
        ensures
            r.spec_severity() == severity,
            r.spec_source() == Some(source),
            r.spec_first_line() == Some(line_number),
            r.spec_first_column() is None,
            r.spec_last_line() == Some(line_number),
            r.spec_last_column() is None,
            r.spec_text() == text@,
            r.spec_children().len() == 0,
    {
        Message {
            severity,
            source: Some(source),
            first_location_line_number: Some(line_number),
            first_location_column_number: None,
            last_location_line_number: Some(line_number),
            last_location_column_number: None,
            text,
            children: Vec::new(),
        }
    }

    /// A message about a single point, given by raw coordinates.
    pub fn new_from_location_raw(
        severity: Severity,
        source: SourceRef<'source_context>,
        line_number: LineNumber,
        column_number: ColumnNumber,
        text: String,
    ) -> (r: Message<'source_context>)
        ensures
            r.spec_severity() == severity,
            r.spec_source() == Some(source),
            r.spec_first_line() == Some(line_number),
            r.spec_first_column() == Some(column_number),
            r.spec_last_line() == Some(line_number),
            r.spec_last_column() == Some(column_number),
            r.spec_text() == text@,
            r.spec_children().len() == 0,
    {
        Message {
            severity,
            source: Some(source),
            first_location_line_number: Some(line_number),
            first_location_column_number: Some(column_number),
            last_location_line_number: Some(line_number),
            last_location_column_number: Some(column_number),
            text,
            children: Vec::new(),
        }
    }

    /// A message about a single point.
    pub fn new_from_location(
        severity: Severity,
        location: SourceLocation<'source_context>,
        text: String,
    ) -> (r: Message<'source_context>)
        ensures
            r.spec_severity() == severity,
            r.spec_source() == Some(location.source),
            r.spec_first_line() == Some(location.line_number),
            r.spec_first_column() == Some(location.column_number),
            r.spec_last_line() == Some(location.line_number),
            r.spec_last_column() == Some(location.column_number),
            r.spec_text() == text@,
            r.spec_children().len() == 0,
    {
        Message::new_from_location_raw(
            severity,
            location.source,
            location.line_number,
            location.column_number,
            text,
        )
    }

    /// A message about a range, given by raw coordinates.
    pub fn new_from_range_raw(
        severity: Severity,
        source: SourceRef<'source_context>,
        first_location_line_number: LineNumber,
        first_location_column_number: ColumnNumber,
        last_location_line_number: LineNumber,
        last_location_column_number: ColumnNumber,
        text: String,
    ) -> (r: Message<'source_context>)
        ensures
            r.spec_severity() == severity,
            r.spec_source() == Some(source),
            r.spec_first_line() == Some(first_location_line_number),
            r.spec_first_column() == Some(first_location_column_number),
            r.spec_last_line() == Some(last_location_line_number),
            r.spec_last_column() == Some(last_location_column_number),
            r.spec_text() == text@,
            r.spec_children().len() == 0,
    {
        Message {
            severity,
            source: Some(source),
            first_location_line_number: Some(first_location_line_number),
            first_location_column_number: Some(first_location_column_number),
            last_location_line_number: Some(last_location_line_number),
            last_location_column_number: Some(last_location_column_number),
            text,
            children: Vec::new(),
        }
    }

    /// A message about the range from `first_location` to `last_location`.
    pub fn new_from_range(
        severity: Severity,
        first_location: SourceLocation<'source_context>,
        last_location: SourceLocation<'source_context>,
        text: String,
    ) -> (r: Message<'source_context>)
        ensures
            r.spec_severity() == severity,
            r.spec_source() == Some(first_location.source),
            r.spec_first_line() == Some(first_location.line_number),
            r.spec_first_column() == Some(first_location.column_number),
            r.spec_last_line() == Some(last_location.line_number),
            r.spec_last_column() == Some(last_location.column_number),
            r.spec_text() == text@,
            r.spec_children().len() == 0,
    {
        Message::new_from_range_raw(
            severity,
            first_location.source,
            first_location.line_number,
            first_location.column_number,
            last_location.line_number,
            last_location.column_number,
            text,
        )
    }

    /// Attach a child message under this one.
    pub fn add_child(&mut self, child: Message<'source_context>)
        ensures
            final(self).spec_children() == old(self).spec_children().push(child),
            final(self).spec_severity() == old(self).spec_severity(),
            final(self).spec_source() == old(self).spec_source(),
            final(self).spec_first_line() == old(self).spec_first_line(),
            final(self).spec_first_column() == old(self).spec_first_column(),
            final(self).spec_last_line() == old(self).spec_last_line(),
            final(self).spec_last_column() == old(self).spec_last_column(),
            final(self).spec_text() == old(self).spec_text(),
    {
        self.children.push(child);
    }

    /// The children of this message, in the order they were attached.
    pub fn iter_children(&self) -> (r: &Vec<Message<'source_context>>)
        ensures
            r@ == self.spec_children(),
    {
        &self.children
    }

    pub fn severity(&self) -> (r: Severity)
        ensures
            r == self.spec_severity(),
    {
        self.severity
    }

    pub fn source(&self) -> (r: Option<SourceRef<'source_context>>)
        ensures
            r == self.spec_source(),
    {
        self.source
    }

    pub fn first_location_line_number(&self) -> (r: Option<LineNumber>)
        ensures
            r == self.spec_first_line(),
    {
        self.first_location_line_number
    }

    pub fn first_location_column_number(&self) -> (r: Option<ColumnNumber>)
        ensures
            r == self.spec_first_column(),
    {
        self.first_location_column_number
    }

    pub fn last_location_line_number(&self) -> (r: Option<LineNumber>)
        ensures
            r == self.spec_last_line(),
    {
        self.last_location_line_number
    }

    pub fn last_location_column_number(&self) -> (r: Option<ColumnNumber>)
        ensures
            r == self.spec_last_column(),
    {
        self.last_location_column_number
    }

    /// The first and last line the message covers, when it names a line at
    /// all.
    pub fn line_number_range(&self) -> (r: Option<(LineNumber, LineNumber)>)
        ensures
            r == spec_line_number_range(*self),
    {
        match (self.first_location_line_number, self.last_location_line_number) {
            (Some(first_line_number), Some(last_line_number)) => Some(
                (first_line_number, last_line_number),
            ),
            (Some(first_line_number), None) => Some((first_line_number, first_line_number)),
            _ => None,
        }
    }

    pub fn text(&self) -> (r: &str)
        ensures
            r@ == self.spec_text(),
    {
        self.text.as_str()
    }
}

/// The first and last line a message covers: a message with only a first
/// line covers that line alone, one with no first line covers none.
pub open spec fn spec_line_number_range(m: Message) -> Option<(LineNumber, LineNumber)> {
    match (m.spec_first_line(), m.spec_last_line()) {
        (Some(first), Some(last)) => Some((first, last)),
        (Some(first), None) => Some((first, first)),
        _ => None,
    }
}

/// The sort key a message's first line contributes: messages with no line
/// sort after every message with one.
pub open spec fn line_key(m: Message) -> int {
    match m.spec_first_line() {
        Some(line) => line as int,
        None => 0x1_0000_0000,
    }
}

/// The sort key a message's first column contributes: messages with no
/// column sort before every message with one.
pub open spec fn column_key(m: Message) -> int {
    match m.spec_first_column() {
        Some(column) => column as int,
        None => -1,
    }
}

/// The render order of messages: most severe first, then by first line
/// ascending with absent lines after present ones, then by first column
/// ascending with absent columns first.
pub open spec fn message_le(a: Message, b: Message) -> bool {
    ||| severity_rank(a.spec_severity()) < severity_rank(b.spec_severity())
    ||| (severity_rank(a.spec_severity()) == severity_rank(b.spec_severity()) && (line_key(a)
        < line_key(b) || (line_key(a) == line_key(b) && column_key(a) <= column_key(b))))
}

/// A sequence of messages in render order.
pub open spec fn messages_sorted(s: Seq<Message>) -> bool {
    forall|i: int, j: int| 0 <= i < j < s.len() ==> message_le(#[trigger] s[i], #[trigger] s[j])
}

/// Where a new message lands in an ordered sequence: after every message
/// that does not have to come after it, so that equal messages keep their
/// insertion order.
pub open spec fn insert_position(s: Seq<Message>, m: Message) -> int
    decreases s.len(),
{
    if s.len() > 0 && message_le(s.first(), m) {
        1 + insert_position(s.drop_first(), m)
    } else {
        0
    }
}

/// A new message always lands inside the sequence's bounds.
pub proof fn lemma_insert_position_in_range(s: Seq<Message>, m: Message)
    ensures
        0 <= insert_position(s, m) <= s.len(),
    decreases s.len(),
{
    if s.len() > 0 && message_le(s.first(), m) {
        lemma_insert_position_in_range(s.drop_first(), m);
    }
}

proof fn lemma_insert_position_characterization(s: Seq<Message>, m: Message, i: int)
    requires
        0 <= i <= s.len(),
        forall|j: int| 0 <= j < i ==> message_le(#[trigger] s[j], m),
        i < s.len() ==> !message_le(s[i], m),
    ensures
        insert_position(s, m) == i,
    decreases s.len(),
{
    if s.len() > 0 && message_le(s.first(), m) {
        assert(i >= 1);
        lemma_insert_position_characterization(s.drop_first(), m, i - 1);
    }
}

/// How many messages in the sequence are errors.
pub open spec fn count_errors(s: Seq<Message>) -> int
    decreases s.len(),
{
    if s.len() == 0 {
        0
    } else {
        (if s.first().spec_severity() is FatalError || s.first().spec_severity() is Error {
            1int
        } else {
            0int
        }) + count_errors(s.drop_first())
    }
}

/// How many messages in the sequence are warnings.
pub open spec fn count_warnings(s: Seq<Message>) -> int
    decreases s.len(),
{
    if s.len() == 0 {
        0
    } else {
        (if s.first().spec_severity() is Warning {
            1int
        } else {
            0int
        }) + count_warnings(s.drop_first())
    }
}

proof fn lemma_counts_nonnegative(s: Seq<Message>)
    ensures
        0 <= count_errors(s) <= s.len(),
        0 <= count_warnings(s) <= s.len(),
    decreases s.len(),
{
    if s.len() > 0 {
        lemma_counts_nonnegative(s.drop_first());
    }
}

proof fn lemma_counts_insert(s: Seq<Message>, i: int, m: Message)
    requires
        0 <= i <= s.len(),
    ensures
        count_errors(s.insert(i, m)) == count_errors(s) + (
        if m.spec_severity() is FatalError || m.spec_severity() is Error {
            1int
        } else {
            0int
        }),
        count_warnings(s.insert(i, m)) == count_warnings(s) + (
        if m.spec_severity() is Warning {
            1int
        } else {
            0int
        }),
    decreases s.len(),
{
    if i == 0 {
        assert(s.insert(0, m).drop_first() =~= s);
    } else {
        assert(s.insert(i, m).first() == s.first());
        assert(s.insert(i, m).drop_first() =~= s.drop_first().insert(i - 1, m));
        lemma_counts_insert(s.drop_first(), i - 1, m);
    }
}

/// The largest last line named by any message, or `None` where no message
/// names a line.
pub open spec fn spec_max_line(s: Seq<Message>) -> Option<LineNumber>
    decreases s.len(),
{
    if s.len() == 0 {
        None
    } else {
        let rest = spec_max_line(s.drop_last());
        match spec_line_number_range(s.last()) {
            Some(range) => match rest {
                Some(best) => if range.1 > best {
                    Some(range.1)
                } else {
                    Some(best)
                },
                None => Some(range.1),
            },
            None => rest,
        }
    }
}

/// The messages a store hands out are in render order: most severe first,
/// then by first line with absent lines after present ones, then by first
/// column with absent columns first.
pub proof fn lemma_messages_are_sorted(store: MessageContext)
    requires
        store.wf(),
    ensures
        messages_sorted(store.spec_messages()),
{
}

/// A store of messages, kept in render order, with running error and warning
/// counts.
pub struct MessageContext<'source_context> {
    messages: Vec<Message<'source_context>>,
    error_count: usize,
    warning_count: usize,
}

impl<'source_context> MessageContext<'source_context> {
    /// The messages pushed so far, in render order.
    pub closed spec fn spec_messages(self) -> Seq<Message<'source_context>> {
        self.messages@
    }

    /// The messages are in render order and the counters match them.
    pub closed spec fn wf(self) -> bool {
        &&& messages_sorted(self.messages@)
        &&& self.error_count == count_errors(self.messages@)
        &&& self.warning_count == count_warnings(self.messages@)
    }

    pub fn new() -> (r: MessageContext<'source_context>)
        ensures
            r.wf(),
            r.spec_messages().len() == 0,
    {
        MessageContext { messages: Vec::new(), error_count: 0, warning_count: 0 }
    }

    /// Insert a message at its place in the render order; equal messages
    /// keep their insertion order. The error and warning counters follow the
    /// message's severity.
    pub fn add(&mut self, message: Message<'source_context>)
        requires
            old(self).wf(),
        ensures
            final(self).wf(),
            final(self).spec_messages() == old(self).spec_messages().insert(
                insert_position(old(self).spec_messages(), message),
                message,
            ),
            final(self).spec_messages().len() == old(self).spec_messages().len() + 1,
            forall|m: Message<'source_context>|
                old(self).spec_messages().contains(m) ==> final(self).spec_messages().contains(m),
            count_errors(final(self).spec_messages()) == count_errors(old(self).spec_messages())
                + (
            if message.spec_severity() is FatalError || message.spec_severity() is Error {
                1int
            } else {
                0int
            }),
            count_warnings(final(self).spec_messages()) == count_warnings(
                old(self).spec_messages(),
            ) + (
            if message.spec_severity() is Warning {
                1int
            } else {
                0int
            }),
            final(self).spec_error_count() == old(self).spec_error_count() + (
            if message.spec_severity() is FatalError || message.spec_severity() is Error {
                1int
            } else {
                0int
            }),
            final(self).spec_warning_count() == old(self).spec_warning_count() + (
            if message.spec_severity() is Warning {
                1int
            } else {
                0int
            }),
    {
        let severity = message.severity();

        let mut i: usize = 0;
        let len = self.messages.len();
        while i < len && message_le_exec(&self.messages[i], &message)
            invariant
                len == self.messages@.len(),
                i <= len,
                forall|j: int| 0 <= j < i ==> message_le(#[trigger] self.messages@[j], message),
            decreases len - i,
        {
            i = i + 1;
        }
        proof {
            lemma_insert_position_characterization(self.messages@, message, i as int);
            lemma_counts_nonnegative(self.messages@);
            lemma_counts_insert(self.messages@, i as int, message);
        }
        self.messages.insert(i, message);
        let new_len = self.messages.len();

        if severity.is_error() {
            self.error_count = self.error_count + 1;
        } else if severity.is_warning() {
            self.warning_count = self.warning_count + 1;
        }

        proof {
            let s = old(self).spec_messages();
            let n = s.insert(i as int, message);
            assert forall|p: int, q: int| 0 <= p < q < n.len() implies message_le(
                #[trigger] n[p],
                #[trigger] n[q],
            ) by {
                if p < i && q > i {
                    assert(message_le(s[p], message));
                }
            }
            assert forall|kept: Message<'source_context>| s.contains(kept) implies n.contains(
                kept,
            ) by {
                let j = choose|j: int| 0 <= j < s.len() && s[j] == kept;
                if j < i {
                    assert(n[j] == kept);
                } else {
                    assert(n[j + 1] == kept);
                }
            }
        }
    }

    /// The messages pushed so far, in render order.
    pub fn iter_messages(&self) -> (r: &Vec<Message<'source_context>>)
        ensures
            r@ == self.spec_messages(),
    {
        &self.messages
    }

    pub closed spec fn spec_error_count(self) -> int {
        self.error_count as int
    }

    pub closed spec fn spec_warning_count(self) -> int {
        self.warning_count as int
    }

    /// How many error messages have been pushed.
    pub fn error_count(&self) -> (r: usize)
        requires
            self.wf(),
        ensures
            r == count_errors(self.spec_messages()),
    {
        self.error_count
    }

    /// How many warning messages have been pushed.
    pub fn warning_count(&self) -> (r: usize)
        requires
            self.wf(),
        ensures
            r == count_warnings(self.spec_messages()),
    {
        self.warning_count
    }

    /// The largest last line named by any message pushed so far.
    pub fn max_line_number(&self) -> (r: Option<LineNumber>)
        ensures
            r == spec_max_line(self.spec_messages()),
    {
        let mut best: Option<LineNumber> = None;
        let mut i: usize = 0;
        let len = self.messages.len();
        while i < len
            invariant
                len == self.messages@.len(),
                i <= len,
                best == spec_max_line(self.messages@.take(i as int)),
            decreases len - i,
        {
            proof {
                assert(self.messages@.take(i + 1).drop_last() =~= self.messages@.take(i as int));
                assert(self.messages@.take(i + 1).last() == self.messages@[i as int]);
            }
            match self.messages[i].line_number_range() {
                Some(range) => {
                    best = match best {
                        Some(current) => if range.1 > current {
                            Some(range.1)
                        } else {
                            Some(current)
                        },
                        None => Some(range.1),
                    };
                },
                None => {},
            }
            i = i + 1;
        }
        proof {
            assert(self.messages@.take(len as int) =~= self.messages@);
        }
        best
    }
}

/// Whether `a` may stand before `b` in render order.
fn message_le_exec(a: &Message, b: &Message) -> (r: bool)
    ensures
        r == message_le(*a, *b),
{
    let ra = severity_rank_exec(a.severity());
    let rb = severity_rank_exec(b.severity());
    if ra < rb {
        return true;
    }
    if ra > rb {
        return false;
    }
    let la = line_key_exec(a);
    let lb = line_key_exec(b);
    if la < lb {
        return true;
    }
    if la > lb {
        return false;
    }
    column_key_exec(a) <= column_key_exec(b)
}

/// The rank of a severity, most severe first.
fn severity_rank_exec(severity: Severity) -> (r: u32)
    ensures
        r == severity_rank(severity),
{
    match severity {
        Severity::FatalError => 0,
        Severity::Error => 1,
        Severity::Warning => 2,
        Severity::Info => 3,
        Severity::Fix => 4,
        Severity::Suggestion => 5,
        Severity::Note => 6,
        Severity::Debug => 7,
    }
}

fn line_key_exec(m: &Message) -> (r: u64)
    ensures
        r == line_key(*m),
{
    match m.first_location_line_number() {
        Some(line) => line as u64,
        None => 0x1_0000_0000u64,
    }
}

fn column_key_exec(m: &Message) -> (r: i64)
    ensures
        r == column_key(*m),
{
    match m.first_location_column_number() {
        Some(column) => column as i64,
        None => -1i64,
    }
}

} // verus!
