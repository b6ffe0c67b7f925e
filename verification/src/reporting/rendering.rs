//! Rendering reports as styled, source-annotated text.
//!
//! The renderer produces a list of styled spans: a destination that accepts
//! colored text prints them in order. The text and styling of every span are
//! a pure function of the report store, the sources, and the Unicode toggle.

use vstd::prelude::*;

use crate::reporting::report::{Report, Severity};
use crate::reporting::unicode::choose_unicode;
use crate::source::domain::LineNumber;
use crate::sourcing::domain::SourceLocation;
use crate::sourcing::error::ErrorSource;
use crate::sourcing::reader::SourceReader;
use crate::sourcing::segmentation::cluster_readable;

verus! {

/// How many columns a report's body is indented.
pub const REPORT_INDENT: usize = 2;

/// How many spaces a tab expands to in context lines.
pub const TAB_WIDTH: usize = 4;

/// A foreground color a span may carry.
#[derive(Debug, Clone, Copy, PartialEq, Eq, Structural)]
pub enum SpanColor {
    Default,
    Red,
    Yellow,
    Green,
    Cyan,
}

/// One run of text with one styling: a color, and whether it is bold or
/// dimmed.
pub struct StyledSpan {
    pub color: SpanColor,
    pub bold: bool,
    pub dimmed: bool,
    pub text: String,
}

/// The view of a span: its styling and its text.
pub open spec fn span_view(s: StyledSpan) -> (SpanColor, bool, bool, Seq<char>) {
    (s.color, s.bold, s.dimmed, s.text@)
}

/// The view of a list of spans.
pub open spec fn spans_view(s: Seq<StyledSpan>) -> Seq<(SpanColor, bool, bool, Seq<char>)> {
    s.map_values(|sp: StyledSpan| span_view(sp))
}

/// One span view.
pub open spec fn one_span(color: SpanColor, bold: bool, dimmed: bool, text: Seq<char>) -> Seq<
    (SpanColor, bool, bool, Seq<char>),
> {
    seq![(color, bold, dimmed, text)]
}

/// An unstyled span view.
pub open spec fn plain_span(text: Seq<char>) -> Seq<(SpanColor, bool, bool, Seq<char>)> {
    one_span(SpanColor::Default, false, false, text)
}

/// Append one styled span.
fn emit(spans: &mut Vec<StyledSpan>, color: SpanColor, bold: bool, dimmed: bool, text: String)
    ensures
        spans_view(final(spans)@) == spans_view(old(spans)@) + one_span(color, bold, dimmed, text@),
{
    spans.push(StyledSpan { color, bold, dimmed, text });
    proof {
        assert(spans_view(spans@) =~= spans_view(old(spans)@) + one_span(
            color,
            bold,
            dimmed,
            text@,
        ));
    }
}

/// The decimal digits of a number.
pub open spec fn spec_decimal_digits(n: int) -> Seq<char>
    decreases n,
{
    if n <= 0 {
        Seq::empty()
    } else {
        spec_decimal_digits(n / 10).push(digit_char(n % 10))
    }
}

/// The decimal spelling of a number: its digits, or `0` for zero.
pub open spec fn spec_decimal(n: int) -> Seq<char> {
    if n == 0 {
        seq!['0']
    } else {
        spec_decimal_digits(n)
    }
}

/// The character of one decimal digit.
pub open spec fn digit_char(d: int) -> char {
    if d == 0 {
        '0'
    } else if d == 1 {
        '1'
    } else if d == 2 {
        '2'
    } else if d == 3 {
        '3'
    } else if d == 4 {
        '4'
    } else if d == 5 {
        '5'
    } else if d == 6 {
        '6'
    } else if d == 7 {
        '7'
    } else if d == 8 {
        '8'
    } else {
        '9'
    }
}

/// The concatenation of the strings, last first.
pub open spec fn rev_concat(v: Seq<&str>) -> Seq<char>
    decreases v.len(),
{
    if v.len() == 0 {
        Seq::empty()
    } else {
        v.last()@ + rev_concat(v.drop_last())
    }
}

/// The decimal spelling of a number.
pub fn decimal_string(n: u64) -> (r: String)
    ensures
        r@ == spec_decimal(n as int),
        r@.len() >= 1,
{
    proof {
        reveal_strlit("0");
        reveal_strlit("1");
        reveal_strlit("2");
        reveal_strlit("3");
        reveal_strlit("4");
        reveal_strlit("5");
        reveal_strlit("6");
        reveal_strlit("7");
        reveal_strlit("8");
        reveal_strlit("9");
    }
    if n == 0 {
        let zero = String::from_str("0");
        proof {
            assert(zero@ =~= seq!['0']);
        }
        return zero;
    }

    // Collect the digits, least significant first.
    let mut digit_strs: Vec<&str> = Vec::new();
    let mut rest = n;
    while rest > 0
        invariant
            0 <= rest <= n,
            spec_decimal_digits(rest as int) + rev_concat(digit_strs@) == spec_decimal_digits(
                n as int,
            ),
        decreases rest,
    {
        let digit_str: &'static str = match rest % 10 {
            0 => "0",
            1 => "1",
            2 => "2",
            3 => "3",
            4 => "4",
            5 => "5",
            6 => "6",
            7 => "7",
            8 => "8",
            _ => "9",
        };
        proof {
            reveal_strlit("0");
            reveal_strlit("1");
            reveal_strlit("2");
            reveal_strlit("3");
            reveal_strlit("4");
            reveal_strlit("5");
            reveal_strlit("6");
            reveal_strlit("7");
            reveal_strlit("8");
            reveal_strlit("9");
            assert(digit_str@ =~= seq![digit_char(rest as int % 10)]);
            assert(digit_strs@.push(digit_str).drop_last() =~= digit_strs@);
            assert(spec_decimal_digits(rest as int / 10) + (digit_str@ + rev_concat(digit_strs@))
                =~= spec_decimal_digits(rest as int) + rev_concat(digit_strs@));
        }
        digit_strs.push(digit_str);
        rest = rest / 10;
    }

    // Write them out, most significant first.
    let mut text = String::new();
    let mut i: usize = digit_strs.len();
    proof {
        assert(digit_strs@.take(i as int) =~= digit_strs@);
        assert(text@ + rev_concat(digit_strs@) =~= rev_concat(digit_strs@));
    }
    while i > 0
        invariant
            i <= digit_strs@.len(),
            text@ + rev_concat(digit_strs@.take(i as int)) == rev_concat(digit_strs@),
        decreases i,
    {
        i = i - 1;
        proof {
            assert(digit_strs@.take(i + 1).last() == digit_strs@[i as int]);
            assert(digit_strs@.take(i + 1).drop_last() =~= digit_strs@.take(i as int));
            assert((text@ + digit_strs@[i as int]@) + rev_concat(digit_strs@.take(i as int))
                =~= text@ + rev_concat(digit_strs@.take(i + 1)));
        }
        text.append(digit_strs[i]);
    }
    proof {
        assert(digit_strs@.take(digit_strs@.len() as int) =~= digit_strs@);
        assert(text@ + rev_concat(digit_strs@.take(0)) =~= text@);
        assert(spec_decimal_digits(0) + rev_concat(digit_strs@) =~= rev_concat(digit_strs@));
        assert(spec_decimal_digits(n as int).len() > 0) by {
            lemma_decimal_digits_len(n as int);
        }
    }
    text
}

proof fn lemma_decimal_digits_len(n: int)
    requires
        n > 0,
    ensures
        spec_decimal_digits(n).len() >= 1,
    decreases n,
{
}

/// A run of spaces.
pub open spec fn spec_spaces(n: int) -> Seq<char> {
    Seq::new(if n >= 0 {
        n as nat
    } else {
        0
    }, |i: int| ' ')
}

/// A string of `n` spaces.
fn spaces_string(n: usize) -> (r: String)
    ensures
        r@ == spec_spaces(n as int),
{
    proof {
        reveal_strlit(" ");
    }
    let mut text = String::new();
    let mut i: usize = 0;
    while i < n
        invariant
            i <= n,
            text@ == spec_spaces(i as int),
        decreases n - i,
    {
        text.append(" ");
        proof {
            reveal_strlit(" ");
            assert(text@ =~= spec_spaces(i + 1));
        }
        i = i + 1;
    }
    text
}

/// The label a severity renders as.
pub open spec fn spec_severity_label(severity: Severity) -> Seq<char> {
    match severity {
        Severity::FatalError => "fatal error"@,
        Severity::Error => "error"@,
        Severity::Warning => "warning"@,
        Severity::SuggestedFix => "suggested fix"@,
    }
}

/// The color a severity renders in.
pub open spec fn spec_severity_color(severity: Severity) -> SpanColor {
    match severity {
        Severity::FatalError => SpanColor::Red,
        Severity::Error => SpanColor::Red,
        Severity::Warning => SpanColor::Yellow,
        Severity::SuggestedFix => SpanColor::Green,
    }
}

/// The color used for text of the given severity, bold or not.
fn set_color_for_severity(severity: Severity) -> (r: SpanColor)
    ensures
        r == spec_severity_color(severity),
{
    match severity {
        Severity::FatalError | Severity::Error => SpanColor::Red,
        Severity::Warning => SpanColor::Yellow,
        Severity::SuggestedFix => SpanColor::Green,
    }
}


/// Every grapheme between `off` and the next line break (or the end of the
/// data) can be read.
pub open spec fn line_walk_ok(data: Seq<u8>, off: int) -> bool
    decreases data.len() - off,
{
    if !(0 <= off < data.len()) || data[off] == 10u8 || data[off] == 13u8 {
        true
    } else {
        cluster_readable(data, off) && ({
            let advance = crate::sourcing::reader::spec_grapheme_advance(data, off);
            let next = if advance > off {
                advance
            } else {
                off + 1
            };
            let bounded = if next > data.len() {
                data.len() as int
            } else {
                next
            };
            line_walk_ok(data, bounded)
        })
    }
}

/// Every line from `line` to `last` that exists in the source can be walked
/// grapheme by grapheme; a line past the end stops the walk early, and line
/// numbers outside 1 to the largest line number are not renderable.
pub open spec fn lines_renderable(data: Seq<u8>, line: int, last: int) -> bool
    decreases last + 1 - line,
{
    if line > last {
        true
    } else if line < 1 || line > u32::MAX {
        false
    } else {
        match crate::sourcing::domain::spec_line_byte_offset(data, line as u32) {
            Ok(Some(start)) => line_walk_ok(data, start as int) && lines_renderable(
                data,
                line + 1,
                last,
            ),
            Ok(None) => true,
            Err(_) => false,
        }
    }
}

/// The report's covered lines, if it covers any, can all be walked, so
/// rendering it cannot fail.
pub open spec fn report_renderable(report: Report) -> bool {
    match (report.spec_first_line_number(), report.spec_last_line_number()) {
        (Some(first), Some(last)) => match report.spec_source() {
            Some(source) => lines_renderable(source.spec_data(), first as int, last as int),
            None => true,
        },
        _ => true,
    }
}

/// Which part of a context line a grapheme falls into, relative to the
/// report's range.
#[derive(Clone, Copy)]
pub enum ContextLinePart {
    Before,
    Within,
    After,
}

/// Where a grapheme at `current` falls relative to a range: before its
/// first location, within it, or after its last location; a missing first
/// bound opens the range and a missing last bound closes it, and with no
/// bounds at all everything is before.
pub open spec fn spec_context_line_part(
    current: int,
    first: Option<int>,
    last: Option<int>,
) -> ContextLinePart {
    match (first, last) {
        (Some(f), Some(l)) => if current < f {
            ContextLinePart::Before
        } else if current <= l {
            ContextLinePart::Within
        } else {
            ContextLinePart::After
        },
        (Some(f), None) => if current < f {
            ContextLinePart::Before
        } else {
            ContextLinePart::Within
        },
        (None, Some(l)) => if current < l {
            ContextLinePart::Within
        } else {
            ContextLinePart::After
        },
        (None, None) => ContextLinePart::Before,
    }
}

/// Decide which part of a context line the current location falls into.
pub fn get_context_line_part(
    current_location: &SourceLocation,
    first_location: &Option<&SourceLocation>,
    last_location: &Option<&SourceLocation>,
) -> (r: ContextLinePart)
    ensures
        r == spec_context_line_part(
            current_location.byte_offset as int,
            match *first_location {
                Some(f) => Some(f.byte_offset as int),
                None => None,
            },
            match *last_location {
                Some(l) => Some(l.byte_offset as int),
                None => None,
            },
        ),
{
    match (first_location, last_location) {
        (Some(first_location), Some(last_location)) => {
            if current_location.byte_offset < first_location.byte_offset {
                ContextLinePart::Before
            } else if current_location.byte_offset <= last_location.byte_offset {
                ContextLinePart::Within
            } else {
                ContextLinePart::After
            }
        },
        (Some(first_location), None) => {
            if current_location.byte_offset < first_location.byte_offset {
                ContextLinePart::Before
            } else {
                ContextLinePart::Within
            }
        },
        (None, Some(last_location)) => {
            if current_location.byte_offset < last_location.byte_offset {
                ContextLinePart::Within
            } else {
                ContextLinePart::After
            }
        },
        (None, None) => ContextLinePart::Before,
    }
}

/// One context line split around the report's range: the text and grapheme
/// count before the range, the text and count within it, and the text after
/// it.
pub struct SplitContextLines {
    pub before_range: String,
    pub grapheme_clusters_before_range: usize,
    pub within_range: String,
    pub grapheme_clusters_within_range: usize,
    pub after_range: String,
}

impl SplitContextLines {
    /// Append one grapheme's text to the part it falls into, counting it.
    pub fn add_grapheme_cluster(&mut self, part: ContextLinePart, grapheme: &str)
        requires
            old(self).grapheme_clusters_before_range < usize::MAX,
            old(self).grapheme_clusters_within_range < usize::MAX,
        ensures
            part is Before ==> final(self).before_range@ == old(self).before_range@ + grapheme@
                && final(self).grapheme_clusters_before_range == old(self).grapheme_clusters_before_range + 1 && final(self).within_range == old(self).within_range && final(self).grapheme_clusters_within_range == old(self).grapheme_clusters_within_range && final(self).after_range == old(self).after_range,
            part is Within ==> final(self).within_range@ == old(self).within_range@ + grapheme@
                && final(self).grapheme_clusters_within_range == old(self).grapheme_clusters_within_range + 1 && final(self).before_range == old(self).before_range && final(self).grapheme_clusters_before_range == old(self).grapheme_clusters_before_range && final(self).after_range == old(self).after_range,
            part is After ==> final(self).after_range@ == old(self).after_range@ + grapheme@
                && final(self).before_range == old(self).before_range && final(self).grapheme_clusters_before_range == old(self).grapheme_clusters_before_range && final(self).within_range == old(self).within_range && final(self).grapheme_clusters_within_range == old(self).grapheme_clusters_within_range,
    {
        match part {
            ContextLinePart::Before => {
                self.before_range.append(grapheme);
                self.grapheme_clusters_before_range = self.grapheme_clusters_before_range + 1;
            },
            ContextLinePart::Within => {
                self.within_range.append(grapheme);
                self.grapheme_clusters_within_range = self.grapheme_clusters_within_range + 1;
            },
            ContextLinePart::After => {
                self.after_range.append(grapheme);
            },
        }
    }
}


/// The view of one split context line: its three texts and its two counts.
pub open spec fn split_view(l: SplitContextLines) -> (Seq<char>, int, Seq<char>, int, Seq<char>) {
    (
        l.before_range@,
        l.grapheme_clusters_before_range as int,
        l.within_range@,
        l.grapheme_clusters_within_range as int,
        l.after_range@,
    )
}

/// Two split views combined: the texts concatenated part by part, and the
/// counts added.
pub open spec fn split_combine(
    a: (Seq<char>, int, Seq<char>, int, Seq<char>),
    b: (Seq<char>, int, Seq<char>, int, Seq<char>),
) -> (Seq<char>, int, Seq<char>, int, Seq<char>) {
    (a.0 + b.0, a.1 + b.1, a.2 + b.2, a.3 + b.3, a.4 + b.4)
}

/// What one grapheme at `off` contributes to its part of a context line: a
/// tab becomes four spaces counted four times, anything else becomes its own
/// text counted once.
pub open spec fn spec_grapheme_contribution(data: Seq<u8>, off: int) -> (Seq<char>, int) {
    if data[off] == 9u8 {
        (spec_spaces(TAB_WIDTH as int), TAB_WIDTH as int)
    } else {
        (
            crate::sourcing::segmentation::utf8_chars(
                data.subrange(
                    off,
                    crate::sourcing::segmentation::next_grapheme_boundary(data, off),
                ),
            ),
            1,
        )
    }
}

/// One context line starting at `off`, split around the byte range from
/// `first` to `last`: the walk stops at the end of the data or at a line
/// break, and each grapheme lands in the part its byte offset falls into.
pub open spec fn spec_context_split(
    data: Seq<u8>,
    off: int,
    first: Option<int>,
    last: Option<int>,
) -> (Seq<char>, int, Seq<char>, int, Seq<char>)
    decreases data.len() - off,
{
    if !(0 <= off < data.len()) || data[off] == 10u8 || data[off] == 13u8 {
        (Seq::empty(), 0, Seq::empty(), 0, Seq::empty())
    } else {
        let contribution = spec_grapheme_contribution(data, off);
        let advance = crate::sourcing::reader::spec_grapheme_advance(data, off);
        let next = if advance > off {
            advance
        } else {
            off + 1
        };
        let bounded = if next > data.len() {
            data.len() as int
        } else {
            next
        };
        let rest = spec_context_split(data, bounded, first, last);
        match spec_context_line_part(off, first, last) {
            ContextLinePart::Before => split_combine(
                (contribution.0, contribution.1, Seq::empty(), 0, Seq::empty()),
                rest,
            ),
            ContextLinePart::Within => split_combine(
                (Seq::empty(), 0, contribution.0, contribution.1, Seq::empty()),
                rest,
            ),
            ContextLinePart::After => split_combine(
                (Seq::empty(), 0, Seq::empty(), 0, contribution.0),
                rest,
            ),
        }
    }
}

/// The byte offsets a report's range covers, where it names locations.
pub open spec fn spec_report_range_offsets(report: Report) -> (Option<int>, Option<int>) {
    (
        match report.spec_first_location() {
            Some(l) => Some(l.byte_offset as int),
            None => None,
        },
        match report.spec_last_location() {
            Some(l) => Some(l.byte_offset as int),
            None => None,
        },
    )
}


proof fn lemma_split_combine_assoc(
    a: (Seq<char>, int, Seq<char>, int, Seq<char>),
    b: (Seq<char>, int, Seq<char>, int, Seq<char>),
    c: (Seq<char>, int, Seq<char>, int, Seq<char>),
)
    ensures
        split_combine(split_combine(a, b), c) == split_combine(a, split_combine(b, c)),
{
    assert(split_combine(split_combine(a, b), c).0 =~= split_combine(a, split_combine(b, c)).0);
    assert(split_combine(split_combine(a, b), c).2 =~= split_combine(a, split_combine(b, c)).2);
    assert(split_combine(split_combine(a, b), c).4 =~= split_combine(a, split_combine(b, c)).4);
}


/// Whether the reader stands on a line-break byte.
fn at_line_break(reader: &SourceReader) -> (r: bool)
    requires
        reader.wf(),
    ensures
        r == (reader.spec_location().byte_offset < reader.spec_data().len() && (
        reader.spec_data()[reader.spec_location().byte_offset as int] == 10u8
            || reader.spec_data()[reader.spec_location().byte_offset as int] == 13u8)),
{
    let location = reader.current_location();
    let data = location.source.data();
    location.byte_offset < data.len() && (data[location.byte_offset] == 10u8
        || data[location.byte_offset] == 13u8)
}

/// Walk one source line and split it around the report's range, expanding
/// tabs to spaces; yields nothing when the report names no source or the
/// line does not exist.
pub fn get_context_line_by_number<'sc>(report: &Report<'sc>, line_number: LineNumber) -> (r:
    Result<Option<SplitContextLines>, ErrorSource>)
    requires
        report.spec_source() matches Some(s) ==> s.wf(),
    ensures
        report.spec_source() is None ==> (r matches Ok(o) && o is None),
        (report.spec_source() matches Some(source)
            && crate::sourcing::domain::spec_line_byte_offset(source.spec_data(), line_number)
            == Ok::<Option<usize>, ErrorSource>(None)) ==> (r matches Ok(o) && o is None),
        (report.spec_source() matches Some(source)
            && crate::sourcing::domain::spec_line_byte_offset(source.spec_data(), line_number)
            is Err) ==> r is Err,
        (report.spec_source() matches Some(source)
            && (crate::sourcing::domain::spec_line_byte_offset(source.spec_data(), line_number)
            matches Ok(oo) && oo matches Some(start) && line_walk_ok(
            source.spec_data(),
            start as int,
        ))) ==> r is Ok,
        ({
            let range = spec_report_range_offsets(*report);
            report.spec_source() matches Some(source)
                ==> (crate::sourcing::domain::spec_line_byte_offset(
                source.spec_data(),
                line_number,
            ) matches Ok(oo) ==> (oo matches Some(start) ==> (r matches Ok(o) ==> (o matches Some(
                l,
            ) && split_view(l) == spec_context_split(
                source.spec_data(),
                start as int,
                range.0,
                range.1,
            )))))
        }),
{
    let source = match report.source() {
        Some(source) => source,
        None => {
            return Ok(None);
        },
    };

    let location = match source.get_first_location_of_line(line_number) {
        Err(e) => {
            return Err(e);
        },
        Ok(None) => {
            return Ok(None);
        },
        Ok(Some(location)) => location,
    };

    let mut reader = SourceReader::new(location);

    let mut result = SplitContextLines {
        before_range: String::new(),
        grapheme_clusters_before_range: 0,
        within_range: String::new(),
        grapheme_clusters_within_range: 0,
        after_range: String::new(),
    };

    let ghost start_offset = location.byte_offset as int;
    let ghost data_view = location.source.spec_data();
    let ghost range = spec_report_range_offsets(*report);
    let ghost total = spec_context_split(data_view, start_offset, range.0, range.1);

    while reader.is_more() && !at_line_break(&reader)
        invariant
            reader.wf(),
            reader.spec_location().byte_offset >= start_offset,
            start_offset >= 0,
            result.grapheme_clusters_before_range + result.grapheme_clusters_within_range <= 4 * (
            reader.spec_location().byte_offset - start_offset),
            reader.spec_data() == data_view,
            reader.spec_data().len() <= crate::source::domain::MAX_SOURCE_LEN,
            report.spec_source() is Some,
            report.spec_source() matches Some(s) ==> s.wf(),
            report.spec_source() matches Some(s) ==> s.spec_data() == data_view,
            report.spec_source() matches Some(s) ==> (
            crate::sourcing::domain::spec_line_byte_offset(s.spec_data(), line_number) matches Ok(
                oo,
            ) && (oo matches Some(so) && so as int == start_offset)),
            range == spec_report_range_offsets(*report),
            total == spec_context_split(data_view, start_offset, range.0, range.1),
            line_walk_ok(data_view, start_offset) ==> line_walk_ok(
                data_view,
                reader.spec_location().byte_offset as int,
            ),
            split_combine(
                split_view(result),
                spec_context_split(
                    data_view,
                    reader.spec_location().byte_offset as int,
                    range.0,
                    range.1,
                ),
            ) == total,
        decreases reader.spec_data().len() - reader.spec_location().byte_offset,
    {
        let data = reader.current_location().source.data();
        let at = reader.current_location().byte_offset;

        let grapheme_cluster = match reader.peek_next_grapheme_cluster() {
            Err(e) => {
                // A walkable line holds no unreadable grapheme, so a peek on
                // it cannot fail.
                proof {
                    if line_walk_ok(data_view, start_offset) {
                        assert(line_walk_ok(data_view, at as int));
                        assert(cluster_readable(data_view, at as int));
                        assert(false);
                    }
                }
                return Err(e);
            },
            Ok(grapheme_cluster) => grapheme_cluster,
        };

        let current = reader.current_location();
        let part = get_context_line_part(&current, &report.first_location(), &report.last_location());

        let ghost view_before_add = split_view(result);
        let ghost contribution = spec_grapheme_contribution(data_view, at as int);
        let ghost head = (match part {
            ContextLinePart::Before => (
                contribution.0,
                contribution.1,
                Seq::<char>::empty(),
                0int,
                Seq::<char>::empty(),
            ),
            ContextLinePart::Within => (
                Seq::<char>::empty(),
                0int,
                contribution.0,
                contribution.1,
                Seq::<char>::empty(),
            ),
            ContextLinePart::After => (
                Seq::<char>::empty(),
                0int,
                Seq::<char>::empty(),
                0int,
                contribution.0,
            ),
        });

        let ghost sum_before = result.grapheme_clusters_before_range
            + result.grapheme_clusters_within_range;
        if data[at] == 9u8 {
            let mut k: usize = 0;
            while k < TAB_WIDTH
                invariant
                    k <= TAB_WIDTH,
                    reader.wf(),
                    reader.spec_location().byte_offset >= start_offset,
                    start_offset >= 0,
                    reader.spec_data().len() <= crate::source::domain::MAX_SOURCE_LEN,
                    sum_before <= 4 * (reader.spec_location().byte_offset - start_offset),
                    result.grapheme_clusters_before_range
                        + result.grapheme_clusters_within_range <= sum_before + k,
                    split_view(result) == (match part {
                        ContextLinePart::Before => split_combine(
                            view_before_add,
                            (
                                spec_spaces(k as int),
                                k as int,
                                Seq::<char>::empty(),
                                0int,
                                Seq::<char>::empty(),
                            ),
                        ),
                        ContextLinePart::Within => split_combine(
                            view_before_add,
                            (
                                Seq::<char>::empty(),
                                0int,
                                spec_spaces(k as int),
                                k as int,
                                Seq::<char>::empty(),
                            ),
                        ),
                        ContextLinePart::After => split_combine(
                            view_before_add,
                            (
                                Seq::<char>::empty(),
                                0int,
                                Seq::<char>::empty(),
                                0int,
                                spec_spaces(k as int),
                            ),
                        ),
                    }),
                decreases TAB_WIDTH - k,
            {
                result.add_grapheme_cluster(part, " ");
                proof {
                    reveal_strlit(" ");
                    assert(spec_spaces(k as int) + " "@ =~= spec_spaces(k + 1));
                    assert(view_before_add.0 + Seq::<char>::empty() =~= view_before_add.0);
                    assert(view_before_add.2 + Seq::<char>::empty() =~= view_before_add.2);
                    assert(view_before_add.4 + Seq::<char>::empty() =~= view_before_add.4);
                    assert(view_before_add.0 + (spec_spaces(k as int) + " "@) =~= (
                    view_before_add.0 + spec_spaces(k as int)) + " "@);
                    assert(view_before_add.2 + (spec_spaces(k as int) + " "@) =~= (
                    view_before_add.2 + spec_spaces(k as int)) + " "@);
                    assert(view_before_add.4 + (spec_spaces(k as int) + " "@) =~= (
                    view_before_add.4 + spec_spaces(k as int)) + " "@);
                }
                k = k + 1;
            }
            proof {
                assert(spec_spaces(TAB_WIDTH as int) =~= spec_spaces(4));
                assert(split_view(result) == split_combine(view_before_add, head));
            }
        } else {
            result.add_grapheme_cluster(part, grapheme_cluster.as_str());
            proof {
                assert(grapheme_cluster@ == contribution.0);
                assert(view_before_add.0 + Seq::<char>::empty() =~= view_before_add.0);
                assert(view_before_add.2 + Seq::<char>::empty() =~= view_before_add.2);
                assert(view_before_add.4 + Seq::<char>::empty() =~= view_before_add.4);
                assert(split_view(result) == split_combine(view_before_add, head));
            }
        }

        match reader.read_next_grapheme_cluster() {
            Err(e) => {
                return Err(e);
            },
            Ok(_) => {},
        }

        proof {
            let rest = spec_context_split(
                data_view,
                reader.spec_location().byte_offset as int,
                range.0,
                range.1,
            );
            assert(spec_context_split(data_view, at as int, range.0, range.1) == split_combine(
                head,
                rest,
            ));
            lemma_split_combine_assoc(view_before_add, head, rest);
        }
    }

    proof {
        let here = reader.spec_location().byte_offset as int;
        if here < data_view.len() {
            assert(data_view[here] == 10u8 || data_view[here] == 13u8);
        }
        assert(spec_context_split(data_view, here, range.0, range.1) == (
        Seq::<char>::empty(),
        0int,
        Seq::<char>::empty(),
        0int,
        Seq::<char>::empty(),
        ));
        assert(split_view(result).0 + Seq::<char>::empty() =~= split_view(result).0);
        assert(split_view(result).2 + Seq::<char>::empty() =~= split_view(result).2);
        assert(split_view(result).4 + Seq::<char>::empty() =~= split_view(result).4);
        assert(split_view(result) == total);
    }

    Ok(Some(result))
}


/// The split views of the lines from `line` to `last`, or nothing when any
/// of them does not exist in the source.
pub open spec fn spec_lines_from(
    data: Seq<u8>,
    line: int,
    last: int,
    first: Option<int>,
    last_off: Option<int>,
) -> Option<Seq<(Seq<char>, int, Seq<char>, int, Seq<char>)>>
    decreases last + 1 - line,
{
    if line > last {
        Some(Seq::empty())
    } else if line < 1 || line > u32::MAX {
        None
    } else {
        match crate::sourcing::domain::spec_line_byte_offset(data, line as u32) {
            Ok(Some(start)) => match spec_lines_from(data, line + 1, last, first, last_off) {
                Some(rest) => Some(
                    seq![spec_context_split(data, start as int, first, last_off)] + rest,
                ),
                None => None,
            },
            _ => None,
        }
    }
}

/// The split views of all the context lines a report covers, or nothing
/// when it covers none or one of them does not exist.
pub open spec fn spec_report_context_lines(report: Report) -> Option<
    Seq<(Seq<char>, int, Seq<char>, int, Seq<char>)>,
> {
    let range = spec_report_range_offsets(report);
    match (report.spec_first_line_number(), report.spec_last_line_number()) {
        (Some(first_line), Some(last_line)) => match report.spec_source() {
            Some(source) => spec_lines_from(
                source.spec_data(),
                first_line as int,
                last_line as int,
                range.0,
                range.1,
            ),
            None => None,
        },
        _ => None,
    }
}

/// Collect the context lines a report covers; yields nothing when the
/// report names no line range or any covered line does not exist.
pub fn get_context_lines_for_range<'sc>(report: &Report<'sc>) -> (r: Result<
    Option<Vec<SplitContextLines>>,
    ErrorSource,
>)
    requires
        report.spec_source() matches Some(s) ==> s.wf(),
    ensures
        r matches Ok(o) ==> (match spec_report_context_lines(*report) {
            Some(views) => o matches Some(ls) && split_views(ls@) == views,
            None => o is None,
        }),
        report.spec_first_line_number() is None || report.spec_last_line_number() is None ==> r
            is Ok,
        ({
            let range_ok = match (
                report.spec_first_line_number(),
                report.spec_last_line_number(),
            ) {
                (Some(first), Some(last)) => match report.spec_source() {
                    Some(source) => lines_renderable(
                        source.spec_data(),
                        first as int,
                        last as int,
                    ),
                    None => true,
                },
                _ => true,
            };
            range_ok ==> r is Ok
        }),
{
    let first_line_number = match report.first_line_number() {
        Some(line_number) => line_number,
        None => {
            return Ok(None);
        },
    };
    let last_line_number = match report.last_line_number() {
        Some(line_number) => line_number,
        None => {
            return Ok(None);
        },
    };

    let ghost data_view = report.spec_source()->0.spec_data();
    let ghost range = spec_report_range_offsets(*report);
    let ghost whole = spec_lines_from(
        data_view,
        first_line_number as int,
        last_line_number as int,
        range.0,
        range.1,
    );

    let mut lines: Vec<SplitContextLines> = Vec::new();
    let mut line_number = first_line_number;
    let ghost next_line: int = first_line_number as int;
    while line_number <= last_line_number
        invariant_except_break
            next_line == line_number as int,
        invariant
            report.spec_source() is Some,
            report.spec_source() matches Some(s) ==> s.wf(),
            report.spec_first_line_number() == Some(first_line_number),
            report.spec_last_line_number() == Some(last_line_number),
            line_number >= first_line_number,
            data_view == report.spec_source()->0.spec_data(),
            range == spec_report_range_offsets(*report),
            whole == spec_lines_from(
                data_view,
                first_line_number as int,
                last_line_number as int,
                range.0,
                range.1,
            ),
            lines_renderable(data_view, first_line_number as int, last_line_number as int)
                ==> lines_renderable(data_view, next_line, last_line_number as int),
            next_line >= first_line_number as int,
            (match spec_lines_from(
                data_view,
                next_line,
                last_line_number as int,
                range.0,
                range.1,
            ) {
                Some(rest) => whole == Some(split_views(lines@) + rest),
                None => whole is None,
            }),
        ensures
            next_line > last_line_number as int,
        decreases last_line_number + 1 - line_number,
    {
        let ghost previous = lines@;
        match get_context_line_by_number(report, line_number) {
            Err(e) => {
                return Err(e);
            },
            Ok(None) => {
                proof {
                    assert(spec_lines_from(
                        data_view,
                        next_line,
                        last_line_number as int,
                        range.0,
                        range.1,
                    ) is None);
                    assert(spec_report_context_lines(*report) == whole);
                }
                return Ok(None);
            },
            Ok(Some(line)) => {
                let ghost new_view = split_view(line);
                lines.push(line);
                proof {
                    assert(split_views(lines@) =~= split_views(previous).push(new_view));
                    let rest_now = spec_lines_from(
                        data_view,
                        next_line + 1,
                        last_line_number as int,
                        range.0,
                        range.1,
                    );
                    match rest_now {
                        Some(rest) => {
                            assert(split_views(previous).push(new_view) + rest =~= split_views(
                                previous,
                            ) + (seq![new_view] + rest));
                        },
                        None => {},
                    }
                }
            },
        }
        if line_number == u32::MAX {
            proof {
                next_line = next_line + 1;
            }
            break;
        }
        line_number = line_number + 1;
        proof {
            next_line = next_line + 1;
        }
    }
    proof {
        assert(next_line > last_line_number as int);
        assert(spec_lines_from(
            data_view,
            next_line,
            last_line_number as int,
            range.0,
            range.1,
        ) == Some(Seq::<(Seq<char>, int, Seq<char>, int, Seq<char>)>::empty()));
        assert(split_views(lines@) + Seq::<(Seq<char>, int, Seq<char>, int, Seq<char>)>::empty()
            =~= split_views(lines@));
    }

    Ok(Some(lines))
}

/// The position just past the spaces at the start of the text, scanning
/// from `i`.
pub open spec fn spec_leading_spaces(s: Seq<char>, i: int) -> int
    decreases s.len() - i,
{
    if 0 <= i < s.len() && s[i] == ' ' {
        spec_leading_spaces(s, i + 1)
    } else {
        i
    }
}

/// How many spaces stand at the start of the text.
pub fn count_spaces_at_start(value: &str) -> (r: usize)
    ensures
        r == spec_leading_spaces(value@, 0),
        r <= value@.len(),
{
    proof {
        lemma_leading_spaces_bounds(value@, 0);
    }
    let len = value.unicode_len();
    let mut i: usize = 0;
    while i < len && value.get_char(i) == ' '
        invariant
            i <= len,
            len == value@.len(),
            spec_leading_spaces(value@, 0) == spec_leading_spaces(value@, i as int),
        decreases len - i,
    {
        i = i + 1;
    }
    i
}

proof fn lemma_leading_spaces_bounds(s: Seq<char>, i: int)
    requires
        0 <= i <= s.len(),
    ensures
        i <= spec_leading_spaces(s, i) <= s.len(),
    decreases s.len() - i,
{
    if i < s.len() && s[i] == ' ' {
        lemma_leading_spaces_bounds(s, i + 1);
    }
}


/// The smallest count of leading spaces over the lines' before-range texts.
pub open spec fn spec_min_leading(views: Seq<(Seq<char>, int, Seq<char>, int, Seq<char>)>) -> Option<
    int,
>
    decreases views.len(),
{
    if views.len() == 0 {
        None
    } else {
        let mine = spec_leading_spaces(views.last().0, 0);
        match spec_min_leading(views.drop_last()) {
            Some(rest) => Some(
                if mine < rest {
                    mine
                } else {
                    rest
                },
            ),
            None => Some(mine),
        }
    }
}

/// One line view with `strip` leading characters removed from its
/// before-range text and subtracted from its before-range count.
pub open spec fn spec_trim_one(
    v: (Seq<char>, int, Seq<char>, int, Seq<char>),
    strip: int,
) -> (Seq<char>, int, Seq<char>, int, Seq<char>) {
    let take = if strip < v.0.len() {
        strip
    } else {
        v.0.len() as int
    };
    (
        v.0.skip(take),
        if v.1 >= take {
            v.1 - take
        } else {
            0
        },
        v.2,
        v.3,
        v.4,
    )
}

/// The lines with their shared indentation stripped: the smallest count of
/// leading spaces over all before-range texts is removed from each.
pub open spec fn spec_trim(views: Seq<(Seq<char>, int, Seq<char>, int, Seq<char>)>) -> Seq<
    (Seq<char>, int, Seq<char>, int, Seq<char>),
> {
    match spec_min_leading(views) {
        Some(strip) => if strip > 0 {
            views.map_values(|v: (Seq<char>, int, Seq<char>, int, Seq<char>)| spec_trim_one(
                v,
                strip,
            ))
        } else {
            views
        },
        None => views,
    }
}

/// The views of a list of split lines.
pub open spec fn split_views(lines: Seq<SplitContextLines>) -> Seq<
    (Seq<char>, int, Seq<char>, int, Seq<char>),
> {
    lines.map_values(|l: SplitContextLines| split_view(l))
}

/// Strip the indentation shared by all covered lines, adjusting the counts
/// of graphemes before the range.
pub fn trim_context_lines(lines: Vec<SplitContextLines>) -> (r: Vec<SplitContextLines>)
    ensures
        r@.len() == lines@.len(),
        split_views(r@) == spec_trim(split_views(lines@)),
{
    let mut min_spaces_before: Option<usize> = None;

    let mut i: usize = 0;
    while i < lines.len()
        invariant
            i <= lines@.len(),
            match min_spaces_before {
                Some(m) => spec_min_leading(split_views(lines@.take(i as int))) == Some(m as int),
                None => spec_min_leading(split_views(lines@.take(i as int))) is None,
            },
        decreases lines@.len() - i,
    {
        proof {
            assert(split_views(lines@.take(i + 1)).drop_last() =~= split_views(
                lines@.take(i as int),
            ));
            assert(split_views(lines@.take(i + 1)).last() == split_view(lines@[i as int]));
        }
        let spaces_before = count_spaces_at_start(lines[i].before_range.as_str());
        min_spaces_before = match min_spaces_before {
            Some(current_min) => if spaces_before < current_min {
                Some(spaces_before)
            } else {
                Some(current_min)
            },
            None => Some(spaces_before),
        };
        i = i + 1;
    }
    proof {
        assert(lines@.take(lines@.len() as int) =~= lines@);
    }

    let strip = match min_spaces_before {
        Some(strip) => strip,
        None => {
            return lines;
        },
    };
    if strip == 0 {
        return lines;
    }

    let mut trimmed: Vec<SplitContextLines> = Vec::new();
    let mut i: usize = 0;
    while i < lines.len()
        invariant
            i <= lines@.len(),
            trimmed@.len() == i,
            spec_min_leading(split_views(lines@)) == Some(strip as int),
            strip > 0,
            forall|j: int|
                0 <= j < i ==> #[trigger] split_views(trimmed@)[j] == spec_trim_one(
                    split_view(lines@[j]),
                    strip as int,
                ),
        decreases lines@.len() - i,
    {
        let line = &lines[i];
        let text = line.before_range.as_str();
        let len = text.unicode_len();
        let take_from = if strip < len {
            strip
        } else {
            len
        };
        let stripped = String::from_str(text.substring_char(take_from, len));
        proof {
            assert(stripped@ =~= line.before_range@.skip(take_from as int));
        }
        let count = line.grapheme_clusters_before_range;
        let new_count = if count >= take_from {
            count - take_from
        } else {
            0
        };
        let trimmed_line = SplitContextLines {
            before_range: stripped,
            grapheme_clusters_before_range: new_count,
            within_range: String::from_str(line.within_range.as_str()),
            grapheme_clusters_within_range: line.grapheme_clusters_within_range,
            after_range: String::from_str(line.after_range.as_str()),
        };
        let ghost new_view = split_view(trimmed_line);
        let ghost previous = trimmed@;
        trimmed.push(trimmed_line);
        proof {
            assert(new_view == spec_trim_one(split_view(lines@[i as int]), strip as int));
            assert(split_views(trimmed@) =~= split_views(previous).push(new_view));
        }
        i = i + 1;
    }
    proof {
        assert(split_views(trimmed@) =~= spec_trim(split_views(lines@)));
    }
    trimmed
}

/// The decimal spelling of an optional count followed by `:`, as rendered
/// inside a location prefix.
pub open spec fn spec_number_colon(n: Option<LineNumber>) -> Seq<char> {
    match n {
        Some(v) => spec_decimal(v as int) + ":"@,
        None => Seq::empty(),
    }
}

/// The text of a report's location prefix: the source path, then the first
/// line and column where they are known, each followed by `:`, then one
/// space.
pub open spec fn spec_location_prefix(report: Report) -> Seq<char> {
    match report.spec_source() {
        Some(source) => source.spec_path() + ":"@ + (match report.spec_first_line_number() {
            Some(line) => spec_decimal(line as int) + ":"@ + (
            match report.spec_first_location() {
                Some(location) => spec_decimal(location.column_number as int) + ":"@,
                None => Seq::empty(),
            }),
            None => Seq::empty(),
        }) + " "@,
        None => Seq::empty(),
    }
}

/// Render the location prefix of a report: nothing for a global report, and
/// one cyan `path:line:column: ` span, with the parts that apply, otherwise.
pub fn render_report_location<'sc>(spans: &mut Vec<StyledSpan>, report: &Report<'sc>)
    requires
        report.spec_source() matches Some(s) ==> s.wf(),
    ensures
        report.spec_source() is None ==> final(spans)@ == old(spans)@,
        report.spec_source() is Some ==> spans_view(final(spans)@) == spans_view(old(spans)@)
            + one_span(SpanColor::Cyan, false, false, spec_location_prefix(*report)),
{
    proof {
        reveal_strlit(":");
        reveal_strlit(" ");
    }
    let source = match report.source() {
        Some(source) => source,
        None => {
            return ;
        },
    };

    let mut text = String::from_str(source.path());
    text.append(":");

    match report.first_line_number() {
        Some(line_number) => {
            let line_text = decimal_string(line_number as u64);
            text.append(line_text.as_str());
            text.append(":");
            match report.first_location() {
                Some(location) => {
                    let column_text = decimal_string(location.column_number as u64);
                    text.append(column_text.as_str());
                    text.append(":");
                },
                None => {},
            }
        },
        None => {},
    }

    text.append(" ");
    proof {
        assert(text@ =~= spec_location_prefix(*report));
    }
    emit(spans, SpanColor::Cyan, false, false, text);
}

/// The text of a report's severity label together with its code name, where
/// the code has one.
pub open spec fn spec_severity_and_code(report: Report) -> Seq<char> {
    spec_severity_label(report.spec_severity()) + (match report.spec_code() {
        Some(code) => match code {
            crate::reporting::report::ReportCode::NeedsToBeCreated => Seq::empty(),
            crate::reporting::report::ReportCode::ES001UnexpectedCharacter => " ES001"@,
            crate::reporting::report::ReportCode::ES002NoClosingQuoteForStringOrCharacter => (
            " ES002"@),
        },
        None => Seq::empty(),
    })
}

/// Render the severity label and the code name of a report, colored by its
/// severity.
pub fn render_severity_and_code<'sc>(spans: &mut Vec<StyledSpan>, report: &Report<'sc>)
    ensures
        spans_view(final(spans)@) == spans_view(old(spans)@) + one_span(
            spec_severity_color(report.spec_severity()),
            false,
            false,
            spec_severity_and_code(*report),
        ),
{
    proof {
        reveal_strlit("fatal error");
        reveal_strlit("error");
        reveal_strlit("warning");
        reveal_strlit("suggested fix");
        reveal_strlit(" ");
        reveal_strlit("ES001");
        reveal_strlit("ES002");
        reveal_strlit(" ES001");
        reveal_strlit(" ES002");
    }
    let color = set_color_for_severity(report.severity());

    let label: &'static str = match report.severity() {
        Severity::FatalError => "fatal error",
        Severity::Error => "error",
        Severity::Warning => "warning",
        Severity::SuggestedFix => "suggested fix",
    };
    let mut text = String::from_str(label);

    match report.code() {
        Some(code) => match code.name() {
            Some(name) => {
                text.append(" ");
                text.append(name);
                proof {
                    assert(text@ =~= spec_severity_and_code(*report));
                }
            },
            None => {},
        },
        None => {},
    }
    proof {
        assert(text@ =~= spec_severity_and_code(*report));
    }

    emit(spans, color, false, false, text);
}

/// Render the dimmed ` - ` between a report's label and its message.
pub fn render_message_separator(spans: &mut Vec<StyledSpan>)
    ensures
        spans_view(final(spans)@) == spans_view(old(spans)@) + one_span(
            SpanColor::Default,
            false,
            true,
            " - "@,
        ),
{
    emit(spans, SpanColor::Default, false, true, String::from_str(" - "));
}

/// Render a report's message in bold.
pub fn render_message<'sc>(spans: &mut Vec<StyledSpan>, report: &Report<'sc>)
    ensures
        spans_view(final(spans)@) == spans_view(old(spans)@) + one_span(
            SpanColor::Default,
            true,
            false,
            report.spec_message(),
        ),
{
    emit(spans, SpanColor::Default, true, false, String::from_str(report.message()));
}

/// Render one plain line break.
fn render_newline(spans: &mut Vec<StyledSpan>)
    ensures
        spans_view(final(spans)@) == spans_view(old(spans)@) + plain_span("\n"@),
{
    emit(spans, SpanColor::Default, false, false, String::from_str("\n"));
}

/// The gutter before a context line: the line number right-aligned to the
/// gutter width, or spaces where no number applies, then a divider glyph.
pub open spec fn spec_line_number_gutter(
    line_number: Option<LineNumber>,
    line_number_width: int,
    enable_unicode: bool,
) -> Seq<char> {
    (match line_number {
        Some(n) => {
            let digits = spec_decimal(n as int);
            spec_spaces(line_number_width + REPORT_INDENT - digits.len()) + digits
        },
        None => spec_spaces(line_number_width + REPORT_INDENT),
    }) + (if enable_unicode {
        "\u{2595} "@
    } else {
        " | "@
    })
}

/// Render the dimmed line-number gutter of one context line.
pub fn render_line_number(
    spans: &mut Vec<StyledSpan>,
    line_number: Option<LineNumber>,
    line_number_width: usize,
    enable_unicode: bool,
)
    requires
        line_number_width + REPORT_INDENT < usize::MAX,
    ensures
        spans_view(final(spans)@) == spans_view(old(spans)@) + one_span(
            SpanColor::Default,
            false,
            true,
            spec_line_number_gutter(line_number, line_number_width as int, enable_unicode),
        ),
{
    let gutter_width = line_number_width + REPORT_INDENT;
    let mut text: String;
    match line_number {
        Some(n) => {
            let digits = decimal_string(n as u64);
            let digit_count = digits.as_str().unicode_len();
            let pad = if digit_count < gutter_width {
                gutter_width - digit_count
            } else {
                0
            };
            text = spaces_string(pad);
            text.append(digits.as_str());
            proof {
                if digit_count >= gutter_width {
                    assert(spec_spaces(gutter_width - digits@.len()) =~= Seq::<char>::empty());
                    assert(text@ =~= spec_spaces(gutter_width - digits@.len()) + digits@);
                }
            }
        },
        None => {
            text = spaces_string(gutter_width);
        },
    }
    let glyph = choose_unicode("\u{2595} ", " | ", enable_unicode);
    text.append(glyph);
    emit(spans, SpanColor::Default, false, true, text);
}

/// Render the text row of one context line: the gutter, then the line's
/// text, with the part inside the report's range colored by its severity.
pub fn render_context_line_text<'sc>(
    spans: &mut Vec<StyledSpan>,
    report: &Report<'sc>,
    line_number: Option<LineNumber>,
    line_number_width: usize,
    line: &SplitContextLines,
    enable_unicode: bool,
)
    requires
        line_number_width + REPORT_INDENT < usize::MAX,
    ensures
        spans_view(final(spans)@) == spans_view(old(spans)@) + spec_context_line_text_spans(
            *report,
            line_number,
            line_number_width as int,
            split_view(*line),
            enable_unicode,
        ),
{
    render_line_number(spans, line_number, line_number_width, enable_unicode);

    emit(spans, SpanColor::Default, false, false, String::from_str(line.before_range.as_str()));

    if line.within_range.as_str().unicode_len() != 0 {
        let color = set_color_for_severity(report.severity());
        emit(spans, color, true, false, String::from_str(line.within_range.as_str()));
    }

    emit(spans, SpanColor::Default, false, false, String::from_str(line.after_range.as_str()));

    render_newline(spans);
    proof {
        assert(spans_view(spans@) =~= spans_view(old(spans)@) + spec_context_line_text_spans(
            *report,
            line_number,
            line_number_width as int,
            split_view(*line),
            enable_unicode,
        ));
    }
}

/// The spans of the text row of one context line.
pub open spec fn spec_context_line_text_spans(
    report: Report,
    line_number: Option<LineNumber>,
    line_number_width: int,
    line: (Seq<char>, int, Seq<char>, int, Seq<char>),
    enable_unicode: bool,
) -> Seq<(SpanColor, bool, bool, Seq<char>)> {
    one_span(
        SpanColor::Default,
        false,
        true,
        spec_line_number_gutter(line_number, line_number_width, enable_unicode),
    ) + plain_span(line.0) + (if line.2.len() != 0 {
        one_span(spec_severity_color(report.spec_severity()), true, false, line.2)
    } else {
        Seq::empty()
    }) + plain_span(line.4) + plain_span("\n"@)
}

/// A glyph repeated a number of times.
pub open spec fn spec_repeat(glyph: Seq<char>, n: int) -> Seq<char>
    decreases n,
{
    if n <= 0 {
        Seq::empty()
    } else {
        spec_repeat(glyph, n - 1) + glyph
    }
}

/// A string of `n` copies of a glyph.
fn repeat_string(glyph: &str, n: usize) -> (r: String)
    ensures
        r@ == spec_repeat(glyph@, n as int),
{
    let mut text = String::new();
    let mut i: usize = 0;
    while i < n
        invariant
            i <= n,
            text@ == spec_repeat(glyph@, i as int),
        decreases n - i,
    {
        text.append(glyph);
        i = i + 1;
    }
    text
}

/// Render the underline row of one context line: a numberless gutter,
/// spaces under the part before the range, and emphasis glyphs exactly
/// under the part within it.
pub fn render_context_line_underline<'sc>(
    spans: &mut Vec<StyledSpan>,
    report: &Report<'sc>,
    line_number_width: usize,
    line: &SplitContextLines,
    enable_unicode: bool,
)
    requires
        line_number_width + REPORT_INDENT < usize::MAX,
    ensures
        spans_view(final(spans)@) == spans_view(old(spans)@) + spec_context_line_underline_spans(
            *report,
            line_number_width as int,
            split_view(*line),
            enable_unicode,
        ),
{
    render_line_number(spans, None, line_number_width, enable_unicode);

    let pad = spaces_string(line.grapheme_clusters_before_range);
    emit(spans, SpanColor::Default, false, false, pad);

    let glyph = choose_unicode("\u{2594}", "^", enable_unicode);
    let marks = repeat_string(glyph, line.grapheme_clusters_within_range);
    let color = set_color_for_severity(report.severity());
    emit(spans, color, true, false, marks);

    render_newline(spans);
    proof {
        assert(spans_view(spans@) =~= spans_view(old(spans)@)
            + spec_context_line_underline_spans(
            *report,
            line_number_width as int,
            split_view(*line),
            enable_unicode,
        ));
    }
}

/// The spans of the underline row of one context line.
pub open spec fn spec_context_line_underline_spans(
    report: Report,
    line_number_width: int,
    line: (Seq<char>, int, Seq<char>, int, Seq<char>),
    enable_unicode: bool,
) -> Seq<(SpanColor, bool, bool, Seq<char>)> {
    one_span(
        SpanColor::Default,
        false,
        true,
        spec_line_number_gutter(None, line_number_width, enable_unicode),
    ) + plain_span(spec_spaces(line.1)) + one_span(
        spec_severity_color(report.spec_severity()),
        true,
        false,
        spec_repeat(
            if enable_unicode {
                "\u{2594}"@
            } else {
                "^"@
            },
            line.3,
        ),
    ) + plain_span("\n"@)
}


/// The spans of the rows from `index` on: each line's text row, an
/// underline row where the range is visible in it, numbered upward from the
/// report's first line.
pub open spec fn spec_lines_spans(
    report: Report,
    line_number_width: int,
    enable_unicode: bool,
    views: Seq<(Seq<char>, int, Seq<char>, int, Seq<char>)>,
    index: int,
    first_line: Option<LineNumber>,
) -> Seq<(SpanColor, bool, bool, Seq<char>)>
    decreases views.len() - index,
{
    if !(0 <= index < views.len()) {
        Seq::empty()
    } else {
        let line_number = match first_line {
            Some(f) => if index <= u32::MAX - f {
                Some((f + index) as u32)
            } else {
                None
            },
            None => None,
        };
        spec_context_line_text_spans(report, line_number, line_number_width, views[index], enable_unicode)
            + (if views[index].3 > 0 {
            spec_context_line_underline_spans(
                report,
                line_number_width,
                views[index],
                enable_unicode,
            )
        } else {
            Seq::empty()
        }) + spec_lines_spans(
            report,
            line_number_width,
            enable_unicode,
            views,
            index + 1,
            first_line,
        )
    }
}

/// All the spans a report's context lines render as: its covered lines,
/// trimmed of shared indentation, each with its gutter and underline; a
/// report that covers no renderable lines renders none.
pub open spec fn spec_context_lines_spans(
    report: Report,
    line_number_width: int,
    enable_unicode: bool,
) -> Seq<(SpanColor, bool, bool, Seq<char>)> {
    match spec_report_context_lines(report) {
        None => Seq::empty(),
        Some(views) => spec_lines_spans(
            report,
            line_number_width,
            enable_unicode,
            spec_trim(views),
            0,
            report.spec_first_line_number(),
        ),
    }
}

/// Render the context lines a report covers: each covered source line with
/// its gutter, the range colored, and an underline row beneath lines where
/// the range is visible; shared indentation is stripped first.
pub fn render_context_lines<'sc>(
    spans: &mut Vec<StyledSpan>,
    report: &Report<'sc>,
    line_number_width: usize,
    enable_unicode: bool,
) -> (r: Result<(), ErrorSource>)
    requires
        line_number_width + REPORT_INDENT < usize::MAX,
        report.spec_source() matches Some(s) ==> s.wf(),
    ensures
        r matches Ok(done) ==> spans_view(final(spans)@) == spans_view(old(spans)@)
            + spec_context_lines_spans(*report, line_number_width as int, enable_unicode),
        report_renderable(*report) ==> r is Ok,
{
    let lines = match get_context_lines_for_range(report) {
        Err(e) => {
            return Err(e);
        },
        Ok(None) => {
            proof {
                assert(spans_view(spans@) =~= spans_view(spans@) + Seq::<
                    (SpanColor, bool, bool, Seq<char>),
                >::empty());
            }
            return Ok(());
        },
        Ok(Some(lines)) => lines,
    };

    let lines = trim_context_lines(lines);
    let ghost trimmed_views = split_views(lines@);
    let ghost first_line = report.spec_first_line_number();
    let ghost total = spec_lines_spans(
        *report,
        line_number_width as int,
        enable_unicode,
        trimmed_views,
        0,
        first_line,
    );

    let first_line_number = report.first_line_number();

    let mut index: usize = 0;
    while index < lines.len()
        invariant
            index <= lines@.len(),
            line_number_width + REPORT_INDENT < usize::MAX,
            report.spec_source() matches Some(s) ==> s.wf(),
            trimmed_views == split_views(lines@),
            first_line == report.spec_first_line_number(),
            first_line_number == first_line,
            total == spec_lines_spans(
                *report,
                line_number_width as int,
                enable_unicode,
                trimmed_views,
                0,
                first_line,
            ),
            spans_view(spans@) + spec_lines_spans(
                *report,
                line_number_width as int,
                enable_unicode,
                trimmed_views,
                index as int,
                first_line,
            ) == spans_view(old(spans)@) + total,
        decreases lines@.len() - index,
    {
        let line_number: Option<LineNumber> = match first_line_number {
            Some(first) => {
                if index as u64 <= u32::MAX as u64 - first as u64 {
                    Some(first + index as u32)
                } else {
                    None
                }
            },
            None => None,
        };

        let ghost spans_before = spans_view(spans@);
        let ghost line_view = trimmed_views[index as int];
        proof {
            assert(split_views(lines@)[index as int] == split_view(lines@[index as int]));
        }

        render_context_line_text(
            spans,
            report,
            line_number,
            line_number_width,
            &lines[index],
            enable_unicode,
        );

        let ghost text_part = spec_context_line_text_spans(
            *report,
            line_number,
            line_number_width as int,
            line_view,
            enable_unicode,
        );

        if lines[index].grapheme_clusters_within_range > 0 {
            render_context_line_underline(
                spans,
                report,
                line_number_width,
                &lines[index],
                enable_unicode,
            );
        }

        proof {
            let underline_part: Seq<(SpanColor, bool, bool, Seq<char>)> = if line_view.3 > 0 {
                spec_context_line_underline_spans(
                    *report,
                    line_number_width as int,
                    line_view,
                    enable_unicode,
                )
            } else {
                Seq::empty()
            };
            let rest = spec_lines_spans(
                *report,
                line_number_width as int,
                enable_unicode,
                trimmed_views,
                index + 1,
                first_line,
            );
            assert(spans_view(spans@) =~= (spans_before + text_part) + underline_part);
            assert(spec_lines_spans(
                *report,
                line_number_width as int,
                enable_unicode,
                trimmed_views,
                index as int,
                first_line,
            ) =~= (text_part + underline_part) + rest);
            assert(((spans_before + text_part) + underline_part) + rest =~= spans_before + ((
            text_part + underline_part) + rest));
        }

        index = index + 1;
    }
    proof {
        assert(spec_lines_spans(
            *report,
            line_number_width as int,
            enable_unicode,
            trimmed_views,
            index as int,
            first_line,
        ) =~= Seq::<(SpanColor, bool, bool, Seq<char>)>::empty());
        assert(spans_view(spans@) + Seq::<(SpanColor, bool, bool, Seq<char>)>::empty()
            =~= spans_view(spans@));
        assert(spec_context_lines_spans(*report, line_number_width as int, enable_unicode)
            == total);
    }

    Ok(())
}


/// The spans one child report renders as: an indent, its label, the
/// separator, its message, and a blank line; a child covers no source
/// lines.
pub open spec fn spec_child_spans(child: Report) -> Seq<(SpanColor, bool, bool, Seq<char>)> {
    plain_span(spec_spaces(REPORT_INDENT as int)) + one_span(
        spec_severity_color(child.spec_severity()),
        false,
        false,
        spec_severity_and_code(child),
    ) + one_span(SpanColor::Default, false, true, " - "@) + one_span(
        SpanColor::Default,
        true,
        false,
        child.spec_message(),
    ) + plain_span("\n"@) + plain_span("\n"@)
}

/// The spans of the children from `index` on, in order.
pub open spec fn spec_children_spans(children: Seq<Report>, index: int) -> Seq<
    (SpanColor, bool, bool, Seq<char>),
>
    decreases children.len() - index,
{
    if !(0 <= index < children.len()) {
        Seq::empty()
    } else {
        spec_child_spans(children[index]) + spec_children_spans(children, index + 1)
    }
}

/// The spans one report renders as: its location prefix, its label, the
/// separator, its message, the source lines it covers, a closing blank
/// line, and then its children.
pub open spec fn spec_report_spans(
    report: Report,
    line_number_width: int,
    enable_unicode: bool,
) -> Seq<(SpanColor, bool, bool, Seq<char>)> {
    (match report.spec_source() {
        Some(source) => one_span(SpanColor::Cyan, false, false, spec_location_prefix(report)),
        None => Seq::empty(),
    }) + one_span(
        spec_severity_color(report.spec_severity()),
        false,
        false,
        spec_severity_and_code(report),
    ) + one_span(SpanColor::Default, false, true, " - "@) + one_span(
        SpanColor::Default,
        true,
        false,
        report.spec_message(),
    ) + plain_span("\n"@) + spec_context_lines_spans(report, line_number_width, enable_unicode)
        + plain_span("\n"@) + spec_children_spans(report.spec_children(), 0)
}

/// Render one report: its location prefix, its label and message, the
/// source lines it covers, and then its children, indented.
pub fn render_report<'sc>(
    spans: &mut Vec<StyledSpan>,
    report: &Report<'sc>,
    line_number_width: usize,
    enable_unicode: bool,
) -> (r: Result<(), ErrorSource>)
    requires
        line_number_width + REPORT_INDENT < usize::MAX,
        report.spec_source() matches Some(s) ==> s.wf(),
    ensures
        r matches Ok(done) ==> spans_view(final(spans)@) == spans_view(old(spans)@)
            + spec_report_spans(*report, line_number_width as int, enable_unicode),
        report_renderable(*report) ==> r is Ok,
{
    render_report_location(spans, report);
    render_severity_and_code(spans, report);
    render_message_separator(spans);
    render_message(spans, report);
    render_newline(spans);
    match render_context_lines(spans, report, line_number_width, enable_unicode) {
        Err(e) => {
            return Err(e);
        },
        Ok(()) => {},
    }
    render_newline(spans);

    let ghost head = spans_view(spans@);
    let ghost children_views = report.spec_children();

    let children = report.iter_children();
    let mut index: usize = 0;
    while index < children.len()
        invariant
            index <= children@.len(),
            line_number_width + REPORT_INDENT < usize::MAX,
            children@ == children_views,
            spans_view(spans@) + spec_children_spans(children_views, index as int) == head
                + spec_children_spans(children_views, 0),
        decreases children@.len() - index,
    {
        let ghost spans_before = spans_view(spans@);
        match render_report_child(spans, &children[index], line_number_width, enable_unicode) {
            Err(e) => {
                return Err(e);
            },
            Ok(()) => {},
        }
        proof {
            let rest = spec_children_spans(children_views, index + 1);
            assert((spans_before + spec_child_spans(children_views[index as int])) + rest
                =~= spans_before + (spec_child_spans(children_views[index as int]) + rest));
        }
        index = index + 1;
    }

    proof {
        assert(spec_children_spans(children_views, index as int) =~= Seq::<
            (SpanColor, bool, bool, Seq<char>),
        >::empty());
        assert(spans_view(spans@) + Seq::<(SpanColor, bool, bool, Seq<char>)>::empty()
            =~= spans_view(spans@));
        assert(spans_view(spans@) =~= spans_view(old(spans)@) + spec_report_spans(
            *report,
            line_number_width as int,
            enable_unicode,
        ));
    }

    Ok(())
}

/// Render one child report, indented under its parent.
pub fn render_report_child<'sc>(
    spans: &mut Vec<StyledSpan>,
    report: &Report<'sc>,
    line_number_width: usize,
    enable_unicode: bool,
) -> (r: Result<(), ErrorSource>)
    requires
        line_number_width + REPORT_INDENT < usize::MAX,
    ensures
        r is Ok,
        r matches Ok(done) ==> spans_view(final(spans)@) == spans_view(old(spans)@)
            + spec_child_spans(*report),
{
    let indent = spaces_string(REPORT_INDENT);
    emit(spans, SpanColor::Default, false, false, indent);

    render_severity_and_code(spans, report);
    render_message_separator(spans);
    render_message(spans, report);
    render_newline(spans);
    render_newline(spans);
    // A child report is global, so it covers no source lines.

    proof {
        assert(spans_view(spans@) =~= spans_view(old(spans)@) + spec_child_spans(*report));
    }
    Ok(())
}

/// The `s` that makes a count's noun plural, or nothing for a count of one.
pub open spec fn spec_plural(n: int) -> Seq<char> {
    if n == 1 {
        Seq::empty()
    } else {
        "s"@
    }
}

/// The spans of the closing summary: a red failure line when only errors
/// occurred, a yellow success line when only warnings did, a two-colored
/// line when both did, and nothing when neither did.
pub open spec fn spec_summary(error_count: int, warning_count: int) -> Seq<
    (SpanColor, bool, bool, Seq<char>),
> {
    if error_count > 0 && warning_count == 0 {
        one_span(
            SpanColor::Red,
            false,
            false,
            "failed with "@ + spec_decimal(error_count) + " error"@ + spec_plural(error_count)
                + "\n"@,
        )
    } else if error_count == 0 && warning_count > 0 {
        one_span(
            SpanColor::Yellow,
            false,
            false,
            "succeeded with "@ + spec_decimal(warning_count) + " warning"@ + spec_plural(
                warning_count,
            ) + "\n"@,
        )
    } else if error_count > 0 && warning_count > 0 {
        one_span(
            SpanColor::Red,
            false,
            false,
            "failed with "@ + spec_decimal(error_count) + " error"@ + spec_plural(error_count),
        ) + one_span(
            SpanColor::Yellow,
            false,
            false,
            " and "@ + spec_decimal(warning_count) + " warning"@ + spec_plural(warning_count)
                + "\n"@,
        )
    } else {
        Seq::empty()
    }
}

/// Render the closing summary for the given error and warning counts.
pub fn render_summary(spans: &mut Vec<StyledSpan>, error_count: u32, warning_count: u32)
    ensures
        spans_view(final(spans)@) == spans_view(old(spans)@) + spec_summary(
            error_count as int,
            warning_count as int,
        ),
{
    proof {
        reveal_strlit("failed with ");
        reveal_strlit("succeeded with ");
        reveal_strlit(" and ");
        reveal_strlit(" error");
        reveal_strlit(" warning");
        reveal_strlit("s");
        reveal_strlit("");
        reveal_strlit("\n");
    }
    if error_count > 0 && warning_count == 0 {
        let mut text = String::from_str("failed with ");
        let n = decimal_string(error_count as u64);
        text.append(n.as_str());
        text.append(" error");
        text.append(if error_count == 1 {
            ""
        } else {
            "s"
        });
        text.append("\n");
        emit(spans, SpanColor::Red, false, false, text);
        proof {
            assert(spans_view(spans@) =~= spans_view(old(spans)@) + spec_summary(
                error_count as int,
                warning_count as int,
            ));
        }
    } else if error_count == 0 && warning_count > 0 {
        let mut text = String::from_str("succeeded with ");
        let n = decimal_string(warning_count as u64);
        text.append(n.as_str());
        text.append(" warning");
        text.append(if warning_count == 1 {
            ""
        } else {
            "s"
        });
        text.append("\n");
        emit(spans, SpanColor::Yellow, false, false, text);
        proof {
            assert(spans_view(spans@) =~= spans_view(old(spans)@) + spec_summary(
                error_count as int,
                warning_count as int,
            ));
        }
    } else if error_count > 0 && warning_count > 0 {
        let mut first = String::from_str("failed with ");
        let n = decimal_string(error_count as u64);
        first.append(n.as_str());
        first.append(" error");
        first.append(if error_count == 1 {
            ""
        } else {
            "s"
        });
        emit(spans, SpanColor::Red, false, false, first);

        let mut second = String::from_str(" and ");
        let m = decimal_string(warning_count as u64);
        second.append(m.as_str());
        second.append(" warning");
        second.append(if warning_count == 1 {
            ""
        } else {
            "s"
        });
        second.append("\n");
        emit(spans, SpanColor::Yellow, false, false, second);
        proof {
            assert(spans_view(spans@) =~= spans_view(old(spans)@) + spec_summary(
                error_count as int,
                warning_count as int,
            ));
        }
    }
}

} // verus!
