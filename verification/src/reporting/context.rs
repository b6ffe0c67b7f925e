use vstd::prelude::*;

use crate::reporting::rendering::{render_report, render_summary, StyledSpan};
use crate::reporting::report::{report_le, report_le_exec, Report};
use crate::source::domain::LineNumber;
use crate::sourcing::error::ErrorSource;

verus! {

/// A sequence of reports in render order.
pub open spec fn reports_sorted(s: Seq<Report>) -> bool {
    forall|i: int, j: int| 0 <= i < j < s.len() ==> report_le(#[trigger] s[i], #[trigger] s[j])
}

/// Where a new report lands in an ordered sequence: after every report that
/// does not have to come after it, so that equal reports keep their
/// insertion order.
pub open spec fn report_insert_position(s: Seq<Report>, r: Report) -> int
    decreases s.len(),
{
    if s.len() > 0 && report_le(s.first(), r) {
        1 + report_insert_position(s.drop_first(), r)
    } else {
        0
    }
}

proof fn lemma_report_insert_position_characterization(s: Seq<Report>, r: Report, i: int)
    requires
        0 <= i <= s.len(),
        forall|j: int| 0 <= j < i ==> report_le(#[trigger] s[j], r),
        i < s.len() ==> !report_le(s[i], r),
    ensures
        report_insert_position(s, r) == i,
    decreases s.len(),
{
    if s.len() > 0 && report_le(s.first(), r) {
        assert(i >= 1);
        lemma_report_insert_position_characterization(s.drop_first(), r, i - 1);
    }
}

/// How many reports in the sequence are errors.
pub open spec fn count_error_reports(s: Seq<Report>) -> int
    decreases s.len(),
{
    if s.len() == 0 {
        0
    } else {
        (if s.first().spec_severity() is FatalError || s.first().spec_severity() is Error {
            1int
        } else {
            0int
        }) + count_error_reports(s.drop_first())
    }
}

/// How many reports in the sequence are warnings.
pub open spec fn count_warning_reports(s: Seq<Report>) -> int
    decreases s.len(),
{
    if s.len() == 0 {
        0
    } else {
        (if s.first().spec_severity() is Warning {
            1int
        } else {
            0int
        }) + count_warning_reports(s.drop_first())
    }
}

proof fn lemma_report_counts_nonnegative(s: Seq<Report>)
    ensures
        0 <= count_error_reports(s) <= s.len(),
        0 <= count_warning_reports(s) <= s.len(),
    decreases s.len(),
{
    if s.len() > 0 {
        lemma_report_counts_nonnegative(s.drop_first());
    }
}

proof fn lemma_report_counts_insert(s: Seq<Report>, i: int, r: Report)
    requires
        0 <= i <= s.len(),
    ensures
        count_error_reports(s.insert(i, r)) == count_error_reports(s) + (
        if r.spec_severity() is FatalError || r.spec_severity() is Error {
            1int
        } else {
            0int
        }),
        count_warning_reports(s.insert(i, r)) == count_warning_reports(s) + (
        if r.spec_severity() is Warning {
            1int
        } else {
            0int
        }),
    decreases s.len(),
{
    if i == 0 {
        assert(s.insert(0, r).drop_first() =~= s);
    } else {
        assert(s.insert(i, r).first() == s.first());
        assert(s.insert(i, r).drop_first() =~= s.drop_first().insert(i - 1, r));
        lemma_report_counts_insert(s.drop_first(), i - 1, r);
    }
}

/// The largest last line named by any report, or `None` where no report
/// names a line.
pub open spec fn spec_max_report_line(s: Seq<Report>) -> Option<LineNumber>
    decreases s.len(),
{
    if s.len() == 0 {
        None
    } else {
        let rest = spec_max_report_line(s.drop_last());
        match s.last().spec_last_line_number() {
            Some(line) => match rest {
                Some(best) => if line > best {
                    Some(line)
                } else {
                    Some(best)
                },
                None => Some(line),
            },
            None => rest,
        }
    }
}


/// The spans of the reports from `index` on, in their stored order.
pub open spec fn spec_reports_spans(
    reports: Seq<Report>,
    line_number_width: int,
    enable_unicode: bool,
    index: int,
) -> Seq<
    (
        crate::reporting::rendering::SpanColor,
        bool,
        bool,
        Seq<char>,
    ),
>
    decreases reports.len() - index,
{
    if !(0 <= index < reports.len()) {
        Seq::empty()
    } else {
        crate::reporting::rendering::spec_report_spans(
            reports[index],
            line_number_width,
            enable_unicode,
        ) + spec_reports_spans(reports, line_number_width, enable_unicode, index + 1)
    }
}

/// The gutter width a store renders with: the digit count of the largest
/// line number any report names, held constant across the whole listing.
pub open spec fn spec_store_line_number_width(reports: Seq<Report>) -> int {
    match spec_max_report_line(reports) {
        Some(line) => {
            let digits = crate::reporting::rendering::spec_decimal(line as int).len() as int;
            if digits <= 32 {
                digits
            } else {
                32
            }
        },
        None => 0,
    }
}

/// Everything a store renders as: each report in order, then the summary of
/// the error and warning counts. The output is a function of the store's
/// contents and the Unicode toggle alone.
pub open spec fn spec_store_spans(reports: Seq<Report>, enable_unicode: bool) -> Seq<
    (
        crate::reporting::rendering::SpanColor,
        bool,
        bool,
        Seq<char>,
    ),
> {
    spec_reports_spans(reports, spec_store_line_number_width(reports), enable_unicode, 0)
        + crate::reporting::rendering::spec_summary(
        count_error_reports(reports),
        count_warning_reports(reports),
    )
}

/// The reports a store hands out are in render order: most severe first,
/// then by first line with absent lines after present ones, then by first
/// column with absent columns first.
pub proof fn lemma_store_is_sorted(store: ReportingContext)
    requires
        store.wf(),
    ensures
        reports_sorted(store.spec_reports()),
{
}

/// Rendering is a pure function of the store's contents and the Unicode
/// toggle: two stores holding the same reports render as the same spans,
/// text and styling alike.
pub proof fn lemma_rendering_deterministic(
    first: Seq<Report>,
    second: Seq<Report>,
    enable_unicode: bool,
)
    requires
        first == second,
    ensures
        spec_store_spans(first, enable_unicode) == spec_store_spans(second, enable_unicode),
{
}

/// A context which is used for reporting errors and warnings which can be
/// rendered at the end of execution, or at any time.
pub struct ReportingContext<'source_context> {
    reports: Vec<Report<'source_context>>,
    error_count: u32,
    warning_count: u32,
    max_line_number: Option<LineNumber>,
}

impl<'source_context> ReportingContext<'source_context> {
    /// The reports pushed so far, in render order.
    pub closed spec fn spec_reports(self) -> Seq<Report<'source_context>> {
        self.reports@
    }

    /// The reports are in render order, every report is valid, and the
    /// counters and the line tracker match the reports.
    pub closed spec fn wf(self) -> bool {
        &&& reports_sorted(self.reports@)
        &&& self.error_count == count_error_reports(self.reports@)
        &&& self.warning_count == count_warning_reports(self.reports@)
        &&& self.max_line_number == spec_max_report_line(self.reports@)
        &&& forall|i: int| 0 <= i < self.reports@.len() ==> (#[trigger] self.reports@[i]).valid()
    }

    pub fn new() -> (r: ReportingContext<'source_context>)
        ensures
            r.wf(),
            r.spec_reports().len() == 0,
    {
        ReportingContext {
            reports: Vec::new(),
            error_count: 0,
            warning_count: 0,
            max_line_number: None,
        }
    }

    /// Push a new report: it lands at its place in the render order, equal
    /// reports keeping their insertion order, and the error and warning
    /// counters and the largest-line tracker follow it.
    pub fn push(&mut self, report: Report<'source_context>)
        requires
            old(self).wf(),
            report.valid(),
            old(self).spec_reports().len() < 0xffff_ffff,
        ensures
            final(self).wf(),
            final(self).spec_reports() == old(self).spec_reports().insert(
                report_insert_position(old(self).spec_reports(), report),
                report,
            ),
            final(self).spec_reports().len() == old(self).spec_reports().len() + 1,
    {
        let severity = report.severity();

        if severity.is_error() {
            proof {
                lemma_report_counts_nonnegative(self.reports@);
            }
            self.error_count = self.error_count + 1;
        } else if severity.is_warning() {
            proof {
                lemma_report_counts_nonnegative(self.reports@);
            }
            self.warning_count = self.warning_count + 1;
        }

        match report.last_line_number() {
            Some(line_number) => {
                self.max_line_number = match self.max_line_number {
                    Some(max_line_number) => if line_number > max_line_number {
                        Some(line_number)
                    } else {
                        Some(max_line_number)
                    },
                    None => Some(line_number),
                };
            },
            None => {},
        }

        let mut i: usize = 0;
        let len = self.reports.len();
        while i < len && report_le_exec(&self.reports[i], &report)
            invariant
                len == self.reports@.len(),
                i <= len,
                forall|j: int| 0 <= j < i ==> report_le(#[trigger] self.reports@[j], report),
            decreases len - i,
        {
            i = i + 1;
        }
        proof {
            lemma_report_insert_position_characterization(self.reports@, report, i as int);
            lemma_report_counts_insert(self.reports@, i as int, report);
            lemma_max_line_insert(self.reports@, i as int, report);
        }
        self.reports.insert(i, report);

        proof {
            let s = old(self).spec_reports();
            let n = s.insert(i as int, report);
            assert forall|p: int, q: int| 0 <= p < q < n.len() implies report_le(
                #[trigger] n[p],
                #[trigger] n[q],
            ) by {
                if p < i && q > i {
                    assert(report_le(s[p], report));
                }
            }
        }
    }

    /// The reports pushed so far, in render order.
    pub fn iter(&self) -> (r: &Vec<Report<'source_context>>)
        ensures
            r@ == self.spec_reports(),
    {
        &self.reports
    }

    /// How many error reports have been pushed.
    pub fn error_count(&self) -> (r: u32)
        requires
            self.wf(),
        ensures
            r == count_error_reports(self.spec_reports()),
    {
        self.error_count
    }

    /// How many warning reports have been pushed.
    pub fn warning_count(&self) -> (r: u32)
        requires
            self.wf(),
        ensures
            r == count_warning_reports(self.spec_reports()),
    {
        self.warning_count
    }

    /// The largest line number out of all reports pushed so far, or `None`
    /// where no report names a line.
    pub fn max_line_number(&self) -> (r: Option<LineNumber>)
        requires
            self.wf(),
        ensures
            r == spec_max_report_line(self.spec_reports()),
    {
        self.max_line_number
    }

    /// Render all reports, in their sorted order, followed by a one-line
    /// summary of the error and warning counts.
    ///
    /// The rendered spans are a pure function of the store's contents and
    /// the Unicode toggle: rendering the same store twice produces
    /// identical output.
    pub fn render(&self, enable_unicode: bool) -> (r: Result<Vec<StyledSpan>, ErrorSource>)
        requires
            self.wf(),
            forall|i: int|
                0 <= i < self.spec_reports().len() ==> ((#[trigger] self.spec_reports()[i]).spec_source() matches Some(s) ==> s.wf()),
        ensures
            r matches Ok(spans) ==> crate::reporting::rendering::spans_view(spans@)
                == spec_store_spans(self.spec_reports(), enable_unicode),
            (forall|i: int|
                0 <= i < self.spec_reports().len()
                    ==> crate::reporting::rendering::report_renderable(
                    #[trigger] self.spec_reports()[i],
                )) ==> r is Ok,
    {
        let ghost width_spec = spec_store_line_number_width(self.spec_reports());
        let line_number_width: usize = match self.max_line_number {
            Some(line_number) => {
                let digits = crate::reporting::rendering::decimal_string(line_number as u64);
                let width = digits.as_str().unicode_len();
                if width <= 32 {
                    width
                } else {
                    32
                }
            },
            None => 0,
        };
        proof {
            assert(line_number_width as int == width_spec);
        }

        let mut spans: Vec<StyledSpan> = Vec::new();

        let mut index: usize = 0;
        while index < self.reports.len()
            invariant
                index <= self.reports@.len(),
                line_number_width <= 32,
                line_number_width as int == width_spec,
                width_spec == spec_store_line_number_width(self.spec_reports()),
                forall|i: int|
                    0 <= i < self.spec_reports().len() ==> ((#[trigger] self.spec_reports()[i]).spec_source() matches Some(s) ==> s.wf()),
                crate::reporting::rendering::spans_view(spans@) + spec_reports_spans(
                    self.spec_reports(),
                    width_spec,
                    enable_unicode,
                    index as int,
                ) == spec_reports_spans(self.spec_reports(), width_spec, enable_unicode, 0),
            decreases self.reports@.len() - index,
        {
            proof {
                assert(self.spec_reports()[index as int] == self.reports@[index as int]);
            }
            let ghost spans_before = crate::reporting::rendering::spans_view(spans@);
            match render_report(&mut spans, &self.reports[index], line_number_width, enable_unicode) {
                Err(e) => {
                    return Err(e);
                },
                Ok(()) => {},
            }
            proof {
                let head = crate::reporting::rendering::spec_report_spans(
                    self.spec_reports()[index as int],
                    width_spec,
                    enable_unicode,
                );
                let rest = spec_reports_spans(
                    self.spec_reports(),
                    width_spec,
                    enable_unicode,
                    index + 1,
                );
                assert((spans_before + head) + rest =~= spans_before + (head + rest));
            }
            index = index + 1;
        }

        proof {
            assert(spec_reports_spans(
                self.spec_reports(),
                width_spec,
                enable_unicode,
                index as int,
            ) =~= Seq::<
                (
                    crate::reporting::rendering::SpanColor,
                    bool,
                    bool,
                    Seq<char>,
                ),
            >::empty());
            assert(crate::reporting::rendering::spans_view(spans@) + Seq::<
                (
                    crate::reporting::rendering::SpanColor,
                    bool,
                    bool,
                    Seq<char>,
                ),
            >::empty() =~= crate::reporting::rendering::spans_view(spans@));
        }

        render_summary(&mut spans, self.error_count, self.warning_count);

        Ok(spans)
    }
}

/// Inserting one report moves the largest named line to the larger of the
/// old largest and the report's own last line.
proof fn lemma_max_line_insert(s: Seq<Report>, i: int, r: Report)
    requires
        0 <= i <= s.len(),
    ensures
        spec_max_report_line(s.insert(i, r)) == (match (
            spec_max_report_line(s),
            r.spec_last_line_number(),
        ) {
            (Some(best), Some(line)) => if line > best {
                Some(line)
            } else {
                Some(best)
            },
            (None, Some(line)) => Some(line),
            (best, None) => best,
        }),
    decreases s.len(),
{
    if i == s.len() {
        assert(s.insert(i, r).drop_last() =~= s);
        assert(s.insert(i, r).last() == r);
    } else {
        assert(s.insert(i, r).drop_last() =~= s.drop_last().insert(i, r));
        assert(s.insert(i, r).last() == s.last());
        lemma_max_line_insert(s.drop_last(), i, r);
    }
}

} // verus!
