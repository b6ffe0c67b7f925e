//! Tests for the report model, the ordered report store, and the renderer.

use forge::reporting::context::ReportingContext;
use forge::reporting::rendering::{render_report, SpanColor, StyledSpan};
use forge::reporting::report::{Report, ReportCode, Severity};
use forge::reporting::unicode::choose_unicode;
use forge::sourcing::domain::{SourceContext, SourceLocation};
use forge::sourcing::reader::SourceReader;

fn spans_text(spans: &[StyledSpan]) -> String {
    let mut text = String::new();
    for span in spans {
        text.push_str(span.text.as_str());
    }
    text
}

#[test]
fn test_global() {
    let report = Report::new_global(
        Severity::Error,
        ReportCode::ES001UnexpectedCharacter,
        "Unexpected character".to_owned(),
    );

    let mut output = Vec::new();
    render_report(&mut output, &report, 3, true).unwrap();

    assert_eq!(spans_text(&output), "error ES001 - Unexpected character\n\n");
}

#[test]
fn test_source() {
    let mut source_context = SourceContext::new();
    let source = source_context
        .add_from_string(
            "test.frg",
            "this is some text\n\nsome more text\nsdkfjhskdf\n\n".to_owned(),
        )
        .unwrap();

    let report = Report::new_from_source(
        Severity::Error,
        ReportCode::ES001UnexpectedCharacter,
        source,
        "Unexpected character".to_owned(),
    );

    let mut output = Vec::new();
    render_report(&mut output, &report, 3, true).unwrap();

    assert_eq!(
        spans_text(&output),
        "test.frg: error ES001 - Unexpected character\n\n"
    );
}

#[test]
fn test_line() {
    let mut source_context = SourceContext::new();
    let source = source_context
        .add_from_string(
            "test.frg",
            "this is some text\n\nsome more text\nsdkfjhskdf\n\n".to_owned(),
        )
        .unwrap();

    let report = Report::new_from_line(
        Severity::Error,
        ReportCode::ES001UnexpectedCharacter,
        source,
        3,
        "Unexpected character".to_owned(),
    );

    let mut output = Vec::new();
    render_report(&mut output, &report, 3, true).unwrap();

    assert_eq!(
        spans_text(&output),
        "test.frg:3: error ES001 - Unexpected character\n    3\u{2595} some more text\n\n"
    );
}

#[test]
fn test_location() {
    let mut source_context = SourceContext::new();
    let source = source_context
        .add_from_string(
            "test.frg",
            "this is some text\n\nsome more text\nsdkfjhskdf\n\n".to_owned(),
        )
        .unwrap();

    let mut source_reader = SourceReader::new(SourceLocation::new_at_start(source));
    for _ in 0..13 {
        source_reader.read_next_grapheme_cluster().unwrap();
    }

    let report = Report::new_from_location(
        Severity::Error,
        ReportCode::ES001UnexpectedCharacter,
        source_reader.current_location(),
        "Unexpected character".to_owned(),
    );

    let mut output = Vec::new();
    render_report(&mut output, &report, 3, true).unwrap();

    assert_eq!(
        spans_text(&output),
        "test.frg:1:14: error ES001 - Unexpected character\n    1\u{2595} this is some text\n     \u{2595}              \u{2594}\n\n"
    );
}

#[test]
fn test_range_single_line() {
    let mut source_context = SourceContext::new();
    let source = source_context
        .add_from_string(
            "test.frg",
            "this is some text\n\nsome more text\nsdkfjhskdf\n\n".to_owned(),
        )
        .unwrap();

    let mut source_reader = SourceReader::new(SourceLocation::new_at_start(source));
    for _ in 0..13 {
        source_reader.read_next_grapheme_cluster().unwrap();
    }
    let first_location = source_reader.current_location();
    for _ in 0..4 {
        source_reader.read_next_grapheme_cluster().unwrap();
    }
    let last_location = source_reader.current_location();

    let report = Report::new_from_range(
        Severity::Error,
        ReportCode::ES001UnexpectedCharacter,
        first_location,
        last_location,
        "Unexpected character".to_owned(),
    );

    let mut output = Vec::new();
    render_report(&mut output, &report, 3, true).unwrap();

    assert_eq!(
        spans_text(&output),
        "test.frg:1:14: error ES001 - Unexpected character\n    1\u{2595} this is some text\n     \u{2595}              \u{2594}\u{2594}\u{2594}\u{2594}\n\n"
    );
}

#[test]
fn test_range_multi_line() {
    let mut source_context = SourceContext::new();
    let source = source_context
        .add_from_string(
            "test.frg",
            "this is some text\n\nsome more text\nsdkfjhskdf\n\n".to_owned(),
        )
        .unwrap();

    let mut source_reader = SourceReader::new(SourceLocation::new_at_start(source));
    for _ in 0..13 {
        source_reader.read_next_grapheme_cluster().unwrap();
    }
    let first_location = source_reader.current_location();
    for _ in 0..9 {
        source_reader.read_next_grapheme_cluster().unwrap();
    }
    let last_location = source_reader.current_location();

    let report = Report::new_from_range(
        Severity::Error,
        ReportCode::ES001UnexpectedCharacter,
        first_location,
        last_location,
        "Unexpected character".to_owned(),
    );

    let mut output = Vec::new();
    render_report(&mut output, &report, 3, true).unwrap();

    assert_eq!(
        spans_text(&output),
        "test.frg:1:14: error ES001 - Unexpected character\n    1\u{2595} this is some text\n     \u{2595}              \u{2594}\u{2594}\u{2594}\u{2594}\n    2\u{2595} \n    3\u{2595} some more text\n     \u{2595} \u{2594}\u{2594}\u{2594}\u{2594}\n\n"
    );
}

#[test]
fn test_suggested_fix() {
    let mut source_context = SourceContext::new();
    let source = source_context
        .add_from_string(
            "test.frg",
            "this is some text\n\nsome more text\nsdkfjhskdf\n\n".to_owned(),
        )
        .unwrap();

    let mut source_reader = SourceReader::new(SourceLocation::new_at_start(source));
    for _ in 0..13 {
        source_reader.read_next_grapheme_cluster().unwrap();
    }
    let first_location = source_reader.current_location();
    for _ in 0..9 {
        source_reader.read_next_grapheme_cluster().unwrap();
    }
    let last_location = source_reader.current_location();

    let mut report = Report::new_from_range(
        Severity::Error,
        ReportCode::ES001UnexpectedCharacter,
        first_location,
        last_location,
        "Unexpected character".to_owned(),
    );
    report.push_child(Severity::SuggestedFix, "Suggested fix".to_owned());

    let mut output = Vec::new();
    render_report(&mut output, &report, 3, true).unwrap();

    assert_eq!(
        spans_text(&output),
        "test.frg:1:14: error ES001 - Unexpected character\n    1\u{2595} this is some text\n     \u{2595}              \u{2594}\u{2594}\u{2594}\u{2594}\n    2\u{2595} \n    3\u{2595} some more text\n     \u{2595} \u{2594}\u{2594}\u{2594}\u{2594}\n\n  suggested fix - Suggested fix\n\n"
    );
}

#[test]
fn reports_render_in_severity_then_line_order() {
    // An error at line 5, a warning at line 1 and an error at line 2 render
    // in the order: error at line 2, error at line 5, warning at line 1.
    let mut source_context = SourceContext::new();
    let source = source_context
        .add_from_string("test.frg", "a\nb\nc\nd\ne\n".to_owned())
        .unwrap();

    let mut reporting_context = ReportingContext::new();
    reporting_context.push(Report::new_from_line(
        Severity::Error,
        ReportCode::NeedsToBeCreated,
        source,
        5,
        "Error at line five".to_owned(),
    ));
    reporting_context.push(Report::new_from_line(
        Severity::Warning,
        ReportCode::NeedsToBeCreated,
        source,
        1,
        "Warning at line one".to_owned(),
    ));
    reporting_context.push(Report::new_from_line(
        Severity::Error,
        ReportCode::NeedsToBeCreated,
        source,
        2,
        "Error at line two".to_owned(),
    ));

    let reports = reporting_context.iter();
    assert_eq!(reports.len(), 3);
    assert_eq!(reports[0].message(), "Error at line two");
    assert_eq!(reports[1].message(), "Error at line five");
    assert_eq!(reports[2].message(), "Warning at line one");

    assert_eq!(reporting_context.error_count(), 2);
    assert_eq!(reporting_context.warning_count(), 1);
    assert_eq!(reporting_context.max_line_number(), Some(5));
}

#[test]
fn rendering_is_deterministic() {
    // Rendering the same store twice produces identical output, text and
    // styling alike.
    let mut source_context = SourceContext::new();
    let source = source_context
        .add_from_string("test.frg", "first line\nsecond line\n".to_owned())
        .unwrap();

    let mut reporting_context = ReportingContext::new();
    reporting_context.push(Report::new_from_line(
        Severity::Error,
        ReportCode::NeedsToBeCreated,
        source,
        2,
        "Something is off".to_owned(),
    ));
    reporting_context.push(Report::new_from_line(
        Severity::Warning,
        ReportCode::NeedsToBeCreated,
        source,
        1,
        "Something is odd".to_owned(),
    ));

    let first = reporting_context.render(true).unwrap();
    let second = reporting_context.render(true).unwrap();

    assert_eq!(first.len(), second.len());
    for (a, b) in first.iter().zip(second.iter()) {
        assert_eq!(a.color, b.color);
        assert_eq!(a.bold, b.bold);
        assert_eq!(a.dimmed, b.dimmed);
        assert_eq!(a.text, b.text);
    }
}

#[test]
fn summary_lines() {
    let mut reporting_context = ReportingContext::new();
    reporting_context.push(Report::new_global(
        Severity::Error,
        ReportCode::NeedsToBeCreated,
        "Broken".to_owned(),
    ));
    let spans = reporting_context.render(true).unwrap();
    let text = spans_text(&spans);
    assert!(text.ends_with("failed with 1 error\n"));
    assert_eq!(spans.last().unwrap().color, SpanColor::Red);

    let mut reporting_context = ReportingContext::new();
    reporting_context.push(Report::new_global(
        Severity::Warning,
        ReportCode::NeedsToBeCreated,
        "Odd one".to_owned(),
    ));
    reporting_context.push(Report::new_global(
        Severity::Warning,
        ReportCode::NeedsToBeCreated,
        "Odd two".to_owned(),
    ));
    let spans = reporting_context.render(true).unwrap();
    let text = spans_text(&spans);
    assert!(text.ends_with("succeeded with 2 warnings\n"));

    let mut reporting_context = ReportingContext::new();
    reporting_context.push(Report::new_global(
        Severity::Error,
        ReportCode::NeedsToBeCreated,
        "Broken".to_owned(),
    ));
    reporting_context.push(Report::new_global(
        Severity::Warning,
        ReportCode::NeedsToBeCreated,
        "Odd".to_owned(),
    ));
    let spans = reporting_context.render(true).unwrap();
    let text = spans_text(&spans);
    assert!(text.ends_with("failed with 1 error and 1 warning\n"));
}

#[test]
fn report_codes_and_glyph_choice() {
    assert_eq!(ReportCode::ES001UnexpectedCharacter.name(), Some("ES001"));
    assert_eq!(ReportCode::ES002NoClosingQuoteForStringOrCharacter.name(), Some("ES002"));
    assert_eq!(ReportCode::NeedsToBeCreated.name(), None);
    assert_eq!(
        ReportCode::ES001UnexpectedCharacter.severity(),
        Some(Severity::Error)
    );

    assert_eq!(choose_unicode("\u{2595} ", " | ", true), "\u{2595} ");
    assert_eq!(choose_unicode("\u{2595} ", " | ", false), " | ");
}

#[test]
fn ascii_fallback_rendering() {
    let mut source_context = SourceContext::new();
    let source = source_context
        .add_from_string("test.frg", "some text\n".to_owned())
        .unwrap();

    let report = Report::new_from_line(
        Severity::Error,
        ReportCode::ES001UnexpectedCharacter,
        source,
        1,
        "Unexpected character".to_owned(),
    );

    let mut output = Vec::new();
    render_report(&mut output, &report, 1, false).unwrap();

    assert_eq!(
        spans_text(&output),
        "test.frg:1: error ES001 - Unexpected character\n  1 | some text\n\n"
    );
}
