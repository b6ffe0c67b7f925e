//! Tests for the message model and the ordered message store.

use forge::message::domain::{Message, MessageContext, Severity};
use forge::source::domain::SourceContext;

#[test]
fn severity_classification() {
    assert!(Severity::FatalError.is_error());
    assert!(Severity::Error.is_error());
    assert!(!Severity::Warning.is_error());
    assert!(Severity::Warning.is_warning());
    assert!(!Severity::Suggestion.is_warning());
}

#[test]
fn messages_sort_by_severity_then_line() {
    // Messages render most severe first, then by line: an error at line 5, a
    // warning at line 1 and an error at line 2 come back as the error at
    // line 2, the error at line 5, then the warning at line 1.
    let mut source_context = SourceContext::new();
    let source = source_context
        .add_from_str("--".to_string(), "a\nb\nc\nd\ne\n")
        .unwrap();

    let mut message_context = MessageContext::new();
    message_context.add(Message::new_from_line(
        Severity::Error,
        source,
        5,
        "Error at line five".to_owned(),
    ));
    message_context.add(Message::new_from_line(
        Severity::Warning,
        source,
        1,
        "Warning at line one".to_owned(),
    ));
    message_context.add(Message::new_from_line(
        Severity::Error,
        source,
        2,
        "Error at line two".to_owned(),
    ));

    let messages = message_context.iter_messages();
    assert_eq!(messages.len(), 3);
    assert_eq!(messages[0].text(), "Error at line two");
    assert_eq!(messages[1].text(), "Error at line five");
    assert_eq!(messages[2].text(), "Warning at line one");

    assert_eq!(message_context.error_count(), 2);
    assert_eq!(message_context.warning_count(), 1);
    assert_eq!(message_context.max_line_number(), Some(5));
}

#[test]
fn messages_without_line_sort_after_those_with_one() {
    let mut source_context = SourceContext::new();
    let source = source_context
        .add_from_str("--".to_string(), "a\n")
        .unwrap();

    let mut message_context = MessageContext::new();
    message_context.add(Message::new(Severity::Error, "Global error".to_owned()));
    message_context.add(Message::new_from_line(
        Severity::Error,
        source,
        1,
        "Error at line one".to_owned(),
    ));

    let messages = message_context.iter_messages();
    assert_eq!(messages[0].text(), "Error at line one");
    assert_eq!(messages[1].text(), "Global error");
}

#[test]
fn message_children_keep_their_order() {
    let mut message = Message::new(Severity::Error, "Parent".to_owned());
    message.add_child(Message::new(Severity::Suggestion, "First".to_owned()));
    message.add_child(Message::new(Severity::Note, "Second".to_owned()));

    let children = message.iter_children();
    assert_eq!(children.len(), 2);
    assert_eq!(children[0].text(), "First");
    assert_eq!(children[1].text(), "Second");
}

#[test]
fn message_line_number_range() {
    let mut source_context = SourceContext::new();
    let source = source_context
        .add_from_str("--".to_string(), "a\nb\nc\n")
        .unwrap();

    let global = Message::new(Severity::Error, "Global".to_owned());
    assert_eq!(global.line_number_range(), None);

    let ranged = Message::new_from_range_raw(
        Severity::Error,
        source,
        1,
        1,
        3,
        2,
        "Ranged".to_owned(),
    );
    assert_eq!(ranged.line_number_range(), Some((1, 3)));
}
