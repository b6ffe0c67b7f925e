//! Tests for the lexer and the token-value parsers.

use forge::lexing::lexer::lex;
use forge::lexing::token::TokenValue;
use forge::message::domain::{MessageContext, Severity};
use forge::source::domain::SourceContext;

#[test]
fn empty() {
    let mut source_context = SourceContext::new();
    let mut message_context = MessageContext::new();

    let source = source_context
        .add_from_str("--".to_string(), "")
        .unwrap();
    let tokens = lex(source, &mut message_context);

    assert_eq!(message_context.error_count(), 0);
    assert_eq!(message_context.warning_count(), 0);
    assert_eq!(tokens.len(), 0);
}

#[test]
fn whitespace_only() {
    let mut source_context = SourceContext::new();
    let mut message_context = MessageContext::new();

    let source = source_context
        .add_from_str("--".to_string(), " \t\n\r\n  ")
        .unwrap();
    let tokens = lex(source, &mut message_context);

    assert_eq!(message_context.error_count(), 0);
    assert_eq!(message_context.warning_count(), 0);
    assert_eq!(tokens.len(), 0);
}

#[test]
fn symbol_underscore() {
    let mut source_context = SourceContext::new();
    let mut message_context = MessageContext::new();

    let source = source_context.add_from_str("--".to_string(), "_").unwrap();
    let tokens = lex(source, &mut message_context);

    assert_eq!(message_context.error_count(), 0);
    assert_eq!(message_context.warning_count(), 0);
    assert_eq!(tokens.len(), 1);
    assert_eq!(tokens[0].first.offset, 0);
    assert_eq!(tokens[0].value, TokenValue::Symbol);
    assert_eq!(tokens[0].length, 1);
}

#[test]
fn symbol_simple() {
    let mut source_context = SourceContext::new();
    let mut message_context = MessageContext::new();

    let source = source_context
        .add_from_str("--".to_string(), "helloWorld_1234")
        .unwrap();
    let tokens = lex(source, &mut message_context);

    assert_eq!(message_context.error_count(), 0);
    assert_eq!(message_context.warning_count(), 0);
    assert_eq!(tokens.len(), 1);
    assert_eq!(tokens[0].first.offset, 0);
    assert_eq!(tokens[0].value, TokenValue::Symbol);
    assert_eq!(tokens[0].length, 15);
}

#[test]
fn symbol_unicode() {
    let mut source_context = SourceContext::new();
    let mut message_context = MessageContext::new();

    let source_text = "\u{2665}";

    assert_eq!(source_text.as_bytes(), [0xe2, 0x99, 0xa5]);

    let source = source_context
        .add_raw("--".to_string(), source_text.as_bytes().to_vec())
        .unwrap();
    let tokens = lex(source, &mut message_context);

    assert_eq!(message_context.error_count(), 0);
    assert_eq!(message_context.warning_count(), 0);
    assert_eq!(tokens.len(), 1);
    assert_eq!(tokens[0].first.offset, 0);
    assert_eq!(tokens[0].value, TokenValue::Symbol);
    assert_eq!(tokens[0].length, 3);
}

#[test]
fn keyword_usize() {
    let mut source_context = SourceContext::new();
    let mut message_context = MessageContext::new();

    let source = source_context
        .add_from_str("--".to_string(), "usize")
        .unwrap();
    let tokens = lex(source, &mut message_context);

    assert_eq!(message_context.error_count(), 0);
    assert_eq!(message_context.warning_count(), 0);
    assert_eq!(tokens.len(), 1);
    assert_eq!(tokens[0].first.offset, 0);
    assert_eq!(tokens[0].value, TokenValue::KeywordUSize);
    assert_eq!(tokens[0].length, 5);
}

#[test]
fn keyword_true() {
    let mut source_context = SourceContext::new();
    let mut message_context = MessageContext::new();

    let source = source_context
        .add_from_str("--".to_string(), "true")
        .unwrap();
    let tokens = lex(source, &mut message_context);

    assert_eq!(message_context.error_count(), 0);
    assert_eq!(message_context.warning_count(), 0);
    assert_eq!(tokens.len(), 1);
    assert_eq!(tokens[0].first.offset, 0);
    assert_eq!(tokens[0].value, TokenValue::Bool(true));
    assert_eq!(tokens[0].length, 4);
}

#[test]
fn int_literal() {
    let mut source_context = SourceContext::new();
    let mut message_context = MessageContext::new();

    let source = source_context.add_from_str("--".to_string(), "53").unwrap();
    let tokens = lex(source, &mut message_context);

    assert_eq!(message_context.error_count(), 0);
    assert_eq!(message_context.warning_count(), 0);
    assert_eq!(tokens.len(), 1);
    assert_eq!(tokens[0].first.offset, 0);
    assert_eq!(
        tokens[0].value,
        TokenValue::UnsignedInt {
            value: 53,
            width: 4
        }
    );
    assert_eq!(tokens[0].length, 2);
}

#[test]
fn float_literal() {
    let mut source_context = SourceContext::new();
    let mut message_context = MessageContext::new();

    let source = source_context
        .add_from_str("--".to_string(), "5.3")
        .unwrap();
    let tokens = lex(source, &mut message_context);

    assert_eq!(message_context.error_count(), 0);
    assert_eq!(message_context.warning_count(), 0);
    assert_eq!(tokens.len(), 1);
    assert_eq!(tokens[0].first.offset, 0);
    assert_eq!(tokens[0].value, TokenValue::Float { width: 8 });
    assert_eq!(tokens[0].length, 3);
}

#[test]
fn comma() {
    let mut source_context = SourceContext::new();
    let mut message_context = MessageContext::new();

    let source = source_context.add_from_str("--".to_string(), ",").unwrap();
    let tokens = lex(source, &mut message_context);

    assert_eq!(message_context.error_count(), 0);
    assert_eq!(message_context.warning_count(), 0);
    assert_eq!(tokens.len(), 1);
    assert_eq!(tokens[0].first.offset, 0);
    assert_eq!(tokens[0].value, TokenValue::Comma);
    assert_eq!(tokens[0].length, 1);
}

#[test]
fn period() {
    let mut source_context = SourceContext::new();
    let mut message_context = MessageContext::new();

    let source = source_context.add_from_str("--".to_string(), ".").unwrap();
    let tokens = lex(source, &mut message_context);

    assert_eq!(message_context.error_count(), 0);
    assert_eq!(message_context.warning_count(), 0);
    assert_eq!(tokens.len(), 1);
    assert_eq!(tokens[0].first.offset, 0);
    assert_eq!(tokens[0].value, TokenValue::Period);
    assert_eq!(tokens[0].length, 1);
}

#[test]
fn ellipsis() {
    let mut source_context = SourceContext::new();
    let mut message_context = MessageContext::new();

    let source = source_context
        .add_from_str("--".to_string(), "...")
        .unwrap();
    let tokens = lex(source, &mut message_context);

    assert_eq!(message_context.error_count(), 0);
    assert_eq!(message_context.warning_count(), 0);
    assert_eq!(tokens.len(), 1);
    assert_eq!(tokens[0].first.offset, 0);
    assert_eq!(tokens[0].value, TokenValue::Ellipsis);
    assert_eq!(tokens[0].length, 3);
}

#[test]
fn two_periods() {
    let mut source_context = SourceContext::new();
    let mut message_context = MessageContext::new();

    let source = source_context.add_from_str("--".to_string(), "..").unwrap();
    let tokens = lex(source, &mut message_context);

    assert_eq!(message_context.error_count(), 1);
    assert_eq!(message_context.warning_count(), 0);
    assert_eq!(tokens.len(), 0);
}

#[test]
fn two_periods_suggestion_child() {
    // Lexing `..` raises exactly one message carrying a suggestion child
    // that recommends `.` or `...`.
    let mut source_context = SourceContext::new();
    let mut message_context = MessageContext::new();

    let source = source_context.add_from_str("--".to_string(), "..").unwrap();
    let tokens = lex(source, &mut message_context);

    assert_eq!(tokens.len(), 0);
    let messages = message_context.iter_messages();
    assert_eq!(messages.len(), 1);
    assert_eq!(messages[0].severity(), Severity::Error);
    assert_eq!(messages[0].text(), "'..' is not valid punctuation");
    let children = messages[0].iter_children();
    assert_eq!(children.len(), 1);
    assert_eq!(children[0].severity(), Severity::Suggestion);
    assert_eq!(children[0].text(), "did you mean either '.' or '...'?");
}

#[test]
fn invalid_character() {
    let mut source_context = SourceContext::new();
    let mut message_context = MessageContext::new();

    let source = source_context.add_from_str("--".to_string(), "`").unwrap();
    let tokens = lex(source, &mut message_context);

    assert_eq!(message_context.error_count(), 1);
    assert_eq!(message_context.warning_count(), 0);
    assert_eq!(tokens.len(), 0);
}

#[test]
fn multiple() {
    let mut source_context = SourceContext::new();
    let mut message_context = MessageContext::new();

    let source = source_context
        .add_from_str("--".to_string(), "a+5:asdf")
        .unwrap();
    let tokens = lex(source, &mut message_context);

    assert_eq!(message_context.error_count(), 0);
    assert_eq!(message_context.warning_count(), 0);
    assert_eq!(tokens.len(), 5);
    assert_eq!(tokens[0].first.offset, 0);
    assert_eq!(tokens[0].value, TokenValue::Symbol);
    assert_eq!(tokens[0].length, 1);
    assert_eq!(tokens[1].first.offset, 1);
    assert_eq!(tokens[1].value, TokenValue::Add);
    assert_eq!(tokens[1].length, 1);
    assert_eq!(tokens[2].first.offset, 2);
    assert_eq!(
        tokens[2].value,
        TokenValue::UnsignedInt { value: 5, width: 4 }
    );
    assert_eq!(tokens[2].length, 1);
    assert_eq!(tokens[3].first.offset, 3);
    assert_eq!(tokens[3].value, TokenValue::Colon);
    assert_eq!(tokens[3].length, 1);
    assert_eq!(tokens[4].first.offset, 4);
    assert_eq!(tokens[4].value, TokenValue::Symbol);
    assert_eq!(tokens[4].length, 4);
}

#[test]
fn greedy() {
    let mut source_context = SourceContext::new();
    let mut message_context = MessageContext::new();

    let source = source_context
        .add_from_str("--".to_string(), "+++")
        .unwrap();
    let tokens = lex(source, &mut message_context);

    assert_eq!(message_context.error_count(), 0);
    assert_eq!(message_context.warning_count(), 0);
    assert_eq!(tokens.len(), 2);
    assert_eq!(tokens[0].first.offset, 0);
    assert_eq!(tokens[0].value, TokenValue::Increment);
    assert_eq!(tokens[0].length, 2);
    assert_eq!(tokens[1].first.offset, 2);
    assert_eq!(tokens[1].value, TokenValue::Add);
    assert_eq!(tokens[1].length, 1);
}

#[test]
fn int_too_large_is_reported() {
    let mut source_context = SourceContext::new();
    let mut message_context = MessageContext::new();

    let source = source_context
        .add_from_str("--".to_string(), "99999999999999999999")
        .unwrap();
    let tokens = lex(source, &mut message_context);

    assert_eq!(message_context.error_count(), 1);
    assert_eq!(tokens.len(), 1);
    assert_eq!(
        tokens[0].value,
        TokenValue::UnsignedInt { value: 0, width: 4 }
    );
    let messages = message_context.iter_messages();
    assert_eq!(
        messages[0].text(),
        "unable to parse integer literal: number too large to fit in target type"
    );
}

#[test]
fn int_with_letters_is_reported() {
    let mut source_context = SourceContext::new();
    let mut message_context = MessageContext::new();

    let source = source_context
        .add_from_str("--".to_string(), "53abc")
        .unwrap();
    let tokens = lex(source, &mut message_context);

    assert_eq!(message_context.error_count(), 1);
    assert_eq!(tokens.len(), 1);
    let messages = message_context.iter_messages();
    assert_eq!(
        messages[0].text(),
        "unable to parse integer literal: invalid digit found in string"
    );
}

#[test]
fn float_with_exponent() {
    let mut source_context = SourceContext::new();
    let mut message_context = MessageContext::new();

    let source = source_context
        .add_from_str("--".to_string(), "5.3e-2")
        .unwrap();
    let tokens = lex(source, &mut message_context);

    assert_eq!(message_context.error_count(), 0);
    assert_eq!(tokens.len(), 1);
    assert_eq!(tokens[0].value, TokenValue::Float { width: 8 });
    assert_eq!(tokens[0].length, 6);
}

#[test]
fn float_bad_shape_is_reported() {
    let mut source_context = SourceContext::new();
    let mut message_context = MessageContext::new();

    let source = source_context
        .add_from_str("--".to_string(), "5._3")
        .unwrap();
    let tokens = lex(source, &mut message_context);

    assert_eq!(message_context.error_count(), 1);
    assert_eq!(tokens.len(), 1);
    let messages = message_context.iter_messages();
    assert_eq!(
        messages[0].text(),
        "unable to parse float literal: invalid float literal"
    );
}
