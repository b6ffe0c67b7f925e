//! Tests for the token matchers and the backtracking parser combinators.

use forge::lexing::reader::TokenReader;
use forge::lexing::token::{Token, TokenValue};
use forge::message::domain::MessageContext;
use forge::parsing::ast::{OperatorBinary, OperatorUnary, Symbol, Value};
use forge::parsing::fragments::{
    check_token, parse_first_of, parse_operation_binary, parse_operation_unary_postfix,
    parse_operation_unary_prefix, parse_or_error_and_return_none,
    parse_repeated_bound_or_error_and_return_none,
    parse_repeated_bound_separated_or_error_and_return_none, read_token_or_error_and_return_none,
    read_token_or_return_none,
};
use forge::parsing::matchers::{match_any_token, match_token_with_condition, match_token_with_value};
use forge::source::domain::{SourceContext, SourceLocation, SourceRef};

fn make_token(value: TokenValue, source: SourceRef<'_>) -> Token<'_> {
    let first = SourceLocation::new(source);
    let last = SourceLocation::new(source);
    Token::new(value, first, &last)
}

fn symbol_x() -> Value {
    Value::Symbol {
        name: Symbol {
            name: "x".bytes().collect(),
        },
    }
}

#[test]
fn test_match_any_token() {
    let mut source_context = SourceContext::new();
    let source = source_context.add_from_str("--".to_string(), "x").unwrap();

    let token = make_token(TokenValue::Symbol, source);
    assert!(match_any_token()(&token));

    let token = make_token(TokenValue::BitOr, source);
    assert!(match_any_token()(&token));
}

#[test]
fn test_match_token_with_condition() {
    let mut source_context = SourceContext::new();
    let source = source_context.add_from_str("--".to_string(), "x").unwrap();

    let token = make_token(TokenValue::Symbol, source);
    assert!(match_token_with_condition(|token_value: &TokenValue| {
        assert_eq!(*token_value, TokenValue::Symbol);
        true
    })(&token));

    let token = make_token(TokenValue::BitOr, source);
    assert!(!match_token_with_condition(|token_value: &TokenValue| {
        assert_eq!(*token_value, TokenValue::BitOr);
        false
    })(&token));
}

#[test]
fn test_match_token_with_value() {
    let mut source_context = SourceContext::new();
    let source = source_context.add_from_str("--".to_string(), "x").unwrap();

    let token = make_token(TokenValue::Symbol, source);
    assert!(match_token_with_value(&TokenValue::Symbol)(&token));

    let token = make_token(TokenValue::BitOr, source);
    assert!(match_token_with_value(&TokenValue::BitOr)(&token));
    assert!(!match_token_with_value(&TokenValue::Symbol)(&token));
}

#[test]
fn test_check_token_no_more() {
    let mut token_reader = TokenReader::new(vec![]);

    assert!(!check_token(&mut token_reader, match_any_token()));
}

#[test]
fn test_check_token_matching() {
    let mut source_context = SourceContext::new();
    let source = source_context.add_from_str("--".to_string(), "x").unwrap();
    let mut token_reader = TokenReader::new(vec![make_token(TokenValue::Symbol, source)]);

    assert!(check_token(&mut token_reader, match_any_token()));
}

#[test]
fn test_check_token_not_matching() {
    let mut source_context = SourceContext::new();
    let source = source_context.add_from_str("--".to_string(), "x").unwrap();
    let mut token_reader = TokenReader::new(vec![make_token(TokenValue::Symbol, source)]);

    assert!(!check_token(
        &mut token_reader,
        match_token_with_condition(|_: &TokenValue| false)
    ));
}

#[test]
fn test_read_token_or_return_none_no_more() {
    let mut token_reader = TokenReader::new(vec![]);

    assert!(read_token_or_return_none(&mut token_reader, match_any_token()).is_none());
}

#[test]
fn test_read_token_or_return_none_matching() {
    let mut source_context = SourceContext::new();
    let source = source_context.add_from_str("--".to_string(), "x").unwrap();
    let mut token_reader = TokenReader::new(vec![make_token(TokenValue::Symbol, source)]);

    assert!(read_token_or_return_none(&mut token_reader, match_any_token()).is_some());
}

#[test]
fn test_read_token_or_return_none_not_matching() {
    let mut source_context = SourceContext::new();
    let source = source_context.add_from_str("--".to_string(), "x").unwrap();
    let mut token_reader = TokenReader::new(vec![make_token(TokenValue::Symbol, source)]);

    assert!(read_token_or_return_none(
        &mut token_reader,
        match_token_with_value(&TokenValue::Add)
    )
    .is_none());
}

#[test]
fn read_token_or_error_and_return_none_no_more() {
    let mut token_reader = TokenReader::new(vec![]);
    let mut message_context = MessageContext::new();

    assert!(read_token_or_error_and_return_none(
        &mut token_reader,
        &mut message_context,
        match_any_token(),
        "expected token".to_owned()
    )
    .is_none());

    assert_eq!(message_context.error_count(), 1);
}

#[test]
fn read_token_or_error_and_return_none_matching() {
    let mut source_context = SourceContext::new();
    let source = source_context.add_from_str("--".to_string(), "x").unwrap();
    let mut token_reader = TokenReader::new(vec![make_token(TokenValue::Symbol, source)]);
    let mut message_context = MessageContext::new();

    assert!(read_token_or_error_and_return_none(
        &mut token_reader,
        &mut message_context,
        match_any_token(),
        "expected token".to_owned()
    )
    .is_some());

    assert_eq!(message_context.error_count(), 0);
}

#[test]
fn read_token_or_error_and_return_none_not_matching() {
    let mut source_context = SourceContext::new();
    let source = source_context.add_from_str("--".to_string(), "x").unwrap();
    let mut token_reader = TokenReader::new(vec![make_token(TokenValue::Symbol, source)]);
    let mut message_context = MessageContext::new();

    assert!(read_token_or_error_and_return_none(
        &mut token_reader,
        &mut message_context,
        match_token_with_value(&TokenValue::Add),
        "expected token".to_owned()
    )
    .is_none());

    assert_eq!(message_context.error_count(), 1);
}

#[test]
fn test_parse_or_error_and_return_none_none() {
    let mut token_reader = TokenReader::new(vec![]);
    let mut message_context = MessageContext::new();

    assert!(parse_or_error_and_return_none::<(), _>(
        &mut token_reader,
        &mut message_context,
        |_: &mut TokenReader, _: &mut MessageContext| None,
        "expected token".to_owned()
    )
    .is_none());

    assert_eq!(message_context.error_count(), 1);
}

#[test]
fn test_parse_or_error_and_return_none_some() {
    let mut token_reader = TokenReader::new(vec![]);
    let mut message_context = MessageContext::new();

    assert!(parse_or_error_and_return_none::<(), _>(
        &mut token_reader,
        &mut message_context,
        |_: &mut TokenReader, _: &mut MessageContext| Some(()),
        "expected token".to_owned()
    )
    .is_some());

    assert_eq!(message_context.error_count(), 0);
}

fn first_of_none<'a>(
    _token_reader: &mut TokenReader<'a>,
    _message_context: &mut MessageContext<'a>,
) -> Option<i32> {
    None
}

fn first_of_some<'a>(
    token_reader: &mut TokenReader<'a>,
    _message_context: &mut MessageContext<'a>,
) -> Option<i32> {
    token_reader.read_next();
    Some(7)
}

#[test]
fn test_parse_first_of_tries_in_order() {
    let mut source_context = SourceContext::new();
    let source = source_context.add_from_str("--".to_string(), "x").unwrap();
    let mut token_reader = TokenReader::new(vec![make_token(TokenValue::Symbol, source)]);
    let mut message_context = MessageContext::new();

    type Parser = for<'a, 'b, 'c> fn(&'b mut TokenReader<'a>, &'c mut MessageContext<'a>) -> Option<i32>;
    let parsers: [Parser; 2] = [first_of_none, first_of_some];
    let result = parse_first_of(&mut token_reader, &mut message_context, &parsers);

    assert_eq!(result, Some(7));
    assert_eq!(message_context.error_count(), 0);
}

#[test]
fn test_parse_first_of_restores_on_failure() {
    let mut source_context = SourceContext::new();
    let source = source_context.add_from_str("--".to_string(), "x").unwrap();
    let mut token_reader = TokenReader::new(vec![make_token(TokenValue::Symbol, source)]);
    let mut message_context = MessageContext::new();

    type Parser = for<'a, 'b, 'c> fn(&'b mut TokenReader<'a>, &'c mut MessageContext<'a>) -> Option<i32>;
    let parsers: [Parser; 1] = [first_of_none];
    let result = parse_first_of(&mut token_reader, &mut message_context, &parsers);

    assert_eq!(result, None);
    assert!(token_reader.is_more());
    assert_eq!(message_context.error_count(), 0);
}

#[test]
fn test_parse_repeated_bound_separated_or_error_and_return_none_simple() {
    let mut source_context = SourceContext::new();
    let source = source_context.add_from_str("--".to_string(), "x").unwrap();
    let mut token_reader = TokenReader::new(vec![
        make_token(TokenValue::LeftParenthesis, source),
        make_token(TokenValue::Symbol, source),
        make_token(TokenValue::Comma, source),
        make_token(TokenValue::Symbol, source),
        make_token(TokenValue::RightParenthesis, source),
    ]);
    let mut message_context = MessageContext::new();

    let items = parse_repeated_bound_separated_or_error_and_return_none(
        &mut token_reader,
        &mut message_context,
        "item",
        |token_reader: &mut TokenReader, _: &mut MessageContext| {
            token_reader.read_next();
            Some(5)
        },
        &TokenValue::LeftParenthesis,
        &TokenValue::Comma,
        &TokenValue::RightParenthesis,
    );

    assert!(items.is_some());
    assert_eq!(items.unwrap().len(), 2);
    assert_eq!(message_context.error_count(), 0);
}

#[test]
fn test_parse_repeated_bound_separated_or_error_and_return_none_no_closer() {
    let mut source_context = SourceContext::new();
    let source = source_context.add_from_str("--".to_string(), "x").unwrap();
    let mut token_reader = TokenReader::new(vec![
        make_token(TokenValue::LeftParenthesis, source),
        make_token(TokenValue::Symbol, source),
        make_token(TokenValue::Comma, source),
        make_token(TokenValue::Symbol, source),
    ]);
    let mut message_context = MessageContext::new();

    let items = parse_repeated_bound_separated_or_error_and_return_none(
        &mut token_reader,
        &mut message_context,
        "item",
        |token_reader: &mut TokenReader, _: &mut MessageContext| {
            token_reader.read_next();
            Some(5)
        },
        &TokenValue::LeftParenthesis,
        &TokenValue::Comma,
        &TokenValue::RightParenthesis,
    );

    assert_eq!(message_context.error_count(), 1);
    assert!(items.is_none());
}

#[test]
fn test_parse_repeated_bound_separated_or_error_and_return_none_no_opener() {
    let mut source_context = SourceContext::new();
    let source = source_context.add_from_str("--".to_string(), "x").unwrap();
    let mut token_reader = TokenReader::new(vec![
        make_token(TokenValue::Symbol, source),
        make_token(TokenValue::Comma, source),
        make_token(TokenValue::Symbol, source),
        make_token(TokenValue::RightParenthesis, source),
    ]);
    let mut message_context = MessageContext::new();

    let items = parse_repeated_bound_separated_or_error_and_return_none(
        &mut token_reader,
        &mut message_context,
        "item",
        |token_reader: &mut TokenReader, _: &mut MessageContext| {
            token_reader.read_next();
            Some(5)
        },
        &TokenValue::LeftParenthesis,
        &TokenValue::Comma,
        &TokenValue::RightParenthesis,
    );

    assert_eq!(message_context.error_count(), 0);
    assert!(items.is_none());
}

#[test]
fn test_parse_repeated_bound_separated_or_error_and_return_none_no_separator() {
    let mut source_context = SourceContext::new();
    let source = source_context.add_from_str("--".to_string(), "x").unwrap();
    let mut token_reader = TokenReader::new(vec![
        make_token(TokenValue::LeftParenthesis, source),
        make_token(TokenValue::Symbol, source),
        make_token(TokenValue::Symbol, source),
        make_token(TokenValue::RightParenthesis, source),
    ]);
    let mut message_context = MessageContext::new();

    let items = parse_repeated_bound_separated_or_error_and_return_none(
        &mut token_reader,
        &mut message_context,
        "item",
        |token_reader: &mut TokenReader, _: &mut MessageContext| {
            token_reader.read_next();
            Some(5)
        },
        &TokenValue::LeftParenthesis,
        &TokenValue::Comma,
        &TokenValue::RightParenthesis,
    );

    assert_eq!(message_context.error_count(), 1);
    assert!(items.is_none());
}

#[test]
fn test_parse_repeated_bound_separated_trailing_separator() {
    // A closer directly after a trailing separator is allowed.
    let mut source_context = SourceContext::new();
    let source = source_context.add_from_str("--".to_string(), "x").unwrap();
    let mut token_reader = TokenReader::new(vec![
        make_token(TokenValue::LeftParenthesis, source),
        make_token(TokenValue::Symbol, source),
        make_token(TokenValue::Comma, source),
        make_token(TokenValue::RightParenthesis, source),
    ]);
    let mut message_context = MessageContext::new();

    let items = parse_repeated_bound_separated_or_error_and_return_none(
        &mut token_reader,
        &mut message_context,
        "item",
        |token_reader: &mut TokenReader, _: &mut MessageContext| {
            token_reader.read_next();
            Some(5)
        },
        &TokenValue::LeftParenthesis,
        &TokenValue::Comma,
        &TokenValue::RightParenthesis,
    );

    assert_eq!(message_context.error_count(), 0);
    assert_eq!(items.unwrap().len(), 1);
}

#[test]
fn test_parse_repeated_bound_separated_empty_list() {
    // An opener directly followed by the closer yields an empty list.
    let mut source_context = SourceContext::new();
    let source = source_context.add_from_str("--".to_string(), "x").unwrap();
    let mut token_reader = TokenReader::new(vec![
        make_token(TokenValue::LeftParenthesis, source),
        make_token(TokenValue::RightParenthesis, source),
    ]);
    let mut message_context = MessageContext::new();

    let items = parse_repeated_bound_separated_or_error_and_return_none(
        &mut token_reader,
        &mut message_context,
        "item",
        |token_reader: &mut TokenReader, _: &mut MessageContext| {
            token_reader.read_next();
            Some(5)
        },
        &TokenValue::LeftParenthesis,
        &TokenValue::Comma,
        &TokenValue::RightParenthesis,
    );

    assert_eq!(message_context.error_count(), 0);
    assert_eq!(items.unwrap().len(), 0);
}

#[test]
fn test_parse_repeated_bound_or_error_and_return_none_simple() {
    let mut source_context = SourceContext::new();
    let source = source_context.add_from_str("--".to_string(), "x").unwrap();
    let mut token_reader = TokenReader::new(vec![
        make_token(TokenValue::LeftParenthesis, source),
        make_token(TokenValue::Symbol, source),
        make_token(TokenValue::Symbol, source),
        make_token(TokenValue::RightParenthesis, source),
    ]);
    let mut message_context = MessageContext::new();

    let items = parse_repeated_bound_or_error_and_return_none(
        &mut token_reader,
        &mut message_context,
        "item",
        |token_reader: &mut TokenReader, _: &mut MessageContext| {
            token_reader.read_next();
            Some(5)
        },
        &TokenValue::LeftParenthesis,
        &TokenValue::RightParenthesis,
    );

    assert!(items.is_some());
    assert_eq!(items.unwrap().len(), 2);
}

#[test]
fn test_parse_repeated_bound_or_error_and_return_none_no_closer() {
    let mut source_context = SourceContext::new();
    let source = source_context.add_from_str("--".to_string(), "x").unwrap();
    let mut token_reader = TokenReader::new(vec![
        make_token(TokenValue::LeftParenthesis, source),
        make_token(TokenValue::Symbol, source),
        make_token(TokenValue::Symbol, source),
    ]);
    let mut message_context = MessageContext::new();

    let items = parse_repeated_bound_or_error_and_return_none(
        &mut token_reader,
        &mut message_context,
        "item",
        |token_reader: &mut TokenReader, _: &mut MessageContext| {
            token_reader.read_next();
            Some(5)
        },
        &TokenValue::LeftParenthesis,
        &TokenValue::RightParenthesis,
    );

    assert_eq!(message_context.error_count(), 1);
    assert!(items.is_none());
}

#[test]
fn test_parse_repeated_bound_or_error_and_return_none_no_opener() {
    let mut source_context = SourceContext::new();
    let source = source_context.add_from_str("--".to_string(), "x").unwrap();
    let mut token_reader = TokenReader::new(vec![
        make_token(TokenValue::Symbol, source),
        make_token(TokenValue::Symbol, source),
        make_token(TokenValue::RightParenthesis, source),
    ]);
    let mut message_context = MessageContext::new();

    let items = parse_repeated_bound_or_error_and_return_none(
        &mut token_reader,
        &mut message_context,
        "item",
        |token_reader: &mut TokenReader, _: &mut MessageContext| {
            token_reader.read_next();
            Some(5)
        },
        &TokenValue::LeftParenthesis,
        &TokenValue::RightParenthesis,
    );

    assert_eq!(message_context.error_count(), 0);
    assert!(items.is_none());
}

#[test]
fn test_parse_operation_unary_prefix_operation() {
    let mut source_context = SourceContext::new();
    let source = source_context.add_from_str("--".to_string(), "x").unwrap();
    let mut token_reader = TokenReader::new(vec![
        make_token(TokenValue::Subtract, source),
        make_token(TokenValue::Symbol, source),
    ]);
    let mut message_context = MessageContext::new();

    let value = parse_operation_unary_prefix(
        &mut token_reader,
        &mut message_context,
        &[(&TokenValue::Subtract, OperatorUnary::Negate)],
        |token_reader: &mut TokenReader, _: &mut MessageContext| {
            token_reader.read_next();
            Some(symbol_x())
        },
        |token_reader: &mut TokenReader, _: &mut MessageContext| {
            token_reader.read_next();
            Some(symbol_x())
        },
    );

    assert!(value.is_some());
    assert_eq!(
        value.unwrap(),
        Value::UnaryOperation {
            operator: OperatorUnary::Negate,
            argument: Box::new(symbol_x()),
        }
    );
}

#[test]
fn test_parse_operation_unary_prefix_fallback() {
    let mut source_context = SourceContext::new();
    let source = source_context.add_from_str("--".to_string(), "x").unwrap();
    let mut token_reader = TokenReader::new(vec![make_token(TokenValue::Symbol, source)]);
    let mut message_context = MessageContext::new();

    let value = parse_operation_unary_prefix(
        &mut token_reader,
        &mut message_context,
        &[(&TokenValue::Subtract, OperatorUnary::Negate)],
        |token_reader: &mut TokenReader, _: &mut MessageContext| {
            token_reader.read_next();
            Some(symbol_x())
        },
        |token_reader: &mut TokenReader, _: &mut MessageContext| {
            token_reader.read_next();
            Some(symbol_x())
        },
    );

    assert!(value.is_some());
    assert_eq!(value.unwrap(), symbol_x());
}

#[test]
fn test_parse_operation_unary_postfix_operation() {
    let mut source_context = SourceContext::new();
    let source = source_context.add_from_str("--".to_string(), "x").unwrap();
    let mut token_reader = TokenReader::new(vec![
        make_token(TokenValue::Symbol, source),
        make_token(TokenValue::Subtract, source),
    ]);
    let mut message_context = MessageContext::new();

    let value = parse_operation_unary_postfix(
        &mut token_reader,
        &mut message_context,
        &[(&TokenValue::Subtract, OperatorUnary::Negate)],
        |token_reader: &mut TokenReader, _: &mut MessageContext| {
            token_reader.read_next();
            Some(symbol_x())
        },
    );

    assert!(value.is_some());
    assert_eq!(
        value.unwrap(),
        Value::UnaryOperation {
            operator: OperatorUnary::Negate,
            argument: Box::new(symbol_x()),
        }
    );
}

#[test]
fn test_parse_operation_unary_postfix_fallback() {
    let mut source_context = SourceContext::new();
    let source = source_context.add_from_str("--".to_string(), "x").unwrap();
    let mut token_reader = TokenReader::new(vec![make_token(TokenValue::Symbol, source)]);
    let mut message_context = MessageContext::new();

    let value = parse_operation_unary_postfix(
        &mut token_reader,
        &mut message_context,
        &[(&TokenValue::Subtract, OperatorUnary::Negate)],
        |token_reader: &mut TokenReader, _: &mut MessageContext| {
            token_reader.read_next();
            Some(symbol_x())
        },
    );

    assert!(value.is_some());
    assert_eq!(value.unwrap(), symbol_x());
}

#[test]
fn test_parse_operation_binary_operation() {
    let mut source_context = SourceContext::new();
    let source = source_context.add_from_str("--".to_string(), "x").unwrap();
    let mut token_reader = TokenReader::new(vec![
        make_token(TokenValue::Symbol, source),
        make_token(TokenValue::Add, source),
        make_token(TokenValue::Symbol, source),
    ]);
    let mut message_context = MessageContext::new();

    let value = parse_operation_binary(
        &mut token_reader,
        &mut message_context,
        &[(&TokenValue::Add, OperatorBinary::Add)],
        |token_reader: &mut TokenReader, _: &mut MessageContext| {
            token_reader.read_next();
            Some(symbol_x())
        },
        |token_reader: &mut TokenReader, _: &mut MessageContext| {
            token_reader.read_next();
            Some(symbol_x())
        },
    );

    assert!(value.is_some());
    assert_eq!(
        value.unwrap(),
        Value::BinaryOperation {
            operator: OperatorBinary::Add,
            left: Box::new(symbol_x()),
            right: Box::new(symbol_x()),
        }
    );
}

#[test]
fn test_parse_operation_binary_fallback() {
    let mut source_context = SourceContext::new();
    let source = source_context.add_from_str("--".to_string(), "x").unwrap();
    let mut token_reader = TokenReader::new(vec![make_token(TokenValue::Symbol, source)]);
    let mut message_context = MessageContext::new();

    let value = parse_operation_binary(
        &mut token_reader,
        &mut message_context,
        &[(&TokenValue::Add, OperatorBinary::Add)],
        |token_reader: &mut TokenReader, _: &mut MessageContext| {
            token_reader.read_next();
            Some(symbol_x())
        },
        |token_reader: &mut TokenReader, _: &mut MessageContext| {
            token_reader.read_next();
            Some(symbol_x())
        },
    );

    assert!(value.is_some());
    assert_eq!(value.unwrap(), symbol_x());
}

#[test]
fn test_read_token_or_return_none_keeps_position_on_mismatch() {
    // consume_if semantics: on a mismatch the next token stays unread.
    let mut source_context = SourceContext::new();
    let source = source_context.add_from_str("--".to_string(), "x").unwrap();
    let mut token_reader = TokenReader::new(vec![make_token(TokenValue::Symbol, source)]);

    assert!(read_token_or_return_none(
        &mut token_reader,
        match_token_with_value(&TokenValue::Add)
    )
    .is_none());
    assert!(token_reader.is_more());
    assert!(read_token_or_return_none(
        &mut token_reader,
        match_token_with_value(&TokenValue::Symbol)
    )
    .is_some());
    assert!(!token_reader.is_more());
}

#[test]
fn test_parse_operation_unary_prefix_falls_back_at_end_of_input() {
    // With no tokens left there is no operator to match, so the fallback
    // parser decides.
    let mut token_reader = TokenReader::new(vec![]);
    let mut message_context = MessageContext::new();

    let value = parse_operation_unary_prefix(
        &mut token_reader,
        &mut message_context,
        &[(&TokenValue::Subtract, OperatorUnary::Negate)],
        |_: &mut TokenReader, _: &mut MessageContext| Some(symbol_x()),
        |token_reader: &mut TokenReader, _: &mut MessageContext| {
            token_reader.read_next();
            Some(symbol_x())
        },
    );

    assert_eq!(value, Some(symbol_x()));
    assert_eq!(message_context.error_count(), 0);
}
