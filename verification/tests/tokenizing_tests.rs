//! Tests for the lexing context and the reusable lexing fragments.

use forge::sourcing::domain::{SourceContext, SourceLocation};
use forge::sourcing::reader::SourceReader;
use forge::tokenizing::context::LexingContext;
use forge::tokenizing::fragments::{
    is_grapheme_cluster_allowed_first_of_number, is_grapheme_cluster_allowed_first_of_symbol,
    is_grapheme_cluster_allowed_in_symbol, read_number, read_until_ending_quote,
    read_while_matching,
};

#[test]
fn simple() {
    let mut source_context = SourceContext::new();
    let source = source_context
        .add_from_string("--", "abcdef".to_owned())
        .unwrap();
    let reader = SourceReader::new(SourceLocation::new_at_start(source));
    let mut lexing_context = LexingContext::<String>::new(reader);

    // Test initial state
    assert!(lexing_context.is_more());
    assert_eq!(lexing_context.peek_next_grapheme_cluster().unwrap(), "a");
    assert!(!lexing_context.has_token());

    // Read one character as a token
    assert_eq!(lexing_context.read_next_grapheme_cluster().unwrap(), "a");
    assert!(lexing_context.is_more());
    assert_eq!(lexing_context.peek_next_grapheme_cluster().unwrap(), "b");
    assert!(lexing_context.has_token());
    assert!(lexing_context.pop_token("a".to_owned()));
    assert!(!lexing_context.has_token());

    // Read two characters as a token
    assert_eq!(lexing_context.read_next_grapheme_cluster().unwrap(), "b");
    assert!(lexing_context.is_more());
    assert_eq!(lexing_context.read_next_grapheme_cluster().unwrap(), "c");
    assert!(lexing_context.is_more());
    assert_eq!(lexing_context.peek_next_grapheme_cluster().unwrap(), "d");
    assert!(lexing_context.has_token());
    assert!(lexing_context.pop_token("bc".to_owned()));
    assert!(!lexing_context.has_token());

    // Read the rest as a token
    assert_eq!(lexing_context.read_next_grapheme_cluster().unwrap(), "d");
    assert!(lexing_context.is_more());
    assert_eq!(lexing_context.read_next_grapheme_cluster().unwrap(), "e");
    assert!(lexing_context.is_more());
    assert_eq!(lexing_context.read_next_grapheme_cluster().unwrap(), "f");
    assert!(!lexing_context.is_more());
    assert!(lexing_context.peek_next_grapheme_cluster().is_err());
    assert!(lexing_context.has_token());
    assert!(lexing_context.pop_token("def".to_owned()));
    assert!(!lexing_context.has_token());

    // Check token values
    let tokens = lexing_context.into_tokens();
    assert_eq!(tokens.len(), 3);
    assert_eq!(tokens[0].value, "a");
    assert_eq!(tokens[0].first.byte_offset, 0);
    assert_eq!(tokens[0].last.byte_offset, 0);
    assert_eq!(tokens[0].text(), "a");
    assert_eq!(tokens[1].value, "bc");
    assert_eq!(tokens[1].first.byte_offset, 1);
    assert_eq!(tokens[1].last.byte_offset, 2);
    assert_eq!(tokens[1].text(), "bc");
    assert_eq!(tokens[2].value, "def");
    assert_eq!(tokens[2].first.byte_offset, 3);
    assert_eq!(tokens[2].last.byte_offset, 5);
    assert_eq!(tokens[2].text(), "def");
}

#[test]
fn skip_token_discards_pending() {
    let mut source_context = SourceContext::new();
    let source = source_context
        .add_from_string("--", "ab".to_owned())
        .unwrap();
    let reader = SourceReader::new(SourceLocation::new_at_start(source));
    let mut lexing_context = LexingContext::<String>::new(reader);

    assert!(!lexing_context.skip_token());
    assert_eq!(lexing_context.read_next_grapheme_cluster().unwrap(), "a");
    assert!(lexing_context.skip_token());
    assert!(!lexing_context.has_token());
    assert_eq!(lexing_context.read_next_grapheme_cluster().unwrap(), "b");
    assert!(lexing_context.pop_token("b".to_owned()));

    let tokens = lexing_context.into_tokens();
    assert_eq!(tokens.len(), 1);
    assert_eq!(tokens[0].first.byte_offset, 1);
}

#[test]
fn last_grapheme_cluster_supports_lookbehind() {
    let mut source_context = SourceContext::new();
    let source = source_context
        .add_from_string("--", "ab".to_owned())
        .unwrap();
    let reader = SourceReader::new(SourceLocation::new_at_start(source));
    let mut lexing_context = LexingContext::<String>::new(reader);

    assert_eq!(lexing_context.last_grapheme_cluster(), None);
    lexing_context.read_next_grapheme_cluster().unwrap();
    assert_eq!(lexing_context.last_grapheme_cluster(), Some("a"));
    lexing_context.read_next_grapheme_cluster().unwrap();
    assert_eq!(lexing_context.last_grapheme_cluster(), Some("b"));
}

#[test]
fn read_until_ending_quote_consumes_the_quote() {
    let mut source_context = SourceContext::new();
    let source = source_context
        .add_from_string("--", "quoted string\". after".to_owned())
        .unwrap();
    let reader = SourceReader::new(SourceLocation::new_at_start(source));
    let mut lexing_context = LexingContext::<String>::new(reader);

    read_until_ending_quote(&mut lexing_context, "\"").unwrap();
    assert_eq!(lexing_context.peek_next_grapheme_cluster().unwrap(), ".");
}

#[test]
fn read_until_ending_quote_honors_escapes() {
    let mut source_context = SourceContext::new();
    let source = source_context
        .add_from_string("--", "a\\\"b\". after".to_owned())
        .unwrap();
    let reader = SourceReader::new(SourceLocation::new_at_start(source));
    let mut lexing_context = LexingContext::<String>::new(reader);

    read_until_ending_quote(&mut lexing_context, "\"").unwrap();
    assert_eq!(lexing_context.peek_next_grapheme_cluster().unwrap(), ".");
}

#[test]
fn read_number_consumes_digits_and_one_period() {
    let mut source_context = SourceContext::new();
    let source = source_context
        .add_from_string("--", "0x53.5fe-5ff0.".to_owned())
        .unwrap();
    let reader = SourceReader::new(SourceLocation::new_at_start(source));
    let mut lexing_context = LexingContext::<String>::new(reader);

    let found_period = read_number(&mut lexing_context).unwrap();
    assert!(found_period);
    assert_eq!(lexing_context.peek_next_grapheme_cluster().unwrap(), ".");
}

#[test]
fn read_while_matching_stops_at_first_mismatch() {
    let mut source_context = SourceContext::new();
    let source = source_context
        .add_from_string("--", "aaab".to_owned())
        .unwrap();
    let reader = SourceReader::new(SourceLocation::new_at_start(source));
    let mut lexing_context = LexingContext::<String>::new(reader);

    read_while_matching(&mut lexing_context, |g: &str| g == "a").unwrap();
    assert_eq!(lexing_context.peek_next_grapheme_cluster().unwrap(), "b");
}

#[test]
fn grapheme_classification() {
    assert!(is_grapheme_cluster_allowed_first_of_symbol("a"));
    assert!(!is_grapheme_cluster_allowed_first_of_symbol("1"));
    assert!(!is_grapheme_cluster_allowed_first_of_symbol(""));
    assert!(is_grapheme_cluster_allowed_in_symbol("1"));
    assert!(is_grapheme_cluster_allowed_in_symbol("a"));
    assert!(!is_grapheme_cluster_allowed_in_symbol("-"));
    assert!(is_grapheme_cluster_allowed_first_of_number("1"));
    assert!(!is_grapheme_cluster_allowed_first_of_number("a"));
}
