//! Tests for the byte-level source store and reader.

use forge::source::domain::{SourceContext, SourceData, SourceLocation};
use forge::source::reader::SourceReader;

#[test]
fn domain_test_source_data_build_line_offset_index_unix() {
    let mut source = SourceData {
        path: "--".to_owned(),
        data: vec![b'a', b'\n', b'b', b'c', b'\n', b'd', b'\n'],
        line_offset_index: None,
    };

    assert!(source.get_line_offset(0).is_err());
    assert_eq!(source.get_line_offset(1).unwrap(), Some(0));
    assert_eq!(source.get_line_offset(2).unwrap(), Some(2));
    assert_eq!(source.get_line_offset(3).unwrap(), Some(5));
    assert_eq!(source.get_line_offset(4).unwrap(), None);
}

#[test]
fn domain_test_source_data_build_line_offset_index_dos() {
    let mut source = SourceData {
        path: "--".to_owned(),
        data: vec![
            b'a', b'\r', b'\n', b'b', b'c', b'\r', b'\n', b'd', b'\r', b'\n',
        ],
        line_offset_index: None,
    };

    assert!(source.get_line_offset(0).is_err());
    assert_eq!(source.get_line_offset(1).unwrap(), Some(0));
    assert_eq!(source.get_line_offset(2).unwrap(), Some(3));
    assert_eq!(source.get_line_offset(3).unwrap(), Some(7));
    assert_eq!(source.get_line_offset(4).unwrap(), None);
}

#[test]
fn reader_test_empty_source() {
    let mut source_context = SourceContext::new();
    let source = source_context.add_from_str("--".to_string(), "").unwrap();
    let mut reader = SourceReader::new(SourceLocation::new(source));

    assert_eq!(reader.is_more(), false);
    assert_eq!(reader.peek_next(), None);
    assert_eq!(reader.read_next(), None);
    assert_eq!(reader.current_location().offset, 0);
    assert_eq!(reader.current_location().line_number, 1);
    assert_eq!(reader.current_location().column_number, 1);
}

#[test]
fn reader_test_simple() {
    let mut source_context = SourceContext::new();
    let source = source_context.add_from_str("--".to_string(), "ab").unwrap();
    let mut reader = SourceReader::new(SourceLocation::new(source));

    assert_eq!(reader.is_more(), true);
    assert_eq!(reader.peek_next(), Some(b'a'));
    assert_eq!(reader.read_next(), Some(b'a'));
    assert_eq!(reader.current_location().offset, 1);
    assert_eq!(reader.current_location().line_number, 1);
    assert_eq!(reader.current_location().column_number, 2);

    assert_eq!(reader.is_more(), true);
    assert_eq!(reader.peek_next(), Some(b'b'));
    assert_eq!(reader.read_next(), Some(b'b'));
    assert_eq!(reader.current_location().offset, 2);
    assert_eq!(reader.current_location().line_number, 1);
    assert_eq!(reader.current_location().column_number, 3);

    assert_eq!(reader.is_more(), false);
    assert_eq!(reader.peek_next(), None);
    assert_eq!(reader.read_next(), None);
    assert_eq!(reader.current_location().offset, 2);
    assert_eq!(reader.current_location().line_number, 1);
    assert_eq!(reader.current_location().column_number, 3);
}

#[test]
fn reader_test_unix_newline() {
    let mut source_context = SourceContext::new();
    let source = source_context
        .add_from_str("--".to_string(), "a\nb\n")
        .unwrap();
    let mut reader = SourceReader::new(SourceLocation::new(source));

    assert_eq!(reader.is_more(), true);
    assert_eq!(reader.peek_next(), Some(b'a'));
    assert_eq!(reader.read_next(), Some(b'a'));
    assert_eq!(reader.current_location().offset, 1);
    assert_eq!(reader.current_location().line_number, 1);
    assert_eq!(reader.current_location().column_number, 2);

    assert_eq!(reader.is_more(), true);
    assert_eq!(reader.peek_next(), Some(b'\n'));
    assert_eq!(reader.read_next(), Some(b'\n'));
    assert_eq!(reader.current_location().offset, 2);
    assert_eq!(reader.current_location().line_number, 2);
    assert_eq!(reader.current_location().column_number, 1);

    assert_eq!(reader.is_more(), true);
    assert_eq!(reader.peek_next(), Some(b'b'));
    assert_eq!(reader.read_next(), Some(b'b'));

    assert_eq!(reader.current_location().offset, 3);
    assert_eq!(reader.current_location().line_number, 2);
    assert_eq!(reader.current_location().column_number, 2);

    assert_eq!(reader.is_more(), true);
    assert_eq!(reader.peek_next(), Some(b'\n'));
    assert_eq!(reader.read_next(), Some(b'\n'));
    assert_eq!(reader.current_location().offset, 4);
    assert_eq!(reader.current_location().line_number, 3);
    assert_eq!(reader.current_location().column_number, 1);

    assert_eq!(reader.is_more(), false);
    assert_eq!(reader.peek_next(), None);
    assert_eq!(reader.read_next(), None);
    assert_eq!(reader.current_location().offset, 4);
    assert_eq!(reader.current_location().line_number, 3);
    assert_eq!(reader.current_location().column_number, 1);
}

#[test]
fn reader_test_dos_newline() {
    let mut source_context = SourceContext::new();
    let source = source_context
        .add_from_str("--".to_string(), "a\r\nb\r\n")
        .unwrap();
    let mut reader = SourceReader::new(SourceLocation::new(source));

    assert_eq!(reader.is_more(), true);
    assert_eq!(reader.peek_next(), Some(b'a'));
    assert_eq!(reader.read_next(), Some(b'a'));
    assert_eq!(reader.current_location().offset, 1);
    assert_eq!(reader.current_location().line_number, 1);
    assert_eq!(reader.current_location().column_number, 2);

    assert_eq!(reader.is_more(), true);
    assert_eq!(reader.peek_next(), Some(b'\n'));
    assert_eq!(reader.read_next(), Some(b'\n'));
    assert_eq!(reader.current_location().offset, 3);
    assert_eq!(reader.current_location().line_number, 2);
    assert_eq!(reader.current_location().column_number, 1);

    assert_eq!(reader.is_more(), true);
    assert_eq!(reader.peek_next(), Some(b'b'));
    assert_eq!(reader.read_next(), Some(b'b'));
    assert_eq!(reader.current_location().offset, 4);
    assert_eq!(reader.current_location().line_number, 2);
    assert_eq!(reader.current_location().column_number, 2);

    assert_eq!(reader.is_more(), true);
    assert_eq!(reader.peek_next(), Some(b'\n'));
    assert_eq!(reader.read_next(), Some(b'\n'));
    assert_eq!(reader.current_location().offset, 6);
    assert_eq!(reader.current_location().line_number, 3);
    assert_eq!(reader.current_location().column_number, 1);

    assert_eq!(reader.is_more(), false);
    assert_eq!(reader.peek_next(), None);
    assert_eq!(reader.read_next(), None);
    assert_eq!(reader.current_location().offset, 6);
    assert_eq!(reader.current_location().line_number, 3);
    assert_eq!(reader.current_location().column_number, 1);
}

#[test]
fn reader_save_restore_round_trip() {
    let mut source_context = SourceContext::new();
    let source = source_context
        .add_from_str("--".to_string(), "a\nbc")
        .unwrap();
    let mut reader = SourceReader::new(SourceLocation::new(source));

    assert_eq!(reader.read_next(), Some(b'a'));
    let state = reader.save_state();
    let offset = reader.current_location().offset;
    let line = reader.current_location().line_number;
    let column = reader.current_location().column_number;

    assert_eq!(reader.read_next(), Some(b'\n'));
    assert_eq!(reader.read_next(), Some(b'b'));

    reader.restore_state(state);
    assert_eq!(reader.current_location().offset, offset);
    assert_eq!(reader.current_location().line_number, line);
    assert_eq!(reader.current_location().column_number, column);
    assert_eq!(reader.read_next(), Some(b'\n'));
}

#[test]
fn line_lookup_empty_source_and_past_end() {
    let mut source_context = SourceContext::new();
    let source = source_context.add_from_str("--".to_string(), "").unwrap();

    // Line 1 starts at offset 0 even for an empty source.
    let location = source.get_first_location_of_line(1).unwrap().unwrap();
    assert_eq!(location.offset, 0);
    assert_eq!(location.line_number, 1);
    assert_eq!(location.column_number, 1);

    // A line past the end yields nothing, and line 0 is an error.
    assert!(source.get_first_location_of_line(2).unwrap().is_none());
    assert!(source.get_first_location_of_line(0).is_err());
}

#[test]
fn add_raw_empty_path_is_rejected() {
    let mut source_context = SourceContext::new();
    assert!(source_context.add_raw(String::new(), vec![b'a']).is_err());
}

#[test]
fn bytes_and_string_between() {
    let mut source_context = SourceContext::new();
    let source = source_context
        .add_from_str("--".to_string(), "hello")
        .unwrap();

    let mut first = SourceLocation::new(source);
    first.offset = 1;
    let mut last = SourceLocation::new(source);
    last.offset = 4;

    assert_eq!(first.bytes_between(&last), b"ell");
    assert_eq!(first.string_between(&last), "ell".to_owned());
}

#[test]
fn reader_lone_carriage_returns_are_two_breaks() {
    // Each lone \r is its own one-byte break; only \r\n is consumed as one
    // two-byte break.
    let mut source_context = SourceContext::new();
    let source = source_context
        .add_from_str("--".to_string(), "\r\ra")
        .unwrap();
    let mut reader = SourceReader::new(SourceLocation::new(source));

    assert_eq!(reader.read_next(), Some(b'\n'));
    assert_eq!(reader.current_location().offset, 1);
    assert_eq!(reader.current_location().line_number, 2);

    assert_eq!(reader.read_next(), Some(b'\n'));
    assert_eq!(reader.current_location().offset, 2);
    assert_eq!(reader.current_location().line_number, 3);

    assert_eq!(reader.read_next(), Some(b'a'));

    // The line index agrees: three lines, starting at offsets 0, 1 and 2.
    assert_eq!(source.get_first_location_of_line(2).unwrap().unwrap().offset, 1);
    assert_eq!(source.get_first_location_of_line(3).unwrap().unwrap().offset, 2);
}
