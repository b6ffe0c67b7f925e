//! Tests for the grapheme-aware source store and reader.

use forge::sourcing::domain::{SourceContext, SourceData, SourceLocation};
use forge::sourcing::reader::SourceReader;

#[test]
fn test_source_data_build_line_byte_offset_index_unix() {
    let mut source = SourceData {
        path: "--".to_owned(),
        data: vec![b'a', b'\n', b'b', b'c', b'\n', b'd', b'\n'],
        line_byte_offset_index: None,
    };

    assert!(source.get_line_byte_offset(0).is_err());
    assert_eq!(source.get_line_byte_offset(1).unwrap(), Some(0));
    assert_eq!(source.get_line_byte_offset(2).unwrap(), Some(2));
    assert_eq!(source.get_line_byte_offset(3).unwrap(), Some(5));
    assert_eq!(source.get_line_byte_offset(4).unwrap(), None);
}

#[test]
fn test_source_data_build_line_byte_offset_index_dos() {
    let mut source = SourceData {
        path: "--".to_owned(),
        data: vec![
            b'a', b'\r', b'\n', b'b', b'c', b'\r', b'\n', b'd', b'\r', b'\n',
        ],
        line_byte_offset_index: None,
    };

    assert!(source.get_line_byte_offset(0).is_err());
    assert_eq!(source.get_line_byte_offset(1).unwrap(), Some(0));
    assert_eq!(source.get_line_byte_offset(2).unwrap(), Some(3));
    assert_eq!(source.get_line_byte_offset(3).unwrap(), Some(7));
    assert_eq!(source.get_line_byte_offset(4).unwrap(), None);
}

#[test]
fn test_empty_source() {
    let mut source_context = SourceContext::new();
    let source = source_context.add_from_string("--", "".to_owned()).unwrap();
    let mut reader = SourceReader::new(SourceLocation::new_at_start(source));

    assert!(!reader.is_more());
    assert!(reader.peek_next_grapheme_cluster().is_err());
    assert!(reader.read_next_grapheme_cluster().is_err());
    assert_eq!(reader.current_location().byte_offset, 0);
    assert_eq!(reader.current_location().line_number, 1);
    assert_eq!(reader.current_location().column_number, 1);
}

#[test]
fn test_simple() {
    let mut source_context = SourceContext::new();
    let source = source_context
        .add_from_string("--", "ab".to_owned())
        .unwrap();
    let mut reader = SourceReader::new(SourceLocation::new_at_start(source));

    assert!(reader.is_more());
    assert_eq!(reader.peek_next_grapheme_cluster().ok(), Some("a".to_owned()));
    assert_eq!(reader.read_next_grapheme_cluster().ok(), Some("a".to_owned()));
    assert_eq!(reader.current_location().byte_offset, 1);
    assert_eq!(reader.current_location().line_number, 1);
    assert_eq!(reader.current_location().column_number, 2);

    assert!(reader.is_more());
    assert_eq!(reader.peek_next_grapheme_cluster().ok(), Some("b".to_owned()));
    assert_eq!(reader.read_next_grapheme_cluster().ok(), Some("b".to_owned()));
    assert_eq!(reader.current_location().byte_offset, 2);
    assert_eq!(reader.current_location().line_number, 1);
    assert_eq!(reader.current_location().column_number, 3);

    assert!(!reader.is_more());
    assert!(reader.peek_next_grapheme_cluster().is_err());
    assert!(reader.read_next_grapheme_cluster().is_err());
}

#[test]
fn test_unix_newline() {
    let mut source_context = SourceContext::new();
    let source = source_context
        .add_from_string("--", "a\nb\n".to_owned())
        .unwrap();
    let mut reader = SourceReader::new(SourceLocation::new_at_start(source));

    assert_eq!(reader.read_next_grapheme_cluster().ok(), Some("a".to_owned()));
    assert_eq!(reader.current_location().byte_offset, 1);

    assert_eq!(reader.peek_next_grapheme_cluster().ok(), Some("\n".to_owned()));
    assert_eq!(reader.read_next_grapheme_cluster().ok(), Some("\n".to_owned()));
    assert_eq!(reader.current_location().byte_offset, 2);
    assert_eq!(reader.current_location().line_number, 2);
    assert_eq!(reader.current_location().column_number, 1);

    assert_eq!(reader.read_next_grapheme_cluster().ok(), Some("b".to_owned()));
    assert_eq!(reader.current_location().byte_offset, 3);

    assert_eq!(reader.read_next_grapheme_cluster().ok(), Some("\n".to_owned()));
    assert_eq!(reader.current_location().byte_offset, 4);
    assert_eq!(reader.current_location().line_number, 3);
    assert_eq!(reader.current_location().column_number, 1);

    assert!(!reader.is_more());
}

#[test]
fn test_dos_newline() {
    // CRLF normalization: the graphemes come out as a, \n, b, \n with
    // post-read byte offsets 1, 3, 4, 6.
    let mut source_context = SourceContext::new();
    let source = source_context
        .add_from_string("--", "a\r\nb\r\n".to_owned())
        .unwrap();
    let mut reader = SourceReader::new(SourceLocation::new_at_start(source));

    assert_eq!(reader.peek_next_grapheme_cluster().ok(), Some("a".to_owned()));
    assert_eq!(reader.read_next_grapheme_cluster().ok(), Some("a".to_owned()));
    assert_eq!(reader.current_location().byte_offset, 1);
    assert_eq!(reader.current_location().line_number, 1);
    assert_eq!(reader.current_location().column_number, 2);

    assert_eq!(reader.peek_next_grapheme_cluster().ok(), Some("\n".to_owned()));
    assert_eq!(reader.read_next_grapheme_cluster().ok(), Some("\n".to_owned()));
    assert_eq!(reader.current_location().byte_offset, 3);
    assert_eq!(reader.current_location().line_number, 2);
    assert_eq!(reader.current_location().column_number, 1);

    assert_eq!(reader.peek_next_grapheme_cluster().ok(), Some("b".to_owned()));
    assert_eq!(reader.read_next_grapheme_cluster().ok(), Some("b".to_owned()));
    assert_eq!(reader.current_location().byte_offset, 4);
    assert_eq!(reader.current_location().line_number, 2);
    assert_eq!(reader.current_location().column_number, 2);

    assert_eq!(reader.peek_next_grapheme_cluster().ok(), Some("\n".to_owned()));
    assert_eq!(reader.read_next_grapheme_cluster().ok(), Some("\n".to_owned()));
    assert_eq!(reader.current_location().byte_offset, 6);
    assert_eq!(reader.current_location().line_number, 3);
    assert_eq!(reader.current_location().column_number, 1);

    assert!(!reader.is_more());
}

#[test]
fn grapheme_peek_then_read_agree() {
    // Peeking never advances, and reading from the same position yields the
    // same grapheme text that the peek showed.
    let mut source_context = SourceContext::new();
    let source = source_context
        .add_from_string("--", "a\u{0301}b\r\nc".to_owned())
        .unwrap();
    let mut reader = SourceReader::new(SourceLocation::new_at_start(source));

    while reader.is_more() {
        let offset_before = reader.current_location().byte_offset;
        let peeked = reader.peek_next_grapheme_cluster().unwrap();
        assert_eq!(reader.current_location().byte_offset, offset_before);
        let read = reader.read_next_grapheme_cluster().unwrap();
        assert_eq!(peeked, read);
        assert!(reader.current_location().byte_offset > offset_before);
    }
}

#[test]
fn grapheme_combining_mark_reads_as_one_cluster() {
    // A base character and its combining mark come back as one unit, and
    // the column advances by one.
    let mut source_context = SourceContext::new();
    let source = source_context
        .add_from_string("--", "a\u{0301}x".to_owned())
        .unwrap();
    let mut reader = SourceReader::new(SourceLocation::new_at_start(source));

    assert_eq!(
        reader.read_next_grapheme_cluster().ok(),
        Some("a\u{0301}".to_owned())
    );
    assert_eq!(reader.current_location().byte_offset, 3);
    assert_eq!(reader.current_location().column_number, 2);
    assert_eq!(reader.read_next_grapheme_cluster().ok(), Some("x".to_owned()));
}

#[test]
fn grapheme_save_restore_round_trip() {
    // save() before a read sequence and restore() after it return the byte
    // offset, the line and the column to their earlier values.
    let mut source_context = SourceContext::new();
    let source = source_context
        .add_from_string("--", "a\nb\n".to_owned())
        .unwrap();
    let mut reader = SourceReader::new(SourceLocation::new_at_start(source));

    assert_eq!(reader.read_next_grapheme_cluster().ok(), Some("a".to_owned()));

    let state = reader.save_state();
    let offset = reader.current_location().byte_offset;
    let line = reader.current_location().line_number;
    let column = reader.current_location().column_number;

    assert_eq!(reader.read_next_grapheme_cluster().ok(), Some("\n".to_owned()));
    assert_eq!(reader.read_next_grapheme_cluster().ok(), Some("b".to_owned()));

    reader.restore_state(state);
    assert_eq!(reader.current_location().byte_offset, offset);
    assert_eq!(reader.current_location().line_number, line);
    assert_eq!(reader.current_location().column_number, column);
    assert_eq!(reader.read_next_grapheme_cluster().ok(), Some("\n".to_owned()));
}

#[test]
fn location_validation() {
    let mut source_context = SourceContext::new();
    let source = source_context
        .add_from_string("--", "abc".to_owned())
        .unwrap();

    assert!(SourceLocation::new(source, 0, 0, 1).is_err());
    assert!(SourceLocation::new(source, 0, 1, 0).is_err());
    let location = SourceLocation::new(source, 1, 1, 2).unwrap();
    assert_eq!(location.byte_offset, 1);
    assert_eq!(location.line_number, 1);
    assert_eq!(location.column_number, 2);
}

#[test]
fn string_between_is_inclusive_and_order_free() {
    let mut source_context = SourceContext::new();
    let source = source_context
        .add_from_string("--", "hello".to_owned())
        .unwrap();

    let first = SourceLocation::new(source, 1, 1, 2).unwrap();
    let last = SourceLocation::new(source, 3, 1, 4).unwrap();
    assert_eq!(first.string_between(&last), "ell".to_owned());
    assert_eq!(last.string_between(&first), "ell".to_owned());
}

#[test]
fn mid_cluster_offset_is_reported() {
    // A byte offset in the middle of a grapheme cluster is reported, not
    // tolerated and not a crash.
    let mut source_context = SourceContext::new();
    let source = source_context
        .add_from_string("--", "\u{e9}x".to_owned())
        .unwrap();

    let location = SourceLocation::new(source, 1, 1, 1).unwrap();
    let mut reader = SourceReader::new(location);

    assert!(matches!(
        reader.peek_next_grapheme_cluster(),
        Err(forge::sourcing::error::ErrorSource::ByteOffsetInMiddleOfGraphemeCluster(1))
    ));
    assert!(matches!(
        reader.read_next_grapheme_cluster(),
        Err(forge::sourcing::error::ErrorSource::ByteOffsetInMiddleOfGraphemeCluster(1))
    ));
}

#[test]
fn grapheme_lone_carriage_returns_are_two_breaks() {
    let mut source_context = SourceContext::new();
    let source = source_context
        .add_from_string("--", "\r\ra".to_owned())
        .unwrap();
    let mut reader = SourceReader::new(SourceLocation::new_at_start(source));

    assert_eq!(reader.read_next_grapheme_cluster().ok(), Some("\n".to_owned()));
    assert_eq!(reader.current_location().byte_offset, 1);
    assert_eq!(reader.current_location().line_number, 2);

    assert_eq!(reader.read_next_grapheme_cluster().ok(), Some("\n".to_owned()));
    assert_eq!(reader.current_location().byte_offset, 2);
    assert_eq!(reader.current_location().line_number, 3);

    assert_eq!(reader.read_next_grapheme_cluster().ok(), Some("a".to_owned()));
}
