//! The boundary between the library and the Unicode segmentation crate: the
//! offset of the next grapheme-cluster boundary, and the decoding of a
//! cluster's bytes into text.

use vstd::prelude::*;

use crate::sourcing::error::ErrorSource;

verus! {

/// The byte offset of the grapheme-cluster boundary that follows `offset` in
/// `data`, under extended grapheme clustering.
pub uninterp spec fn next_grapheme_boundary(data: Seq<u8>, offset: int) -> int;

/// Whether a grapheme cluster can be read at `offset` in `data`: the data
/// decodes as UTF-8 and the offset lies on a character boundary, so that the
/// boundary search succeeds.
pub uninterp spec fn cluster_readable(data: Seq<u8>, offset: int) -> bool;

/// The text that the UTF-8 bytes decode to.
pub uninterp spec fn utf8_chars(bytes: Seq<u8>) -> Seq<char>;

/// The text that the bytes decode to when invalid UTF-8 is replaced by the
/// replacement character.
pub uninterp spec fn utf8_lossy_chars(bytes: Seq<u8>) -> Seq<char>;

/// Relies on unicode_segmentation's `GraphemeCursor::next_boundary` over the
/// whole buffer, and on `str::from_utf8` and `str::is_char_boundary`.
///
/// `next_boundary` walks from `offset` to the next extended grapheme-cluster
/// boundary, which lies past `offset` and within the data; its result
/// depends on the bytes and the offset alone, so whether the whole call
/// succeeds does too. It must only be asked at a character boundary of
/// valid UTF-8 text, which the body checks first; pure ASCII data is valid
/// UTF-8 with a boundary at every offset, so it is always readable. With
/// the chunk covering the whole buffer, `next_boundary` never asks for more
/// context and never reports an end it was not at, so end-of-input is never
/// the error here. Three boundary properties come from the rules it
/// implements (UAX #29): a break follows `\r` except before `\n`, a break
/// follows `\n`, and a break follows any other ASCII byte that is itself
/// followed by an ASCII byte or the end of the data. The returned string
/// holds the cluster's bytes decoded by `str::from_utf8`, which maps ASCII
/// bytes to their own characters.
#[verifier::external_body]
pub(crate) fn next_grapheme_cluster(data: &[u8], offset: usize) -> (r: Result<(String, usize), ErrorSource>)
    requires
        offset < data@.len(),
    ensures
        r is Ok <==> cluster_readable(data@, offset as int),
        (forall|i: int| 0 <= i < data@.len() ==> data@[i] < 128u8) ==> r is Ok,
        !(r == Err::<(String, usize), ErrorSource>(ErrorSource::NoMoreToBeRead)),
        r matches Ok(pair) ==> {
            let boundary = next_grapheme_boundary(data@, offset as int);
            &&& pair.1 == boundary
            &&& offset < boundary <= data@.len()
            &&& pair.0@ == utf8_chars(data@.subrange(offset as int, boundary))
            &&& (data@[offset as int] == 13u8 ==> (boundary == (
            if offset + 1 < data@.len() && data@[offset as int + 1] == 10u8 {
                offset + 2
            } else {
                offset + 1
            })))
            &&& (data@[offset as int] == 10u8 ==> boundary == offset + 1)
            &&& ((data@[offset as int] < 128u8 && data@[offset as int] != 13u8 && (offset + 1
                == data@.len() || data@[offset as int + 1] < 128u8)) ==> boundary == offset + 1)
            &&& ((forall|i: int|
                offset <= i < boundary ==> data@[i] < 128u8) ==> pair.0@ == data@.subrange(
                offset as int,
                boundary,
            ).map_values(|b: u8| b as char))
        },
{
    let text = match core::str::from_utf8(data) {
        Ok(text) => text,
        Err(_) => return Err(ErrorSource::Utf8),
    };
    if !text.is_char_boundary(offset) {
        return Err(ErrorSource::ByteOffsetInMiddleOfGraphemeCluster(offset));
    }
    let mut cursor = unicode_segmentation::GraphemeCursor::new(offset, data.len(), true);
    match cursor.next_boundary(text, 0) {
        Ok(Some(boundary)) => Ok((text[offset..boundary].to_owned(), boundary)),
        _ => Err(ErrorSource::UnicodeSegmentation),
    }
}

/// Relies on `String::from_utf8_lossy`: the decoding depends on the bytes
/// alone, ASCII bytes decode to their own characters, and empty input stays
/// empty.
#[verifier::external_body]
pub(crate) fn bytes_to_string_lossy(bytes: &[u8]) -> (r: String)
    ensures
        r@ == utf8_lossy_chars(bytes@),
        bytes@.len() == 0 ==> r@.len() == 0,
        (forall|i: int| 0 <= i < bytes@.len() ==> bytes@[i] < 128u8) ==> r@ == bytes@.map_values(
            |b: u8| b as char,
        ),
{
    String::from_utf8_lossy(bytes).to_string()
}

} // verus!
