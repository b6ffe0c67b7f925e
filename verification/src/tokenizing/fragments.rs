//! Reusable lexing fragments: reading quoted text, numbers, and runs of
//! matching graphemes, and classifying graphemes for symbols and numbers.

use vstd::prelude::*;

use crate::sourcing::error::ErrorSource;
use crate::sourcing::reader::{spec_grapheme_advance, spec_peek_grapheme};
use crate::sourcing::segmentation::cluster_readable;
use crate::tokenizing::context::LexingContext;

verus! {


/// The view of the last-read grapheme, where one was read.
pub open spec fn spec_last_view(last: Option<String>) -> Option<Seq<char>> {
    match last {
        Some(s) => Some(s@),
        None => None,
    }
}

/// Where reading up to and including an unescaped ending quote stops,
/// starting at `off` with `last` as the previously read grapheme: the scan
/// consumes every grapheme, stopping just past a quote that does not follow
/// a backslash, or at the end of the readable data.
pub open spec fn spec_quote_scan(
    data: Seq<u8>,
    off: int,
    quote: Seq<char>,
    last: Option<Seq<char>>,
) -> int
    decreases data.len() - off,
{
    if !(0 <= off < data.len()) || !cluster_readable(data, off) {
        off
    } else {
        let g = spec_peek_grapheme(data, off);
        let advance = spec_grapheme_advance(data, off);
        let next = if advance > off {
            advance
        } else {
            off + 1
        };
        let bounded = if next > data.len() {
            data.len() as int
        } else {
            next
        };
        if g == quote && !(last == Some(seq!['\\'])) {
            bounded
        } else {
            spec_quote_scan(data, bounded, quote, Some(g))
        }
    }
}

/// Every character of the grapheme is an ASCII letter or digit.
pub open spec fn spec_alnum_cluster(g: Seq<char>) -> bool {
    forall|i: int|
        0 <= i < g.len() ==> (('0' <= #[trigger] g[i] <= '9') || ('a' <= g[i] <= 'z') || ('A'
            <= g[i] <= 'Z'))
}

/// Where a number literal read grapheme by grapheme ends and whether it
/// consumed a period, starting at `off` with the given state: letters,
/// digits and underscores always continue it, one period may, and one minus
/// may directly after an `e`.
pub open spec fn spec_grapheme_number_scan(
    data: Seq<u8>,
    off: int,
    found_period: bool,
    found_minus: bool,
    last: Option<Seq<char>>,
) -> (int, bool)
    decreases data.len() - off,
{
    if !(0 <= off < data.len()) || !cluster_readable(data, off) {
        (off, found_period)
    } else {
        let g = spec_peek_grapheme(data, off);
        let advance = spec_grapheme_advance(data, off);
        let next = if advance > off {
            advance
        } else {
            off + 1
        };
        let bounded = if next > data.len() {
            data.len() as int
        } else {
            next
        };
        if (spec_alnum_cluster(g) && g.len() > 0) || g == seq!['_'] {
            spec_grapheme_number_scan(data, bounded, found_period, found_minus, Some(g))
        } else if g == seq!['.'] {
            if found_period {
                (off, found_period)
            } else {
                spec_grapheme_number_scan(data, bounded, true, found_minus, Some(g))
            }
        } else if g == seq!['-'] {
            if found_minus {
                (off, found_period)
            } else if last == Some(seq!['e']) {
                spec_grapheme_number_scan(data, bounded, found_period, true, Some(g))
            } else {
                (off, found_period)
            }
        } else {
            (off, found_period)
        }
    }
}

/// Whether a character may start an identifier, by Unicode's `XID_Start`.
pub uninterp spec fn xid_start(c: char) -> bool;

/// Whether a character may continue an identifier, by Unicode's
/// `XID_Continue`.
pub uninterp spec fn xid_continue(c: char) -> bool;

/// Relies on unicode_ident's `is_xid_start`: a pure table lookup of the
/// character's `XID_Start` property.
pub assume_specification[ unicode_ident::is_xid_start ](ch: char) -> (r: bool)
    ensures
        r == xid_start(ch),
;

/// Relies on unicode_ident's `is_xid_continue`: a pure table lookup of the
/// character's `XID_Continue` property.
pub assume_specification[ unicode_ident::is_xid_continue ](ch: char) -> (r: bool)
    ensures
        r == xid_continue(ch),
;

/// The grapheme cluster is non-empty, its first character may start an
/// identifier, and the rest may continue one.
pub open spec fn spec_allowed_first_of_symbol(s: Seq<char>) -> bool {
    &&& s.len() > 0
    &&& xid_start(s[0])
    &&& forall|i: int| 1 <= i < s.len() ==> xid_continue(#[trigger] s[i])
}

/// Every character of the grapheme cluster may continue an identifier.
pub open spec fn spec_allowed_in_symbol(s: Seq<char>) -> bool {
    forall|i: int| 0 <= i < s.len() ==> xid_continue(#[trigger] s[i])
}

/// Every character of the grapheme cluster is an ASCII decimal digit.
pub open spec fn spec_allowed_first_of_number(s: Seq<char>) -> bool {
    forall|i: int| 0 <= i < s.len() ==> '0' <= #[trigger] s[i] <= '9'
}

/// Checks if the given grapheme cluster is allowed to be the first character
/// of a symbol.
pub fn is_grapheme_cluster_allowed_first_of_symbol(grapheme_cluster: &str) -> (r: bool)
    ensures
        r == spec_allowed_first_of_symbol(grapheme_cluster@),
{
    let len = grapheme_cluster.unicode_len();
    if len == 0 {
        return false;
    }
    if !unicode_ident::is_xid_start(grapheme_cluster.get_char(0)) {
        return false;
    }
    let mut i: usize = 1;
    while i < len
        invariant
            1 <= i <= len,
            len == grapheme_cluster@.len(),
            xid_start(grapheme_cluster@[0]),
            forall|j: int| 1 <= j < i ==> xid_continue(#[trigger] grapheme_cluster@[j]),
        decreases len - i,
    {
        if !unicode_ident::is_xid_continue(grapheme_cluster.get_char(i)) {
            return false;
        }
        i = i + 1;
    }
    true
}

/// Checks if the given grapheme cluster is allowed to be part of a symbol.
pub fn is_grapheme_cluster_allowed_in_symbol(grapheme_cluster: &str) -> (r: bool)
    ensures
        r == spec_allowed_in_symbol(grapheme_cluster@),
{
    let len = grapheme_cluster.unicode_len();
    let mut i: usize = 0;
    while i < len
        invariant
            i <= len,
            len == grapheme_cluster@.len(),
            forall|j: int| 0 <= j < i ==> xid_continue(#[trigger] grapheme_cluster@[j]),
        decreases len - i,
    {
        if !unicode_ident::is_xid_continue(grapheme_cluster.get_char(i)) {
            return false;
        }
        i = i + 1;
    }
    true
}

/// Checks if the given grapheme cluster is allowed to be the first character
/// of a number.
pub fn is_grapheme_cluster_allowed_first_of_number(grapheme_cluster: &str) -> (r: bool)
    ensures
        r == spec_allowed_first_of_number(grapheme_cluster@),
{
    let len = grapheme_cluster.unicode_len();
    let mut i: usize = 0;
    while i < len
        invariant
            i <= len,
            len == grapheme_cluster@.len(),
            forall|j: int| 0 <= j < i ==> '0' <= #[trigger] grapheme_cluster@[j] <= '9',
        decreases len - i,
    {
        let c = grapheme_cluster.get_char(i);
        if c < '0' || c > '9' {
            return false;
        }
        i = i + 1;
    }
    true
}

/// Whether every character of the grapheme cluster is an ASCII letter or
/// digit.
fn is_grapheme_cluster_digit(grapheme_cluster: &str) -> (r: bool)
    ensures
        r == (forall|i: int|
            0 <= i < grapheme_cluster@.len() ==> (('0' <= #[trigger] grapheme_cluster@[i] <= '9')
                || ('a' <= grapheme_cluster@[i] <= 'z') || ('A' <= grapheme_cluster@[i] <= 'Z'))),
{
    let len = grapheme_cluster.unicode_len();
    let mut i: usize = 0;
    while i < len
        invariant
            i <= len,
            len == grapheme_cluster@.len(),
            forall|j: int|
                0 <= j < i ==> (('0' <= #[trigger] grapheme_cluster@[j] <= '9') || ('a'
                    <= grapheme_cluster@[j] <= 'z') || ('A' <= grapheme_cluster@[j] <= 'Z')),
        decreases len - i,
    {
        let c = grapheme_cluster.get_char(i);
        if !(('0' <= c && c <= '9') || ('a' <= c && c <= 'z') || ('A' <= c && c <= 'Z')) {
            return false;
        }
        i = i + 1;
    }
    true
}

/// Whether a string holds exactly one given character.
fn is_single_char(s: &str, c: char) -> (r: bool)
    ensures
        r == (s@ =~= seq![c]),
{
    if s.unicode_len() == 1 {
        let found = s.get_char(0) == c;
        proof {
            if found {
                assert(s@ =~= seq![c]);
            }
        }
        found
    } else {
        false
    }
}

/// Read until the ending quote is found, treating a quote right after a
/// backslash as escaped; the quote itself is consumed. Reading stops
/// silently at the end of the source.
pub fn read_until_ending_quote<'sc, TokenValue>(
    lexing_context: &mut LexingContext<'sc, TokenValue>,
    quote_grapheme_cluster: &str,
) -> (r: Result<(), ErrorSource>)
    requires
        old(lexing_context).wf(),
    ensures
        r is Ok,
        final(lexing_context).wf(),
        final(lexing_context).spec_tokens() == old(lexing_context).spec_tokens(),
        final(lexing_context).spec_token_first() == old(lexing_context).spec_token_first(),
        final(lexing_context).spec_reader().spec_location().source == old(lexing_context).spec_reader().spec_location().source,
        final(lexing_context).spec_reader().spec_location().byte_offset == spec_quote_scan(
            old(lexing_context).spec_reader().spec_data(),
            old(lexing_context).spec_reader().spec_location().byte_offset as int,
            quote_grapheme_cluster@,
            spec_last_view(old(lexing_context).spec_last_grapheme()),
        ),
{
    let ghost data = old(lexing_context).spec_reader().spec_data();
    let ghost target = spec_quote_scan(
        data,
        old(lexing_context).spec_reader().spec_location().byte_offset as int,
        quote_grapheme_cluster@,
        spec_last_view(old(lexing_context).spec_last_grapheme()),
    );
    loop
        invariant
            lexing_context.wf(),
            lexing_context.spec_tokens() == old(lexing_context).spec_tokens(),
            lexing_context.spec_token_first() == old(lexing_context).spec_token_first(),
            lexing_context.spec_reader().spec_location().source == old(lexing_context).spec_reader().spec_location().source,
            lexing_context.spec_reader().spec_data() == data,
            data == old(lexing_context).spec_reader().spec_data(),
            target == spec_quote_scan(
                data,
                old(lexing_context).spec_reader().spec_location().byte_offset as int,
                quote_grapheme_cluster@,
                spec_last_view(old(lexing_context).spec_last_grapheme()),
            ),
            target == spec_quote_scan(
                data,
                lexing_context.spec_reader().spec_location().byte_offset as int,
                quote_grapheme_cluster@,
                spec_last_view(lexing_context.spec_last_grapheme()),
            ),
        decreases lexing_context.spec_reader().spec_data().len()
            - lexing_context.spec_reader().spec_location().byte_offset,
    {
        let ghost at = lexing_context.spec_reader().spec_location().byte_offset as int;
        let ghost last_before = spec_last_view(lexing_context.spec_last_grapheme());
        let grapheme_cluster = match lexing_context.peek_next_grapheme_cluster() {
            Ok(grapheme_cluster) => grapheme_cluster,
            Err(_) => {
                proof {
                    assert(!(0 <= at < data.len()) || !cluster_readable(data, at));
                    assert(spec_quote_scan(data, at, quote_grapheme_cluster@, last_before) == at);
                }
                return Ok(());
            },
        };
        if string_eq(grapheme_cluster.as_str(), quote_grapheme_cluster) {
            let escaped = match lexing_context.last_grapheme_cluster() {
                Some(last) => is_single_char(last, '\\'),
                None => false,
            };
            proof {
                assert(escaped == (last_before == Some(seq!['\\'])));
            }
            match lexing_context.read_next_grapheme_cluster() {
                Ok(_) => {},
                Err(_) => {
                    // A cluster that was just peeked successfully also reads.
                    proof {
                        assert(false);
                    }
                    return Ok(());
                },
            }
            if !escaped {
                proof {
                    assert(grapheme_cluster@ == spec_peek_grapheme(data, at));
                    assert(spec_quote_scan(data, at, quote_grapheme_cluster@, last_before)
                        == lexing_context.spec_reader().spec_location().byte_offset as int);
                }
                return Ok(());
            }
        } else {
            match lexing_context.read_next_grapheme_cluster() {
                Ok(_) => {},
                Err(_) => {
                    // A cluster that was just peeked successfully also reads.
                    proof {
                        assert(false);
                    }
                    return Ok(());
                },
            }
        }
    }
}

/// Read the next number literal: digits, letters and underscores always
/// continue it, one period may, and one minus may directly after an `e`.
/// Yields whether a period was consumed; reading stops at the end of the
/// readable data.
pub fn read_number<'sc, TokenValue>(lexing_context: &mut LexingContext<'sc, TokenValue>) -> (r:
    Result<bool, ErrorSource>)
    requires
        old(lexing_context).wf(),
    ensures
        final(lexing_context).wf(),
        final(lexing_context).spec_tokens() == old(lexing_context).spec_tokens(),
        final(lexing_context).spec_token_first() == old(lexing_context).spec_token_first(),
        final(lexing_context).spec_reader().spec_location().source == old(lexing_context).spec_reader().spec_location().source,
        r matches Ok(found_period) ==> ({
            let scanned = spec_grapheme_number_scan(
                old(lexing_context).spec_reader().spec_data(),
                old(lexing_context).spec_reader().spec_location().byte_offset as int,
                false,
                false,
                spec_last_view(old(lexing_context).spec_last_grapheme()),
            );
            &&& final(lexing_context).spec_reader().spec_location().byte_offset == scanned.0
            &&& found_period == scanned.1
        }),
        r is Ok,
{
    let mut found_period = false;
    let mut found_minus = false;

    let ghost data = old(lexing_context).spec_reader().spec_data();
    let ghost target = spec_grapheme_number_scan(
        data,
        old(lexing_context).spec_reader().spec_location().byte_offset as int,
        false,
        false,
        spec_last_view(old(lexing_context).spec_last_grapheme()),
    );

    loop
        invariant
            lexing_context.wf(),
            lexing_context.spec_tokens() == old(lexing_context).spec_tokens(),
            lexing_context.spec_token_first() == old(lexing_context).spec_token_first(),
            lexing_context.spec_reader().spec_location().source == old(lexing_context).spec_reader().spec_location().source,
            lexing_context.spec_reader().spec_data() == data,
            data == old(lexing_context).spec_reader().spec_data(),
            target == spec_grapheme_number_scan(
                data,
                old(lexing_context).spec_reader().spec_location().byte_offset as int,
                false,
                false,
                spec_last_view(old(lexing_context).spec_last_grapheme()),
            ),
            target == spec_grapheme_number_scan(
                data,
                lexing_context.spec_reader().spec_location().byte_offset as int,
                found_period,
                found_minus,
                spec_last_view(lexing_context.spec_last_grapheme()),
            ),
        decreases lexing_context.spec_reader().spec_data().len()
            - lexing_context.spec_reader().spec_location().byte_offset,
    {
        let ghost at = lexing_context.spec_reader().spec_location().byte_offset as int;
        let ghost last_before = spec_last_view(lexing_context.spec_last_grapheme());
        let grapheme_cluster = match lexing_context.peek_next_grapheme_cluster() {
            Ok(grapheme_cluster) => grapheme_cluster,
            Err(_) => {
                proof {
                    assert(!(0 <= at < data.len()) || !cluster_readable(data, at));
                }
                return Ok(found_period);
            },
        };
        if is_grapheme_cluster_digit(grapheme_cluster.as_str())
            && grapheme_cluster.as_str().unicode_len() > 0 || is_single_char(
            grapheme_cluster.as_str(),
            '_',
        ) {
            match lexing_context.read_next_grapheme_cluster() {
                Ok(_) => {},
                Err(_) => {
                    // A cluster that was just peeked successfully also reads.
                    proof {
                        assert(false);
                    }
                    return Ok(found_period);
                },
            }
        } else if is_single_char(grapheme_cluster.as_str(), '.') {
            if found_period {
                return Ok(found_period);
            }
            match lexing_context.read_next_grapheme_cluster() {
                Ok(_) => {},
                Err(_) => {
                    // A cluster that was just peeked successfully also reads.
                    proof {
                        assert(false);
                    }
                    return Ok(found_period);
                },
            }
            found_period = true;
        } else if is_single_char(grapheme_cluster.as_str(), '-') {
            if found_minus {
                return Ok(found_period);
            }
            let after_e = match lexing_context.last_grapheme_cluster() {
                Some(last) => is_single_char(last, 'e'),
                None => false,
            };
            if !after_e {
                return Ok(found_period);
            }
            match lexing_context.read_next_grapheme_cluster() {
                Ok(_) => {},
                Err(_) => {
                    // A cluster that was just peeked successfully also reads.
                    proof {
                        assert(false);
                    }
                    return Ok(found_period);
                },
            }
            found_minus = true;
        } else {
            return Ok(found_period);
        }
    }
}

/// Whether two strings hold the same text.
fn string_eq(a: &str, b: &str) -> (r: bool)
    ensures
        r == (a@ == b@),
{
    let len = a.unicode_len();
    if len != b.unicode_len() {
        proof {
            assert(a@.len() != b@.len());
        }
        return false;
    }
    let mut i: usize = 0;
    while i < len
        invariant
            i <= len,
            len == a@.len(),
            len == b@.len(),
            forall|j: int| 0 <= j < i ==> a@[j] == b@[j],
        decreases len - i,
    {
        if a.get_char(i) != b.get_char(i) {
            return false;
        }
        i = i + 1;
    }
    proof {
        assert(a@ =~= b@);
    }
    true
}


/// Where a scan that consumes every grapheme satisfying `condition` stops,
/// starting at `off`: at the end of the readable data or at the first
/// grapheme the condition rejects.
pub open spec fn spec_while_scan(
    data: Seq<u8>,
    off: int,
    condition: spec_fn(Seq<char>) -> bool,
) -> int
    decreases data.len() - off,
{
    if !(0 <= off < data.len()) || !cluster_readable(data, off) {
        off
    } else if condition(spec_peek_grapheme(data, off)) {
        let advance = spec_grapheme_advance(data, off);
        let next = if advance > off {
            advance
        } else {
            off + 1
        };
        let bounded = if next > data.len() {
            data.len() as int
        } else {
            next
        };
        spec_while_scan(data, bounded, condition)
    } else {
        off
    }
}

/// Read grapheme clusters while they match the given condition: reading
/// stops at the end of the readable data, or at the first grapheme the
/// condition rejects, which is left unread.
pub fn read_while_matching<'sc, TokenValue, Condition: Fn(&str) -> bool>(
    lexing_context: &mut LexingContext<'sc, TokenValue>,
    grapheme_cluster_condition: Condition,
) -> (r: Result<(), ErrorSource>)
    requires
        old(lexing_context).wf(),
        forall|s: &str| #[trigger] call_requires(grapheme_cluster_condition, (s,)),
    ensures
        r is Ok,
        final(lexing_context).wf(),
        final(lexing_context).spec_tokens() == old(lexing_context).spec_tokens(),
        final(lexing_context).spec_token_first() == old(lexing_context).spec_token_first(),
        final(lexing_context).spec_reader().spec_location().source == old(lexing_context).spec_reader().spec_location().source,
        final(lexing_context).spec_reader().spec_location().byte_offset >= old(lexing_context).spec_reader().spec_location().byte_offset,
        ({
            let data = old(lexing_context).spec_reader().spec_data();
            let end = final(lexing_context).spec_reader().spec_location().byte_offset;
            ||| end >= data.len()
            ||| !cluster_readable(data, end as int)
            ||| (exists|s: &str|
                s@ == spec_peek_grapheme(data, end as int) && #[trigger] call_ensures(
                    grapheme_cluster_condition,
                    (s,),
                    false,
                ))
        }),
        forall|condition_spec: spec_fn(Seq<char>) -> bool|
            (forall|s: &str, b: bool|
                call_ensures(grapheme_cluster_condition, (s,), b) ==> b == condition_spec(s@))
                ==> final(lexing_context).spec_reader().spec_location().byte_offset
                == #[trigger] spec_while_scan(
                old(lexing_context).spec_reader().spec_data(),
                old(lexing_context).spec_reader().spec_location().byte_offset as int,
                condition_spec,
            ),
{
    let ghost data = old(lexing_context).spec_reader().spec_data();
    loop
        invariant
            lexing_context.wf(),
            lexing_context.spec_tokens() == old(lexing_context).spec_tokens(),
            lexing_context.spec_token_first() == old(lexing_context).spec_token_first(),
            lexing_context.spec_reader().spec_location().source == old(lexing_context).spec_reader().spec_location().source,
            lexing_context.spec_reader().spec_data() == data,
            data == old(lexing_context).spec_reader().spec_data(),
            lexing_context.spec_reader().spec_location().byte_offset >= old(lexing_context).spec_reader().spec_location().byte_offset,
            forall|s: &str| #[trigger] call_requires(grapheme_cluster_condition, (s,)),
            forall|condition_spec: spec_fn(Seq<char>) -> bool|
                (forall|s: &str, b: bool|
                    call_ensures(grapheme_cluster_condition, (s,), b) ==> b == condition_spec(
                        s@,
                    )) ==> #[trigger] spec_while_scan(
                    data,
                    old(lexing_context).spec_reader().spec_location().byte_offset as int,
                    condition_spec,
                ) == spec_while_scan(
                    data,
                    lexing_context.spec_reader().spec_location().byte_offset as int,
                    condition_spec,
                ),
        decreases lexing_context.spec_reader().spec_data().len()
            - lexing_context.spec_reader().spec_location().byte_offset,
    {
        let ghost at = lexing_context.spec_reader().spec_location().byte_offset as int;
        let grapheme_cluster = match lexing_context.peek_next_grapheme_cluster() {
            Ok(grapheme_cluster) => grapheme_cluster,
            Err(_) => {
                return Ok(());
            },
        };
        let matched = grapheme_cluster_condition(grapheme_cluster.as_str());
        if matched {
            match lexing_context.read_next_grapheme_cluster() {
                Ok(_) => {},
                Err(_) => {
                    // A cluster that was just peeked successfully also reads.
                    proof {
                        assert(false);
                    }
                    return Ok(());
                },
            }
            proof {
                assert forall|condition_spec: spec_fn(Seq<char>) -> bool|
                    (forall|s: &str, b: bool|
                        call_ensures(grapheme_cluster_condition, (s,), b) ==> b == condition_spec(
                            s@,
                        )) implies #[trigger] spec_while_scan(
                    data,
                    at,
                    condition_spec,
                ) == spec_while_scan(
                    data,
                    lexing_context.spec_reader().spec_location().byte_offset as int,
                    condition_spec,
                ) by {
                    assert(condition_spec(spec_peek_grapheme(data, at)));
                }
            }
        } else {
            return Ok(());
        }
    }
}

} // verus!
