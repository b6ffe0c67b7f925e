//! Turning the bytes of a number literal into a token value.

use vstd::prelude::*;

use crate::lexing::token::TokenValue;
use crate::message::domain::{count_errors, count_warnings, Message, MessageContext, Severity};
use crate::source::domain::SourceLocation;

verus! {

/// Whether the byte is an ASCII decimal digit.
pub open spec fn is_digit(b: u8) -> bool {
    48 <= b <= 57
}

/// The sequence is one or more decimal digits.
pub open spec fn all_digits(s: Seq<u8>) -> bool {
    s.len() > 0 && forall|i: int| 0 <= i < s.len() ==> is_digit(#[trigger] s[i])
}

/// The value of a sequence of decimal digits.
pub open spec fn decimal_value(s: Seq<u8>) -> int
    decreases s.len(),
{
    if s.len() == 0 {
        0
    } else {
        decimal_value(s.drop_last()) * 10 + (s.last() - 48)
    }
}

proof fn lemma_decimal_value_nonnegative(s: Seq<u8>)
    requires
        forall|i: int| 0 <= i < s.len() ==> is_digit(#[trigger] s[i]),
    ensures
        decimal_value(s) >= 0,
    decreases s.len(),
{
    if s.len() > 0 {
        lemma_decimal_value_nonnegative(s.drop_last());
    }
}

/// Once some prefix of a digit string exceeds a bound, the whole string does.
proof fn lemma_decimal_value_monotonic(s: Seq<u8>, i: int)
    requires
        forall|k: int| 0 <= k < s.len() ==> is_digit(#[trigger] s[k]),
        0 <= i <= s.len(),
    ensures
        decimal_value(s) >= decimal_value(s.take(i)),
    decreases s.len() - i,
{
    if i < s.len() {
        lemma_decimal_value_monotonic(s, i + 1);
        assert(s.take(i + 1).drop_last() =~= s.take(i));
        lemma_decimal_value_nonnegative(s.take(i));
    } else {
        assert(s.take(i) =~= s);
    }
}

/// The first position at or after `i` that does not hold a digit.
pub open spec fn digits_end(s: Seq<u8>, i: int) -> int
    decreases s.len() - i,
{
    if 0 <= i < s.len() && is_digit(s[i]) {
        digits_end(s, i + 1)
    } else {
        i
    }
}

/// Whether the sequence spells a floating-point literal: a mantissa of
/// digits with at most one period and at least one digit, then an optional
/// exponent of `e` or `E`, an optional sign and one or more digits.
pub open spec fn is_float_literal(s: Seq<u8>) -> bool {
    let i0 = digits_end(s, 0);
    if i0 == s.len() {
        i0 > 0
    } else if s[i0] == 46u8 {
        let i1 = digits_end(s, i0 + 1);
        (i1 > 0 && i1 != i0 + 1 || i0 > 0) && (i1 == s.len() || is_exponent(s, i1))
    } else {
        i0 > 0 && is_exponent(s, i0)
    }
}

/// Whether the bytes from `i` on spell an exponent: `e` or `E`, an optional
/// sign, and one or more digits.
pub open spec fn is_exponent(s: Seq<u8>, i: int) -> bool {
    &&& 0 <= i < s.len()
    &&& (s[i] == 101u8 || s[i] == 69u8)
    &&& {
        let j = if i + 1 < s.len() && (s[i + 1] == 43u8 || s[i + 1] == 45u8) {
            i + 2
        } else {
            i + 1
        };
        j < s.len() && digits_end(s, j) == s.len()
    }
}

/// Parse the bytes between two locations as an unsigned integer literal.
///
/// Yields an integer token when the bytes are one or more decimal digits
/// whose value fits in 64 bits; otherwise reports why they do not parse and
/// yields nothing.
pub fn parse_int<'source_context>(
    first: &SourceLocation<'source_context>,
    last: &SourceLocation<'source_context>,
    message_context: &mut MessageContext<'source_context>,
) -> (r: Option<TokenValue>)
    requires
        old(message_context).wf(),
        first.wf(),
        first.source == last.source,
        first.offset <= last.offset,
        last.offset <= first.source.spec_data().len(),
    ensures
        final(message_context).wf(),
        forall|m: Message<'source_context>|
            old(message_context).spec_messages().contains(m) ==> final(message_context).spec_messages().contains(m),
        ({
            let s = first.source.spec_data().subrange(first.offset as int, last.offset as int);
            &&& (all_digits(s) && decimal_value(s) <= u64::MAX) ==> (r matches Some(v) && (
            v matches TokenValue::UnsignedInt { value, width } && value == decimal_value(s)
                && width == 4) && *final(message_context) == *old(message_context))
            &&& !(all_digits(s) && decimal_value(s) <= u64::MAX) ==> r is None && final(message_context).spec_messages().len() == old(message_context).spec_messages().len() + 1
                && count_errors(final(message_context).spec_messages()) == count_errors(
                old(message_context).spec_messages(),
            ) + 1 && count_warnings(final(message_context).spec_messages()) == count_warnings(
                old(message_context).spec_messages(),
            )
        }),
{
    let bytes = first.bytes_between(last);
    let ghost s = first.source.spec_data().subrange(first.offset as int, last.offset as int);

    if bytes.len() == 0 {
        report_integer_error(first, last, "cannot parse integer from empty string", message_context);
        return None;
    }

    let mut value: u64 = 0;
    let mut i: usize = 0;
    while i < bytes.len()
        invariant
            message_context.wf(),
            bytes@ == s,
            s == first.source.spec_data().subrange(first.offset as int, last.offset as int),
            i <= s.len(),
            forall|k: int| 0 <= k < i ==> is_digit(#[trigger] s[k]),
            value == decimal_value(s.take(i as int)),
            *message_context == *old(message_context),
            first.wf(),
            first.source == last.source,
            first.offset <= last.offset <= first.source.spec_data().len(),
        decreases s.len() - i,
    {
        let b = bytes[i];
        if b < 48 || b > 57 {
            proof {
                assert(!is_digit(s[i as int]));
                assert(!all_digits(s));
            }
            report_integer_error(first, last, "invalid digit found in string", message_context);
            return None;
        }
        let digit = (b - 48) as u64;
        if value > (u64::MAX - digit) / 10 {
            proof {
                let bound = (u64::MAX - digit) as int;
                assert(value * 10 + digit > u64::MAX) by (nonlinear_arith)
                    requires
                        value > bound / 10,
                        0 <= digit <= 9,
                        bound == u64::MAX - digit,
                        value >= 0,
                {}
                assert(s.take(i + 1).drop_last() =~= s.take(i as int));
                assert(s.take(i + 1).last() == s[i as int]);
                assert(decimal_value(s.take(i + 1)) == value * 10 + digit);
                if all_digits(s) {
                    lemma_decimal_value_monotonic(s, i + 1);
                }
            }
            report_integer_error(
                first,
                last,
                "number too large to fit in target type",
                message_context,
            );
            return None;
        }
        proof {
            assert(s.take(i + 1).drop_last() =~= s.take(i as int));
        }
        value = value * 10 + digit;
        i = i + 1;
    }
    proof {
        assert(s.take(i as int) =~= s);
    }

    Some(TokenValue::UnsignedInt { value, width: 4 })
}

/// Parse the bytes between two locations as a floating-point number literal.
///
/// Yields a float token when the bytes spell a floating-point literal;
/// otherwise reports that they do not parse and yields nothing. The number's
/// text stays available through the token's location and length.
pub fn parse_float<'source_context>(
    first: &SourceLocation<'source_context>,
    last: &SourceLocation<'source_context>,
    message_context: &mut MessageContext<'source_context>,
) -> (r: Option<TokenValue>)
    requires
        old(message_context).wf(),
        first.wf(),
        first.source == last.source,
        first.offset <= last.offset,
        last.offset <= first.source.spec_data().len(),
    ensures
        final(message_context).wf(),
        forall|m: Message<'source_context>|
            old(message_context).spec_messages().contains(m) ==> final(message_context).spec_messages().contains(m),
        ({
            let s = first.source.spec_data().subrange(first.offset as int, last.offset as int);
            &&& is_float_literal(s) ==> (r matches Some(v) && (v matches TokenValue::Float {
                width,
            } && width == 8) && *final(message_context) == *old(message_context))
            &&& !is_float_literal(s) ==> r is None && final(message_context).spec_messages().len()
                == old(message_context).spec_messages().len() + 1 && count_errors(
                final(message_context).spec_messages(),
            ) == count_errors(old(message_context).spec_messages()) + 1 && count_warnings(
                final(message_context).spec_messages(),
            ) == count_warnings(old(message_context).spec_messages())
        }),
{
    let bytes = first.bytes_between(last);
    let ghost s = first.source.spec_data().subrange(first.offset as int, last.offset as int);

    let len = bytes.len();
    let i0 = digits_end_exec(bytes, 0);

    let shape_ok: bool = if i0 == len {
        i0 > 0
    } else if bytes[i0] == 46u8 {
        let i1 = digits_end_exec(bytes, i0 + 1);
        (i1 > 0 && i1 != i0 + 1 || i0 > 0) && (i1 == len || is_exponent_exec(bytes, i1))
    } else {
        i0 > 0 && is_exponent_exec(bytes, i0)
    };

    if shape_ok {
        Some(TokenValue::Float { width: 8 })
    } else {
        let message = Message::new_from_range_raw(
            Severity::Error,
            first.source,
            first.line_number,
            first.column_number,
            last.line_number,
            last.column_number,
            String::from_str("unable to parse float literal: invalid float literal"),
        );
        message_context.add(message);
        None
    }
}

/// Report that an integer literal does not parse, anchored at its range.
fn report_integer_error<'source_context>(
    first: &SourceLocation<'source_context>,
    last: &SourceLocation<'source_context>,
    reason: &str,
    message_context: &mut MessageContext<'source_context>,
)
    requires
        old(message_context).wf(),
    ensures
        final(message_context).wf(),
        final(message_context).spec_messages().len() == old(message_context).spec_messages().len()
            + 1,
        count_errors(final(message_context).spec_messages()) == count_errors(
            old(message_context).spec_messages(),
        ) + 1,
        count_warnings(final(message_context).spec_messages()) == count_warnings(
            old(message_context).spec_messages(),
        ),
        forall|m: Message<'source_context>|
            old(message_context).spec_messages().contains(m) ==> final(message_context).spec_messages().contains(m),
{
    let mut text = String::from_str("unable to parse integer literal: ");
    text.append(reason);
    let message = Message::new_from_range_raw(
        Severity::Error,
        first.source,
        first.line_number,
        first.column_number,
        last.line_number,
        last.column_number,
        text,
    );
    message_context.add(message);
}

/// The first position at or after `from` that does not hold a digit.
fn digits_end_exec(bytes: &[u8], from: usize) -> (r: usize)
    requires
        from <= bytes@.len(),
    ensures
        r == digits_end(bytes@, from as int),
        from <= r <= bytes@.len(),
{
    let mut i = from;
    while i < bytes.len() && bytes[i] >= 48 && bytes[i] <= 57
        invariant
            from <= i <= bytes@.len(),
            digits_end(bytes@, from as int) == digits_end(bytes@, i as int),
        decreases bytes@.len() - i,
    {
        i = i + 1;
    }
    i
}

/// Whether the bytes from `i` on spell an exponent.
fn is_exponent_exec(bytes: &[u8], i: usize) -> (r: bool)
    requires
        i <= bytes@.len(),
    ensures
        r == is_exponent(bytes@, i as int),
{
    if i >= bytes.len() {
        return false;
    }
    if bytes[i] != 101u8 && bytes[i] != 69u8 {
        return false;
    }
    let j = if i + 1 < bytes.len() && (bytes[i + 1] == 43u8 || bytes[i + 1] == 45u8) {
        i + 2
    } else {
        i + 1
    };
    j < bytes.len() && digits_end_exec(bytes, j) == bytes.len()
}

} // verus!
