//! The lexer: it walks a source byte by byte and cuts it into tokens,
//! reporting unrecognized input as messages and always advancing.

use vstd::prelude::*;

use crate::lexing::numbers::{
    all_digits, decimal_value, digits_end, is_digit, is_float_literal, parse_float, parse_int,
};
use crate::lexing::token::{Token, TokenValue};
use crate::message::domain::{
    count_errors, count_warnings, insert_position, Message, MessageContext, Severity,
};
use crate::source::domain::{SourceLocation, SourceRef};
use crate::source::reader::SourceReader;

verus! {

/// Whether a byte may stand inside a symbol: a letter, an underscore, a
/// digit, or any byte outside ASCII.
pub open spec fn is_symbol_byte(b: u8) -> bool {
    ||| 97 <= b <= 122
    ||| 65 <= b <= 90
    ||| b == 95
    ||| b >= 128
    ||| 48 <= b <= 57
}

/// The first position at or after `i` that does not hold a symbol byte.
pub open spec fn symbol_end(data: Seq<u8>, i: int) -> int
    decreases data.len() - i,
{
    if 0 <= i < data.len() && is_symbol_byte(data[i]) {
        symbol_end(data, i + 1)
    } else {
        i
    }
}

/// The token value of a symbol's bytes: a keyword or boolean where they
/// spell one, and a plain symbol otherwise.
pub open spec fn spec_symbol_token_value(s: Seq<u8>) -> TokenValue {
    if s.len() == 2 && s[0] == 97u8 && s[1] == 115u8 {
        TokenValue::KeywordAs
    } else if s.len() == 4 && s[0] == 98u8 && s[1] == 111u8 && s[2] == 111u8 && s[3] == 108u8 {
        TokenValue::KeywordBool
    } else if s.len() == 5 && s[0] == 99u8 && s[1] == 111u8 && s[2] == 110u8 && s[3] == 115u8 && s[4] == 116u8 {
        TokenValue::KeywordConst
    } else if s.len() == 4 && s[0] == 101u8 && s[1] == 110u8 && s[2] == 117u8 && s[3] == 109u8 {
        TokenValue::KeywordEnum
    } else if s.len() == 8 && s[0] == 101u8 && s[1] == 120u8 && s[2] == 112u8 && s[3] == 108u8 && s[4] == 105u8 && s[5] == 99u8 && s[6] == 105u8 && s[7] == 116u8 {
        TokenValue::KeywordExplicit
    } else if s.len() == 3 && s[0] == 102u8 && s[1] == 51u8 && s[2] == 50u8 {
        TokenValue::KeywordF32
    } else if s.len() == 3 && s[0] == 102u8 && s[1] == 54u8 && s[2] == 52u8 {
        TokenValue::KeywordF64
    } else if s.len() == 2 && s[0] == 102u8 && s[1] == 110u8 {
        TokenValue::KeywordFn
    } else if s.len() == 3 && s[0] == 105u8 && s[1] == 49u8 && s[2] == 54u8 {
        TokenValue::KeywordI16
    } else if s.len() == 3 && s[0] == 105u8 && s[1] == 51u8 && s[2] == 50u8 {
        TokenValue::KeywordI32
    } else if s.len() == 3 && s[0] == 105u8 && s[1] == 54u8 && s[2] == 52u8 {
        TokenValue::KeywordI64
    } else if s.len() == 2 && s[0] == 105u8 && s[1] == 56u8 {
        TokenValue::KeywordI8
    } else if s.len() == 3 && s[0] == 105u8 && s[1] == 110u8 && s[2] == 116u8 {
        TokenValue::KeywordInt
    } else if s.len() == 5 && s[0] == 105u8 && s[1] == 115u8 && s[2] == 105u8 && s[3] == 122u8 && s[4] == 101u8 {
        TokenValue::KeywordISize
    } else if s.len() == 3 && s[0] == 108u8 && s[1] == 101u8 && s[2] == 116u8 {
        TokenValue::KeywordLet
    } else if s.len() == 5 && s[0] == 110u8 && s[1] == 101u8 && s[2] == 118u8 && s[3] == 101u8 && s[4] == 114u8 {
        TokenValue::KeywordNever
    } else if s.len() == 4 && s[0] == 110u8 && s[1] == 117u8 && s[2] == 108u8 && s[3] == 108u8 {
        TokenValue::KeywordNull
    } else if s.len() == 4 && s[0] == 112u8 && s[1] == 114u8 && s[2] == 111u8 && s[3] == 112u8 {
        TokenValue::KeywordProp
    } else if s.len() == 6 && s[0] == 114u8 && s[1] == 101u8 && s[2] == 116u8 && s[3] == 117u8 && s[4] == 114u8 && s[5] == 110u8 {
        TokenValue::KeywordReturn
    } else if s.len() == 4 && s[0] == 115u8 && s[1] == 101u8 && s[2] == 108u8 && s[3] == 102u8 {
        TokenValue::KeywordSelf
    } else if s.len() == 4 && s[0] == 116u8 && s[1] == 121u8 && s[2] == 112u8 && s[3] == 101u8 {
        TokenValue::KeywordType
    } else if s.len() == 3 && s[0] == 117u8 && s[1] == 49u8 && s[2] == 54u8 {
        TokenValue::KeywordU16
    } else if s.len() == 3 && s[0] == 117u8 && s[1] == 51u8 && s[2] == 50u8 {
        TokenValue::KeywordU32
    } else if s.len() == 3 && s[0] == 117u8 && s[1] == 54u8 && s[2] == 52u8 {
        TokenValue::KeywordU64
    } else if s.len() == 2 && s[0] == 117u8 && s[1] == 56u8 {
        TokenValue::KeywordU8
    } else if s.len() == 4 && s[0] == 117u8 && s[1] == 105u8 && s[2] == 110u8 && s[3] == 116u8 {
        TokenValue::KeywordUInt
    } else if s.len() == 5 && s[0] == 117u8 && s[1] == 115u8 && s[2] == 105u8 && s[3] == 122u8 && s[4] == 101u8 {
        TokenValue::KeywordUSize
    } else if s.len() == 4 && s[0] == 118u8 && s[1] == 111u8 && s[2] == 105u8 && s[3] == 100u8 {
        TokenValue::KeywordVoid
    } else if s.len() == 4 && s[0] == 116u8 && s[1] == 114u8 && s[2] == 117u8 && s[3] == 101u8 {
        TokenValue::Bool(true)
    } else if s.len() == 5 && s[0] == 102u8 && s[1] == 97u8 && s[2] == 108u8 && s[3] == 115u8 && s[4] == 101u8 {
        TokenValue::Bool(false)
    } else {
        TokenValue::Symbol
    }
}

/// Where a number literal ends, and whether a period was consumed, scanning
/// from `off` with the given state: digits, letters and underscores always
/// continue the number, one period may, and one minus may directly after an
/// `e`.
pub open spec fn number_scan(
    data: Seq<u8>,
    off: int,
    found_period: bool,
    found_minus: bool,
    last: u8,
) -> (int, bool)
    decreases data.len() - off,
{
    if off < 0 || off >= data.len() {
        (off, found_period)
    } else {
        let b = data[off];
        if 97 <= b <= 122 || 65 <= b <= 90 || b == 95 || 48 <= b <= 57 {
            number_scan(data, off + 1, found_period, found_minus, b)
        } else if b == 46 {
            if found_period {
                (off, found_period)
            } else {
                number_scan(data, off + 1, true, found_minus, b)
            }
        } else if b == 45 {
            if found_minus {
                (off, found_period)
            } else if last == 101 {
                number_scan(data, off + 1, found_period, true, b)
            } else {
                (off, found_period)
            }
        } else {
            (off, found_period)
        }
    }
}

/// The token value a number literal's bytes produce: a float token when a
/// period was consumed, the digits' value when they parse as an integer, and
/// a zero placeholder when they do not.
pub open spec fn number_token_value(s: Seq<u8>, found_period: bool) -> TokenValue {
    if found_period {
        TokenValue::Float { width: 8 }
    } else if all_digits(s) && decimal_value(s) <= u64::MAX {
        TokenValue::UnsignedInt { value: decimal_value(s) as u64, width: 4 }
    } else {
        TokenValue::UnsignedInt { value: 0, width: 4 }
    }
}

/// One step of the lexer at `off`: where it lands, and the token value it
/// yields, if any. Whitespace, an unrecognized byte and a lone pair of
/// periods yield no token; everything else yields one spanning exactly the
/// consumed bytes.
pub open spec fn spec_step(data: Seq<u8>, off: int) -> (int, Option<TokenValue>) {
    let b = data[off];
    if off < 0 || off >= data.len() {
        (off, None)
    } else if b == 32 || b == 9 || b == 10 || b == 13 {
        (crate::source::reader::spec_read_advance(data, off), None)
    } else if is_symbol_byte(b) && !is_digit(b) {
        let end = symbol_end(data, off);
        (end, Some(spec_symbol_token_value(data.subrange(off, end))))
    } else if is_digit(b) {
        let scanned = number_scan(data, off, false, false, 0);
        (scanned.0, Some(number_token_value(data.subrange(off, scanned.0), scanned.1)))
    } else if b == 40 {
        (off + 1, Some(TokenValue::LeftParenthesis))
    } else if b == 41 {
        (off + 1, Some(TokenValue::RightParenthesis))
    } else if b == 123 {
        (off + 1, Some(TokenValue::LeftCurlyBrace))
    } else if b == 125 {
        (off + 1, Some(TokenValue::RightCurlyBrace))
    } else if b == 91 {
        (off + 1, Some(TokenValue::LeftSquareBracket))
    } else if b == 93 {
        (off + 1, Some(TokenValue::RightSquareBracket))
    } else if b == 46 {
        if off + 1 < data.len() && data[off + 1] == 46 {
            if off + 2 < data.len() && data[off + 2] == 46 {
                (off + 3, Some(TokenValue::Ellipsis))
            } else {
                (off + 2, None)
            }
        } else {
            (off + 1, Some(TokenValue::Period))
        }
    } else if b == 44 {
        (off + 1, Some(TokenValue::Comma))
    } else if b == 58 {
        (off + 1, Some(TokenValue::Colon))
    } else if b == 59 {
        (off + 1, Some(TokenValue::Semicolon))
    } else if b == 126 {
        (off + 1, Some(TokenValue::BitNegate))
    } else if b == 38 {
        if off + 1 < data.len() && data[off + 1] == 38 {
            (off + 2, Some(TokenValue::BoolAnd))
        } else {
            (off + 1, Some(TokenValue::BitAnd))
        }
    } else if b == 124 {
        if off + 1 < data.len() && data[off + 1] == 124 {
            (off + 2, Some(TokenValue::BoolAnd))
        } else {
            (off + 1, Some(TokenValue::BitAnd))
        }
    } else if b == 94 {
        (off + 1, Some(TokenValue::BitXor))
    } else if b == 60 {
        if off + 1 < data.len() && data[off + 1] == 60 {
            (off + 2, Some(TokenValue::BitShiftLeft))
        } else if off + 1 < data.len() && data[off + 1] == 61 {
            (off + 2, Some(TokenValue::LessThanOrEqualTo))
        } else {
            (off + 1, Some(TokenValue::LessThan))
        }
    } else if b == 62 {
        if off + 1 < data.len() && data[off + 1] == 62 {
            (off + 2, Some(TokenValue::BitShiftRight))
        } else if off + 1 < data.len() && data[off + 1] == 61 {
            (off + 2, Some(TokenValue::GreaterThanOrEqualTo))
        } else {
            (off + 1, Some(TokenValue::GreaterThan))
        }
    } else if b == 33 {
        if off + 1 < data.len() && data[off + 1] == 61 {
            (off + 2, Some(TokenValue::NotEquals))
        } else {
            (off + 1, Some(TokenValue::BoolNot))
        }
    } else if b == 45 {
        if off + 1 < data.len() && data[off + 1] == 62 {
            (off + 2, Some(TokenValue::RightArrow))
        } else if off + 1 < data.len() && data[off + 1] == 45 {
            (off + 2, Some(TokenValue::Decrement))
        } else if off + 1 < data.len() && data[off + 1] == 61 {
            (off + 2, Some(TokenValue::SubtractAssign))
        } else {
            (off + 1, Some(TokenValue::Subtract))
        }
    } else if b == 43 {
        if off + 1 < data.len() && data[off + 1] == 43 {
            (off + 2, Some(TokenValue::Increment))
        } else if off + 1 < data.len() && data[off + 1] == 61 {
            (off + 2, Some(TokenValue::AddAssign))
        } else {
            (off + 1, Some(TokenValue::Add))
        }
    } else if b == 42 {
        if off + 1 < data.len() && data[off + 1] == 42 {
            if off + 2 < data.len() && data[off + 2] == 61 {
                (off + 3, Some(TokenValue::ExponentiateAssign))
            } else {
                (off + 2, Some(TokenValue::Exponentiate))
            }
        } else if off + 1 < data.len() && data[off + 1] == 61 {
            (off + 2, Some(TokenValue::MultiplyAssign))
        } else {
            (off + 1, Some(TokenValue::Multiply))
        }
    } else if b == 37 {
        if off + 1 < data.len() && data[off + 1] == 61 {
            (off + 2, Some(TokenValue::ModulateAssign))
        } else {
            (off + 1, Some(TokenValue::Modulate))
        }
    } else if b == 61 {
        if off + 1 < data.len() && data[off + 1] == 61 {
            (off + 2, Some(TokenValue::Equals))
        } else {
            (off + 1, Some(TokenValue::Assign))
        }
    } else {
        (off + 1, None)
    }
}

/// How many messages lexing one number literal at `off` raises.
pub open spec fn spec_step_message_count_number(data: Seq<u8>, off: int) -> int {
    let scanned = number_scan(data, off, false, false, 0);
    let s = data.subrange(off, scanned.0);
    if scanned.1 {
        if is_float_literal(s) {
            0int
        } else {
            1int
        }
    } else {
        if all_digits(s) && decimal_value(s) <= u64::MAX {
            0int
        } else {
            1int
        }
    }
}

/// How many messages one lexer step at `off` raises.
pub open spec fn spec_step_message_count(data: Seq<u8>, off: int) -> int {
    let b = data[off];
    if off < 0 || off >= data.len() {
        0
    } else if b == 32 || b == 9 || b == 10 || b == 13 {
        0
    } else if is_symbol_byte(b) && !is_digit(b) {
        0
    } else if is_digit(b) {
        spec_step_message_count_number(data, off)
    } else if b == 40 || b == 41 || b == 123 || b == 125 || b == 91 || b == 93 || b == 44
        || b == 58 || b == 59 || b == 126 || b == 38 || b == 124 || b == 94 || b == 60 || b == 62
        || b == 33 || b == 45 || b == 43 || b == 42 || b == 37 || b == 61 {
        0
    } else if b == 46 {
        if off + 1 < data.len() && data[off + 1] == 46 && !(off + 2 < data.len() && data[off + 2]
            == 46) {
            1int
        } else {
            0int
        }
    } else {
        1
    }
}

/// Every token the lexer yields from `off` on, each as its value, the
/// offset of its first byte, and its length in bytes.
pub open spec fn spec_lex_from(data: Seq<u8>, off: int) -> Seq<(TokenValue, int, int)>
    decreases data.len() - off,
{
    if off < 0 || off >= data.len() {
        Seq::empty()
    } else {
        let step = spec_step(data, off);
        let next = if step.0 > off {
            step.0
        } else {
            off + 1
        };
        let bounded = if next > data.len() {
            data.len() as int
        } else {
            next
        };
        let here = match step.1 {
            Some(value) => seq![(value, off, next - off)],
            None => Seq::<(TokenValue, int, int)>::empty(),
        };
        here + spec_lex_from(data, bounded)
    }
}

/// Every byte of a symbol run is a symbol byte, and the run stays within
/// the data.
proof fn lemma_symbol_run(data: Seq<u8>, i: int)
    requires
        0 <= i <= data.len(),
    ensures
        i <= symbol_end(data, i) <= data.len(),
        forall|j: int| i <= j < symbol_end(data, i) ==> is_symbol_byte(#[trigger] data[j]),
    decreases data.len() - i,
{
    if i < data.len() && is_symbol_byte(data[i]) {
        lemma_symbol_run(data, i + 1);
    }
}

/// Every byte a number scan consumes continues a number, and the scan stays
/// within the data.
proof fn lemma_number_scan_run(data: Seq<u8>, off: int, fp: bool, fm: bool, last: u8)
    requires
        0 <= off <= data.len(),
    ensures
        off <= number_scan(data, off, fp, fm, last).0 <= data.len(),
        forall|j: int|
            off <= j < number_scan(data, off, fp, fm, last).0 ==> (#[trigger] data[j] != 10u8
                && data[j] != 13u8),
    decreases data.len() - off,
{
    if off < data.len() {
        let b = data[off];
        if 97 <= b <= 122 || 65 <= b <= 90 || b == 95 || 48 <= b <= 57 {
            lemma_number_scan_run(data, off + 1, fp, fm, b);
        } else if b == 46 && !fp {
            lemma_number_scan_run(data, off + 1, true, fm, b);
        } else if b == 45 && !fm && last == 101 {
            lemma_number_scan_run(data, off + 1, fp, true, b);
        }
    }
}

/// The first position at or after `from` that does not hold a symbol byte.
fn symbol_end_exec(bytes: &[u8], from: usize) -> (r: usize)
    requires
        from <= bytes@.len(),
    ensures
        r == symbol_end(bytes@, from as int),
        from <= r <= bytes@.len(),
{
    let mut i = from;
    while i < bytes.len() && (97 <= bytes[i] && bytes[i] <= 122 || 65 <= bytes[i] && bytes[i] <= 90
        || bytes[i] == 95 || bytes[i] >= 128 || 48 <= bytes[i] && bytes[i] <= 57)
        invariant
            from <= i <= bytes@.len(),
            symbol_end(bytes@, from as int) == symbol_end(bytes@, i as int),
        decreases bytes@.len() - i,
    {
        i = i + 1;
    }
    i
}

/// Where a number literal starting at `from` ends, and whether it consumed a
/// period.
fn number_scan_exec(bytes: &[u8], from: usize) -> (r: (usize, bool))
    requires
        from <= bytes@.len(),
    ensures
        r.0 == number_scan(bytes@, from as int, false, false, 0).0,
        r.1 == number_scan(bytes@, from as int, false, false, 0).1,
        from <= r.0 <= bytes@.len(),
{
    let mut i = from;
    let mut found_period = false;
    let mut found_minus = false;
    let mut last: u8 = 0;
    loop
        invariant
            from <= i <= bytes@.len(),
            number_scan(bytes@, from as int, false, false, 0) == number_scan(
                bytes@,
                i as int,
                found_period,
                found_minus,
                last,
            ),
        decreases bytes@.len() - i,
    {
        if i >= bytes.len() {
            return (i, found_period);
        }
        let b = bytes[i];
        if 97 <= b && b <= 122 || 65 <= b && b <= 90 || b == 95 || 48 <= b && b <= 57 {
            i = i + 1;
        } else if b == 46 {
            if found_period {
                return (i, found_period);
            }
            found_period = true;
            i = i + 1;
        } else if b == 45 {
            if found_minus || last != 101 {
                return (i, found_period);
            }
            found_minus = true;
            i = i + 1;
        } else {
            return (i, found_period);
        }
        last = b;
    }
}

/// The token value of a symbol's bytes.
fn symbol_value_of(bytes: &[u8]) -> (v: TokenValue)
    ensures
        v == spec_symbol_token_value(bytes@),
{
    if bytes.len() == 2 && bytes[0] == 97u8 && bytes[1] == 115u8 {
        TokenValue::KeywordAs
    } else if bytes.len() == 4 && bytes[0] == 98u8 && bytes[1] == 111u8 && bytes[2] == 111u8 && bytes[3] == 108u8 {
        TokenValue::KeywordBool
    } else if bytes.len() == 5 && bytes[0] == 99u8 && bytes[1] == 111u8 && bytes[2] == 110u8 && bytes[3] == 115u8 && bytes[4] == 116u8 {
        TokenValue::KeywordConst
    } else if bytes.len() == 4 && bytes[0] == 101u8 && bytes[1] == 110u8 && bytes[2] == 117u8 && bytes[3] == 109u8 {
        TokenValue::KeywordEnum
    } else if bytes.len() == 8 && bytes[0] == 101u8 && bytes[1] == 120u8 && bytes[2] == 112u8 && bytes[3] == 108u8 && bytes[4] == 105u8 && bytes[5] == 99u8 && bytes[6] == 105u8 && bytes[7] == 116u8 {
        TokenValue::KeywordExplicit
    } else if bytes.len() == 3 && bytes[0] == 102u8 && bytes[1] == 51u8 && bytes[2] == 50u8 {
        TokenValue::KeywordF32
    } else if bytes.len() == 3 && bytes[0] == 102u8 && bytes[1] == 54u8 && bytes[2] == 52u8 {
        TokenValue::KeywordF64
    } else if bytes.len() == 2 && bytes[0] == 102u8 && bytes[1] == 110u8 {
        TokenValue::KeywordFn
    } else if bytes.len() == 3 && bytes[0] == 105u8 && bytes[1] == 49u8 && bytes[2] == 54u8 {
        TokenValue::KeywordI16
    } else if bytes.len() == 3 && bytes[0] == 105u8 && bytes[1] == 51u8 && bytes[2] == 50u8 {
        TokenValue::KeywordI32
    } else if bytes.len() == 3 && bytes[0] == 105u8 && bytes[1] == 54u8 && bytes[2] == 52u8 {
        TokenValue::KeywordI64
    } else if bytes.len() == 2 && bytes[0] == 105u8 && bytes[1] == 56u8 {
        TokenValue::KeywordI8
    } else if bytes.len() == 3 && bytes[0] == 105u8 && bytes[1] == 110u8 && bytes[2] == 116u8 {
        TokenValue::KeywordInt
    } else if bytes.len() == 5 && bytes[0] == 105u8 && bytes[1] == 115u8 && bytes[2] == 105u8 && bytes[3] == 122u8 && bytes[4] == 101u8 {
        TokenValue::KeywordISize
    } else if bytes.len() == 3 && bytes[0] == 108u8 && bytes[1] == 101u8 && bytes[2] == 116u8 {
        TokenValue::KeywordLet
    } else if bytes.len() == 5 && bytes[0] == 110u8 && bytes[1] == 101u8 && bytes[2] == 118u8 && bytes[3] == 101u8 && bytes[4] == 114u8 {
        TokenValue::KeywordNever
    } else if bytes.len() == 4 && bytes[0] == 110u8 && bytes[1] == 117u8 && bytes[2] == 108u8 && bytes[3] == 108u8 {
        TokenValue::KeywordNull
    } else if bytes.len() == 4 && bytes[0] == 112u8 && bytes[1] == 114u8 && bytes[2] == 111u8 && bytes[3] == 112u8 {
        TokenValue::KeywordProp
    } else if bytes.len() == 6 && bytes[0] == 114u8 && bytes[1] == 101u8 && bytes[2] == 116u8 && bytes[3] == 117u8 && bytes[4] == 114u8 && bytes[5] == 110u8 {
        TokenValue::KeywordReturn
    } else if bytes.len() == 4 && bytes[0] == 115u8 && bytes[1] == 101u8 && bytes[2] == 108u8 && bytes[3] == 102u8 {
        TokenValue::KeywordSelf
    } else if bytes.len() == 4 && bytes[0] == 116u8 && bytes[1] == 121u8 && bytes[2] == 112u8 && bytes[3] == 101u8 {
        TokenValue::KeywordType
    } else if bytes.len() == 3 && bytes[0] == 117u8 && bytes[1] == 49u8 && bytes[2] == 54u8 {
        TokenValue::KeywordU16
    } else if bytes.len() == 3 && bytes[0] == 117u8 && bytes[1] == 51u8 && bytes[2] == 50u8 {
        TokenValue::KeywordU32
    } else if bytes.len() == 3 && bytes[0] == 117u8 && bytes[1] == 54u8 && bytes[2] == 52u8 {
        TokenValue::KeywordU64
    } else if bytes.len() == 2 && bytes[0] == 117u8 && bytes[1] == 56u8 {
        TokenValue::KeywordU8
    } else if bytes.len() == 4 && bytes[0] == 117u8 && bytes[1] == 105u8 && bytes[2] == 110u8 && bytes[3] == 116u8 {
        TokenValue::KeywordUInt
    } else if bytes.len() == 5 && bytes[0] == 117u8 && bytes[1] == 115u8 && bytes[2] == 105u8 && bytes[3] == 122u8 && bytes[4] == 101u8 {
        TokenValue::KeywordUSize
    } else if bytes.len() == 4 && bytes[0] == 118u8 && bytes[1] == 111u8 && bytes[2] == 105u8 && bytes[3] == 100u8 {
        TokenValue::KeywordVoid
    } else if bytes.len() == 4 && bytes[0] == 116u8 && bytes[1] == 114u8 && bytes[2] == 117u8 && bytes[3] == 101u8 {
        TokenValue::Bool(true)
    } else if bytes.len() == 5 && bytes[0] == 102u8 && bytes[1] == 97u8 && bytes[2] == 108u8 && bytes[3] == 115u8 && bytes[4] == 101u8 {
        TokenValue::Bool(false)
    } else {
        TokenValue::Symbol
    }
}

/// Advance the reader to `end`, which must lie within a stretch of bytes
/// that hold no line break.
fn advance_reader_to<'sc>(reader: &mut SourceReader<'sc>, end: usize)
    requires
        old(reader).wf(),
        old(reader).spec_location().offset <= end <= old(reader).spec_data().len(),
        forall|j: int|
            old(reader).spec_location().offset <= j < end ==> (#[trigger] old(reader).spec_data()[j]
                != 10u8 && old(reader).spec_data()[j] != 13u8),
    ensures
        final(reader).wf(),
        final(reader).spec_location().source == old(reader).spec_location().source,
        final(reader).spec_location().offset == end,
        final(reader).spec_location().line_number == old(reader).spec_location().line_number,
        final(reader).spec_location().column_number == old(reader).spec_location().column_number + (
        end - old(reader).spec_location().offset),
{
    let ghost start = old(reader).spec_location().offset;
    while reader.current_location().offset < end
        invariant
            reader.wf(),
            reader.spec_location().source == old(reader).spec_location().source,
            start <= reader.spec_location().offset <= end,
            end <= reader.spec_data().len(),
            forall|j: int|
                start <= j < end ==> (#[trigger] reader.spec_data()[j] != 10u8
                    && reader.spec_data()[j] != 13u8),
            reader.spec_location().line_number == old(reader).spec_location().line_number,
            reader.spec_location().column_number == old(reader).spec_location().column_number + (
            reader.spec_location().offset - start),
        decreases end - reader.spec_location().offset,
    {
        reader.read_next();
    }
}

/// Read one symbol and classify it as a keyword, a boolean, or a plain
/// symbol name.
fn lex_next_symbol<'sc>(reader: &mut SourceReader<'sc>) -> (r: Token<'sc>)
    requires
        old(reader).wf(),
    ensures
        final(reader).wf(),
        final(reader).spec_location().source == old(reader).spec_location().source,
        final(reader).spec_location().offset == symbol_end(
            old(reader).spec_data(),
            old(reader).spec_location().offset as int,
        ),
        r.first == old(reader).spec_location(),
        r.length == final(reader).spec_location().offset - old(reader).spec_location().offset,
        r.value == spec_symbol_token_value(
            old(reader).spec_data().subrange(
                old(reader).spec_location().offset as int,
                final(reader).spec_location().offset as int,
            ),
        ),
{
    let first = *reader.current_location();
    let source = first.source;
    let data = source.data();

    proof {
        lemma_symbol_run(data@, first.offset as int);
    }
    let end = symbol_end_exec(data, first.offset);

    proof {
        assert forall|j: int| first.offset <= j < end implies (#[trigger] data@[j] != 10u8
            && data@[j] != 13u8) by {
            assert(is_symbol_byte(data@[j]));
        }
    }
    advance_reader_to(reader, end);

    let last = *reader.current_location();
    let bytes = vstd::slice::slice_subrange(data, first.offset, end);
    let value = symbol_value_of(bytes);
    Token::new(value, first, &last)
}

/// Read one number literal and turn it into an integer or float token,
/// reporting bytes that do not parse.
fn lex_next_number<'sc>(
    reader: &mut SourceReader<'sc>,
    message_context: &mut MessageContext<'sc>,
) -> (r: Token<'sc>)
    requires
        old(reader).wf(),
        old(message_context).wf(),
    ensures
        final(reader).wf(),
        final(message_context).wf(),
        final(reader).spec_location().source == old(reader).spec_location().source,
        forall|m: Message<'sc>|
            old(message_context).spec_messages().contains(m) ==> final(message_context).spec_messages().contains(m),
        ({
            let data = old(reader).spec_data();
            let p = old(reader).spec_location().offset as int;
            let scanned = number_scan(data, p, false, false, 0);
            let s = data.subrange(p, scanned.0);
            &&& final(reader).spec_location().offset == scanned.0
            &&& r.first == old(reader).spec_location()
            &&& r.length == scanned.0 - p
            &&& r.value == number_token_value(s, scanned.1)
            &&& final(message_context).spec_messages().len() == old(
                message_context,
            ).spec_messages().len() + spec_step_message_count_number(data, p)
            &&& count_errors(final(message_context).spec_messages()) == count_errors(
                old(message_context).spec_messages(),
            ) + spec_step_message_count_number(data, p)
            &&& count_warnings(final(message_context).spec_messages()) == count_warnings(
                old(message_context).spec_messages(),
            )
        }),
{
    let first = *reader.current_location();
    let source = first.source;
    let data = source.data();

    proof {
        lemma_number_scan_run(data@, first.offset as int, false, false, 0);
    }
    let (end, found_period) = number_scan_exec(data, first.offset);

    advance_reader_to(reader, end);

    let last = *reader.current_location();

    if found_period {
        match parse_float(&first, &last, message_context) {
            Some(token_value) => Token::new(token_value, first, &last),
            None => Token::new(TokenValue::Float { width: 8 }, first, &last),
        }
    } else {
        match parse_int(&first, &last, message_context) {
            Some(token_value) => Token::new(token_value, first, &last),
            None => Token::new(TokenValue::UnsignedInt { value: 0, width: 4 }, first, &last),
        }
    }
}


/// Whether the next byte, seen through newline normalization, equals `b`.
fn peek_is<'sc>(reader: &SourceReader<'sc>, b: u8) -> (r: bool)
    requires
        reader.wf(),
    ensures
        r == (crate::source::reader::spec_peek_byte(
            reader.spec_data(),
            reader.spec_location().offset as int,
        ) == Some(b)),
{
    match reader.peek_next() {
        Some(found) => found == b,
        None => false,
    }
}

/// Lex one step: skip whitespace, cut the next token, or report an
/// unrecognized pair of periods or an unexpected character. Always advances.
fn lex_next_token<'sc>(
    reader: &mut SourceReader<'sc>,
    message_context: &mut MessageContext<'sc>,
) -> (r: Option<Token<'sc>>)
    requires
        old(reader).wf(),
        old(message_context).wf(),
    ensures
        final(reader).wf(),
        final(message_context).wf(),
        forall|m: Message<'sc>|
            old(message_context).spec_messages().contains(m) ==> final(message_context).spec_messages().contains(m),
        final(reader).spec_location().source == old(reader).spec_location().source,
        old(reader).spec_location().offset >= old(reader).spec_data().len() ==> r is None
            && *final(reader) == *old(reader) && *final(message_context) == *old(message_context),
        ({
            let data = old(reader).spec_data();
            let p = old(reader).spec_location().offset as int;
            let step = spec_step(data, p);
            p < data.len() ==> {
                &&& final(reader).spec_location().offset == step.0
                &&& step.0 > p
                &&& (step.1 matches Some(v) ==> (r matches Some(t) && t.value == v && t.first
                    == old(reader).spec_location() && t.length == step.0 - p))
                &&& (step.1 is None ==> r is None)
                &&& final(message_context).spec_messages().len() == old(
                    message_context,
                ).spec_messages().len() + spec_step_message_count(data, p)
                &&& count_errors(final(message_context).spec_messages()) == count_errors(
                    old(message_context).spec_messages(),
                ) + spec_step_message_count(data, p)
                &&& count_warnings(final(message_context).spec_messages()) == count_warnings(
                    old(message_context).spec_messages(),
                )
            }
        }),
        ({
            let data = old(reader).spec_data();
            let p = old(reader).spec_location().offset as int;
            (p < data.len() && data[p] == 46u8 && p + 1 < data.len() && data[p + 1] == 46u8 && !(p
                + 2 < data.len() && data[p + 2] == 46u8)) ==> exists|m: Message<'sc>|
                #[trigger] m.spec_severity() is Error && m.spec_text()
                    == "'..' is not valid punctuation"@ && m.spec_children().len() == 1
                    && m.spec_children()[0].spec_severity() is Suggestion && m.spec_children()[
                0].spec_text() == "did you mean either '.' or '...'?"@ && final(message_context).spec_messages() == old(message_context).spec_messages().insert(
                    insert_position(old(message_context).spec_messages(), m),
                    m,
                )
        }),
{
    let first = *reader.current_location();

    let byte = match reader.peek_next() {
        Some(byte) => byte,
        None => {
            return None;
        },
    };

    match byte {
        // Whitespace
        32 | 9 | 10 => {
            reader.read_next();
            None
        },
        // Symbols and keywords
        b if 97 <= b && b <= 122 || 65 <= b && b <= 90 || b == 95 || b >= 128 => {
            proof {
                lemma_symbol_run(reader.spec_data(), reader.spec_location().offset + 1);
            }
            Some(lex_next_symbol(reader))
        },
        // Numbers
        b if 48 <= b && b <= 57 => {
            proof {
                lemma_number_scan_run(
                    reader.spec_data(),
                    reader.spec_location().offset + 1,
                    false,
                    false,
                    reader.spec_data()[reader.spec_location().offset as int],
                );
            }
            Some(lex_next_number(reader, message_context))
        },
        // Bookends
        40 => {
            reader.read_next();
            Some(Token::new(TokenValue::LeftParenthesis, first, reader.current_location()))
        },
        41 => {
            reader.read_next();
            Some(Token::new(TokenValue::RightParenthesis, first, reader.current_location()))
        },
        123 => {
            reader.read_next();
            Some(Token::new(TokenValue::LeftCurlyBrace, first, reader.current_location()))
        },
        125 => {
            reader.read_next();
            Some(Token::new(TokenValue::RightCurlyBrace, first, reader.current_location()))
        },
        91 => {
            reader.read_next();
            Some(Token::new(TokenValue::LeftSquareBracket, first, reader.current_location()))
        },
        93 => {
            reader.read_next();
            Some(Token::new(TokenValue::RightSquareBracket, first, reader.current_location()))
        },
        // Punctuation
        46 => {
            reader.read_next();
            if peek_is(reader, 46) {
                reader.read_next();
                if peek_is(reader, 46) {
                    reader.read_next();
                    Some(Token::new(TokenValue::Ellipsis, first, reader.current_location()))
                } else {
                    let mut message = Message::new_from_range(
                        Severity::Error,
                        first,
                        *reader.current_location(),
                        String::from_str("'..' is not valid punctuation"),
                    );
                    message.add_child(
                        Message::new(
                            Severity::Suggestion,
                            String::from_str("did you mean either '.' or '...'?"),
                        ),
                    );
                    let ghost gm = message;
                    message_context.add(message);
                    proof {
                        reveal_strlit("'..' is not valid punctuation");
                        reveal_strlit("did you mean either '.' or '...'?");
                        assert(gm.spec_severity() is Error);
                    }
                    None
                }
            } else {
                Some(Token::new(TokenValue::Period, first, reader.current_location()))
            }
        },
        44 => {
            reader.read_next();
            Some(Token::new(TokenValue::Comma, first, reader.current_location()))
        },
        58 => {
            reader.read_next();
            Some(Token::new(TokenValue::Colon, first, reader.current_location()))
        },
        59 => {
            reader.read_next();
            Some(Token::new(TokenValue::Semicolon, first, reader.current_location()))
        },
        // Operators
        126 => {
            reader.read_next();
            Some(Token::new(TokenValue::BitNegate, first, reader.current_location()))
        },
        38 => {
            reader.read_next();
            if peek_is(reader, 38) {
                reader.read_next();
                Some(Token::new(TokenValue::BoolAnd, first, reader.current_location()))
            } else {
                Some(Token::new(TokenValue::BitAnd, first, reader.current_location()))
            }
        },
        124 => {
            reader.read_next();
            if peek_is(reader, 124) {
                reader.read_next();
                Some(Token::new(TokenValue::BoolAnd, first, reader.current_location()))
            } else {
                Some(Token::new(TokenValue::BitAnd, first, reader.current_location()))
            }
        },
        94 => {
            reader.read_next();
            Some(Token::new(TokenValue::BitXor, first, reader.current_location()))
        },
        60 => {
            reader.read_next();
            if peek_is(reader, 60) {
                reader.read_next();
                Some(Token::new(TokenValue::BitShiftLeft, first, reader.current_location()))
            } else if peek_is(reader, 61) {
                reader.read_next();
                Some(Token::new(TokenValue::LessThanOrEqualTo, first, reader.current_location()))
            } else {
                Some(Token::new(TokenValue::LessThan, first, reader.current_location()))
            }
        },
        62 => {
            reader.read_next();
            if peek_is(reader, 62) {
                reader.read_next();
                Some(Token::new(TokenValue::BitShiftRight, first, reader.current_location()))
            } else if peek_is(reader, 61) {
                reader.read_next();
                Some(
                    Token::new(TokenValue::GreaterThanOrEqualTo, first, reader.current_location()),
                )
            } else {
                Some(Token::new(TokenValue::GreaterThan, first, reader.current_location()))
            }
        },
        33 => {
            reader.read_next();
            if peek_is(reader, 61) {
                reader.read_next();
                Some(Token::new(TokenValue::NotEquals, first, reader.current_location()))
            } else {
                Some(Token::new(TokenValue::BoolNot, first, reader.current_location()))
            }
        },
        45 => {
            reader.read_next();
            if peek_is(reader, 62) {
                reader.read_next();
                Some(Token::new(TokenValue::RightArrow, first, reader.current_location()))
            } else if peek_is(reader, 45) {
                reader.read_next();
                Some(Token::new(TokenValue::Decrement, first, reader.current_location()))
            } else if peek_is(reader, 61) {
                reader.read_next();
                Some(Token::new(TokenValue::SubtractAssign, first, reader.current_location()))
            } else {
                Some(Token::new(TokenValue::Subtract, first, reader.current_location()))
            }
        },
        43 => {
            reader.read_next();
            if peek_is(reader, 43) {
                reader.read_next();
                Some(Token::new(TokenValue::Increment, first, reader.current_location()))
            } else if peek_is(reader, 61) {
                reader.read_next();
                Some(Token::new(TokenValue::AddAssign, first, reader.current_location()))
            } else {
                Some(Token::new(TokenValue::Add, first, reader.current_location()))
            }
        },
        42 => {
            reader.read_next();
            if peek_is(reader, 42) {
                reader.read_next();
                if peek_is(reader, 61) {
                    reader.read_next();
                    Some(
                        Token::new(TokenValue::ExponentiateAssign, first, reader.current_location()),
                    )
                } else {
                    Some(Token::new(TokenValue::Exponentiate, first, reader.current_location()))
                }
            } else if peek_is(reader, 61) {
                reader.read_next();
                Some(Token::new(TokenValue::MultiplyAssign, first, reader.current_location()))
            } else {
                Some(Token::new(TokenValue::Multiply, first, reader.current_location()))
            }
        },
        37 => {
            reader.read_next();
            if peek_is(reader, 61) {
                reader.read_next();
                Some(Token::new(TokenValue::ModulateAssign, first, reader.current_location()))
            } else {
                Some(Token::new(TokenValue::Modulate, first, reader.current_location()))
            }
        },
        61 => {
            reader.read_next();
            if peek_is(reader, 61) {
                reader.read_next();
                Some(Token::new(TokenValue::Equals, first, reader.current_location()))
            } else {
                Some(Token::new(TokenValue::Assign, first, reader.current_location()))
            }
        },
        // Error on unknown characters
        _ => {
            message_context.add(
                Message::new_from_location(
                    Severity::Error,
                    *reader.current_location(),
                    String::from_str("unexpected character"),
                ),
            );
            reader.read_next();
            None
        },
    }
}


/// How many messages lexing the whole source from `off` on raises.
pub open spec fn spec_lex_message_count(data: Seq<u8>, off: int) -> int
    decreases data.len() - off,
{
    if off < 0 || off >= data.len() {
        0
    } else {
        let step = spec_step(data, off);
        let next = if step.0 > off {
            step.0
        } else {
            off + 1
        };
        let bounded = if next > data.len() {
            data.len() as int
        } else {
            next
        };
        spec_step_message_count(data, off) + spec_lex_message_count(data, bounded)
    }
}


/// The lexer, started at `from`, runs one step at `off` during its pass.
pub open spec fn spec_lex_visits(data: Seq<u8>, from: int, off: int) -> bool
    decreases data.len() - from,
{
    if !(0 <= from < data.len()) {
        false
    } else if from == off {
        true
    } else {
        let step = spec_step(data, from);
        let next = if step.0 > from {
            step.0
        } else {
            from + 1
        };
        let bounded = if next > data.len() {
            data.len() as int
        } else {
            next
        };
        spec_lex_visits(data, bounded, off)
    }
}

/// A visited offset never lies before the start of the walk.
proof fn lemma_visits_lower(data: Seq<u8>, from: int, off: int)
    requires
        spec_lex_visits(data, from, off),
    ensures
        from <= off < data.len(),
    decreases data.len() - from,
{
    if from != off {
        let step = spec_step(data, from);
        let next = if step.0 > from {
            step.0
        } else {
            from + 1
        };
        let bounded = if next > data.len() {
            data.len() as int
        } else {
            next
        };
        lemma_visits_lower(data, bounded, off);
    }
}

/// The lexer's walk is one chain: a later visited offset is visited from
/// any earlier visited offset.
proof fn lemma_visits_linear(data: Seq<u8>, a: int, b: int, c: int)
    requires
        spec_lex_visits(data, a, b),
        spec_lex_visits(data, a, c),
        b <= c,
    ensures
        spec_lex_visits(data, b, c),
    decreases data.len() - a,
{
    if a != b {
        let step = spec_step(data, a);
        let next = if step.0 > a {
            step.0
        } else {
            a + 1
        };
        let bounded = if next > data.len() {
            data.len() as int
        } else {
            next
        };
        lemma_visits_lower(data, bounded, b);
        if a == c {
        } else {
            lemma_visits_linear(data, bounded, b, c);
        }
    }
}

/// The chain of visited offsets extends by one step.
proof fn lemma_visits_step(data: Seq<u8>, a: int, b: int)
    requires
        spec_lex_visits(data, a, b),
    ensures
        ({
            let step = spec_step(data, b);
            let next = if step.0 > b {
                step.0
            } else {
                b + 1
            };
            let bounded = if next > data.len() {
                data.len() as int
            } else {
                next
            };
            bounded < data.len() ==> spec_lex_visits(data, a, bounded)
        }),
    decreases data.len() - a,
{
    let step_b = spec_step(data, b);
    let next_b = if step_b.0 > b {
        step_b.0
    } else {
        b + 1
    };
    let bounded_b = if next_b > data.len() {
        data.len() as int
    } else {
        next_b
    };
    if a == b {
        if bounded_b < data.len() {
            lemma_visits_lower(data, a, b);
            assert(spec_lex_visits(data, bounded_b, bounded_b));
        }
    } else {
        let step = spec_step(data, a);
        let next = if step.0 > a {
            step.0
        } else {
            a + 1
        };
        let bounded = if next > data.len() {
            data.len() as int
        } else {
            next
        };
        lemma_visits_step(data, bounded, b);
    }
}

/// The shape of the message a lone pair of periods raises: an Error naming
/// the invalid punctuation, with exactly one Suggestion child recommending
/// `.` or `...`.
pub open spec fn spec_two_period_message(m: Message) -> bool {
    &&& m.spec_severity() is Error
    &&& m.spec_text() == "'..' is not valid punctuation"@
    &&& m.spec_children().len() == 1
    &&& m.spec_children()[0].spec_severity() is Suggestion
    &&& m.spec_children()[0].spec_text() == "did you mean either '.' or '...'?"@
}

/// The lexer steps on a lone pair of periods at `off`.
pub open spec fn spec_two_period_step(data: Seq<u8>, off: int) -> bool {
    &&& 0 <= off < data.len()
    &&& data[off] == 46u8
    &&& off + 1 < data.len() && data[off + 1] == 46u8
    &&& !(off + 2 < data.len() && data[off + 2] == 46u8)
}

/// The view of lexed tokens as their values, start offsets and lengths.
pub open spec fn token_triples<'sc>(tokens: Seq<Token<'sc>>) -> Seq<(TokenValue, int, int)> {
    tokens.map_values(|t: Token<'sc>| (t.value, t.first.offset as int, t.length as int))
}

/// Lex a whole source into tokens, accumulating messages about input that
/// does not lex; the pass never stops early.
pub fn lex<'sc>(
    source: SourceRef<'sc>,
    message_context: &mut MessageContext<'sc>,
) -> (r: Vec<Token<'sc>>)
    requires
        source.wf(),
        old(message_context).wf(),
    ensures
        final(message_context).wf(),
        token_triples(r@) == spec_lex_from(source.spec_data(), 0),
        final(message_context).spec_messages().len() == old(message_context).spec_messages().len()
            + spec_lex_message_count(source.spec_data(), 0),
        count_errors(final(message_context).spec_messages()) == count_errors(
            old(message_context).spec_messages(),
        ) + spec_lex_message_count(source.spec_data(), 0),
        count_warnings(final(message_context).spec_messages()) == count_warnings(
            old(message_context).spec_messages(),
        ),
        forall|off: int|
            #![trigger spec_two_period_step(source.spec_data(), off)]
            spec_lex_visits(source.spec_data(), 0, off) && spec_two_period_step(
                source.spec_data(),
                off,
            ) ==> (exists|m: Message<'sc>|
                #[trigger] final(message_context).spec_messages().contains(m)
                    && spec_two_period_message(m)),
{
    let mut tokens: Vec<Token<'sc>> = Vec::new();
    let mut reader = SourceReader::new(SourceLocation::new(source));
    let ghost data = source.spec_data();

    while reader.is_more()
        invariant
            reader.wf(),
            message_context.wf(),
            reader.spec_location().source == source,
            reader.spec_data() == data,
            token_triples(tokens@) + spec_lex_from(data, reader.spec_location().offset as int)
                == spec_lex_from(data, 0),
            message_context.spec_messages().len() + spec_lex_message_count(
                data,
                reader.spec_location().offset as int,
            ) == old(message_context).spec_messages().len() + spec_lex_message_count(data, 0),
            count_errors(message_context.spec_messages()) + spec_lex_message_count(
                data,
                reader.spec_location().offset as int,
            ) == count_errors(old(message_context).spec_messages()) + spec_lex_message_count(
                data,
                0,
            ),
            count_warnings(message_context.spec_messages()) == count_warnings(
                old(message_context).spec_messages(),
            ),
            reader.spec_location().offset < data.len() ==> spec_lex_visits(
                data,
                0,
                reader.spec_location().offset as int,
            ),
            forall|off: int|
                #![trigger spec_two_period_step(data, off)]
                spec_lex_visits(data, 0, off) && off < reader.spec_location().offset
                    && spec_two_period_step(data, off) ==> (exists|m: Message<'sc>|
                    #[trigger] message_context.spec_messages().contains(m)
                        && spec_two_period_message(m)),
        decreases data.len() - reader.spec_location().offset,
    {
        let ghost at = reader.spec_location().offset as int;
        let ghost step = spec_step(data, at);
        let ghost prev_tokens = tokens@;
        let ghost mc_before_messages = message_context.spec_messages();

        if let Some(token) = lex_next_token(&mut reader, message_context) {
            tokens.push(token);
        }

        proof {
            let bounded = if step.0 > data.len() {
                data.len() as int
            } else {
                step.0
            };
            assert(bounded == step.0);
            if step.1 is Some {
                assert(token_triples(tokens@) =~= token_triples(prev_tokens) + seq![
                    (step.1->0, at, step.0 - at),
                ]);
            } else {
                assert(token_triples(tokens@) =~= token_triples(prev_tokens));
            }
            lemma_visits_step(data, 0, at);
            assert forall|off: int|
                #![trigger spec_two_period_step(data, off)]
                spec_lex_visits(data, 0, off) && off < reader.spec_location().offset
                    && spec_two_period_step(data, off) implies (exists|m: Message<'sc>|
                #[trigger] message_context.spec_messages().contains(m) && spec_two_period_message(
                    m,
                )) by {
                if off >= at {
                    lemma_visits_linear(data, 0, at, off);
                    if off != at {
                        lemma_visits_lower(
                            data,
                            if step.0 > at {
                                if step.0 > data.len() {
                                    data.len() as int
                                } else {
                                    step.0
                                }
                            } else {
                                at + 1
                            },
                            off,
                        );
                    }
                    assert(off == at);
                    let m0 = choose|m: Message<'sc>|
                        #[trigger] m.spec_severity() is Error && m.spec_text()
                            == "'..' is not valid punctuation"@ && m.spec_children().len() == 1
                            && m.spec_children()[0].spec_severity() is Suggestion
                            && m.spec_children()[0].spec_text()
                            == "did you mean either '.' or '...'?"@
                            && message_context.spec_messages() == mc_before_messages.insert(
                            insert_position(mc_before_messages, m),
                            m,
                        );
                    let pos = insert_position(mc_before_messages, m0);
                    crate::message::domain::lemma_insert_position_in_range(
                        mc_before_messages,
                        m0,
                    );
                    assert(message_context.spec_messages()[pos] == m0);
                    assert(message_context.spec_messages().contains(m0));
                    assert(spec_two_period_message(m0));
                }
            }
        }
    }
    proof {
        assert(spec_lex_from(data, reader.spec_location().offset as int) =~= Seq::empty());
        assert(token_triples(tokens@) =~= token_triples(tokens@) + Seq::empty());
    }
    tokens
}

} // verus!
