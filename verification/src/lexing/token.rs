use vstd::prelude::*;

use crate::source::domain::SourceLocation;

verus! {

/// The value of a token: which keyword, literal, symbol, bookend,
/// punctuation mark, or operator it stands for.
#[derive(Debug, Clone)]
pub enum TokenValue {
    // Keywords
    KeywordAs,
    KeywordBool,
    KeywordConst,
    KeywordEnum,
    KeywordExplicit,
    KeywordF32,
    KeywordF64,
    KeywordFn,
    KeywordI16,
    KeywordI32,
    KeywordI64,
    KeywordI8,
    KeywordInt,
    KeywordISize,
    KeywordLet,
    KeywordNever,
    KeywordNull,
    KeywordProp,
    KeywordReturn,
    KeywordSelf,
    KeywordType,
    KeywordU16,
    KeywordU32,
    KeywordU64,
    KeywordU8,
    KeywordUInt,
    KeywordUSize,
    KeywordVoid,

    // Literals
    Bool(bool),
    UnsignedInt { value: u64, width: u32 },
    SignedInt { value: i64, width: u32 },
    Float { width: u32 },
    Character { value: Vec<u8>, byte_flag: bool },
    StringData { value: Vec<u8>, byte_flag: bool },

    // Symbols
    Symbol,

    // Bookends, punctuation and operators
    LeftParenthesis,
    RightParenthesis,
    LeftCurlyBrace,
    RightCurlyBrace,
    LeftSquareBracket,
    RightSquareBracket,
    Period,
    Comma,
    Colon,
    Semicolon,
    RightArrow,
    Ellipsis,
    BitNegate,
    BitAnd,
    BitOr,
    BitXor,
    BitShiftLeft,
    BitShiftRight,
    BoolNot,
    BoolAnd,
    BoolOr,
    Negate,
    Add,
    Increment,
    Subtract,
    Decrement,
    Multiply,
    Exponentiate,
    Modulate,
    LessThan,
    LessThanOrEqualTo,
    GreaterThan,
    GreaterThanOrEqualTo,
    Equals,
    NotEquals,
    Assign,
    BitAndAssign,
    BitOrAssign,
    BitXorAssign,
    BitShiftLeftAssign,
    BitShiftRightAssign,
    BoolAndAssign,
    BoolOrAssign,
    AddAssign,
    SubtractAssign,
    MultiplyAssign,
    ExponentiateAssign,
    ModulateAssign,
}

/// Whether two token values stand for the same token.
pub open spec fn same_token_value(a: TokenValue, b: TokenValue) -> bool {
    match (a, b) {
        (TokenValue::KeywordAs, TokenValue::KeywordAs) => true,
        (TokenValue::KeywordBool, TokenValue::KeywordBool) => true,
        (TokenValue::KeywordConst, TokenValue::KeywordConst) => true,
        (TokenValue::KeywordEnum, TokenValue::KeywordEnum) => true,
        (TokenValue::KeywordExplicit, TokenValue::KeywordExplicit) => true,
        (TokenValue::KeywordF32, TokenValue::KeywordF32) => true,
        (TokenValue::KeywordF64, TokenValue::KeywordF64) => true,
        (TokenValue::KeywordFn, TokenValue::KeywordFn) => true,
        (TokenValue::KeywordI16, TokenValue::KeywordI16) => true,
        (TokenValue::KeywordI32, TokenValue::KeywordI32) => true,
        (TokenValue::KeywordI64, TokenValue::KeywordI64) => true,
        (TokenValue::KeywordI8, TokenValue::KeywordI8) => true,
        (TokenValue::KeywordInt, TokenValue::KeywordInt) => true,
        (TokenValue::KeywordISize, TokenValue::KeywordISize) => true,
        (TokenValue::KeywordLet, TokenValue::KeywordLet) => true,
        (TokenValue::KeywordNever, TokenValue::KeywordNever) => true,
        (TokenValue::KeywordNull, TokenValue::KeywordNull) => true,
        (TokenValue::KeywordProp, TokenValue::KeywordProp) => true,
        (TokenValue::KeywordReturn, TokenValue::KeywordReturn) => true,
        (TokenValue::KeywordSelf, TokenValue::KeywordSelf) => true,
        (TokenValue::KeywordType, TokenValue::KeywordType) => true,
        (TokenValue::KeywordU16, TokenValue::KeywordU16) => true,
        (TokenValue::KeywordU32, TokenValue::KeywordU32) => true,
        (TokenValue::KeywordU64, TokenValue::KeywordU64) => true,
        (TokenValue::KeywordU8, TokenValue::KeywordU8) => true,
        (TokenValue::KeywordUInt, TokenValue::KeywordUInt) => true,
        (TokenValue::KeywordUSize, TokenValue::KeywordUSize) => true,
        (TokenValue::KeywordVoid, TokenValue::KeywordVoid) => true,
        (TokenValue::Bool(x), TokenValue::Bool(y)) => x == y,
        (
            TokenValue::UnsignedInt { value: xv, width: xw },
            TokenValue::UnsignedInt { value: yv, width: yw },
        ) => xv == yv && xw == yw,
        (
            TokenValue::SignedInt { value: xv, width: xw },
            TokenValue::SignedInt { value: yv, width: yw },
        ) => xv == yv && xw == yw,
        (TokenValue::Float { width: xw }, TokenValue::Float { width: yw }) => xw == yw,
        (
            TokenValue::Character { value: xv, byte_flag: xf },
            TokenValue::Character { value: yv, byte_flag: yf },
        ) => xv@ == yv@ && xf == yf,
        (
            TokenValue::StringData { value: xv, byte_flag: xf },
            TokenValue::StringData { value: yv, byte_flag: yf },
        ) => xv@ == yv@ && xf == yf,
        (TokenValue::Symbol, TokenValue::Symbol) => true,
        (TokenValue::LeftParenthesis, TokenValue::LeftParenthesis) => true,
        (TokenValue::RightParenthesis, TokenValue::RightParenthesis) => true,
        (TokenValue::LeftCurlyBrace, TokenValue::LeftCurlyBrace) => true,
        (TokenValue::RightCurlyBrace, TokenValue::RightCurlyBrace) => true,
        (TokenValue::LeftSquareBracket, TokenValue::LeftSquareBracket) => true,
        (TokenValue::RightSquareBracket, TokenValue::RightSquareBracket) => true,
        (TokenValue::Period, TokenValue::Period) => true,
        (TokenValue::Comma, TokenValue::Comma) => true,
        (TokenValue::Colon, TokenValue::Colon) => true,
        (TokenValue::Semicolon, TokenValue::Semicolon) => true,
        (TokenValue::RightArrow, TokenValue::RightArrow) => true,
        (TokenValue::Ellipsis, TokenValue::Ellipsis) => true,
        (TokenValue::BitNegate, TokenValue::BitNegate) => true,
        (TokenValue::BitAnd, TokenValue::BitAnd) => true,
        (TokenValue::BitOr, TokenValue::BitOr) => true,
        (TokenValue::BitXor, TokenValue::BitXor) => true,
        (TokenValue::BitShiftLeft, TokenValue::BitShiftLeft) => true,
        (TokenValue::BitShiftRight, TokenValue::BitShiftRight) => true,
        (TokenValue::BoolNot, TokenValue::BoolNot) => true,
        (TokenValue::BoolAnd, TokenValue::BoolAnd) => true,
        (TokenValue::BoolOr, TokenValue::BoolOr) => true,
        (TokenValue::Negate, TokenValue::Negate) => true,
        (TokenValue::Add, TokenValue::Add) => true,
        (TokenValue::Increment, TokenValue::Increment) => true,
        (TokenValue::Subtract, TokenValue::Subtract) => true,
        (TokenValue::Decrement, TokenValue::Decrement) => true,
        (TokenValue::Multiply, TokenValue::Multiply) => true,
        (TokenValue::Exponentiate, TokenValue::Exponentiate) => true,
        (TokenValue::Modulate, TokenValue::Modulate) => true,
        (TokenValue::LessThan, TokenValue::LessThan) => true,
        (TokenValue::LessThanOrEqualTo, TokenValue::LessThanOrEqualTo) => true,
        (TokenValue::GreaterThan, TokenValue::GreaterThan) => true,
        (TokenValue::GreaterThanOrEqualTo, TokenValue::GreaterThanOrEqualTo) => true,
        (TokenValue::Equals, TokenValue::Equals) => true,
        (TokenValue::NotEquals, TokenValue::NotEquals) => true,
        (TokenValue::Assign, TokenValue::Assign) => true,
        (TokenValue::BitAndAssign, TokenValue::BitAndAssign) => true,
        (TokenValue::BitOrAssign, TokenValue::BitOrAssign) => true,
        (TokenValue::BitXorAssign, TokenValue::BitXorAssign) => true,
        (TokenValue::BitShiftLeftAssign, TokenValue::BitShiftLeftAssign) => true,
        (TokenValue::BitShiftRightAssign, TokenValue::BitShiftRightAssign) => true,
        (TokenValue::BoolAndAssign, TokenValue::BoolAndAssign) => true,
        (TokenValue::BoolOrAssign, TokenValue::BoolOrAssign) => true,
        (TokenValue::AddAssign, TokenValue::AddAssign) => true,
        (TokenValue::SubtractAssign, TokenValue::SubtractAssign) => true,
        (TokenValue::MultiplyAssign, TokenValue::MultiplyAssign) => true,
        (TokenValue::ExponentiateAssign, TokenValue::ExponentiateAssign) => true,
        (TokenValue::ModulateAssign, TokenValue::ModulateAssign) => true,
        _ => false,
    }
}

impl PartialEq for TokenValue {
    fn eq(&self, other: &Self) -> (r: bool) {
        match (self, other) {
            (TokenValue::KeywordAs, TokenValue::KeywordAs) => true,
            (TokenValue::KeywordBool, TokenValue::KeywordBool) => true,
            (TokenValue::KeywordConst, TokenValue::KeywordConst) => true,
            (TokenValue::KeywordEnum, TokenValue::KeywordEnum) => true,
            (TokenValue::KeywordExplicit, TokenValue::KeywordExplicit) => true,
            (TokenValue::KeywordF32, TokenValue::KeywordF32) => true,
            (TokenValue::KeywordF64, TokenValue::KeywordF64) => true,
            (TokenValue::KeywordFn, TokenValue::KeywordFn) => true,
            (TokenValue::KeywordI16, TokenValue::KeywordI16) => true,
            (TokenValue::KeywordI32, TokenValue::KeywordI32) => true,
            (TokenValue::KeywordI64, TokenValue::KeywordI64) => true,
            (TokenValue::KeywordI8, TokenValue::KeywordI8) => true,
            (TokenValue::KeywordInt, TokenValue::KeywordInt) => true,
            (TokenValue::KeywordISize, TokenValue::KeywordISize) => true,
            (TokenValue::KeywordLet, TokenValue::KeywordLet) => true,
            (TokenValue::KeywordNever, TokenValue::KeywordNever) => true,
            (TokenValue::KeywordNull, TokenValue::KeywordNull) => true,
            (TokenValue::KeywordProp, TokenValue::KeywordProp) => true,
            (TokenValue::KeywordReturn, TokenValue::KeywordReturn) => true,
            (TokenValue::KeywordSelf, TokenValue::KeywordSelf) => true,
            (TokenValue::KeywordType, TokenValue::KeywordType) => true,
            (TokenValue::KeywordU16, TokenValue::KeywordU16) => true,
            (TokenValue::KeywordU32, TokenValue::KeywordU32) => true,
            (TokenValue::KeywordU64, TokenValue::KeywordU64) => true,
            (TokenValue::KeywordU8, TokenValue::KeywordU8) => true,
            (TokenValue::KeywordUInt, TokenValue::KeywordUInt) => true,
            (TokenValue::KeywordUSize, TokenValue::KeywordUSize) => true,
            (TokenValue::KeywordVoid, TokenValue::KeywordVoid) => true,
            (TokenValue::Bool(x), TokenValue::Bool(y)) => x == y,
            (
                TokenValue::UnsignedInt { value: xv, width: xw },
                TokenValue::UnsignedInt { value: yv, width: yw },
            ) => xv == yv && xw == yw,
            (
                TokenValue::SignedInt { value: xv, width: xw },
                TokenValue::SignedInt { value: yv, width: yw },
            ) => xv == yv && xw == yw,
            (TokenValue::Float { width: xw }, TokenValue::Float { width: yw }) => xw == yw,
            (
                TokenValue::Character { value: xv, byte_flag: xf },
                TokenValue::Character { value: yv, byte_flag: yf },
            ) => bytes_eq(xv, yv) && xf == yf,
            (
                TokenValue::StringData { value: xv, byte_flag: xf },
                TokenValue::StringData { value: yv, byte_flag: yf },
            ) => bytes_eq(xv, yv) && xf == yf,
            (TokenValue::Symbol, TokenValue::Symbol) => true,
            (TokenValue::LeftParenthesis, TokenValue::LeftParenthesis) => true,
            (TokenValue::RightParenthesis, TokenValue::RightParenthesis) => true,
            (TokenValue::LeftCurlyBrace, TokenValue::LeftCurlyBrace) => true,
            (TokenValue::RightCurlyBrace, TokenValue::RightCurlyBrace) => true,
            (TokenValue::LeftSquareBracket, TokenValue::LeftSquareBracket) => true,
            (TokenValue::RightSquareBracket, TokenValue::RightSquareBracket) => true,
            (TokenValue::Period, TokenValue::Period) => true,
            (TokenValue::Comma, TokenValue::Comma) => true,
            (TokenValue::Colon, TokenValue::Colon) => true,
            (TokenValue::Semicolon, TokenValue::Semicolon) => true,
            (TokenValue::RightArrow, TokenValue::RightArrow) => true,
            (TokenValue::Ellipsis, TokenValue::Ellipsis) => true,
            (TokenValue::BitNegate, TokenValue::BitNegate) => true,
            (TokenValue::BitAnd, TokenValue::BitAnd) => true,
            (TokenValue::BitOr, TokenValue::BitOr) => true,
            (TokenValue::BitXor, TokenValue::BitXor) => true,
            (TokenValue::BitShiftLeft, TokenValue::BitShiftLeft) => true,
            (TokenValue::BitShiftRight, TokenValue::BitShiftRight) => true,
            (TokenValue::BoolNot, TokenValue::BoolNot) => true,
            (TokenValue::BoolAnd, TokenValue::BoolAnd) => true,
            (TokenValue::BoolOr, TokenValue::BoolOr) => true,
            (TokenValue::Negate, TokenValue::Negate) => true,
            (TokenValue::Add, TokenValue::Add) => true,
            (TokenValue::Increment, TokenValue::Increment) => true,
            (TokenValue::Subtract, TokenValue::Subtract) => true,
            (TokenValue::Decrement, TokenValue::Decrement) => true,
            (TokenValue::Multiply, TokenValue::Multiply) => true,
            (TokenValue::Exponentiate, TokenValue::Exponentiate) => true,
            (TokenValue::Modulate, TokenValue::Modulate) => true,
            (TokenValue::LessThan, TokenValue::LessThan) => true,
            (TokenValue::LessThanOrEqualTo, TokenValue::LessThanOrEqualTo) => true,
            (TokenValue::GreaterThan, TokenValue::GreaterThan) => true,
            (TokenValue::GreaterThanOrEqualTo, TokenValue::GreaterThanOrEqualTo) => true,
            (TokenValue::Equals, TokenValue::Equals) => true,
            (TokenValue::NotEquals, TokenValue::NotEquals) => true,
            (TokenValue::Assign, TokenValue::Assign) => true,
            (TokenValue::BitAndAssign, TokenValue::BitAndAssign) => true,
            (TokenValue::BitOrAssign, TokenValue::BitOrAssign) => true,
            (TokenValue::BitXorAssign, TokenValue::BitXorAssign) => true,
            (TokenValue::BitShiftLeftAssign, TokenValue::BitShiftLeftAssign) => true,
            (TokenValue::BitShiftRightAssign, TokenValue::BitShiftRightAssign) => true,
            (TokenValue::BoolAndAssign, TokenValue::BoolAndAssign) => true,
            (TokenValue::BoolOrAssign, TokenValue::BoolOrAssign) => true,
            (TokenValue::AddAssign, TokenValue::AddAssign) => true,
            (TokenValue::SubtractAssign, TokenValue::SubtractAssign) => true,
            (TokenValue::MultiplyAssign, TokenValue::MultiplyAssign) => true,
            (TokenValue::ExponentiateAssign, TokenValue::ExponentiateAssign) => true,
            (TokenValue::ModulateAssign, TokenValue::ModulateAssign) => true,
            _ => false,
        }
    }
}

impl vstd::std_specs::cmp::PartialEqSpecImpl for TokenValue {
    open spec fn obeys_eq_spec() -> bool {
        true
    }

    open spec fn eq_spec(&self, other: &Self) -> bool {
        same_token_value(*self, *other)
    }
}

impl Eq for TokenValue {
}

/// Compare two byte vectors element by element.
fn bytes_eq(a: &Vec<u8>, b: &Vec<u8>) -> (r: bool)
    ensures
        r == (a@ == b@),
{
    if a.len() != b.len() {
        proof {
            assert(a@.len() != b@.len());
        }
        return false;
    }
    let mut i: usize = 0;
    while i < a.len()
        invariant
            i <= a@.len(),
            a@.len() == b@.len(),
            forall|j: int| 0 <= j < i ==> a@[j] == b@[j],
        decreases a@.len() - i,
    {
        if a[i] != b[i] {
            return false;
        }
        i = i + 1;
    }
    proof {
        assert(a@ =~= b@);
    }
    true
}

/// The spelling of a token value, as shown in messages.
pub open spec fn spec_describe_token_value(v: TokenValue) -> Seq<char> {
    match v {
        TokenValue::KeywordAs => "'as'"@,
        TokenValue::KeywordBool => "'bool'"@,
        TokenValue::KeywordConst => "'const'"@,
        TokenValue::KeywordEnum => "'enum'"@,
        TokenValue::KeywordExplicit => "'explicit'"@,
        TokenValue::KeywordF32 => "'f32'"@,
        TokenValue::KeywordF64 => "'f64'"@,
        TokenValue::KeywordFn => "'fn'"@,
        TokenValue::KeywordI16 => "'i16'"@,
        TokenValue::KeywordI32 => "'i32'"@,
        TokenValue::KeywordI64 => "'i64'"@,
        TokenValue::KeywordI8 => "'i8'"@,
        TokenValue::KeywordInt => "'int'"@,
        TokenValue::KeywordISize => "'isize'"@,
        TokenValue::KeywordLet => "'let'"@,
        TokenValue::KeywordNever => "'never'"@,
        TokenValue::KeywordNull => "'null'"@,
        TokenValue::KeywordProp => "'prop'"@,
        TokenValue::KeywordReturn => "'return'"@,
        TokenValue::KeywordSelf => "'self'"@,
        TokenValue::KeywordType => "'type'"@,
        TokenValue::KeywordU16 => "'u16'"@,
        TokenValue::KeywordU32 => "'u32'"@,
        TokenValue::KeywordU64 => "'u64'"@,
        TokenValue::KeywordU8 => "'u8'"@,
        TokenValue::KeywordUInt => "'uint'"@,
        TokenValue::KeywordUSize => "'usize'"@,
        TokenValue::KeywordVoid => "'void'"@,
        TokenValue::Bool(value) => if value {
            "true"@
        } else {
            "false"@
        },
        TokenValue::UnsignedInt { .. } => "integer literal"@,
        TokenValue::SignedInt { .. } => "integer literal"@,
        TokenValue::Float { .. } => "float literal"@,
        TokenValue::Character { .. } => "character literal"@,
        TokenValue::StringData { .. } => "string literal"@,
        TokenValue::Symbol => "symbol"@,
        TokenValue::LeftParenthesis => "'('"@,
        TokenValue::RightParenthesis => "')'"@,
        TokenValue::LeftCurlyBrace => "'{'"@,
        TokenValue::RightCurlyBrace => "'}'"@,
        TokenValue::LeftSquareBracket => "'['"@,
        TokenValue::RightSquareBracket => "']'"@,
        TokenValue::Period => "'.'"@,
        TokenValue::Comma => "','"@,
        TokenValue::Colon => "':'"@,
        TokenValue::Semicolon => "';'"@,
        TokenValue::RightArrow => "'->'"@,
        TokenValue::Ellipsis => "'...'"@,
        TokenValue::BitNegate => "'~'"@,
        TokenValue::BitAnd => "'&'"@,
        TokenValue::BitOr => "'|'"@,
        TokenValue::BitXor => "'^'"@,
        TokenValue::BitShiftLeft => "'<<'"@,
        TokenValue::BitShiftRight => "'>>'"@,
        TokenValue::BoolNot => "'!'"@,
        TokenValue::BoolAnd => "'&&'"@,
        TokenValue::BoolOr => "'||'"@,
        TokenValue::Negate => "'!'"@,
        TokenValue::Add => "'+'"@,
        TokenValue::Increment => "'++'"@,
        TokenValue::Subtract => "'-'"@,
        TokenValue::Decrement => "'--'"@,
        TokenValue::Multiply => "'*'"@,
        TokenValue::Exponentiate => "'**'"@,
        TokenValue::Modulate => "'%'"@,
        TokenValue::LessThan => "'<'"@,
        TokenValue::LessThanOrEqualTo => "'<='"@,
        TokenValue::GreaterThan => "'>'"@,
        TokenValue::GreaterThanOrEqualTo => "'>='"@,
        TokenValue::Equals => "'=='"@,
        TokenValue::NotEquals => "'!='"@,
        TokenValue::Assign => "'='"@,
        TokenValue::BitAndAssign => "'&='"@,
        TokenValue::BitOrAssign => "'|='"@,
        TokenValue::BitXorAssign => "'^='"@,
        TokenValue::BitShiftLeftAssign => "'<<='"@,
        TokenValue::BitShiftRightAssign => "'>>='"@,
        TokenValue::BoolAndAssign => "'&&='"@,
        TokenValue::BoolOrAssign => "'||='"@,
        TokenValue::AddAssign => "'+='"@,
        TokenValue::SubtractAssign => "'-='"@,
        TokenValue::MultiplyAssign => "'*='"@,
        TokenValue::ExponentiateAssign => "'**='"@,
        TokenValue::ModulateAssign => "'%='"@,
    }
}

impl TokenValue {
    /// The spelling of the token value, as shown in messages.
    pub fn describe(&self) -> (r: &'static str)
        ensures
            r@ == spec_describe_token_value(*self),
    {
        match self {
            TokenValue::KeywordAs => "'as'",
            TokenValue::KeywordBool => "'bool'",
            TokenValue::KeywordConst => "'const'",
            TokenValue::KeywordEnum => "'enum'",
            TokenValue::KeywordExplicit => "'explicit'",
            TokenValue::KeywordF32 => "'f32'",
            TokenValue::KeywordF64 => "'f64'",
            TokenValue::KeywordFn => "'fn'",
            TokenValue::KeywordI16 => "'i16'",
            TokenValue::KeywordI32 => "'i32'",
            TokenValue::KeywordI64 => "'i64'",
            TokenValue::KeywordI8 => "'i8'",
            TokenValue::KeywordInt => "'int'",
            TokenValue::KeywordISize => "'isize'",
            TokenValue::KeywordLet => "'let'",
            TokenValue::KeywordNever => "'never'",
            TokenValue::KeywordNull => "'null'",
            TokenValue::KeywordProp => "'prop'",
            TokenValue::KeywordReturn => "'return'",
            TokenValue::KeywordSelf => "'self'",
            TokenValue::KeywordType => "'type'",
            TokenValue::KeywordU16 => "'u16'",
            TokenValue::KeywordU32 => "'u32'",
            TokenValue::KeywordU64 => "'u64'",
            TokenValue::KeywordU8 => "'u8'",
            TokenValue::KeywordUInt => "'uint'",
            TokenValue::KeywordUSize => "'usize'",
            TokenValue::KeywordVoid => "'void'",
            TokenValue::Bool(value) => if *value {
                "true"
            } else {
                "false"
            },
            TokenValue::UnsignedInt { .. } => "integer literal",
            TokenValue::SignedInt { .. } => "integer literal",
            TokenValue::Float { .. } => "float literal",
            TokenValue::Character { .. } => "character literal",
            TokenValue::StringData { .. } => "string literal",
            TokenValue::Symbol => "symbol",
            TokenValue::LeftParenthesis => "'('",
            TokenValue::RightParenthesis => "')'",
            TokenValue::LeftCurlyBrace => "'{'",
            TokenValue::RightCurlyBrace => "'}'",
            TokenValue::LeftSquareBracket => "'['",
            TokenValue::RightSquareBracket => "']'",
            TokenValue::Period => "'.'",
            TokenValue::Comma => "','",
            TokenValue::Colon => "':'",
            TokenValue::Semicolon => "';'",
            TokenValue::RightArrow => "'->'",
            TokenValue::Ellipsis => "'...'",
            TokenValue::BitNegate => "'~'",
            TokenValue::BitAnd => "'&'",
            TokenValue::BitOr => "'|'",
            TokenValue::BitXor => "'^'",
            TokenValue::BitShiftLeft => "'<<'",
            TokenValue::BitShiftRight => "'>>'",
            TokenValue::BoolNot => "'!'",
            TokenValue::BoolAnd => "'&&'",
            TokenValue::BoolOr => "'||'",
            TokenValue::Negate => "'!'",
            TokenValue::Add => "'+'",
            TokenValue::Increment => "'++'",
            TokenValue::Subtract => "'-'",
            TokenValue::Decrement => "'--'",
            TokenValue::Multiply => "'*'",
            TokenValue::Exponentiate => "'**'",
            TokenValue::Modulate => "'%'",
            TokenValue::LessThan => "'<'",
            TokenValue::LessThanOrEqualTo => "'<='",
            TokenValue::GreaterThan => "'>'",
            TokenValue::GreaterThanOrEqualTo => "'>='",
            TokenValue::Equals => "'=='",
            TokenValue::NotEquals => "'!='",
            TokenValue::Assign => "'='",
            TokenValue::BitAndAssign => "'&='",
            TokenValue::BitOrAssign => "'|='",
            TokenValue::BitXorAssign => "'^='",
            TokenValue::BitShiftLeftAssign => "'<<='",
            TokenValue::BitShiftRightAssign => "'>>='",
            TokenValue::BoolAndAssign => "'&&='",
            TokenValue::BoolOrAssign => "'||='",
            TokenValue::AddAssign => "'+='",
            TokenValue::SubtractAssign => "'-='",
            TokenValue::MultiplyAssign => "'*='",
            TokenValue::ExponentiateAssign => "'**='",
            TokenValue::ModulateAssign => "'%='",
        }
    }
}

/// A token cut out of the source: its value, where it starts, where it
/// ends, and how many bytes it covers.
#[derive(Clone)]
pub struct Token<'source_context> {
    pub value: TokenValue,
    pub first: SourceLocation<'source_context>,
    pub last: SourceLocation<'source_context>,
    pub length: usize,
}

impl<'source_context> Token<'source_context> {
    /// Build a token from the location of its first byte and the location
    /// just past its last byte.
    pub fn new(
        value: TokenValue,
        first: SourceLocation<'source_context>,
        last: &SourceLocation<'source_context>,
    ) -> (r: Token<'source_context>)
        requires
            first.offset <= last.offset,
        ensures
            r.value == value,
            r.first == first,
            r.last == *last,
            r.length == last.offset - first.offset,
    {
        Token { value, first, last: *last, length: last.offset - first.offset }
    }
}

} // verus!
