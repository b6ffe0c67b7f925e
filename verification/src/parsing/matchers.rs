//! Functions for creating token matching conditions.

use vstd::prelude::*;

use crate::lexing::token::{same_token_value, Token, TokenValue};

verus! {

/// A matcher that accepts every token.
pub fn match_any_token<'source_context>() -> (m: impl Fn(&Token<'source_context>) -> bool)
    ensures
        forall|t: &Token<'source_context>| #[trigger] call_requires(m, (t,)),
        forall|t: &Token<'source_context>, b: bool| call_ensures(m, (t,), b) ==> b == true,
{
    |_token: &Token<'source_context>| -> (b: bool)
        ensures
            b == true,
        {
            true
        }
}

/// A matcher that accepts a token when its value satisfies `condition`.
pub fn match_token_with_condition<'source_context, Condition: Fn(&TokenValue) -> bool>(
    condition: Condition,
) -> (m: impl Fn(&Token<'source_context>) -> bool)
    requires
        forall|v: &TokenValue| #[trigger] call_requires(condition, (v,)),
    ensures
        forall|t: &Token<'source_context>| #[trigger] call_requires(m, (t,)),
        forall|t: &Token<'source_context>, b: bool|
            call_ensures(m, (t,), b) ==> call_ensures(condition, (&t.value,), b),
{
    move |token: &Token<'source_context>| -> (b: bool)
        ensures
            call_ensures(condition, (&token.value,), b),
        {
            condition(&token.value)
        }
}

/// A matcher that accepts a token when its value equals `value`.
pub fn match_token_with_value<'source_context, 'token_value>(value: &'token_value TokenValue) -> (m:
    impl Fn(&Token<'source_context>) -> bool + 'token_value)
    ensures
        forall|t: &Token<'source_context>| #[trigger] call_requires(m, (t,)),
        forall|t: &Token<'source_context>, b: bool|
            call_ensures(m, (t,), b) ==> b == same_token_value(t.value, *value),
{
    move |token: &Token<'source_context>| -> (b: bool)
        ensures
            b == same_token_value(token.value, *value),
        {
            token.value == *value
        }
}

} // verus!
