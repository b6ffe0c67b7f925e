//! Parser fragments that can be reused: backtracking primitives over a token
//! reader, with structured error reporting into a message context.

use vstd::prelude::*;

use crate::lexing::reader::TokenReader;
use crate::lexing::token::{same_token_value, Token, TokenValue};
use crate::message::domain::{insert_position, Message, MessageContext, Severity};
use crate::parsing::ast::{OperatorBinary, OperatorUnary, Value};
use crate::parsing::matchers::match_token_with_value;

verus! {

/// The parser can be called on any reader over the given tokens, paired with
/// any well-formed message context.
pub open spec fn parser_callable<
    'sc,
    Output,
    P: Fn(&mut TokenReader<'sc>, &mut MessageContext<'sc>) -> Option<Output>,
>(parser: P, tokens: Seq<Token<'sc>>) -> bool {
    forall|m: &mut TokenReader<'sc>, c: &mut MessageContext<'sc>|
        m.spec_tokens() == tokens && m.wf() && c.wf() ==> #[trigger] call_requires(parser, (m, c))
}

/// The parser, run on a reader standing at `offset` over `tokens` beside
/// some message context, can yield the given result.
pub open spec fn parser_can_yield<
    'sc,
    Output,
    P: Fn(&mut TokenReader<'sc>, &mut MessageContext<'sc>) -> Option<Output>,
>(parser: P, tokens: Seq<Token<'sc>>, offset: usize, outcome: Option<Output>) -> bool {
    exists|m: &mut TokenReader<'sc>, c: &mut MessageContext<'sc>|
        m.spec_tokens() == tokens && m.spec_offset() == offset && #[trigger] call_ensures(
            parser,
            (m, c),
            outcome,
        )
}

/// One new Error with the given text, anchored at the range from `first` to
/// `last` and carrying no children, was inserted at its place in the render
/// order; everything else is unchanged.
pub open spec fn one_ranged_error_added<'sc>(
    old_mc: MessageContext<'sc>,
    new_mc: MessageContext<'sc>,
    text: Seq<char>,
    first: crate::source::domain::SourceLocation<'sc>,
    last: crate::source::domain::SourceLocation<'sc>,
) -> bool {
    exists|m: Message<'sc>|
        #[trigger] m.spec_severity() == Severity::Error && m.spec_text() == text
            && m.spec_source() == Some(first.source) && m.spec_first_line() == Some(
            first.line_number,
        ) && m.spec_first_column() == Some(first.column_number) && m.spec_last_line() == Some(
            last.line_number,
        ) && m.spec_last_column() == Some(last.column_number) && m.spec_children().len() == 0
            && new_mc.spec_messages() == old_mc.spec_messages().insert(
            insert_position(old_mc.spec_messages(), m),
            m,
        )
}

/// One new Error with the given text, anchored nowhere and carrying no
/// children, was inserted at its place in the render order; everything else
/// is unchanged.
pub open spec fn one_global_error_added<'sc>(
    old_mc: MessageContext<'sc>,
    new_mc: MessageContext<'sc>,
    text: Seq<char>,
) -> bool {
    exists|m: Message<'sc>|
        #[trigger] m.spec_severity() == Severity::Error && m.spec_text() == text
            && m.spec_source() is None && m.spec_first_line() is None && m.spec_first_column()
            is None && m.spec_last_line() is None && m.spec_last_column() is None
            && m.spec_children().len() == 0 && new_mc.spec_messages()
            == old_mc.spec_messages().insert(insert_position(old_mc.spec_messages(), m), m)
}

/// The matcher can be called on any token.
pub open spec fn matcher_callable<'sc, M: Fn(&Token<'sc>) -> bool>(matcher: M) -> bool {
    forall|t: &Token<'sc>| #[trigger] call_requires(matcher, (t,))
}


/// Check whether the next token matches, without any side effect.
pub fn check_token<'sc, M: Fn(&Token<'sc>) -> bool>(
    token_reader: &mut TokenReader<'sc>,
    matcher: M,
) -> (r: bool)
    requires
        matcher_callable(matcher),
    ensures
        *final(token_reader) == *old(token_reader),
        old(token_reader).spec_offset() >= old(token_reader).spec_tokens().len() ==> r == false,
        old(token_reader).spec_offset() < old(token_reader).spec_tokens().len() ==> call_ensures(
            matcher,
            (&old(token_reader).spec_tokens()[old(token_reader).spec_offset() as int],),
            r,
        ),
{
    match token_reader.peek_next() {
        Some(token) => matcher(token),
        None => false,
    }
}

/// Read the next token when it matches; otherwise yield nothing, silently,
/// with the position left unchanged.
pub fn read_token_or_return_none<'sc, 'tr, M: Fn(&Token<'sc>) -> bool>(
    token_reader: &'tr mut TokenReader<'sc>,
    matcher: M,
) -> (r: Option<&'tr Token<'sc>>)
    requires
        old(token_reader).wf(),
        matcher_callable(matcher),
    ensures
        final(token_reader).wf(),
        final(token_reader).spec_tokens() == old(token_reader).spec_tokens(),
        old(token_reader).spec_offset() >= old(token_reader).spec_tokens().len() ==> r is None
            && *final(token_reader) == *old(token_reader),
        old(token_reader).spec_offset() < old(token_reader).spec_tokens().len() ==> ((r matches Some(t) && *t == old(
            token_reader,
        ).spec_tokens()[old(token_reader).spec_offset() as int] && final(token_reader).spec_offset() == old(token_reader).spec_offset() + 1 && call_ensures(
            matcher,
            (&old(token_reader).spec_tokens()[old(token_reader).spec_offset() as int],),
            true,
        )) || (r is None && *final(token_reader) == *old(token_reader) && call_ensures(
            matcher,
            (&old(token_reader).spec_tokens()[old(token_reader).spec_offset() as int],),
            false,
        ))),
{
    let matched = match token_reader.peek_next() {
        Some(token) => matcher(token),
        None => {
            return None;
        },
    };
    if matched {
        token_reader.read_next()
    } else {
        None
    }
}

/// Read the next token when it matches; otherwise raise an error message and
/// yield nothing.
///
/// A mismatch is reported at the offending token; running out of tokens is
/// reported as an unexpected end of file.
pub fn read_token_or_error_and_return_none<'sc, 'tr, M: Fn(&Token<'sc>) -> bool>(
    token_reader: &'tr mut TokenReader<'sc>,
    message_context: &mut MessageContext<'sc>,
    matcher: M,
    message_text: String,
) -> (r: Option<&'tr Token<'sc>>)
    requires
        old(token_reader).wf(),
        old(message_context).wf(),
        matcher_callable(matcher),
    ensures
        final(token_reader).wf(),
        final(message_context).wf(),
        final(token_reader).spec_tokens() == old(token_reader).spec_tokens(),
        final(token_reader).spec_offset() >= old(token_reader).spec_offset(),
        final(message_context).spec_messages().len() >= old(message_context).spec_messages().len(),
        r is Some ==> *final(message_context) == *old(message_context),
        r is None ==> final(message_context).spec_messages().len() == old(
            message_context,
        ).spec_messages().len() + 1,
        old(token_reader).spec_offset() >= old(token_reader).spec_tokens().len() ==> r is None
            && *final(token_reader) == *old(token_reader) && one_global_error_added(
            *old(message_context),
            *final(message_context),
            "unexpected end of file"@,
        ),
        old(token_reader).spec_offset() < old(token_reader).spec_tokens().len() ==> final(token_reader).spec_offset() == old(token_reader).spec_offset() + 1 && ((r matches Some(t) && *t == old(
            token_reader,
        ).spec_tokens()[old(token_reader).spec_offset() as int] && call_ensures(
            matcher,
            (&old(token_reader).spec_tokens()[old(token_reader).spec_offset() as int],),
            true,
        )) || (r is None && call_ensures(
            matcher,
            (&old(token_reader).spec_tokens()[old(token_reader).spec_offset() as int],),
            false,
        ) && one_ranged_error_added(
            *old(message_context),
            *final(message_context),
            message_text@,
            old(token_reader).spec_tokens()[old(token_reader).spec_offset() as int].first,
            old(token_reader).spec_tokens()[old(token_reader).spec_offset() as int].last,
        ))),
{
    match token_reader.read_next() {
        Some(token) => {
            if matcher(token) {
                Some(token)
            } else {
                let message = Message::new_from_range(
                    Severity::Error,
                    token.first,
                    token.last,
                    message_text,
                );
                let ghost gm = message;
                message_context.add(message);
                proof {
                    assert(one_ranged_error_added(
                        *old(message_context),
                        *final(message_context),
                        gm.spec_text(),
                        old(token_reader).spec_tokens()[old(token_reader).spec_offset() as int].first,
                        old(token_reader).spec_tokens()[old(token_reader).spec_offset() as int].last,
                    ));
                }
                None
            }
        },
        None => {
            let message = Message::new(
                Severity::Error,
                String::from_str("unexpected end of file"),
            );
            let ghost gm = message;
            message_context.add(message);
            proof {
                reveal_strlit("unexpected end of file");
                assert(one_global_error_added(
                    *old(message_context),
                    *final(message_context),
                    gm.spec_text(),
                ));
            }
            None
        },
    }
}

/// Run a sub-parser; on failure rewind the reader to where it stood and
/// raise an error message there.
pub fn parse_or_error_and_return_none<
    'sc,
    Output,
    P: Fn(&mut TokenReader<'sc>, &mut MessageContext<'sc>) -> Option<Output>,
>(
    token_reader: &mut TokenReader<'sc>,
    message_context: &mut MessageContext<'sc>,
    parser: P,
    message_text: String,
) -> (r: Option<Output>)
    requires
        old(token_reader).wf(),
        old(message_context).wf(),
        parser_callable(parser, old(token_reader).spec_tokens()),
        forall|m: &mut TokenReader<'sc>, c: &mut MessageContext<'sc>, o: Option<Output>|
            #[trigger] call_ensures(parser, (m, c), o) ==> final(m).spec_tokens()
                == m.spec_tokens() && final(m).wf() && final(m).spec_offset() >= m.spec_offset()
                && final(c).wf() && final(c).spec_messages().len() >= c.spec_messages().len(),
    ensures
        final(token_reader).wf(),
        final(message_context).wf(),
        final(token_reader).spec_tokens() == old(token_reader).spec_tokens(),
        final(token_reader).spec_offset() >= old(token_reader).spec_offset(),
        final(message_context).spec_messages().len() >= old(message_context).spec_messages().len(),
        r is None ==> final(token_reader).spec_offset() == old(token_reader).spec_offset()
            && final(message_context).spec_messages().len() >= old(message_context).spec_messages().len() + 1,
        r matches Some(v) ==> (exists|m: &mut TokenReader<'sc>, c: &mut MessageContext<'sc>|
            *m == *old(token_reader) && *c == *old(message_context) && #[trigger] call_ensures(
                parser,
                (m, c),
                Some(v),
            ) && *final(m) == *final(token_reader) && *final(c) == *final(message_context)),
        r is None ==> (exists|m: &mut TokenReader<'sc>, c: &mut MessageContext<'sc>|
            *m == *old(token_reader) && *c == *old(message_context) && #[trigger] call_ensures(
                parser,
                (m, c),
                Option::<Output>::None,
            ) && (if old(token_reader).spec_offset() < old(token_reader).spec_tokens().len() {
                one_ranged_error_added(
                    *final(c),
                    *final(message_context),
                    message_text@,
                    old(token_reader).spec_tokens()[old(token_reader).spec_offset() as int].first,
                    old(token_reader).spec_tokens()[old(token_reader).spec_offset() as int].last,
                )
            } else {
                one_global_error_added(*final(c), *final(message_context), message_text@)
            })),
{
    let state_start = token_reader.save_state();

    let parsed = parser(token_reader, message_context);
    match parsed {
        Some(output) => Some(output),
        None => {
            token_reader.restore_state(state_start);

            let anchor = match token_reader.peek_next() {
                Some(token) => Some((token.first, token.last)),
                None => None,
            };
            let message = match anchor {
                Some((first, last)) => Message::new_from_range(
                    Severity::Error,
                    first,
                    last,
                    message_text,
                ),
                None => Message::new(Severity::Error, message_text),
            };
            message_context.add(message);
            None
        },
    }
}

/// Try each parser in turn, rewinding between attempts; yield the first
/// success, or rewind fully and yield nothing, with no message raised here.
pub fn parse_first_of<
    'sc,
    Output,
    P: Fn(&mut TokenReader<'sc>, &mut MessageContext<'sc>) -> Option<Output>,
>(
    token_reader: &mut TokenReader<'sc>,
    message_context: &mut MessageContext<'sc>,
    parsers: &[P],
) -> (r: Option<Output>)
    requires
        old(token_reader).wf(),
        old(message_context).wf(),
        forall|k: int|
            0 <= k < parsers@.len() ==> parser_callable(
                #[trigger] parsers@[k],
                old(token_reader).spec_tokens(),
            ),
        forall|k: int, m: &mut TokenReader<'sc>, c: &mut MessageContext<'sc>, o: Option<Output>|
            0 <= k < parsers@.len() && #[trigger] call_ensures(parsers@[k], (m, c), o) ==> final(m).spec_tokens() == m.spec_tokens() && final(m).wf() && final(m).spec_offset()
                >= m.spec_offset() && final(c).wf(),
    ensures
        final(token_reader).wf(),
        final(message_context).wf(),
        final(token_reader).spec_tokens() == old(token_reader).spec_tokens(),
        final(token_reader).spec_offset() >= old(token_reader).spec_offset(),
        r is None ==> final(token_reader).spec_offset() == old(token_reader).spec_offset(),
        r matches Some(v) ==> (exists|k: int, m: &mut TokenReader<'sc>, c: &mut MessageContext<'sc>|
            0 <= k < parsers@.len() && m.spec_tokens() == old(token_reader).spec_tokens()
                && m.spec_offset() == old(token_reader).spec_offset() && final(m).spec_offset()
                == final(token_reader).spec_offset() && #[trigger] call_ensures(
                parsers@[k],
                (m, c),
                Some(v),
            ) && (forall|j: int|
                0 <= j < k ==> parser_can_yield(
                    parsers@[j],
                    old(token_reader).spec_tokens(),
                    old(token_reader).spec_offset(),
                    Option::<Output>::None,
                ))),
        r is None ==> (forall|k: int|
            0 <= k < parsers@.len() ==> #[trigger] parser_can_yield(
                parsers@[k],
                old(token_reader).spec_tokens(),
                old(token_reader).spec_offset(),
                Option::<Output>::None,
            )),
{
    let state_start = token_reader.save_state();

    let mut k: usize = 0;
    let parser_count = parsers.len();
    while k < parser_count
        invariant
            parser_count == parsers@.len(),
            k <= parser_count,
            token_reader.wf(),
            message_context.wf(),
            token_reader.spec_tokens() == old(token_reader).spec_tokens(),
            token_reader.spec_offset() == old(token_reader).spec_offset(),
            state_start.spec_offset() == old(token_reader).spec_offset(),
            forall|j: int|
                0 <= j < parsers@.len() ==> parser_callable(
                    #[trigger] parsers@[j],
                    old(token_reader).spec_tokens(),
                ),
            forall|j: int, m: &mut TokenReader<'sc>, c: &mut MessageContext<'sc>, o: Option<
                Output,
            >|
                0 <= j < parsers@.len() && #[trigger] call_ensures(parsers@[j], (m, c), o)
                    ==> final(m).spec_tokens() == m.spec_tokens() && final(m).wf() && final(m).spec_offset() >= m.spec_offset() && final(c).wf(),
            forall|j: int|
                0 <= j < k ==> #[trigger] parser_can_yield(
                    parsers@[j],
                    old(token_reader).spec_tokens(),
                    old(token_reader).spec_offset(),
                    Option::<Output>::None,
                ),
        decreases parser_count - k,
    {
        let parser = &parsers[k];
        let attempt = parser(token_reader, message_context);
        if let Some(output) = attempt {
            proof {
                assert(exists|m: &mut TokenReader<'sc>, c: &mut MessageContext<'sc>|
                    m.spec_tokens() == old(token_reader).spec_tokens() && m.spec_offset() == old(
                        token_reader,
                    ).spec_offset() && final(m).spec_offset() == token_reader.spec_offset()
                        && #[trigger] call_ensures(parsers@[k as int], (m, c), Some(output)));
            }
            return Some(output);
        }
        proof {
            assert(parser_can_yield(
                parsers@[k as int],
                old(token_reader).spec_tokens(),
                old(token_reader).spec_offset(),
                Option::<Output>::None,
            ));
        }
        token_reader.restore_state(state_start);
        k = k + 1;
    }

    token_reader.restore_state(state_start);

    None
}

/// Two string pieces joined into one message text.
fn joined_text(first_part: &str, second_part: &str) -> (r: String)
    ensures
        r@ == first_part@ + second_part@,
{
    let mut text = String::from_str(first_part);
    text.append(second_part);
    text
}

/// Report an error at the current token, or an unexpected end of file when
/// none remain.
fn report_error_here<'sc>(
    token_reader: &mut TokenReader<'sc>,
    message_context: &mut MessageContext<'sc>,
    message_text: String,
)
    requires
        old(token_reader).wf(),
        old(message_context).wf(),
    ensures
        *final(token_reader) == *old(token_reader),
        final(message_context).wf(),
        final(message_context).spec_messages().len() == old(message_context).spec_messages().len()
            + 1,
        old(token_reader).spec_offset() < old(token_reader).spec_tokens().len()
            ==> one_ranged_error_added(
            *old(message_context),
            *final(message_context),
            message_text@,
            old(token_reader).spec_tokens()[old(token_reader).spec_offset() as int].first,
            old(token_reader).spec_tokens()[old(token_reader).spec_offset() as int].last,
        ),
        old(token_reader).spec_offset() >= old(token_reader).spec_tokens().len()
            ==> one_global_error_added(
            *old(message_context),
            *final(message_context),
            message_text@,
        ),
{
    let anchor = match token_reader.peek_next() {
        Some(token) => Some((token.first, token.last)),
        None => None,
    };
    let message = match anchor {
        Some((first, last)) => Message::new_from_range(Severity::Error, first, last, message_text),
        None => Message::new(Severity::Error, message_text),
    };
    message_context.add(message);
}


/// The run of a bounded separated list from the first item position on,
/// for an item parser pinned by three functions of the position: whether it
/// succeeds, where it leaves the reader, and what it yields. The result is
/// the list outcome, the final reader position, and how many messages the
/// list combinator itself raises.
pub open spec fn spec_separated_tail<'sc, Output>(
    tokens: Seq<Token<'sc>>,
    pos: int,
    success: spec_fn(int) -> bool,
    consume: spec_fn(int) -> int,
    produce: spec_fn(int) -> Output,
    separator: TokenValue,
    closer: TokenValue,
    items: Seq<Output>,
) -> (Option<Seq<Output>>, int, int)
    decreases tokens.len() + 1 - pos,
{
    if pos >= tokens.len() {
        (None, pos, 1)
    } else if !success(pos) {
        (None, pos, 1)
    } else {
        let raw = consume(pos);
        let after = if raw < pos {
            pos
        } else if raw > tokens.len() {
            tokens.len() as int
        } else {
            raw
        };
        let new_items = items.push(produce(pos));
        if after < tokens.len() && same_token_value(tokens[after].value, closer) {
            (Some(new_items), after + 1, 0)
        } else if after >= tokens.len() {
            (None, after, 1)
        } else if !same_token_value(tokens[after].value, separator) {
            (None, after + 1, 1)
        } else {
            let next = after + 1;
            if next < tokens.len() && same_token_value(tokens[next].value, closer) {
                (Some(new_items), next + 1, 0)
            } else {
                spec_separated_tail(
                    tokens,
                    next,
                    success,
                    consume,
                    produce,
                    separator,
                    closer,
                    new_items,
                )
            }
        }
    }
}

/// The whole outcome of a bounded separated list at `pos`, for a pinned
/// item parser: nothing and no message without the opener, the empty list
/// for an opener directly followed by the closer, and the item run
/// otherwise.
pub open spec fn spec_separated_list<'sc, Output>(
    tokens: Seq<Token<'sc>>,
    pos: int,
    success: spec_fn(int) -> bool,
    consume: spec_fn(int) -> int,
    produce: spec_fn(int) -> Output,
    opener: TokenValue,
    separator: TokenValue,
    closer: TokenValue,
) -> (Option<Seq<Output>>, int, int) {
    if !(0 <= pos < tokens.len()) || !same_token_value(tokens[pos].value, opener) {
        (None, pos, 0)
    } else if pos + 1 < tokens.len() && same_token_value(tokens[pos + 1].value, closer) {
        (Some(Seq::empty()), pos + 2, 0)
    } else {
        spec_separated_tail(
            tokens,
            pos + 1,
            success,
            consume,
            produce,
            separator,
            closer,
            Seq::empty(),
        )
    }
}

/// Parse a list bounded by an opener and a closer and separated by a
/// separator: `( item , item )`.
///
/// When the opener is missing nothing is yielded and no message is raised;
/// after the opener, a missing item, separator or closer is reported and
/// nothing is yielded. A trailing separator directly before the closer is
/// allowed, and an opener directly followed by the closer yields an empty
/// list.
pub fn parse_repeated_bound_separated_or_error_and_return_none<
    'sc,
    Output,
    P: Fn(&mut TokenReader<'sc>, &mut MessageContext<'sc>) -> Option<Output>,
>(
    token_reader: &mut TokenReader<'sc>,
    message_context: &mut MessageContext<'sc>,
    item_name: &str,
    parser: P,
    opener: &TokenValue,
    separator: &TokenValue,
    closer: &TokenValue,
) -> (r: Option<Vec<Output>>)
    requires
        old(token_reader).wf(),
        old(message_context).wf(),
        parser_callable(parser, old(token_reader).spec_tokens()),
        forall|m: &mut TokenReader<'sc>, c: &mut MessageContext<'sc>, o: Option<Output>|
            #[trigger] call_ensures(parser, (m, c), o) ==> final(m).spec_tokens()
                == m.spec_tokens() && final(m).wf() && final(m).spec_offset() >= m.spec_offset()
                && final(c).wf() && final(c).spec_messages().len() >= c.spec_messages().len(),
    ensures
        final(token_reader).wf(),
        final(message_context).wf(),
        final(token_reader).spec_tokens() == old(token_reader).spec_tokens(),
        final(token_reader).spec_offset() >= old(token_reader).spec_offset(),
        final(message_context).spec_messages().len() >= old(message_context).spec_messages().len(),
        old(token_reader).spec_offset() >= old(token_reader).spec_tokens().len() ==> r is None
            && *final(token_reader) == *old(token_reader) && *final(message_context) == *old(message_context),
        (old(token_reader).spec_offset() < old(token_reader).spec_tokens().len()
            && !same_token_value(
            old(token_reader).spec_tokens()[old(token_reader).spec_offset() as int].value,
            *opener,
        )) ==> r is None && *final(token_reader) == *old(token_reader) && *final(message_context)
            == *old(message_context),
        ({
            let tokens = old(token_reader).spec_tokens();
            let at = old(token_reader).spec_offset() as int;
            (at + 1 < tokens.len() && same_token_value(tokens[at].value, *opener)
                && same_token_value(tokens[at + 1].value, *closer)) ==> (r matches Some(v)
                && v@.len() == 0 && final(token_reader).spec_offset() == at + 2 && *final(message_context) == *old(message_context))
        }),
        r is Some ==> ({
            let tokens = old(token_reader).spec_tokens();
            &&& final(token_reader).spec_offset() >= old(token_reader).spec_offset() + 2
            &&& same_token_value(tokens[old(token_reader).spec_offset() as int].value, *opener)
            &&& same_token_value(tokens[final(token_reader).spec_offset() - 1].value, *closer)
        }),
        (old(token_reader).spec_offset() < old(token_reader).spec_tokens().len()
            && same_token_value(
            old(token_reader).spec_tokens()[old(token_reader).spec_offset() as int].value,
            *opener,
        ) && r is None) ==> final(message_context).spec_messages().len() >= old(message_context).spec_messages().len() + 1,
        (forall|m: &mut TokenReader<'sc>, c: &mut MessageContext<'sc>, o: Option<Output>|
            #[trigger] call_ensures(parser, (m, c), o) ==> final(c).spec_messages()
                == c.spec_messages()) ==> {
            &&& (r is Some ==> final(message_context).spec_messages() == old(message_context).spec_messages())
            &&& ((old(token_reader).spec_offset() < old(token_reader).spec_tokens().len()
                && same_token_value(
                old(token_reader).spec_tokens()[old(token_reader).spec_offset() as int].value,
                *opener,
            ) && r is None) ==> final(message_context).spec_messages().len() == old(message_context).spec_messages().len() + 1)
        },
        forall|success: spec_fn(int) -> bool, consume: spec_fn(int) -> int, produce: spec_fn(
            int,
        ) -> Output|
            (forall|m: &mut TokenReader<'sc>, c: &mut MessageContext<'sc>, o: Option<Output>|
                #[trigger] call_ensures(parser, (m, c), o) ==> o == (
                if success(m.spec_offset() as int) {
                    Option::Some(produce(m.spec_offset() as int))
                } else {
                    Option::<Output>::None
                }) && (success(m.spec_offset() as int) ==> final(m).spec_offset() as int
                    == consume(m.spec_offset() as int)) && final(c).spec_messages()
                    == c.spec_messages()) ==> ({
                let outcome = #[trigger] spec_separated_list(
                    old(token_reader).spec_tokens(),
                    old(token_reader).spec_offset() as int,
                    success,
                    consume,
                    produce,
                    *opener,
                    *separator,
                    *closer,
                );
                &&& (match outcome.0 {
                    Some(values) => r matches Some(v) && v@ == values,
                    None => r is None,
                })
                &&& final(token_reader).spec_offset() as int == outcome.1
                &&& final(message_context).spec_messages().len() == old(message_context).spec_messages().len() + outcome.2
            }),
{
    let opener_matcher = match_token_with_value(opener);
    if read_token_or_return_none(token_reader, opener_matcher).is_none() {
        return None;
    }
    proof {
        assert(same_token_value(
            old(token_reader).spec_tokens()[old(token_reader).spec_offset() as int].value,
            *opener,
        ));
    }

    let mut items: Vec<Output> = Vec::new();

    if check_token(token_reader, match_token_with_value(closer)) {
        token_reader.read_next();
        return Some(items);
    }

    proof {
        assert forall|success: spec_fn(int) -> bool, consume: spec_fn(int) -> int, produce: spec_fn(
            int,
        ) -> Output|
            (forall|m: &mut TokenReader<'sc>, c: &mut MessageContext<'sc>, o: Option<
                Output,
            >|
                #[trigger] call_ensures(parser, (m, c), o) ==> o == (
                if success(m.spec_offset() as int) {
                    Option::Some(produce(m.spec_offset() as int))
                } else {
                    Option::<Output>::None
                }) && (success(m.spec_offset() as int) ==> final(m).spec_offset() as int
                    == consume(m.spec_offset() as int)) && final(c).spec_messages()
                    == c.spec_messages()) implies ({
            let outcome = #[trigger] spec_separated_list(
                old(token_reader).spec_tokens(),
                old(token_reader).spec_offset() as int,
                success,
                consume,
                produce,
                *opener,
                *separator,
                *closer,
            );
            outcome == spec_separated_tail(
                old(token_reader).spec_tokens(),
                token_reader.spec_offset() as int,
                success,
                consume,
                produce,
                *separator,
                *closer,
                items@,
            )
        }) by {
            assert(items@ =~= Seq::<Output>::empty());
        }
    }

    while token_reader.is_more()
        invariant_except_break
            forall|success: spec_fn(int) -> bool, consume: spec_fn(int) -> int, produce: spec_fn(
                int,
            ) -> Output|
                (forall|m: &mut TokenReader<'sc>, c: &mut MessageContext<'sc>, o: Option<Output>|
                #[trigger] call_ensures(parser, (m, c), o) ==> o == (
                if success(m.spec_offset() as int) {
                    Option::Some(produce(m.spec_offset() as int))
                } else {
                    Option::<Output>::None
                }) && (success(m.spec_offset() as int) ==> final(m).spec_offset() as int
                    == consume(m.spec_offset() as int)) && final(c).spec_messages()
                    == c.spec_messages()) ==> ({
                    let outcome = #[trigger] spec_separated_list(
                        old(token_reader).spec_tokens(),
                        old(token_reader).spec_offset() as int,
                        success,
                        consume,
                        produce,
                        *opener,
                        *separator,
                        *closer,
                    );
                    outcome == spec_separated_tail(
                        old(token_reader).spec_tokens(),
                        token_reader.spec_offset() as int,
                        success,
                        consume,
                        produce,
                        *separator,
                        *closer,
                        items@,
                    ) && message_context.spec_messages() == old(message_context).spec_messages()
                }),
        invariant
            token_reader.wf(),
            message_context.wf(),
            token_reader.spec_tokens() == old(token_reader).spec_tokens(),
            token_reader.spec_offset() >= old(token_reader).spec_offset() + 1,
            message_context.spec_messages().len() >= old(message_context).spec_messages().len(),
            old(token_reader).spec_offset() < old(token_reader).spec_tokens().len(),
            same_token_value(
                old(token_reader).spec_tokens()[old(token_reader).spec_offset() as int].value,
                *opener,
            ),
            !(old(token_reader).spec_offset() + 1 < old(token_reader).spec_tokens().len()
                && same_token_value(
                old(token_reader).spec_tokens()[old(token_reader).spec_offset() + 1].value,
                *closer,
            )),
            (forall|m: &mut TokenReader<'sc>, c: &mut MessageContext<'sc>, o: Option<Output>|
                #[trigger] call_ensures(parser, (m, c), o) ==> final(c).spec_messages()
                    == c.spec_messages()) ==> message_context.spec_messages() == old(message_context).spec_messages(),
            parser_callable(parser, old(token_reader).spec_tokens()),
            forall|m: &mut TokenReader<'sc>, c: &mut MessageContext<'sc>, o: Option<Output>|
                #[trigger] call_ensures(parser, (m, c), o) ==> final(m).spec_tokens()
                    == m.spec_tokens() && final(m).wf() && final(m).spec_offset()
                    >= m.spec_offset() && final(c).wf() && final(c).spec_messages().len()
                    >= c.spec_messages().len(),
        ensures
            forall|success: spec_fn(int) -> bool, consume: spec_fn(int) -> int, produce: spec_fn(
                int,
            ) -> Output|
                (forall|m: &mut TokenReader<'sc>, c: &mut MessageContext<'sc>, o: Option<Output>|
                #[trigger] call_ensures(parser, (m, c), o) ==> o == (
                if success(m.spec_offset() as int) {
                    Option::Some(produce(m.spec_offset() as int))
                } else {
                    Option::<Output>::None
                }) && (success(m.spec_offset() as int) ==> final(m).spec_offset() as int
                    == consume(m.spec_offset() as int)) && final(c).spec_messages()
                    == c.spec_messages()) ==> ({
                    let outcome = #[trigger] spec_separated_list(
                        old(token_reader).spec_tokens(),
                        old(token_reader).spec_offset() as int,
                        success,
                        consume,
                        produce,
                        *opener,
                        *separator,
                        *closer,
                    );
                    let cur = token_reader.spec_offset() as int;
                    let tokens = old(token_reader).spec_tokens();
                    (message_context.spec_messages() == old(message_context).spec_messages()) && (
                    (cur >= tokens.len() && outcome == spec_separated_tail(
                        tokens,
                        cur,
                        success,
                        consume,
                        produce,
                        *separator,
                        *closer,
                        items@,
                    )) || (cur < tokens.len() && same_token_value(tokens[cur].value, *closer)
                        && outcome == (Option::Some(items@), cur + 1, 0int)))
                }),
        decreases token_reader.spec_tokens().len() - token_reader.spec_offset(),
    {
        // Parse one item, reporting a missing one at the spot where it was
        // expected.
        let ghost iteration_start = token_reader.spec_offset() as int;
        let ghost items_before = items@;
        let state_before_item = token_reader.save_state();
        let item = match parser(token_reader, message_context) {
            Some(item) => item,
            None => {
                token_reader.restore_state(state_before_item);
                let text = joined_text("expected ", item_name);
                report_error_here(token_reader, message_context, text);
                return None;
            },
        };

        items.push(item);

        if check_token(token_reader, match_token_with_value(closer)) {
            break;
        }

        if read_token_or_error_and_return_none(
            token_reader,
            message_context,
            match_token_with_value(separator),
            joined_text("expected ", separator.describe()),
        ).is_none() {
            return None;
        }

        if check_token(token_reader, match_token_with_value(closer)) {
            break;
        }

        proof {
            assert forall|
                success: spec_fn(int) -> bool,
                consume: spec_fn(int) -> int,
                produce: spec_fn(int) -> Output,
            |
                (forall|m: &mut TokenReader<'sc>, c: &mut MessageContext<'sc>, o: Option<
                Output,
            >|
                #[trigger] call_ensures(parser, (m, c), o) ==> o == (
                if success(m.spec_offset() as int) {
                    Option::Some(produce(m.spec_offset() as int))
                } else {
                    Option::<Output>::None
                }) && (success(m.spec_offset() as int) ==> final(m).spec_offset() as int
                    == consume(m.spec_offset() as int)) && final(c).spec_messages()
                    == c.spec_messages()) implies spec_separated_tail(
                old(token_reader).spec_tokens(),
                iteration_start,
                success,
                consume,
                produce,
                *separator,
                *closer,
                items_before,
            ) == spec_separated_tail(
                old(token_reader).spec_tokens(),
                token_reader.spec_offset() as int,
                success,
                consume,
                produce,
                *separator,
                *closer,
                items@,
            ) by {
                assert(items@ =~= items_before.push(items@.last()));
            }
        }
    }

    let closing_text = joined_text("expected closing ", closer.describe());
    let full_text = joined_text(closing_text.as_str(), " after opening ");
    let full_text = joined_text(full_text.as_str(), opener.describe());
    if read_token_or_error_and_return_none(
        token_reader,
        message_context,
        match_token_with_value(closer),
        full_text,
    ).is_none() {
        return None;
    }

    Some(items)
}


/// The run of a bounded list without separators from the first item
/// position on, for a pinned item parser: items in sequence until the
/// closer, with an item that consumes nothing stopping the run at the next
/// token.
pub open spec fn spec_bound_tail<'sc, Output>(
    tokens: Seq<Token<'sc>>,
    pos: int,
    success: spec_fn(int) -> bool,
    consume: spec_fn(int) -> int,
    produce: spec_fn(int) -> Output,
    closer: TokenValue,
    items: Seq<Output>,
) -> (Option<Seq<Output>>, int, int)
    decreases tokens.len() + 1 - pos,
{
    if pos >= tokens.len() {
        (None, pos, 1)
    } else if !success(pos) {
        (None, pos, 1)
    } else {
        let raw = consume(pos);
        let after = if raw < pos {
            pos
        } else if raw > tokens.len() {
            tokens.len() as int
        } else {
            raw
        };
        let new_items = items.push(produce(pos));
        if after < tokens.len() && same_token_value(tokens[after].value, closer) {
            (Some(new_items), after + 1, 0)
        } else if after == pos {
            (None, after + 1, 1)
        } else if after >= tokens.len() {
            (None, after, 1)
        } else {
            spec_bound_tail(tokens, after, success, consume, produce, closer, new_items)
        }
    }
}

/// The whole outcome of a bounded list without separators at `pos`, for a
/// pinned item parser.
pub open spec fn spec_bound_list<'sc, Output>(
    tokens: Seq<Token<'sc>>,
    pos: int,
    success: spec_fn(int) -> bool,
    consume: spec_fn(int) -> int,
    produce: spec_fn(int) -> Output,
    opener: TokenValue,
    closer: TokenValue,
) -> (Option<Seq<Output>>, int, int) {
    if !(0 <= pos < tokens.len()) || !same_token_value(tokens[pos].value, opener) {
        (None, pos, 0)
    } else if pos + 1 < tokens.len() && same_token_value(tokens[pos + 1].value, closer) {
        (Some(Seq::empty()), pos + 2, 0)
    } else {
        spec_bound_tail(tokens, pos + 1, success, consume, produce, closer, Seq::empty())
    }
}

/// Parse a list bounded by an opener and a closer, with no separator:
/// `{ item item }`.
///
/// When the opener is missing nothing is yielded and no message is raised;
/// after the opener, a missing item or closer is reported and nothing is
/// yielded.
pub fn parse_repeated_bound_or_error_and_return_none<
    'sc,
    Output,
    P: Fn(&mut TokenReader<'sc>, &mut MessageContext<'sc>) -> Option<Output>,
>(
    token_reader: &mut TokenReader<'sc>,
    message_context: &mut MessageContext<'sc>,
    item_name: &str,
    parser: P,
    opener: &TokenValue,
    closer: &TokenValue,
) -> (r: Option<Vec<Output>>)
    requires
        old(token_reader).wf(),
        old(message_context).wf(),
        parser_callable(parser, old(token_reader).spec_tokens()),
        forall|m: &mut TokenReader<'sc>, c: &mut MessageContext<'sc>, o: Option<Output>|
            #[trigger] call_ensures(parser, (m, c), o) ==> final(m).spec_tokens()
                == m.spec_tokens() && final(m).wf() && final(m).spec_offset() >= m.spec_offset()
                && final(c).wf() && final(c).spec_messages().len() >= c.spec_messages().len(),
    ensures
        final(token_reader).wf(),
        final(message_context).wf(),
        final(token_reader).spec_tokens() == old(token_reader).spec_tokens(),
        final(token_reader).spec_offset() >= old(token_reader).spec_offset(),
        final(message_context).spec_messages().len() >= old(message_context).spec_messages().len(),
        old(token_reader).spec_offset() >= old(token_reader).spec_tokens().len() ==> r is None
            && *final(token_reader) == *old(token_reader) && *final(message_context) == *old(message_context),
        (old(token_reader).spec_offset() < old(token_reader).spec_tokens().len()
            && !same_token_value(
            old(token_reader).spec_tokens()[old(token_reader).spec_offset() as int].value,
            *opener,
        )) ==> r is None && *final(token_reader) == *old(token_reader) && *final(message_context)
            == *old(message_context),
        ({
            let tokens = old(token_reader).spec_tokens();
            let at = old(token_reader).spec_offset() as int;
            (at + 1 < tokens.len() && same_token_value(tokens[at].value, *opener)
                && same_token_value(tokens[at + 1].value, *closer)) ==> (r matches Some(v)
                && v@.len() == 0 && final(token_reader).spec_offset() == at + 2 && *final(message_context) == *old(message_context))
        }),
        r is Some ==> ({
            let tokens = old(token_reader).spec_tokens();
            &&& final(token_reader).spec_offset() >= old(token_reader).spec_offset() + 2
            &&& same_token_value(tokens[old(token_reader).spec_offset() as int].value, *opener)
            &&& same_token_value(tokens[final(token_reader).spec_offset() - 1].value, *closer)
        }),
        (old(token_reader).spec_offset() < old(token_reader).spec_tokens().len()
            && same_token_value(
            old(token_reader).spec_tokens()[old(token_reader).spec_offset() as int].value,
            *opener,
        ) && r is None) ==> final(message_context).spec_messages().len() >= old(message_context).spec_messages().len() + 1,
        (forall|m: &mut TokenReader<'sc>, c: &mut MessageContext<'sc>, o: Option<Output>|
            #[trigger] call_ensures(parser, (m, c), o) ==> final(c).spec_messages()
                == c.spec_messages()) ==> {
            &&& (r is Some ==> final(message_context).spec_messages() == old(message_context).spec_messages())
            &&& ((old(token_reader).spec_offset() < old(token_reader).spec_tokens().len()
                && same_token_value(
                old(token_reader).spec_tokens()[old(token_reader).spec_offset() as int].value,
                *opener,
            ) && r is None) ==> final(message_context).spec_messages().len() == old(message_context).spec_messages().len() + 1)
        },
        forall|success: spec_fn(int) -> bool, consume: spec_fn(int) -> int, produce: spec_fn(
            int,
        ) -> Output|
            (forall|m: &mut TokenReader<'sc>, c: &mut MessageContext<'sc>, o: Option<Output>|
                #[trigger] call_ensures(parser, (m, c), o) ==> o == (
                if success(m.spec_offset() as int) {
                    Option::Some(produce(m.spec_offset() as int))
                } else {
                    Option::<Output>::None
                }) && (success(m.spec_offset() as int) ==> final(m).spec_offset() as int
                    == consume(m.spec_offset() as int)) && final(c).spec_messages()
                    == c.spec_messages()) ==> ({
                let outcome = #[trigger] spec_bound_list(
                    old(token_reader).spec_tokens(),
                    old(token_reader).spec_offset() as int,
                    success,
                    consume,
                    produce,
                    *opener,
                    *closer,
                );
                &&& (match outcome.0 {
                    Some(values) => r matches Some(v) && v@ == values,
                    None => r is None,
                })
                &&& final(token_reader).spec_offset() as int == outcome.1
                &&& final(message_context).spec_messages().len() == old(message_context).spec_messages().len() + outcome.2
            }),
{
    let opener_matcher = match_token_with_value(opener);
    if read_token_or_return_none(token_reader, opener_matcher).is_none() {
        return None;
    }
    proof {
        assert(same_token_value(
            old(token_reader).spec_tokens()[old(token_reader).spec_offset() as int].value,
            *opener,
        ));
    }

    let mut items: Vec<Output> = Vec::new();

    if check_token(token_reader, match_token_with_value(closer)) {
        token_reader.read_next();
        return Some(items);
    }

    proof {
        assert forall|success: spec_fn(int) -> bool, consume: spec_fn(int) -> int, produce: spec_fn(
            int,
        ) -> Output|
            #![trigger spec_bound_list(old(token_reader).spec_tokens(), old(token_reader).spec_offset() as int, success, consume, produce, *opener, *closer)]
            (forall|m: &mut TokenReader<'sc>, c: &mut MessageContext<'sc>, o: Option<
                Output,
            >|
                #[trigger] call_ensures(parser, (m, c), o) ==> o == (
                if success(m.spec_offset() as int) {
                    Option::Some(produce(m.spec_offset() as int))
                } else {
                    Option::<Output>::None
                }) && (success(m.spec_offset() as int) ==> final(m).spec_offset() as int
                    == consume(m.spec_offset() as int)) && final(c).spec_messages()
                    == c.spec_messages()) implies ({
            let outcome = spec_bound_list(
                    old(token_reader).spec_tokens(),
                    old(token_reader).spec_offset() as int,
                    success,
                    consume,
                    produce,
                    *opener,
                    *closer,
                );
            outcome == spec_bound_tail(
                old(token_reader).spec_tokens(),
                token_reader.spec_offset() as int,
                success,
                consume,
                produce,
                *closer,
                items@,
            )
        }) by {
            assert(items@ =~= Seq::<Output>::empty());
        }
    }

    while token_reader.is_more()
        invariant_except_break
            forall|success: spec_fn(int) -> bool, consume: spec_fn(int) -> int, produce: spec_fn(
                int,
            ) -> Output|
                (forall|m: &mut TokenReader<'sc>, c: &mut MessageContext<'sc>, o: Option<Output>|
                #[trigger] call_ensures(parser, (m, c), o) ==> o == (
                if success(m.spec_offset() as int) {
                    Option::Some(produce(m.spec_offset() as int))
                } else {
                    Option::<Output>::None
                }) && (success(m.spec_offset() as int) ==> final(m).spec_offset() as int
                    == consume(m.spec_offset() as int)) && final(c).spec_messages()
                    == c.spec_messages()) ==> ({
                    let outcome = #[trigger] spec_bound_list(
                    old(token_reader).spec_tokens(),
                    old(token_reader).spec_offset() as int,
                    success,
                    consume,
                    produce,
                    *opener,
                    *closer,
                );
                    outcome == spec_bound_tail(
                        old(token_reader).spec_tokens(),
                        token_reader.spec_offset() as int,
                        success,
                        consume,
                        produce,
                        *closer,
                        items@,
                    ) && message_context.spec_messages() == old(message_context).spec_messages()
                }),
        invariant
            token_reader.wf(),
            message_context.wf(),
            token_reader.spec_tokens() == old(token_reader).spec_tokens(),
            token_reader.spec_offset() >= old(token_reader).spec_offset() + 1,
            message_context.spec_messages().len() >= old(message_context).spec_messages().len(),
            old(token_reader).spec_offset() < old(token_reader).spec_tokens().len(),
            same_token_value(
                old(token_reader).spec_tokens()[old(token_reader).spec_offset() as int].value,
                *opener,
            ),
            !(old(token_reader).spec_offset() + 1 < old(token_reader).spec_tokens().len()
                && same_token_value(
                old(token_reader).spec_tokens()[old(token_reader).spec_offset() + 1].value,
                *closer,
            )),
            (forall|m: &mut TokenReader<'sc>, c: &mut MessageContext<'sc>, o: Option<Output>|
                #[trigger] call_ensures(parser, (m, c), o) ==> final(c).spec_messages()
                    == c.spec_messages()) ==> message_context.spec_messages() == old(message_context).spec_messages(),
            parser_callable(parser, old(token_reader).spec_tokens()),
            forall|m: &mut TokenReader<'sc>, c: &mut MessageContext<'sc>, o: Option<Output>|
                #[trigger] call_ensures(parser, (m, c), o) ==> final(m).spec_tokens()
                    == m.spec_tokens() && final(m).wf() && final(m).spec_offset()
                    >= m.spec_offset() && final(c).wf() && final(c).spec_messages().len()
                    >= c.spec_messages().len(),
        ensures
            forall|success: spec_fn(int) -> bool, consume: spec_fn(int) -> int, produce: spec_fn(
                int,
            ) -> Output|
                (forall|m: &mut TokenReader<'sc>, c: &mut MessageContext<'sc>, o: Option<Output>|
                #[trigger] call_ensures(parser, (m, c), o) ==> o == (
                if success(m.spec_offset() as int) {
                    Option::Some(produce(m.spec_offset() as int))
                } else {
                    Option::<Output>::None
                }) && (success(m.spec_offset() as int) ==> final(m).spec_offset() as int
                    == consume(m.spec_offset() as int)) && final(c).spec_messages()
                    == c.spec_messages()) ==> ({
                    let outcome = #[trigger] spec_bound_list(
                    old(token_reader).spec_tokens(),
                    old(token_reader).spec_offset() as int,
                    success,
                    consume,
                    produce,
                    *opener,
                    *closer,
                );
                    let cur = token_reader.spec_offset() as int;
                    let tokens = old(token_reader).spec_tokens();
                    (message_context.spec_messages() == old(message_context).spec_messages()) && (
                    (cur >= tokens.len() && outcome == spec_bound_tail(
                        tokens,
                        cur,
                        success,
                        consume,
                        produce,
                        *closer,
                        items@,
                    )) || (cur < tokens.len() && same_token_value(tokens[cur].value, *closer)
                        && outcome == (Option::Some(items@), cur + 1, 0int)) || (cur
                        < tokens.len() && !same_token_value(tokens[cur].value, *closer)
                        && outcome == (Option::<Seq<Output>>::None, cur + 1, 1int)))
                }),
        decreases token_reader.spec_tokens().len() - token_reader.spec_offset(),
    {
        let ghost iteration_start = token_reader.spec_offset() as int;
        let ghost items_before = items@;
        let state_before_item = token_reader.save_state();
        let item = match parser(token_reader, message_context) {
            Some(item) => item,
            None => {
                token_reader.restore_state(state_before_item);
                let text = joined_text("expected ", item_name);
                report_error_here(token_reader, message_context, text);
                return None;
            },
        };

        items.push(item);

        if check_token(token_reader, match_token_with_value(closer)) {
            break;
        }

        // An item that consumed nothing would stand at this spot forever;
        // stop, and let the closer check below report what was found.
        if token_reader.save_state().offset() == state_before_item.offset() {
            break;
        }

        proof {
            assert forall|
                success: spec_fn(int) -> bool,
                consume: spec_fn(int) -> int,
                produce: spec_fn(int) -> Output,
            |
                (forall|m: &mut TokenReader<'sc>, c: &mut MessageContext<'sc>, o: Option<
                Output,
            >|
                #[trigger] call_ensures(parser, (m, c), o) ==> o == (
                if success(m.spec_offset() as int) {
                    Option::Some(produce(m.spec_offset() as int))
                } else {
                    Option::<Output>::None
                }) && (success(m.spec_offset() as int) ==> final(m).spec_offset() as int
                    == consume(m.spec_offset() as int)) && final(c).spec_messages()
                    == c.spec_messages()) implies spec_bound_tail(
                old(token_reader).spec_tokens(),
                iteration_start,
                success,
                consume,
                produce,
                *closer,
                items_before,
            ) == spec_bound_tail(
                old(token_reader).spec_tokens(),
                token_reader.spec_offset() as int,
                success,
                consume,
                produce,
                *closer,
                items@,
            ) by {
                assert(items@ =~= items_before.push(items@.last()));
            }
        }
    }

    let closing_text = joined_text("expected closing ", closer.describe());
    let full_text = joined_text(closing_text.as_str(), " after opening ");
    let full_text = joined_text(full_text.as_str(), opener.describe());
    if read_token_or_error_and_return_none(
        token_reader,
        message_context,
        match_token_with_value(closer),
        full_text,
    ).is_none() {
        return None;
    }

    Some(items)
}

/// The first position at or after `k` whose table entry holds the given
/// token value, or the table's length when none does.
pub open spec fn spec_find_operator<Operator>(
    table: Seq<(&TokenValue, Operator)>,
    value: TokenValue,
    k: int,
) -> int
    decreases table.len() - k,
{
    if !(0 <= k < table.len()) {
        table.len() as int
    } else if same_token_value(*table[k].0, value) {
        k
    } else {
        spec_find_operator(table, value, k + 1)
    }
}

/// Find the first entry of an operator table whose token value equals the
/// given token's value; yields the table's length when none does.
fn find_operator<Operator>(
    operator_token_pairs: &[(&TokenValue, Operator)],
    token_value: &TokenValue,
) -> (r: usize)
    ensures
        r <= operator_token_pairs@.len(),
        r == spec_find_operator(operator_token_pairs@, *token_value, 0),
{
    let count = operator_token_pairs.len();
    let mut k: usize = 0;
    while k < count
        invariant
            count == operator_token_pairs@.len(),
            k <= count,
            spec_find_operator(operator_token_pairs@, *token_value, 0) == spec_find_operator(
                operator_token_pairs@,
                *token_value,
                k as int,
            ),
        decreases count - k,
    {
        if *operator_token_pairs[k].0 == *token_value {
            return k;
        }
        k = k + 1;
    }
    count
}

/// Parse a prefix unary operation: when the next token matches an entry of
/// the operator table (first match wins, in table order), consume it and
/// require an operand, reporting a missing one; otherwise, and at the end of
/// the input, delegate to the fallback parser.
pub fn parse_operation_unary_prefix<
    'sc,
    FallbackParser: Fn(&mut TokenReader<'sc>, &mut MessageContext<'sc>) -> Option<Value>,
    ArgumentParser: Fn(&mut TokenReader<'sc>, &mut MessageContext<'sc>) -> Option<Value>,
>(
    token_reader: &mut TokenReader<'sc>,
    message_context: &mut MessageContext<'sc>,
    operator_token_pairs: &[(&TokenValue, OperatorUnary)],
    parser_fallback: FallbackParser,
    parser_argument: ArgumentParser,
) -> (r: Option<Value>)
    requires
        old(token_reader).wf(),
        old(message_context).wf(),
        parser_callable(parser_fallback, old(token_reader).spec_tokens()),
        parser_callable(parser_argument, old(token_reader).spec_tokens()),
        forall|m: &mut TokenReader<'sc>, c: &mut MessageContext<'sc>, o: Option<Value>|
            #[trigger] call_ensures(parser_fallback, (m, c), o) ==> final(m).spec_tokens()
                == m.spec_tokens() && final(m).wf() && final(m).spec_offset() >= m.spec_offset()
                && final(c).wf() && final(c).spec_messages().len() >= c.spec_messages().len(),
        forall|m: &mut TokenReader<'sc>, c: &mut MessageContext<'sc>, o: Option<Value>|
            #[trigger] call_ensures(parser_argument, (m, c), o) ==> final(m).spec_tokens()
                == m.spec_tokens() && final(m).wf() && final(m).spec_offset() >= m.spec_offset()
                && final(c).wf() && final(c).spec_messages().len() >= c.spec_messages().len(),
    ensures
        final(token_reader).wf(),
        final(message_context).wf(),
        final(token_reader).spec_tokens() == old(token_reader).spec_tokens(),
        final(token_reader).spec_offset() >= old(token_reader).spec_offset(),
        final(message_context).spec_messages().len() >= old(message_context).spec_messages().len(),
        ({
            let tokens = old(token_reader).spec_tokens();
            let at = old(token_reader).spec_offset();
            (at >= tokens.len() || spec_find_operator(
                operator_token_pairs@,
                tokens[at as int].value,
                0,
            ) >= operator_token_pairs@.len()) ==> (exists|
                m: &mut TokenReader<'sc>,
                c: &mut MessageContext<'sc>,
            |
                *m == *old(token_reader) && *c == *old(message_context) && #[trigger] call_ensures(
                    parser_fallback,
                    (m, c),
                    r,
                ) && *final(m) == *final(token_reader) && *final(c) == *final(message_context))
        }),
        ({
            let tokens = old(token_reader).spec_tokens();
            let at = old(token_reader).spec_offset();
            let k = spec_find_operator(operator_token_pairs@, tokens[at as int].value, 0);
            (at < tokens.len() && k < operator_token_pairs@.len()) ==> {
                &&& (r matches Some(v) ==> (v matches Value::UnaryOperation { operator, argument }
                    && operator == operator_token_pairs@[k].1 && parser_can_yield(
                    parser_argument,
                    tokens,
                    (at + 1) as usize,
                    Some(*argument),
                )))
                &&& (r is None ==> final(token_reader).spec_offset() == at + 1 && final(message_context).spec_messages().len() >= old(message_context).spec_messages().len()
                    + 1 && parser_can_yield(
                    parser_argument,
                    tokens,
                    (at + 1) as usize,
                    Option::<Value>::None,
                ))
            }
        }),
        ((forall|m: &mut TokenReader<'sc>, c: &mut MessageContext<'sc>, o: Option<Value>|
            #[trigger] call_ensures(parser_fallback, (m, c), o) ==> final(c).spec_messages()
                == c.spec_messages()) && (forall|m: &mut TokenReader<'sc>, c: &mut MessageContext<'sc>, o: Option<Value>|
            #[trigger] call_ensures(parser_argument, (m, c), o) ==> final(c).spec_messages()
                == c.spec_messages())) ==> ({
            let tokens = old(token_reader).spec_tokens();
            let at = old(token_reader).spec_offset();
            let has_operator = at < tokens.len() && spec_find_operator(
                operator_token_pairs@,
                tokens[at as int].value,
                0,
            ) < operator_token_pairs@.len();
            &&& (!has_operator ==> final(message_context).spec_messages() == old(message_context).spec_messages())
            &&& ((has_operator && r is Some) ==> final(message_context).spec_messages() == old(message_context).spec_messages())
            &&& ((has_operator && r is None) ==> final(message_context).spec_messages().len()
                == old(message_context).spec_messages().len() + 1)
        }),
{
    let operator_count = operator_token_pairs.len();
    let mut operator_index: usize = operator_count;

    match token_reader.peek_next() {
        Some(token) => {
            operator_index = find_operator(operator_token_pairs, &token.value);
        },
        None => {},
    }

    if operator_index < operator_count {
        token_reader.read_next();

        let text = joined_text(
            "expected argument of ",
            operator_token_pairs[operator_index].0.describe(),
        );
        let state_before = token_reader.save_state();
        match parser_argument(token_reader, message_context) {
            Some(argument) => {
                proof {
                    assert(parser_can_yield(
                        parser_argument,
                        old(token_reader).spec_tokens(),
                        (old(token_reader).spec_offset() + 1) as usize,
                        Some(argument),
                    ));
                }
                Some(
                    Value::UnaryOperation {
                        operator: operator_token_pairs[operator_index].1.clone(),
                        argument: Box::new(argument),
                    },
                )
            },
            None => {
                proof {
                    assert(parser_can_yield(
                        parser_argument,
                        old(token_reader).spec_tokens(),
                        (old(token_reader).spec_offset() + 1) as usize,
                        Option::<Value>::None,
                    ));
                }
                token_reader.restore_state(state_before);
                report_error_here(token_reader, message_context, text);
                None
            },
        }
    } else {
        parser_fallback(token_reader, message_context)
    }
}

/// Parse a postfix unary operation: parse the operand, then consume at most
/// one trailing operator from the table (first match wins, in table order).
pub fn parse_operation_unary_postfix<
    'sc,
    ArgumentParser: Fn(&mut TokenReader<'sc>, &mut MessageContext<'sc>) -> Option<Value>,
>(
    token_reader: &mut TokenReader<'sc>,
    message_context: &mut MessageContext<'sc>,
    operator_token_pairs: &[(&TokenValue, OperatorUnary)],
    parser_argument: ArgumentParser,
) -> (r: Option<Value>)
    requires
        old(token_reader).wf(),
        old(message_context).wf(),
        parser_callable(parser_argument, old(token_reader).spec_tokens()),
        forall|m: &mut TokenReader<'sc>, c: &mut MessageContext<'sc>, o: Option<Value>|
            #[trigger] call_ensures(parser_argument, (m, c), o) ==> final(m).spec_tokens()
                == m.spec_tokens() && final(m).wf() && final(m).spec_offset() >= m.spec_offset()
                && final(c).wf() && final(c).spec_messages().len() >= c.spec_messages().len(),
    ensures
        final(token_reader).wf(),
        final(message_context).wf(),
        final(token_reader).spec_tokens() == old(token_reader).spec_tokens(),
        final(token_reader).spec_offset() >= old(token_reader).spec_offset(),
        final(message_context).spec_messages().len() >= old(message_context).spec_messages().len(),
        r is None ==> (exists|m: &mut TokenReader<'sc>, c: &mut MessageContext<'sc>|
            *m == *old(token_reader) && *c == *old(message_context) && #[trigger] call_ensures(
                parser_argument,
                (m, c),
                Option::<Value>::None,
            ) && *final(m) == *final(token_reader) && *final(c) == *final(message_context)),
        r matches Some(v) ==> (exists|
            m: &mut TokenReader<'sc>,
            c: &mut MessageContext<'sc>,
            a: Value,
        |
            *m == *old(token_reader) && *c == *old(message_context) && #[trigger] call_ensures(
                parser_argument,
                (m, c),
                Some(a),
            ) && *final(c) == *final(message_context) && ({
                let tokens = old(token_reader).spec_tokens();
                let after = final(m).spec_offset();
                let k = if after < tokens.len() {
                    spec_find_operator(operator_token_pairs@, tokens[after as int].value, 0)
                } else {
                    operator_token_pairs@.len() as int
                };
                ||| (v == a && k >= operator_token_pairs@.len() && final(token_reader).spec_offset() == after)
                ||| (k < operator_token_pairs@.len() && (v matches Value::UnaryOperation {
                    operator,
                    argument,
                } && operator == operator_token_pairs@[k].1 && *argument == a) && final(token_reader).spec_offset() == after + 1)
            })),
{
    let argument = match parser_argument(token_reader, message_context) {
        Some(argument) => argument,
        None => {
            return None;
        },
    };

    let operator_count = operator_token_pairs.len();
    let mut operator_index: usize = operator_count;

    match token_reader.peek_next() {
        Some(token) => {
            operator_index = find_operator(operator_token_pairs, &token.value);
        },
        None => {
            return Some(argument);
        },
    }

    if operator_index < operator_count {
        token_reader.read_next();
        Some(
            Value::UnaryOperation {
                operator: operator_token_pairs[operator_index].1.clone(),
                argument: Box::new(argument),
            },
        )
    } else {
        Some(argument)
    }
}

/// Parse a binary operation: parse the left operand; when the next token
/// matches an entry of the table (first match wins, in table order), consume
/// it and require the right operand, reporting a missing one; otherwise
/// yield the left operand alone. The right side recurses into the caller's
/// own level, so chains associate to the right.
pub fn parse_operation_binary<
    'sc,
    LeftParser: Fn(&mut TokenReader<'sc>, &mut MessageContext<'sc>) -> Option<Value>,
    RightParser: Fn(&mut TokenReader<'sc>, &mut MessageContext<'sc>) -> Option<Value>,
>(
    token_reader: &mut TokenReader<'sc>,
    message_context: &mut MessageContext<'sc>,
    operator_token_pairs: &[(&TokenValue, OperatorBinary)],
    parser_left: LeftParser,
    parser_right: RightParser,
) -> (r: Option<Value>)
    requires
        old(token_reader).wf(),
        old(message_context).wf(),
        parser_callable(parser_left, old(token_reader).spec_tokens()),
        parser_callable(parser_right, old(token_reader).spec_tokens()),
        forall|m: &mut TokenReader<'sc>, c: &mut MessageContext<'sc>, o: Option<Value>|
            #[trigger] call_ensures(parser_left, (m, c), o) ==> final(m).spec_tokens()
                == m.spec_tokens() && final(m).wf() && final(m).spec_offset() >= m.spec_offset()
                && final(c).wf() && final(c).spec_messages().len() >= c.spec_messages().len(),
        forall|m: &mut TokenReader<'sc>, c: &mut MessageContext<'sc>, o: Option<Value>|
            #[trigger] call_ensures(parser_right, (m, c), o) ==> final(m).spec_tokens()
                == m.spec_tokens() && final(m).wf() && final(m).spec_offset() >= m.spec_offset()
                && final(c).wf() && final(c).spec_messages().len() >= c.spec_messages().len(),
    ensures
        final(token_reader).wf(),
        final(message_context).wf(),
        final(token_reader).spec_tokens() == old(token_reader).spec_tokens(),
        final(token_reader).spec_offset() >= old(token_reader).spec_offset(),
        final(message_context).spec_messages().len() >= old(message_context).spec_messages().len(),
        r matches Some(v) ==> (exists|
            m: &mut TokenReader<'sc>,
            c: &mut MessageContext<'sc>,
            lv: Value,
        |
            *m == *old(token_reader) && *c == *old(message_context) && #[trigger] call_ensures(
                parser_left,
                (m, c),
                Some(lv),
            ) && ({
                let tokens = old(token_reader).spec_tokens();
                let after = final(m).spec_offset();
                let k = if after < tokens.len() {
                    spec_find_operator(operator_token_pairs@, tokens[after as int].value, 0)
                } else {
                    operator_token_pairs@.len() as int
                };
                ||| (v == lv && k >= operator_token_pairs@.len() && final(token_reader).spec_offset() == after)
                ||| (k < operator_token_pairs@.len() && (v matches Value::BinaryOperation {
                    operator,
                    left,
                    right,
                } && operator == operator_token_pairs@[k].1 && *left == lv && parser_can_yield(
                    parser_right,
                    tokens,
                    (after + 1) as usize,
                    Some(*right),
                )))
            })),
        r is None ==> ((exists|m: &mut TokenReader<'sc>, c: &mut MessageContext<'sc>|
            *m == *old(token_reader) && *c == *old(message_context) && #[trigger] call_ensures(
                parser_left,
                (m, c),
                Option::<Value>::None,
            )) || (exists|m: &mut TokenReader<'sc>, c: &mut MessageContext<'sc>, lv: Value|
            *m == *old(token_reader) && *c == *old(message_context) && #[trigger] call_ensures(
                parser_left,
                (m, c),
                Some(lv),
            ) && ({
                let tokens = old(token_reader).spec_tokens();
                let after = final(m).spec_offset();
                &&& after < tokens.len()
                &&& spec_find_operator(operator_token_pairs@, tokens[after as int].value, 0)
                    < operator_token_pairs@.len()
                &&& parser_can_yield(
                    parser_right,
                    tokens,
                    (after + 1) as usize,
                    Option::<Value>::None,
                )
                &&& final(message_context).spec_messages().len() >= old(message_context).spec_messages().len() + 1
            }))),
        ((forall|m: &mut TokenReader<'sc>, c: &mut MessageContext<'sc>, o: Option<Value>|
            #[trigger] call_ensures(parser_left, (m, c), o) ==> final(c).spec_messages()
                == c.spec_messages()) && (forall|m: &mut TokenReader<'sc>, c: &mut MessageContext<'sc>, o: Option<Value>|
            #[trigger] call_ensures(parser_right, (m, c), o) ==> final(c).spec_messages()
                == c.spec_messages())) ==> {
            &&& (r is Some ==> final(message_context).spec_messages() == old(message_context).spec_messages())
            &&& (r is None ==> (final(message_context).spec_messages() == old(message_context).spec_messages() || final(message_context).spec_messages().len() == old(message_context).spec_messages().len() + 1))
        },
{
    let left = match parser_left(token_reader, message_context) {
        Some(left) => left,
        None => {
            return None;
        },
    };

    let operator_count = operator_token_pairs.len();
    let mut operator_index: usize = operator_count;

    match token_reader.peek_next() {
        Some(token) => {
            operator_index = find_operator(operator_token_pairs, &token.value);
        },
        None => {
            return Some(left);
        },
    }

    if operator_index < operator_count {
        token_reader.read_next();

        let text = joined_text(
            "expected right-hand argument of ",
            operator_token_pairs[operator_index].0.describe(),
        );
        let state_before = token_reader.save_state();
        let ghost right_position = token_reader.spec_offset();
        match parser_right(token_reader, message_context) {
            Some(right) => {
                proof {
                    assert(parser_can_yield(
                        parser_right,
                        old(token_reader).spec_tokens(),
                        right_position,
                        Some(right),
                    ));
                }
                Some(
                    Value::BinaryOperation {
                        operator: operator_token_pairs[operator_index].1.clone(),
                        left: Box::new(left),
                        right: Box::new(right),
                    },
                )
            },
            None => {
                proof {
                    assert(parser_can_yield(
                        parser_right,
                        old(token_reader).spec_tokens(),
                        right_position,
                        Option::<Value>::None,
                    ));
                }
                token_reader.restore_state(state_before);
                report_error_here(token_reader, message_context, text);
                None
            },
        }
    } else {
        Some(left)
    }
}

} // verus!
