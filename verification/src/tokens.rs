//! The argument tokens of a tag, as `liquid_core` hands them out: a one-pass
//! stream of tokens, and the narrowings of a single token.

use vstd::prelude::*;
use liquid_core::Error;
use liquid_core::Expression;
use liquid_core::TagTokenIter;
use liquid_core::ValueView;
use liquid_core::parser::TagToken;
use liquid_core::parser::TryMatchToken;
use crate::error::{error_frames, error_message, fresh_frames};
use crate::text::is_readable;

verus! {

#[verifier::external_type_specification]
#[verifier::external_body]
pub struct ExTagTokenIter<'a>(liquid_core::TagTokenIter<'a>);

#[verifier::external_type_specification]
#[verifier::external_body]
pub struct ExTagToken<'a>(liquid_core::parser::TagToken<'a>);

/// The tokens that a stream has not handed out yet, next one first.
pub uninterp spec fn pending(tokens: TagTokenIter<'_>) -> Seq<TagToken<'_>>;

/// The text of a token, without the white space around it.
pub uninterp spec fn token_text(token: TagToken<'_>) -> Seq<char>;

/// The name that a token is, where it is a bare identifier.
pub uninterp spec fn token_identifier(token: TagToken<'_>) -> Option<Seq<char>>;

/// The string form of the constant that a token is, where it is a literal.
pub uninterp spec fn token_literal(token: TagToken<'_>) -> Option<Seq<char>>;

/// The expression that a token is, where it is a literal or a variable path
/// without filters.
pub uninterp spec fn token_value(token: TagToken<'_>) -> Option<Expression>;

/// The message of the error that a token stream raises with the label
/// `label`: it points at the place where the stream stands.
pub uninterp spec fn stream_error_message(tokens: TagTokenIter<'_>, label: Seq<char>) -> Seq<char>;

/// The message of the error that a token raises: it points at the token
/// and lists what was expected of it.
pub uninterp spec fn token_error_message(token: TagToken<'_>) -> Seq<char>;

/// The message of the error that a token raises with the label `label`:
/// it points at the token and shows the label.
pub uninterp spec fn token_custom_error_message(token: TagToken<'_>, label: Seq<char>) -> Seq<
    char,
>;

/// Two tokens that every narrowing reads alike.
pub open spec fn same_token(a: TagToken<'_>, b: TagToken<'_>) -> bool {
    &&& token_text(a) == token_text(b)
    &&& token_identifier(a) == token_identifier(b)
    &&& token_literal(a) == token_literal(b)
    &&& token_value(a) == token_value(b)
}

/// Calls `TagTokenIter::next`: hands out the first pending token, or
/// nothing when none is pending.
#[verifier::external_body]
pub(crate) fn next_token<'a>(tokens: &mut TagTokenIter<'a>) -> (next: Option<TagToken<'a>>)
    ensures
        match next {
            Some(token) => pending(*old(tokens)).len() > 0 && token == pending(*old(tokens))[0]
                && pending(*final(tokens)) == pending(*old(tokens)).skip(1),
            None => pending(*old(tokens)).len() == 0 && pending(*final(tokens)).len() == 0,
        },
{
    tokens.next()
}

/// Calls `TagTokenIter::expect_next`: as `next`, with a new error that
/// shows `message` in place of nothing.
#[verifier::external_body]
pub(crate) fn expect_next<'a>(tokens: &mut TagTokenIter<'a>, message: &str) -> (next: Result<
    TagToken<'a>,
    Error,
>)
    ensures
        match next {
            Ok(token) => pending(*old(tokens)).len() > 0 && token == pending(*old(tokens))[0]
                && pending(*final(tokens)) == pending(*old(tokens)).skip(1),
            Err(e) => pending(*old(tokens)).len() == 0 && pending(*final(tokens)).len() == 0
                && error_frames(e) == fresh_frames() && error_message(e)
                == stream_error_message(*old(tokens), message@),
        },
{
    tokens.expect_next(message)
}

/// Calls `TagTokenIter::expect_nothing`: succeeds exactly when no token is
/// pending, and takes the first one otherwise.
#[verifier::external_body]
pub(crate) fn expect_nothing<'a>(tokens: &mut TagTokenIter<'a>) -> (done: Result<(), Error>)
    ensures
        done.is_ok() <==> pending(*old(tokens)).len() == 0,
        done.is_ok() ==> pending(*final(tokens)).len() == 0,
        done.is_err() ==> pending(*final(tokens)) == pending(*old(tokens)).skip(1),
{
    tokens.expect_nothing()
}

/// Calls `TagToken::as_str` and copies the text.
#[verifier::external_body]
pub(crate) fn token_str<'a>(token: &TagToken<'a>) -> (text: String)
    ensures
        text@ == token_text(*token),
{
    token.as_str().to_owned()
}

/// Calls `TagToken::expect_identifier`: the name on a match, and otherwise
/// the token again, to be read another way.
#[verifier::external_body]
pub(crate) fn expect_identifier<'a>(token: TagToken<'a>) -> (found: Result<String, TagToken<'a>>)
    ensures
        match found {
            Ok(name) => token_identifier(token) == Some(name@),
            Err(back) => token_identifier(token).is_none() && same_token(back, token),
        },
{
    match token.expect_identifier() {
        TryMatchToken::Matches(name) => Ok(name.to_owned()),
        TryMatchToken::Fails(back) => Err(back),
    }
}

/// Calls `TagToken::expect_literal` and takes the constant's string form
/// (`ValueView::to_kstr`) on a match; otherwise the token comes back. The
/// outside function panics on a whole number that does not fit in 32 bits,
/// which `requires` leaves out.
#[verifier::external_body]
pub(crate) fn expect_literal<'a>(token: TagToken<'a>) -> (found: Result<String, TagToken<'a>>)
    requires
        is_readable(token_text(token)),
    ensures
        match found {
            Ok(text) => token_literal(token) == Some(text@),
            Err(back) => token_literal(token).is_none() && same_token(back, token),
        },
{
    match token.expect_literal() {
        TryMatchToken::Matches(value) => Ok(value.to_kstr().into_string()),
        TryMatchToken::Fails(back) => Err(back),
    }
}

/// Calls `TagToken::expect_value`: the expression on a match, and otherwise
/// the token again. The outside function panics on a whole number that does
/// not fit in 32 bits, be it the token or an index in it, which `requires`
/// leaves out.
#[verifier::external_body]
pub(crate) fn expect_value<'a>(token: TagToken<'a>) -> (found: Result<Expression, TagToken<'a>>)
    requires
        is_readable(token_text(token)),
    ensures
        match found {
            Ok(value) => token_value(token) == Some(value),
            Err(back) => token_value(token).is_none() && same_token(back, token),
        },
{
    match token.expect_value() {
        TryMatchToken::Matches(value) => Ok(value),
        TryMatchToken::Fails(back) => Err(back),
    }
}

/// Calls `TagToken::raise_error`: a new error whose message points at the
/// token and lists what was expected of it.
#[verifier::external_body]
pub(crate) fn raise_error<'a>(token: TagToken<'a>) -> (e: Error)
    ensures
        error_frames(e) == fresh_frames(),
        error_message(e) == token_error_message(token),
{
    token.raise_error()
}

/// Calls `TagToken::raise_custom_error`: a new error whose message points
/// at the token and shows `message`.
#[verifier::external_body]
pub(crate) fn raise_custom_error<'a>(token: TagToken<'a>, message: &str) -> (e: Error)
    ensures
        error_frames(e) == fresh_frames(),
        error_message(e) == token_custom_error_message(token, message@),
{
    token.raise_custom_error(message)
}

} // verus!
