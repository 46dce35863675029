//! The `cycle` tag: the grammar of its arguments and the choice of its next
//! candidate.
//!
//! The arguments are `[name ':'] value (',' value)*`. A cycle without a name
//! of its own is named by its candidates, so that two such cycles with the
//! same candidates share one counter.

use vstd::prelude::*;
use vstd::string::StringExecFns;
use liquid_core::Error;
use liquid_core::Expression;
use liquid_core::Runtime;
use liquid_core::TagTokenIter;
use liquid_core::parser::TagToken;
use crate::error::{error_frames, error_message, error_trace, fresh_frames, traced};
use crate::expression::{all_free_of, expression_texts, join_expressions, joined};
use crate::expression::lemma_joined_tells_the_parts;
use crate::runtime::{
    cycle_counters, cycle_state, evaluate_expression, evaluated, render_value, value_text,
};
use crate::state::{advanced, counter_of, out_of_bounds_frames, out_of_bounds_message, State};
use crate::text::{can_read, is_readable, same_text};
use crate::tokens::{
    expect_identifier, expect_literal, expect_next, expect_nothing, expect_value, next_token,
    pending, raise_custom_error, raise_error, stream_error_message, token_custom_error_message,
    token_identifier, token_literal, token_str, token_text, token_value,
};

verus! {

/// What is wrong with the arguments of a `cycle` tag.
#[derive(Clone, Copy, Debug, PartialEq, Eq, Structural)]
pub enum SyntaxKind {
    /// There is no argument at all.
    MissingArgument,
    /// The token before `:` is neither an identifier nor a literal.
    InvalidName,
    /// The second token is neither `:` nor `,`.
    SeparatorExpected,
    /// A token in the place of a candidate is no value.
    ValueExpected,
    /// A candidate is followed by a token other than `,`.
    CommaExpected,
    /// A token is left after the candidates. No argument list is rejected
    /// for this: the candidates end only where the tokens end.
    UnexpectedToken,
}

/// A rejected argument list: what is wrong, and the error of the token
/// stream, which points at the place.
#[derive(Debug)]
pub struct SyntaxError {
    pub kind: SyntaxKind,
    pub cause: Error,
}

/// A parsed `cycle` tag: the name of its counter and its candidates.
#[derive(Debug)]
pub struct Cycle {
    name: String,
    values: Vec<Expression>,
}

/// The text `:`, which parts the name from the candidates.
pub open spec fn colon() -> Seq<char> {
    ":"@
}

/// The text `,`, which parts two candidates.
pub open spec fn comma() -> Seq<char> {
    ","@
}

/// The name that a cycle gets from its candidates: their displayable forms
/// with `-` between them.
pub open spec fn auto_name(values: Seq<Expression>) -> Seq<char> {
    joined(expression_texts(values), "-"@)
}

/// The name of a cycle whose arguments gave `given`: an empty one is
/// replaced by the name from the candidates.
pub open spec fn effective_name(given: Seq<char>, values: Seq<Expression>) -> Seq<char> {
    if given.len() == 0 {
        auto_name(values)
    } else {
        given
    }
}

/// The expression that a token in the place of a candidate stands for,
/// where it is a value that can be read.
pub open spec fn value_of(token: TagToken<'_>) -> Option<Expression> {
    if is_readable(token_text(token)) {
        token_value(token)
    } else {
        None
    }
}

/// The name that a token before `:` stands for: an identifier as it is
/// written, a literal that can be read by its string form.
pub open spec fn explicit_name(token: TagToken<'_>) -> Option<Seq<char>> {
    match token_identifier(token) {
        Some(name) => Some(name),
        None => if is_readable(token_text(token)) {
            token_literal(token)
        } else {
            None
        },
    }
}

/// `found` with `values` in front of its candidates.
pub open spec fn prefixed(values: Seq<Expression>, found: Result<Seq<Expression>, SyntaxKind>)
    -> Result<Seq<Expression>, SyntaxKind> {
    match found {
        Ok(rest) => Ok(values + rest),
        Err(kind) => Err(kind),
    }
}

/// The cycle that the candidates `found` make under the name `given`.
pub open spec fn named_cycle(given: Seq<char>, found: Result<Seq<Expression>, SyntaxKind>)
    -> Result<(Seq<char>, Seq<Expression>), SyntaxKind> {
    match found {
        Ok(values) => Ok((effective_name(given, values), values)),
        Err(kind) => Err(kind),
    }
}

/// The candidates that `tokens` lists from position `start` on: a value,
/// then any number of times a `,` and a value, to the end of the tokens.
pub open spec fn candidates_from(tokens: Seq<TagToken<'_>>, start: int) -> Result<
    Seq<Expression>,
    SyntaxKind,
>
    decreases tokens.len() - start,
{
    if start < 0 || start >= tokens.len() {
        Err(SyntaxKind::ValueExpected)
    } else {
        match value_of(tokens[start]) {
            None => Err(SyntaxKind::ValueExpected),
            Some(value) => {
                if start + 1 >= tokens.len() {
                    Ok(seq![value])
                } else if token_text(tokens[start + 1]) != comma() {
                    Err(SyntaxKind::CommaExpected)
                } else {
                    prefixed(seq![value], candidates_from(tokens, start + 2))
                }
            },
        }
    }
}

/// The place of the token that stands where a `,` is due, in a list of
/// candidates from position `start` on that is rejected for it.
pub open spec fn comma_fault(tokens: Seq<TagToken<'_>>, start: int) -> int
    decreases tokens.len() - start,
{
    if start < 0 || start + 1 >= tokens.len() || value_of(tokens[start]).is_none() {
        -1
    } else if token_text(tokens[start + 1]) != comma() {
        start + 1
    } else {
        comma_fault(tokens, start + 2)
    }
}

/// The position at which the candidates of `tokens` begin.
pub open spec fn first_candidate(tokens: Seq<TagToken<'_>>) -> int {
    if is_named(tokens) {
        2
    } else {
        0
    }
}

/// The label of the error for an empty argument list.
pub open spec fn missing_label() -> Seq<char> {
    "Identifier or value expected"@
}

/// The label of the error for a second token that is neither `:` nor `,`.
pub open spec fn separator_label() -> Seq<char> {
    "\":\" or \",\" expected."@
}

/// The label of the error for a token in the place of a `,`.
pub open spec fn comma_label() -> Seq<char> {
    "\",\" expected."@
}

/// Whether `message` is the message owed for arguments rejected as `kind`:
/// an empty list is reported by the stream with its label, a wrong second
/// token and a token in the place of a `,` by that token with its label.
pub open spec fn is_syntax_message(
    arguments: TagTokenIter<'_>,
    kind: SyntaxKind,
    message: Seq<char>,
) -> bool {
    let tokens = pending(arguments);
    match kind {
        SyntaxKind::MissingArgument => message == stream_error_message(
            arguments,
            missing_label(),
        ),
        SyntaxKind::SeparatorExpected => message == token_custom_error_message(
            tokens[1],
            separator_label(),
        ),
        SyntaxKind::CommaExpected => message == token_custom_error_message(
            tokens[comma_fault(tokens, first_candidate(tokens))],
            comma_label(),
        ),
        _ => true,
    }
}

/// Whether `tokens` begins with a name and a `:`.
pub open spec fn is_named(tokens: Seq<TagToken<'_>>) -> bool {
    tokens.len() >= 2 && token_text(tokens[1]) == colon()
}

/// What the arguments `tokens` of a `cycle` tag mean: the name and the
/// candidates, of which there is at least one, or what is wrong with them.
pub open spec fn cycle_of(tokens: Seq<TagToken<'_>>) -> Result<
    (Seq<char>, Seq<Expression>),
    SyntaxKind,
> {
    if tokens.len() == 0 {
        Err(SyntaxKind::MissingArgument)
    } else if is_named(tokens) {
        match explicit_name(tokens[0]) {
            None => Err(SyntaxKind::InvalidName),
            Some(given) => named_cycle(given, candidates_from(tokens, 2)),
        }
    } else if tokens.len() == 1 || token_text(tokens[1]) == comma() {
        named_cycle(Seq::empty(), candidates_from(tokens, 0))
    } else {
        Err(SyntaxKind::SeparatorExpected)
    }
}

/// Two cycles without names of their own whose candidates read
/// differently have different names, and so do not share a counter, as
/// long as no candidate's displayable form holds a `-`.
pub proof fn lemma_different_candidates_differ_in_name(
    a: Seq<TagToken<'_>>,
    b: Seq<TagToken<'_>>,
)
    requires
        !is_named(a),
        !is_named(b),
        cycle_of(a).is_ok(),
        cycle_of(b).is_ok(),
        all_free_of(expression_texts(cycle_of(a).unwrap().1), '-'),
        all_free_of(expression_texts(cycle_of(b).unwrap().1), '-'),
        expression_texts(cycle_of(a).unwrap().1) != expression_texts(cycle_of(b).unwrap().1),
    ensures
        cycle_of(a).unwrap().0 != cycle_of(b).unwrap().0,
{
    reveal_strlit("-");
    assert("-"@ =~= seq!['-']);
    lemma_accepted_cycle_has_candidates(a);
    lemma_accepted_cycle_has_candidates(b);
    if cycle_of(a).unwrap().0 == cycle_of(b).unwrap().0 {
        lemma_joined_tells_the_parts(
            expression_texts(cycle_of(a).unwrap().1),
            expression_texts(cycle_of(b).unwrap().1),
            '-',
        );
    }
}

/// The source form of a cycle with the candidates `values`, for error
/// reports.
pub open spec fn trace_text(values: Seq<Expression>) -> Seq<char> {
    "{% cycle "@ + joined(expression_texts(values), ", "@) + " %}"@
}

/// Whether `text` is what a render gives that found the counter at
/// `index`, of a cycle with the candidates `values`, within `runtime`. A
/// counter beyond the candidates gives the error that names the index and
/// the number of candidates. Else the candidate at `index` is evaluated
/// within `runtime`: its text comes back, or the error of the evaluation.
/// Each error carries the source form of the cycle as its newest frame.
pub open spec fn is_render_outcome(
    index: nat,
    values: Seq<Expression>,
    runtime: Runtime<'_>,
    text: Result<String, Error>,
) -> bool {
    if index >= values.len() {
        match text {
            Ok(_) => false,
            Err(e) => error_message(e) == out_of_bounds_message() && error_frames(e) == traced(
                out_of_bounds_frames(index, values.len()),
                trace_text(values),
            ),
        }
    } else {
        match evaluated(values[index as int], runtime) {
            Ok(found) => match text {
                Ok(shown) => shown@ == value_text(found),
                Err(_) => false,
            },
            Err(cause) => match text {
                Ok(_) => false,
                Err(e) => error_message(e) == error_message(cause) && error_frames(e) == traced(
                    error_frames(cause),
                    trace_text(values),
                ),
            },
        }
    }
}

impl Cycle {
    /// A cycle has at least one candidate.
    #[verifier::type_invariant]
    spec fn has_candidates(&self) -> bool {
        self.values@.len() > 0
    }

    /// The name of the counter that this cycle advances.
    pub closed spec fn spec_name(&self) -> Seq<char> {
        self.name@
    }

    /// The candidates, in the order of the arguments.
    pub closed spec fn spec_values(&self) -> Seq<Expression> {
        self.values@
    }

    /// The name of the counter that this cycle advances.
    pub fn name(&self) -> (name: &str)
        ensures
            name@ == self.spec_name(),
    {
        self.name.as_str()
    }

    /// The candidates, in the order of the arguments.
    pub fn values(&self) -> (values: &[Expression])
        ensures
            values@ == self.spec_values(),
            values@.len() > 0,
    {
        proof {
            use_type_invariant(self);
        }
        self.values.as_slice()
    }

    /// The source form of this cycle, for error reports.
    pub fn trace(&self) -> (text: String)
        ensures
            text@ == trace_text(self.spec_values()),
    {
        let list: String = join_expressions(&self.values, ", ");
        let mut text: String = String::from_str("{% cycle ");
        text.append(list.as_str());
        text.append(" %}");
        text
    }

    /// Selects the candidate of the next render and advances the counter of
    /// this cycle in `state`. Where the counter lies beyond the candidates
    /// the error names the index and the number of candidates, and its
    /// newest frame is the source form of this cycle.
    pub fn select<'e>(&'e self, state: &mut State) -> (picked: Result<&'e Expression, Error>)
        ensures
            0 < self.spec_values().len() <= usize::MAX,
            final(state)@ == advanced(old(state)@, self.spec_name(), self.spec_values().len()),
            forall|other: Seq<char>|
                other != self.spec_name() ==> #[trigger] final(state).counter(other) == old(
                    state,
                ).counter(other),
            match picked {
                Ok(value) => old(state).counter(self.spec_name()) < self.spec_values().len()
                    && *value == self.spec_values()[old(state).counter(self.spec_name()) as int],
                Err(e) => old(state).counter(self.spec_name()) >= self.spec_values().len()
                    && error_message(e) == out_of_bounds_message() && error_frames(e) == traced(
                    out_of_bounds_frames(
                        old(state).counter(self.spec_name()),
                        self.spec_values().len(),
                    ),
                    trace_text(self.spec_values()),
                ),
            },
    {
        proof {
            use_type_invariant(self);
        }
        let values: &[Expression] = self.values.as_slice();
        assert(values@.len() == values.len());
        match state.cycle(self.name.as_str(), values) {
            Ok(value) => Ok(value),
            Err(e) => Err(error_trace(e, self.trace())),
        }
    }

    /// Renders this cycle once: advances its counter in the registers of
    /// `runtime`, evaluates the candidate at the counter's old place against
    /// the runtime as it is now, and returns the text of its value. The
    /// variable scopes stay as they were: every expression evaluates after
    /// the render as it did before.
    pub fn render(&self, runtime: &mut Runtime<'_>) -> (text: Result<String, Error>)
        ensures
            0 < self.spec_values().len() <= usize::MAX,
            forall|value: Expression| #[trigger]
                evaluated(value, *final(runtime)) == evaluated(value, *old(runtime)),
            cycle_counters(*final(runtime)) == advanced(
                cycle_counters(*old(runtime)),
                self.spec_name(),
                self.spec_values().len(),
            ),
            is_render_outcome(
                counter_of(cycle_counters(*old(runtime)), self.spec_name()),
                self.spec_values(),
                *final(runtime),
                text,
            ),
    {
        let picked = self.select(cycle_state(runtime));
        let value: &Expression = match picked {
            Ok(value) => value,
            Err(e) => {
                return Err(e);
            },
        };
        match evaluate_expression(value, runtime) {
            Ok(found) => Ok(render_value(&found)),
            Err(cause) => Err(error_trace(cause, self.trace())),
        }
    }
}

/// Reads the arguments of a `cycle` tag. The result is the cycle that
/// `cycle_of` gives for the pending tokens, or an error of the kind that it
/// gives, whose cause is a new error of the token stream.
pub fn parse_cycle<'a>(arguments: TagTokenIter<'a>) -> (parsed: Result<Cycle, SyntaxError>)
    ensures
        match parsed {
            Ok(cycle) => cycle_of(pending(arguments)) == Ok::<
                (Seq<char>, Seq<Expression>),
                SyntaxKind,
            >((cycle.spec_name(), cycle.spec_values())),
            Err(e) => cycle_of(pending(arguments)) == Err::<
                (Seq<char>, Seq<Expression>),
                SyntaxKind,
            >(e.kind) && error_frames(e.cause) == fresh_frames() && is_syntax_message(
                arguments,
                e.kind,
                error_message(e.cause),
            ),
        },
{
    let ghost tokens = pending(arguments);
    let mut rest = arguments;
    let mut name: String = String::new();
    let mut values: Vec<Expression> = Vec::new();

    let first = match expect_next(&mut rest, "Identifier or value expected") {
        Ok(token) => token,
        Err(e) => {
            return Err(SyntaxError { kind: SyntaxKind::MissingArgument, cause: e });
        },
    };
    // whether a value has to follow
    let mut more: bool = true;
    match next_token(&mut rest) {
        None => {
            match read_value(first) {
                Ok(value) => {
                    values.push(value);
                },
                Err(e) => {
                    return Err(SyntaxError { kind: SyntaxKind::ValueExpected, cause: e });
                },
            }
            more = false;
        },
        Some(separator) => {
            let text: String = token_str(&separator);
            if same_text(text.as_str(), ":") {
                match expect_identifier(first) {
                    Ok(given) => {
                        name = given;
                    },
                    Err(back) => match read_literal(back) {
                        Ok(given) => {
                            name = given;
                        },
                        Err(e) => {
                            return Err(SyntaxError { kind: SyntaxKind::InvalidName, cause: e });
                        },
                    },
                }
            } else if same_text(text.as_str(), ",") {
                match read_value(first) {
                    Ok(value) => {
                        values.push(value);
                    },
                    Err(e) => {
                        return Err(SyntaxError { kind: SyntaxKind::ValueExpected, cause: e });
                    },
                }
            } else {
                return Err(
                    SyntaxError {
                        kind: SyntaxKind::SeparatorExpected,
                        cause: raise_custom_error(separator, "\":\" or \",\" expected."),
                    },
                );
            }
        },
    }

    let ghost given: Seq<char> = name@;
    let ghost goal = if is_named(tokens) {
        candidates_from(tokens, 2)
    } else {
        candidates_from(tokens, 0)
    };
    let ghost mut at: int = 2;
    proof {
        assert(Seq::<Expression>::empty() + values@ =~= values@);
        if more {
            assert(pending(rest) =~= tokens.skip(at));
            match candidates_from(tokens, 2) {
                Ok(tail) => {
                    assert(Seq::<Expression>::empty() + tail =~= tail);
                },
                Err(_) => {},
            }
        }
        assert(cycle_of(tokens) == named_cycle(given, goal));
    }
    while more
        invariant
            tokens == pending(arguments),
            cycle_of(tokens) == named_cycle(given, goal),
            name@ == given,
            more ==> 2 <= at <= tokens.len() && pending(rest) == tokens.skip(at) && prefixed(
                values@,
                candidates_from(tokens, at),
            ) == goal,
            more ==> comma_fault(tokens, at) == comma_fault(tokens, first_candidate(tokens)),
            !more ==> values@.len() > 0 && pending(rest).len() == 0 && goal == Ok::<
                Seq<Expression>,
                SyntaxKind,
            >(values@),
        decreases tokens.len() - at + (if more { 1int } else { 0int }),
    {
        let ghost before = values@;
        let token = match expect_next(&mut rest, "Value expected") {
            Ok(token) => token,
            Err(e) => {
                return Err(SyntaxError { kind: SyntaxKind::ValueExpected, cause: e });
            },
        };
        assert(token == tokens[at]);
        match read_value(token) {
            Ok(value) => {
                values.push(value);
            },
            Err(e) => {
                return Err(SyntaxError { kind: SyntaxKind::ValueExpected, cause: e });
            },
        }
        assert(pending(rest) =~= tokens.skip(at + 1));
        match next_token(&mut rest) {
            None => {
                proof {
                    assert(before + seq![values@.last()] =~= values@);
                }
                more = false;
            },
            Some(separator) => {
                assert(separator == tokens[at + 1]);
                let text: String = token_str(&separator);
                if !same_text(text.as_str(), ",") {
                    return Err(
                        SyntaxError {
                            kind: SyntaxKind::CommaExpected,
                            cause: raise_custom_error(separator, "\",\" expected."),
                        },
                    );
                }
                proof {
                    assert(pending(rest) =~= tokens.skip(at + 2));
                    match candidates_from(tokens, at + 2) {
                        Ok(tail) => {
                            assert(before + (seq![values@.last()] + tail) =~= values@ + tail);
                        },
                        Err(_) => {},
                    }
                    at = at + 2;
                }
            },
        }
    }

    if name.as_str().is_empty() {
        name = join_expressions(&values, "-");
    }
    match expect_nothing(&mut rest) {
        Ok(_) => {},
        Err(e) => {
            return Err(SyntaxError { kind: SyntaxKind::UnexpectedToken, cause: e });
        },
    }

    Ok(Cycle { name, values })
}

/// Reads a token as a value. A token that cannot be read, or is no value,
/// gives the error that points at it.
pub fn read_value<'a>(token: TagToken<'a>) -> (found: Result<Expression, Error>)
    ensures
        match found {
            Ok(value) => value_of(token) == Some(value),
            Err(e) => value_of(token).is_none() && error_frames(e) == fresh_frames() && (
            !is_readable(token_text(token)) ==> error_message(e) == token_custom_error_message(
                token,
                "Value expected."@,
            )),
        },
{
    let text: String = token_str(&token);
    if !can_read(text.as_str()) {
        return Err(raise_custom_error(token, "Value expected."));
    }
    match expect_value(token) {
        Ok(value) => Ok(value),
        Err(back) => Err(raise_error(back)),
    }
}

/// Reads a token as a literal, by its string form. A token that cannot be
/// read, or is no literal, gives the error that points at it.
pub fn read_literal<'a>(token: TagToken<'a>) -> (found: Result<String, Error>)
    ensures
        match found {
            Ok(text) => is_readable(token_text(token)) && token_literal(token) == Some(text@),
            Err(e) => (!is_readable(token_text(token)) || token_literal(token).is_none())
                && error_frames(e) == fresh_frames() && (!is_readable(token_text(token))
                ==> error_message(e) == token_custom_error_message(token, "Literal expected."@)),
        },
{
    let text: String = token_str(&token);
    if !can_read(text.as_str()) {
        return Err(raise_custom_error(token, "Literal expected."));
    }
    match expect_literal(token) {
        Ok(text) => Ok(text),
        Err(back) => Err(raise_error(back)),
    }
}

/// The `cycle` tag as a template language knows it: its name, its
/// description and its parser.
#[derive(Clone, Copy, Debug)]
pub struct CycleTag;

impl CycleTag {
    /// The tag.
    pub fn new() -> (tag: CycleTag)
        ensures
            tag == CycleTag,
    {
        CycleTag
    }

    /// The name under which templates use the tag.
    pub fn tag(&self) -> (name: &'static str)
        ensures
            name@ == "cycle"@,
    {
        "cycle"
    }

    /// The description of the tag, which is empty.
    pub fn description(&self) -> (text: &'static str)
        ensures
            text@ == ""@,
    {
        ""
    }

    /// Reads the arguments of one use of the tag, as `parse_cycle` does.
    pub fn parse<'a>(&self, arguments: TagTokenIter<'a>) -> (parsed: Result<Cycle, SyntaxError>)
        ensures
            match parsed {
                Ok(cycle) => cycle_of(pending(arguments)) == Ok::<
                    (Seq<char>, Seq<Expression>),
                    SyntaxKind,
                >((cycle.spec_name(), cycle.spec_values())),
                Err(e) => cycle_of(pending(arguments)) == Err::<
                    (Seq<char>, Seq<Expression>),
                    SyntaxKind,
                >(e.kind) && error_frames(e.cause) == fresh_frames() && is_syntax_message(
                arguments,
                e.kind,
                error_message(e.cause),
            ),
            },
    {
        parse_cycle(arguments)
    }
}

impl Default for CycleTag {
    fn default() -> (tag: CycleTag)
        ensures
            tag == CycleTag,
    {
        CycleTag
    }
}

/// A cycle without a name of its own is named by its candidates: the name
/// is their displayable forms, in order, with `-` between them.
pub proof fn lemma_anonymous_cycle_is_named_by_its_candidates(tokens: Seq<TagToken<'_>>)
    requires
        !is_named(tokens),
        cycle_of(tokens).is_ok(),
    ensures
        cycle_of(tokens).unwrap().0 == joined(
            expression_texts(cycle_of(tokens).unwrap().1),
            "-"@,
        ),
{
}

/// Two cycles without names of their own whose candidates read alike have
/// the same name, and so share one counter.
pub proof fn lemma_same_candidates_share_a_name(a: Seq<TagToken<'_>>, b: Seq<TagToken<'_>>)
    requires
        !is_named(a),
        !is_named(b),
        cycle_of(a).is_ok(),
        cycle_of(b).is_ok(),
        expression_texts(cycle_of(a).unwrap().1) == expression_texts(cycle_of(b).unwrap().1),
    ensures
        cycle_of(a).unwrap().0 == cycle_of(b).unwrap().0,
{
}

/// In an accepted list of candidates the tokens alternate: a value, then a
/// `,`, then a value, and so on. A token that breaks this has the list
/// rejected.
pub proof fn lemma_candidates_alternate(tokens: Seq<TagToken<'_>>, start: int, i: int)
    requires
        0 <= start <= i < tokens.len(),
        candidates_from(tokens, start).is_ok(),
    ensures
        (i - start) % 2 == 0 ==> token_value(tokens[i]).is_some(),
        (i - start) % 2 == 1 ==> token_text(tokens[i]) == comma(),
    decreases tokens.len() - start,
{
    if i >= start + 2 {
        lemma_candidates_alternate(tokens, start + 2, i);
    }
}

/// An accepted list of candidates holds at least one.
pub proof fn lemma_candidates_are_not_empty(tokens: Seq<TagToken<'_>>, start: int)
    requires
        candidates_from(tokens, start).is_ok(),
    ensures
        candidates_from(tokens, start).unwrap().len() >= 1,
        0 <= start < tokens.len(),
{
}

/// An accepted cycle has at least one candidate: a name with nothing after
/// its `:` is rejected, and so is a list that ends in a `,`.
pub proof fn lemma_accepted_cycle_has_candidates(tokens: Seq<TagToken<'_>>)
    requires
        cycle_of(tokens).is_ok(),
    ensures
        cycle_of(tokens).unwrap().1.len() >= 1,
{
    if is_named(tokens) {
        lemma_candidates_are_not_empty(tokens, 2);
    } else {
        lemma_candidates_are_not_empty(tokens, 0);
    }
}

/// Tokens that end right after a `,` are rejected: the `,` asks for a value
/// after it.
pub proof fn lemma_list_cannot_end_in_a_comma(tokens: Seq<TagToken<'_>>, start: int)
    requires
        0 <= start,
        start + 2 == tokens.len(),
        token_text(tokens[start + 1]) == comma(),
    ensures
        candidates_from(tokens, start).is_err(),
{
    assert(candidates_from(tokens, start + 2).is_err());
}

/// Accepted arguments hold no stray token: after the first two tokens every
/// token at an even place is a value and every token at an odd place is a
/// `,`; the second token is a `:` or a `,`. Arguments with any other token
/// in such a place are rejected when they are parsed.
pub proof fn lemma_accepted_arguments_alternate(tokens: Seq<TagToken<'_>>, i: int)
    requires
        cycle_of(tokens).is_ok(),
        1 <= i < tokens.len(),
    ensures
        i == 1 ==> token_text(tokens[i]) == colon() || token_text(tokens[i]) == comma(),
        i >= 2 && i % 2 == 0 ==> token_value(tokens[i]).is_some(),
        i >= 2 && i % 2 == 1 ==> token_text(tokens[i]) == comma(),
{
    if i >= 2 {
        lemma_candidates_alternate(tokens, 2, i);
    }
}

} // verus!
