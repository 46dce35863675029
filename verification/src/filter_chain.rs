//! A filter chain: an entry expression and the filters that its value runs
//! through, in order.

use vstd::prelude::*;
use vstd::string::StringExecFns;
use liquid_core::Error;
use liquid_core::Expression;
use liquid_core::Runtime;
use liquid_core::Value;
use liquid_core::ValueCow;
use crate::error::{
    annotated, error_context, error_frames, error_message, error_trace, has_annotation, traced,
    Frame,
};
use crate::expression::{expression_string, expression_text, join_texts, joined, text_views};
use crate::runtime::{
    evaluate_expression, evaluated, owned_of, owned_value, render_value, value_is_owned,
    value_source, value_source_text, value_text,
};

verus! {

/// A named transformation of a value. Implementations decide what a filter
/// computes and when it fails; the chain decides the rest. What the chain
/// proves holds of a filter whose result depends on its input and the
/// runtime alone, and whose displayable form is always the same.
pub trait Filter {
    /// What the filter makes of `input` within `runtime`. An impl that
    /// does not say leaves it open.
    open spec fn spec_evaluate(&self, input: ValueCow<'_>, runtime: Runtime<'_>) -> Result<
        Value,
        Error,
    > {
        arbitrary()
    }

    /// The displayable form of the filter. An impl that does not say leaves
    /// it open.
    open spec fn spec_text(&self) -> Seq<char> {
        arbitrary()
    }

    /// The filter applied to `input` within `runtime`.
    fn evaluate(&self, input: &ValueCow<'_>, runtime: &Runtime<'_>) -> (found: Result<Value, Error>)
        ensures
            found == self.spec_evaluate(*input, *runtime),
    ;

    /// The displayable form of the filter, as a template writes it.
    fn text(&self) -> (text: String)
        ensures
            text@ == self.spec_text(),
    ;
}

/// A value expression with its filters.
#[derive(Debug)]
pub struct FilterChain<F: Filter> {
    entry: Expression,
    filters: Vec<F>,
}

/// The frames of a filter's error after the chain has annotated it: a new
/// step "Filter error" that names the filter, then its input.
pub open spec fn filter_failure_frames(frames: Seq<Frame>, filter: Seq<char>, input: Seq<char>)
    -> Seq<Frame> {
    annotated(annotated(traced(frames, "Filter error"@), "filter"@, filter), "input"@, input)
}

/// The displayable forms of `filters`, in order.
pub open spec fn filter_texts<F: Filter>(filters: Seq<F>) -> Seq<Seq<char>> {
    filters.map_values(|filter: F| filter.spec_text())
}

/// The walk of `entry` through the first `count` of `filters`, first one
/// first, each applied to the owned output of the one before: the value
/// that comes out, or the place of the first filter that fails, with the
/// value fed to it and its error.
pub open spec fn walked<'a, F: Filter>(
    filters: Seq<F>,
    entry: ValueCow<'a>,
    runtime: Runtime<'_>,
    count: nat,
) -> Result<ValueCow<'a>, (int, ValueCow<'a>, Error)>
    decreases count,
{
    if count == 0 {
        Ok(entry)
    } else {
        match walked(filters, entry, runtime, (count - 1) as nat) {
            Ok(input) => match filters[count - 1].spec_evaluate(input, runtime) {
                Ok(output) => Ok(owned_of(output)),
                Err(cause) => Err((count - 1, input, cause)),
            },
            Err(failure) => Err(failure),
        }
    }
}

/// Whether `found` is what the walk of `entry` through all of `filters`
/// gives: the value that comes out, or the error of the first filter that
/// fails, annotated with that filter's displayable form and with the source
/// form of the value fed to it.
pub open spec fn is_walk_outcome<F: Filter>(
    filters: Seq<F>,
    entry: ValueCow<'_>,
    runtime: Runtime<'_>,
    found: Result<ValueCow<'_>, Error>,
) -> bool {
    match walked(filters, entry, runtime, filters.len()) {
        Ok(output) => found == Ok::<ValueCow<'_>, Error>(output),
        Err(failure) => match found {
            Ok(_) => false,
            Err(e) => is_annotated_failure(filters, failure, e),
        },
    }
}

/// Whether `e` is the error of the failed walk `failure`, annotated.
pub open spec fn is_annotated_failure<F: Filter>(
    filters: Seq<F>,
    failure: (int, ValueCow<'_>, Error),
    e: Error,
) -> bool {
    &&& 0 <= failure.0 < filters.len()
    &&& error_message(e) == error_message(failure.2)
    &&& error_frames(e) == filter_failure_frames(
        error_frames(failure.2),
        filters[failure.0].spec_text(),
        value_source_text(failure.1),
    )
}

/// Whether `text` is what the chain shows for the walk outcome: the text
/// of the value that comes out, or the annotated error.
pub open spec fn is_walk_text<F: Filter>(
    filters: Seq<F>,
    entry: ValueCow<'_>,
    runtime: Runtime<'_>,
    text: Result<String, Error>,
) -> bool {
    match walked(filters, entry, runtime, filters.len()) {
        Ok(output) => match text {
            Ok(shown) => shown@ == value_text(output),
            Err(_) => false,
        },
        Err(failure) => match text {
            Ok(_) => false,
            Err(e) => is_annotated_failure(filters, failure, e),
        },
    }
}

/// A walk that has failed stays failed, at the same place, however many
/// filters follow.
pub proof fn lemma_walk_stays_failed<F: Filter>(
    filters: Seq<F>,
    entry: ValueCow<'_>,
    runtime: Runtime<'_>,
    count: nat,
    more: nat,
)
    requires
        walked(filters, entry, runtime, count).is_err(),
        count <= more,
    ensures
        walked(filters, entry, runtime, more) == walked(filters, entry, runtime, count),
    decreases more,
{
    if count < more {
        lemma_walk_stays_failed(filters, entry, runtime, count, (more - 1) as nat);
    }
}

/// Whether `e` is the annotated error of a failed filter.
pub open spec fn is_filter_failure(e: Error) -> bool {
    exists|cause: Error, filter: Seq<char>, input: Seq<char>|
        error_message(e) == error_message(cause) && #[trigger] filter_failure_frames(
            error_frames(cause),
            filter,
            input,
        ) == error_frames(e)
}

/// Whether `e` is the error of an entry expression that has no value.
pub open spec fn is_entry_failure(e: Error) -> bool {
    error_frames(e).len() == 1 && error_frames(e)[0].trace.is_none()
}

/// The displayable form of a chain: the entry, then each filter after a
/// ` | `.
pub open spec fn chain_text(entry: Seq<char>, filters: Seq<Seq<char>>) -> Seq<char> {
    entry + " | "@ + joined(filters, " | "@)
}

/// Annotates the error `cause` of a filter with the filter's displayable
/// form and with the source form of the value that was fed into it.
pub fn filter_failure(cause: Error, filter: String, input: String) -> (e: Error)
    ensures
        error_message(e) == error_message(cause),
        error_frames(e) == filter_failure_frames(error_frames(cause), filter@, input@),
        is_filter_failure(e),
        has_annotation(error_frames(e), "filter"@, filter@),
        has_annotation(error_frames(e), "input"@, input@),
{
    let e = error_trace(cause, String::from_str("Filter error"));
    let e = error_context(e, "filter", filter);
    let e = error_context(e, "input", input);
    proof {
        lemma_failure_names_filter_and_input(error_frames(cause), filter@, input@);
    }
    e
}

/// The annotated error of a failed filter holds both the filter's
/// displayable form, under "filter", and its input's, under "input",
/// whatever the error held before.
pub proof fn lemma_failure_names_filter_and_input(
    frames: Seq<Frame>,
    filter: Seq<char>,
    input: Seq<char>,
)
    ensures
        has_annotation(filter_failure_frames(frames, filter, input), "filter"@, filter),
        has_annotation(filter_failure_frames(frames, filter, input), "input"@, input),
{
    let after = filter_failure_frames(frames, filter, input);
    let last = after.len() - 1;
    assert(after[last].context[0] == ("filter"@, filter));
    assert(after[last].context[1] == ("input"@, input));
}

impl<F: Filter> FilterChain<F> {
    /// The entry expression.
    pub closed spec fn spec_entry(&self) -> Expression {
        self.entry
    }

    /// The filters, first one first.
    pub closed spec fn spec_filters(&self) -> Seq<F> {
        self.filters@
    }

    /// A chain that feeds the value of `entry` through `filters`, first one
    /// first.
    pub fn new(entry: Expression, filters: Vec<F>) -> (chain: FilterChain<F>)
        ensures
            chain.spec_entry() == entry,
            chain.spec_filters() == filters@,
    {
        FilterChain { entry, filters }
    }

    /// Feeds `entry` through the filters in order, each applied to the owned
    /// output of the one before. Without filters the result is `entry`
    /// itself. The first filter that fails ends the walk, and its error
    /// comes back annotated with that filter's displayable form and with the
    /// source form of the value that was fed to it.
    pub fn apply<'s>(&'s self, entry: ValueCow<'s>, runtime: &'s Runtime<'_>) -> (found: Result<
        ValueCow<'s>,
        Error,
    >)
        ensures
            is_walk_outcome(self.spec_filters(), entry, *runtime, found),
            self.spec_filters().len() == 0 ==> found == Ok::<ValueCow<'s>, Error>(entry),
            match found {
                Ok(value) => self.spec_filters().len() > 0 ==> value_is_owned(value),
                Err(e) => self.spec_filters().len() > 0 && is_filter_failure(e),
            },
    {
        let mut current: ValueCow<'s> = entry;
        let mut i: usize = 0;
        while i < self.filters.len()
            invariant
                i <= self.filters@.len(),
                walked(self.filters@, entry, *runtime, i as nat) == Ok::<
                    ValueCow<'s>,
                    (int, ValueCow<'s>, Error),
                >(current),
                i > 0 ==> value_is_owned(current),
            decreases self.filters@.len() - i,
        {
            let filter: &F = &self.filters[i];
            match filter.evaluate(&current, runtime) {
                Ok(value) => {
                    current = owned_value(value);
                },
                Err(cause) => {
                    proof {
                        lemma_walk_stays_failed(
                            self.filters@,
                            entry,
                            *runtime,
                            (i + 1) as nat,
                            self.filters@.len(),
                        );
                    }
                    return Err(filter_failure(cause, filter.text(), value_source(&current)));
                },
            }
            i = i + 1;
        }
        Ok(current)
    }

    /// The value of the chain within `runtime`: the entry's error as it is
    /// where the entry has no value, and else what the walk of the entry's
    /// value through the filters gives.
    pub fn evaluate<'s>(&'s self, runtime: &'s Runtime<'_>) -> (found: Result<ValueCow<'s>, Error>)
        ensures
            match evaluated(self.spec_entry(), *runtime) {
                Ok(entry) => is_walk_outcome(self.spec_filters(), entry, *runtime, found),
                Err(e) => found == Err::<ValueCow<'s>, Error>(e),
            },
            match found {
                Ok(value) => self.spec_filters().len() > 0 ==> value_is_owned(value),
                Err(e) => is_entry_failure(e) || (self.spec_filters().len() > 0
                    && is_filter_failure(e)),
            },
    {
        match evaluate_expression(&self.entry, runtime) {
            Ok(entry) => self.apply(entry, runtime),
            Err(e) => Err(e),
        }
    }

    /// The text that the chain shows in a template: the text of the value
    /// that `evaluate` gives. It fails as `evaluate` does.
    pub fn render(&self, runtime: &Runtime<'_>) -> (text: Result<String, Error>)
        ensures
            match evaluated(self.spec_entry(), *runtime) {
                Ok(entry) => is_walk_text(self.spec_filters(), entry, *runtime, text),
                Err(e) => text == Err::<String, Error>(e),
            },
            match text {
                Ok(_) => true,
                Err(e) => is_entry_failure(e) || (self.spec_filters().len() > 0
                    && is_filter_failure(e)),
            },
    {
        rendered(self.evaluate(runtime))
    }

    /// The displayable form of the chain: the entry, then each filter's own
    /// form after a ` | `.
    pub fn text(&self) -> (text: String)
        ensures
            text@ == chain_text(
                expression_text(self.spec_entry()),
                filter_texts(self.spec_filters()),
            ),
    {
        let mut parts: Vec<String> = Vec::new();
        let mut i: usize = 0;
        while i < self.filters.len()
            invariant
                i <= self.filters@.len(),
                parts@.len() == i,
                forall|k: int| 0 <= k < i ==> (#[trigger] parts@[k])@ == self.filters@[k].spec_text(),
            decreases self.filters@.len() - i,
        {
            parts.push(self.filters[i].text());
            i = i + 1;
        }
        let mut text: String = expression_string(&self.entry);
        text.append(" | ");
        let list: String = join_texts(&parts, " | ");
        text.append(list.as_str());
        proof {
            assert(text_views(parts@) =~= filter_texts(self.spec_filters()));
        }
        text
    }
}

/// The text that a template shows for the outcome `found` of an
/// evaluation: the text of a value, and an error as it came.
pub fn rendered(found: Result<ValueCow<'_>, Error>) -> (text: Result<String, Error>)
    ensures
        match found {
            Ok(value) => match text {
                Ok(shown) => shown@ == value_text(value),
                Err(_) => false,
            },
            Err(e) => text == Err::<String, Error>(e),
        },
{
    match found {
        Ok(value) => Ok(render_value(&value)),
        Err(e) => Err(e),
    }
}

} // verus!
