//! The render-time collaborators of `liquid_core`: the runtime with its
//! registers, and the values that expressions evaluate to.

use vstd::prelude::*;
use liquid_core::Error;
use liquid_core::Expression;
use liquid_core::Runtime;
use liquid_core::Value;
use liquid_core::ValueCow;
use liquid_core::ValueView;
use crate::error::error_frames;
use crate::state::State;

verus! {

#[verifier::external_type_specification]
#[verifier::external_body]
pub struct ExRuntime<'g>(liquid_core::Runtime<'g>);

#[verifier::external_type_specification]
#[verifier::external_body]
pub struct ExValueCow<'s>(liquid_core::ValueCow<'s>);

#[verifier::external_type_specification]
#[verifier::external_body]
pub struct ExValue(liquid_core::Value);

/// The cycle counters in the registers of a runtime; none where no cycle has
/// been rendered with it yet.
pub uninterp spec fn cycle_counters(runtime: Runtime<'_>) -> Map<Seq<char>, usize>;

/// Calls `Runtime::get_register_mut` for the cycle counters: the register is
/// made empty on first access, and what is done to the state that comes back
/// is done to the register. The variable scopes are not touched, so every
/// expression evaluates afterwards as it did before.
#[verifier::external_body]
pub(crate) fn cycle_state<'r, 'g>(runtime: &'r mut Runtime<'g>) -> (state: &'r mut State)
    ensures
        state@ == cycle_counters(*old(runtime)),
        cycle_counters(*final(runtime)) == final(state)@,
        forall|value: Expression| #[trigger]
            evaluated(value, *final(runtime)) == evaluated(value, *old(runtime)),
{
    runtime.get_register_mut::<State>()
}

/// What an expression evaluates to within a runtime: the value of a
/// literal, or of a variable path in the scopes of the runtime, or the error
/// of a path that leads nowhere. It is a matter of this very runtime, with
/// the values that it holds in memory; a runtime that holds values of a
/// type of the user's is taken to answer alike each time.
pub uninterp spec fn evaluated(value: Expression, runtime: Runtime<'_>) -> Result<
    ValueCow<'_>,
    Error,
>;

/// The text that a template shows for a value. It is a matter of this very
/// value as it lies in memory: another object with the same contents may
/// show them in another order.
pub uninterp spec fn value_text(value: ValueCow<'_>) -> Seq<char>;

/// The source-like form of a value.
pub uninterp spec fn value_source_text(value: ValueCow<'_>) -> Seq<char>;

/// The owned value that holds `value`.
pub uninterp spec fn owned_of(value: Value) -> ValueCow<'static>;

/// The text that an expression shows within a runtime, or the error of its
/// evaluation.
pub open spec fn evaluation_text(value: Expression, runtime: Runtime<'_>) -> Result<
    Seq<char>,
    Error,
> {
    match evaluated(value, runtime) {
        Ok(found) => Ok(value_text(found)),
        Err(e) => Err(e),
    }
}

/// Calls `Expression::evaluate`: the result depends on the expression and
/// the runtime alone. An error is a fresh one, with a single frame and no
/// description of a step.
#[verifier::external_body]
pub(crate) fn evaluate_expression<'s>(value: &'s Expression, runtime: &'s Runtime<'_>) -> (found:
    Result<ValueCow<'s>, Error>)
    ensures
        found == evaluated(*value, *runtime),
        match found {
            Ok(_) => true,
            Err(e) => error_frames(e).len() == 1 && error_frames(e)[0].trace.is_none(),
        },
{
    value.evaluate(runtime)
}

/// Whether a value is held as `ValueCow::Owned`, and so borrows from
/// nothing.
pub uninterp spec fn value_is_owned(value: ValueCow<'_>) -> bool;

/// Makes the `ValueCow::Owned` that holds `value`.
#[verifier::external_body]
pub(crate) fn owned_value<'s>(value: Value) -> (held: ValueCow<'s>)
    ensures
        held == owned_of(value),
        value_is_owned(held),
{
    ValueCow::Owned(value)
}

/// Calls `ValueView::render` and collects the text that a template shows
/// for the value.
#[verifier::external_body]
pub(crate) fn render_value(value: &ValueCow<'_>) -> (text: String)
    ensures
        text@ == value_text(*value),
{
    value.render().to_string()
}

/// Calls `ValueView::source` and collects the value's source-like form.
#[verifier::external_body]
pub(crate) fn value_source(value: &ValueCow<'_>) -> (text: String)
    ensures
        text@ == value_source_text(*value),
{
    value.source().to_string()
}

} // verus!
