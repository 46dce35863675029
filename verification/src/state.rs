//! The counters of the `cycle` tags of one render pass.

use vstd::prelude::*;
use vstd::hash_map::StringHashMap;
use liquid_core::Error;
use liquid_core::Expression;
use crate::error::{error_context, error_frames, error_message, error_with_message, Frame};
use crate::text::{decimal, decimal_text};

verus! {

/// The index that follows `index` among `count` candidates.
pub open spec fn next_index(index: nat, count: nat) -> nat
    recommends
        count > 0,
{
    (index + 1) % count
}

/// The counter of `name` among `counters`: what is stored for it, and 0 for
/// a name not met yet.
pub open spec fn counter_of(counters: Map<Seq<char>, usize>, name: Seq<char>) -> nat {
    if counters.contains_key(name) {
        counters[name] as nat
    } else {
        0
    }
}

/// The counters after a render of the cycle `name` with `count` candidates.
pub open spec fn advanced(counters: Map<Seq<char>, usize>, name: Seq<char>, count: nat) -> Map<
    Seq<char>,
    usize,
>
    recommends
        0 < count <= usize::MAX,
{
    counters.insert(name, next_index(counter_of(counters, name), count) as usize)
}

/// The counters after `renders` renders in a row of the cycle `name` with
/// `count` candidates.
pub open spec fn advanced_times(
    counters: Map<Seq<char>, usize>,
    name: Seq<char>,
    count: nat,
    renders: nat,
) -> Map<Seq<char>, usize>
    decreases renders,
{
    if renders == 0 {
        counters
    } else {
        advanced(advanced_times(counters, name, count, (renders - 1) as nat), name, count)
    }
}

/// The message of the error that a counter beyond the candidates gives.
pub open spec fn out_of_bounds_message() -> Seq<char> {
    "cycle index out of bounds, most likely from mismatched cycles"@
}

/// The single frame of that error: the offending index, then the number of
/// candidates.
pub open spec fn out_of_bounds_frames(index: nat, count: nat) -> Seq<Frame> {
    seq![
        Frame {
            trace: None,
            context: seq![("index"@, decimal_text(index)), ("count"@, decimal_text(count))],
        },
    ]
}

/// For each cycle name met during a render pass, the index of the candidate
/// that the next render of a cycle of that name selects.
pub struct State {
    cycles: StringHashMap<usize>,
}

impl View for State {
    type V = Map<Seq<char>, usize>;

    closed spec fn view(&self) -> Map<Seq<char>, usize> {
        self.cycles@
    }
}

impl State {
    /// The counter of `name` in this state.
    pub open spec fn counter(&self, name: Seq<char>) -> nat {
        counter_of(self@, name)
    }

    /// A state in which no name has been met.
    pub fn new() -> (state: State)
        ensures
            state@ == Map::<Seq<char>, usize>::empty(),
    {
        State { cycles: StringHashMap::new() }
    }

    /// Returns the counter of `name` and moves it one step on, back to 0 after
    /// the last of `max` candidates.
    pub fn cycle_index(&mut self, name: &str, max: usize) -> (index: usize)
        requires
            max > 0,
        ensures
            index == old(self).counter(name@),
            final(self)@ == advanced(old(self)@, name@, max as nat),
            final(self).counter(name@) == next_index(index as nat, max as nat),
            forall|other: Seq<char>|
                other != name@ ==> #[trigger] final(self).counter(other) == old(self).counter(
                    other,
                ),
    {
        let index: usize = match self.cycles.get(name) {
            Some(stored) => *stored,
            None => 0,
        };
        let next: usize = (index % max + 1) % max;
        proof {
            lemma_step_from_remainder(index as int, max as int);
        }
        self.cycles.insert(name.to_owned(), next);
        index
    }

    /// Selects the candidate at the counter of `name` and moves the counter
    /// one step on. A counter beyond the candidates, left there by a cycle of
    /// the same name with more candidates, gives an error that names the
    /// index and the number of candidates; the counter moves on all the same.
    pub fn cycle<'e>(&mut self, name: &str, values: &'e [Expression]) -> (picked: Result<
        &'e Expression,
        Error,
    >)
        requires
            values@.len() > 0,
        ensures
            final(self)@ == advanced(old(self)@, name@, values@.len()),
            forall|other: Seq<char>|
                other != name@ ==> #[trigger] final(self).counter(other) == old(self).counter(
                    other,
                ),
            match picked {
                Ok(value) => old(self).counter(name@) < values@.len() && *value
                    == values@[old(self).counter(name@) as int],
                Err(e) => old(self).counter(name@) >= values@.len() && error_message(e)
                    == out_of_bounds_message() && error_frames(e) == out_of_bounds_frames(
                    old(self).counter(name@),
                    values@.len(),
                ),
            },
    {
        let index: usize = self.cycle_index(name, values.len());
        if index >= values.len() {
            let e = error_with_message(
                "cycle index out of bounds, most likely from mismatched cycles",
            );
            let e = error_context(e, "index", decimal(index));
            let ghost indexed = error_frames(e);
            let e = error_context(e, "count", decimal(values.len()));
            proof {
                let goal = out_of_bounds_frames(index as nat, values@.len());
                assert(indexed[0].context =~= seq![("index"@, decimal_text(index as nat))]);
                assert(error_frames(e)[0].context =~= goal[0].context);
                assert(error_frames(e) =~= goal);
            }
            return Err(e);
        }
        Ok(&values[index])
    }
}

impl Default for State {
    fn default() -> (state: State)
        ensures
            state@ == Map::<Seq<char>, usize>::empty(),
    {
        State::new()
    }
}

/// A step from the remainder of `index` ends where a step from `index` ends.
proof fn lemma_step_from_remainder(index: int, count: int)
    requires
        0 <= index,
        0 < count,
    ensures
        (index % count + 1) % count == (index + 1) % count,
{
    vstd::arithmetic::div_mod::lemma_add_mod_noop(index, 1, count);
    vstd::arithmetic::div_mod::lemma_mod_twice(index, count);
    vstd::arithmetic::div_mod::lemma_add_mod_noop(index % count, 1, count);
}

/// A render of one cycle leaves the counter of every other name as it was.
pub proof fn lemma_other_names_keep_their_counter(
    counters: Map<Seq<char>, usize>,
    name: Seq<char>,
    count: nat,
    other: Seq<char>,
)
    requires
        other != name,
    ensures
        counter_of(advanced(counters, name, count), other) == counter_of(counters, other),
{
}

/// Renders of two cycles with different names can be swapped: each counter
/// ends where it would have ended without the other cycle.
pub proof fn lemma_different_names_commute(
    counters: Map<Seq<char>, usize>,
    first: Seq<char>,
    first_count: nat,
    second: Seq<char>,
    second_count: nat,
)
    requires
        first != second,
    ensures
        advanced(advanced(counters, first, first_count), second, second_count) == advanced(
            advanced(counters, second, second_count),
            first,
            first_count,
        ),
{
    assert(advanced(advanced(counters, first, first_count), second, second_count) =~= advanced(
        advanced(counters, second, second_count),
        first,
        first_count,
    ));
}

/// After `renders` renders of a cycle with `count` candidates its counter
/// has gone round: it stands at the start plus `renders`, modulo `count`. So
/// a cycle that starts at 0 selects its candidates in order and begins again
/// after the last.
pub proof fn lemma_counter_wraps_around(
    counters: Map<Seq<char>, usize>,
    name: Seq<char>,
    count: nat,
    renders: nat,
)
    requires
        0 < count <= usize::MAX,
    ensures
        renders > 0 ==> counter_of(advanced_times(counters, name, count, renders), name) == (
        counter_of(counters, name) + renders) % count,
        renders == 0 ==> advanced_times(counters, name, count, renders) == counters,
    decreases renders,
{
    if renders > 0 {
        let before = advanced_times(counters, name, count, (renders - 1) as nat);
        let start = counter_of(counters, name) as int;
        lemma_counter_wraps_around(counters, name, count, (renders - 1) as nat);
        let j = counter_of(before, name) as int;
        assert(counter_of(advanced(before, name, count), name) == (j + 1) % (count as int));
        if renders == 1 {
            assert(j == start);
        } else {
            assert(j == (start + renders - 1) % (count as int));
            lemma_step_from_remainder(start + renders - 1, count as int);
        }
    }
}

/// Calls in a row select the candidates in turn: a cycle whose counter
/// stands at 0 finds it, after any number of calls with `count` candidates,
/// at that number modulo `count`. That place holds a candidate, so the next
/// call selects it and does not fail.
pub proof fn lemma_calls_in_a_row_select_in_turn(
    counters: Map<Seq<char>, usize>,
    name: Seq<char>,
    count: nat,
    calls: nat,
)
    requires
        0 < count <= usize::MAX,
        counter_of(counters, name) == 0,
    ensures
        counter_of(advanced_times(counters, name, count, calls), name) == calls % count,
        calls % count < count,
{
    lemma_counter_wraps_around(counters, name, count, calls);
    if calls == 0 {
        vstd::arithmetic::div_mod::lemma_small_mod(0, count);
    }
}

/// A cycle with fewer candidates that reuses the name of a longer one finds
/// the counter beyond its own candidates: after a render of the longer
/// cycle the counter stands one step on, and a cycle with no more
/// candidates than that has none to select.
pub proof fn lemma_shorter_cycle_is_overrun(
    counters: Map<Seq<char>, usize>,
    name: Seq<char>,
    long: nat,
    short: nat,
)
    requires
        counter_of(counters, name) + 1 < long <= usize::MAX,
        short <= counter_of(counters, name) + 1,
    ensures
        counter_of(advanced(counters, name, long), name) == counter_of(counters, name) + 1,
        counter_of(advanced(counters, name, long), name) >= short,
{
    vstd::arithmetic::div_mod::lemma_small_mod(counter_of(counters, name) + 1, long);
}

} // verus!
