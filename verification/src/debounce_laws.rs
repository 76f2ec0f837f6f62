//! What holds of every run of the debouncer.
//!
//! A run is a sequence of inputs, events and wake-ups, each with its
//! instant; its calls are the events that the wake-ups hand out, each under
//! its key. The laws here are stated over the model that the contracts of
//! `Debouncer::register` and `Debouncer::expire` speak of.

use crate::debounce::{
    deadline_after, due, expired, fired, initial, key_of, registered, DebounceState, Pending, WatchEventView,
};
use vstd::prelude::*;

verus! {

/// What the debouncer is given: an event, or a wake-up for a key.
pub ghost enum Input {
    Event { event: WatchEventView, at: nat },
    Wake { key: Seq<char>, at: nat },
}

/// One call of the handler: the event that a wake-up handed out for a key.
pub ghost struct Invocation {
    pub key: Seq<char>,
    pub payload: WatchEventView,
}

/// Where a run stands: the state of the debouncer and the calls made so far.
pub ghost struct Run {
    pub state: DebounceState,
    pub calls: Seq<Invocation>,
}

/// The instant of an input.
pub open spec fn time_of(input: Input) -> nat {
    match input {
        Input::Event { at, .. } => at,
        Input::Wake { at, .. } => at,
    }
}

/// The state after one input.
pub open spec fn step_state(state: DebounceState, input: Input) -> DebounceState {
    match input {
        Input::Event { event, at } => registered(state, event, at),
        Input::Wake { key, at } => expired(state, key, at),
    }
}

/// The call that one input makes, if any.
pub open spec fn step_call(state: DebounceState, input: Input) -> Option<Invocation> {
    match input {
        Input::Event { .. } => None,
        Input::Wake { key, at } => match fired(state, key, at) {
            Some(payload) => Some(Invocation { key, payload }),
            None => None,
        },
    }
}

/// The run of a sequence of inputs from a state.
pub open spec fn run(state: DebounceState, inputs: Seq<Input>) -> Run
    decreases inputs.len(),
{
    if inputs.len() == 0 {
        Run { state, calls: Seq::empty() }
    } else {
        let before = run(state, inputs.drop_last());
        Run {
            state: step_state(before.state, inputs.last()),
            calls: match step_call(before.state, inputs.last()) {
                Some(call) => before.calls.push(call),
                None => before.calls,
            },
        }
    }
}

/// Whether an input is about `key`.
pub open spec fn concerns(input: Input, key: Seq<char>) -> bool {
    match input {
        Input::Event { event, .. } => key_of(event) == Some(key),
        Input::Wake { key: woken, .. } => woken == key,
    }
}

/// The inputs that are about `key`, in order.
pub open spec fn only(inputs: Seq<Input>, key: Seq<char>) -> Seq<Input>
    decreases inputs.len(),
{
    if inputs.len() == 0 {
        Seq::empty()
    } else if concerns(inputs.last(), key) {
        only(inputs.drop_last(), key).push(inputs.last())
    } else {
        only(inputs.drop_last(), key)
    }
}

/// The calls that are made under `key`, in order.
pub open spec fn calls_for(calls: Seq<Invocation>, key: Seq<char>) -> Seq<Invocation>
    decreases calls.len(),
{
    if calls.len() == 0 {
        Seq::empty()
    } else if calls.last().key == key {
        calls_for(calls.drop_last(), key).push(calls.last())
    } else {
        calls_for(calls.drop_last(), key)
    }
}

/// What is pending for `key`.
pub open spec fn slot_of(state: DebounceState, key: Seq<char>) -> Option<Pending> {
    if state.pending.contains_key(key) {
        Some(state.pending[key])
    } else {
        None
    }
}

/// The index of the last event among the inputs, or -1.
pub open spec fn last_event(inputs: Seq<Input>) -> int
    decreases inputs.len(),
{
    if inputs.len() == 0 {
        -1
    } else if inputs.last() is Event {
        inputs.len() - 1
    } else {
        last_event(inputs.drop_last())
    }
}

/// The index of the first event at or after `from`, or the number of inputs
/// where there is none.
pub open spec fn next_event(inputs: Seq<Input>, from: int) -> int
    decreases inputs.len() - from,
{
    if from < 0 || from >= inputs.len() {
        inputs.len() as int
    } else if inputs[from] is Event {
        from
    } else {
        next_event(inputs, from + 1)
    }
}

/// The first event after the input at `at`.
pub open spec fn follower(inputs: Seq<Input>, at: int) -> int {
    next_event(inputs, at + 1)
}

/// A burst for one key: inputs about that key alone, in the order of their
/// instants, with at least one event, in which every event that is followed
/// by another is followed by it before its own deadline, and in which a
/// wake-up comes after the last event, at or after that event's deadline.
pub open spec fn is_burst(inputs: Seq<Input>, key: Seq<char>, window: nat) -> bool {
    &&& forall|i: int| 0 <= i < inputs.len() ==> concerns(#[trigger] inputs[i], key)
    &&& forall|i: int, j: int|
        0 <= i <= j < inputs.len() ==> time_of(#[trigger] inputs[i]) <= time_of(#[trigger] inputs[j])
    &&& last_event(inputs) >= 0
    &&& forall|i: int|
        0 <= i < inputs.len() && inputs[i] is Event && #[trigger] follower(inputs, i) < inputs.len() ==> time_of(
            inputs[follower(inputs, i)],
        ) < deadline_after(time_of(inputs[i]), window)
    &&& exists|w: int|
        last_event(inputs) < w < inputs.len() && time_of(#[trigger] inputs[w]) >= deadline_after(
            time_of(inputs[last_event(inputs)]),
            window,
        )
}

/// `last_event` names an event, and no later input is one.
pub proof fn lemma_last_event(inputs: Seq<Input>)
    ensures
        -1 <= last_event(inputs) < inputs.len(),
        last_event(inputs) >= 0 ==> inputs[last_event(inputs)] is Event,
        forall|k: int| last_event(inputs) < k < inputs.len() ==> inputs[k] is Wake,
    decreases inputs.len(),
{
    if inputs.len() > 0 && !(inputs.last() is Event) {
        lemma_last_event(inputs.drop_last());
        assert forall|k: int| last_event(inputs) < k < inputs.len() implies inputs[k] is Wake by {
            if k < inputs.len() - 1 {
                assert(inputs[k] == inputs.drop_last()[k]);
            }
        }
    }
}

/// `next_event` names an event, and no input between `from` and it is one.
pub proof fn lemma_next_event(inputs: Seq<Input>, from: int)
    requires
        0 <= from <= inputs.len(),
    ensures
        from <= next_event(inputs, from) <= inputs.len(),
        next_event(inputs, from) < inputs.len() ==> inputs[next_event(inputs, from)] is Event,
        forall|k: int| from <= k < next_event(inputs, from) ==> inputs[k] is Wake,
    decreases inputs.len() - from,
{
    if from < inputs.len() && !(inputs[from] is Event) {
        lemma_next_event(inputs, from + 1);
    }
}

/// Wake-ups are skipped by `next_event`.
pub proof fn lemma_next_event_skips(inputs: Seq<Input>, from: int, to: int)
    requires
        0 <= from <= to <= inputs.len(),
        forall|k: int| from <= k < to ==> inputs[k] is Wake,
    ensures
        next_event(inputs, from) == next_event(inputs, to),
    decreases to - from,
{
    if from < to {
        assert(inputs[from] is Wake);
        lemma_next_event_skips(inputs, from + 1, to);
    }
}

/// Independence of keys: the calls that a run makes under a key, and what
/// is pending for that key after it, are those of the run of the inputs
/// about that key alone.
pub proof fn lemma_keys_independent(state: DebounceState, inputs: Seq<Input>, key: Seq<char>)
    ensures
        calls_for(run(state, inputs).calls, key) == run(state, only(inputs, key)).calls,
        slot_of(run(state, inputs).state, key) == slot_of(run(state, only(inputs, key)).state, key),
        run(state, inputs).state.window == state.window,
        run(state, only(inputs, key)).state.window == state.window,
        calls_for(run(state, only(inputs, key)).calls, key) == run(state, only(inputs, key)).calls,
    decreases inputs.len(),
{
    if inputs.len() > 0 {
        let front = inputs.drop_last();
        let last = inputs.last();
        lemma_keys_independent(state, front, key);
        let whole = run(state, front);
        let alone = run(state, only(front, key));
        if concerns(last, key) {
            let projected = only(front, key).push(last);
            assert(projected.drop_last() =~= only(front, key));
            assert(projected.last() == last);
            assert(step_call(whole.state, last) == step_call(alone.state, last));
            match step_call(whole.state, last) {
                Some(call) => {
                    assert(call.key == key);
                    assert(whole.calls.push(call).drop_last() =~= whole.calls);
                    assert(alone.calls.push(call).drop_last() =~= alone.calls);
                },
                None => {},
            }
        } else {
            match step_call(whole.state, last) {
                Some(call) => {
                    assert(call.key != key);
                    assert(whole.calls.push(call).drop_last() =~= whole.calls);
                },
                None => {},
            }
        }
    }
}

/// Where a burst stands after its first `n` inputs: nothing has happened
/// before its first event; after that, either the latest event is pending
/// and no wake-up has reached its deadline, or the last event of the burst
/// has been handed out, once, and nothing is pending.
pub open spec fn burst_stands(inputs: Seq<Input>, key: Seq<char>, window: nat, n: int) -> bool {
    let seen = inputs.subrange(0, n);
    let now = run(initial(window), seen);
    let latest = last_event(seen);
    &&& now.state.window == window
    &&& -1 <= latest < n
    &&& if latest < 0 {
        now.state.pending == Map::<Seq<char>, Pending>::empty() && now.calls == Seq::<Invocation>::empty()
    } else {
        let payload = inputs[latest]->event;
        let deadline = deadline_after(time_of(inputs[latest]), window);
        ||| {
            &&& now.state.pending == Map::<Seq<char>, Pending>::empty().insert(key, Pending { payload, deadline })
            &&& now.calls == Seq::<Invocation>::empty()
            &&& forall|w: int| latest < w < n ==> time_of(#[trigger] inputs[w]) < deadline
        }
        ||| {
            &&& now.state.pending == Map::<Seq<char>, Pending>::empty()
            &&& now.calls == seq![Invocation { key, payload }]
            &&& next_event(inputs, n) == inputs.len()
        }
    }
}

/// A burst stands as `burst_stands` says after each of its prefixes.
pub proof fn lemma_burst_prefix(inputs: Seq<Input>, key: Seq<char>, window: nat, n: int)
    requires
        is_burst(inputs, key, window),
        0 <= n <= inputs.len(),
    ensures
        burst_stands(inputs, key, window, n),
    decreases n,
{
    let empty = Map::<Seq<char>, Pending>::empty();
    if n == 0 {
        assert(inputs.subrange(0, 0) =~= Seq::empty());
    } else {
        lemma_burst_prefix(inputs, key, window, n - 1);
        let before = inputs.subrange(0, n - 1);
        let seen = inputs.subrange(0, n);
        let input = inputs[n - 1];
        assert(seen.drop_last() =~= before);
        assert(seen.last() == input);
        assert(concerns(input, key));
        let was = run(initial(window), before);
        let now = run(initial(window), seen);
        let latest = last_event(before);
        lemma_last_event(before);
        if latest >= 0 {
            assert(before[latest] == inputs[latest]);
        }
        match input {
            Input::Event { event, at } => {
                assert(last_event(seen) == n - 1);
                let pending = Pending { payload: event, deadline: deadline_after(at, window) };
                if latest >= 0 && was.state.pending == empty {
                    assert(next_event(inputs, n - 1) == n - 1);
                }
                assert(now.state.pending =~= empty.insert(key, pending));
            },
            Input::Wake { key: woken, at } => {
                assert(woken == key);
                assert(last_event(seen) == latest);
                if latest < 0 {
                    assert(now.state.pending =~= empty);
                } else {
                    let payload = inputs[latest]->event;
                    let deadline = deadline_after(time_of(inputs[latest]), window);
                    if was.state.pending == empty {
                        assert(now.state.pending =~= empty);
                        assert(next_event(inputs, n - 1) == next_event(inputs, n));
                    } else {
                        assert(was.state.pending.contains_key(key));
                        let next = next_event(inputs, n);
                        lemma_next_event(inputs, n);
                        if next < inputs.len() {
                            assert forall|k: int| latest + 1 <= k < n implies inputs[k] is Wake by {
                                if k < n - 1 {
                                    assert(before[k] == inputs[k]);
                                }
                            }
                            lemma_next_event_skips(inputs, latest + 1, n);
                            assert(follower(inputs, latest) == next);
                            assert(time_of(inputs[next]) < deadline);
                            assert(time_of(inputs[n - 1]) <= time_of(inputs[next]));
                            assert(!due(was.state, key, at));
                        } else if due(was.state, key, at) {
                            assert(now.state.pending =~= empty);
                            assert(now.calls =~= seq![Invocation { key, payload }]);
                        }
                    }
                }
            },
        }
    }
}

/// Coalescing: a burst for one key makes exactly one call, with the payload
/// of its last event.
pub proof fn lemma_burst_fires_once(inputs: Seq<Input>, key: Seq<char>, window: nat)
    requires
        is_burst(inputs, key, window),
    ensures
        run(initial(window), inputs).calls == seq![
            Invocation { key, payload: inputs[last_event(inputs)]->event },
        ],
{
    lemma_burst_prefix(inputs, key, window, inputs.len() as int);
    assert(inputs.subrange(0, inputs.len() as int) =~= inputs);
    let w = choose|w: int|
        last_event(inputs) < w < inputs.len() && time_of(#[trigger] inputs[w]) >= deadline_after(
            time_of(inputs[last_event(inputs)]),
            window,
        );
    assert(time_of(inputs[w]) >= deadline_after(time_of(inputs[last_event(inputs)]), window));
}

/// Coalescing among other keys: in any run from the initial state, a key
/// whose own inputs form a burst is called exactly once, with the payload of
/// its last event, whatever the inputs about other keys.
pub proof fn lemma_interleaved_burst(inputs: Seq<Input>, key: Seq<char>, window: nat)
    requires
        is_burst(only(inputs, key), key, window),
    ensures
        calls_for(run(initial(window), inputs).calls, key) == seq![
            Invocation { key, payload: only(inputs, key)[last_event(only(inputs, key))]->event },
        ],
{
    lemma_keys_independent(initial(window), inputs, key);
    lemma_burst_fires_once(only(inputs, key), key, window);
}

/// Independence of two keys: where the inputs about each of two keys form a
/// burst, however the two bursts are interleaved, each key is called exactly
/// once, with the payload of its own last event.
pub proof fn lemma_two_keys(inputs: Seq<Input>, first: Seq<char>, second: Seq<char>, window: nat)
    requires
        first != second,
        is_burst(only(inputs, first), first, window),
        is_burst(only(inputs, second), second, window),
    ensures
        calls_for(run(initial(window), inputs).calls, first) == seq![
            Invocation { key: first, payload: only(inputs, first)[last_event(only(inputs, first))]->event },
        ],
        calls_for(run(initial(window), inputs).calls, second) == seq![
            Invocation { key: second, payload: only(inputs, second)[last_event(only(inputs, second))]->event },
        ],
{
    lemma_interleaved_burst(inputs, first, window);
    lemma_interleaved_burst(inputs, second, window);
}

} // verus!
