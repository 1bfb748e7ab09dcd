//! Debounce state machine: turns raw boolean samples, one per tick, into
//! clean `Pressed` / `Released` events.
//!
//! The confirmed level only flips after `DEBOUNCE_THRESHOLD` consecutive
//! contrary samples; any shorter burst of contrary readings is treated as
//! contact bounce and discarded. The raw value `true` is the asserted
//! (idle, unpressed) electrical level, so a press is confirmed when the
//! input has read deasserted for a full threshold window.

use vstd::prelude::*;

verus! {

/// Number of consecutive contrary samples required before a level change
/// is confirmed (30 ms of stability at a 1 kHz tick).
pub const DEBOUNCE_THRESHOLD: u8 = 30;

/// Clean event produced by one debounce step; never stored.
#[derive(Copy, Clone, PartialEq, Eq, Structural, Debug)]
pub enum ButtonEvent {
    Pressed,
    Released,
    Nothing,
}

/// Confirmed logical level plus a run-length count of contrary samples.
///
/// Invariant (`state_wf`): the count stays strictly below
/// `DEBOUNCE_THRESHOLD`; it grows by exactly one per contrary sample and
/// resets to zero on a matching sample or on a confirmed flip, so it never
/// comes near overflowing its 8 bits.
#[derive(Copy, Clone, PartialEq, Eq, Structural, Debug)]
pub enum ButtonState {
    Asserted(u8),
    Deasserted(u8),
}

pub open spec fn state_wf(s: ButtonState) -> bool {
    match s {
        ButtonState::Asserted(c) => c < DEBOUNCE_THRESHOLD,
        ButtonState::Deasserted(c) => c < DEBOUNCE_THRESHOLD,
    }
}

/// State the machine starts in: confirmed asserted, no contrary run.
pub open spec fn init_state() -> ButtonState {
    ButtonState::Asserted(0u8)
}

/// Transition on one raw sample: a matching sample resets the contrary
/// run; a contrary sample lengthens it, and the confirmed level flips
/// exactly when the run reaches the threshold.
pub open spec fn step_state(s: ButtonState, raw: bool) -> ButtonState {
    match s {
        ButtonState::Asserted(c) => if raw {
            ButtonState::Asserted(0u8)
        } else if c + 1 >= DEBOUNCE_THRESHOLD {
            ButtonState::Deasserted(0u8)
        } else {
            ButtonState::Asserted((c + 1) as u8)
        },
        ButtonState::Deasserted(c) => if !raw {
            ButtonState::Deasserted(0u8)
        } else if c + 1 >= DEBOUNCE_THRESHOLD {
            ButtonState::Asserted(0u8)
        } else {
            ButtonState::Deasserted((c + 1) as u8)
        },
    }
}

/// Event emitted by one step: `Pressed` exactly when the confirmed level
/// flips from asserted to deasserted, `Released` on the opposite flip.
pub open spec fn step_event(s: ButtonState, raw: bool) -> ButtonEvent {
    match s {
        ButtonState::Asserted(c) => if !raw && c + 1 >= DEBOUNCE_THRESHOLD {
            ButtonEvent::Pressed
        } else {
            ButtonEvent::Nothing
        },
        ButtonState::Deasserted(c) => if raw && c + 1 >= DEBOUNCE_THRESHOLD {
            ButtonEvent::Released
        } else {
            ButtonEvent::Nothing
        },
    }
}

/// Debouncer over one digital input; `poll` consumes the sample that the
/// caller read from the pin this tick.
pub struct ButtonManager {
    pub state: ButtonState,
}

impl ButtonManager {
    pub open spec fn wf(self) -> bool {
        state_wf(self.state)
    }

    pub fn new() -> (r: ButtonManager)
        ensures
            r.state == init_state(),
            r.wf(),
    {
        ButtonManager { state: ButtonState::Asserted(0) }
    }

    /// One debounce step, to be called exactly once per tick with the
    /// freshly sampled input level.
    pub fn poll(&mut self, raw_level: bool) -> (event: ButtonEvent)
        requires
            old(self).wf(),
        ensures
            final(self).wf(),
            final(self).state == step_state(old(self).state, raw_level),
            event == step_event(old(self).state, raw_level),
    {
        let (next, event) = match self.state {
            ButtonState::Asserted(cnt) => {
                if raw_level {
                    (ButtonState::Asserted(0), ButtonEvent::Nothing)
                } else if cnt + 1 >= DEBOUNCE_THRESHOLD {
                    (ButtonState::Deasserted(0), ButtonEvent::Pressed)
                } else {
                    (ButtonState::Asserted(cnt + 1), ButtonEvent::Nothing)
                }
            },
            ButtonState::Deasserted(cnt) => {
                if !raw_level {
                    (ButtonState::Deasserted(0), ButtonEvent::Nothing)
                } else if cnt + 1 >= DEBOUNCE_THRESHOLD {
                    (ButtonState::Asserted(0), ButtonEvent::Released)
                } else {
                    (ButtonState::Deasserted(cnt + 1), ButtonEvent::Nothing)
                }
            },
        };
        self.state = next;
        event
    }
}

/// Run-length count carried by either variant.
pub open spec fn count_of(s: ButtonState) -> u8 {
    match s {
        ButtonState::Asserted(c) => c,
        ButtonState::Deasserted(c) => c,
    }
}

/// Whether two states carry the same confirmed level.
pub open spec fn same_variant(a: ButtonState, b: ButtonState) -> bool {
    a is Asserted <==> b is Asserted
}

/// The raw sample value that reads contrary to the confirmed level of `s`
/// (the asserted electrical level is `true`).
pub open spec fn contrary_level(s: ButtonState) -> bool {
    s is Deasserted
}

/// Confirmed state after consuming all of `samples`, starting from `s0`.
pub open spec fn run_state(s0: ButtonState, samples: Seq<bool>) -> ButtonState
    decreases samples.len(),
{
    if samples.len() == 0 {
        s0
    } else {
        step_state(run_state(s0, samples.drop_last()), samples.last())
    }
}

/// State of the machine just before sample `i` is consumed.
pub open spec fn state_before(s0: ButtonState, samples: Seq<bool>, i: int) -> ButtonState {
    run_state(s0, samples.take(i))
}

/// Event emitted while sample `i` is consumed.
pub open spec fn event_at(s0: ButtonState, samples: Seq<bool>, i: int) -> ButtonEvent {
    step_event(state_before(s0, samples, i), samples[i])
}

proof fn lemma_state_before_unfold(s0: ButtonState, samples: Seq<bool>, i: int)
    requires
        1 <= i <= samples.len(),
    ensures
        state_before(s0, samples, i) == step_state(
            state_before(s0, samples, i - 1),
            samples[i - 1],
        ),
{
    assert(samples.take(i).drop_last() =~= samples.take(i - 1));
    assert(samples.take(i).last() == samples[i - 1]);
}

/// Well-formedness is preserved along any run.
pub proof fn lemma_state_before_wf(s0: ButtonState, samples: Seq<bool>, i: int)
    requires
        state_wf(s0),
        0 <= i <= samples.len(),
    ensures
        state_wf(state_before(s0, samples, i)),
    decreases i,
{
    if i == 0 {
        assert(samples.take(0) =~= Seq::<bool>::empty());
    } else {
        lemma_state_before_wf(s0, samples, i - 1);
        lemma_state_before_unfold(s0, samples, i);
    }
}

/// A nonzero count can only have come from one more contrary sample laid
/// on top of the same confirmed level with a count one lower.
proof fn lemma_run_pred(s0: ButtonState, samples: Seq<bool>, i: int)
    requires
        count_of(s0) == 0,
        0 <= i <= samples.len(),
        count_of(state_before(s0, samples, i)) > 0,
    ensures
        i >= 1,
        same_variant(state_before(s0, samples, i - 1), state_before(s0, samples, i)),
        samples[i - 1] == contrary_level(state_before(s0, samples, i)),
        count_of(state_before(s0, samples, i - 1)) == count_of(state_before(s0, samples, i)) - 1,
{
    if i == 0 {
        assert(samples.take(0) =~= Seq::<bool>::empty());
    } else {
        lemma_state_before_unfold(s0, samples, i);
    }
}

/// A state with count `c` is preceded by `c` contrary samples, all read
/// while the machine held the same confirmed level.
proof fn lemma_run_history(s0: ButtonState, samples: Seq<bool>, i: int)
    requires
        count_of(s0) == 0,
        0 <= i <= samples.len(),
    ensures
        i >= count_of(state_before(s0, samples, i)),
        count_of(state_before(s0, samples, i - count_of(state_before(s0, samples, i)))) == 0,
        forall|j: int|
            i - count_of(state_before(s0, samples, i)) <= j < i ==> samples[j]
                == contrary_level(state_before(s0, samples, i)),
        forall|j: int|
            i - count_of(state_before(s0, samples, i)) <= j <= i ==> same_variant(
                state_before(s0, samples, j),
                state_before(s0, samples, i),
            ),
    decreases count_of(state_before(s0, samples, i)),
{
    let c = count_of(state_before(s0, samples, i));
    if c > 0 {
        lemma_run_pred(s0, samples, i);
        lemma_run_history(s0, samples, i - 1);
    }
}

/// A clear count right after a step means that step's sample matched the
/// confirmed level it left behind: no transition path produces a clear
/// count out of a contrary sample.
proof fn lemma_zero_count_after_step(s0: ButtonState, samples: Seq<bool>, m: int)
    requires
        1 <= m <= samples.len(),
        count_of(state_before(s0, samples, m)) == 0,
    ensures
        samples[m - 1] == !contrary_level(state_before(s0, samples, m)),
{
    lemma_state_before_unfold(s0, samples, m);
}

/// Law: from the initial state, a step emits `Pressed` exactly when the
/// confirmed state is still asserted and the most recent threshold-long
/// window of samples, the current one included, all read deasserted.
pub proof fn lemma_pressed_iff(samples: Seq<bool>, i: int)
    requires
        0 <= i < samples.len(),
    ensures
        event_at(init_state(), samples, i) == ButtonEvent::Pressed <==> (i + 1
            >= DEBOUNCE_THRESHOLD && (forall|j: int|
            i + 1 - DEBOUNCE_THRESHOLD <= j <= i ==> samples[j] == false) && state_before(
            init_state(),
            samples,
            i,
        ) is Asserted),
{
    let s0 = init_state();
    let t = DEBOUNCE_THRESHOLD as int;
    lemma_state_before_wf(s0, samples, i);
    lemma_run_history(s0, samples, i);
    let st = state_before(s0, samples, i);
    let c = count_of(st) as int;
    let all_contrary = forall|j: int| i + 1 - t <= j <= i ==> samples[j] == false;
    if i + 1 >= t && all_contrary && st is Asserted && c < t - 1 {
        // a run shorter than the window would need a matching sample at
        // its head, where the window shows a contrary one
        lemma_zero_count_after_step(s0, samples, i - c);
        assert(false);
    }
}

/// Law: from the initial state, a step emits `Released` exactly when the
/// confirmed state is still deasserted and the most recent threshold-long
/// window of samples, the current one included, all read asserted.
pub proof fn lemma_released_iff(samples: Seq<bool>, i: int)
    requires
        0 <= i < samples.len(),
    ensures
        event_at(init_state(), samples, i) == ButtonEvent::Released <==> (i + 1
            >= DEBOUNCE_THRESHOLD && (forall|j: int|
            i + 1 - DEBOUNCE_THRESHOLD <= j <= i ==> samples[j] == true) && state_before(
            init_state(),
            samples,
            i,
        ) is Deasserted),
{
    let s0 = init_state();
    let t = DEBOUNCE_THRESHOLD as int;
    lemma_state_before_wf(s0, samples, i);
    lemma_run_history(s0, samples, i);
    let st = state_before(s0, samples, i);
    let c = count_of(st) as int;
    let all_contrary = forall|j: int| i + 1 - t <= j <= i ==> samples[j] == true;
    if i + 1 >= t && all_contrary && st is Deasserted && c < t - 1 {
        lemma_zero_count_after_step(s0, samples, i - c);
        assert(false);
    }
}

/// From a clear-count state, `k` contrary samples (with `k` below the
/// threshold) raise the count to `k` without emitting any event.
proof fn lemma_contrary_prefix(s0: ButtonState, samples: Seq<bool>, k: int)
    requires
        count_of(s0) == 0,
        0 <= k <= samples.len(),
        k < DEBOUNCE_THRESHOLD,
        forall|j: int| 0 <= j < k ==> samples[j] == contrary_level(s0),
    ensures
        same_variant(state_before(s0, samples, k), s0),
        count_of(state_before(s0, samples, k)) == k,
        forall|i: int| 0 <= i < k ==> event_at(s0, samples, i) == ButtonEvent::Nothing,
    decreases k,
{
    if k == 0 {
        assert(samples.take(0) =~= Seq::<bool>::empty());
    } else {
        lemma_contrary_prefix(s0, samples, k - 1);
        lemma_state_before_unfold(s0, samples, k);
    }
}

/// Law (boundary): from a clear-count state, one fewer than the threshold
/// of contrary samples followed by a single matching sample produces no
/// transition at all and returns the machine to where it started.
pub proof fn lemma_boundary_no_transition(s0: ButtonState, samples: Seq<bool>)
    requires
        count_of(s0) == 0,
        samples.len() == DEBOUNCE_THRESHOLD,
        forall|j: int|
            0 <= j < DEBOUNCE_THRESHOLD - 1 ==> samples[j] == contrary_level(s0),
        samples[DEBOUNCE_THRESHOLD - 1] == !contrary_level(s0),
    ensures
        forall|i: int|
            0 <= i < samples.len() ==> event_at(s0, samples, i) == ButtonEvent::Nothing,
        run_state(s0, samples) == s0,
{
    let t = DEBOUNCE_THRESHOLD as int;
    lemma_contrary_prefix(s0, samples, t - 1);
    lemma_state_before_unfold(s0, samples, t);
    assert(samples.take(t) =~= samples);
}

/// Law (boundary): from a clear-count state, exactly a threshold's worth
/// of contrary samples always fires the transition, on the last sample
/// and not before, leaving the opposite confirmed level with a clear
/// count.
pub proof fn lemma_exact_threshold_fires(s0: ButtonState, samples: Seq<bool>)
    requires
        count_of(s0) == 0,
        samples.len() == DEBOUNCE_THRESHOLD,
        forall|j: int| 0 <= j < DEBOUNCE_THRESHOLD ==> samples[j] == contrary_level(s0),
    ensures
        forall|i: int|
            0 <= i < DEBOUNCE_THRESHOLD - 1 ==> event_at(s0, samples, i) == ButtonEvent::Nothing,
        event_at(s0, samples, DEBOUNCE_THRESHOLD - 1) == (if s0 is Asserted {
            ButtonEvent::Pressed
        } else {
            ButtonEvent::Released
        }),
        run_state(s0, samples) == (if s0 is Asserted {
            ButtonState::Deasserted(0u8)
        } else {
            ButtonState::Asserted(0u8)
        }),
{
    let t = DEBOUNCE_THRESHOLD as int;
    lemma_contrary_prefix(s0, samples, t - 1);
    lemma_state_before_unfold(s0, samples, t);
    assert(samples.take(t) =~= samples);
}

/// Law (idempotence): right after a confirmed flip the count is clear;
/// holding the input at the newly confirmed level emits no further event
/// and leaves the state untouched, however long the level is held.
pub proof fn lemma_hold_level_silent(s0: ButtonState, samples: Seq<bool>, i: int)
    requires
        count_of(s0) == 0,
        0 <= i < samples.len(),
        forall|j: int| 0 <= j < samples.len() ==> samples[j] == !contrary_level(s0),
    ensures
        state_before(s0, samples, i) == s0,
        event_at(s0, samples, i) == ButtonEvent::Nothing,
    decreases i,
{
    if i == 0 {
        assert(samples.take(0) =~= Seq::<bool>::empty());
    } else {
        lemma_hold_level_silent(s0, samples, i - 1);
        lemma_state_before_unfold(s0, samples, i);
    }
}

} // verus!
