//! Tick dispatcher: the single entry point that runs once per periodic
//! timer tick and owns every piece of mutable state.
//!
//! Each tick it feeds the freshly sampled input level to the debounce
//! machine; on a confirmed press it toggles the indicator and arms or
//! disarms playback; and while the indicator is on it advances the
//! sequencer by exactly one command. The caller performs the hardware
//! side of the tick — acknowledging the timer interrupt, sampling the
//! input pin, and applying the returned output actions to the indicator
//! pin and the tone generator, in the order of the `TickOutput` fields.

use vstd::prelude::*;

use crate::button::ButtonEvent;
use crate::button::ButtonManager;
use crate::button::init_state;
use crate::button::step_event;
use crate::button::step_state;
use crate::playback::Command;
use crate::playback::Sequencer;
use crate::playback::ToneAction;
use crate::playback::action_of;
use crate::playback::lemma_pull_periodic;

verus! {

/// Actions one tick asks of the hardware, to be applied in field order:
/// first drive the indicator output, then switch the mute override, then
/// issue the tone action.
#[derive(Copy, Clone, PartialEq, Eq, Debug)]
pub struct TickOutput {
    /// `Some(level)`: set the indicator output to `level`.
    pub indicator_set: Option<bool>,
    /// `Some(true)`: force the tone output silent; `Some(false)`: lift
    /// the override.
    pub mute_set: Option<bool>,
    /// Tone action pulled from the command stream, if any.
    pub tone: Option<ToneAction>,
}

/// All state of the appliance: debouncer, indicator level as last set on
/// the digital output, and the playback sequencer.
///
/// Invariant (`wf`): the sequencer is armed exactly while the indicator
/// is on.
pub struct Device {
    pub button: ButtonManager,
    pub indicator_on: bool,
    pub player: Sequencer,
}

/// Event the debounce machine emits on this tick.
pub open spec fn tick_event(d: Device, raw: bool) -> ButtonEvent {
    step_event(d.button.state, raw)
}

/// State transition of one tick: debounce always steps; a confirmed
/// press toggles indicator and armed state together; while on, the
/// command cursor moves by exactly one.
pub open spec fn spec_tick(d: Device, raw: bool) -> Device {
    let bm = ButtonManager { state: step_state(d.button.state, raw) };
    if tick_event(d, raw) == ButtonEvent::Pressed {
        if !d.indicator_on {
            Device {
                button: bm,
                indicator_on: true,
                player: Sequencer { armed: true, source: d.player.source.spec_advance() },
            }
        } else {
            Device {
                button: bm,
                indicator_on: false,
                player: Sequencer { armed: false, source: d.player.source },
            }
        }
    } else if d.indicator_on {
        Device {
            button: bm,
            indicator_on: true,
            player: Sequencer { armed: d.player.armed, source: d.player.source.spec_advance() },
        }
    } else {
        Device { button: bm, indicator_on: false, player: d.player }
    }
}

/// Output of one tick. A press that turns the indicator on unmutes and
/// starts pulling commands on that same tick; a press that turns it off
/// mutes at once and pulls nothing; otherwise commands flow only while
/// the indicator is on.
pub open spec fn spec_tick_out(d: Device, raw: bool) -> TickOutput {
    if tick_event(d, raw) == ButtonEvent::Pressed {
        if !d.indicator_on {
            TickOutput {
                indicator_set: Some(true),
                mute_set: Some(false),
                tone: action_of(d.player.source.pull(0)),
            }
        } else {
            TickOutput { indicator_set: Some(false), mute_set: Some(true), tone: None }
        }
    } else if d.indicator_on {
        TickOutput { indicator_set: None, mute_set: None, tone: action_of(d.player.source.pull(0)) }
    } else {
        TickOutput { indicator_set: None, mute_set: None, tone: None }
    }
}

impl Device {
    pub open spec fn wf(self) -> bool {
        &&& self.button.wf()
        &&& self.player.wf()
        &&& self.player.armed == self.indicator_on
    }

    /// A fresh device: confirmed-asserted button with a clear count,
    /// indicator off, playback disarmed at the head of the melody.
    pub fn new(commands: Vec<Command>) -> (r: Device)
        requires
            commands@.len() > 0,
        ensures
            r.wf(),
            r.button.state == init_state(),
            !r.indicator_on,
            !r.player.armed,
            r.player.source.commands@ == commands@,
            r.player.source.position == 0,
    {
        Device {
            button: ButtonManager::new(),
            indicator_on: false,
            player: Sequencer::new(commands),
        }
    }

    /// One full tick: debounce, react to a confirmed press, and, while
    /// the indicator is on, advance playback by one command.
    pub fn tick(&mut self, raw_level: bool) -> (out: TickOutput)
        requires
            old(self).wf(),
        ensures
            final(self).wf(),
            *final(self) == spec_tick(*old(self), raw_level),
            out == spec_tick_out(*old(self), raw_level),
    {
        let event = self.button.poll(raw_level);
        let mut indicator_set: Option<bool> = None;
        let mut mute_set: Option<bool> = None;
        if event == ButtonEvent::Pressed {
            if !self.indicator_on {
                self.indicator_on = true;
                self.player.arm();
                indicator_set = Some(true);
                mute_set = Some(false);
            } else {
                self.indicator_on = false;
                self.player.disarm();
                indicator_set = Some(false);
                mute_set = Some(true);
            }
        }
        let tone: Option<ToneAction> = if self.indicator_on {
            self.player.advance()
        } else {
            None
        };
        TickOutput { indicator_set, mute_set, tone }
    }
}

/// Well-formedness survives any tick.
pub proof fn lemma_tick_wf(d: Device, raw: bool)
    requires
        d.wf(),
    ensures
        spec_tick(d, raw).wf(),
{
    assert(d.player.source.commands.len() == d.player.source.commands@.len());
}

/// Law: a confirmed press while the indicator is off toggles the output
/// on, lifts the mute, and resumes playback on that same tick, emitting
/// the tone action of exactly the command where the melody was paused.
pub proof fn lemma_rearm_resumes(d: Device, raw: bool)
    requires
        d.wf(),
        !d.indicator_on,
        tick_event(d, raw) == ButtonEvent::Pressed,
    ensures
        spec_tick_out(d, raw).indicator_set == Some(true),
        spec_tick_out(d, raw).mute_set == Some(false),
        spec_tick_out(d, raw).tone == action_of(d.player.source.pull(0)),
        spec_tick(d, raw).indicator_on,
        spec_tick(d, raw).player.armed,
        spec_tick(d, raw).player.source == d.player.source.spec_advance(),
{
}

/// Device state after consuming all of `samples`, one tick each.
pub open spec fn run_device(d0: Device, samples: Seq<bool>) -> Device
    decreases samples.len(),
{
    if samples.len() == 0 {
        d0
    } else {
        spec_tick(run_device(d0, samples.drop_last()), samples.last())
    }
}

/// Device state just before tick `i`.
pub open spec fn device_before(d0: Device, samples: Seq<bool>, i: int) -> Device {
    run_device(d0, samples.take(i))
}

/// Output of tick `i`.
pub open spec fn output_at(d0: Device, samples: Seq<bool>, i: int) -> TickOutput {
    spec_tick_out(device_before(d0, samples, i), samples[i])
}

proof fn lemma_device_before_unfold(d0: Device, samples: Seq<bool>, i: int)
    requires
        1 <= i <= samples.len(),
    ensures
        device_before(d0, samples, i) == spec_tick(
            device_before(d0, samples, i - 1),
            samples[i - 1],
        ),
{
    assert(samples.take(i).drop_last() =~= samples.take(i - 1));
    assert(samples.take(i).last() == samples[i - 1]);
}

/// Law: while the indicator is off, ticks that confirm no press touch
/// nothing but the debouncer — no tone action, no mute change, no
/// indicator change, and the command cursor stays exactly where the last
/// disarm left it, however many ticks elapse.
pub proof fn lemma_disarmed_silent(d0: Device, samples: Seq<bool>)
    requires
        d0.wf(),
        !d0.indicator_on,
        forall|i: int|
            0 <= i < samples.len() ==> tick_event(device_before(d0, samples, i), samples[i])
                != ButtonEvent::Pressed,
    ensures
        forall|i: int| 0 <= i <= samples.len() ==> !device_before(d0, samples, i).indicator_on,
        forall|i: int| 0 <= i <= samples.len() ==> device_before(d0, samples, i).player == d0.player,
        forall|i: int|
            0 <= i < samples.len() ==> output_at(d0, samples, i) == (TickOutput {
                indicator_set: None,
                mute_set: None,
                tone: None,
            }),
    decreases samples.len(),
{
    let none_out = TickOutput { indicator_set: None, mute_set: None, tone: None };
    if samples.len() == 0 {
        assert(samples.take(0) =~= Seq::<bool>::empty());
    } else {
        let n = samples.len() as int;
        let prev = samples.drop_last();
        assert forall|i: int|
            0 <= i <= prev.len() implies device_before(d0, prev, i) == device_before(
            d0,
            samples,
            i,
        ) by {
            assert(prev.take(i) =~= samples.take(i));
        }
        assert forall|i: int|
            0 <= i < prev.len() implies tick_event(device_before(d0, prev, i), prev[i])
            != ButtonEvent::Pressed by {
            assert(prev[i] == samples[i]);
        }
        lemma_disarmed_silent(d0, prev);
        lemma_device_before_unfold(d0, samples, n);
        assert(!device_before(d0, prev, n - 1).indicator_on);
        assert(device_before(d0, prev, n - 1).player == d0.player);
        assert forall|i: int|
            0 <= i <= n implies !device_before(d0, samples, i).indicator_on && device_before(
            d0,
            samples,
            i,
        ).player == d0.player by {
            if i < n {
                assert(!device_before(d0, prev, i).indicator_on);
                assert(device_before(d0, prev, i).player == d0.player);
            }
        }
        assert forall|i: int| 0 <= i < n implies output_at(d0, samples, i) == none_out by {
            if i < n - 1 {
                assert(output_at(d0, prev, i) == none_out);
                assert(prev[i] == samples[i]);
            } else {
                assert(!device_before(d0, samples, i).indicator_on);
            }
        }
    }
}

/// Law (lock-step playback): while the indicator stays on, every tick
/// pulls exactly one command, so after `i` ticks the cursor stands
/// exactly `i` steps around the cycle, and tick `i` emits the tone
/// action of the `i`-th future command of the starting source — playback
/// never pulls ahead of, nor falls behind, elapsed time.
pub proof fn lemma_armed_run_plays_stream(d0: Device, samples: Seq<bool>)
    requires
        d0.wf(),
        d0.indicator_on,
        forall|i: int|
            0 <= i < samples.len() ==> tick_event(device_before(d0, samples, i), samples[i])
                != ButtonEvent::Pressed,
    ensures
        forall|i: int| 0 <= i <= samples.len() ==> device_before(d0, samples, i).indicator_on,
        forall|i: int|
            0 <= i <= samples.len() ==> device_before(d0, samples, i).player.source.commands@
                == d0.player.source.commands@,
        forall|i: int|
            0 <= i <= samples.len() ==> device_before(d0, samples, i).player.source.position
                == d0.player.source.cursor_after(i),
        forall|i: int|
            0 <= i < samples.len() ==> output_at(d0, samples, i).tone == action_of(
                d0.player.source.pull(i),
            ),
    decreases samples.len(),
{
    let src0 = d0.player.source;
    let n0 = src0.commands@.len() as int;
    assert(src0.commands.len() == src0.commands@.len());
    if samples.len() == 0 {
        assert(samples.take(0) =~= Seq::<bool>::empty());
        vstd::arithmetic::div_mod::lemma_small_mod(src0.position as nat, n0 as nat);
        assert(src0.cursor_after(0) == src0.position);
    } else {
        let n = samples.len() as int;
        let prev = samples.drop_last();
        assert forall|i: int|
            0 <= i <= prev.len() implies device_before(d0, prev, i) == device_before(
            d0,
            samples,
            i,
        ) by {
            assert(prev.take(i) =~= samples.take(i));
        }
        assert forall|i: int|
            0 <= i < prev.len() implies tick_event(device_before(d0, prev, i), prev[i])
            != ButtonEvent::Pressed by {
            assert(prev[i] == samples[i]);
        }
        lemma_armed_run_plays_stream(d0, prev);
        lemma_device_before_unfold(d0, samples, n);
        // the last tick moves the cursor one more step around the cycle
        let last = device_before(d0, samples, n - 1);
        assert(last.indicator_on);
        assert(last.player.source.commands@ == src0.commands@);
        assert(last.player.source.commands.len() == last.player.source.commands@.len());
        assert(tick_event(last, samples[n - 1]) != ButtonEvent::Pressed);
        assert(last.player.source.position == src0.cursor_after(n - 1));
        let a = src0.position + n - 1;
        vstd::arithmetic::div_mod::lemma_add_mod_noop(a, 1, n0);
        vstd::arithmetic::div_mod::lemma_add_mod_noop_right(a % n0, 1, n0);
        assert(device_before(d0, samples, n) == spec_tick(last, samples[n - 1]));
        assert(device_before(d0, samples, n).player.source.position == src0.cursor_after(n));
        assert(device_before(d0, samples, n).indicator_on);
        assert(device_before(d0, samples, n).player.source.commands@ == src0.commands@);
        assert forall|i: int|
            0 <= i <= n implies device_before(d0, samples, i).indicator_on && device_before(
            d0,
            samples,
            i,
        ).player.source.commands@ == src0.commands@ && device_before(
            d0,
            samples,
            i,
        ).player.source.position == src0.cursor_after(i) by {
            if i < n {
                assert(device_before(d0, prev, i).indicator_on);
                assert(device_before(d0, prev, i).player.source.commands@ == src0.commands@);
                assert(device_before(d0, prev, i).player.source.position == src0.cursor_after(i));
            }
        }
    }
    assert forall|i: int|
        0 <= i < samples.len() implies output_at(d0, samples, i).tone == action_of(
        src0.pull(i),
    ) by {
        assert(device_before(d0, samples, i).indicator_on);
        assert(device_before(d0, samples, i).player.source.commands@ == src0.commands@);
        assert(device_before(d0, samples, i).player.source.position == src0.cursor_after(i));
        assert(tick_event(device_before(d0, samples, i), samples[i]) != ButtonEvent::Pressed);
        vstd::arithmetic::div_mod::lemma_mod_twice(src0.position + i, n0);
    }
}

/// Law (deterministic cycle, dispatcher form): while the indicator stays
/// on, the tone actions repeat identically with a period of the
/// command-list length.
pub proof fn lemma_armed_run_periodic(d0: Device, samples: Seq<bool>, i: int)
    requires
        d0.wf(),
        d0.indicator_on,
        forall|j: int|
            0 <= j < samples.len() ==> tick_event(device_before(d0, samples, j), samples[j])
                != ButtonEvent::Pressed,
        0 <= i,
        i + d0.player.source.commands@.len() < samples.len(),
    ensures
        output_at(d0, samples, i + d0.player.source.commands@.len()).tone == output_at(
            d0,
            samples,
            i,
        ).tone,
{
    lemma_armed_run_plays_stream(d0, samples);
    lemma_pull_periodic(d0.player.source, i);
}

} // verus!
