//! Playback sequencer: a cyclic source of per-tick tone commands and the
//! armed/disarmed gate around it.
//!
//! The fine command encoding is used: each tick consumes exactly one
//! command. `BeginNote` starts a tone at a pitch, `EndNote` silences it,
//! and `Wait` does nothing, so elapsed ticks are encoded as repeated
//! `Wait`s between note boundaries.
//!
//! Disarm policy: disarming pauses playback where it stands. The cycle
//! position is preserved, so re-arming resumes the melody from the exact
//! command at which it was interrupted.

use vstd::prelude::*;

verus! {

/// One per-tick playback command.
#[derive(Copy, Clone, PartialEq, Eq, Structural, Debug)]
pub enum Command {
    BeginNote { pitch: u32 },
    EndNote,
    Wait,
}

/// Effect that one command asks of the tone output.
#[derive(Copy, Clone, PartialEq, Eq, Structural, Debug)]
pub enum ToneAction {
    Play(u32),
    Silence,
}

/// The tone-output action a command translates to; `Wait` asks nothing.
pub open spec fn action_of(c: Command) -> Option<ToneAction> {
    match c {
        Command::BeginNote { pitch } => Some(ToneAction::Play(pitch)),
        Command::EndNote => Some(ToneAction::Silence),
        Command::Wait => None,
    }
}

/// Infinite, restartable cyclic stream of commands, realized as a
/// non-empty command list and a cursor that wraps past the end.
pub struct CommandSource {
    pub commands: Vec<Command>,
    pub position: usize,
}

impl CommandSource {
    pub open spec fn wf(self) -> bool {
        self.commands@.len() > 0 && self.position < self.commands@.len()
    }

    /// The command that the `k`-th future pull will return.
    pub open spec fn pull(self, k: int) -> Command {
        self.commands@[(self.position + k) % (self.commands@.len() as int)]
    }

    /// Where the cursor stands after `k` pulls.
    pub open spec fn cursor_after(self, k: int) -> int {
        (self.position + k) % (self.commands@.len() as int)
    }

    /// The source after one pull: same commands, cursor moved one step
    /// around the cycle.
    pub open spec fn spec_advance(self) -> CommandSource {
        CommandSource {
            commands: self.commands,
            position: ((self.position + 1) % (self.commands@.len() as int)) as usize,
        }
    }

    pub fn new(commands: Vec<Command>) -> (r: CommandSource)
        requires
            commands@.len() > 0,
        ensures
            r.wf(),
            r.commands@ == commands@,
            r.position == 0,
    {
        CommandSource { commands, position: 0 }
    }

    /// Pull the next command and move the cursor, wrapping back to the
    /// first command after the last one.
    pub fn next(&mut self) -> (c: Command)
        requires
            old(self).wf(),
        ensures
            final(self).wf(),
            *final(self) == old(self).spec_advance(),
            c == old(self).pull(0),
    {
        proof {
            let n = self.commands@.len() as int;
            vstd::arithmetic::div_mod::lemma_small_mod(self.position as nat, n as nat);
        }
        let n = self.commands.len();
        let c = self.commands[self.position];
        if self.position + 1 == n {
            self.position = 0;
        } else {
            self.position = self.position + 1;
        }
        proof {
            let n = old(self).commands@.len() as int;
            let p = old(self).position as int;
            if p + 1 < n {
                vstd::arithmetic::div_mod::lemma_small_mod((p + 1) as nat, n as nat);
            } else {
                vstd::arithmetic::div_mod::lemma_mod_self_0(n);
            }
        }
        c
    }
}

/// Law (cyclicity): the stream of future pulls repeats with a period of
/// exactly the command-list length, so the melody wraps around with no
/// observable discontinuity.
pub proof fn lemma_pull_periodic(s: CommandSource, k: int)
    requires
        s.wf(),
        0 <= k,
    ensures
        s.pull(k + s.commands@.len()) == s.pull(k),
{
    let n = s.commands@.len() as int;
    vstd::arithmetic::div_mod::lemma_mod_add_multiples_vanish(s.position + k, n);
}

/// Law (lock-step): pulling once shifts the whole future of the stream by
/// exactly one command; together with `CommandSource::next`'s contract,
/// the `k`-th pull after any point returns `pull(k)` of that point.
pub proof fn lemma_pull_shift(s: CommandSource, k: int)
    requires
        s.wf(),
        0 <= k,
    ensures
        s.spec_advance().pull(k) == s.pull(k + 1),
{
    assert(s.commands.len() == s.commands@.len());
    let n = s.commands@.len() as int;
    let p = s.position as int;
    vstd::arithmetic::div_mod::lemma_add_mod_noop(p + 1, k, n);
    vstd::arithmetic::div_mod::lemma_add_mod_noop_right((p + 1) % n, k, n);
    assert(((p + 1) % n + k) % n == (p + 1 + k) % n);
}

/// Advancing the cursor preserves well-formedness and never touches the
/// command list.
pub proof fn lemma_spec_advance_wf(s: CommandSource)
    requires
        s.wf(),
    ensures
        s.spec_advance().wf(),
        s.spec_advance().commands@ == s.commands@,
{
    assert(s.commands.len() == s.commands@.len());
}

/// The source after `k` consecutive pulls.
pub open spec fn advanced_by(s: CommandSource, k: nat) -> CommandSource
    decreases k,
{
    if k == 0 {
        s
    } else {
        advanced_by(s, (k - 1) as nat).spec_advance()
    }
}

/// Law (lock-step, iterated): after `k` pulls the stream's future is the
/// original future shifted by `k`, so the `k`-th pull of any run returns
/// `pull(k)` of the starting source. A fixed command list therefore
/// determines the whole ordered stream of commands, and with
/// `lemma_pull_periodic` that stream repeats identically every cycle.
pub proof fn lemma_advanced_by_pull(s: CommandSource, k: nat, j: int)
    requires
        s.wf(),
        0 <= j,
    ensures
        advanced_by(s, k).wf(),
        advanced_by(s, k).pull(j) == s.pull(j + k),
    decreases k,
{
    if k > 0 {
        lemma_advanced_by_pull(s, (k - 1) as nat, j + 1);
        lemma_spec_advance_wf(advanced_by(s, (k - 1) as nat));
        lemma_pull_shift(advanced_by(s, (k - 1) as nat), j);
    }
}

/// Gate around the command stream: commands are consumed only while
/// armed, and the cursor survives a disarm untouched.
pub struct Sequencer {
    pub source: CommandSource,
    pub armed: bool,
}

impl Sequencer {
    pub open spec fn wf(self) -> bool {
        self.source.wf()
    }

    /// The tone action the `k`-th future armed tick will request.
    pub open spec fn nth_action(self, k: int) -> Option<ToneAction> {
        action_of(self.source.pull(k))
    }

    /// A fresh sequencer starts disarmed, at the head of the cycle.
    pub fn new(commands: Vec<Command>) -> (r: Sequencer)
        requires
            commands@.len() > 0,
        ensures
            r.wf(),
            !r.armed,
            r.source.commands@ == commands@,
            r.source.position == 0,
    {
        Sequencer { source: CommandSource::new(commands), armed: false }
    }

    /// Enable `advance`; playback will resume from the preserved cycle
    /// position.
    pub fn arm(&mut self)
        ensures
            final(self).armed,
            final(self).source == old(self).source,
    {
        self.armed = true;
    }

    /// Disable `advance`. The cycle position is left untouched, so the
    /// melody pauses rather than rewinding.
    pub fn disarm(&mut self)
        ensures
            !final(self).armed,
            final(self).source == old(self).source,
    {
        self.armed = false;
    }

    /// Consume exactly one command and report the tone action it asks
    /// for, if any. Called once per tick, and only while armed, so the
    /// stream never pulls ahead of elapsed time.
    pub fn advance(&mut self) -> (a: Option<ToneAction>)
        requires
            old(self).wf(),
            old(self).armed,
        ensures
            final(self).wf(),
            final(self).armed,
            final(self).source == old(self).source.spec_advance(),
            a == old(self).nth_action(0),
    {
        let c = self.source.next();
        match c {
            Command::BeginNote { pitch } => Some(ToneAction::Play(pitch)),
            Command::EndNote => Some(ToneAction::Silence),
            Command::Wait => None,
        }
    }
}

/// Law (deterministic cycle): driven by a fixed command list, the ordered
/// sequence of tone actions repeats identically with a period of the
/// command-list length.
pub proof fn lemma_actions_cycle(s: Sequencer, k: int)
    requires
        s.wf(),
        0 <= k,
    ensures
        s.nth_action(k + s.source.commands@.len()) == s.nth_action(k),
{
    lemma_pull_periodic(s.source, k);
}

} // verus!
