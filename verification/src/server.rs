//! The game loop driver: which ticks a pass of the loop runs, and what each
//! of them does.
//!
//! A pass begins with the number of ticks that the scheduler owes. The
//! driver runs them one after the other without rest, unless more than a
//! second's worth is owed: then it runs one tick and lets the others go.

use vstd::prelude::*;
use crate::timer::{tick_length, Timer, MAX_TPS};

verus! {

/// Where the server is in its life.
#[derive(Debug, Clone, Copy, PartialEq, Eq, Structural)]
pub enum State {
    /// Waiting for the command that starts a game.
    Idle,
    /// A game is being set up; the transports are driven.
    Loading,
    /// A game is on; the transports are driven.
    Playing,
}

/// What one tick has the loop do.
#[derive(Debug, Clone, Copy, PartialEq, Eq, Structural)]
pub enum TickWork {
    /// The command that was waiting has been taken; nothing else is done.
    Command,
    /// One cycle on the transports: accept, read, hand the messages to the
    /// application, write what it answers, flush.
    Transport,
}

/// Number of ticks that a pass runs when `owed` are owed at `tps` ticks per
/// second: all of them, or a single one if more than a second's worth is
/// owed.
pub open spec fn planned_ticks(owed: u32, tps: u32) -> u32 {
    if owed > tps {
        1
    } else {
        owed
    }
}

/// Number of owed ticks that such a pass lets go.
pub open spec fn skipped_ticks(owed: u32, tps: u32) -> u32 {
    (owed - planned_ticks(owed, tps)) as u32
}

/// The state after a tick in `state`: the first tick leaves `Idle`.
pub open spec fn state_after_tick(state: State) -> State {
    match state {
        State::Idle => State::Loading,
        other => other,
    }
}

/// What a tick in `state` does.
pub open spec fn work_in(state: State) -> TickWork {
    match state {
        State::Idle => TickWork::Command,
        _ => TickWork::Transport,
    }
}

/// The game loop driver.
pub struct Server {
    id: String,
    tps: u32,
    state: State,
    ticks_left: u32,
}

impl Server {
    /// The server's name.
    pub closed spec fn name(&self) -> Seq<char> {
        self.id@
    }

    /// The configured tick rate, in ticks per second.
    pub closed spec fn rate(&self) -> u32 {
        self.tps
    }

    /// Where the server is in its life.
    pub closed spec fn lifecycle(&self) -> State {
        self.state
    }

    /// Ticks that the current pass has still to run.
    pub closed spec fn ticks_left(&self) -> u32 {
        self.ticks_left
    }

    /// The tick rate is one that a scheduler can keep.
    pub open spec fn wf(&self) -> bool {
        1 <= self.rate() <= MAX_TPS
    }

    /// An idle server named `id` that runs `tps` ticks per second.
    pub fn new(id: String, tps: u32) -> (r: Self)
        requires
            1 <= tps <= MAX_TPS,
        ensures
            r.wf(),
            r.name() == id@,
            r.rate() == tps,
            r.lifecycle() == State::Idle,
            r.ticks_left() == 0,
    {
        Server { id, tps, state: State::Idle, ticks_left: 0 }
    }

    /// The server's name.
    pub fn id(&self) -> (r: &String)
        ensures
            r@ == self.name(),
    {
        &self.id
    }

    /// The configured tick rate.
    pub fn tps(&self) -> (r: u32)
        ensures
            r == self.rate(),
    {
        self.tps
    }

    /// Where the server is in its life.
    pub fn state(&self) -> (r: State)
        ensures
            r == self.lifecycle(),
    {
        self.state
    }

    /// A scheduler for the server's tick rate, started now.
    pub fn timer(&self) -> (t: Timer)
        requires
            self.wf(),
        ensures
            t.wf(),
            t.tick() == tick_length(self.rate()),
            t.residue() == 0,
    {
        Timer::new(self.tps)
    }

    /// Begins a pass of the loop for which the scheduler owes `owed` ticks,
    /// and returns how many of them are skipped.
    ///
    /// The pass runs every owed tick, unless more are owed than the tick
    /// rate: then it runs exactly one, and the others are skipped.
    pub fn begin_pass(&mut self, owed: u32) -> (skipped: u32)
        ensures
            final(self).ticks_left() == planned_ticks(owed, old(self).rate()),
            skipped == skipped_ticks(owed, old(self).rate()),
            owed > old(self).rate() ==> final(self).ticks_left() == 1 && skipped == owed - 1,
            final(self).name() == old(self).name(),
            final(self).rate() == old(self).rate(),
            final(self).lifecycle() == old(self).lifecycle(),
    {
        if owed > self.tps {
            self.ticks_left = 1;
            owed - 1
        } else {
            self.ticks_left = owed;
            0
        }
    }

    /// Takes the command that an idle server waits for: a game is set up.
    fn process_command(&mut self)
        ensures
            final(self).lifecycle() == State::Loading,
            final(self).name() == old(self).name(),
            final(self).rate() == old(self).rate(),
            final(self).ticks_left() == old(self).ticks_left(),
    {
        self.state = State::Loading;
    }

    /// Starts the next tick of the pass and says what it does, or returns
    /// `None` when the pass has run all its ticks.
    ///
    /// A tick of an idle server takes the waiting command, which sets a game
    /// up; every other tick drives the transports.
    pub fn tick(&mut self) -> (work: Option<TickWork>)
        ensures
            final(self).name() == old(self).name(),
            final(self).rate() == old(self).rate(),
            old(self).ticks_left() == 0 ==> work is None && final(self).ticks_left() == 0 && final(self).lifecycle() == old(self).lifecycle(),
            old(self).ticks_left() > 0 ==> work == Some(work_in(old(self).lifecycle())) && final(self).ticks_left() == old(self).ticks_left() - 1 && final(self).lifecycle()
                == state_after_tick(old(self).lifecycle()),
    {
        if self.ticks_left == 0 {
            None
        } else {
            self.ticks_left = self.ticks_left - 1;
            match self.state {
                State::Idle => {
                    self.process_command();
                    Some(TickWork::Command)
                },
                State::Loading | State::Playing => Some(TickWork::Transport),
            }
        }
    }
}

} // verus!
