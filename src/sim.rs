//! The decisions of the loop that drives a run: pacing, quitting and
//! advancing. The loop itself (polling, drawing, sleeping) is left to the
//! caller, which hands each outcome back to these functions.

use crate::grid::{successor, Grid};
use vstd::prelude::*;

verus! {

/// The key that ends a run.
pub const QUIT_KEY: char = 'q';

/// Milliseconds in one second.
pub const MILLIS_PER_SECOND: u64 = 1000;

/// Why a run could not be configured.
#[derive(Clone, Copy, Debug, PartialEq, Eq, Structural)]
pub enum ConfigError {
    /// The tick rate is zero.
    ZeroTickRate,
}

/// What a non-blocking poll of the input found.
#[derive(Clone, Copy, Debug, PartialEq, Eq, Structural)]
pub enum Input {
    /// Nothing was pending.
    Idle,
    /// A key that stands for a character was pressed.
    Char(char),
    /// Some other event arrived.
    Other,
}

/// Whether the run is still going.
#[derive(Clone, Copy, Debug, PartialEq, Eq, Structural)]
pub enum Phase {
    Running,
    Stopped,
}

/// What the caller is to do after handing over a poll's result.
#[derive(Clone, Copy, Debug, PartialEq, Eq, Structural)]
pub enum Action {
    /// Draw the current generation, then advance.
    Render,
    /// Leave the loop.
    Quit,
}

/// The pause after each tick, in whole milliseconds, for a rate in ticks per
/// second: `1000 / rate`, rounded down.
pub open spec fn interval_for(rate: u64) -> int {
    MILLIS_PER_SECOND as int / rate as int
}

/// The pause is the floor of a thousand over the rate: `rate` pauses fit in
/// one second and one more would not.
pub proof fn lemma_interval_rounds_down(rate: u64)
    requires
        rate > 0,
    ensures
        0 <= interval_for(rate) <= 1000,
        interval_for(rate) * rate <= 1000 < (interval_for(rate) + 1) * rate,
{
    let q = interval_for(rate);
    let r = rate as int;
    let m = 1000int % r;
    assert(q == 1000int / r);
    vstd::arithmetic::div_mod::lemma_fundamental_div_mod(1000int, r);
    vstd::arithmetic::div_mod::lemma_mod_bound(1000int, r);
    vstd::arithmetic::div_mod::lemma_div_pos_is_pos(1000int, r);
    vstd::arithmetic::div_mod::lemma_div_is_ordered_by_denominator(1000int, 1int, r);
    assert(q * r <= 1000 < (q + 1) * r) by (nonlinear_arith)
        requires
            1000 == r * q + m,
            0 <= m < r,
    {}
}

/// The pause after each tick for the given rate; a rate of zero is refused.
pub fn tick_interval_ms(rate: u64) -> (r: Result<u64, ConfigError>)
    ensures
        rate == 0 ==> r == Err::<u64, ConfigError>(ConfigError::ZeroTickRate),
        rate > 0 ==> r == Ok::<u64, ConfigError>(interval_for(rate) as u64),
{
    if rate == 0 {
        Err(ConfigError::ZeroTickRate)
    } else {
        Ok(MILLIS_PER_SECOND / rate)
    }
}

/// Whether a poll's result asks to end the run.
pub fn is_quit(input: Input) -> (r: bool)
    ensures
        r == (input == Input::Char(QUIT_KEY)),
{
    match input {
        Input::Char(c) => c == QUIT_KEY,
        _ => false,
    }
}

/// A run: the one generation it owns, the pause after each tick, and whether
/// it is still going.
pub struct Simulation {
    pub grid: Grid,
    pub interval_ms: u64,
    pub phase: Phase,
}

impl Simulation {
    /// A running simulation of `grid` at `rate` ticks per second; a rate of
    /// zero is refused.
    pub fn new(grid: Grid, rate: u64) -> (r: Result<Simulation, ConfigError>)
        ensures
            rate == 0 ==> r is Err && r->Err_0 == ConfigError::ZeroTickRate,
            rate > 0 ==> r is Ok,
            r matches Ok(s) ==> {
                &&& s.grid@ == grid@
                &&& s.interval_ms == interval_for(rate)
                &&& s.phase == Phase::Running
            },
    {
        match tick_interval_ms(rate) {
            Ok(ms) => Ok(Simulation { grid, interval_ms: ms, phase: Phase::Running }),
            Err(e) => Err(e),
        }
    }

    /// Takes the result of the poll at the start of a tick. The quit key
    /// stops the run and asks the caller to leave; anything else asks it to
    /// draw the current generation. The generation is not touched.
    pub fn on_input(&mut self, input: Input) -> (a: Action)
        requires
            old(self).phase == Phase::Running,
        ensures
            input == Input::Char(QUIT_KEY) ==> a == Action::Quit && final(self).phase
                == Phase::Stopped,
            input != Input::Char(QUIT_KEY) ==> a == Action::Render && final(self).phase
                == Phase::Running,
            final(self).grid@ == old(self).grid@,
            final(self).interval_ms == old(self).interval_ms,
    {
        if is_quit(input) {
            self.phase = Phase::Stopped;
            Action::Quit
        } else {
            Action::Render
        }
    }

    /// Replaces the generation by its successor, once it has been drawn, and
    /// returns how long to pause before the next tick.
    pub fn advance(&mut self) -> (ms: u64)
        requires
            old(self).phase == Phase::Running,
        ensures
            final(self).grid@ == successor(old(self).grid@),
            final(self).phase == Phase::Running,
            final(self).interval_ms == old(self).interval_ms,
            ms == old(self).interval_ms,
    {
        self.grid = self.grid.step();
        self.interval_ms
    }
}

} // verus!
