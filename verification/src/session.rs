//! A run of the simulation: running until an input event stops it or a frame
//! cannot be drawn.

use vstd::prelude::*;
use crate::input::{drain, first_quit, impulses_of, Impulse, InputEvent};
use crate::schedule::{tick_plan, tick_steps, Step};

verus! {

/// What one tick asks of the bodies.
#[derive(Debug, PartialEq, Eq)]
pub struct Tick {
    /// The impulses to add to the player's velocity, one after another,
    /// before any step.
    pub impulses: Vec<Impulse>,
    /// The steps to carry out on the bodies, in order.
    pub steps: Vec<Step>,
    /// Whether a frame is drawn once the steps are done.
    pub draw: bool,
}

/// The state of a run over a fixed number of autonomous bodies.
#[derive(Debug)]
pub struct Session {
    bodies: usize,
    running: bool,
}

impl Session {
    /// The number of autonomous bodies, fixed at startup.
    pub closed spec fn population(&self) -> usize {
        self.bodies
    }

    /// Whether the run has not been stopped yet.
    pub closed spec fn running(&self) -> bool {
        self.running
    }

    /// Starts a run over `bodies` autonomous bodies.
    pub fn new(bodies: usize) -> (s: Session)
        ensures
            s.population() == bodies,
            s.running(),
    {
        Session { bodies, running: true }
    }

    /// The number of autonomous bodies.
    #[verifier::when_used_as_spec(population)]
    pub fn bodies(&self) -> (n: usize)
        ensures
            n == self.population(),
    {
        self.bodies
    }

    /// Whether the run goes on.
    #[verifier::when_used_as_spec(running)]
    pub fn is_running(&self) -> (r: bool)
        ensures
            r == self.running(),
    {
        self.running
    }

    /// Begins a tick with the events that are pending, oldest first.
    ///
    /// A stopped run stays stopped and asks for nothing. A running one takes
    /// the impulses of the directional key presses up to the first event that
    /// stops it. If no event does, it goes on and asks for the steps of a full
    /// tick and for a frame; otherwise it stops and asks for neither.
    pub fn tick(&mut self, events: &Vec<InputEvent>) -> (t: Tick)
        ensures
            final(self).population() == old(self).population(),
            final(self).running() == (old(self).running() && first_quit(events@) == events@.len()),
            t.impulses@ == if old(self).running() {
                impulses_of(events@.take(first_quit(events@) as int))
            } else {
                Seq::empty()
            },
            t.steps@ == if final(self).running() {
                tick_steps(old(self).population())
            } else {
                Seq::empty()
            },
            t.draw == final(self).running(),
    {
        if !self.running {
            return Tick { impulses: Vec::new(), steps: Vec::new(), draw: false };
        }
        let drained = drain(events);
        if drained.quit {
            self.running = false;
            Tick { impulses: drained.impulses, steps: Vec::new(), draw: false }
        } else {
            Tick { impulses: drained.impulses, steps: tick_plan(self.bodies), draw: true }
        }
    }

    /// Takes note of how the drawing of a frame went. A frame that could not
    /// be drawn stops the run for good; there is no second try.
    pub fn frame_drawn(&mut self, drawn: bool)
        ensures
            final(self).population() == old(self).population(),
            final(self).running() == (old(self).running() && drawn),
    {
        if !drawn {
            self.running = false;
        }
    }
}

} // verus!
