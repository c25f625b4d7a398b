//! Input: what each event asks for, and what a batch of events amounts to.

use vstd::prelude::*;

verus! {

/// The directional keys that steer the player.
#[derive(Clone, Copy, Debug, PartialEq, Eq)]
pub enum Key {
    Up,
    Down,
    Left,
    Right,
}

/// One event delivered by the input source.
#[derive(Clone, Copy, Debug, PartialEq, Eq)]
pub enum InputEvent {
    /// The window was asked to close.
    Quit,
    /// The escape key went down.
    Escape,
    /// A directional key went down.
    KeyDown(Key),
    /// Anything else.
    Other,
}

/// A change of the player's velocity, in whole units per axis.
/// The vertical axis points down the screen.
#[derive(Clone, Copy, Debug, PartialEq, Eq)]
pub struct Impulse {
    pub dx: i8,
    pub dy: i8,
}

impl Impulse {
    /// One unit along exactly one axis.
    pub open spec fn is_unit(self) -> bool {
        ||| (self.dx == 0 && (self.dy == 1 || self.dy == -1))
        ||| (self.dy == 0 && (self.dx == 1 || self.dx == -1))
    }
}

/// What an event asks the simulation to do.
#[derive(Clone, Copy, Debug, PartialEq, Eq)]
pub enum Command {
    /// Stop the run.
    Quit,
    /// Add the impulse to the player's velocity.
    Push(Impulse),
    /// Nothing.
    Ignore,
}

/// What a batch of pending events amounts to.
#[derive(Debug, PartialEq, Eq)]
pub struct Drained {
    /// Whether an event of the batch stops the run.
    pub quit: bool,
    /// The impulses to add to the player's velocity, one after another.
    pub impulses: Vec<Impulse>,
}

/// The impulse of a directional key: up and left are negative, down and right positive.
pub open spec fn impulse_of(key: Key) -> Impulse {
    match key {
        Key::Up => Impulse { dx: 0i8, dy: -1i8 },
        Key::Down => Impulse { dx: 0i8, dy: 1i8 },
        Key::Left => Impulse { dx: -1i8, dy: 0i8 },
        Key::Right => Impulse { dx: 1i8, dy: 0i8 },
    }
}

/// The command of an event: a quit request or escape stops the run, a
/// directional key pushes the player, everything else is ignored.
pub open spec fn command_of(event: InputEvent) -> Command {
    match event {
        InputEvent::Quit => Command::Quit,
        InputEvent::Escape => Command::Quit,
        InputEvent::KeyDown(key) => Command::Push(impulse_of(key)),
        InputEvent::Other => Command::Ignore,
    }
}

/// Whether the event stops the run.
pub open spec fn stops(event: InputEvent) -> bool {
    command_of(event) is Quit
}

/// Index of the first event that stops the run; the length where none does.
pub open spec fn first_quit(events: Seq<InputEvent>) -> nat
    decreases events.len(),
{
    if events.len() == 0 || stops(events[0]) {
        0
    } else {
        1 + first_quit(events.skip(1))
    }
}

/// `k` is the index of the first stopping event of `events`, or their number
/// where none stops the run.
pub open spec fn is_first_quit(events: Seq<InputEvent>, k: int) -> bool {
    &&& 0 <= k <= events.len()
    &&& forall|i: int| 0 <= i < k ==> !stops(#[trigger] events[i])
    &&& k < events.len() ==> stops(events[k])
}

/// The impulses of the directional key presses among the events, in order.
pub open spec fn impulses_of(events: Seq<InputEvent>) -> Seq<Impulse>
    decreases events.len(),
{
    if events.len() == 0 {
        Seq::empty()
    } else {
        let before = impulses_of(events.drop_last());
        match command_of(events.last()) {
            Command::Push(p) => before.push(p),
            _ => before,
        }
    }
}

/// Interprets one event.
pub fn interpret(event: InputEvent) -> (c: Command)
    ensures
        c == command_of(event),
        c matches Command::Push(p) ==> p.is_unit(),
{
    match event {
        InputEvent::Quit => Command::Quit,
        InputEvent::Escape => Command::Quit,
        InputEvent::KeyDown(key) => {
            let p = match key {
                Key::Up => Impulse { dx: 0, dy: -1 },
                Key::Down => Impulse { dx: 0, dy: 1 },
                Key::Left => Impulse { dx: -1, dy: 0 },
                Key::Right => Impulse { dx: 1, dy: 0 },
            };
            Command::Push(p)
        },
        InputEvent::Other => Command::Ignore,
    }
}

/// Drains a batch of pending events, oldest first. The batch stops the run
/// if one of its events does; the impulses are those of the directional key
/// presses that precede the first such event, in their order.
pub fn drain(events: &Vec<InputEvent>) -> (d: Drained)
    ensures
        first_quit(events@) <= events.len(),
        d.quit == (first_quit(events@) < events.len()),
        d.impulses@ == impulses_of(events@.take(first_quit(events@) as int)),
        forall|k: int| 0 <= k < d.impulses@.len() ==> (#[trigger] d.impulses@[k]).is_unit(),
{
    let mut impulses: Vec<Impulse> = Vec::new();
    let mut i: usize = 0;
    while i < events.len()
        invariant
            i <= events.len(),
            forall|j: int| 0 <= j < i ==> !stops(#[trigger] events@[j]),
            impulses@ == impulses_of(events@.take(i as int)),
        decreases events.len() - i,
    {
        match interpret(events[i]) {
            Command::Quit => {
                proof {
                    lemma_first_quit(events@, i as int);
                    lemma_impulses_are_units(events@.take(i as int));
                }
                return Drained { quit: true, impulses };
            },
            Command::Push(p) => {
                impulses.push(p);
            },
            Command::Ignore => {},
        }
        assert(events@.take(i + 1).drop_last() == events@.take(i as int));
        i = i + 1;
    }
    proof {
        assert(events@.take(i as int) == events@);
        lemma_first_quit(events@, i as int);
        lemma_impulses_are_units(events@);
    }
    Drained { quit: false, impulses }
}

/// `first_quit` is the one index before which no event stops the run and at
/// which one does, if any does.
pub proof fn lemma_first_quit(events: Seq<InputEvent>, k: int)
    ensures
        is_first_quit(events, first_quit(events) as int),
        is_first_quit(events, k) ==> k == first_quit(events),
    decreases events.len(),
{
    if events.len() == 0 || stops(events[0]) {
        if is_first_quit(events, k) && k > 0 {
            assert(!stops(events[0]));
        }
    } else {
        let rest = events.skip(1);
        lemma_first_quit(rest, k - 1);
        let f = first_quit(rest) as int;
        assert forall|i: int| 0 <= i < f + 1 implies !stops(#[trigger] events[i]) by {
            if i > 0 {
                assert(events[i] == rest[i - 1]);
            }
        }
        if f + 1 < events.len() {
            assert(events[f + 1] == rest[f]);
        }
        if is_first_quit(events, k) {
            assert(k > 0);
            assert forall|i: int| 0 <= i < k - 1 implies !stops(#[trigger] rest[i]) by {
                assert(rest[i] == events[i + 1]);
            }
            if k - 1 < rest.len() {
                assert(rest[k - 1] == events[k]);
            }
            assert(is_first_quit(rest, k - 1));
        }
    }
}

/// Every impulse that events give is one unit along one axis, and there are
/// no more impulses than events.
pub proof fn lemma_impulses_are_units(events: Seq<InputEvent>)
    ensures
        impulses_of(events).len() <= events.len(),
        forall|k: int|
            0 <= k < impulses_of(events).len() ==> (#[trigger] impulses_of(events)[k]).is_unit(),
    decreases events.len(),
{
    if events.len() > 0 {
        lemma_impulses_are_units(events.drop_last());
    }
}

} // verus!
