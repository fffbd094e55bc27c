//! The console's beat: how long to wait for the terminal, and when to tick.
use vstd::prelude::*;

use crate::event::AppEvent;
use crate::event::EventModel;
use crate::event::KeyEvent;

verus! {

/// The time between two ticks, in nanoseconds.
pub const TICK_NANOS: u128 = 33_000_000;

/// What the terminal reports.
#[derive(Clone, Copy, Debug, PartialEq, Eq, Structural)]
pub enum TerminalInput {
    Key(KeyEvent),
    Resize,
    /// Anything the console has no use for.
    Other,
}

/// What the console is told of a report, if anything.
pub open spec fn told(input: TerminalInput) -> Option<EventModel> {
    match input {
        TerminalInput::Key(k) => Some(EventModel::Key(k)),
        TerminalInput::Resize => Some(EventModel::Resize),
        TerminalInput::Other => None,
    }
}

/// What follows a wait for the terminal.
#[derive(Debug)]
pub struct Beat {
    /// What the console is told of the terminal's report.
    pub event: Option<AppEvent>,
    /// Whether the console is then told of a tick, and the next one is counted
    /// from now.
    pub tick: bool,
}

impl Beat {
    /// What the console is told, in order.
    pub open spec fn events(self) -> Seq<EventModel> {
        (match self.event {
            Some(ev) => seq![ev@],
            None => Seq::empty(),
        }) + (if self.tick {
            seq![EventModel::Tick]
        } else {
            Seq::empty()
        })
    }
}

/// What the console is told after a wait in which the terminal reported `input`,
/// if anything, and which ended `elapsed` nanoseconds after the last tick: of the
/// report, and then of a tick that is due.
pub open spec fn heard(input: Option<TerminalInput>, elapsed: u128) -> Seq<EventModel> {
    reported(input) + (if elapsed >= TICK_NANOS {
        seq![EventModel::Tick]
    } else {
        Seq::empty()
    })
}

/// What the console is told of what the terminal reported, if anything.
pub open spec fn reported(input: Option<TerminalInput>) -> Seq<EventModel> {
    match input {
        Some(report) => match told(report) {
            Some(ev) => seq![ev],
            None => Seq::empty(),
        },
        None => Seq::empty(),
    }
}

/// How long to wait for the terminal, `elapsed` nanoseconds after the last
/// tick: until the next tick is due.
pub fn poll_timeout(elapsed: u128) -> (r: u128)
    ensures
        elapsed < TICK_NANOS ==> elapsed + r == TICK_NANOS,
        elapsed >= TICK_NANOS ==> r == 0,
{
    TICK_NANOS.saturating_sub(elapsed)
}

/// What follows a wait in which the terminal reported `input`, if anything, and
/// which ended `elapsed` nanoseconds after the last tick.
pub fn after_wait(input: Option<TerminalInput>, elapsed: u128) -> (r: Beat)
    ensures
        match r.event {
            Some(ev) => input is Some && told(input->0) == Some(ev@),
            None => input is None || told(input->0) is None,
        },
        r.tick == (elapsed >= TICK_NANOS),
        r.events() == heard(input, elapsed),
{
    let event = match input {
        Some(TerminalInput::Key(k)) => Some(AppEvent::Key(k)),
        Some(TerminalInput::Resize) => Some(AppEvent::Resize),
        _ => None,
    };
    Beat { event, tick: elapsed >= TICK_NANOS }
}

} // verus!
