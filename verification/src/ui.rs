//! The event loop's decisions: how long to wait for input, when a tick is
//! due, and what an event does to the application.

use crate::key::Key;
use crate::views::app::{Action, App, Reply, ViewState};
use crate::views::model::EventView;
use vstd::prelude::*;

verus! {

/// What the event loop hands to the application: a key, the tick of the
/// clock, or the host's answer to an action.
#[derive(Debug)]
pub enum Event {
    Input(Key),
    Tick,
    Reply(Reply),
}

impl View for Event {
    type V = EventView;

    open spec fn view(&self) -> EventView {
        match *self {
            Event::Input(key) => EventView::Input(key),
            Event::Tick => EventView::Tick,
            Event::Reply(reply) => EventView::Reply(reply@),
        }
    }
}

/// How long to wait for input before the next tick is due: what is left of
/// the tick interval, and nothing once it is used up.
pub open spec fn remaining(tick_rate: u64, elapsed: u64) -> u64 {
    if elapsed >= tick_rate {
        0
    } else {
        (tick_rate - elapsed) as u64
    }
}

/// How long to wait for input, given the tick interval and the time since
/// the last tick, both in milliseconds.
pub fn poll_timeout(tick_rate: u64, elapsed: u64) -> (timeout: u64)
    ensures
        timeout == remaining(tick_rate, elapsed),
{
    if elapsed >= tick_rate {
        0
    } else {
        tick_rate - elapsed
    }
}

/// Whether a tick is due: the tick interval has passed since the last one.
pub fn tick_due(tick_rate: u64, elapsed: u64) -> (due: bool)
    ensures
        due == (elapsed >= tick_rate),
        due == (remaining(tick_rate, elapsed) == 0),
{
    elapsed >= tick_rate
}

/// Tests whether `key` asks to quit: `q` in the file browser or the editor.
pub fn quits(app: &App, key: &Key) -> (quit: bool)
    requires
        app@.wf(),
    ensures
        quit == app@.quits(*key),
{
    match key {
        Key::Char('q') => match app.get_latest_state() {
            Some(ViewState::FileView) => true,
            Some(ViewState::AddView { .. }) => true,
            _ => false,
        },
        _ => false,
    }
}

/// Performs one event and says what the host is to do next. A tick changes
/// nothing. The key `q` in the file browser or the editor ends the
/// application; any other key goes to the top frame. An answer of the host
/// is taken up where the action left off. Once the application is over,
/// every event is answered with `Quit`.
pub fn dispatch(app: &mut App, event: Event) -> (action: Action)
    requires
        old(app)@.wf(),
    ensures
        final(app)@ == old(app)@.dispatch(event@).0,
        action@ == old(app)@.dispatch(event@).1,
        final(app)@.wf(),
{
    if app.is_terminated() {
        return Action::Quit;
    }
    let action = match event {
        Event::Tick => Action::Continue,
        Event::Input(key) => {
            if quits(app, &key) {
                app.terminate();
                Action::Quit
            } else {
                app.update_state(&key)
            }
        },
        Event::Reply(reply) => app.resume(reply),
    };
    if app.is_terminated() {
        Action::Quit
    } else {
        action
    }
}

} // verus!
