//! What a key of the keyboard asks of the program.
use crate::simulation::{Event, KeyState};
use vstd::prelude::*;

verus! {

/// The keys that the program listens to.
#[derive(Clone, Copy, Debug, PartialEq, Eq, Structural)]
pub enum Key {
    ArrowLeft,
    ArrowRight,
    Space,
    Escape,
    Other,
}

/// What the program does with a key press or release.
#[derive(Clone, Copy, Debug, PartialEq, Eq, Structural)]
pub enum Command {
    /// Queue the event for the simulation.
    Send(Event),
    /// End the program.
    Exit,
    /// Nothing.
    Ignore,
}

/// The arrows steer, both when pressed and when released; a press of space
/// puts the ball back; escape ends the program; every other key is ignored.
pub open spec fn command_of(key: Key, state: KeyState) -> Command {
    match key {
        Key::ArrowLeft => Command::Send(Event::Left(state)),
        Key::ArrowRight => Command::Send(Event::Right(state)),
        Key::Space => if state == KeyState::Pressed {
            Command::Send(Event::Reset)
        } else {
            Command::Ignore
        },
        Key::Escape => Command::Exit,
        Key::Other => Command::Ignore,
    }
}

/// The command for `key` going to `state`.
pub fn translate_key(key: Key, state: KeyState) -> (r: Command)
    ensures
        r == command_of(key, state),
{
    match key {
        Key::ArrowLeft => Command::Send(Event::Left(state)),
        Key::ArrowRight => Command::Send(Event::Right(state)),
        Key::Space => {
            if state == KeyState::Pressed {
                Command::Send(Event::Reset)
            } else {
                Command::Ignore
            }
        },
        Key::Escape => Command::Exit,
        Key::Other => Command::Ignore,
    }
}

} // verus!
