//! The input dispatcher: maps discrete input events to navigation commands.
//!
//! The browser understands six semantic key classes — up, down, switch pane,
//! confirm/drill, back, quit — independent of raw hardware codes; translating
//! terminal key codes into these classes is the event source's concern.
//! Release variants of a key are filtered out here, so one physical press
//! yields exactly one command; any unrecognized key yields no command and no
//! error.

use crate::nav::Command;
use vstd::prelude::*;

verus! {

/// The semantic class of a pressed key, plus a class for everything the
/// browser does not recognize.
#[derive(Clone, Copy, Debug, PartialEq, Eq, Structural)]
pub enum Key {
    Up,
    Down,
    Switch,
    Confirm,
    Back,
    Quit,
    Unknown,
}

/// One discrete input event: which key class it carries and whether it is the
/// release half of a press.
#[derive(Clone, Copy, Debug, PartialEq, Eq, Structural)]
pub struct InputEvent {
    pub key: Key,
    pub release: bool,
}

/// What `dispatch` returns for each event: nothing for a release or an
/// unrecognized key, otherwise the command of the key's class.
pub open spec fn dispatch_spec(ev: InputEvent) -> Option<Command> {
    if ev.release {
        None
    } else {
        match ev.key {
            Key::Up => Some(Command::MoveUp),
            Key::Down => Some(Command::MoveDown),
            Key::Switch => Some(Command::SwitchPane),
            Key::Confirm => Some(Command::Drill),
            Key::Back => Some(Command::Back),
            Key::Quit => Some(Command::Terminate),
            Key::Unknown => None,
        }
    }
}

/// Maps one discrete input event to a navigation command, filtering out
/// releases and unrecognized keys.
pub fn dispatch(ev: InputEvent) -> (r: Option<Command>)
    ensures
        r == dispatch_spec(ev),
{
    if ev.release {
        None
    } else {
        match ev.key {
            Key::Up => Some(Command::MoveUp),
            Key::Down => Some(Command::MoveDown),
            Key::Switch => Some(Command::SwitchPane),
            Key::Confirm => Some(Command::Drill),
            Key::Back => Some(Command::Back),
            Key::Quit => Some(Command::Terminate),
            Key::Unknown => None,
        }
    }
}

} // verus!
