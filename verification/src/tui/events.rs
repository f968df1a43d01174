//! Input events of the interactive interface.
use vstd::prelude::*;

verus! {

/// What a key press or mouse wheel turn asks for.
#[derive(Debug, Clone, Copy, PartialEq, Eq, Structural)]
pub enum AppEvent {
    Quit,
    Up,
    Down,
    Left,
    Right,
    Select,
    Back,
    ScrollUp,
    ScrollDown,
    Nothing,
}

/// The keys the interface reacts to.
#[derive(Debug, Clone, Copy, PartialEq, Eq, Structural)]
pub enum Key {
    Char(char),
    Esc,
    Up,
    Down,
    Left,
    Right,
    Enter,
    Backspace,
    Other,
}

/// The event a key stands for.
pub open spec fn key_event(key: Key) -> AppEvent {
    match key {
        Key::Char('q') => AppEvent::Quit,
        Key::Esc => AppEvent::Back,
        Key::Up | Key::Char('k') => AppEvent::Up,
        Key::Down | Key::Char('j') => AppEvent::Down,
        Key::Left | Key::Char('h') => AppEvent::Left,
        Key::Right | Key::Char('l') => AppEvent::Right,
        Key::Enter | Key::Char(' ') => AppEvent::Select,
        Key::Backspace => AppEvent::Back,
        _ => AppEvent::Nothing,
    }
}

/// Maps a key to its event: `q` quits, Esc and Backspace go back, arrows
/// and `hjkl` move, Enter and Space select.
pub fn handle_key(key: Key) -> (e: AppEvent)
    ensures
        e == key_event(key),
{
    match key {
        Key::Char('q') => AppEvent::Quit,
        Key::Esc => AppEvent::Back,
        Key::Up | Key::Char('k') => AppEvent::Up,
        Key::Down | Key::Char('j') => AppEvent::Down,
        Key::Left | Key::Char('h') => AppEvent::Left,
        Key::Right | Key::Char('l') => AppEvent::Right,
        Key::Enter | Key::Char(' ') => AppEvent::Select,
        Key::Backspace => AppEvent::Back,
        _ => AppEvent::Nothing,
    }
}

/// The mouse wheel movements the interface reacts to.
#[derive(Debug, Clone, Copy, PartialEq, Eq, Structural)]
pub enum Wheel {
    ScrollUp,
    ScrollDown,
    Other,
}

/// Maps a mouse wheel movement to its event.
pub fn handle_mouse(w: Wheel) -> (e: AppEvent)
    ensures
        e == match w {
            Wheel::ScrollUp => AppEvent::ScrollUp,
            Wheel::ScrollDown => AppEvent::ScrollDown,
            Wheel::Other => AppEvent::Nothing,
        },
{
    match w {
        Wheel::ScrollUp => AppEvent::ScrollUp,
        Wheel::ScrollDown => AppEvent::ScrollDown,
        Wheel::Other => AppEvent::Nothing,
    }
}

} // verus!
