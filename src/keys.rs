//! Key bindings: which key runs which navigation command.
use vstd::prelude::*;

verus! {

/// A key as the input loop reports it.
#[derive(Clone, Copy, Debug, PartialEq, Eq, Structural)]
pub enum Key {
    Char(char),
    Up,
    Down,
    Left,
    Right,
    Other,
}

/// What a key asks of the browser.
#[derive(Clone, Copy, Debug, PartialEq, Eq, Structural)]
pub enum Command {
    Quit,
    MoveHover(i64),
    Descend,
    Ascend,
    ToggleHidden,
}

/// The command bound to `key`: `q` quits, `j` and Down move down, `k` and Up
/// move up, `l` and Right descend, `h` and Left ascend, `s` switches hidden
/// entries; every other key is unbound.
pub fn command_for(key: Key) -> (r: Option<Command>)
    ensures
        r == match key {
            Key::Char('q') => Some(Command::Quit),
            Key::Char('j') | Key::Down => Some(Command::MoveHover(1i64)),
            Key::Char('k') | Key::Up => Some(Command::MoveHover(-1i64)),
            Key::Char('l') | Key::Right => Some(Command::Descend),
            Key::Char('h') | Key::Left => Some(Command::Ascend),
            Key::Char('s') => Some(Command::ToggleHidden),
            _ => None,
        },
{
    match key {
        Key::Char('q') => Some(Command::Quit),
        Key::Char('j') | Key::Down => Some(Command::MoveHover(1)),
        Key::Char('k') | Key::Up => Some(Command::MoveHover(-1)),
        Key::Char('l') | Key::Right => Some(Command::Descend),
        Key::Char('h') | Key::Left => Some(Command::Ascend),
        Key::Char('s') => Some(Command::ToggleHidden),
        _ => None,
    }
}

} // verus!
