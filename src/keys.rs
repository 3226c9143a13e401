use vstd::prelude::*;
use crate::game::Command;

verus! {

/// A key press, as far as the game reads it.
#[derive(Debug, Clone, Copy, PartialEq, Eq, Structural)]
pub enum Key {
    /// A character key; `ctrl` tells whether Control was held.
    Char { c: char, ctrl: bool },
    Backspace,
    Enter,
    Esc,
    /// Any key the game does not use.
    Other,
}

/// The color that a digit key names: keys `1` to `9` stand for colors `0` to
/// `8`; any other character names none.
pub open spec fn color_of_char(c: char) -> Option<usize> {
    if '1' <= c && c <= '9' {
        Some((c as u32 - '1' as u32) as usize)
    } else {
        None
    }
}

/// Reads a digit key as a color index.
pub fn parse_color_number(c: char) -> (r: Option<usize>)
    ensures
        r == color_of_char(c),
{
    if '1' <= c && c <= '9' {
        Some((c as u32 - '1' as u32) as usize)
    } else {
        None
    }
}

/// The command a key stands for: Esc, Control-C and `q` quit; Backspace and
/// Control-Z take back a color; Enter and space submit; a digit key places a
/// color; every other key means nothing.
pub open spec fn key_command(key: Key) -> Option<Command> {
    match key {
        Key::Esc => Some(Command::Quit),
        Key::Backspace => Some(Command::RemoveLast),
        Key::Enter => Some(Command::Submit),
        Key::Other => None,
        Key::Char { c, ctrl } => if c == 'q' || (ctrl && c == 'c') {
            Some(Command::Quit)
        } else if ctrl && c == 'z' {
            Some(Command::RemoveLast)
        } else if c == ' ' {
            Some(Command::Submit)
        } else {
            match color_of_char(c) {
                Some(n) => Some(Command::AppendColor(n)),
                None => None,
            }
        },
    }
}

/// Turns a key press into a command, if it stands for one.
pub fn command_of_key(key: Key) -> (r: Option<Command>)
    ensures
        r == key_command(key),
{
    match key {
        Key::Esc => Some(Command::Quit),
        Key::Backspace => Some(Command::RemoveLast),
        Key::Enter => Some(Command::Submit),
        Key::Other => None,
        Key::Char { c, ctrl } => {
            if c == 'q' || (ctrl && c == 'c') {
                Some(Command::Quit)
            } else if ctrl && c == 'z' {
                Some(Command::RemoveLast)
            } else if c == ' ' {
                Some(Command::Submit)
            } else {
                match parse_color_number(c) {
                    Some(n) => Some(Command::AppendColor(n)),
                    None => None,
                }
            }
        },
    }
}

} // verus!
