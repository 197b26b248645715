//! The foreground terminal's decisions: what each key event does while
//! a guest's console is attached to the operator's terminal.
//!
//! Reading events and writing to the guest are the terminal runtime's
//! work; it hands key events in and carries the returned bytes out.

use vstd::prelude::*;
use vstd::string::*;
use crate::de::push_char;

verus! {

/// A key event's code, as the engine cares about it.
#[derive(Clone, Copy, Debug, PartialEq, Eq, Structural)]
pub enum Key {
    Enter,
    Backspace,
    Char(char),
    Other,
}

/// What one key event leads to.
#[derive(Debug)]
pub enum TerminalStep {
    /// Write these bytes to the guest's terminal.
    Forward(Vec<u8>),
    /// Detach from the guest and restore the terminal.
    Detach,
    /// Nothing: not a key press.
    Ignore,
    /// An unhandled key: worth a log line, nothing more.
    LogUnknown,
}

/// Decides one key event: presses forward their text — enter as a
/// newline, backspace as delete — while control-C detaches; releases
/// and repeats are ignored, and other keys are only logged.
pub fn terminal_step(key: Key, ctrl: bool, is_press: bool) -> (r: TerminalStep)
    ensures
        !is_press ==> r is Ignore,
        is_press ==> match key {
            Key::Enter => r matches TerminalStep::Forward(b) && b@ == vstd::utf8::encode_utf8(
                "\n"@,
            ),
            Key::Backspace => r matches TerminalStep::Forward(b) && b@ == vstd::utf8::encode_utf8(
                "\x7F"@,
            ),
            Key::Char(c) => if ctrl && c == 'c' {
                r is Detach
            } else {
                r matches TerminalStep::Forward(b) && b@ == vstd::utf8::encode_utf8(seq![c])
            },
            Key::Other => r is LogUnknown,
        },
{
    if !is_press {
        return TerminalStep::Ignore;
    }
    match key {
        Key::Enter => TerminalStep::Forward("\n".as_bytes_vec()),
        Key::Backspace => TerminalStep::Forward("\x7F".as_bytes_vec()),
        Key::Char(c) => {
            if ctrl && c == 'c' {
                TerminalStep::Detach
            } else {
                let mut text = String::new();
                push_char(&mut text, c);
                proof {
                    assert(text@ =~= seq![c]);
                }
                TerminalStep::Forward(text.as_str().as_bytes_vec())
            }
        },
        Key::Other => TerminalStep::LogUnknown,
    }
}

} // verus!
