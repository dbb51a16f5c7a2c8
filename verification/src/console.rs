//! What the console shell echoes for a byte read from the UART.
use vstd::prelude::*;

verus! {

/// Byte sent by the backspace key.
pub const BACKSPACE: u8 = 8;

/// What to print back for a received byte.
#[derive(Clone, Copy, PartialEq, Eq, Structural)]
pub enum Echo {
    /// Backspace: step back, blank the character, step back again.
    EraseLast,
    /// Line feed or carriage return: end the line.
    NewLine,
    /// Anything else: print the byte as a character.
    Put(u8),
}

/// The echo for byte `c`.
pub fn echo_for(c: u8) -> (r: Echo)
    ensures
        r == if c == BACKSPACE {
            Echo::EraseLast
        } else if c == 10 || c == 13 {
            Echo::NewLine
        } else {
            Echo::Put(c)
        },
{
    match c {
        8 => Echo::EraseLast,
        10 | 13 => Echo::NewLine,
        _ => Echo::Put(c),
    }
}

} // verus!
