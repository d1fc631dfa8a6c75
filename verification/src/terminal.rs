//! The blinking cursor of the terminal emulator.

use vstd::prelude::*;

verus! {

/// The blinking cursor of a terminal emulator: whether it is enabled and
/// shown, how often it blinks, where it stands and the character under it.
pub struct Cursor {
    enabled: bool,
    freq: u128,
    time: (),
    show: bool,
    color: (),
    offset: usize,
    underlying_char: char,
}

} // verus!
