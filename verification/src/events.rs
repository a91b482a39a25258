use vstd::prelude::*;

verus! {

/// Key position the host maps to "run fewer cycles per frame". Positions
/// 16 and up are host controls, not CHIP-8 keys; the core never sees them.
pub const MINUS_POSITION: usize = 16;

/// Key position the host maps to "run more cycles per frame".
pub const PLUS_POSITION: usize = 17;

/// One event from the host's windowing loop, carried as plain values for
/// the core: a dropped program image already read into bytes, one key
/// transition by keypad position, or a frame about to be presented.
pub enum GameEvents {
    /// A program image dropped on the window, as its raw bytes.
    DroppedFile(Vec<u8>),
    /// A key transition: the keypad position — or a host control position,
    /// `MINUS_POSITION` or `PLUS_POSITION` — and whether the key is now
    /// down.
    KeyInput(usize, bool),
    /// The host is about to present a frame: cycles should run, the pixel
    /// buffer be filled, and the beep state polled.
    Redraw,
}

} // verus!
