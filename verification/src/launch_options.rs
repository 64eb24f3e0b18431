//! Load-time settings of the machine: the behaviour toggles and the font.
use vstd::prelude::*;

verus! {

/// Command behaviour: which of two historical readings an instruction follows.
#[derive(Debug, Clone, Copy, PartialEq, Eq, Structural)]
pub enum CB {
    NEW,
    OLD,
}

/// The four behaviour toggles, fixed for the lifetime of a run.
#[derive(Debug, Clone, Copy, PartialEq, Eq, Structural)]
pub struct Quirks {
    /// 8XY6 / 8XYE. NEW: VX is shifted in place. OLD: VX receives VY shifted.
    pub shift_quirk: CB,
    /// BNNN. NEW: jump to NNN + VX. OLD: jump to NNN + V0.
    pub jump_quirk: CB,
    /// FX1E. NEW: VF is set to 1 when I leaves the 12-bit range. OLD: VF is
    /// never touched.
    pub index_overflow_quirk: CB,
    /// FX55 / FX65. NEW: I is left alone. OLD: I advances past the block.
    pub index_increment_quirk: CB,
}

impl Quirks {
    /// All four toggles set to NEW.
    pub fn new() -> (quirks: Quirks)
        ensures
            quirks == (Quirks {
                shift_quirk: CB::NEW,
                jump_quirk: CB::NEW,
                index_overflow_quirk: CB::NEW,
                index_increment_quirk: CB::NEW,
            }),
    {
        Quirks {
            shift_quirk: CB::NEW,
            jump_quirk: CB::NEW,
            index_overflow_quirk: CB::NEW,
            index_increment_quirk: CB::NEW,
        }
    }
}

/// Address at which the first glyph of the font is stored.
pub const FONT_ADRESS: u16 = 50;

/// Address at which a program image is loaded and at which execution starts.
pub const ROM_ADRESS: u16 = 0x200;

/// Number of bytes of one glyph.
pub const GLYPH_SIZE: u16 = 5;

/// The sixteen hexadecimal glyphs, five rows each, most significant bit left.
pub const FONT_SET: [u8; 80] = [
    0xF0, 0x90, 0x90, 0x90, 0xF0, // 0
    0x20, 0x60, 0x20, 0x20, 0x70, // 1
    0xF0, 0x10, 0xF0, 0x80, 0xF0, // 2
    0xF0, 0x10, 0xF0, 0x10, 0xF0, // 3
    0x90, 0x90, 0xF0, 0x10, 0x10, // 4
    0xF0, 0x80, 0xF0, 0x10, 0xF0, // 5
    0xF0, 0x80, 0xF0, 0x90, 0xF0, // 6
    0xF0, 0x10, 0x20, 0x40, 0x40, // 7
    0xF0, 0x90, 0xF0, 0x90, 0xF0, // 8
    0xF0, 0x90, 0xF0, 0x10, 0xF0, // 9
    0xF0, 0x90, 0xF0, 0x90, 0x90, // A
    0xE0, 0x90, 0xE0, 0x90, 0xE0, // B
    0xF0, 0x80, 0x80, 0x80, 0xF0, // C
    0xE0, 0x90, 0x90, 0x90, 0xE0, // D
    0xF0, 0x80, 0xF0, 0x80, 0xF0, // E
    0xF0, 0x80, 0xF0, 0x80, 0x80, // F
];

} // verus!
