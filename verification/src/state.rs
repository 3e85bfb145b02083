//! The mathematical model of the interpreter: a ghost [`State`] and the
//! spec-level transition functions that the executable operations are
//! proved to implement.

use vstd::prelude::*;
use crate::font::font_byte;

verus! {

/// Bytes of addressable memory.
pub const RAM_SIZE: usize = 4096;

/// Framebuffer width in pixels.
pub const SCREEN_WIDTH: usize = 64;

/// Framebuffer height in pixels.
pub const SCREEN_HEIGHT: usize = 32;

/// Number of general-purpose registers (V0..VF).
pub const NUM_REGISTERS: usize = 16;

/// Number of keys on the keypad.
pub const NUM_KEYS: usize = 16;

/// Address at which a loaded ROM begins, and the initial program counter.
pub const PROGRAM_START: usize = 0x200;

/// Address of the first byte of the built-in font table.
pub const FONT_START: usize = 0x050;

/// Length in bytes of the built-in font table.
pub const FONT_LEN: usize = 80;

/// The hardware variant the interpreter emulates. It is chosen at
/// construction and never changes; it alters the semantics of the shift,
/// jump-with-offset, logic-op and block-transfer opcodes.
#[derive(Clone, Copy, PartialEq, Eq, Structural, Debug)]
pub enum Version {
    Original,
    Schip,
    XoChip,
}

/// The ghost model of the whole interpreter state.
#[verifier::ext_equal]
pub ghost struct State {
    /// Addressable memory, `RAM_SIZE` bytes.
    pub ram: Seq<u8>,
    /// Program counter.
    pub pc: u16,
    /// Framebuffer, row-major, `SCREEN_WIDTH * SCREEN_HEIGHT` pixels.
    pub screen: Seq<bool>,
    /// Index register.
    pub i_reg: u16,
    /// General registers V0..VF.
    pub v: Seq<u8>,
    /// Call stack of return addresses.
    pub stack: Seq<u16>,
    /// Delay timer.
    pub delay_timer: u8,
    /// Sound timer.
    pub sound_timer: u8,
    /// Whether a ROM has been loaded; further loads are rejected.
    pub file_loaded: bool,
    /// Key state for the current frame.
    pub input: Seq<bool>,
    /// Key state snapshot from the previous frame.
    pub prev_input: Seq<bool>,
    /// Whether the last step changed the framebuffer.
    pub screen_updated: bool,
    /// The hardware variant, fixed at construction.
    pub version: Version,
}

/// The sizes that every reachable state keeps: fixed memory, framebuffer,
/// register file and key arrays.
pub open spec fn state_wf(s: State) -> bool {
    &&& s.ram.len() == RAM_SIZE
    &&& s.screen.len() == SCREEN_WIDTH * SCREEN_HEIGHT
    &&& s.v.len() == NUM_REGISTERS
    &&& s.input.len() == NUM_KEYS
    &&& s.prev_input.len() == NUM_KEYS
}

/// Memory at construction: all zero except the font table.
pub open spec fn init_ram() -> Seq<u8> {
    Seq::new(
        RAM_SIZE as nat,
        |i: int|
            if FONT_START <= i < FONT_START + FONT_LEN {
                font_byte(i - FONT_START)
            } else {
                0u8
            },
    )
}

/// The state a freshly constructed interpreter is in.
pub open spec fn init_state(version: Version) -> State {
    State {
        ram: init_ram(),
        pc: PROGRAM_START as u16,
        screen: Seq::new((SCREEN_WIDTH * SCREEN_HEIGHT) as nat, |i: int| false),
        i_reg: 0,
        v: Seq::new(NUM_REGISTERS as nat, |i: int| 0u8),
        stack: Seq::empty(),
        delay_timer: 0,
        sound_timer: 0,
        file_loaded: false,
        input: Seq::new(NUM_KEYS as nat, |i: int| false),
        prev_input: Seq::new(NUM_KEYS as nat, |i: int| false),
        screen_updated: false,
        version,
    }
}

/// Loading a ROM: copies the bytes to `PROGRAM_START` and latches the
/// one-shot flag; a second load is rejected and changes nothing.
pub open spec fn load_spec(s: State, rom: Seq<u8>) -> State {
    if s.file_loaded {
        s
    } else {
        State {
            ram: Seq::new(
                s.ram.len(),
                |j: int|
                    if PROGRAM_START <= j < PROGRAM_START + rom.len() {
                        rom[j - PROGRAM_START]
                    } else {
                        s.ram[j]
                    },
            ),
            file_loaded: true,
            ..s
        }
    }
}

/// One timer tick: both timers go down by one, saturating at zero;
/// nothing else changes.
pub open spec fn tick_spec(s: State) -> State {
    State {
        delay_timer: if s.delay_timer > 0 {
            (s.delay_timer - 1) as u8
        } else {
            0
        },
        sound_timer: if s.sound_timer > 0 {
            (s.sound_timer - 1) as u8
        } else {
            0
        },
        ..s
    }
}

/// The per-frame input snapshot: the previous-frame key state becomes a
/// copy of the current one.
pub open spec fn snapshot_spec(s: State) -> State {
    State { prev_input: s.input, ..s }
}

} // verus!
