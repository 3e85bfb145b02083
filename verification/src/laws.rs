//! Laws of the interpreter: properties that relate several operations or
//! hold of every state, proved once and for all over the spec model.

use vstd::prelude::*;
use crate::decode::Instr;
use crate::decode::decode;
use crate::decode::lemma_field_bounds;
use crate::font::font_byte;
use crate::semantics::draw_collision;
use crate::semantics::draw_hit;
use crate::semantics::draw_screen;
use crate::semantics::fetch;
use crate::semantics::last_release;
use crate::semantics::step_ok;
use crate::semantics::step_spec;
use crate::state::FONT_LEN;
use crate::state::FONT_START;
use crate::state::NUM_KEYS;
use crate::state::PROGRAM_START;
use crate::state::RAM_SIZE;
use crate::state::State;
use crate::state::Version;
use crate::state::init_state;
use crate::state::load_spec;
use crate::state::state_wf;
use crate::state::tick_spec;

verus! {

/// Loading a ROM into a fresh interpreter puts exactly the ROM bytes at
/// the program-start offset, and every byte outside the ROM and the font
/// table stays zero.
pub proof fn lemma_rom_load(version: Version, rom: Seq<u8>)
    requires
        PROGRAM_START + rom.len() <= RAM_SIZE,
    ensures
        load_spec(init_state(version), rom).ram.len() == RAM_SIZE,
        forall|j: int|
            0 <= j < rom.len() ==> load_spec(init_state(version), rom).ram[PROGRAM_START + j]
                == rom[j],
        forall|j: int|
            0 <= j < RAM_SIZE && !(PROGRAM_START <= j < PROGRAM_START + rom.len()) && !(FONT_START
                <= j < FONT_START + FONT_LEN) ==> load_spec(init_state(version), rom).ram[j] == 0,
{
}

/// On memory that came from construction and a ROM load, the font opcode
/// points the index register at `FONT_START + 5 * digit` for the low
/// nibble of Vx, and the five bytes there are that digit's glyph rows.
pub proof fn lemma_font_glyph(version: Version, rom: Seq<u8>, s: State, r: u8, x: u8)
    requires
        PROGRAM_START + rom.len() <= RAM_SIZE,
        s.ram == load_spec(init_state(version), rom).ram,
        state_wf(s),
        step_ok(s),
        decode(fetch(s)) == (Instr::FontChar { x }),
        x < 16,
    ensures
        step_spec(s, r).i_reg == FONT_START + 5 * (s.v[x as int] & 0xF),
        forall|k: int|
            0 <= k < 5 ==> #[trigger] s.ram[FONT_START + 5 * (s.v[x as int] & 0xF) + k]
                == font_byte(5 * ((s.v[x as int] & 0xF) as int) + k),
{
    let vx = s.v[x as int];
    let nib = vx & 0xF;
    assert(vx & 0xF < 16) by (bit_vector);
    assert forall|k: int| 0 <= k < 5 implies #[trigger] s.ram[FONT_START + 5 * (nib as int) + k]
        == font_byte(5 * (nib as int) + k) by {
        assert(FONT_START <= FONT_START + 5 * (nib as int) + k < FONT_START + FONT_LEN);
    }
}

/// Drawing the same sprite at the same position twice restores the
/// framebuffer, and the second draw reports a collision exactly when some
/// sprite bit fell on a pixel the first draw had turned on.
pub proof fn lemma_draw_round_trip(
    screen: Seq<bool>,
    ram: Seq<u8>,
    i_reg: int,
    img_x: int,
    img_y: int,
    n: int,
)
    ensures
        draw_screen(
            draw_screen(screen, ram, i_reg, img_x, img_y, n),
            ram,
            i_reg,
            img_x,
            img_y,
            n,
        ) == screen,
        draw_collision(
            draw_screen(screen, ram, i_reg, img_x, img_y, n),
            ram,
            i_reg,
            img_x,
            img_y,
            n,
        ) == exists|ind: int|
            0 <= ind < screen.len() && draw_hit(ram, i_reg, img_x, img_y, n, ind)
                && !screen[ind],
{
    let s1 = draw_screen(screen, ram, i_reg, img_x, img_y, n);
    assert(draw_screen(s1, ram, i_reg, img_x, img_y, n) =~= screen);
    if draw_collision(s1, ram, i_reg, img_x, img_y, n) {
        let i0 = choose|ind: int|
            0 <= ind < s1.len() && draw_hit(ram, i_reg, img_x, img_y, n, ind) && s1[ind];
        assert(0 <= i0 < screen.len() && draw_hit(ram, i_reg, img_x, img_y, n, i0)
            && !screen[i0]);
    }
    if exists|ind: int|
        0 <= ind < screen.len() && draw_hit(ram, i_reg, img_x, img_y, n, ind) && !screen[ind] {
        let i0 = choose|ind: int|
            0 <= ind < screen.len() && draw_hit(ram, i_reg, img_x, img_y, n, ind) && !screen[ind];
        assert(0 <= i0 < s1.len() && draw_hit(ram, i_reg, img_x, img_y, n, i0) && s1[i0]);
    }
}

/// The shift-right opcode reads different operands across hardware
/// variants: the Super-CHIP variant shifts Vx itself, the others first
/// copy Vy into Vx — so the same register file can leave different
/// values in Vx.
pub proof fn lemma_shift_quirk(s: State, r: u8, x: u8, y: u8)
    requires
        state_wf(s),
        step_ok(s),
        decode(fetch(s)) == (Instr::ShrReg { x, y }),
        x < 15,
    ensures
        s.version == Version::Schip ==> step_spec(s, r).v[x as int] == s.v[x as int] >> 1,
        s.version != Version::Schip ==> step_spec(s, r).v[x as int] == s.v[y as int] >> 1,
{
    lemma_field_bounds(fetch(s));
}

/// Decrementing the timers when both are already zero changes nothing.
pub proof fn lemma_timers_idempotent(s: State)
    requires
        s.delay_timer == 0,
        s.sound_timer == 0,
    ensures
        tick_spec(s) == s,
{
    assert(tick_spec(s) =~= s);
}

/// The key-release scan finds nothing when no key fell between the two
/// snapshots.
proof fn lemma_no_release(cur: Seq<bool>, prev: Seq<bool>, n: int)
    requires
        forall|k: int| 0 <= k < n ==> !(prev[k] && !cur[k]),
    ensures
        last_release(cur, prev, n) is None,
    decreases n,
{
    if n > 0 {
        lemma_no_release(cur, prev, n - 1);
    }
}

/// When no key fell between the two snapshots, the wait-for-key opcode
/// re-arms: the program counter and the registers end up where they
/// started, so the same instruction runs again on the next step.
pub proof fn lemma_wait_key_rearms(s: State, r: u8, x: u8)
    requires
        state_wf(s),
        step_ok(s),
        decode(fetch(s)) == (Instr::WaitKey { x }),
        forall|k: int| 0 <= k < NUM_KEYS ==> !(s.prev_input[k] && !s.input[k]),
    ensures
        step_spec(s, r).pc == s.pc,
        step_spec(s, r).v == s.v,
{
    lemma_no_release(s.input, s.prev_input, NUM_KEYS as int);
}

} // verus!
