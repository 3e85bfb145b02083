//! Spec-level semantics of one interpreter step: fetch, dispatch on the
//! decoded instruction, and the per-opcode state transitions, including
//! the sprite-draw/collision algorithm and the key-release wait.

use vstd::prelude::*;
use crate::decode::Instr;
use crate::decode::decode;
use crate::state::NUM_KEYS;
use crate::state::FONT_START;
use crate::state::RAM_SIZE;
use crate::state::SCREEN_HEIGHT;
use crate::state::SCREEN_WIDTH;
use crate::state::State;
use crate::state::Version;

verus! {

/// The 16-bit word at the program counter, big-endian.
pub open spec fn fetch(s: State) -> u16
    recommends
        s.pc + 1 < s.ram.len(),
{
    ((s.ram[s.pc as int] as u16) << 8) | (s.ram[s.pc as int + 1] as u16)
}

/// A state with the program counter moved past one more instruction.
pub open spec fn skip(s: State) -> State {
    State { pc: (s.pc + 2) as u16, ..s }
}

/// The result of a logic opcode: Vx receives `value`; on the Original
/// variant the flag register is additionally reset to zero.
pub open spec fn logic_result(s: State, x: u8, value: u8) -> State {
    let v1 = s.v.update(x as int, value);
    State { v: if s.version == Version::Original { v1.update(15, 0u8) } else { v1 }, ..s }
}

/// The result of a subtraction opcode: Vx receives `first - second`
/// modulo 256, and VF is 1 exactly when no borrow occurred.
pub open spec fn sub_result(s: State, x: u8, first: u8, second: u8) -> State {
    let value = if first >= second {
        (first - second) as u8
    } else {
        (first - second + 256) as u8
    };
    State {
        v: s.v.update(x as int, value).update(15, if first >= second { 1u8 } else { 0u8 }),
        ..s
    }
}

/// The index register after a block transfer: advanced past the moved
/// registers, except on the Super-CHIP variant.
pub open spec fn advance_i(s: State, x: u8) -> u16 {
    if s.version == Version::Schip {
        s.i_reg
    } else {
        (s.i_reg + x + 1) as u16
    }
}

/// Memory after storing the three decimal digits of `val` at `i`:
/// hundreds, tens, ones.
pub open spec fn bcd_ram(ram: Seq<u8>, i: int, val: u8) -> Seq<u8> {
    ram.update(i, (val / 100) as u8).update(i + 1, ((val / 10) % 10) as u8).update(
        i + 2,
        (val % 10) as u8,
    )
}

/// Memory after a block store: `count` registers written from `base` on,
/// everything else untouched.
pub open spec fn store_ram(ram: Seq<u8>, v: Seq<u8>, base: int, count: int) -> Seq<u8> {
    Seq::new(
        ram.len(),
        |j: int|
            if base <= j < base + count {
                v[j - base]
            } else {
                ram[j]
            },
    )
}

/// The register file after a block load: the first `count` registers read
/// from `base` on, the rest untouched.
pub open spec fn load_regs_seq(v: Seq<u8>, ram: Seq<u8>, base: int, count: int) -> Seq<u8> {
    Seq::new(
        v.len(),
        |j: int|
            if 0 <= j < count {
                ram[base + j]
            } else {
                v[j]
            },
    )
}

/// The highest key index below `n` whose state fell from held to released
/// between the two snapshots, as the wait-for-key opcode scans for it.
pub open spec fn last_release(cur: Seq<bool>, prev: Seq<bool>, n: int) -> Option<u8>
    decreases n,
{
    if n <= 0 {
        None
    } else if prev[n - 1] && !cur[n - 1] {
        Some((n - 1) as u8)
    } else {
        last_release(cur, prev, n - 1)
    }
}

/// Whether sprite row `row - img_y`, read from memory at the index
/// register, has its bit for column `col` set.
pub open spec fn sprite_bit(
    ram: Seq<u8>,
    i_reg: int,
    img_x: int,
    img_y: int,
    row: int,
    col: int,
) -> bool
    recommends
        img_y <= row,
        img_x <= col < img_x + 8,
        0 <= i_reg + (row - img_y) < ram.len(),
{
    (ram[i_reg + (row - img_y)] >> ((7 - (col - img_x)) as u8)) & 1 == 1
}

/// Whether the draw opcode flips the pixel at framebuffer index `ind`:
/// the pixel lies in the sprite's clipped rectangle and the sprite bit
/// for it is set.
pub open spec fn draw_hit(
    ram: Seq<u8>,
    i_reg: int,
    img_x: int,
    img_y: int,
    n: int,
    ind: int,
) -> bool {
    let row = ind / SCREEN_WIDTH as int;
    let col = ind % SCREEN_WIDTH as int;
    &&& img_y <= row < img_y + n
    &&& img_x <= col < img_x + 8
    &&& sprite_bit(ram, i_reg, img_x, img_y, row, col)
}

/// The framebuffer after a draw: every hit pixel toggles, all others keep
/// their value. The start position is already wrapped; the sprite clips
/// at the right and bottom edges.
pub open spec fn draw_screen(
    screen: Seq<bool>,
    ram: Seq<u8>,
    i_reg: int,
    img_x: int,
    img_y: int,
    n: int,
) -> Seq<bool> {
    Seq::new(
        screen.len(),
        |ind: int|
            if draw_hit(ram, i_reg, img_x, img_y, n, ind) {
                !screen[ind]
            } else {
                screen[ind]
            },
    )
}

/// Whether a draw turns any previously-set pixel off.
pub open spec fn draw_collision(
    screen: Seq<bool>,
    ram: Seq<u8>,
    i_reg: int,
    img_x: int,
    img_y: int,
    n: int,
) -> bool {
    exists|ind: int|
        0 <= ind < screen.len() && draw_hit(ram, i_reg, img_x, img_y, n, ind) && screen[ind]
}

/// How many sprite rows a draw at start row `img_y` actually touches:
/// `n`, clipped at the bottom edge.
pub open spec fn clip_rows(img_y: int, n: int) -> int {
    if img_y + n <= SCREEN_HEIGHT as int {
        n
    } else if img_y < SCREEN_HEIGHT as int {
        SCREEN_HEIGHT as int - img_y
    } else {
        0
    }
}

/// The state after the draw opcode: VF is reset before the start
/// coordinates are read, the hit pixels toggle, VF records a collision,
/// and the dirty flag is set.
pub open spec fn draw_state(s: State, x: u8, y: u8, n: u8) -> State {
    let v0 = s.v.update(15, 0u8);
    let img_x = (v0[x as int] % 64) as int;
    let img_y = (v0[y as int] % 64) as int;
    let coll = draw_collision(s.screen, s.ram, s.i_reg as int, img_x, img_y, n as int);
    State {
        screen: draw_screen(s.screen, s.ram, s.i_reg as int, img_x, img_y, n as int),
        v: v0.update(15, if coll { 1u8 } else { 0u8 }),
        screen_updated: true,
        ..s
    }
}

/// The effect of one decoded instruction on a state whose program counter
/// has already moved past it. `r` is the byte the random opcode masks.
pub open spec fn apply_instr(s: State, instr: Instr, r: u8) -> State {
    match instr {
        Instr::Cls => State {
            screen: Seq::new(s.screen.len(), |i: int| false),
            screen_updated: true,
            ..s
        },
        Instr::Ret => State { pc: s.stack.last(), stack: s.stack.drop_last(), ..s },
        Instr::Jump { nnn } => State { pc: nnn, ..s },
        Instr::Call { nnn } => State { stack: s.stack.push(s.pc), pc: nnn, ..s },
        Instr::SkipEqImm { x, nn } => if s.v[x as int] == nn {
            skip(s)
        } else {
            s
        },
        Instr::SkipNeImm { x, nn } => if s.v[x as int] != nn {
            skip(s)
        } else {
            s
        },
        Instr::SkipEqReg { x, y } => if s.v[x as int] == s.v[y as int] {
            skip(s)
        } else {
            s
        },
        Instr::SkipNeReg { x, y } => if s.v[x as int] != s.v[y as int] {
            skip(s)
        } else {
            s
        },
        Instr::SetImm { x, nn } => State { v: s.v.update(x as int, nn), ..s },
        Instr::AddImm { x, nn } => State {
            v: s.v.update(x as int, ((s.v[x as int] + nn) % 256) as u8),
            ..s
        },
        Instr::MovReg { x, y } => State { v: s.v.update(x as int, s.v[y as int]), ..s },
        Instr::OrReg { x, y } => logic_result(s, x, s.v[x as int] | s.v[y as int]),
        Instr::AndReg { x, y } => logic_result(s, x, s.v[x as int] & s.v[y as int]),
        Instr::XorReg { x, y } => logic_result(s, x, s.v[x as int] ^ s.v[y as int]),
        Instr::AddReg { x, y } => {
            let sum = s.v[x as int] + s.v[y as int];
            State {
                v: s.v.update(x as int, (sum % 256) as u8).update(
                    15,
                    if sum > 255 { 1u8 } else { 0u8 },
                ),
                ..s
            }
        },
        Instr::SubReg { x, y } => sub_result(s, x, s.v[x as int], s.v[y as int]),
        Instr::SubnReg { x, y } => sub_result(s, x, s.v[y as int], s.v[x as int]),
        Instr::ShrReg { x, y } => {
            let pre = if s.version == Version::Schip {
                s.v[x as int]
            } else {
                s.v[y as int]
            };
            State { v: s.v.update(x as int, pre >> 1).update(15, pre & 1), ..s }
        },
        Instr::ShlReg { x, y } => {
            let pre = if s.version == Version::Schip {
                s.v[x as int]
            } else {
                s.v[y as int]
            };
            State {
                v: s.v.update(x as int, pre << 1).update(
                    15,
                    if pre & 0x80 != 0 { 1u8 } else { 0u8 },
                ),
                ..s
            }
        },
        Instr::SetIndex { nnn } => State { i_reg: nnn, ..s },
        Instr::JumpOffset { x, nnn } => {
            let off = if s.version == Version::Schip {
                s.v[x as int]
            } else {
                s.v[0]
            };
            State { pc: (nnn + off) as u16, ..s }
        },
        Instr::RandMask { x, nn } => State { v: s.v.update(x as int, r & nn), ..s },
        Instr::Draw { x, y, n } => draw_state(s, x, y, n),
        Instr::SkipKey { x } => if s.input[s.v[x as int] as int] {
            skip(s)
        } else {
            s
        },
        Instr::SkipNoKey { x } => if !s.input[s.v[x as int] as int] {
            skip(s)
        } else {
            s
        },
        Instr::ReadDelay { x } => State { v: s.v.update(x as int, s.delay_timer), ..s },
        Instr::WaitKey { x } => match last_release(s.input, s.prev_input, NUM_KEYS as int) {
            Some(k) => State { v: s.v.update(x as int, k), ..s },
            None => State { pc: (s.pc - 2) as u16, ..s },
        },
        Instr::SetDelay { x } => State { delay_timer: s.v[x as int], ..s },
        Instr::SetSound { x } => State { sound_timer: s.v[x as int], ..s },
        Instr::AddIndex { x } => State { i_reg: (s.i_reg + s.v[x as int]) as u16, ..s },
        Instr::FontChar { x } => State {
            i_reg: (FONT_START + 5 * (s.v[x as int] & 0xF)) as u16,
            ..s
        },
        Instr::StoreBcd { x } => State { ram: bcd_ram(s.ram, s.i_reg as int, s.v[x as int]), ..s },
        Instr::StoreRegs { x } => State {
            ram: store_ram(s.ram, s.v, s.i_reg as int, x + 1),
            i_reg: advance_i(s, x),
            ..s
        },
        Instr::LoadRegs { x } => State {
            v: load_regs_seq(s.v, s.ram, s.i_reg as int, x + 1),
            i_reg: advance_i(s, x),
            ..s
        },
        Instr::Unknown => s,
    }
}

/// One full step: clear the dirty flag, fetch the word at the program
/// counter, advance the counter past it, then apply the decoded
/// instruction. `r` is the byte the random opcode masks.
pub open spec fn step_spec(s: State, r: u8) -> State {
    let instr = decode(fetch(s));
    let s1 = State { pc: (s.pc + 2) as u16, screen_updated: false, ..s };
    apply_instr(s1, instr, r)
}

/// The inputs on which a step is defined: the fetch stays in memory, and
/// the decoded instruction's own memory, stack and key accesses stay in
/// bounds. Violations are program defects the interpreter does not defend
/// against.
pub open spec fn step_ok(s: State) -> bool {
    &&& s.pc + 1 < RAM_SIZE
    &&& match decode(fetch(s)) {
        Instr::Ret => s.stack.len() > 0,
        Instr::SkipKey { x } => s.v[x as int] < NUM_KEYS,
        Instr::SkipNoKey { x } => s.v[x as int] < NUM_KEYS,
        Instr::AddIndex { x } => s.i_reg + s.v[x as int] <= u16::MAX,
        Instr::StoreBcd { x } => s.i_reg + 2 < RAM_SIZE,
        Instr::StoreRegs { x } => s.i_reg + x < RAM_SIZE,
        Instr::LoadRegs { x } => s.i_reg + x < RAM_SIZE,
        Instr::Draw { x, y, n } => {
            let rows = clip_rows((s.v.update(15, 0u8)[y as int] % 64) as int, n as int);
            rows > 0 ==> s.i_reg + rows <= RAM_SIZE
        },
        _ => true,
    }
}

} // verus!
