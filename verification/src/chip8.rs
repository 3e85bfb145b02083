//! The executable interpreter. Every operation is proved to implement the
//! corresponding spec-level transition from [`crate::state`] and
//! [`crate::semantics`].

use vstd::prelude::*;
use vstd::arithmetic::div_mod::lemma_fundamental_div_mod_converse;
use crate::font::font_byte;
use crate::decode::Instr;
use crate::decode::decode_op;
use crate::decode::lemma_field_bounds;
use crate::semantics::clip_rows;
use crate::semantics::draw_collision;
use crate::semantics::draw_hit;
use crate::semantics::draw_screen;
use crate::semantics::fetch;
use crate::semantics::step_ok;
use crate::semantics::step_spec;
use crate::font::font_byte_at;
use crate::state::FONT_LEN;
use crate::state::FONT_START;
use crate::state::NUM_KEYS;
use crate::state::NUM_REGISTERS;
use crate::state::PROGRAM_START;
use crate::state::RAM_SIZE;
use crate::state::SCREEN_HEIGHT;
use crate::state::SCREEN_WIDTH;
use crate::state::State;
use crate::state::Version;
use crate::state::init_ram;
use crate::state::init_state;
use crate::state::load_spec;
use crate::state::snapshot_spec;
use crate::state::state_wf;
use crate::state::tick_spec;

verus! {

/// The interpreter: memory, registers, call stack, framebuffer, timers,
/// input latch and the hardware variant, all owned by one driver.
///
/// The fields are public so that the driver can feed key states and read
/// the framebuffer, and tests can stage states; the operations require
/// [`Chip8::wf`], which fixes the container sizes.
pub struct Chip8 {
    /// Addressable memory, `RAM_SIZE` bytes.
    pub ram: Vec<u8>,
    /// Program counter.
    pub pc: u16,
    /// Framebuffer, row-major, `SCREEN_WIDTH * SCREEN_HEIGHT` pixels.
    pub screen_state: Vec<bool>,
    /// Index register.
    pub i_reg: u16,
    /// General registers V0..VF.
    pub v_reg: Vec<u8>,
    /// Call stack of return addresses.
    pub stack: Vec<u16>,
    /// Delay timer.
    pub delay_timer: u8,
    /// Sound timer.
    pub sound_timer: u8,
    /// Whether a ROM has been loaded; further loads are rejected.
    pub file_loaded: bool,
    /// Key state for the current frame, driver-owned.
    pub input_data: Vec<bool>,
    /// Key state snapshot from the previous frame.
    pub prev_input_data: Vec<bool>,
    /// Whether the last step changed the framebuffer.
    pub screen_updated: bool,
    /// The hardware variant, fixed at construction.
    pub version: Version,
}

impl View for Chip8 {
    type V = State;

    open spec fn view(&self) -> State {
        State {
            ram: self.ram@,
            pc: self.pc,
            screen: self.screen_state@,
            i_reg: self.i_reg,
            v: self.v_reg@,
            stack: self.stack@,
            delay_timer: self.delay_timer,
            sound_timer: self.sound_timer,
            file_loaded: self.file_loaded,
            input: self.input_data@,
            prev_input: self.prev_input_data@,
            screen_updated: self.screen_updated,
            version: self.version,
        }
    }
}

/// A vector of `len` zero bytes.
fn zero_bytes(len: usize) -> (v: Vec<u8>)
    ensures
        v@.len() == len,
        forall|j: int| 0 <= j < len ==> v@[j] == 0u8,
{
    let mut v: Vec<u8> = Vec::new();
    let mut i: usize = 0;
    while i < len
        invariant
            i <= len,
            v@.len() == i,
            forall|j: int| 0 <= j < i ==> v@[j] == 0u8,
        decreases len - i,
    {
        v.push(0);
        i += 1;
    }
    v
}

/// A vector of `len` cleared flags.
fn false_flags(len: usize) -> (v: Vec<bool>)
    ensures
        v@.len() == len,
        forall|j: int| 0 <= j < len ==> v@[j] == false,
{
    let mut v: Vec<bool> = Vec::new();
    let mut i: usize = 0;
    while i < len
        invariant
            i <= len,
            v@.len() == i,
            forall|j: int| 0 <= j < i ==> v@[j] == false,
        decreases len - i,
    {
        v.push(false);
        i += 1;
    }
    v
}

/// Copies a ROM image into memory at the program-start offset.
fn copy_rom(ram: &mut Vec<u8>, rom: &Vec<u8>)
    requires
        old(ram)@.len() == RAM_SIZE,
        PROGRAM_START + rom@.len() <= RAM_SIZE,
    ensures
        final(ram)@.len() == RAM_SIZE,
        forall|j: int|
            0 <= j < RAM_SIZE ==> final(ram)@[j] == (if PROGRAM_START <= j < PROGRAM_START
                + rom@.len() {
                rom@[j - PROGRAM_START]
            } else {
                old(ram)@[j]
            }),
{
    let mut i: usize = 0;
    while i < rom.len()
        invariant
            i <= rom@.len(),
            ram@.len() == RAM_SIZE,
            PROGRAM_START + rom@.len() <= RAM_SIZE,
            forall|j: int|
                0 <= j < RAM_SIZE ==> ram@[j] == (if PROGRAM_START <= j < PROGRAM_START + i {
                    rom@[j - PROGRAM_START]
                } else {
                    old(ram)@[j]
                }),
        decreases rom@.len() - i,
    {
        ram[PROGRAM_START + i] = rom[i];
        i += 1;
    }
}

/// Copies the current key state over the previous-frame snapshot.
fn copy_keys(dst: &mut Vec<bool>, src: &Vec<bool>)
    requires
        old(dst)@.len() == NUM_KEYS,
        src@.len() == NUM_KEYS,
    ensures
        final(dst)@ == src@,
{
    let mut i: usize = 0;
    while i < NUM_KEYS
        invariant
            i <= NUM_KEYS,
            dst@.len() == NUM_KEYS,
            src@.len() == NUM_KEYS,
            forall|j: int| 0 <= j < i ==> dst@[j] == src@[j],
        decreases NUM_KEYS - i,
    {
        dst[i] = src[i];
        i += 1;
    }
    proof {
        assert(dst@ =~= src@);
    }
}

/// Relies on `rand::random`: one byte from the thread-local generator.
/// Nothing is assumed of its value; callers state what holds of every
/// outcome.
#[verifier::external_body]
fn random_byte() -> u8 {
    rand::random::<u8>()
}

/// Clears every pixel of the framebuffer.
fn fill_false(screen: &mut Vec<bool>)
    ensures
        final(screen)@.len() == old(screen)@.len(),
        forall|j: int| 0 <= j < final(screen)@.len() ==> final(screen)@[j] == false,
{
    let mut i: usize = 0;
    let len = screen.len();
    while i < len
        invariant
            i <= len,
            screen@.len() == len,
            forall|j: int| 0 <= j < i ==> screen@[j] == false,
        decreases len - i,
    {
        screen[i] = false;
        i += 1;
    }
}

/// Writes registers `0..count` into memory starting at `base`.
fn store_span(ram: &mut Vec<u8>, v: &Vec<u8>, base: usize, count: usize)
    requires
        base + count <= old(ram)@.len(),
        count <= v@.len(),
    ensures
        final(ram)@ == crate::semantics::store_ram(old(ram)@, v@, base as int, count as int),
{
    let ram_len: usize = ram.len();
    let mut i: usize = 0;
    while i < count
        invariant
            i <= count,
            base + count <= ram@.len(),
            count <= v@.len(),
            ram@.len() == old(ram)@.len(),
            ram@.len() == ram_len,
            forall|j: int|
                0 <= j < ram@.len() ==> ram@[j] == (if base <= j < base + i {
                    v@[j - base]
                } else {
                    old(ram)@[j]
                }),
        decreases count - i,
    {
        ram[base + i] = v[i];
        i += 1;
    }
    proof {
        assert(ram@ =~= crate::semantics::store_ram(old(ram)@, v@, base as int, count as int));
    }
}

/// Reads registers `0..count` from memory starting at `base`.
fn load_span(v: &mut Vec<u8>, ram: &Vec<u8>, base: usize, count: usize)
    requires
        base + count <= ram@.len(),
        count <= old(v)@.len(),
    ensures
        final(v)@ == crate::semantics::load_regs_seq(old(v)@, ram@, base as int, count as int),
{
    let ram_len: usize = ram.len();
    let mut i: usize = 0;
    while i < count
        invariant
            i <= count,
            base + count <= ram@.len(),
            ram@.len() == ram_len,
            count <= v@.len(),
            v@.len() == old(v)@.len(),
            forall|j: int|
                0 <= j < v@.len() ==> v@[j] == (if 0 <= j < i {
                    ram@[base + j]
                } else {
                    old(v)@[j]
                }),
        decreases count - i,
    {
        v[i] = ram[base + i];
        i += 1;
    }
    proof {
        assert(v@ =~= crate::semantics::load_regs_seq(old(v)@, ram@, base as int, count as int));
    }
}

/// Draws one 8-pixel-wide, `n`-row sprite onto the framebuffer: every
/// sprite bit toggles its pixel; rows and columns past the screen edges
/// are clipped. Reports whether any set pixel was turned off.
fn draw_sprite(
    screen: &mut Vec<bool>,
    ram: &Vec<u8>,
    i_reg: u16,
    img_x: u8,
    img_y: u8,
    n: u8,
) -> (coll: bool)
    requires
        old(screen)@.len() == SCREEN_WIDTH * SCREEN_HEIGHT,
        ram@.len() == RAM_SIZE,
        img_x < 64,
        img_y < 64,
        n < 16,
        clip_rows(img_y as int, n as int) > 0 ==> i_reg + clip_rows(img_y as int, n as int)
            <= RAM_SIZE,
    ensures
        final(screen)@ == draw_screen(
            old(screen)@,
            ram@,
            i_reg as int,
            img_x as int,
            img_y as int,
            n as int,
        ),
        coll == draw_collision(
            old(screen)@,
            ram@,
            i_reg as int,
            img_x as int,
            img_y as int,
            n as int,
        ),
{
    let right_end: u8 = if img_y + n < 32 {
        img_y + n
    } else {
        32
    };
    let bottom_end: u8 = if img_x + 8 < 64 {
        img_x + 8
    } else {
        64
    };
    let mut coll = false;
    let mut row: u8 = img_y;
    while row < right_end
        invariant
            screen@.len() == SCREEN_WIDTH * SCREEN_HEIGHT,
            ram@.len() == RAM_SIZE,
            img_x < 64,
            img_y < 64,
            n < 16,
            img_y <= row <= 64,
            right_end as int == if img_y + n <= 32 { img_y + n } else { 32int },
            bottom_end as int == if img_x + 8 <= 64 { img_x + 8 } else { 64int },
            clip_rows(img_y as int, n as int) > 0 ==> i_reg + clip_rows(img_y as int, n as int)
                <= RAM_SIZE,
            forall|ind: int|
                0 <= ind < screen@.len() ==> screen@[ind] == (if ind / 64 < row && draw_hit(
                    ram@,
                    i_reg as int,
                    img_x as int,
                    img_y as int,
                    n as int,
                    ind,
                ) {
                    !old(screen)@[ind]
                } else {
                    old(screen)@[ind]
                }),
            coll == exists|ind: int|
                0 <= ind < screen@.len() && ind / 64 < row && draw_hit(
                    ram@,
                    i_reg as int,
                    img_x as int,
                    img_y as int,
                    n as int,
                    ind,
                ) && old(screen)@[ind],
        decreases right_end - row,
    {
        proof {
            assert(right_end - img_y <= clip_rows(img_y as int, n as int));
        }
        let offset = (row - img_y) as usize;
        let row_data: u8 = ram[i_reg as usize + offset];
        let mut col: u8 = img_x;
        while col < bottom_end
            invariant
                screen@.len() == SCREEN_WIDTH * SCREEN_HEIGHT,
                ram@.len() == RAM_SIZE,
                img_x < 64,
                img_y < 64,
                n < 16,
                img_y <= row < right_end,
                img_x <= col <= 64,
                right_end as int == if img_y + n <= 32 { img_y + n } else { 32int },
                bottom_end as int == if img_x + 8 <= 64 { img_x + 8 } else { 64int },
                row_data == ram@[i_reg + (row - img_y)],
                forall|ind: int|
                    0 <= ind < screen@.len() ==> screen@[ind] == (if (ind / 64 < row || (ind / 64
                        == row && ind % 64 < col)) && draw_hit(
                        ram@,
                        i_reg as int,
                        img_x as int,
                        img_y as int,
                        n as int,
                        ind,
                    ) {
                        !old(screen)@[ind]
                    } else {
                        old(screen)@[ind]
                    }),
                coll == exists|ind: int|
                    0 <= ind < screen@.len() && (ind / 64 < row || (ind / 64 == row && ind % 64
                        < col)) && draw_hit(
                        ram@,
                        i_reg as int,
                        img_x as int,
                        img_y as int,
                        n as int,
                        ind,
                    ) && old(screen)@[ind],
            decreases bottom_end - col,
        {
            let shift: u8 = 7 - (col - img_x);
            let ind: usize = row as usize * 64 + col as usize;
            proof {
                lemma_fundamental_div_mod_converse(ind as int, 64, row as int, col as int);
            }
            if (row_data >> shift) & 1 == 1 {
                proof {
                    assert(draw_hit(
                        ram@,
                        i_reg as int,
                        img_x as int,
                        img_y as int,
                        n as int,
                        ind as int,
                    ));
                }
                if screen[ind] {
                    screen[ind] = false;
                    coll = true;
                } else {
                    screen[ind] = true;
                }
            } else {
                proof {
                    assert(!draw_hit(
                        ram@,
                        i_reg as int,
                        img_x as int,
                        img_y as int,
                        n as int,
                        ind as int,
                    ));
                }
            }
            col += 1;
        }
        proof {
            assert(forall|ind: int|
                0 <= ind < screen@.len() && #[trigger] draw_hit(
                    ram@,
                    i_reg as int,
                    img_x as int,
                    img_y as int,
                    n as int,
                    ind,
                ) && ind / 64 == row ==> ind % 64 < bottom_end);
        }
        row += 1;
    }
    proof {
        assert(forall|ind: int|
            0 <= ind < screen@.len() && #[trigger] draw_hit(
                ram@,
                i_reg as int,
                img_x as int,
                img_y as int,
                n as int,
                ind,
            ) ==> ind / 64 < row) by {
            assert(forall|ind: int| 0 <= ind < 2048 ==> #[trigger] (ind / 64) < 32);
        }
        assert(screen@ =~= draw_screen(
            old(screen)@,
            ram@,
            i_reg as int,
            img_x as int,
            img_y as int,
            n as int,
        ));
        if draw_collision(old(screen)@, ram@, i_reg as int, img_x as int, img_y as int, n as int) {
            let ind0 = choose|ind: int|
                0 <= ind < old(screen)@.len() && draw_hit(
                    ram@,
                    i_reg as int,
                    img_x as int,
                    img_y as int,
                    n as int,
                    ind,
                ) && old(screen)@[ind];
            assert(ind0 / 64 < row);
            assert(coll);
        }
    }
    coll
}

/// Scans the two key snapshots for the last falling edge, as the
/// wait-for-key opcode does.
fn find_release(cur: &Vec<bool>, prev: &Vec<bool>) -> (res: Option<u8>)
    requires
        cur@.len() == NUM_KEYS,
        prev@.len() == NUM_KEYS,
    ensures
        res == crate::semantics::last_release(cur@, prev@, NUM_KEYS as int),
{
    let mut res: Option<u8> = None;
    let mut i: usize = 0;
    while i < NUM_KEYS
        invariant
            i <= NUM_KEYS,
            cur@.len() == NUM_KEYS,
            prev@.len() == NUM_KEYS,
            res == crate::semantics::last_release(cur@, prev@, i as int),
        decreases NUM_KEYS - i,
    {
        if prev[i] && !cur[i] {
            res = Some(i as u8);
        }
        i += 1;
    }
    res
}

impl Chip8 {
    /// The container sizes every operation relies on.
    pub open spec fn wf(&self) -> bool {
        state_wf(self@)
    }

    /// A fresh interpreter for the given hardware variant: everything
    /// zeroed, the font table written at its fixed address, the program
    /// counter at the program-start offset.
    pub fn new(version: Version) -> (c: Chip8)
        ensures
            c.wf(),
            c@ == init_state(version),
    {
        let mut ram = zero_bytes(RAM_SIZE);
        let mut k: usize = 0;
        while k < FONT_LEN
            invariant
                k <= FONT_LEN,
                ram@.len() == RAM_SIZE,
                forall|j: int|
                    0 <= j < RAM_SIZE ==> ram@[j] == (if FONT_START <= j < FONT_START + k {
                        font_byte(j - FONT_START)
                    } else {
                        0u8
                    }),
            decreases FONT_LEN - k,
        {
            ram[FONT_START + k] = font_byte_at(k);
            k += 1;
        }
        let c = Chip8 {
            ram,
            pc: PROGRAM_START as u16,
            screen_state: false_flags(SCREEN_WIDTH * SCREEN_HEIGHT),
            i_reg: 0,
            v_reg: zero_bytes(NUM_REGISTERS),
            stack: Vec::new(),
            delay_timer: 0,
            sound_timer: 0,
            file_loaded: false,
            input_data: false_flags(NUM_KEYS),
            prev_input_data: false_flags(NUM_KEYS),
            screen_updated: false,
            version,
        };
        proof {
            assert(c@.ram =~= init_ram());
            assert(c@.screen =~= init_state(version).screen);
            assert(c@.v =~= init_state(version).v);
            assert(c@.input =~= init_state(version).input);
            assert(c@.prev_input =~= init_state(version).prev_input);
            assert(c@ =~= init_state(version));
        }
        c
    }

    /// Loads a ROM image at the program-start offset and latches the
    /// one-shot flag; on an instance that already holds one, a no-op.
    pub fn load_rom(&mut self, rom: &Vec<u8>)
        requires
            old(self).wf(),
            !old(self).file_loaded ==> PROGRAM_START + rom@.len() <= RAM_SIZE,
        ensures
            final(self).wf(),
            final(self)@ == load_spec(old(self)@, rom@),
    {
        if !self.file_loaded {
            copy_rom(&mut self.ram, rom);
            self.file_loaded = true;
            proof {
                assert(self@.ram =~= load_spec(old(self)@, rom@).ram);
                assert(self@ =~= load_spec(old(self)@, rom@));
            }
        }
    }

    /// Decrements both timers once, saturating at zero; nothing else
    /// changes.
    pub fn decrement_timers(&mut self)
        ensures
            final(self)@ == tick_spec(old(self)@),
    {
        if self.delay_timer > 0 {
            self.delay_timer = self.delay_timer - 1;
        }
        if self.sound_timer > 0 {
            self.sound_timer = self.sound_timer - 1;
        }
        proof {
            assert(self@ =~= tick_spec(old(self)@));
        }
    }

    /// Decides at run time whether a step is defined on the current
    /// state, so that an unverified driver can guard its [`Chip8::step`]
    /// calls instead of trusting the program it runs.
    pub fn can_step(&self) -> (b: bool)
        requires
            self.wf(),
        ensures
            b == step_ok(self@),
    {
        if self.pc >= (RAM_SIZE - 1) as u16 {
            return false;
        }
        let hi = self.ram[self.pc as usize];
        let lo = self.ram[(self.pc + 1) as usize];
        let op: u16 = ((hi as u16) << 8) | (lo as u16);
        proof {
            assert(op == fetch(self@));
            lemma_field_bounds(op);
        }
        let instr = decode_op(op);
        match instr {
            Instr::Ret => self.stack.len() > 0,
            Instr::SkipKey { x } => (self.v_reg[x as usize] as usize) < NUM_KEYS,
            Instr::SkipNoKey { x } => (self.v_reg[x as usize] as usize) < NUM_KEYS,
            Instr::AddIndex { x } => self.v_reg[x as usize] as u16 <= u16::MAX - self.i_reg,
            Instr::StoreBcd { .. } => (self.i_reg as usize) + 2 < RAM_SIZE,
            Instr::StoreRegs { x } => (self.i_reg as usize) + (x as usize) < RAM_SIZE,
            Instr::LoadRegs { x } => (self.i_reg as usize) + (x as usize) < RAM_SIZE,
            Instr::Draw { x, y, n } => {
                let img_y = if y == 15 {
                    0
                } else {
                    self.v_reg[y as usize] % 64
                };
                let rows: u16 = if img_y as u16 + n as u16 <= 32 {
                    n as u16
                } else if img_y < 32 {
                    32 - img_y as u16
                } else {
                    0
                };
                rows == 0 || (self.i_reg as usize) + (rows as usize) <= RAM_SIZE
            },
            _ => true,
        }
    }

    /// Advances the interpreter by exactly one instruction, with `r` as
    /// the byte the random opcode masks. Implements [`step_spec`].
    pub fn step_with_random(&mut self, r: u8)
        requires
            old(self).wf(),
            step_ok(old(self)@),
        ensures
            final(self).wf(),
            final(self)@ == step_spec(old(self)@, r),
    {
        self.screen_updated = false;
        let hi = self.ram[self.pc as usize];
        let lo = self.ram[(self.pc + 1) as usize];
        let op: u16 = ((hi as u16) << 8) | (lo as u16);
        proof {
            assert(op == fetch(old(self)@));
            lemma_field_bounds(op);
        }
        let instr = decode_op(op);
        self.pc = self.pc + 2;
        match instr {
            Instr::Cls => {
                fill_false(&mut self.screen_state);
                self.screen_updated = true;
                proof {
                    assert(self@.screen =~= step_spec(old(self)@, r).screen);
                    assert(self@ =~= step_spec(old(self)@, r));
                }
            },
            Instr::Ret => {
                if let Some(addr) = self.stack.pop() {
                    self.pc = addr;
                }
                proof {
                    assert(self@ =~= step_spec(old(self)@, r));
                }
            },
            Instr::Jump { nnn } => {
                self.pc = nnn;
                proof {
                    assert(self@ =~= step_spec(old(self)@, r));
                }
            },
            Instr::Call { nnn } => {
                self.stack.push(self.pc);
                self.pc = nnn;
                proof {
                    assert(self@ =~= step_spec(old(self)@, r));
                }
            },
            Instr::SkipEqImm { x, nn } => {
                if self.v_reg[x as usize] == nn {
                    self.pc = self.pc + 2;
                }
                proof {
                    assert(self@ =~= step_spec(old(self)@, r));
                }
            },
            Instr::SkipNeImm { x, nn } => {
                if self.v_reg[x as usize] != nn {
                    self.pc = self.pc + 2;
                }
                proof {
                    assert(self@ =~= step_spec(old(self)@, r));
                }
            },
            Instr::SkipEqReg { x, y } => {
                if self.v_reg[x as usize] == self.v_reg[y as usize] {
                    self.pc = self.pc + 2;
                }
                proof {
                    assert(self@ =~= step_spec(old(self)@, r));
                }
            },
            Instr::SkipNeReg { x, y } => {
                if self.v_reg[x as usize] != self.v_reg[y as usize] {
                    self.pc = self.pc + 2;
                }
                proof {
                    assert(self@ =~= step_spec(old(self)@, r));
                }
            },
            Instr::SetImm { x, nn } => {
                self.v_reg[x as usize] = nn;
                proof {
                    assert(self@ =~= step_spec(old(self)@, r));
                }
            },
            Instr::AddImm { x, nn } => {
                let sum: u16 = self.v_reg[x as usize] as u16 + nn as u16;
                self.v_reg[x as usize] = (sum % 256) as u8;
                proof {
                    assert(self@ =~= step_spec(old(self)@, r));
                }
            },
            Instr::MovReg { x, y } => {
                self.v_reg[x as usize] = self.v_reg[y as usize];
                proof {
                    assert(self@ =~= step_spec(old(self)@, r));
                }
            },
            Instr::OrReg { x, y } => {
                self.v_reg[x as usize] = self.v_reg[x as usize] | self.v_reg[y as usize];
                if self.version == Version::Original {
                    self.v_reg[15] = 0;
                }
                proof {
                    assert(self@ =~= step_spec(old(self)@, r));
                }
            },
            Instr::AndReg { x, y } => {
                self.v_reg[x as usize] = self.v_reg[x as usize] & self.v_reg[y as usize];
                if self.version == Version::Original {
                    self.v_reg[15] = 0;
                }
                proof {
                    assert(self@ =~= step_spec(old(self)@, r));
                }
            },
            Instr::XorReg { x, y } => {
                self.v_reg[x as usize] = self.v_reg[x as usize] ^ self.v_reg[y as usize];
                if self.version == Version::Original {
                    self.v_reg[15] = 0;
                }
                proof {
                    assert(self@ =~= step_spec(old(self)@, r));
                }
            },
            Instr::AddReg { x, y } => {
                let sum: u16 = self.v_reg[x as usize] as u16 + self.v_reg[y as usize] as u16;
                self.v_reg[x as usize] = (sum % 256) as u8;
                self.v_reg[15] = if sum > 255 {
                    1
                } else {
                    0
                };
                proof {
                    assert(self@ =~= step_spec(old(self)@, r));
                }
            },
            Instr::SubReg { x, y } => {
                let first = self.v_reg[x as usize];
                let second = self.v_reg[y as usize];
                self.v_reg[x as usize] = if first >= second {
                    first - second
                } else {
                    (first as u16 + 256 - second as u16) as u8
                };
                self.v_reg[15] = if first >= second {
                    1
                } else {
                    0
                };
                proof {
                    assert(self@ =~= step_spec(old(self)@, r));
                }
            },
            Instr::SubnReg { x, y } => {
                let first = self.v_reg[y as usize];
                let second = self.v_reg[x as usize];
                self.v_reg[x as usize] = if first >= second {
                    first - second
                } else {
                    (first as u16 + 256 - second as u16) as u8
                };
                self.v_reg[15] = if first >= second {
                    1
                } else {
                    0
                };
                proof {
                    assert(self@ =~= step_spec(old(self)@, r));
                }
            },
            Instr::ShrReg { x, y } => {
                let pre = if self.version == Version::Schip {
                    self.v_reg[x as usize]
                } else {
                    self.v_reg[y as usize]
                };
                self.v_reg[x as usize] = pre >> 1;
                self.v_reg[15] = pre & 1;
                proof {
                    assert(self@ =~= step_spec(old(self)@, r));
                }
            },
            Instr::ShlReg { x, y } => {
                let pre = if self.version == Version::Schip {
                    self.v_reg[x as usize]
                } else {
                    self.v_reg[y as usize]
                };
                self.v_reg[x as usize] = pre << 1;
                self.v_reg[15] = if pre & 0x80 != 0 {
                    1
                } else {
                    0
                };
                proof {
                    assert(self@ =~= step_spec(old(self)@, r));
                }
            },
            Instr::SetIndex { nnn } => {
                self.i_reg = nnn;
                proof {
                    assert(self@ =~= step_spec(old(self)@, r));
                }
            },
            Instr::JumpOffset { x, nnn } => {
                let off = if self.version == Version::Schip {
                    self.v_reg[x as usize]
                } else {
                    self.v_reg[0]
                };
                self.pc = nnn + off as u16;
                proof {
                    assert(self@ =~= step_spec(old(self)@, r));
                }
            },
            Instr::RandMask { x, nn } => {
                self.v_reg[x as usize] = r & nn;
                proof {
                    assert(self@ =~= step_spec(old(self)@, r));
                }
            },
            Instr::Draw { x, y, n } => {
                self.v_reg[15] = 0;
                let img_x = self.v_reg[x as usize] % 64;
                let img_y = self.v_reg[y as usize] % 64;
                let c = draw_sprite(&mut self.screen_state, &self.ram, self.i_reg, img_x, img_y, n);
                self.v_reg[15] = if c {
                    1
                } else {
                    0
                };
                self.screen_updated = true;
                proof {
                    assert(self@ =~= step_spec(old(self)@, r));
                }
            },
            Instr::SkipKey { x } => {
                if self.input_data[self.v_reg[x as usize] as usize] {
                    self.pc = self.pc + 2;
                }
                proof {
                    assert(self@ =~= step_spec(old(self)@, r));
                }
            },
            Instr::SkipNoKey { x } => {
                if !self.input_data[self.v_reg[x as usize] as usize] {
                    self.pc = self.pc + 2;
                }
                proof {
                    assert(self@ =~= step_spec(old(self)@, r));
                }
            },
            Instr::ReadDelay { x } => {
                self.v_reg[x as usize] = self.delay_timer;
                proof {
                    assert(self@ =~= step_spec(old(self)@, r));
                }
            },
            Instr::WaitKey { x } => {
                match find_release(&self.input_data, &self.prev_input_data) {
                    Some(k) => {
                        self.v_reg[x as usize] = k;
                    },
                    None => {
                        self.pc = self.pc - 2;
                    },
                }
                proof {
                    assert(self@ =~= step_spec(old(self)@, r));
                }
            },
            Instr::SetDelay { x } => {
                self.delay_timer = self.v_reg[x as usize];
                proof {
                    assert(self@ =~= step_spec(old(self)@, r));
                }
            },
            Instr::SetSound { x } => {
                self.sound_timer = self.v_reg[x as usize];
                proof {
                    assert(self@ =~= step_spec(old(self)@, r));
                }
            },
            Instr::AddIndex { x } => {
                self.i_reg = self.i_reg + self.v_reg[x as usize] as u16;
                proof {
                    assert(self@ =~= step_spec(old(self)@, r));
                }
            },
            Instr::FontChar { x } => {
                let nib = self.v_reg[x as usize] & 0xF;
                self.i_reg = FONT_START as u16 + 5 * (nib as u16);
                proof {
                    assert(self@ =~= step_spec(old(self)@, r));
                }
            },
            Instr::StoreBcd { x } => {
                let val = self.v_reg[x as usize];
                let base = self.i_reg as usize;
                self.ram[base] = val / 100;
                self.ram[base + 1] = (val / 10) % 10;
                self.ram[base + 2] = val % 10;
                proof {
                    assert(self@ =~= step_spec(old(self)@, r));
                }
            },
            Instr::StoreRegs { x } => {
                store_span(&mut self.ram, &self.v_reg, self.i_reg as usize, x as usize + 1);
                if self.version != Version::Schip {
                    self.i_reg = self.i_reg + x as u16 + 1;
                }
                proof {
                    assert(self@ =~= step_spec(old(self)@, r));
                }
            },
            Instr::LoadRegs { x } => {
                load_span(&mut self.v_reg, &self.ram, self.i_reg as usize, x as usize + 1);
                if self.version != Version::Schip {
                    self.i_reg = self.i_reg + x as u16 + 1;
                }
                proof {
                    assert(self@ =~= step_spec(old(self)@, r));
                }
            },
            Instr::Unknown => {
                proof {
                    assert(self@ =~= step_spec(old(self)@, r));
                }
            },
        }
    }

    /// Advances the interpreter by exactly one instruction, drawing the
    /// byte for the random opcode from the process-wide generator.
    pub fn step(&mut self)
        requires
            old(self).wf(),
            step_ok(old(self)@),
        ensures
            final(self).wf(),
            exists|r: u8| final(self)@ == step_spec(old(self)@, r),
    {
        let r = random_byte();
        self.step_with_random(r);
    }

    /// Takes the once-per-frame input snapshot: the previous-frame key
    /// state becomes a copy of the current one. The driver calls this
    /// before it applies the new frame's key events.
    pub fn snapshot_input(&mut self)
        requires
            old(self).wf(),
        ensures
            final(self).wf(),
            final(self)@ == snapshot_spec(old(self)@),
    {
        copy_keys(&mut self.prev_input_data, &self.input_data);
        proof {
            assert(self@ =~= snapshot_spec(old(self)@));
        }
    }
}

impl Default for Chip8 {
    /// A fresh interpreter for the Super-CHIP variant.
    fn default() -> (c: Chip8)
        ensures
            c.wf(),
            c@ == init_state(Version::Schip),
    {
        Chip8::new(Version::Schip)
    }
}

} // verus!
