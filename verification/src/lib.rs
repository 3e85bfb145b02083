//! A verified CHIP-8 interpreter core.
//!
//! The interpreter state (memory, registers, call stack, framebuffer,
//! timers and input latch) is modelled by the ghost type [`State`]; every
//! public operation on [`Chip8`] states in its contract exactly which
//! state it produces, via the spec-level transition functions of
//! [`state`] and [`semantics`]. The windowing, keyboard and ROM-file
//! plumbing live outside this crate.

mod chip8;
mod decode;
mod font;
mod laws;
mod semantics;
mod state;

pub use chip8::Chip8;

pub use state::State;
pub use state::Version;
pub use state::state_wf;
pub use state::init_state;
pub use state::init_ram;
pub use state::load_spec;
pub use state::tick_spec;
pub use state::snapshot_spec;
pub use state::RAM_SIZE;
pub use state::SCREEN_WIDTH;
pub use state::SCREEN_HEIGHT;
pub use state::NUM_REGISTERS;
pub use state::NUM_KEYS;
pub use state::PROGRAM_START;
pub use state::FONT_START;
pub use state::FONT_LEN;

pub use decode::Instr;
pub use decode::decode;
pub use decode::decode_op;
pub use decode::op_x;
pub use decode::op_y;
pub use decode::op_n;
pub use decode::op_nn;
pub use decode::op_nnn;
pub use decode::lemma_field_bounds;

pub use semantics::fetch;
pub use semantics::step_spec;
pub use semantics::step_ok;
pub use semantics::apply_instr;
pub use semantics::draw_screen;
pub use semantics::draw_collision;
pub use semantics::draw_hit;
pub use semantics::draw_state;
pub use semantics::sprite_bit;
pub use semantics::clip_rows;
pub use semantics::last_release;
pub use semantics::store_ram;
pub use semantics::load_regs_seq;
pub use semantics::bcd_ram;
pub use semantics::logic_result;
pub use semantics::sub_result;
pub use semantics::advance_i;
pub use semantics::skip;

pub use font::font_byte;
pub use font::font_byte_at;

pub use laws::lemma_rom_load;
pub use laws::lemma_font_glyph;
pub use laws::lemma_draw_round_trip;
pub use laws::lemma_shift_quirk;
pub use laws::lemma_timers_idempotent;
pub use laws::lemma_wait_key_rearms;
