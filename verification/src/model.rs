//! The mathematical model of the machine: the ghost state, instruction-word
//! field extraction, and one transition function per operation.

use vstd::prelude::*;
use crate::grid::drw_spec;

verus! {

/// Number of addressable memory bytes.
pub const MEM_SIZE: usize = 4095;

/// Address at which a program image is loaded; everything below is reserved
/// for the font table.
pub const PROG_START: usize = 512;

/// Width of the display grid in cells.
pub const SCREEN_W: usize = 64;

/// Height of the display grid in cells.
pub const SCREEN_H: usize = 32;

/// Total number of display cells.
pub const SCREEN_CELLS: usize = 2048;

/// Bytes per font glyph.
pub const GLYPH_BYTES: usize = 5;

/// Number of font bytes placed at the bottom of memory.
pub const FONT_BYTES: usize = 80;

// --- Instruction-word field extraction -------------------------------------
//
// A sixteen-bit instruction word carries five fixed fields:
//   fam - bits 12..=15, the family selector
//   nnn - bits 0..=11, a twelve-bit address or immediate
//   n   - bits 0..=3, a four-bit immediate (sprite height)
//   x   - bits 8..=11, first register operand
//   y   - bits 4..=7, second register operand
//   kk  - bits 0..=7, an eight-bit immediate

pub open spec fn op_fam(w: u16) -> u16 {
    w >> 12
}

pub open spec fn op_nnn(w: u16) -> u16 {
    w & 0x0fff
}

pub open spec fn op_n(w: u16) -> u16 {
    w & 0x000f
}

pub open spec fn op_x(w: u16) -> u16 {
    (w & 0x0f00) >> 8
}

pub open spec fn op_y(w: u16) -> u16 {
    (w & 0x00f0) >> 4
}

pub open spec fn op_kk(w: u16) -> u8 {
    (w & 0x00ff) as u8
}

/// The extracted fields lie in the ranges their bit widths allow.
pub proof fn lemma_field_bounds(w: u16)
    by (bit_vector)
    ensures
        op_fam(w) < 16,
        op_nnn(w) < 0x1000,
        op_n(w) < 16,
        op_x(w) < 16,
        op_y(w) < 16,
{
}

// --- Machine state ----------------------------------------------------------

/// The abstract machine state: sixteen byte registers, two timers, the index
/// register, program counter, stack pointer, the display grid as on/off
/// cells, the memory image, the call stack, the input latch, and the dirty
/// flag for the display.
#[verifier::ext_equal]
pub ghost struct CpuView {
    pub v: Seq<u8>,
    pub dt: u8,
    pub st: u8,
    pub i: u16,
    pub pc: u16,
    pub sp: u8,
    pub screen: Seq<bool>,
    pub memory: Seq<u8>,
    pub stack: Seq<u16>,
    pub keys: Seq<u8>,
    pub update_screen: bool,
}

/// Structural well-formedness of an abstract state.
pub open spec fn inv(s: CpuView) -> bool {
    &&& s.v.len() == 16
    &&& s.memory.len() == MEM_SIZE
    &&& s.stack.len() == 16
    &&& s.screen.len() == SCREEN_CELLS
    &&& s.keys.len() == 16
    &&& s.sp <= 16
}

/// What one step reports when it does not fail.
#[derive(Clone, Copy, Debug, PartialEq, Eq, Structural)]
pub enum StepOutcome {
    /// An instruction was decoded and executed.
    Executed,
    /// The key-wait instruction found no pressed key; the program counter was
    /// left where it was, so the next step retries.
    AwaitingKey,
}

/// The fatal conditions a step can report. None of them is recoverable; the
/// host decides whether to halt or to step past the offending instruction.
#[derive(Clone, Copy, Debug, PartialEq, Eq, Structural)]
pub enum StepError {
    /// The decoded instruction word matches no defined operation.
    InvalidOpcode { opcode: u16, pc: u16 },
    /// A call was attempted with the call stack already full.
    StackOverflow,
    /// A return was attempted with the call stack empty.
    StackUnderflow,
    /// An access of `count` bytes starting at `base` would leave the
    /// addressable range.
    AddressOutOfRange { base: u16, count: u16 },
    /// A key test named a latch index outside the sixteen keys.
    KeyOutOfRange { key: u8 },
}

// --- Per-operation transitions ----------------------------------------------
//
// Each function maps the state as it stands after the fetch (program counter
// already advanced past the instruction) to the state after the operation.

/// Clear the display: every cell off, dirty flag set.
pub open spec fn cls_spec(s: CpuView) -> CpuView {
    CpuView { screen: Seq::new(SCREEN_CELLS as nat, |p: int| false), update_screen: true, ..s }
}

/// Return: the stack pointer decrements, then the program counter is read
/// from the top of the stack.
pub open spec fn ret_spec(s: CpuView) -> CpuView {
    CpuView { sp: (s.sp - 1) as u8, pc: s.stack[s.sp - 1], ..s }
}

/// Jump to `nnn`.
pub open spec fn jp_spec(s: CpuView, w: u16) -> CpuView {
    CpuView { pc: op_nnn(w), ..s }
}

/// Call: push the current program counter, increment the stack pointer, then
/// jump to `nnn`.
pub open spec fn call_spec(s: CpuView, w: u16) -> CpuView {
    CpuView {
        stack: s.stack.update(s.sp as int, s.pc),
        sp: (s.sp + 1) as u8,
        pc: op_nnn(w),
        ..s
    }
}

/// Skip the next instruction if `Vx == kk`.
pub open spec fn se_vx_byte_spec(s: CpuView, w: u16) -> CpuView {
    if s.v[op_x(w) as int] == op_kk(w) {
        CpuView { pc: (s.pc + 2) as u16, ..s }
    } else {
        s
    }
}

/// Skip the next instruction if `Vx != kk`.
pub open spec fn sne_vx_byte_spec(s: CpuView, w: u16) -> CpuView {
    if s.v[op_x(w) as int] != op_kk(w) {
        CpuView { pc: (s.pc + 2) as u16, ..s }
    } else {
        s
    }
}

/// Skip the next instruction if `Vx == Vy`.
pub open spec fn se_vx_vy_spec(s: CpuView, w: u16) -> CpuView {
    if s.v[op_x(w) as int] == s.v[op_y(w) as int] {
        CpuView { pc: (s.pc + 2) as u16, ..s }
    } else {
        s
    }
}

/// Skip the next instruction if `Vx != Vy`.
pub open spec fn sne_vx_vy_spec(s: CpuView, w: u16) -> CpuView {
    if s.v[op_x(w) as int] != s.v[op_y(w) as int] {
        CpuView { pc: (s.pc + 2) as u16, ..s }
    } else {
        s
    }
}

/// `Vx <- kk`.
pub open spec fn ld_vx_byte_spec(s: CpuView, w: u16) -> CpuView {
    CpuView { v: s.v.update(op_x(w) as int, op_kk(w)), ..s }
}

/// `Vx <- Vx + kk`, wrapping, no flag write.
pub open spec fn add_vx_byte_spec(s: CpuView, w: u16) -> CpuView {
    CpuView {
        v: s.v.update(op_x(w) as int, ((s.v[op_x(w) as int] + op_kk(w)) % 256) as u8),
        ..s
    }
}

/// `Vx <- Vy`.
pub open spec fn ld_vx_vy_spec(s: CpuView, w: u16) -> CpuView {
    CpuView { v: s.v.update(op_x(w) as int, s.v[op_y(w) as int]), ..s }
}

/// `Vx <- Vx | Vy`.
pub open spec fn or_vx_vy_spec(s: CpuView, w: u16) -> CpuView {
    CpuView { v: s.v.update(op_x(w) as int, s.v[op_x(w) as int] | s.v[op_y(w) as int]), ..s }
}

/// `Vx <- Vx & Vy`.
pub open spec fn and_vx_vy_spec(s: CpuView, w: u16) -> CpuView {
    CpuView { v: s.v.update(op_x(w) as int, s.v[op_x(w) as int] & s.v[op_y(w) as int]), ..s }
}

/// `Vx <- Vx ^ Vy`.
pub open spec fn xor_vx_vy_spec(s: CpuView, w: u16) -> CpuView {
    CpuView { v: s.v.update(op_x(w) as int, s.v[op_x(w) as int] ^ s.v[op_y(w) as int]), ..s }
}

/// `Vx <- (Vx + Vy) mod 256`; the flag register is then set to 1 exactly when
/// the unsigned sum exceeds 255. The flag write comes second, so it wins when
/// `x` is the flag register itself.
pub open spec fn add_vx_vy_spec(s: CpuView, w: u16) -> CpuView {
    let a = s.v[op_x(w) as int];
    let b = s.v[op_y(w) as int];
    CpuView {
        v: s.v.update(op_x(w) as int, ((a + b) % 256) as u8).update(
            15,
            if a + b > 255 { 1u8 } else { 0u8 },
        ),
        ..s
    }
}

/// `Vx <- (Vx - Vy) mod 256`; the flag register is then set to 1 exactly when
/// `Vx > Vy` held before the subtraction (not-borrow).
pub open spec fn sub_vx_vy_spec(s: CpuView, w: u16) -> CpuView {
    let a = s.v[op_x(w) as int];
    let b = s.v[op_y(w) as int];
    CpuView {
        v: s.v.update(op_x(w) as int, ((a - b + 256) % 256) as u8).update(
            15,
            if a > b { 1u8 } else { 0u8 },
        ),
        ..s
    }
}

/// `Vx <- (Vy - Vx) mod 256`; the flag register is then set to 1 exactly when
/// `Vy > Vx` held before the subtraction.
pub open spec fn subn_vx_vy_spec(s: CpuView, w: u16) -> CpuView {
    let a = s.v[op_x(w) as int];
    let b = s.v[op_y(w) as int];
    CpuView {
        v: s.v.update(op_x(w) as int, ((b - a + 256) % 256) as u8).update(
            15,
            if b > a { 1u8 } else { 0u8 },
        ),
        ..s
    }
}

/// `Vx <- Vx >> 1`; the flag register is then set to the pre-shift low bit.
pub open spec fn shr_vx_vy_spec(s: CpuView, w: u16) -> CpuView {
    let a = s.v[op_x(w) as int];
    CpuView { v: s.v.update(op_x(w) as int, a >> 1u8).update(15, a & 1u8), ..s }
}

/// `Vx <- Vx << 1` modulo 256; the flag register is then set to the pre-shift
/// high bit.
pub open spec fn shl_vx_vy_spec(s: CpuView, w: u16) -> CpuView {
    let a = s.v[op_x(w) as int];
    CpuView { v: s.v.update(op_x(w) as int, a << 1u8).update(15, (a >> 7u8) & 1u8), ..s }
}

/// `index <- nnn`.
pub open spec fn ld_i_spec(s: CpuView, w: u16) -> CpuView {
    CpuView { i: op_nnn(w), ..s }
}

/// Indexed jump: `pc <- nnn + V0`.
pub open spec fn jp_v0_spec(s: CpuView, w: u16) -> CpuView {
    CpuView { pc: (op_nnn(w) + s.v[0]) as u16, ..s }
}

/// `Vx <- b & kk` for the drawn random byte `b`.
pub open spec fn rnd_spec(s: CpuView, w: u16, b: u8) -> CpuView {
    CpuView { v: s.v.update(op_x(w) as int, b & op_kk(w)), ..s }
}

/// Skip the next instruction if the key numbered `Vx` is pressed.
pub open spec fn skp_spec(s: CpuView, w: u16) -> CpuView {
    if s.keys[s.v[op_x(w) as int] as int] == 1 {
        CpuView { pc: (s.pc + 2) as u16, ..s }
    } else {
        s
    }
}

/// Skip the next instruction if the key numbered `Vx` is released.
pub open spec fn sknp_spec(s: CpuView, w: u16) -> CpuView {
    if s.keys[s.v[op_x(w) as int] as int] == 0 {
        CpuView { pc: (s.pc + 2) as u16, ..s }
    } else {
        s
    }
}

/// `Vx <- delay timer`.
pub open spec fn ld_vx_dt_spec(s: CpuView, w: u16) -> CpuView {
    CpuView { v: s.v.update(op_x(w) as int, s.dt), ..s }
}

/// `delay timer <- Vx`.
pub open spec fn ld_dt_vx_spec(s: CpuView, w: u16) -> CpuView {
    CpuView { dt: s.v[op_x(w) as int], ..s }
}

/// `sound timer <- Vx`.
pub open spec fn ld_st_vx_spec(s: CpuView, w: u16) -> CpuView {
    CpuView { st: s.v[op_x(w) as int], ..s }
}

/// `index <- index + Vx` modulo 2^16; the flag register is set to 1 exactly
/// when the new index exceeds the addressable range.
pub open spec fn add_i_spec(s: CpuView, w: u16) -> CpuView {
    let t = (s.i + s.v[op_x(w) as int]) % 0x10000;
    CpuView {
        i: t as u16,
        v: s.v.update(15, if t > 0xfff { 1u8 } else { 0u8 }),
        ..s
    }
}

/// `index <- Vx * bytes-per-glyph`: the address of the font sprite for the
/// digit held in `Vx`.
pub open spec fn ld_f_spec(s: CpuView, w: u16) -> CpuView {
    CpuView { i: (s.v[op_x(w) as int] * GLYPH_BYTES) as u16, ..s }
}

/// Store the decimal digits of `Vx`: hundreds at `index`, tens at
/// `index + 1`, ones at `index + 2`.
pub open spec fn bcd_spec(s: CpuView, w: u16) -> CpuView {
    let d = s.v[op_x(w) as int] as int;
    CpuView {
        memory: s.memory.update(s.i as int, (d / 100) as u8).update(
            s.i + 1,
            ((d / 10) % 10) as u8,
        ).update(s.i + 2, (d % 10) as u8),
        ..s
    }
}

/// Block store: registers `V0 ..= Vx` written to consecutive memory bytes
/// starting at `index`.
pub open spec fn store_block_spec(s: CpuView, w: u16) -> CpuView {
    CpuView {
        memory: Seq::new(
            MEM_SIZE as nat,
            |k: int| if s.i <= k <= s.i + op_x(w) { s.v[k - s.i] } else { s.memory[k] },
        ),
        ..s
    }
}

/// Block load: registers `V0 ..= Vx` read from consecutive memory bytes
/// starting at `index`.
pub open spec fn load_block_spec(s: CpuView, w: u16) -> CpuView {
    CpuView {
        v: Seq::new(16, |j: int| if j <= op_x(w) { s.memory[s.i + j] } else { s.v[j] }),
        ..s
    }
}

// --- The input latch and the key-wait operation ------------------------------

/// Whether any latch cell is pressed.
pub open spec fn any_pressed(keys: Seq<u8>) -> bool {
    exists|k: int| 0 <= k < 16 && keys[k] == 1
}

/// The lowest pressed latch index at or above `k`, or 16 if none.
pub open spec fn first_pressed(keys: Seq<u8>, k: int) -> int
    decreases 16 - k,
{
    if k < 0 || k >= 16 {
        16
    } else if keys[k] == 1 {
        k
    } else {
        first_pressed(keys, k + 1)
    }
}

/// A scan that finds `keys[k]` pressed with nothing pressed below `k` has
/// found the lowest pressed index.
pub proof fn lemma_first_pressed(keys: Seq<u8>, m: int, k: int)
    requires
        0 <= m <= k < 16,
        keys[k] == 1,
        forall|j: int| m <= j < k ==> keys[j] != 1,
    ensures
        first_pressed(keys, m) == k,
    decreases k - m,
{
    if m < k {
        lemma_first_pressed(keys, m + 1, k);
    }
}

/// Key-wait, once a pressed key is seen: its index is stored into `Vx`.
pub open spec fn key_wait_spec(s: CpuView, w: u16) -> CpuView {
    CpuView { v: s.v.update(op_x(w) as int, first_pressed(s.keys, 0) as u8), ..s }
}

// --- Timers ------------------------------------------------------------------

/// One delay-timer tick: decrement by one, with a floor of zero.
pub open spec fn tick_dt_spec(s: CpuView) -> CpuView {
    CpuView { dt: if s.dt > 0 { (s.dt - 1) as u8 } else { 0u8 }, ..s }
}

/// One sound-timer tick: decrement by one, with a floor of zero.
pub open spec fn tick_st_spec(s: CpuView) -> CpuView {
    CpuView { st: if s.st > 0 { (s.st - 1) as u8 } else { 0u8 }, ..s }
}

// --- Fetch, decode and dispatch ----------------------------------------------

/// The instruction word at the program counter: two consecutive memory bytes,
/// high byte first.
pub open spec fn fetch_word(s: CpuView) -> u16 {
    ((s.memory[s.pc as int] as u16) << 8u16) | (s.memory[s.pc as int + 1] as u16)
}

/// The fatal condition one step from `s` runs into, if any. It is determined
/// by the state alone.
pub open spec fn step_error(s: CpuView) -> Option<StepError> {
    if s.pc as int + 1 >= MEM_SIZE as int {
        Some(StepError::AddressOutOfRange { base: s.pc, count: 2 })
    } else {
        let w = fetch_word(s);
        let fam = op_fam(w);
        if fam == 0x0 {
            if op_n(w) == 0x0 {
                None
            } else if op_n(w) == 0xe {
                if s.sp == 0 {
                    Some(StepError::StackUnderflow)
                } else {
                    None
                }
            } else {
                Some(StepError::InvalidOpcode { opcode: w, pc: s.pc })
            }
        } else if fam == 0x2 {
            if s.sp >= 16 {
                Some(StepError::StackOverflow)
            } else {
                None
            }
        } else if fam == 0x8 {
            if op_n(w) <= 0x7 || op_n(w) == 0xe {
                None
            } else {
                Some(StepError::InvalidOpcode { opcode: w, pc: s.pc })
            }
        } else if fam == 0xd {
            if op_n(w) > 0 && s.i as int + op_n(w) as int > MEM_SIZE as int {
                Some(StepError::AddressOutOfRange { base: s.i, count: op_n(w) })
            } else {
                None
            }
        } else if fam == 0xe {
            if op_kk(w) == 0x9e || op_kk(w) == 0xa1 {
                if s.v[op_x(w) as int] >= 16 {
                    Some(StepError::KeyOutOfRange { key: s.v[op_x(w) as int] })
                } else {
                    None
                }
            } else {
                Some(StepError::InvalidOpcode { opcode: w, pc: s.pc })
            }
        } else if fam == 0xf {
            let kk = op_kk(w);
            if kk == 0x07 || kk == 0x0a || kk == 0x15 || kk == 0x18 || kk == 0x1e || kk == 0x29 {
                None
            } else if kk == 0x33 {
                if s.i as int + 3 > MEM_SIZE as int {
                    Some(StepError::AddressOutOfRange { base: s.i, count: 3 })
                } else {
                    None
                }
            } else if kk == 0x55 || kk == 0x65 {
                if s.i as int + op_x(w) as int + 1 > MEM_SIZE as int {
                    Some(StepError::AddressOutOfRange { base: s.i, count: (op_x(w) + 1) as u16 })
                } else {
                    None
                }
            } else {
                Some(StepError::InvalidOpcode { opcode: w, pc: s.pc })
            }
        } else {
            None
        }
    }
}

/// What a step leaves behind when it reports a fatal condition: nothing has
/// been mutated, except that the program counter has stepped past the
/// instruction whenever the instruction itself could be fetched.
pub open spec fn err_view(s: CpuView) -> CpuView {
    if s.pc as int + 1 >= MEM_SIZE as int {
        s
    } else {
        CpuView { pc: (s.pc + 2) as u16, ..s }
    }
}

/// Whether the step from `s` is a key-wait that finds no pressed key. Such a
/// step mutates nothing: the program counter stays on the key-wait
/// instruction and the host is expected to refresh the latch and step again.
pub open spec fn step_waits(s: CpuView) -> bool {
    &&& s.pc as int + 1 < MEM_SIZE as int
    &&& op_fam(fetch_word(s)) == 0xf
    &&& op_kk(fetch_word(s)) == 0x0a
    &&& !any_pressed(s.keys)
}

/// The state after one fault-free, non-waiting step from `s`, where `b` is
/// the byte the random source produced (ignored by every operation but the
/// random one). The fetch advances the program counter by two before the
/// operation runs, so jump and call targets are not clobbered by the
/// increment.
pub open spec fn step_next(s: CpuView, b: u8) -> CpuView {
    let w = fetch_word(s);
    let s1 = CpuView { pc: (s.pc + 2) as u16, ..s };
    let fam = op_fam(w);
    if fam == 0x0 {
        if op_n(w) == 0x0 {
            cls_spec(s1)
        } else {
            ret_spec(s1)
        }
    } else if fam == 0x1 {
        jp_spec(s1, w)
    } else if fam == 0x2 {
        call_spec(s1, w)
    } else if fam == 0x3 {
        se_vx_byte_spec(s1, w)
    } else if fam == 0x4 {
        sne_vx_byte_spec(s1, w)
    } else if fam == 0x5 {
        se_vx_vy_spec(s1, w)
    } else if fam == 0x6 {
        ld_vx_byte_spec(s1, w)
    } else if fam == 0x7 {
        add_vx_byte_spec(s1, w)
    } else if fam == 0x8 {
        if op_n(w) == 0x0 {
            ld_vx_vy_spec(s1, w)
        } else if op_n(w) == 0x1 {
            or_vx_vy_spec(s1, w)
        } else if op_n(w) == 0x2 {
            and_vx_vy_spec(s1, w)
        } else if op_n(w) == 0x3 {
            xor_vx_vy_spec(s1, w)
        } else if op_n(w) == 0x4 {
            add_vx_vy_spec(s1, w)
        } else if op_n(w) == 0x5 {
            sub_vx_vy_spec(s1, w)
        } else if op_n(w) == 0x6 {
            shr_vx_vy_spec(s1, w)
        } else if op_n(w) == 0x7 {
            subn_vx_vy_spec(s1, w)
        } else {
            shl_vx_vy_spec(s1, w)
        }
    } else if fam == 0x9 {
        sne_vx_vy_spec(s1, w)
    } else if fam == 0xa {
        ld_i_spec(s1, w)
    } else if fam == 0xb {
        jp_v0_spec(s1, w)
    } else if fam == 0xc {
        rnd_spec(s1, w, b)
    } else if fam == 0xd {
        drw_spec(s1, w)
    } else if fam == 0xe {
        if op_kk(w) == 0x9e {
            skp_spec(s1, w)
        } else {
            sknp_spec(s1, w)
        }
    } else {
        let kk = op_kk(w);
        if kk == 0x07 {
            ld_vx_dt_spec(s1, w)
        } else if kk == 0x0a {
            key_wait_spec(s1, w)
        } else if kk == 0x15 {
            ld_dt_vx_spec(s1, w)
        } else if kk == 0x18 {
            ld_st_vx_spec(s1, w)
        } else if kk == 0x1e {
            add_i_spec(s1, w)
        } else if kk == 0x29 {
            ld_f_spec(s1, w)
        } else if kk == 0x33 {
            bcd_spec(s1, w)
        } else if kk == 0x55 {
            store_block_spec(s1, w)
        } else {
            load_block_spec(s1, w)
        }
    }
}

// --- Whole-machine states ----------------------------------------------------

/// The font table: sixteen glyphs of five bytes each, for the hexadecimal
/// digits 0 through F.
pub open spec fn font_seq() -> Seq<u8> {
    seq![
        0xf0u8, 0x90, 0x90, 0x90, 0xf0, // 0
        0x20, 0x60, 0x20, 0x20, 0x70, // 1
        0xf0, 0x10, 0xf0, 0x80, 0xf0, // 2
        0xf0, 0x10, 0xf0, 0x10, 0xf0, // 3
        0x90, 0x90, 0xf0, 0x10, 0x10, // 4
        0xf0, 0x80, 0xf0, 0x10, 0xf0, // 5
        0xf0, 0x80, 0xf0, 0x90, 0xf0, // 6
        0xf0, 0x10, 0x20, 0x40, 0x40, // 7
        0xf0, 0x90, 0xf0, 0x90, 0xf0, // 8
        0xf0, 0x90, 0xf0, 0x10, 0xf0, // 9
        0xf0, 0x90, 0xf0, 0x90, 0x90, // A
        0xe0, 0x90, 0xe0, 0x90, 0xe0, // B
        0xf0, 0x80, 0x80, 0x80, 0xf0, // C
        0xe0, 0x90, 0x90, 0x90, 0xe0, // D
        0xf0, 0x80, 0xf0, 0x80, 0xf0, // E
        0xf0, 0x80, 0xf0, 0x80, 0x80, // F
    ]
}

/// The state a freshly constructed machine is in: everything zeroed, the
/// program counter at the program load address.
pub open spec fn initial_view() -> CpuView {
    CpuView {
        v: Seq::new(16, |j: int| 0u8),
        dt: 0,
        st: 0,
        i: 0,
        pc: PROG_START as u16,
        sp: 0,
        screen: Seq::new(SCREEN_CELLS as nat, |p: int| false),
        memory: Seq::new(MEM_SIZE as nat, |k: int| 0u8),
        stack: Seq::new(16, |j: int| 0u16),
        keys: Seq::new(16, |j: int| 0u8),
        update_screen: false,
    }
}

/// The state after a machine reset: registers, stack, latch and memory
/// cleared, the font table placed at the bottom of memory, and the program
/// counter back at the load address. Timers and the display are left alone.
pub open spec fn reset_view(s: CpuView) -> CpuView {
    CpuView {
        v: Seq::new(16, |j: int| 0u8),
        i: 0,
        pc: PROG_START as u16,
        sp: 0,
        memory: Seq::new(
            MEM_SIZE as nat,
            |k: int| if k < FONT_BYTES { font_seq()[k] } else { 0u8 },
        ),
        stack: Seq::new(16, |j: int| 0u16),
        keys: Seq::new(16, |j: int| 0u8),
        ..s
    }
}

/// The state after a program image `rom` is copied in verbatim at the load
/// address. Addresses below the load address are reserved for the font table
/// and are not touched.
pub open spec fn load_view(s: CpuView, rom: Seq<u8>) -> CpuView {
    CpuView {
        memory: Seq::new(
            MEM_SIZE as nat,
            |k: int| if PROG_START <= k < PROG_START + rom.len() {
                rom[k - PROG_START]
            } else {
                s.memory[k]
            },
        ),
        ..s
    }
}

} // verus!
