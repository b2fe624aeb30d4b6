//! The machine itself: the register file, memory image, call stack, display
//! framebuffer, timers and input latch, and one execution step per call.

use vstd::prelude::*;
use crate::grid::{
    cell_col, cell_row, collides_upto, draw_x0, draw_y0, drw_spec, lemma_cell_recomp,
    lemma_collides_same, lemma_target_decomp, sprite_bit, target_cell, touched_upto,
};
use crate::model::{
    add_i_spec, add_vx_byte_spec, add_vx_vy_spec, and_vx_vy_spec, any_pressed, bcd_spec,
    call_spec, cls_spec, err_view, fetch_word, font_seq, initial_view,
    jp_spec, jp_v0_spec, key_wait_spec, ld_dt_vx_spec, ld_f_spec, ld_i_spec, ld_st_vx_spec,
    ld_vx_byte_spec, ld_vx_dt_spec, ld_vx_vy_spec, lemma_field_bounds, lemma_first_pressed,
    load_block_spec,
    load_view, op_kk, op_n, op_nnn, op_x, op_y, or_vx_vy_spec, reset_view, ret_spec, rnd_spec,
    se_vx_byte_spec, se_vx_vy_spec, shl_vx_vy_spec, shr_vx_vy_spec, skp_spec, sknp_spec,
    sne_vx_byte_spec, sne_vx_vy_spec, step_error, step_next, step_waits, store_block_spec,
    sub_vx_vy_spec, subn_vx_vy_spec, tick_dt_spec, tick_st_spec, xor_vx_vy_spec, CpuView,
    StepError, StepOutcome, FONT_BYTES, MEM_SIZE, PROG_START, SCREEN_CELLS,
    SCREEN_H, SCREEN_W,
};

verus! {

/// The framebuffer word for a cell that is on; a cell that is off holds zero.
pub const PIXEL_ON: u32 = 0x00ff00;

/// Relies on rand::random: draws one byte from the thread-local generator.
/// Nothing is promised of the value; callers state what holds of every byte.
#[verifier::external_body]
fn random_byte() -> u8 {
    rand::random::<u8>()
}

/// The font table as bytes, glyph by glyph.
fn font_table() -> (font: Vec<u8>)
    ensures
        font@ == font_seq(),
{
    let font: Vec<u8> = vec![
        0xf0u8, 0x90, 0x90, 0x90, 0xf0, 0x20, 0x60, 0x20, 0x20, 0x70, 0xf0, 0x10, 0xf0, 0x80,
        0xf0, 0xf0, 0x10, 0xf0, 0x10, 0xf0, 0x90, 0x90, 0xf0, 0x10, 0x10, 0xf0, 0x80, 0xf0,
        0x10, 0xf0, 0xf0, 0x80, 0xf0, 0x90, 0xf0, 0xf0, 0x10, 0x20, 0x40, 0x40, 0xf0, 0x90,
        0xf0, 0x90, 0xf0, 0xf0, 0x90, 0xf0, 0x10, 0xf0, 0xf0, 0x90, 0xf0, 0x90, 0x90, 0xe0,
        0x90, 0xe0, 0x90, 0xe0, 0xf0, 0x80, 0x80, 0x80, 0xf0, 0xe0, 0x90, 0x90, 0x90, 0xe0,
        0xf0, 0x80, 0xf0, 0x80, 0xf0, 0xf0, 0x80, 0xf0, 0x80, 0x80,
    ];
    proof {
        assert(font@ =~= font_seq());
    }
    font
}

/// One machine instance. All state is owned here; the host writes only the
/// input latch and clears the dirty flag after presenting the framebuffer.
pub struct CPU {
    v: Vec<u8>,
    dt: u8,
    st: u8,
    i: u16,
    pc: u16,
    sp: u8,
    screen_buffer: Vec<u32>,
    memory: Vec<u8>,
    stack: Vec<u16>,
    /// The input latch: one cell per key, 1 while pressed.
    pub keys: [u8; 16],
    current_opcode: u16,
    /// Dirty flag: set whenever a draw or clear mutated the framebuffer; the
    /// host clears it after presenting.
    pub update_screen: bool,
}

impl View for CPU {
    type V = CpuView;

    closed spec fn view(&self) -> CpuView {
        CpuView {
            v: self.v@,
            dt: self.dt,
            st: self.st,
            i: self.i,
            pc: self.pc,
            sp: self.sp,
            screen: Seq::new(self.screen_buffer@.len(), |p: int| self.screen_buffer@[p] != 0),
            memory: self.memory@,
            stack: self.stack@,
            keys: self.keys@,
            update_screen: self.update_screen,
        }
    }
}

impl CPU {
    /// Representation invariant: the stores have their fixed sizes, every
    /// framebuffer word is either off or the on-colour, and the stack pointer
    /// stays within the stack.
    pub closed spec fn wf(&self) -> bool {
        &&& self.v@.len() == 16
        &&& self.memory@.len() == MEM_SIZE
        &&& self.stack@.len() == 16
        &&& self.screen_buffer@.len() == SCREEN_CELLS
        &&& forall|p: int|
            0 <= p < SCREEN_CELLS ==> #[trigger] self.screen_buffer@[p] == 0
                || self.screen_buffer@[p] == PIXEL_ON
        &&& self.sp <= 16
    }

    /// A fresh machine: everything zeroed, the program counter at the program
    /// load address. The font table is placed by `initialize`.
    pub fn new() -> (c: CPU)
        ensures
            c.wf(),
            c@ == initial_view(),
    {
        let c = CPU {
            v: vec![0u8; 16],
            dt: 0,
            st: 0,
            i: 0,
            pc: PROG_START as u16,
            sp: 0,
            screen_buffer: vec![0u32; SCREEN_CELLS],
            memory: vec![0u8; MEM_SIZE],
            stack: vec![0u16; 16],
            keys: [0u8; 16],
            current_opcode: 0,
            update_screen: false,
        };
        proof {
            assert(c@.screen =~= initial_view().screen);
            assert(c@.keys =~= initial_view().keys);
            assert(c@ =~= initial_view());
        }
        c
    }

    /// The value of general register `j`.
    pub fn register(&self, j: usize) -> (r: u8)
        requires
            self.wf(),
            j < 16,
        ensures
            r == self@.v[j as int],
    {
        self.v[j]
    }

    /// The index register.
    pub fn index_register(&self) -> (r: u16)
        ensures
            r == self@.i,
    {
        self.i
    }

    /// The program counter.
    pub fn program_counter(&self) -> (r: u16)
        ensures
            r == self@.pc,
    {
        self.pc
    }

    /// The stack pointer: the current call depth.
    pub fn stack_pointer(&self) -> (r: u8)
        ensures
            r == self@.sp,
    {
        self.sp
    }

    /// The delay timer.
    pub fn delay_timer(&self) -> (r: u8)
        ensures
            r == self@.dt,
    {
        self.dt
    }

    /// The sound timer.
    pub fn sound_timer(&self) -> (r: u8)
        ensures
            r == self@.st,
    {
        self.st
    }

    /// The memory byte at `addr`.
    pub fn memory_byte(&self, addr: usize) -> (r: u8)
        requires
            self.wf(),
            addr < MEM_SIZE,
        ensures
            r == self@.memory[addr as int],
    {
        self.memory[addr]
    }

    /// Whether the display cell at column `col`, row `row` is on.
    pub fn pixel(&self, col: usize, row: usize) -> (on: bool)
        requires
            self.wf(),
            col < SCREEN_W,
            row < SCREEN_H,
        ensures
            on == self@.screen[row * SCREEN_W + col],
    {
        self.screen_buffer[row * SCREEN_W + col] != 0
    }

    /// The raw framebuffer: one word per cell, zero for off and the on-colour
    /// for on, rows laid out consecutively.
    pub fn get_screen_buffer(&self) -> (r: &Vec<u32>)
        requires
            self.wf(),
        ensures
            r@.len() == SCREEN_CELLS,
            forall|p: int|
                0 <= p < SCREEN_CELLS ==> ((#[trigger] r@[p] != 0) == self@.screen[p]),
            forall|p: int|
                0 <= p < SCREEN_CELLS ==> #[trigger] r@[p] == 0 || r@[p] == PIXEL_ON,
    {
        &self.screen_buffer
    }

    /// Machine reset: registers, stack, latch and memory cleared, the font
    /// table placed at the bottom of memory, and the program counter back at
    /// the load address. Timers and the display are left alone.
    pub fn initialize(&mut self)
        requires
            old(self).wf(),
        ensures
            final(self).wf(),
            final(self)@ == reset_view(old(self)@),
    {
        self.pc = PROG_START as u16;
        self.current_opcode = 0;
        self.i = 0;
        self.sp = 0;
        self.stack = vec![0u16; 16];
        self.keys = [0u8; 16];
        self.v = vec![0u8; 16];
        self.memory = vec![0u8; MEM_SIZE];
        proof {
            assert(self@.keys =~= reset_view(old(self)@).keys);
        }
        let font = font_table();
        let mut idx: usize = 0;
        while idx < FONT_BYTES
            invariant
                idx <= FONT_BYTES,
                font@ == font_seq(),
                self.wf(),
                self.memory@.len() == MEM_SIZE,
                self@ == (CpuView { memory: self.memory@, ..reset_view(old(self)@) }),
                forall|k: int| 0 <= k < idx ==> #[trigger] self.memory@[k] == font_seq()[k],
                forall|k: int| idx <= k < MEM_SIZE ==> #[trigger] self.memory@[k] == 0u8,
            decreases FONT_BYTES - idx,
        {
            self.memory[idx] = font[idx];
            idx = idx + 1;
        }
        proof {
            assert(self@.memory =~= reset_view(old(self)@).memory);
            assert(self@ =~= reset_view(old(self)@));
        }
    }

    /// Copy a program image verbatim into memory at the load address. The
    /// image must fit between the load address and the end of memory;
    /// addresses below the load address are reserved for the font table and
    /// are not touched.
    pub fn load_rom(&mut self, rom: &[u8])
        requires
            old(self).wf(),
            rom@.len() <= MEM_SIZE - PROG_START,
        ensures
            final(self).wf(),
            final(self)@ == load_view(old(self)@, rom@),
    {
        let mut j: usize = 0;
        while j < rom.len()
            invariant
                j <= rom@.len(),
                rom@.len() <= MEM_SIZE - PROG_START,
                self.wf(),
                self@ == (CpuView { memory: self.memory@, ..old(self)@ }),
                forall|k: int|
                    PROG_START <= k < PROG_START + j
                        ==> #[trigger] self.memory@[k] == rom@[k - PROG_START],
                forall|k: int|
                    (0 <= k < PROG_START || PROG_START + j <= k < MEM_SIZE)
                        ==> #[trigger] self.memory@[k] == old(self).memory@[k],
            decreases rom@.len() - j,
        {
            self.memory[PROG_START + j] = rom[j];
            j = j + 1;
        }
        proof {
            assert(self@.memory =~= load_view(old(self)@, rom@).memory);
            assert(self@ =~= load_view(old(self)@, rom@));
        }
    }

    /// One execution step: fetch the instruction word at the program counter,
    /// decode it, and perform the matching operation.
    ///
    /// The result is determined by the starting state: a step fails exactly
    /// when `step_error` names a fatal condition, and a fault-free step
    /// either waits (a key-wait with no key pressed, which mutates nothing)
    /// or executes, reaching `step_next` of the starting state for the byte
    /// the random source produced.
    pub fn cycle(&mut self) -> (r: Result<StepOutcome, StepError>)
        requires
            old(self).wf(),
        ensures
            final(self).wf(),
            match r {
                Result::Err(e) => {
                    &&& step_error(old(self)@) == Some(e)
                    &&& final(self)@ == err_view(old(self)@)
                },
                Result::Ok(o) => {
                    &&& step_error(old(self)@) is None
                    &&& match o {
                        StepOutcome::AwaitingKey => step_waits(old(self)@) && final(self)@ == old(
                            self,
                        )@,
                        StepOutcome::Executed => !step_waits(old(self)@) && exists|b: u8|
                            final(self)@ == step_next(old(self)@, b),
                    }
                },
            },
    {
        let ghost pre = old(self)@;
        let pc0 = self.pc;
        if self.pc as usize + 1 >= MEM_SIZE {
            return Err(StepError::AddressOutOfRange { base: pc0, count: 2 });
        }
        let w = self.fetch_opcode();
        self.current_opcode = w;
        proof {
            lemma_field_bounds(w);
        }
        let ghost s1 = self@;
        let fam = w >> 12u16;
        if fam == 0x0 {
            let nib = w & 0x000f;
            if nib == 0x0 {
                self.cls();
                proof {
                    assert(self@ == step_next(pre, 0u8));
                }
                Ok(StepOutcome::Executed)
            } else if nib == 0xe {
                if self.sp == 0 {
                    Err(StepError::StackUnderflow)
                } else {
                    self.ret();
                    proof {
                        assert(self@ == step_next(pre, 0u8));
                    }
                    Ok(StepOutcome::Executed)
                }
            } else {
                Err(StepError::InvalidOpcode { opcode: w, pc: pc0 })
            }
        } else if fam == 0x1 {
            self.jp();
            proof {
                assert(self@ == step_next(pre, 0u8));
            }
            Ok(StepOutcome::Executed)
        } else if fam == 0x2 {
            if self.sp >= 16 {
                Err(StepError::StackOverflow)
            } else {
                self.call();
                proof {
                    assert(self@ == step_next(pre, 0u8));
                }
                Ok(StepOutcome::Executed)
            }
        } else if fam == 0x3 {
            self.se_vx_byte();
            proof {
                assert(self@ == step_next(pre, 0u8));
            }
            Ok(StepOutcome::Executed)
        } else if fam == 0x4 {
            self.sne_vx_byte();
            proof {
                assert(self@ == step_next(pre, 0u8));
            }
            Ok(StepOutcome::Executed)
        } else if fam == 0x5 {
            self.se_vx_vy();
            proof {
                assert(self@ == step_next(pre, 0u8));
            }
            Ok(StepOutcome::Executed)
        } else if fam == 0x6 {
            self.ld_vx_byte();
            proof {
                assert(self@ == step_next(pre, 0u8));
            }
            Ok(StepOutcome::Executed)
        } else if fam == 0x7 {
            self.add_vx_byte();
            proof {
                assert(self@ == step_next(pre, 0u8));
            }
            Ok(StepOutcome::Executed)
        } else if fam == 0x8 {
            let nib = w & 0x000f;
            if nib == 0x0 {
                self.ld_vx_vy();
            } else if nib == 0x1 {
                self.or_vx_vy();
            } else if nib == 0x2 {
                self.and_vx_vy();
            } else if nib == 0x3 {
                self.xor_vx_vy();
            } else if nib == 0x4 {
                self.add_vx_vy();
            } else if nib == 0x5 {
                self.sub_vx_vy();
            } else if nib == 0x6 {
                self.shr_vx_vy();
            } else if nib == 0x7 {
                self.subn_vx_vy();
            } else if nib == 0xe {
                self.shl_vx_vy();
            } else {
                return Err(StepError::InvalidOpcode { opcode: w, pc: pc0 });
            }
            proof {
                assert(self@ == step_next(pre, 0u8));
            }
            Ok(StepOutcome::Executed)
        } else if fam == 0x9 {
            self.sne_vx_vy();
            proof {
                assert(self@ == step_next(pre, 0u8));
            }
            Ok(StepOutcome::Executed)
        } else if fam == 0xa {
            self.ld_i_addr();
            proof {
                assert(self@ == step_next(pre, 0u8));
            }
            Ok(StepOutcome::Executed)
        } else if fam == 0xb {
            self.jp_v0_addr();
            proof {
                assert(self@ == step_next(pre, 0u8));
            }
            Ok(StepOutcome::Executed)
        } else if fam == 0xc {
            self.rnd_vx_byte();
            proof {
                let b = choose|b: u8| self@ == rnd_spec(s1, w, b);
                assert(self@ == step_next(pre, b));
            }
            Ok(StepOutcome::Executed)
        } else if fam == 0xd {
            let n = self.compute_n();
            if n > 0 && self.i as usize + n as usize > MEM_SIZE {
                Err(StepError::AddressOutOfRange { base: self.i, count: n })
            } else {
                self.drw_vx_vy_nibble();
                proof {
                    assert(self@ == step_next(pre, 0u8));
                }
                Ok(StepOutcome::Executed)
            }
        } else if fam == 0xe {
            let kk = self.compute_kk();
            if kk == 0x9e || kk == 0xa1 {
                let key = self.read_vx();
                if key >= 16 {
                    Err(StepError::KeyOutOfRange { key })
                } else if kk == 0x9e {
                    self.skp_vx();
                    proof {
                        assert(self@ == step_next(pre, 0u8));
                    }
                    Ok(StepOutcome::Executed)
                } else {
                    self.sknp_vx();
                    proof {
                        assert(self@ == step_next(pre, 0u8));
                    }
                    Ok(StepOutcome::Executed)
                }
            } else {
                Err(StepError::InvalidOpcode { opcode: w, pc: pc0 })
            }
        } else {
            proof {
                assert(fam == 0xf);
            }
            let kk = self.compute_kk();
            if kk == 0x07 {
                self.ld_vx_dt();
                proof {
                    assert(self@ == step_next(pre, 0u8));
                }
                Ok(StepOutcome::Executed)
            } else if kk == 0x0a {
                if self.ld_vx_k() {
                    proof {
                        assert(self@ == step_next(pre, 0u8));
                    }
                    Ok(StepOutcome::Executed)
                } else {
                    proof {
                        assert(self@ == pre);
                    }
                    Ok(StepOutcome::AwaitingKey)
                }
            } else if kk == 0x15 {
                self.ld_dt_vx();
                proof {
                    assert(self@ == step_next(pre, 0u8));
                }
                Ok(StepOutcome::Executed)
            } else if kk == 0x18 {
                self.ld_st_vx();
                proof {
                    assert(self@ == step_next(pre, 0u8));
                }
                Ok(StepOutcome::Executed)
            } else if kk == 0x1e {
                self.add_i_vx();
                proof {
                    assert(self@ == step_next(pre, 0u8));
                }
                Ok(StepOutcome::Executed)
            } else if kk == 0x29 {
                self.ld_f_vx();
                proof {
                    assert(self@ == step_next(pre, 0u8));
                }
                Ok(StepOutcome::Executed)
            } else if kk == 0x33 {
                if self.i as usize + 3 > MEM_SIZE {
                    Err(StepError::AddressOutOfRange { base: self.i, count: 3 })
                } else {
                    self.ld_b_vx();
                    proof {
                        assert(self@ == step_next(pre, 0u8));
                    }
                    Ok(StepOutcome::Executed)
                }
            } else if kk == 0x55 {
                let x = self.compute_x();
                if self.i as usize + x as usize + 1 > MEM_SIZE {
                    Err(StepError::AddressOutOfRange { base: self.i, count: x + 1 })
                } else {
                    self.ld_addr_i_vx();
                    proof {
                        assert(self@ == step_next(pre, 0u8));
                    }
                    Ok(StepOutcome::Executed)
                }
            } else if kk == 0x65 {
                let x = self.compute_x();
                if self.i as usize + x as usize + 1 > MEM_SIZE {
                    Err(StepError::AddressOutOfRange { base: self.i, count: x + 1 })
                } else {
                    self.ld_vx_addr_i();
                    proof {
                        assert(self@ == step_next(pre, 0u8));
                    }
                    Ok(StepOutcome::Executed)
                }
            } else {
                Err(StepError::InvalidOpcode { opcode: w, pc: pc0 })
            }
        }
    }

    // --- Fetch and decode ----------------------------------------------------

    /// Read the two instruction bytes at the program counter, high byte
    /// first, and advance the program counter past them, so that jump and
    /// call targets are not clobbered by the increment.
    fn fetch_opcode(&mut self) -> (w: u16)
        requires
            old(self).wf(),
            old(self).pc as int + 1 < MEM_SIZE as int,
        ensures
            final(self).wf(),
            w == fetch_word(old(self)@),
            final(self)@ == (CpuView { pc: (old(self)@.pc + 2) as u16, ..old(self)@ }),
            final(self).current_opcode == old(self).current_opcode,
    {
        let hi = self.memory[self.pc as usize];
        let lo = self.memory[self.pc as usize + 1];
        self.pc = self.pc + 2;
        ((hi as u16) << 8u16) | (lo as u16)
    }

    fn compute_nnn(&self) -> (r: u16)
        ensures
            r == op_nnn(self.current_opcode),
    {
        self.current_opcode & 0x0fff
    }

    fn compute_n(&self) -> (r: u16)
        ensures
            r == op_n(self.current_opcode),
    {
        self.current_opcode & 0x000f
    }

    fn compute_x(&self) -> (r: u16)
        ensures
            r == op_x(self.current_opcode),
    {
        (self.current_opcode & 0x0f00) >> 8u16
    }

    fn compute_y(&self) -> (r: u16)
        ensures
            r == op_y(self.current_opcode),
    {
        (self.current_opcode & 0x00f0) >> 4u16
    }

    fn compute_kk(&self) -> (r: u8)
        ensures
            r == op_kk(self.current_opcode),
    {
        (self.current_opcode & 0x00ff) as u8
    }

    fn read_vx(&self) -> (r: u8)
        requires
            self.wf(),
        ensures
            r == self@.v[op_x(self.current_opcode) as int],
    {
        proof {
            lemma_field_bounds(self.current_opcode);
        }
        let x = self.compute_x();
        self.v[x as usize]
    }

    fn read_vy(&self) -> (r: u8)
        requires
            self.wf(),
        ensures
            r == self@.v[op_y(self.current_opcode) as int],
    {
        proof {
            lemma_field_bounds(self.current_opcode);
        }
        let y = self.compute_y();
        self.v[y as usize]
    }

    fn write_vx(&mut self, value: u8)
        requires
            old(self).wf(),
        ensures
            final(self).wf(),
            final(self)@ == (CpuView {
                v: old(self)@.v.update(op_x(old(self).current_opcode) as int, value),
                ..old(self)@
            }),
            final(self).current_opcode == old(self).current_opcode,
    {
        proof {
            lemma_field_bounds(self.current_opcode);
        }
        let x = self.compute_x();
        self.v[x as usize] = value;
    }

    // --- The operations -------------------------------------------------------
    //
    // Each runs after the fetch, with the program counter already past the
    // instruction; each states in its contract the exact transition it makes.

    /// Clear the display.
    fn cls(&mut self)
        requires
            old(self).wf(),
        ensures
            final(self).wf(),
            final(self)@ == cls_spec(old(self)@),
            final(self).current_opcode == old(self).current_opcode,
    {
        self.screen_buffer = vec![0u32; SCREEN_CELLS];
        self.update_screen = true;
        proof {
            assert(self@.screen =~= cls_spec(old(self)@).screen);
            assert(self@ =~= cls_spec(old(self)@));
        }
    }

    /// Return from a subroutine: the stack pointer decrements, then the
    /// program counter is read from the top of the stack.
    fn ret(&mut self)
        requires
            old(self).wf(),
            old(self)@.sp >= 1,
        ensures
            final(self).wf(),
            final(self)@ == ret_spec(old(self)@),
            final(self).current_opcode == old(self).current_opcode,
    {
        self.sp = self.sp - 1;
        self.pc = self.stack[self.sp as usize];
    }

    /// Jump to `nnn`.
    fn jp(&mut self)
        requires
            old(self).wf(),
        ensures
            final(self).wf(),
            final(self)@ == jp_spec(old(self)@, old(self).current_opcode),
            final(self).current_opcode == old(self).current_opcode,
    {
        self.pc = self.compute_nnn();
    }

    /// Call the subroutine at `nnn`: push the current program counter, then
    /// jump.
    fn call(&mut self)
        requires
            old(self).wf(),
            old(self)@.sp < 16,
        ensures
            final(self).wf(),
            final(self)@ == call_spec(old(self)@, old(self).current_opcode),
            final(self).current_opcode == old(self).current_opcode,
    {
        self.stack[self.sp as usize] = self.pc;
        self.sp = self.sp + 1;
        self.pc = self.compute_nnn();
    }

    /// Skip the next instruction if `Vx == kk`.
    fn se_vx_byte(&mut self)
        requires
            old(self).wf(),
            old(self).pc <= 0xfffd,
        ensures
            final(self).wf(),
            final(self)@ == se_vx_byte_spec(old(self)@, old(self).current_opcode),
            final(self).current_opcode == old(self).current_opcode,
    {
        if self.read_vx() == self.compute_kk() {
            self.pc = self.pc + 2;
        }
    }

    /// Skip the next instruction if `Vx != kk`.
    fn sne_vx_byte(&mut self)
        requires
            old(self).wf(),
            old(self).pc <= 0xfffd,
        ensures
            final(self).wf(),
            final(self)@ == sne_vx_byte_spec(old(self)@, old(self).current_opcode),
            final(self).current_opcode == old(self).current_opcode,
    {
        if self.read_vx() != self.compute_kk() {
            self.pc = self.pc + 2;
        }
    }

    /// Skip the next instruction if `Vx == Vy`.
    fn se_vx_vy(&mut self)
        requires
            old(self).wf(),
            old(self).pc <= 0xfffd,
        ensures
            final(self).wf(),
            final(self)@ == se_vx_vy_spec(old(self)@, old(self).current_opcode),
            final(self).current_opcode == old(self).current_opcode,
    {
        if self.read_vx() == self.read_vy() {
            self.pc = self.pc + 2;
        }
    }

    /// Skip the next instruction if `Vx != Vy`.
    fn sne_vx_vy(&mut self)
        requires
            old(self).wf(),
            old(self).pc <= 0xfffd,
        ensures
            final(self).wf(),
            final(self)@ == sne_vx_vy_spec(old(self)@, old(self).current_opcode),
            final(self).current_opcode == old(self).current_opcode,
    {
        if self.read_vx() != self.read_vy() {
            self.pc = self.pc + 2;
        }
    }

    /// `Vx <- kk`.
    fn ld_vx_byte(&mut self)
        requires
            old(self).wf(),
        ensures
            final(self).wf(),
            final(self)@ == ld_vx_byte_spec(old(self)@, old(self).current_opcode),
            final(self).current_opcode == old(self).current_opcode,
    {
        let kk = self.compute_kk();
        self.write_vx(kk);
    }

    /// `Vx <- Vx + kk`, wrapping, with no flag write.
    fn add_vx_byte(&mut self)
        requires
            old(self).wf(),
        ensures
            final(self).wf(),
            final(self)@ == add_vx_byte_spec(old(self)@, old(self).current_opcode),
            final(self).current_opcode == old(self).current_opcode,
    {
        let sum: u16 = self.read_vx() as u16 + self.compute_kk() as u16;
        self.write_vx((sum % 256) as u8);
    }

    /// `Vx <- Vy`.
    fn ld_vx_vy(&mut self)
        requires
            old(self).wf(),
        ensures
            final(self).wf(),
            final(self)@ == ld_vx_vy_spec(old(self)@, old(self).current_opcode),
            final(self).current_opcode == old(self).current_opcode,
    {
        let b = self.read_vy();
        self.write_vx(b);
    }

    /// `Vx <- Vx | Vy`.
    fn or_vx_vy(&mut self)
        requires
            old(self).wf(),
        ensures
            final(self).wf(),
            final(self)@ == or_vx_vy_spec(old(self)@, old(self).current_opcode),
            final(self).current_opcode == old(self).current_opcode,
    {
        let r = self.read_vx() | self.read_vy();
        self.write_vx(r);
    }

    /// `Vx <- Vx & Vy`.
    fn and_vx_vy(&mut self)
        requires
            old(self).wf(),
        ensures
            final(self).wf(),
            final(self)@ == and_vx_vy_spec(old(self)@, old(self).current_opcode),
            final(self).current_opcode == old(self).current_opcode,
    {
        let r = self.read_vx() & self.read_vy();
        self.write_vx(r);
    }

    /// `Vx <- Vx ^ Vy`.
    fn xor_vx_vy(&mut self)
        requires
            old(self).wf(),
        ensures
            final(self).wf(),
            final(self)@ == xor_vx_vy_spec(old(self)@, old(self).current_opcode),
            final(self).current_opcode == old(self).current_opcode,
    {
        let r = self.read_vx() ^ self.read_vy();
        self.write_vx(r);
    }

    /// `Vx <- (Vx + Vy) mod 256`, then the flag register takes the carry.
    fn add_vx_vy(&mut self)
        requires
            old(self).wf(),
        ensures
            final(self).wf(),
            final(self)@ == add_vx_vy_spec(old(self)@, old(self).current_opcode),
            final(self).current_opcode == old(self).current_opcode,
    {
        proof {
            lemma_field_bounds(self.current_opcode);
        }
        let sum: u16 = self.read_vx() as u16 + self.read_vy() as u16;
        let x = self.compute_x();
        self.v[x as usize] = (sum % 256) as u8;
        self.v[15] = if sum > 255 { 1 } else { 0 };
    }

    /// `Vx <- (Vx - Vy) mod 256`, then the flag register takes the
    /// not-borrow: 1 exactly when `Vx > Vy` held before.
    fn sub_vx_vy(&mut self)
        requires
            old(self).wf(),
        ensures
            final(self).wf(),
            final(self)@ == sub_vx_vy_spec(old(self)@, old(self).current_opcode),
            final(self).current_opcode == old(self).current_opcode,
    {
        proof {
            lemma_field_bounds(self.current_opcode);
        }
        let a = self.read_vx();
        let b = self.read_vy();
        let x = self.compute_x();
        self.v[x as usize] = ((a as u16 + 256 - b as u16) % 256) as u8;
        self.v[15] = if a > b { 1 } else { 0 };
    }

    /// `Vx <- Vy - Vx mod 256`, then the flag register takes the not-borrow:
    /// 1 exactly when `Vy > Vx` held before.
    fn subn_vx_vy(&mut self)
        requires
            old(self).wf(),
        ensures
            final(self).wf(),
            final(self)@ == subn_vx_vy_spec(old(self)@, old(self).current_opcode),
            final(self).current_opcode == old(self).current_opcode,
    {
        proof {
            lemma_field_bounds(self.current_opcode);
        }
        let a = self.read_vx();
        let b = self.read_vy();
        let x = self.compute_x();
        self.v[x as usize] = ((b as u16 + 256 - a as u16) % 256) as u8;
        self.v[15] = if b > a { 1 } else { 0 };
    }

    /// `Vx <- Vx >> 1`, then the flag register takes the pre-shift low bit.
    fn shr_vx_vy(&mut self)
        requires
            old(self).wf(),
        ensures
            final(self).wf(),
            final(self)@ == shr_vx_vy_spec(old(self)@, old(self).current_opcode),
            final(self).current_opcode == old(self).current_opcode,
    {
        proof {
            lemma_field_bounds(self.current_opcode);
        }
        let a = self.read_vx();
        let x = self.compute_x();
        self.v[x as usize] = a >> 1u8;
        self.v[15] = a & 1u8;
    }

    /// `Vx <- Vx << 1` modulo 256, then the flag register takes the pre-shift
    /// high bit.
    fn shl_vx_vy(&mut self)
        requires
            old(self).wf(),
        ensures
            final(self).wf(),
            final(self)@ == shl_vx_vy_spec(old(self)@, old(self).current_opcode),
            final(self).current_opcode == old(self).current_opcode,
    {
        proof {
            lemma_field_bounds(self.current_opcode);
        }
        let a = self.read_vx();
        let x = self.compute_x();
        self.v[x as usize] = a << 1u8;
        self.v[15] = (a >> 7u8) & 1u8;
    }

    /// `index <- nnn`.
    fn ld_i_addr(&mut self)
        requires
            old(self).wf(),
        ensures
            final(self).wf(),
            final(self)@ == ld_i_spec(old(self)@, old(self).current_opcode),
            final(self).current_opcode == old(self).current_opcode,
    {
        self.i = self.compute_nnn();
    }

    /// Indexed jump: `pc <- nnn + V0`.
    fn jp_v0_addr(&mut self)
        requires
            old(self).wf(),
        ensures
            final(self).wf(),
            final(self)@ == jp_v0_spec(old(self)@, old(self).current_opcode),
            final(self).current_opcode == old(self).current_opcode,
    {
        proof {
            lemma_field_bounds(self.current_opcode);
        }
        let nnn = self.compute_nnn();
        let v0 = self.v[0];
        self.pc = nnn + v0 as u16;
    }

    /// `Vx <- random byte & kk`. The byte comes from the host's random
    /// source; the contract holds whatever byte came back.
    fn rnd_vx_byte(&mut self)
        requires
            old(self).wf(),
        ensures
            final(self).wf(),
            exists|b: u8|
                final(self)@ == rnd_spec(old(self)@, old(self).current_opcode, b),
            final(self).current_opcode == old(self).current_opcode,
    {
        let b = random_byte();
        let kk = self.compute_kk();
        self.write_vx(b & kk);
        proof {
            assert(self@ == rnd_spec(old(self)@, old(self).current_opcode, b));
        }
    }

    /// Draw an `n`-row sprite read from memory at the index register, with
    /// its origin at (`Vx` mod width, `Vy` mod height). Every set sprite bit
    /// toggles its cell; row and column overflow wrap independently per axis.
    /// The flag register is then set to 1 exactly when some toggled cell was
    /// already on.
    fn drw_vx_vy_nibble(&mut self)
        requires
            old(self).wf(),
            op_n(old(self).current_opcode) > 0 ==> old(self)@.i as int + op_n(
                old(self).current_opcode,
            ) as int <= MEM_SIZE as int,
        ensures
            final(self).wf(),
            final(self)@ == drw_spec(old(self)@, old(self).current_opcode),
            final(self).current_opcode == old(self).current_opcode,
    {
        let ghost s0 = old(self)@;
        let ghost w = old(self).current_opcode;
        proof {
            lemma_field_bounds(w);
        }
        let x_pos = (self.read_vx() as usize) % SCREEN_W;
        let y_pos = (self.read_vy() as usize) % SCREEN_H;
        let n = self.compute_n();
        self.v[15] = 0;
        let ghost x0 = draw_x0(s0, w);
        let ghost y0 = draw_y0(s0, w);
        proof {
            assert(forall|p: int|
                0 <= p < SCREEN_CELLS ==> !touched_upto(s0, w, p, 0, 0));
            assert(!collides_upto(s0, w, 0, 0));
        }
        let mut r: u16 = 0;
        while r < n
            invariant
                old(self).wf(),
                r <= n,
                n == op_n(w),
                n < 16,
                n > 0 ==> s0.i as int + n as int <= MEM_SIZE as int,
                w == old(self).current_opcode,
                s0 == old(self)@,
                x_pos as int == x0,
                y_pos as int == y0,
                x0 == draw_x0(s0, w),
                y0 == draw_y0(s0, w),
                self.wf(),
                self.current_opcode == w,
                self@ == (CpuView { v: self.v@, screen: self@.screen, ..s0 }),
                self.v@ == s0.v.update(
                    15,
                    if collides_upto(s0, w, r as int, 0) { 1u8 } else { 0u8 },
                ),
                forall|p: int|
                    0 <= p < SCREEN_CELLS ==> ((#[trigger] self.screen_buffer@[p] != 0) == (
                    s0.screen[p] != touched_upto(s0, w, p, r as int, 0))),
            decreases n - r,
        {
            let sprite_byte = self.memory[(self.i + r) as usize];
            let mut c: usize = 0;
            while c < 8
                invariant
                    old(self).wf(),
                    r < n,
                    c <= 8,
                    n == op_n(w),
                    n < 16,
                    s0.i as int + n as int <= MEM_SIZE as int,
                    w == old(self).current_opcode,
                    s0 == old(self)@,
                    x_pos as int == x0,
                    y_pos as int == y0,
                    x0 == draw_x0(s0, w),
                    y0 == draw_y0(s0, w),
                    sprite_byte == s0.memory[s0.i + r as int],
                    self.wf(),
                    self.current_opcode == w,
                    self@ == (CpuView { v: self.v@, screen: self@.screen, ..s0 }),
                    self.v@ == s0.v.update(
                        15,
                        if collides_upto(s0, w, r as int, c as int) { 1u8 } else { 0u8 },
                    ),
                    forall|p: int|
                        0 <= p < SCREEN_CELLS ==> ((#[trigger] self.screen_buffer@[p] != 0) == (
                        s0.screen[p] != touched_upto(s0, w, p, r as int, c as int))),
                decreases 8 - c,
            {
                let ghost rp = r as int;
                let ghost cp = c as int;
                if sprite_byte & (0x80u8 >> (c as u8)) != 0 {
                    let px = (x_pos + c) % SCREEN_W;
                    let py = (y_pos + r as usize) % SCREEN_H;
                    let pos = px + SCREEN_W * py;
                    proof {
                        lemma_target_decomp(x0, y0, rp, cp);
                        assert(pos as int == target_cell(x0, y0, rp, cp));
                        assert(cell_col(x0, pos as int) == cp);
                        assert(cell_row(y0, pos as int) == rp);
                        assert(sprite_bit(s0.memory[s0.i + rp], cp as u8));
                        assert(!touched_upto(s0, w, pos as int, rp, cp));
                        assert(touched_upto(s0, w, pos as int, rp, cp + 1));
                    }
                    let cur = self.screen_buffer[pos];
                    if cur == PIXEL_ON {
                        self.v[15] = 1;
                    }
                    self.screen_buffer[pos] = if cur == PIXEL_ON {
                        0
                    } else {
                        PIXEL_ON
                    };
                    proof {
                        assert forall|p: int| 0 <= p < SCREEN_CELLS && p != pos implies
                            touched_upto(s0, w, p, rp, cp + 1) == touched_upto(
                                s0,
                                w,
                                p,
                                rp,
                                cp,
                            ) by {
                            lemma_cell_recomp(x0, y0, p);
                        };
                        assert((cur != 0) == s0.screen[pos as int]);
                        assert forall|p: int| 0 <= p < SCREEN_CELLS implies ((
                        #[trigger] self.screen_buffer@[p] != 0) == (s0.screen[p] != touched_upto(
                            s0,
                            w,
                            p,
                            rp,
                            cp + 1,
                        ))) by {};
                        if cur == PIXEL_ON {
                            assert(s0.screen[pos as int]);
                            assert(collides_upto(s0, w, rp, cp + 1));
                            assert(self.v@ =~= s0.v.update(15, 1u8));
                        } else {
                            assert(!s0.screen[pos as int]);
                            assert(collides_upto(s0, w, rp, cp + 1) == collides_upto(
                                s0,
                                w,
                                rp,
                                cp,
                            )) by {
                                if collides_upto(s0, w, rp, cp) {
                                    let p = choose|p: int|
                                        0 <= p < SCREEN_CELLS && touched_upto(s0, w, p, rp, cp)
                                            && s0.screen[p];
                                    assert(touched_upto(s0, w, p, rp, cp + 1) && s0.screen[p]);
                                }
                                if collides_upto(s0, w, rp, cp + 1) {
                                    let p = choose|p: int|
                                        0 <= p < SCREEN_CELLS && touched_upto(s0, w, p, rp, cp + 1)
                                            && s0.screen[p];
                                    assert(p != pos);
                                    assert(touched_upto(s0, w, p, rp, cp) && s0.screen[p]);
                                }
                            };
                        }
                    }
                } else {
                    proof {
                        assert forall|p: int| 0 <= p < SCREEN_CELLS implies touched_upto(
                            s0,
                            w,
                            p,
                            rp,
                            cp + 1,
                        ) == touched_upto(s0, w, p, rp, cp) by {
                            lemma_cell_recomp(x0, y0, p);
                            if cell_row(y0, p) == rp && cell_col(x0, p) == cp {
                                assert(!sprite_bit(s0.memory[s0.i + rp], cp as u8));
                            }
                        };
                        lemma_collides_same(s0, w, rp, cp + 1, rp, cp);
                    }
                }
                c = c + 1;
            }
            proof {
                assert forall|p: int| 0 <= p < SCREEN_CELLS implies touched_upto(
                    s0,
                    w,
                    p,
                    r as int,
                    8,
                ) == touched_upto(s0, w, p, r as int + 1, 0) by {};
                lemma_collides_same(s0, w, r as int, 8, r as int + 1, 0);
            }
            r = r + 1;
        }
        self.update_screen = true;
        proof {
            assert(self@.screen =~= drw_spec(s0, w).screen);
            assert(self.v@ == drw_spec(s0, w).v);
            assert(self@ =~= drw_spec(s0, w));
        }
    }

    /// Skip the next instruction if the key numbered `Vx` is pressed.
    fn skp_vx(&mut self)
        requires
            old(self).wf(),
            old(self).pc <= 0xfffd,
            old(self)@.v[op_x(old(self).current_opcode) as int] < 16,
        ensures
            final(self).wf(),
            final(self)@ == skp_spec(old(self)@, old(self).current_opcode),
            final(self).current_opcode == old(self).current_opcode,
    {
        let key = self.read_vx();
        if self.keys[key as usize] == 1 {
            self.pc = self.pc + 2;
        }
    }

    /// Skip the next instruction if the key numbered `Vx` is released.
    fn sknp_vx(&mut self)
        requires
            old(self).wf(),
            old(self).pc <= 0xfffd,
            old(self)@.v[op_x(old(self).current_opcode) as int] < 16,
        ensures
            final(self).wf(),
            final(self)@ == sknp_spec(old(self)@, old(self).current_opcode),
            final(self).current_opcode == old(self).current_opcode,
    {
        let key = self.read_vx();
        if self.keys[key as usize] == 0 {
            self.pc = self.pc + 2;
        }
    }

    /// `Vx <- delay timer`.
    fn ld_vx_dt(&mut self)
        requires
            old(self).wf(),
        ensures
            final(self).wf(),
            final(self)@ == ld_vx_dt_spec(old(self)@, old(self).current_opcode),
            final(self).current_opcode == old(self).current_opcode,
    {
        let dt = self.dt;
        self.write_vx(dt);
    }

    /// Key-wait: scan the latch for a pressed key. If one is found, the
    /// lowest pressed index is stored into `Vx` and the step completes; if
    /// none is, the program counter is moved back onto the instruction so the
    /// next step retries, and nothing else changes.
    fn ld_vx_k(&mut self) -> (satisfied: bool)
        requires
            old(self).wf(),
            old(self).pc >= 2,
        ensures
            final(self).wf(),
            satisfied == any_pressed(old(self)@.keys),
            satisfied ==> final(self)@ == key_wait_spec(old(self)@, old(self).current_opcode),
            !satisfied ==> final(self)@ == (CpuView {
                pc: (old(self)@.pc - 2) as u16,
                ..old(self)@
            }),
            final(self).current_opcode == old(self).current_opcode,
    {
        proof {
            lemma_field_bounds(self.current_opcode);
        }
        let mut k: usize = 0;
        while k < 16
            invariant
                k <= 16,
                *self == *old(self),
                self.wf(),
                forall|j: int| 0 <= j < k ==> self@.keys[j] != 1,
            decreases 16 - k,
        {
            if self.keys[k] == 1 {
                let x = self.compute_x();
                proof {
                    lemma_field_bounds(self.current_opcode);
                    lemma_first_pressed(self@.keys, 0, k as int);
                }
                self.v[x as usize] = k as u8;
                return true;
            }
            k = k + 1;
        }
        self.pc = self.pc - 2;
        false
    }

    /// `delay timer <- Vx`.
    fn ld_dt_vx(&mut self)
        requires
            old(self).wf(),
        ensures
            final(self).wf(),
            final(self)@ == ld_dt_vx_spec(old(self)@, old(self).current_opcode),
            final(self).current_opcode == old(self).current_opcode,
    {
        self.dt = self.read_vx();
    }

    /// `sound timer <- Vx`.
    fn ld_st_vx(&mut self)
        requires
            old(self).wf(),
        ensures
            final(self).wf(),
            final(self)@ == ld_st_vx_spec(old(self)@, old(self).current_opcode),
            final(self).current_opcode == old(self).current_opcode,
    {
        self.st = self.read_vx();
    }

    /// `index <- index + Vx` modulo 2^16; the flag register is set to 1
    /// exactly when the new index exceeds the addressable range.
    fn add_i_vx(&mut self)
        requires
            old(self).wf(),
        ensures
            final(self).wf(),
            final(self)@ == add_i_spec(old(self)@, old(self).current_opcode),
            final(self).current_opcode == old(self).current_opcode,
    {
        let vx = self.read_vx();
        let added = ((self.i as u32 + vx as u32) % 0x10000) as u16;
        self.v[15] = if added > 0xfff { 1 } else { 0 };
        self.i = added;
    }

    /// `index <- Vx * bytes-per-glyph`: the font sprite address for the digit
    /// in `Vx`.
    fn ld_f_vx(&mut self)
        requires
            old(self).wf(),
        ensures
            final(self).wf(),
            final(self)@ == ld_f_spec(old(self)@, old(self).current_opcode),
            final(self).current_opcode == old(self).current_opcode,
    {
        let vx = self.read_vx();
        self.i = (vx as u16) * 5;
    }

    /// Store the decimal digits of `Vx`: hundreds at `index`, tens at
    /// `index + 1`, ones at `index + 2`.
    fn ld_b_vx(&mut self)
        requires
            old(self).wf(),
            old(self)@.i as int + 3 <= MEM_SIZE as int,
        ensures
            final(self).wf(),
            final(self)@ == bcd_spec(old(self)@, old(self).current_opcode),
            final(self).current_opcode == old(self).current_opcode,
    {
        let vx = self.read_vx();
        let base = self.i as usize;
        self.memory[base] = vx / 100;
        self.memory[base + 1] = (vx / 10) % 10;
        self.memory[base + 2] = vx % 10;
    }

    /// Block store: registers `V0 ..= Vx` written to consecutive memory bytes
    /// starting at `index`.
    fn ld_addr_i_vx(&mut self)
        requires
            old(self).wf(),
            old(self)@.i as int + op_x(old(self).current_opcode) as int + 1 <= MEM_SIZE as int,
        ensures
            final(self).wf(),
            final(self)@ == store_block_spec(old(self)@, old(self).current_opcode),
            final(self).current_opcode == old(self).current_opcode,
    {
        proof {
            lemma_field_bounds(self.current_opcode);
        }
        let x = self.compute_x();
        let base = self.i as usize;
        let mut j: usize = 0;
        while j <= x as usize
            invariant
                old(self).wf(),
                j <= x as int + 1,
                x == op_x(old(self).current_opcode),
                x < 16,
                base == old(self)@.i as int,
                base + x as int + 1 <= MEM_SIZE as int,
                self.wf(),
                self.current_opcode == old(self).current_opcode,
                self@ == (CpuView { memory: self.memory@, ..old(self)@ }),
                forall|k: int|
                    base <= k < base + j ==> #[trigger] self.memory@[k] == old(self)@.v[k - base],
                forall|k: int|
                    (0 <= k < base || base + j <= k < MEM_SIZE)
                        ==> #[trigger] self.memory@[k] == old(self)@.memory[k],
            decreases x as int + 1 - j,
        {
            self.memory[base + j] = self.v[j];
            j = j + 1;
        }
        proof {
            assert(self@.memory =~= store_block_spec(old(self)@, old(self).current_opcode).memory);
            assert(self@ =~= store_block_spec(old(self)@, old(self).current_opcode));
        }
    }

    /// Block load: registers `V0 ..= Vx` read from consecutive memory bytes
    /// starting at `index`.
    fn ld_vx_addr_i(&mut self)
        requires
            old(self).wf(),
            old(self)@.i as int + op_x(old(self).current_opcode) as int + 1 <= MEM_SIZE as int,
        ensures
            final(self).wf(),
            final(self)@ == load_block_spec(old(self)@, old(self).current_opcode),
            final(self).current_opcode == old(self).current_opcode,
    {
        proof {
            lemma_field_bounds(self.current_opcode);
        }
        let x = self.compute_x();
        let base = self.i as usize;
        let mut j: usize = 0;
        while j <= x as usize
            invariant
                old(self).wf(),
                j <= x as int + 1,
                x == op_x(old(self).current_opcode),
                x < 16,
                base == old(self)@.i as int,
                base + x as int + 1 <= MEM_SIZE as int,
                self.wf(),
                self.current_opcode == old(self).current_opcode,
                self@ == (CpuView { v: self.v@, ..old(self)@ }),
                forall|jj: int|
                    0 <= jj < j ==> #[trigger] self.v@[jj] == old(self)@.memory[base + jj],
                forall|jj: int| j <= jj < 16 ==> #[trigger] self.v@[jj] == old(self)@.v[jj],
            decreases x as int + 1 - j,
        {
            self.v[j] = self.memory[base + j];
            j = j + 1;
        }
        proof {
            assert(self@.v =~= load_block_spec(old(self)@, old(self).current_opcode).v);
            assert(self@ =~= load_block_spec(old(self)@, old(self).current_opcode));
        }
    }

    /// One delay-timer tick: decrement by one, with a floor of zero. The host
    /// calls this at its fixed cadence.
    pub fn sub_dt(&mut self)
        ensures
            final(self)@ == tick_dt_spec(old(self)@),
            final(self).wf() == old(self).wf(),
    {
        if self.dt > 0 {
            self.dt = self.dt - 1;
        }
    }

    /// One sound-timer tick: decrement by one, with a floor of zero.
    pub fn sub_st(&mut self)
        ensures
            final(self)@ == tick_st_spec(old(self)@),
            final(self).wf() == old(self).wf(),
    {
        if self.st > 0 {
            self.st = self.st - 1;
        }
    }
}

} // verus!
