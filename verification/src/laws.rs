//! Laws of the instruction semantics, stated over the abstract transitions
//! and proved once for every machine state.

use vstd::prelude::*;
use crate::grid::{collides, drw_spec, touched, touched_upto};
use crate::model::{
    add_vx_vy_spec, call_spec, cls_spec, inv, lemma_field_bounds, load_block_spec, op_n, op_x,
    op_y,
    ret_spec, shl_vx_vy_spec, shr_vx_vy_spec, store_block_spec, sub_vx_vy_spec,
    subn_vx_vy_spec, CpuView, MEM_SIZE, SCREEN_CELLS,
};

verus! {

/// Law: for all byte pairs, register addition leaves `(Vx + Vy) mod 256` in
/// the result register and sets the flag to 1 exactly when the unsigned sum
/// exceeds 255.
pub proof fn lemma_add_carry(s: CpuView, w: u16)
    requires
        inv(s),
    ensures
        add_vx_vy_spec(s, w).v[15] == if s.v[op_x(w) as int] + s.v[op_y(w) as int] > 255 {
            1u8
        } else {
            0u8
        },
        op_x(w) != 15 ==> add_vx_vy_spec(s, w).v[op_x(w) as int]
            == ((s.v[op_x(w) as int] + s.v[op_y(w) as int]) % 256) as u8,
{
    lemma_field_bounds(w);
}

/// Law: for all byte pairs, subtraction leaves `(Vx - Vy) mod 256` in the
/// result register and sets the flag to 1 exactly when `Vx > Vy`; the
/// reverse subtraction is the mirror image.
pub proof fn lemma_sub_borrow(s: CpuView, w: u16)
    requires
        inv(s),
    ensures
        sub_vx_vy_spec(s, w).v[15] == if s.v[op_x(w) as int] > s.v[op_y(w) as int] { 1u8 } else { 0u8 },
        op_x(w) != 15 ==> sub_vx_vy_spec(s, w).v[op_x(w) as int]
            == ((s.v[op_x(w) as int] - s.v[op_y(w) as int] + 256) % 256) as u8,
        subn_vx_vy_spec(s, w).v[15] == if s.v[op_y(w) as int] > s.v[op_x(w) as int] {
            1u8
        } else {
            0u8
        },
        op_x(w) != 15 ==> subn_vx_vy_spec(s, w).v[op_x(w) as int]
            == ((s.v[op_y(w) as int] - s.v[op_x(w) as int] + 256) % 256) as u8,
{
    lemma_field_bounds(w);
}

/// Law: for every input byte, the right shift sets the flag to the pre-shift
/// low bit and the left shift sets it to the pre-shift high bit.
pub proof fn lemma_shift_flags(s: CpuView, w: u16)
    requires
        inv(s),
    ensures
        shr_vx_vy_spec(s, w).v[15] == s.v[op_x(w) as int] & 1u8,
        shl_vx_vy_spec(s, w).v[15] == (s.v[op_x(w) as int] >> 7u8) & 1u8,
        op_x(w) != 15 ==> shr_vx_vy_spec(s, w).v[op_x(w) as int] == s.v[op_x(w) as int] >> 1u8,
        op_x(w) != 15 ==> shl_vx_vy_spec(s, w).v[op_x(w) as int] == s.v[op_x(w) as int] << 1u8,
{
    lemma_field_bounds(w);
}

/// Law: after a display clear, querying any cell yields off.
pub proof fn lemma_clear_display(s: CpuView, p: int)
    requires
        0 <= p < SCREEN_CELLS,
    ensures
        !cls_spec(s).screen[p],
{
}

/// Law: a call followed immediately by a return restores the program counter
/// that existed before the call, at any nesting depth the stack admits; the
/// stack pointer, registers, memory and display come back too, and the stack
/// is intact below the restored pointer.
pub proof fn lemma_call_then_ret(s: CpuView, w: u16)
    requires
        inv(s),
        s.sp < 16,
    ensures
        ret_spec(call_spec(s, w)).pc == s.pc,
        ret_spec(call_spec(s, w)).sp == s.sp,
        ret_spec(call_spec(s, w)).v == s.v,
        ret_spec(call_spec(s, w)).memory == s.memory,
        ret_spec(call_spec(s, w)).screen == s.screen,
        forall|j: int| 0 <= j < s.sp ==> ret_spec(call_spec(s, w)).stack[j] == s.stack[j],
{
}

/// Law: drawing the same sprite at the same coordinates twice restores the
/// prior framebuffer exactly (the toggle is self-inverse), and the second
/// draw reports the flag as 1 exactly when some cell the sprite lands on was
/// on after the first draw. The coordinate registers must not be the flag
/// register, which the first draw overwrites.
pub proof fn lemma_draw_twice(s: CpuView, w: u16)
    requires
        inv(s),
        op_x(w) != 15,
        op_y(w) != 15,
    ensures
        drw_spec(drw_spec(s, w), w).screen == s.screen,
        (drw_spec(drw_spec(s, w), w).v[15] == 1u8) == exists|p: int|
            0 <= p < SCREEN_CELLS && #[trigger] touched(s, w, p) && drw_spec(s, w).screen[p],
{
    lemma_field_bounds(w);
    let t = drw_spec(s, w);
    let n = op_n(w) as int;
    assert forall|p: int| 0 <= p < SCREEN_CELLS implies #[trigger] touched_upto(t, w, p, n, 0)
        == touched_upto(s, w, p, n, 0) by {};
    assert(drw_spec(t, w).screen =~= s.screen);
    assert((drw_spec(t, w).v[15] == 1u8) == exists|p: int|
        0 <= p < SCREEN_CELLS && #[trigger] touched(s, w, p) && t.screen[p]) by {
        if collides(t, w) {
            let p = choose|p: int|
                0 <= p < SCREEN_CELLS && touched_upto(t, w, p, n, 0) && t.screen[p];
            assert(touched(s, w, p) && t.screen[p]);
        }
        if exists|p: int| 0 <= p < SCREEN_CELLS && #[trigger] touched(s, w, p) && t.screen[p] {
            let p = choose|p: int|
                0 <= p < SCREEN_CELLS && #[trigger] touched(s, w, p) && t.screen[p];
            assert(touched_upto(t, w, p, n, 0) && t.screen[p]);
            assert(collides(t, w));
        }
    };
}

/// Law: a block store followed by a block load through the same base address
/// round-trips the registers `V0 ..= Vx` exactly, both endpoints included,
/// whatever happened to the registers in between and whichever instruction
/// words carry the two operations, as long as the stored bytes and the base
/// are intact.
pub proof fn lemma_block_round_trip(s: CpuView, w: u16, t: CpuView, w2: u16)
    requires
        inv(s),
        inv(t),
        s.i as int + op_x(w) as int + 1 <= MEM_SIZE as int,
        t.memory == store_block_spec(s, w).memory,
        t.i == s.i,
        op_x(w2) == op_x(w),
    ensures
        forall|j: int| 0 <= j <= op_x(w) ==> #[trigger] load_block_spec(t, w2).v[j] == s.v[j],
{
    lemma_field_bounds(w);
}

} // verus!
