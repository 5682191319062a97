use vstd::prelude::*;

use crate::model::ChipState;
use crate::model::draw_disp;
use crate::model::last_lit_pos;
use crate::model::lemma_last_lit_pos_props;
use crate::model::op_family;
use crate::model::spec_add_carry;
use crate::model::spec_draw;
use crate::model::spec_step;
use crate::model::spec_sub;
use crate::model::st_wf;

verus! {

/// Add with carry (`8XY4`), for any register values a and b and any
/// destination register other than VF itself: the flag register ends as 1
/// exactly when the unwrapped sum a + b exceeds 255, and the destination
/// ends as (a + b) mod 256.
pub proof fn lemma_add_with_carry_flag(s: ChipState, x: int, v: u8)
    requires
        st_wf(s),
        0 <= x < 15,
    ensures
        spec_add_carry(s, x, v).regs[15] == (if s.regs[x] + v > 255 {
            1u8
        } else {
            0u8
        }),
        spec_add_carry(s, x, v).regs[x] as int == (s.regs[x] + v) % 256,
{
}

/// Subtract with borrow (`8XY5` / `8XY7`), for any values a and b and any
/// destination register other than VF itself: the flag register ends as 1
/// exactly when a >= b (no borrow), and the destination ends as
/// (a - b) mod 256.
pub proof fn lemma_sub_borrow_flag(s: ChipState, x: int, a: u8, b: u8)
    requires
        st_wf(s),
        0 <= x < 15,
    ensures
        spec_sub(s, x, a, b).regs[15] == (if a >= b {
            1u8
        } else {
            0u8
        }),
        spec_sub(s, x, a, b).regs[x] as int == (a - b + 256) % 256,
{
}

/// XOR drawing is self-inverse on the framebuffer alone: drawing any
/// sprite twice over any framebuffer restores every pixel.
pub proof fn lemma_draw_disp_involution(disp: Seq<Seq<bool>>, sprite: Seq<u8>, x0: int, y0: int)
    requires
        disp.len() == 32,
        forall|i: int| 0 <= i < 32 ==> (#[trigger] disp[i]).len() == 64,
    ensures
        draw_disp(draw_disp(disp, sprite, x0, y0), sprite, x0, y0) == disp,
{
    let d1 = draw_disp(disp, sprite, x0, y0);
    let d2 = draw_disp(d1, sprite, x0, y0);
    assert forall|i: int| 0 <= i < 32 implies d2[i] == disp[i] by {
        assert forall|j: int| 0 <= j < 64 implies d2[i][j] == disp[i][j] by {}
        assert(d2[i] =~= disp[i]);
    }
    assert(d2 =~= disp);
}

/// Drawing the same sprite twice at the same coordinates (`DXYN` twice
/// with the same arguments) restores the framebuffer to its state before
/// the first draw, whatever that state was.
pub proof fn lemma_draw_twice_restores_display(s: ChipState, vx: u8, vy: u8, n: u8)
    requires
        st_wf(s),
        n <= 15,
        n == 0 || s.index + n <= 4096,
    ensures
        spec_draw(s, vx, vy, n) is Ok,
        spec_draw(spec_draw(s, vx, vy, n).unwrap(), vx, vy, n) is Ok,
        spec_draw(spec_draw(s, vx, vy, n).unwrap(), vx, vy, n).unwrap().disp == s.disp,
{
    let x0 = (vx % 64) as int;
    let y0 = (vy % 32) as int;
    let sprite = if n == 0 {
        Seq::<u8>::empty()
    } else {
        s.mem.subrange(s.index as int, s.index + n)
    };
    let s1 = spec_draw(s, vx, vy, n).unwrap();
    assert(s1.mem == s.mem && s1.index == s.index);
    lemma_draw_disp_involution(s.disp, sprite, x0, y0);
}

/// On the second of two identical draws whose sprite bits all land on
/// previously unlit pixels, the flag register reports a collision: the
/// first draw lit the pixel under the last drawn sprite bit, so the
/// second finds it lit and sets VF to 1.  (When that pixel was already
/// lit before the first draw, the first draw clears it and the second
/// reports no collision there — such framebuffers are left out here.)
pub proof fn lemma_second_draw_sets_collision(
    s: ChipState,
    vx: u8,
    vy: u8,
    n: u8,
    r: int,
    c: int,
)
    requires
        st_wf(s),
        0 < n <= 15,
        s.index + n <= 4096,
        last_lit_pos(
            s.mem.subrange(s.index as int, s.index + n),
            (vx % 64) as int,
            (vy % 32) as int,
            n as int,
        ) == Some((r, c)),
        !s.disp[(vy % 32) + r][(vx % 64) + c],
    ensures
        spec_draw(s, vx, vy, n) is Ok,
        spec_draw(spec_draw(s, vx, vy, n).unwrap(), vx, vy, n) is Ok,
        spec_draw(spec_draw(s, vx, vy, n).unwrap(), vx, vy, n).unwrap().regs[15] == 1,
{
    let x0 = (vx % 64) as int;
    let y0 = (vy % 32) as int;
    let sprite = s.mem.subrange(s.index as int, s.index + n);
    lemma_last_lit_pos_props(sprite, x0, y0, n as int);
    let s1 = spec_draw(s, vx, vy, n).unwrap();
    assert(s1.mem == s.mem && s1.index == s.index);
    assert(s1.disp == draw_disp(s.disp, sprite, x0, y0));
    assert(s1.disp[y0 + r][x0 + c] == !s.disp[y0 + r][x0 + c]);
}

/// `CALL` (`2NNN`) followed by `RETURN` (`00EE`) resumes at the
/// instruction after the call: the program counter ends exactly two bytes
/// past its value at the call, and the stack is as it was before it.
pub proof fn lemma_call_then_return(s: ChipState, w_call: u16, rnd: u8)
    requires
        st_wf(s),
        op_family(w_call) == 0x2,
        s.stack.len() < 16,
        s.pc + 2 <= 0xFFFF,
    ensures
        spec_step(s, w_call, rnd) is Ok,
        spec_step(spec_step(s, w_call, rnd).unwrap(), 0x00EE, rnd) is Ok,
        spec_step(spec_step(s, w_call, rnd).unwrap(), 0x00EE, rnd).unwrap().pc == s.pc + 2,
        spec_step(spec_step(s, w_call, rnd).unwrap(), 0x00EE, rnd).unwrap().stack == s.stack,
{
    assert(w_call >= 0x2000);
    let s1 = spec_step(s, w_call, rnd).unwrap();
    assert(s1.stack == s.stack.push((s.pc + 2) as u16));
    let s2 = spec_step(s1, 0x00EE, rnd).unwrap();
    assert(s2.stack =~= s.stack);
}

} // verus!
