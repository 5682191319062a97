use vstd::prelude::*;

use crate::binary_op::BinaryOp;

verus! {

/// A fatal condition met while executing an instruction.  Faults signal a
/// malformed guest program; the interpreter reports them to the caller
/// instead of carrying on.
#[derive(Debug, Clone, Copy, PartialEq, Eq, Structural)]
pub enum Fault {
    /// `00EE` was executed with an empty call stack.
    StackUnderflow,
    /// `2NNN` was executed with the call stack already holding its
    /// capacity of 16 return addresses.
    StackOverflow,
    /// An access relative to the index register would run past the
    /// 4096-byte address space (`DXYN`, `FX33`, `FX55`, `FX65`).
    MemoryOutOfRange,
    /// `FX29` asked for the font sprite of a value above `0xF`.
    InvalidFontDigit,
}

/// The mathematical model of the whole machine state: 4096 bytes of memory,
/// the 32 x 64 framebuffer (row-major, `true` = lit), the call stack, the
/// program counter, the index register, the two timers, the sixteen general
/// registers, the current keypad code (`0xFF` = no key), and the font
/// table's base address, sprite data and per-digit locations.
#[verifier::ext_equal]
pub ghost struct ChipState {
    pub mem: Seq<u8>,
    pub disp: Seq<Seq<bool>>,
    pub stack: Seq<u16>,
    pub pc: int,
    pub index: u16,
    pub delay: u8,
    pub sound: u8,
    pub regs: Seq<u8>,
    pub key: u8,
    pub font_base: int,
    pub font_data: Seq<u8>,
    pub font_locs: Seq<u16>,
}

/// Well-formedness of a machine state: every component has its fixed size,
/// the program counter is a 16-bit value, the font table sits below the
/// program area at 512 and maps digit `d` to `font_base + 5 * d`.
pub open spec fn st_wf(s: ChipState) -> bool {
    &&& s.mem.len() == 4096
    &&& s.disp.len() == 32
    &&& (forall|i: int| 0 <= i < 32 ==> (#[trigger] s.disp[i]).len() == 64)
    &&& s.stack.len() <= 16
    &&& 0 <= s.pc < 0x10000
    &&& s.regs.len() == 16
    &&& s.font_data.len() == 80
    &&& 0 <= s.font_base
    &&& s.font_base + 80 <= 512
    &&& s.font_locs.len() == 16
    &&& (forall|d: int| 0 <= d < 16 ==> #[trigger] s.font_locs[d] == s.font_base + 5 * d)
}

// ---------------------------------------------------------------------------
// Instruction word fields.
// ---------------------------------------------------------------------------

/// Most-significant nibble: the opcode family.
pub open spec fn op_family(w: u16) -> int {
    w as int / 0x1000
}

/// Second nibble: the register index X.
pub open spec fn op_x(w: u16) -> int {
    (w as int / 0x100) % 0x10
}

/// Third nibble: the register index Y.
pub open spec fn op_y(w: u16) -> int {
    (w as int / 0x10) % 0x10
}

/// Least-significant nibble: the 4-bit immediate N.
pub open spec fn op_n(w: u16) -> int {
    w as int % 0x10
}

/// Low byte: the 8-bit immediate NN.
pub open spec fn op_nn(w: u16) -> u8 {
    (w as int % 0x100) as u8
}

/// Low 12 bits: the address NNN.
pub open spec fn op_nnn(w: u16) -> u16 {
    (w as int % 0x1000) as u16
}

/// The same machine state with the keypad code replaced: what recording
/// the frame's keypad input does before an instruction executes.
pub open spec fn with_key(s: ChipState, key: u8) -> ChipState {
    ChipState { key: key, ..s }
}

/// The 16-bit instruction word stored big-endian at address `pc`.
pub open spec fn fetch_word(mem: Seq<u8>, pc: int) -> u16 {
    (mem[pc] * 256 + mem[pc + 1]) as u16
}

// ---------------------------------------------------------------------------
// Per-instruction transitions.
// ---------------------------------------------------------------------------

/// An unrecognized word: no state change, but the program counter still
/// advances, so that a bad word never wedges the machine.
pub open spec fn spec_nop(s: ChipState) -> ChipState {
    ChipState { pc: s.pc + 2, ..s }
}

/// The all-unlit framebuffer.
pub open spec fn blank_display() -> Seq<Seq<bool>> {
    Seq::new(32, |i: int| Seq::new(64, |j: int| false))
}

/// `00E0`: clear the framebuffer.
pub open spec fn spec_clear(s: ChipState) -> ChipState {
    ChipState { disp: blank_display(), pc: s.pc + 2, ..s }
}

/// `00EE`: pop the stack into the program counter; underflow is fatal.
pub open spec fn spec_return(s: ChipState) -> Result<ChipState, Fault> {
    if s.stack.len() == 0 {
        Err(Fault::StackUnderflow)
    } else {
        Ok(ChipState { pc: s.stack.last() as int, stack: s.stack.drop_last(), ..s })
    }
}

/// `2NNN`: push the address of the following instruction, jump to NNN;
/// overflow of the 16-entry stack is fatal.
pub open spec fn spec_call(s: ChipState, nnn: u16) -> Result<ChipState, Fault> {
    if s.stack.len() >= 16 {
        Err(Fault::StackOverflow)
    } else {
        Ok(ChipState { stack: s.stack.push((s.pc + 2) as u16), pc: nnn as int, ..s })
    }
}

/// `1NNN`: jump, no push.
pub open spec fn spec_jump(s: ChipState, nnn: u16) -> ChipState {
    ChipState { pc: nnn as int, ..s }
}

/// `3XNN` / `4XNN` / `5XY0` / `9XY0` / `EX9E` / `EXA1`: skip the next
/// instruction word when the condition holds.
pub open spec fn spec_skip(s: ChipState, cond: bool) -> ChipState {
    ChipState { pc: s.pc + if cond { 4int } else { 2int }, ..s }
}

/// Whether keypad code `key` is a pressed key equal to `vx`.
pub open spec fn key_matches(key: u8, vx: u8) -> bool {
    key <= 0xF && key == vx
}

/// `6XNN` / `8XY0` / `FX07`: store a value in register X.
pub open spec fn spec_set_reg(s: ChipState, x: int, v: u8) -> ChipState {
    ChipState { regs: s.regs.update(x, v), pc: s.pc + 2, ..s }
}

/// `7XNN`: add an immediate to register X, wrapping, with no flag effect.
pub open spec fn spec_add_imm(s: ChipState, x: int, nn: u8) -> ChipState {
    ChipState { regs: s.regs.update(x, ((s.regs[x] + nn) % 256) as u8), pc: s.pc + 2, ..s }
}

/// `8XY1` / `8XY2` / `8XY3`: bitwise OR / AND / XOR of register X with `v`.
pub open spec fn spec_binop(s: ChipState, x: int, v: u8, op: BinaryOp) -> ChipState {
    let r = match op {
        BinaryOp::Or => s.regs[x] | v,
        BinaryOp::And => s.regs[x] & v,
        BinaryOp::Xor => s.regs[x] ^ v,
    };
    ChipState { regs: s.regs.update(x, r), pc: s.pc + 2, ..s }
}

/// `8XY4`: register X becomes the wrapped sum; VF becomes 1 exactly when
/// the unwrapped sum overflows 8 bits.  VF is written last, so when X is
/// `0xF` the flag is what remains.
pub open spec fn spec_add_carry(s: ChipState, x: int, v: u8) -> ChipState {
    let sum = s.regs[x] + v;
    let flag: u8 = if sum > 255 { 1 } else { 0 };
    ChipState {
        regs: s.regs.update(x, (sum % 256) as u8).update(15, flag),
        pc: s.pc + 2,
        ..s
    }
}

/// `8XY5` / `8XY7`: register X becomes `a - b` wrapped; VF becomes 1
/// exactly when no borrow occurred (`a >= b`).  VF is written last.
pub open spec fn spec_sub(s: ChipState, x: int, a: u8, b: u8) -> ChipState {
    let diff: u8 = if a >= b { (a - b) as u8 } else { (a - b + 256) as u8 };
    let flag: u8 = if a >= b { 1 } else { 0 };
    ChipState { regs: s.regs.update(x, diff).update(15, flag), pc: s.pc + 2, ..s }
}

/// `8XY6`: VF takes the least-significant bit of register X before the
/// shift, then X is shifted right once.  X is written last.
pub open spec fn spec_shift_right(s: ChipState, x: int) -> ChipState {
    let old_v = s.regs[x];
    ChipState {
        regs: s.regs.update(15, old_v & 1).update(x, old_v >> 1u8),
        pc: s.pc + 2,
        ..s
    }
}

/// `8XYE`: VF takes the most-significant bit of register X before the
/// shift, then X is shifted left once.  X is written last.
pub open spec fn spec_shift_left(s: ChipState, x: int) -> ChipState {
    let old_v = s.regs[x];
    ChipState {
        regs: s.regs.update(15, old_v >> 7u8).update(x, old_v << 1u8),
        pc: s.pc + 2,
        ..s
    }
}

/// `ANNN`: set the index register.
pub open spec fn spec_set_index(s: ChipState, nnn: u16) -> ChipState {
    ChipState { index: nnn, pc: s.pc + 2, ..s }
}

/// `FX1E`: add a value to the index register, wrapping 16-bit.
pub open spec fn spec_add_index(s: ChipState, v: u16) -> ChipState {
    ChipState { index: ((s.index + v) % 0x10000) as u16, pc: s.pc + 2, ..s }
}

/// `BXNN`: jump to NNN plus register X, where X is the top nibble of NNN.
pub open spec fn spec_jump_offset(s: ChipState, x: int, nnn: u16) -> ChipState {
    ChipState { pc: nnn + s.regs[x], ..s }
}

/// `CXNN`: register X becomes a random byte masked with NN.
pub open spec fn spec_random(s: ChipState, x: int, nn: u8, rnd: u8) -> ChipState {
    ChipState { regs: s.regs.update(x, rnd & nn), pc: s.pc + 2, ..s }
}

/// `FX0A`: while no key is pressed the state is left exactly as it was —
/// the program counter does not advance, so the instruction re-executes.
/// Once a key is pressed its code lands in register X.
pub open spec fn spec_get_key(s: ChipState, x: int) -> ChipState {
    if s.key <= 0xF {
        ChipState { regs: s.regs.update(x, s.key), pc: s.pc + 2, ..s }
    } else {
        s
    }
}

/// `FX15`: set the delay timer.
pub open spec fn spec_set_delay(s: ChipState, v: u8) -> ChipState {
    ChipState { delay: v, pc: s.pc + 2, ..s }
}

/// `FX18`: set the sound timer.
pub open spec fn spec_set_sound(s: ChipState, v: u8) -> ChipState {
    ChipState { sound: v, pc: s.pc + 2, ..s }
}

/// `FX29`: point the index register at the font sprite for digit `d`;
/// a value above `0xF` is not a digit and faults.
pub open spec fn spec_font_index(s: ChipState, d: u8) -> Result<ChipState, Fault> {
    if d > 0xF {
        Err(Fault::InvalidFontDigit)
    } else {
        Ok(ChipState { index: s.font_locs[d as int], pc: s.pc + 2, ..s })
    }
}

/// `FX33`: write the decimal digits of register X (hundreds, tens, ones)
/// at index, index + 1, index + 2; faults when that runs past memory.
pub open spec fn spec_bcd(s: ChipState, x: int) -> Result<ChipState, Fault> {
    if s.index + 2 > 4095 {
        Err(Fault::MemoryOutOfRange)
    } else {
        let v = s.regs[x];
        let i = s.index as int;
        Ok(ChipState {
            mem: s.mem.update(i, (v / 100) as u8).update(i + 1, ((v / 10) % 10) as u8).update(
                i + 2,
                (v % 10) as u8,
            ),
            pc: s.pc + 2,
            ..s
        })
    }
}

/// `FX55`: store registers 0 through X at the index register onward; the
/// index register itself is unmodified.  Faults when the writes would run
/// past memory.
pub open spec fn spec_store(s: ChipState, x: int) -> Result<ChipState, Fault> {
    if s.index + x > 4095 {
        Err(Fault::MemoryOutOfRange)
    } else {
        let base = s.index as int;
        Ok(ChipState {
            mem: Seq::new(
                4096,
                |i: int| if base <= i <= base + x { s.regs[i - base] } else { s.mem[i] },
            ),
            pc: s.pc + 2,
            ..s
        })
    }
}

/// `FX65`: load registers 0 through X from the index register onward.
/// Faults when the reads would run past memory.
pub open spec fn spec_load(s: ChipState, x: int) -> Result<ChipState, Fault> {
    if s.index + x > 4095 {
        Err(Fault::MemoryOutOfRange)
    } else {
        let base = s.index as int;
        Ok(ChipState {
            regs: Seq::new(16, |r: int| if r <= x { s.mem[base + r] } else { s.regs[r] }),
            pc: s.pc + 2,
            ..s
        })
    }
}

/// One tick of the timer unit: each timer steps down toward 0 and stops
/// there; nothing else moves.
pub open spec fn spec_tick(s: ChipState) -> ChipState {
    ChipState {
        delay: if s.delay > 0 { (s.delay - 1) as u8 } else { 0 },
        sound: if s.sound > 0 { (s.sound - 1) as u8 } else { 0 },
        ..s
    }
}

// ---------------------------------------------------------------------------
// Sprite drawing (`DXYN`).
// ---------------------------------------------------------------------------

/// Bit `c` of a sprite row byte, counting the most-significant bit as the
/// leftmost pixel (column 0).
pub open spec fn sprite_bit(b: u8, c: int) -> bool {
    (b >> ((7 - c) as u8)) & 1 == 1
}

/// The framebuffer after XOR-drawing a prefix of the sprite at start
/// position `(x0, y0)`: every row before `r` entirely, and the bits of row
/// `r` before column `c`.  A lit sprite bit toggles its target pixel;
/// pixels past the right or bottom edge simply do not exist here, which is
/// the clipping rule.
pub open spec fn draw_disp_part(
    disp: Seq<Seq<bool>>,
    sprite: Seq<u8>,
    x0: int,
    y0: int,
    r: int,
    c: int,
) -> Seq<Seq<bool>> {
    Seq::new(
        32,
        |i: int|
            Seq::new(
                64,
                |j: int|
                    {
                        let ri = i - y0;
                        let cj = j - x0;
                        if 0 <= ri < sprite.len() && 0 <= cj < 8 && (ri < r || (ri == r && cj < c))
                            && sprite_bit(sprite[ri], cj) {
                            !disp[i][j]
                        } else {
                            disp[i][j]
                        }
                    },
            ),
    )
}

/// The framebuffer after XOR-drawing the whole sprite.
pub open spec fn draw_disp(disp: Seq<Seq<bool>>, sprite: Seq<u8>, x0: int, y0: int) -> Seq<
    Seq<bool>,
> {
    draw_disp_part(disp, sprite, x0, y0, sprite.len() as int, 0)
}

/// The largest column strictly below `c` whose sprite bit in row byte `b`
/// is lit and lands on the screen (`x0 + column < 64`), if any.
pub open spec fn last_lit_col(b: u8, x0: int, c: int) -> Option<int>
    decreases c,
{
    if c <= 0 {
        None
    } else if x0 + (c - 1) < 64 && sprite_bit(b, c - 1) {
        Some(c - 1)
    } else {
        last_lit_col(b, x0, c - 1)
    }
}

/// The position `(row, column)` of the last sprite bit drawn among the rows
/// strictly below `r`: the bit with the largest row, then the largest
/// column, that is lit and lands on the screen.  Rows past the bottom edge
/// draw nothing.
pub open spec fn last_lit_pos(sprite: Seq<u8>, x0: int, y0: int, r: int) -> Option<(int, int)>
    decreases r,
{
    if r <= 0 {
        None
    } else if y0 + (r - 1) < 32 {
        match last_lit_col(sprite[r - 1], x0, 8) {
            Some(c) => Some((r - 1, c)),
            None => last_lit_pos(sprite, x0, y0, r - 1),
        }
    } else {
        last_lit_pos(sprite, x0, y0, r - 1)
    }
}

/// The last drawn sprite bit among the rows strictly below `r` plus the
/// bits of row `r` strictly before column `c`.
pub open spec fn last_lit_part(sprite: Seq<u8>, x0: int, y0: int, r: int, c: int) -> Option<
    (int, int),
> {
    if 0 <= r < sprite.len() && y0 + r < 32 {
        match last_lit_col(sprite[r], x0, c) {
            Some(cc) => Some((r, cc)),
            None => last_lit_pos(sprite, x0, y0, r),
        }
    } else {
        last_lit_pos(sprite, x0, y0, if r < 0 { 0 } else { sprite.len() as int })
    }
}

/// The flag value produced by the drawn bit at position `ll` (row and
/// column within the sprite): 1 when its target pixel in `disp` was
/// already lit, 0 when it was not, and the old flag `vf` when no bit was
/// drawn at all.
pub open spec fn draw_vf_at(
    disp: Seq<Seq<bool>>,
    vf: u8,
    x0: int,
    y0: int,
    ll: Option<(int, int)>,
) -> u8 {
    match ll {
        Some(rc) => if disp[y0 + rc.0][x0 + rc.1] { 1u8 } else { 0u8 },
        None => vf,
    }
}

/// The flag register after drawing: the collision status of the last drawn
/// lit sprite bit — 1 when its target pixel was already lit, 0 when it was
/// not — and the old flag when the sprite drew nothing.
pub open spec fn draw_vf(disp: Seq<Seq<bool>>, sprite: Seq<u8>, x0: int, y0: int, vf: u8) -> u8 {
    draw_vf_at(disp, vf, x0, y0, last_lit_pos(sprite, x0, y0, sprite.len() as int))
}

/// `DXYN` on register values `vx`, `vy` and height `n`: the start position
/// wraps (`vx mod 64`, `vy mod 32`), sprite pixels past an edge are
/// clipped, lit bits toggle pixels, and VF records the collision status of
/// the last drawn lit bit.  Reading the `n` sprite rows past the end of
/// memory is fatal.
pub open spec fn spec_draw(s: ChipState, vx: u8, vy: u8, n: u8) -> Result<ChipState, Fault> {
    if n > 0 && s.index + n > 4096 {
        Err(Fault::MemoryOutOfRange)
    } else {
        let x0 = (vx % 64) as int;
        let y0 = (vy % 32) as int;
        let sprite = if n == 0 {
            Seq::<u8>::empty()
        } else {
            s.mem.subrange(s.index as int, s.index + n)
        };
        Ok(ChipState {
            disp: draw_disp(s.disp, sprite, x0, y0),
            regs: s.regs.update(15, draw_vf(s.disp, sprite, x0, y0, s.regs[15])),
            pc: s.pc + 2,
            ..s
        })
    }
}

/// Drawing an empty prefix of a sprite changes nothing.
pub proof fn lemma_part_zero(d: Seq<Seq<bool>>, sprite: Seq<u8>, x0: int, y0: int)
    requires
        d.len() == 32,
        forall|i: int| 0 <= i < 32 ==> (#[trigger] d[i]).len() == 64,
    ensures
        draw_disp_part(d, sprite, x0, y0, 0, 0) == d,
{
    let p = draw_disp_part(d, sprite, x0, y0, 0, 0);
    assert forall|i: int| 0 <= i < 32 implies p[i] == d[i] by {
        assert forall|j: int| 0 <= j < 64 implies p[i][j] == d[i][j] by {}
        assert(p[i] =~= d[i]);
    }
    assert(p =~= d);
}

/// Drawing one more lit, on-screen sprite bit toggles exactly its target
/// pixel, which the prefix so far has left at its original value.
pub proof fn lemma_part_step_lit(
    d: Seq<Seq<bool>>,
    sprite: Seq<u8>,
    x0: int,
    y0: int,
    r: int,
    c: int,
)
    requires
        d.len() == 32,
        forall|i: int| 0 <= i < 32 ==> (#[trigger] d[i]).len() == 64,
        0 <= r < sprite.len(),
        0 <= c < 8,
        0 <= y0,
        y0 + r < 32,
        0 <= x0,
        x0 + c < 64,
        sprite_bit(sprite[r], c),
    ensures
        draw_disp_part(d, sprite, x0, y0, r, c)[y0 + r][x0 + c] == d[y0 + r][x0 + c],
        draw_disp_part(d, sprite, x0, y0, r, c + 1) == draw_disp_part(
            d,
            sprite,
            x0,
            y0,
            r,
            c,
        ).update(
            y0 + r,
            draw_disp_part(d, sprite, x0, y0, r, c)[y0 + r].update(x0 + c, !d[y0 + r][x0 + c]),
        ),
{
    let p0 = draw_disp_part(d, sprite, x0, y0, r, c);
    let p1 = draw_disp_part(d, sprite, x0, y0, r, c + 1);
    let tgt = p0.update(y0 + r, p0[y0 + r].update(x0 + c, !d[y0 + r][x0 + c]));
    assert forall|i: int| 0 <= i < 32 implies p1[i] == tgt[i] by {
        assert forall|j: int| 0 <= j < 64 implies p1[i][j] == tgt[i][j] by {}
        assert(p1[i] =~= tgt[i]);
    }
    assert(p1 =~= tgt);
}

/// Advancing past an unlit or off-screen sprite bit draws nothing.
pub proof fn lemma_part_step_unlit(
    d: Seq<Seq<bool>>,
    sprite: Seq<u8>,
    x0: int,
    y0: int,
    r: int,
    c: int,
)
    requires
        d.len() == 32,
        forall|i: int| 0 <= i < 32 ==> (#[trigger] d[i]).len() == 64,
        0 <= r < sprite.len(),
        0 <= c < 8,
        !sprite_bit(sprite[r], c) || x0 + c >= 64,
    ensures
        draw_disp_part(d, sprite, x0, y0, r, c + 1) == draw_disp_part(d, sprite, x0, y0, r, c),
{
    let p0 = draw_disp_part(d, sprite, x0, y0, r, c);
    let p1 = draw_disp_part(d, sprite, x0, y0, r, c + 1);
    assert forall|i: int| 0 <= i < 32 implies p1[i] == p0[i] by {
        assert forall|j: int| 0 <= j < 64 implies p1[i][j] == p0[i][j] by {}
        assert(p1[i] =~= p0[i]);
    }
    assert(p1 =~= p0);
}

/// Once every remaining column of a row would land past the right edge,
/// the row is done: its partial drawing equals the start of the next row.
pub proof fn lemma_part_row_end(
    d: Seq<Seq<bool>>,
    sprite: Seq<u8>,
    x0: int,
    y0: int,
    r: int,
    cols: int,
)
    requires
        d.len() == 32,
        forall|i: int| 0 <= i < 32 ==> (#[trigger] d[i]).len() == 64,
        0 <= cols <= 8,
        cols == 8 || x0 + cols >= 64,
        0 <= x0,
    ensures
        draw_disp_part(d, sprite, x0, y0, r, cols) == draw_disp_part(d, sprite, x0, y0, r + 1, 0),
{
    let p0 = draw_disp_part(d, sprite, x0, y0, r, cols);
    let p1 = draw_disp_part(d, sprite, x0, y0, r + 1, 0);
    assert forall|i: int| 0 <= i < 32 implies p1[i] == p0[i] by {
        assert forall|j: int| 0 <= j < 64 implies p1[i][j] == p0[i][j] by {}
        assert(p1[i] =~= p0[i]);
    }
    assert(p1 =~= p0);
}

/// Once every remaining row would land past the bottom edge, the sprite is
/// done: the partial drawing equals the whole drawing.
pub proof fn lemma_part_rows_end(
    d: Seq<Seq<bool>>,
    sprite: Seq<u8>,
    x0: int,
    y0: int,
    rows: int,
)
    requires
        d.len() == 32,
        forall|i: int| 0 <= i < 32 ==> (#[trigger] d[i]).len() == 64,
        0 <= rows <= sprite.len(),
        rows == sprite.len() || y0 + rows >= 32,
        0 <= y0,
    ensures
        draw_disp_part(d, sprite, x0, y0, rows, 0) == draw_disp(d, sprite, x0, y0),
{
    let p0 = draw_disp_part(d, sprite, x0, y0, rows, 0);
    let p1 = draw_disp(d, sprite, x0, y0);
    assert forall|i: int| 0 <= i < 32 implies p1[i] == p0[i] by {
        assert forall|j: int| 0 <= j < 64 implies p1[i][j] == p0[i][j] by {}
        assert(p1[i] =~= p0[i]);
    }
    assert(p1 =~= p0);
}

/// A column found by `last_lit_col` is in range, lands on the screen and
/// its sprite bit is lit.
pub proof fn lemma_last_lit_col_props(b: u8, x0: int, c: int)
    ensures
        (last_lit_col(b, x0, c) matches Some(ci) ==> 0 <= ci < c && x0 + ci < 64 && sprite_bit(
            b,
            ci,
        )),
    decreases c,
{
    if c > 0 {
        if !(x0 + (c - 1) < 64 && sprite_bit(b, c - 1)) {
            lemma_last_lit_col_props(b, x0, c - 1);
        }
    }
}

/// A position found by `last_lit_pos` is in range, lands on the screen
/// and its sprite bit is lit.
pub proof fn lemma_last_lit_pos_props(sprite: Seq<u8>, x0: int, y0: int, r: int)
    requires
        r <= sprite.len(),
    ensures
        (last_lit_pos(sprite, x0, y0, r) matches Some(rc) ==> 0 <= rc.0 < r && y0 + rc.0 < 32 && 0
            <= rc.1 < 8 && x0 + rc.1 < 64 && sprite_bit(sprite[rc.0], rc.1)),
    decreases r,
{
    if r > 0 {
        if y0 + (r - 1) < 32 {
            lemma_last_lit_col_props(sprite[r - 1], x0, 8);
            if last_lit_col(sprite[r - 1], x0, 8) is None {
                lemma_last_lit_pos_props(sprite, x0, y0, r - 1);
            }
        } else {
            lemma_last_lit_pos_props(sprite, x0, y0, r - 1);
        }
    }
}

/// Columns whose pixels would land past the right edge hold no drawn bit:
/// scanning them adds nothing to `last_lit_col`.
pub proof fn lemma_last_lit_col_clipped(b: u8, x0: int, m: int, c: int)
    requires
        0 <= m <= c,
        m == c || x0 + m >= 64,
    ensures
        last_lit_col(b, x0, c) == last_lit_col(b, x0, m),
    decreases c - m,
{
    if c > m {
        lemma_last_lit_col_clipped(b, x0, m, c - 1);
    }
}

/// Rows whose pixels would land past the bottom edge hold no drawn bit:
/// scanning them adds nothing to `last_lit_pos`.
pub proof fn lemma_last_lit_pos_clipped(sprite: Seq<u8>, x0: int, y0: int, m: int, r: int)
    requires
        0 <= m <= r,
        m == r || y0 + m >= 32,
    ensures
        last_lit_pos(sprite, x0, y0, r) == last_lit_pos(sprite, x0, y0, m),
    decreases r - m,
{
    if r > m {
        lemma_last_lit_pos_clipped(sprite, x0, y0, m, r - 1);
    }
}

// ---------------------------------------------------------------------------
// The whole decode table.
// ---------------------------------------------------------------------------

/// One fetch-decode-execute transition on instruction word `w` with random
/// byte `rnd`: the closed set of opcode cases of the machine, with every
/// unrecognized word an advancing no-op.
pub open spec fn spec_step(s: ChipState, w: u16, rnd: u8) -> Result<ChipState, Fault> {
    let fam = op_family(w);
    let x = op_x(w);
    let y = op_y(w);
    let n = op_n(w);
    let nn = op_nn(w);
    let nnn = op_nnn(w);
    if w == 0x00E0 {
        Ok(spec_clear(s))
    } else if w == 0x00EE {
        spec_return(s)
    } else if fam == 0x1 {
        Ok(spec_jump(s, nnn))
    } else if fam == 0x2 {
        spec_call(s, nnn)
    } else if fam == 0x3 {
        Ok(spec_skip(s, s.regs[x] == nn))
    } else if fam == 0x4 {
        Ok(spec_skip(s, s.regs[x] != nn))
    } else if fam == 0x5 && n == 0x0 {
        Ok(spec_skip(s, s.regs[x] == s.regs[y]))
    } else if fam == 0x6 {
        Ok(spec_set_reg(s, x, nn))
    } else if fam == 0x7 {
        Ok(spec_add_imm(s, x, nn))
    } else if fam == 0x8 && n == 0x0 {
        Ok(spec_set_reg(s, x, s.regs[y]))
    } else if fam == 0x8 && n == 0x1 {
        Ok(spec_binop(s, x, s.regs[y], BinaryOp::Or))
    } else if fam == 0x8 && n == 0x2 {
        Ok(spec_binop(s, x, s.regs[y], BinaryOp::And))
    } else if fam == 0x8 && n == 0x3 {
        Ok(spec_binop(s, x, s.regs[y], BinaryOp::Xor))
    } else if fam == 0x8 && n == 0x4 {
        Ok(spec_add_carry(s, x, s.regs[y]))
    } else if fam == 0x8 && n == 0x5 {
        Ok(spec_sub(s, x, s.regs[x], s.regs[y]))
    } else if fam == 0x8 && n == 0x6 {
        Ok(spec_shift_right(s, x))
    } else if fam == 0x8 && n == 0x7 {
        Ok(spec_sub(s, x, s.regs[y], s.regs[x]))
    } else if fam == 0x8 && n == 0xE {
        Ok(spec_shift_left(s, x))
    } else if fam == 0x9 && n == 0x0 {
        Ok(spec_skip(s, s.regs[x] != s.regs[y]))
    } else if fam == 0xA {
        Ok(spec_set_index(s, nnn))
    } else if fam == 0xB {
        Ok(spec_jump_offset(s, x, nnn))
    } else if fam == 0xC {
        Ok(spec_random(s, x, nn, rnd))
    } else if fam == 0xD {
        spec_draw(s, s.regs[x], s.regs[y], n as u8)
    } else if fam == 0xE && nn == 0x9E {
        Ok(spec_skip(s, key_matches(s.key, s.regs[x])))
    } else if fam == 0xE && nn == 0xA1 {
        Ok(spec_skip(s, !key_matches(s.key, s.regs[x])))
    } else if fam == 0xF && nn == 0x07 {
        Ok(spec_set_reg(s, x, s.delay))
    } else if fam == 0xF && nn == 0x0A {
        Ok(spec_get_key(s, x))
    } else if fam == 0xF && nn == 0x15 {
        Ok(spec_set_delay(s, s.regs[x]))
    } else if fam == 0xF && nn == 0x18 {
        Ok(spec_set_sound(s, s.regs[x]))
    } else if fam == 0xF && nn == 0x1E {
        Ok(spec_add_index(s, s.regs[x] as u16))
    } else if fam == 0xF && nn == 0x29 {
        spec_font_index(s, s.regs[x])
    } else if fam == 0xF && nn == 0x33 {
        spec_bcd(s, x)
    } else if fam == 0xF && nn == 0x55 {
        spec_store(s, x)
    } else if fam == 0xF && nn == 0x65 {
        spec_load(s, x)
    } else {
        Ok(spec_nop(s))
    }
}

} // verus!
