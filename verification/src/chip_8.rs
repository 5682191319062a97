use vstd::prelude::*;

use crate::binary_op::BinaryOp;
use crate::font::Font;
use crate::keyboard::Keyboard;
use crate::model::ChipState;
use crate::model::Fault;
use crate::model::blank_display;
use crate::model::draw_disp;
use crate::model::draw_disp_part;
use crate::model::draw_vf_at;
use crate::model::fetch_word;
use crate::model::last_lit_part;
use crate::model::last_lit_pos;
use crate::model::lemma_last_lit_col_clipped;
use crate::model::lemma_last_lit_pos_clipped;
use crate::model::lemma_part_row_end;
use crate::model::lemma_part_rows_end;
use crate::model::lemma_part_step_lit;
use crate::model::lemma_part_step_unlit;
use crate::model::lemma_part_zero;
use crate::model::spec_add_carry;
use crate::model::spec_add_imm;
use crate::model::spec_add_index;
use crate::model::spec_bcd;
use crate::model::spec_binop;
use crate::model::spec_call;
use crate::model::spec_clear;
use crate::model::spec_draw;
use crate::model::spec_font_index;
use crate::model::spec_get_key;
use crate::model::spec_jump;
use crate::model::spec_jump_offset;
use crate::model::spec_load;
use crate::model::spec_nop;
use crate::model::spec_random;
use crate::model::spec_return;
use crate::model::spec_set_delay;
use crate::model::spec_set_index;
use crate::model::spec_set_reg;
use crate::model::spec_set_sound;
use crate::model::spec_shift_left;
use crate::model::spec_shift_right;
use crate::model::spec_skip;
use crate::model::spec_step;
use crate::model::spec_store;
use crate::model::spec_sub;
use crate::model::spec_tick;
use crate::model::sprite_bit;
use crate::model::st_wf;
use crate::model::with_key;
use crate::rng::new_thread_rng;
use crate::rng::random_byte_below_max;

verus! {

/// The view of the framebuffer as a sequence of rows of booleans.
pub open spec fn disp_view(d: Vec<Vec<bool>>) -> Seq<Seq<bool>> {
    Seq::new(d@.len(), |i: int| d@[i]@)
}

/// The whole interpreter: memory, framebuffer, call stack, registers,
/// timers, the keypad state seen by the current instruction, the random
/// source for `CXNN` and the font table.
pub struct Chip8 {
    /// 4096 bytes of addressable memory; programs load at 512.
    pub memory: Vec<u8>,
    /// 32 rows of 64 monochrome pixels; `true` = lit.
    pub display_buffer: Vec<Vec<bool>>,
    /// Return addresses, at most 16 deep.
    pub stack: Vec<u16>,
    /// The program counter, always advanced by whole 2-byte words.
    pub pc_reg: u16,
    /// The index register: a memory address pointer.
    pub index_reg: u16,
    /// The delay timer, stepped down once per display frame.
    pub delay_timer_register: u8,
    /// The sound timer; nonzero gates audio in the caller.
    pub sound_timer_register: u8,
    /// The sixteen general registers V0..VF.
    pub v_regs: Vec<u8>,
    /// The keypad state handed in with the current frame.
    pub keyboard: Keyboard,
    /// The random source consumed by `CXNN`.
    pub rng: rand::rngs::ThreadRng,
    /// The font table for `FX29`.
    pub font: Font,
}

impl View for Chip8 {
    type V = ChipState;

    open spec fn view(&self) -> ChipState {
        ChipState {
            mem: self.memory@,
            disp: disp_view(self.display_buffer),
            stack: self.stack@,
            pc: self.pc_reg as int,
            index: self.index_reg,
            delay: self.delay_timer_register,
            sound: self.sound_timer_register,
            regs: self.v_regs@,
            key: self.keyboard.spec_keycode(),
            font_base: self.font.font_location_in_memory as int,
            font_data: self.font.font_data@,
            font_locs: self.font.char_sprite_locations@,
        }
    }
}

/// A fresh all-unlit framebuffer of 32 rows by 64 columns.
fn blank_display_buffer() -> (d: Vec<Vec<bool>>)
    ensures
        disp_view(d) == blank_display(),
{
    let mut d: Vec<Vec<bool>> = Vec::new();
    let mut i: usize = 0;
    while i < 32
        invariant
            i <= 32,
            d@.len() == i,
            forall|k: int| 0 <= k < i ==> (#[trigger] d@[k])@ == Seq::new(64, |j: int| false),
        decreases 32 - i,
    {
        let row: Vec<bool> = vec![false; 64];
        proof {
            assert(row@ =~= Seq::new(64, |j: int| false));
        }
        d.push(row);
        i = i + 1;
    }
    proof {
        assert(disp_view(d) =~= blank_display());
    }
    d
}

impl Chip8 {
    /// Every component has its fixed size and the font table is coherent.
    pub open spec fn wf(&self) -> bool {
        st_wf(self@)
    }

    /// A fresh machine: zeroed memory and registers, a blank framebuffer,
    /// an empty stack, the program counter at 512 and the standard font
    /// table (not yet loaded into memory).
    pub fn new() -> (c: Chip8)
        ensures
            c.wf(),
            c@.mem == Seq::new(4096, |i: int| 0u8),
            c@.disp == blank_display(),
            c@.stack == Seq::<u16>::empty(),
            c@.pc == 512,
            c@.index == 0,
            c@.delay == 0,
            c@.sound == 0,
            c@.regs == Seq::new(16, |i: int| 0u8),
            c@.key == 0xFF,
            c@.font_base == 80,
    {
        let memory: Vec<u8> = vec![0u8; 4096];
        let v_regs: Vec<u8> = vec![0u8; 16];
        proof {
            assert(memory@ =~= Seq::new(4096, |i: int| 0u8));
            assert(v_regs@ =~= Seq::new(16, |i: int| 0u8));
        }
        let c = Chip8 {
            memory,
            display_buffer: blank_display_buffer(),
            stack: Vec::new(),
            pc_reg: 512,
            index_reg: 0,
            delay_timer_register: 0,
            sound_timer_register: 0,
            v_regs,
            keyboard: Keyboard::NoKey,
            rng: new_thread_rng(),
            font: Font::new_standard(),
        };
        proof {
            assert(c@.stack =~= Seq::<u16>::empty());
        }
        c
    }

    /// One tick of the timer unit, called once per display frame: each
    /// timer steps down toward 0 and stops there.
    pub fn update_timers(&mut self)
        requires
            old(self).wf(),
        ensures
            final(self).wf(),
            final(self)@ == spec_tick(old(self)@),
    {
        if self.delay_timer_register != 0 {
            self.delay_timer_register = self.delay_timer_register - 1;
        }
        if self.sound_timer_register != 0 {
            self.sound_timer_register = self.sound_timer_register - 1;
        }
        proof {
            assert(self@ =~= spec_tick(old(self)@));
        }
    }

    /// `00E0`: clear every pixel of the framebuffer.  Afterwards every
    /// cell reads `false`, whatever was lit before.
    pub fn clear_display_instruction(&mut self)
        requires
            old(self).wf(),
            old(self).pc_reg + 2 <= 0xFFFF,
        ensures
            final(self).wf(),
            final(self)@ == spec_clear(old(self)@),
            forall|i: int, j: int|
                0 <= i < 32 && 0 <= j < 64 ==> !(#[trigger] final(self)@.disp[i][j]),
    {
        self.display_buffer = blank_display_buffer();
        self.pc_reg = self.pc_reg + 2;
        proof {
            assert(self@ =~= spec_clear(old(self)@));
        }
    }

    /// `1NNN`: set the program counter, no push.
    pub fn jump_instruction(&mut self, location: u16)
        requires
            old(self).wf(),
        ensures
            final(self).wf(),
            final(self)@ == spec_jump(old(self)@, location),
    {
        self.pc_reg = location;
        proof {
            assert(self@ =~= spec_jump(old(self)@, location));
        }
    }

    /// `2NNN`: push the address of the following instruction and jump;
    /// a stack already 16 deep overflows, which is fatal.
    pub fn call_instruction(&mut self, location: u16) -> (r: Result<(), Fault>)
        requires
            old(self).wf(),
            old(self).pc_reg + 2 <= 0xFFFF,
        ensures
            final(self).wf(),
            match spec_call(old(self)@, location) {
                Ok(s) => r is Ok && final(self)@ == s,
                Err(f) => r == Err::<(), Fault>(f) && final(self)@ == old(self)@,
            },
    {
        if self.stack.len() >= 16 {
            return Err(Fault::StackOverflow);
        }
        self.stack.push(self.pc_reg + 2);
        self.pc_reg = location;
        proof {
            assert(self@ =~= spec_call(old(self)@, location).unwrap());
        }
        Ok(())
    }

    /// `00EE`: pop the stack into the program counter; an empty stack
    /// underflows, which is fatal.
    pub fn return_instruction(&mut self) -> (r: Result<(), Fault>)
        requires
            old(self).wf(),
        ensures
            final(self).wf(),
            match spec_return(old(self)@) {
                Ok(s) => r is Ok && final(self)@ == s,
                Err(f) => r == Err::<(), Fault>(f) && final(self)@ == old(self)@,
            },
    {
        match self.stack.pop() {
            Some(return_address) => {
                self.pc_reg = return_address;
                proof {
                    assert(self@ =~= spec_return(old(self)@).unwrap());
                }
                Ok(())
            },
            None => Err(Fault::StackUnderflow),
        }
    }

    /// Advance the program counter over the next instruction word when
    /// `cond` holds, else just past the current one.
    fn skip_next_if(&mut self, cond: bool)
        requires
            old(self).wf(),
            old(self).pc_reg + 4 <= 0xFFFF,
        ensures
            final(self).wf(),
            final(self)@ == spec_skip(old(self)@, cond),
    {
        if cond {
            self.pc_reg = self.pc_reg + 4;
        } else {
            self.pc_reg = self.pc_reg + 2;
        }
        proof {
            assert(self@ =~= spec_skip(old(self)@, cond));
        }
    }

    /// `3XNN` / `4XNN` / `5XY0` / `9XY0`: advance by 4 instead of 2 when
    /// `reg_val == num` matches the wanted `equality`.
    pub fn skipif_vx_reg_nn_instruction(&mut self, reg_val: u8, num: u8, equality: bool)
        requires
            old(self).wf(),
            old(self).pc_reg + 4 <= 0xFFFF,
        ensures
            final(self).wf(),
            final(self)@ == spec_skip(old(self)@, (reg_val == num) == equality),
    {
        self.skip_next_if((reg_val == num) == equality);
    }

    /// `6XNN` / `8XY0` / `FX07`: store a value in register `reg`.
    pub fn set_vx_reg_instruction(&mut self, reg: usize, num: u8)
        requires
            old(self).wf(),
            reg < 16,
            old(self).pc_reg + 2 <= 0xFFFF,
        ensures
            final(self).wf(),
            final(self)@ == spec_set_reg(old(self)@, reg as int, num),
    {
        self.v_regs[reg] = num;
        self.pc_reg = self.pc_reg + 2;
        proof {
            assert(self@ =~= spec_set_reg(old(self)@, reg as int, num));
        }
    }

    /// `8XY1` / `8XY2` / `8XY3`: bitwise OR / AND / XOR of register `reg`
    /// with `num`.
    pub fn bin_op_vx_reg_instruction(&mut self, reg: usize, num: u8, op: BinaryOp)
        requires
            old(self).wf(),
            reg < 16,
            old(self).pc_reg + 2 <= 0xFFFF,
        ensures
            final(self).wf(),
            final(self)@ == spec_binop(old(self)@, reg as int, num, op),
    {
        self.v_regs[reg] = match op {
            BinaryOp::Or => self.v_regs[reg] | num,
            BinaryOp::And => self.v_regs[reg] & num,
            BinaryOp::Xor => self.v_regs[reg] ^ num,
        };
        self.pc_reg = self.pc_reg + 2;
        proof {
            assert(self@ =~= spec_binop(old(self)@, reg as int, num, op));
        }
    }

    /// `7XNN` (`carry == false`) and `8XY4` (`carry == true`): add `num`
    /// to register `reg`, wrapping on 8-bit overflow.  With `carry`, VF is
    /// then set to 1 exactly when the unwrapped sum exceeds 255, else 0.
    pub fn add_reg_vx_instruction(&mut self, reg: usize, num: u8, carry: bool)
        requires
            old(self).wf(),
            reg < 16,
            old(self).pc_reg + 2 <= 0xFFFF,
        ensures
            final(self).wf(),
            final(self)@ == if carry {
                spec_add_carry(old(self)@, reg as int, num)
            } else {
                spec_add_imm(old(self)@, reg as int, num)
            },
    {
        let sum: u16 = self.v_regs[reg] as u16 + num as u16;
        self.v_regs[reg] = (sum % 256) as u8;
        if carry {
            self.v_regs[15] = if sum > 255 {
                1
            } else {
                0
            };
        }
        self.pc_reg = self.pc_reg + 2;
        proof {
            if carry {
                assert(self@ =~= spec_add_carry(old(self)@, reg as int, num));
            } else {
                assert(self@ =~= spec_add_imm(old(self)@, reg as int, num));
            }
        }
    }

    /// `8XY5` (`flipped == false`): register `reg` becomes `VX - num`;
    /// `8XY7` (`flipped == true`): it becomes `num - VX`.  Both wrap, and
    /// VF is then set to 1 exactly when no borrow occurred.
    pub fn subtract_vx_reg_instruction(&mut self, reg: usize, num: u8, flipped: bool)
        requires
            old(self).wf(),
            reg < 16,
            old(self).pc_reg + 2 <= 0xFFFF,
        ensures
            final(self).wf(),
            final(self)@ == if flipped {
                spec_sub(old(self)@, reg as int, num, old(self)@.regs[reg as int])
            } else {
                spec_sub(old(self)@, reg as int, old(self)@.regs[reg as int], num)
            },
    {
        let a: u8 = if flipped {
            num
        } else {
            self.v_regs[reg]
        };
        let b: u8 = if flipped {
            self.v_regs[reg]
        } else {
            num
        };
        if a >= b {
            self.v_regs[reg] = a - b;
            self.v_regs[15] = 1;
        } else {
            self.v_regs[reg] = ((a as u16 + 256) - b as u16) as u8;
            self.v_regs[15] = 0;
        }
        self.pc_reg = self.pc_reg + 2;
        proof {
            if flipped {
                assert(self@ =~= spec_sub(old(self)@, reg as int, num, old(self)@.regs[reg as int]));
            } else {
                assert(self@ =~= spec_sub(old(self)@, reg as int, old(self)@.regs[reg as int], num));
            }
        }
    }

    /// `8XY6` (`right_shift == true`) and `8XYE` (`right_shift == false`):
    /// VF takes the bit shifted out of register `reg` (least-significant
    /// for right, most-significant for left), then `reg` is shifted once.
    pub fn shift_vx_register(&mut self, reg: usize, right_shift: bool)
        requires
            old(self).wf(),
            reg < 16,
            old(self).pc_reg + 2 <= 0xFFFF,
        ensures
            final(self).wf(),
            final(self)@ == if right_shift {
                spec_shift_right(old(self)@, reg as int)
            } else {
                spec_shift_left(old(self)@, reg as int)
            },
    {
        let old_v: u8 = self.v_regs[reg];
        if right_shift {
            self.v_regs[15] = old_v & 1;
            self.v_regs[reg] = old_v >> 1u8;
        } else {
            self.v_regs[15] = old_v >> 7u8;
            self.v_regs[reg] = old_v << 1u8;
        }
        self.pc_reg = self.pc_reg + 2;
        proof {
            if right_shift {
                assert(self@ =~= spec_shift_right(old(self)@, reg as int));
            } else {
                assert(self@ =~= spec_shift_left(old(self)@, reg as int));
            }
        }
    }

    /// `ANNN`: set the index register.
    pub fn set_index_reg_instruction(&mut self, num: u16)
        requires
            old(self).wf(),
            old(self).pc_reg + 2 <= 0xFFFF,
        ensures
            final(self).wf(),
            final(self)@ == spec_set_index(old(self)@, num),
    {
        self.index_reg = num;
        self.pc_reg = self.pc_reg + 2;
        proof {
            assert(self@ =~= spec_set_index(old(self)@, num));
        }
    }

    /// `FX1E`: add a value to the index register, wrapping 16-bit.
    pub fn add_to_index_reg_instruction(&mut self, num: u16)
        requires
            old(self).wf(),
            old(self).pc_reg + 2 <= 0xFFFF,
        ensures
            final(self).wf(),
            final(self)@ == spec_add_index(old(self)@, num),
    {
        let sum: u32 = self.index_reg as u32 + num as u32;
        self.index_reg = (sum % 0x10000) as u16;
        self.pc_reg = self.pc_reg + 2;
        proof {
            assert(self@ =~= spec_add_index(old(self)@, num));
        }
    }

    /// `FX15`: set the delay timer.
    pub fn set_delay_timer_reg_instruction(&mut self, num: u8)
        requires
            old(self).wf(),
            old(self).pc_reg + 2 <= 0xFFFF,
        ensures
            final(self).wf(),
            final(self)@ == spec_set_delay(old(self)@, num),
    {
        self.delay_timer_register = num;
        self.pc_reg = self.pc_reg + 2;
        proof {
            assert(self@ =~= spec_set_delay(old(self)@, num));
        }
    }

    /// `FX18`: set the sound timer.
    pub fn set_sound_timer_reg_instruction(&mut self, num: u8)
        requires
            old(self).wf(),
            old(self).pc_reg + 2 <= 0xFFFF,
        ensures
            final(self).wf(),
            final(self)@ == spec_set_sound(old(self)@, num),
    {
        self.sound_timer_register = num;
        self.pc_reg = self.pc_reg + 2;
        proof {
            assert(self@ =~= spec_set_sound(old(self)@, num));
        }
    }

    /// `BXNN`: jump to NNN plus the contents of register `reg`, where X is
    /// encoded as the top nibble of NNN.
    pub fn jump_with_offset_instruction(&mut self, reg: usize, offset: u16)
        requires
            old(self).wf(),
            reg < 16,
            offset < 0x1000,
        ensures
            final(self).wf(),
            final(self)@ == spec_jump_offset(old(self)@, reg as int, offset),
    {
        self.pc_reg = offset + self.v_regs[reg] as u16;
        proof {
            assert(self@ =~= spec_jump_offset(old(self)@, reg as int, offset));
        }
    }

    /// `CXNN` with the random byte supplied by the caller: register `reg`
    /// becomes `random_byte AND num`.  Tests inject a fixed byte here and
    /// get an exact result.
    pub fn random_instruction_with(&mut self, reg: usize, num: u8, random_byte: u8)
        requires
            old(self).wf(),
            reg < 16,
            old(self).pc_reg + 2 <= 0xFFFF,
        ensures
            final(self).wf(),
            final(self)@ == spec_random(old(self)@, reg as int, num, random_byte),
    {
        self.v_regs[reg] = random_byte & num;
        self.pc_reg = self.pc_reg + 2;
        proof {
            assert(self@ =~= spec_random(old(self)@, reg as int, num, random_byte));
        }
    }

    /// `CXNN`: register `reg` becomes a freshly drawn random byte masked
    /// with `num`.  Whatever byte the source yields, it is below 255 and
    /// the transition is `spec_random` for that byte.
    pub fn random_instruction(&mut self, reg: usize, num: u8)
        requires
            old(self).wf(),
            reg < 16,
            old(self).pc_reg + 2 <= 0xFFFF,
        ensures
            final(self).wf(),
            exists|b: u8|
                b < 255 && final(self)@ == spec_random(old(self)@, reg as int, num, b),
    {
        let b = random_byte_below_max(&mut self.rng);
        proof {
            assert(self@ =~= old(self)@);
        }
        self.random_instruction_with(reg, num, b);
    }

    /// `FX0A`: when no key is pressed, nothing moves — the program counter
    /// stays put so the instruction re-executes next frame.  Once the
    /// keypad reports a key, its code lands in register `reg`.
    pub fn get_key_instruction(&mut self, reg: usize)
        requires
            old(self).wf(),
            reg < 16,
            old(self).pc_reg + 2 <= 0xFFFF,
        ensures
            final(self).wf(),
            final(self)@ == spec_get_key(old(self)@, reg as int),
    {
        let key_code = self.keyboard.get_keycode();
        if key_code <= 0xF {
            self.v_regs[reg] = key_code;
            self.pc_reg = self.pc_reg + 2;
        }
        proof {
            assert(self@ =~= spec_get_key(old(self)@, reg as int));
        }
    }

    /// `FX29`: point the index register at the font sprite for `digit`;
    /// a value above `0xF` is not a digit and faults.
    pub fn set_index_to_font_char_instruction(&mut self, digit: usize) -> (r: Result<(), Fault>)
        requires
            old(self).wf(),
            digit < 256,
            old(self).pc_reg + 2 <= 0xFFFF,
        ensures
            final(self).wf(),
            match spec_font_index(old(self)@, digit as u8) {
                Ok(s) => r is Ok && final(self)@ == s,
                Err(f) => r == Err::<(), Fault>(f) && final(self)@ == old(self)@,
            },
    {
        if digit > 0xF {
            return Err(Fault::InvalidFontDigit);
        }
        self.index_reg = self.font.char_sprite_locations[digit];
        self.pc_reg = self.pc_reg + 2;
        proof {
            assert(self@ =~= spec_font_index(old(self)@, digit as u8).unwrap());
        }
        Ok(())
    }

    /// `FX33`: write the decimal digits of register `reg` — hundreds,
    /// tens, ones — at index, index + 1, index + 2.  Faults when those
    /// three bytes would run past memory.
    pub fn bcd_instruction(&mut self, reg: usize) -> (r: Result<(), Fault>)
        requires
            old(self).wf(),
            reg < 16,
            old(self).pc_reg + 2 <= 0xFFFF,
        ensures
            final(self).wf(),
            match spec_bcd(old(self)@, reg as int) {
                Ok(s) => r is Ok && final(self)@ == s,
                Err(f) => r == Err::<(), Fault>(f) && final(self)@ == old(self)@,
            },
    {
        if self.index_reg > 4093 {
            return Err(Fault::MemoryOutOfRange);
        }
        let reg_val = self.v_regs[reg];
        let index = self.index_reg as usize;
        self.memory[index] = reg_val / 100;
        self.memory[index + 1] = (reg_val / 10) % 10;
        self.memory[index + 2] = reg_val % 10;
        self.pc_reg = self.pc_reg + 2;
        proof {
            assert(self@ =~= spec_bcd(old(self)@, reg as int).unwrap());
        }
        Ok(())
    }

    /// `FX55`: store registers 0 through `reg` into memory at the index
    /// register onward; the index register itself is unmodified.  Faults
    /// when the writes would run past memory.
    pub fn store_to_memory_instruction(&mut self, reg: usize) -> (r: Result<(), Fault>)
        requires
            old(self).wf(),
            reg < 16,
            old(self).pc_reg + 2 <= 0xFFFF,
        ensures
            final(self).wf(),
            match spec_store(old(self)@, reg as int) {
                Ok(s) => r is Ok && final(self)@ == s,
                Err(f) => r == Err::<(), Fault>(f) && final(self)@ == old(self)@,
            },
    {
        let base = self.index_reg as usize;
        if base + reg > 4095 {
            return Err(Fault::MemoryOutOfRange);
        }
        let mut k: usize = 0;
        while k <= reg
            invariant
                reg < 16,
                base + reg <= 4095,
                k <= reg + 1,
                base == old(self).index_reg as usize,
                old(self).wf(),
                self@.mem.len() == 4096,
                (ChipState { mem: old(self)@.mem, ..self@ }) == old(self)@,
                forall|i: int|
                    0 <= i < 4096 ==> #[trigger] self@.mem[i] == (if base <= i < base + k {
                        old(self)@.regs[i - base]
                    } else {
                        old(self)@.mem[i]
                    }),
            decreases reg + 1 - k,
        {
            self.memory[base + k] = self.v_regs[k];
            k = k + 1;
        }
        self.pc_reg = self.pc_reg + 2;
        proof {
            assert(self@ =~= spec_store(old(self)@, reg as int).unwrap());
        }
        Ok(())
    }

    /// `FX65`: load registers 0 through `reg` from memory at the index
    /// register onward.  Faults when the reads would run past memory.
    pub fn load_from_memory_instruction(&mut self, reg: usize) -> (r: Result<(), Fault>)
        requires
            old(self).wf(),
            reg < 16,
            old(self).pc_reg + 2 <= 0xFFFF,
        ensures
            final(self).wf(),
            match spec_load(old(self)@, reg as int) {
                Ok(s) => r is Ok && final(self)@ == s,
                Err(f) => r == Err::<(), Fault>(f) && final(self)@ == old(self)@,
            },
    {
        let base = self.index_reg as usize;
        if base + reg > 4095 {
            return Err(Fault::MemoryOutOfRange);
        }
        let mut k: usize = 0;
        while k <= reg
            invariant
                reg < 16,
                base + reg <= 4095,
                k <= reg + 1,
                base == old(self).index_reg as usize,
                old(self).wf(),
                self@.regs.len() == 16,
                (ChipState { regs: old(self)@.regs, ..self@ }) == old(self)@,
                forall|t: int|
                    0 <= t < 16 ==> #[trigger] self@.regs[t] == (if 0 <= t < k {
                        old(self)@.mem[base + t]
                    } else {
                        old(self)@.regs[t]
                    }),
            decreases reg + 1 - k,
        {
            self.v_regs[k] = self.memory[base + k];
            k = k + 1;
        }
        self.pc_reg = self.pc_reg + 2;
        proof {
            assert(self@ =~= spec_load(old(self)@, reg as int).unwrap());
        }
        Ok(())
    }

    /// Copies the font table's sprite data into memory at its base
    /// address, leaving every byte outside that region alone.  The font
    /// region lies below 512, so a loaded program is never overwritten.
    pub fn load_font(&mut self)
        requires
            old(self).wf(),
        ensures
            final(self).wf(),
            forall|i: int|
                0 <= i < 4096 ==> final(self)@.mem[i] == (if old(self)@.font_base <= i
                    < old(self)@.font_base + 80 {
                    old(self)@.font_data[i - old(self)@.font_base]
                } else {
                    old(self)@.mem[i]
                }),
            (ChipState { mem: old(self)@.mem, ..final(self)@ }) == old(self)@,
    {
        let base = self.font.font_location_in_memory;
        let mut k: usize = 0;
        while k < 80
            invariant
                k <= 80,
                base == old(self).font.font_location_in_memory,
                base + 80 <= 512,
                old(self).wf(),
                self@.mem.len() == 4096,
                (ChipState { mem: old(self)@.mem, ..self@ }) == old(self)@,
                forall|i: int|
                    0 <= i < 4096 ==> #[trigger] self@.mem[i] == (if base <= i < base + k {
                        old(self)@.font_data[i - base]
                    } else {
                        old(self)@.mem[i]
                    }),
            decreases 80 - k,
        {
            let b = self.font.font_data[k];
            self.memory[base + k] = b;
            k = k + 1;
        }
    }

    /// `DXYN`: draw a sprite of `sprite_height` rows at starting pixel
    /// (`x_coordinate mod 64`, `y_coordinate mod 32`).  Only the start
    /// position wraps; sprite pixels past the right or bottom edge are
    /// clipped.  Each lit sprite bit toggles its target pixel, and VF ends
    /// as the collision status of the last lit bit drawn.  Reading the
    /// sprite rows past the end of memory is fatal.
    pub fn draw_sprite_instruction(
        &mut self,
        x_coordinate: u8,
        y_coordinate: u8,
        sprite_height: u8,
    ) -> (r: Result<(), Fault>)
        requires
            old(self).wf(),
            sprite_height <= 15,
            old(self).pc_reg + 2 <= 0xFFFF,
        ensures
            final(self).wf(),
            match spec_draw(old(self)@, x_coordinate, y_coordinate, sprite_height) {
                Ok(s) => r is Ok && final(self)@ == s,
                Err(f) => r == Err::<(), Fault>(f) && final(self)@ == old(self)@,
            },
    {
        let n = sprite_height;
        let base = self.index_reg as usize;
        if n > 0 && base + n as usize > 4096 {
            return Err(Fault::MemoryOutOfRange);
        }
        let x0 = x_coordinate % 64;
        let y0 = y_coordinate % 32;
        let rows: u8 = if n < 32 - y0 {
            n
        } else {
            32 - y0
        };
        let cols: u8 = if 64 - x0 < 8 {
            64 - x0
        } else {
            8
        };
        let ghost orig = old(self)@;
        let ghost sprite = if n == 0 {
            Seq::<u8>::empty()
        } else {
            orig.mem.subrange(base as int, base + n)
        };
        let mut vf_val: u8 = self.v_regs[15];
        proof {
            lemma_part_zero(orig.disp, sprite, x0 as int, y0 as int);
        }
        let mut row: u8 = 0;
        while row < rows
            invariant
                n <= 15,
                x0 < 64,
                y0 < 32,
                rows <= n,
                y0 + rows <= 32,
                rows == n || y0 + rows == 32,
                cols <= 8,
                x0 + cols <= 64,
                cols == 8 || x0 + cols == 64,
                row <= rows,
                n == 0 || base + n <= 4096,
                base == old(self).index_reg as usize,
                old(self).wf(),
                old(self).pc_reg + 2 <= 0xFFFF,
                orig == old(self)@,
                sprite.len() == n,
                n > 0 ==> sprite == orig.mem.subrange(base as int, base + n as int),
                (ChipState { disp: orig.disp, ..self@ }) == orig,
                self@.disp == draw_disp_part(orig.disp, sprite, x0 as int, y0 as int, row as int, 0),
                self@.disp.len() == 32,
                forall|i: int| 0 <= i < 32 ==> (#[trigger] self@.disp[i]).len() == 64,
                vf_val == draw_vf_at(
                    orig.disp,
                    orig.regs[15],
                    x0 as int,
                    y0 as int,
                    last_lit_pos(sprite, x0 as int, y0 as int, row as int),
                ),
            decreases rows - row,
        {
            let row_byte = self.memory[base + row as usize];
            proof {
                assert(row_byte == sprite[row as int]);
                assert(last_lit_part(sprite, x0 as int, y0 as int, row as int, 0)
                    == last_lit_pos(sprite, x0 as int, y0 as int, row as int));
            }
            let mut c: u8 = 0;
            while c < cols
                invariant
                    n <= 15,
                    x0 < 64,
                    y0 < 32,
                    rows <= n,
                    y0 + rows <= 32,
                    cols <= 8,
                    x0 + cols <= 64,
                    row < rows,
                    c <= cols,
                    n == 0 || base + n <= 4096,
                    base == old(self).index_reg as usize,
                    old(self).wf(),
                    old(self).pc_reg + 2 <= 0xFFFF,
                    orig == old(self)@,
                    sprite.len() == n,
                    n > 0 ==> sprite == orig.mem.subrange(base as int, base + n as int),
                    row_byte == sprite[row as int],
                    (ChipState { disp: orig.disp, ..self@ }) == orig,
                    self@.disp == draw_disp_part(
                        orig.disp,
                        sprite,
                        x0 as int,
                        y0 as int,
                        row as int,
                        c as int,
                    ),
                    self@.disp.len() == 32,
                    forall|i: int| 0 <= i < 32 ==> (#[trigger] self@.disp[i]).len() == 64,
                    vf_val == draw_vf_at(
                        orig.disp,
                        orig.regs[15],
                        x0 as int,
                        y0 as int,
                        last_lit_part(sprite, x0 as int, y0 as int, row as int, c as int),
                    ),
                decreases cols - c,
            {
                let bit = (row_byte >> (7 - c)) & 1;
                let px = (x0 + c) as usize;
                let py = (y0 + row) as usize;
                proof {
                    assert(self.display_buffer@.len() == 32);
                    assert(self@.disp[py as int] == self.display_buffer@[py as int]@);
                    assert(self@.disp[py as int].len() == 64);
                }
                if bit == 1 {
                    proof {
                        assert(sprite_bit(sprite[row as int], c as int));
                        lemma_part_step_lit(
                            orig.disp,
                            sprite,
                            x0 as int,
                            y0 as int,
                            row as int,
                            c as int,
                        );
                    }
                    let ghost pre_disp = self@.disp;
                    let p = self.display_buffer[py][px];
                    proof {
                        assert(p == pre_disp[py as int][px as int]);
                        assert(p == orig.disp[py as int][px as int]);
                    }
                    self.display_buffer[py][px] = !p;
                    vf_val = if p {
                        1
                    } else {
                        0
                    };
                    proof {
                        assert(self@.disp =~= pre_disp.update(
                            py as int,
                            pre_disp[py as int].update(px as int, !p),
                        ));
                        assert(self@.disp == draw_disp_part(
                            orig.disp,
                            sprite,
                            x0 as int,
                            y0 as int,
                            row as int,
                            c + 1,
                        ));
                    }
                } else {
                    proof {
                        assert(!sprite_bit(sprite[row as int], c as int));
                        lemma_part_step_unlit(
                            orig.disp,
                            sprite,
                            x0 as int,
                            y0 as int,
                            row as int,
                            c as int,
                        );
                    }
                }
                c = c + 1;
            }
            proof {
                lemma_last_lit_col_clipped(sprite[row as int], x0 as int, cols as int, 8);
                lemma_part_row_end(
                    orig.disp,
                    sprite,
                    x0 as int,
                    y0 as int,
                    row as int,
                    cols as int,
                );
            }
            row = row + 1;
        }
        proof {
            lemma_last_lit_pos_clipped(sprite, x0 as int, y0 as int, rows as int, n as int);
            lemma_part_rows_end(orig.disp, sprite, x0 as int, y0 as int, rows as int);
        }
        self.v_regs[15] = vf_val;
        self.pc_reg = self.pc_reg + 2;
        proof {
            assert(self@ =~= spec_draw(orig, x_coordinate, y_coordinate, sprite_height).unwrap());
        }
        Ok(())
    }

    /// Reads the 16-bit instruction word stored big-endian at the program
    /// counter.
    pub fn fetch(&self) -> (w: u16)
        requires
            self.wf(),
            self.pc_reg + 1 < 4096,
        ensures
            w == fetch_word(self@.mem, self@.pc),
    {
        let opcode = self.memory[self.pc_reg as usize];
        let operand = self.memory[self.pc_reg as usize + 1];
        opcode as u16 * 256 + operand as u16
    }

    /// Decode and execute one instruction word with the random byte for
    /// `CXNN` supplied by the caller: the machine takes exactly the
    /// `spec_step` transition for that word and byte, and a fatal
    /// condition leaves the state untouched and is reported.
    pub fn decode_and_execute_with(&mut self, instruction: u16, random_byte: u8) -> (r: Result<
        (),
        Fault,
    >)
        requires
            old(self).wf(),
            old(self).pc_reg + 4 <= 0xFFFF,
        ensures
            final(self).wf(),
            match spec_step(old(self)@, instruction, random_byte) {
                Ok(s) => r is Ok && final(self)@ == s,
                Err(f) => r == Err::<(), Fault>(f) && final(self)@ == old(self)@,
            },
    {
        let i = instruction;
        let fam = i / 0x1000;
        let x = ((i / 0x100) % 0x10) as usize;
        let y = ((i / 0x10) % 0x10) as usize;
        let n = (i % 0x10) as u8;
        let nn = (i % 0x100) as u8;
        let nnn = i % 0x1000;
        if i == 0x00E0 {
            self.clear_display_instruction();
            Ok(())
        } else if i == 0x00EE {
            self.return_instruction()
        } else if fam == 0x1 {
            self.jump_instruction(nnn);
            Ok(())
        } else if fam == 0x2 {
            self.call_instruction(nnn)
        } else if fam == 0x3 {
            let vx = self.v_regs[x];
            self.skipif_vx_reg_nn_instruction(vx, nn, true);
            Ok(())
        } else if fam == 0x4 {
            let vx = self.v_regs[x];
            self.skipif_vx_reg_nn_instruction(vx, nn, false);
            Ok(())
        } else if fam == 0x5 && n == 0x0 {
            let vx = self.v_regs[x];
            let vy = self.v_regs[y];
            self.skipif_vx_reg_nn_instruction(vx, vy, true);
            Ok(())
        } else if fam == 0x6 {
            self.set_vx_reg_instruction(x, nn);
            Ok(())
        } else if fam == 0x7 {
            self.add_reg_vx_instruction(x, nn, false);
            Ok(())
        } else if fam == 0x8 && n == 0x0 {
            let vy = self.v_regs[y];
            self.set_vx_reg_instruction(x, vy);
            Ok(())
        } else if fam == 0x8 && n == 0x1 {
            let vy = self.v_regs[y];
            self.bin_op_vx_reg_instruction(x, vy, BinaryOp::Or);
            Ok(())
        } else if fam == 0x8 && n == 0x2 {
            let vy = self.v_regs[y];
            self.bin_op_vx_reg_instruction(x, vy, BinaryOp::And);
            Ok(())
        } else if fam == 0x8 && n == 0x3 {
            let vy = self.v_regs[y];
            self.bin_op_vx_reg_instruction(x, vy, BinaryOp::Xor);
            Ok(())
        } else if fam == 0x8 && n == 0x4 {
            let vy = self.v_regs[y];
            self.add_reg_vx_instruction(x, vy, true);
            Ok(())
        } else if fam == 0x8 && n == 0x5 {
            let vy = self.v_regs[y];
            self.subtract_vx_reg_instruction(x, vy, false);
            Ok(())
        } else if fam == 0x8 && n == 0x6 {
            self.shift_vx_register(x, true);
            Ok(())
        } else if fam == 0x8 && n == 0x7 {
            let vy = self.v_regs[y];
            self.subtract_vx_reg_instruction(x, vy, true);
            Ok(())
        } else if fam == 0x8 && n == 0xE {
            self.shift_vx_register(x, false);
            Ok(())
        } else if fam == 0x9 && n == 0x0 {
            let vx = self.v_regs[x];
            let vy = self.v_regs[y];
            self.skipif_vx_reg_nn_instruction(vx, vy, false);
            Ok(())
        } else if fam == 0xA {
            self.set_index_reg_instruction(nnn);
            Ok(())
        } else if fam == 0xB {
            self.jump_with_offset_instruction(x, nnn);
            Ok(())
        } else if fam == 0xC {
            self.random_instruction_with(x, nn, random_byte);
            Ok(())
        } else if fam == 0xD {
            let vx = self.v_regs[x];
            let vy = self.v_regs[y];
            self.draw_sprite_instruction(vx, vy, n)
        } else if fam == 0xE && nn == 0x9E {
            let key_code = self.keyboard.get_keycode();
            let vx = self.v_regs[x];
            self.skip_next_if(key_code <= 0xF && key_code == vx);
            Ok(())
        } else if fam == 0xE && nn == 0xA1 {
            let key_code = self.keyboard.get_keycode();
            let vx = self.v_regs[x];
            self.skip_next_if(!(key_code <= 0xF && key_code == vx));
            Ok(())
        } else if fam == 0xF && nn == 0x07 {
            let delay = self.delay_timer_register;
            self.set_vx_reg_instruction(x, delay);
            Ok(())
        } else if fam == 0xF && nn == 0x0A {
            self.get_key_instruction(x);
            Ok(())
        } else if fam == 0xF && nn == 0x15 {
            let vx = self.v_regs[x];
            self.set_delay_timer_reg_instruction(vx);
            Ok(())
        } else if fam == 0xF && nn == 0x18 {
            let vx = self.v_regs[x];
            self.set_sound_timer_reg_instruction(vx);
            Ok(())
        } else if fam == 0xF && nn == 0x1E {
            let vx = self.v_regs[x];
            self.add_to_index_reg_instruction(vx as u16);
            Ok(())
        } else if fam == 0xF && nn == 0x29 {
            let vx = self.v_regs[x];
            self.set_index_to_font_char_instruction(vx as usize)
        } else if fam == 0xF && nn == 0x33 {
            self.bcd_instruction(x)
        } else if fam == 0xF && nn == 0x55 {
            self.store_to_memory_instruction(x)
        } else if fam == 0xF && nn == 0x65 {
            self.load_from_memory_instruction(x)
        } else {
            self.pc_reg = self.pc_reg + 2;
            proof {
                assert(self@ =~= spec_nop(old(self)@));
            }
            Ok(())
        }
    }

    /// Decode and execute one instruction word, drawing the random byte
    /// for `CXNN` from the machine's own random source.  Whatever byte
    /// comes out, the machine takes the `spec_step` transition for it.
    pub fn decode_and_execute(&mut self, instruction: u16) -> (r: Result<(), Fault>)
        requires
            old(self).wf(),
            old(self).pc_reg + 4 <= 0xFFFF,
        ensures
            final(self).wf(),
            exists|b: u8|
                #![trigger spec_step(old(self)@, instruction, b)]
                b < 255 && (match spec_step(old(self)@, instruction, b) {
                    Ok(s) => r is Ok && final(self)@ == s,
                    Err(f) => r == Err::<(), Fault>(f) && final(self)@ == old(self)@,
                }),
    {
        let b = random_byte_below_max(&mut self.rng);
        proof {
            assert(self@ =~= old(self)@);
        }
        let r = self.decode_and_execute_with(instruction, b);
        proof {
            assert(b < 255 && (match spec_step(old(self)@, instruction, b) {
                Ok(s) => r is Ok && self@ == s,
                Err(f) => r == Err::<(), Fault>(f) && self@ == old(self)@,
            }));
        }
        r
    }

    /// One frame of the processor: when the program counter can still
    /// address a whole instruction word (at most 4094), fetch it, record
    /// the keypad state and execute; returns `Ok(true)` to keep running,
    /// `Ok(false)` once the program counter has run past the last whole
    /// word in memory, and a fault as `Err`, leaving the state as it was
    /// apart from the recorded keypad.
    pub fn processor_frame(&mut self, keyboard: Keyboard) -> (r: Result<bool, Fault>)
        requires
            old(self).wf(),
        ensures
            final(self).wf(),
            old(self)@.pc > 4094 ==> r == Ok::<bool, Fault>(false) && final(self)@ == old(self)@,
            old(self)@.pc <= 4094 ==> (exists|b: u8|
                #![trigger spec_step(with_key(old(self)@, keyboard.spec_keycode()), fetch_word(old(self)@.mem, old(self)@.pc), b)]
                b < 255 && ({
                    let s1 = with_key(old(self)@, keyboard.spec_keycode());
                    let w = fetch_word(old(self)@.mem, old(self)@.pc);
                    match spec_step(s1, w, b) {
                        Ok(s2) => r == Ok::<bool, Fault>(true) && final(self)@ == s2,
                        Err(f) => r == Err::<bool, Fault>(f) && final(self)@ == s1,
                    }
                })),
    {
        if self.pc_reg > 4094 {
            return Ok(false);
        }
        let instruction = self.fetch();
        self.keyboard = keyboard;
        proof {
            assert(self@ =~= with_key(old(self)@, keyboard.spec_keycode()));
        }
        match self.decode_and_execute(instruction) {
            Ok(_) => Ok(true),
            Err(f) => Err(f),
        }
    }
}

} // verus!
