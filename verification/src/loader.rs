use vstd::prelude::*;

use crate::chip_8::Chip8;
use crate::model::ChipState;

verus! {

/// An error met while loading a program image.  Load errors are reported
/// to the caller, never silently truncated away.
#[derive(Debug, Clone, Copy, PartialEq, Eq, Structural)]
pub enum LoadError {
    /// The image would run past the 4096-byte address space.
    TooLarge,
    /// A line of the text format is not a 4-hex-digit instruction word.
    BadInstruction,
}

/// The view of a list of text lines as sequences of bytes.
pub open spec fn lines_view(lines: Vec<Vec<u8>>) -> Seq<Seq<u8>> {
    Seq::new(lines@.len(), |i: int| lines@[i]@)
}

/// Whether a line of the text format carries no instruction: blank, or a
/// comment starting with ";;".
pub open spec fn spec_skip_line(line: Seq<u8>) -> bool {
    line.len() == 0 || (line.len() >= 2 && line[0] == 59u8 && line[1] == 59u8)
}

/// The value of an ASCII hexadecimal digit (either case), or -1 for any
/// other byte.
pub open spec fn hex_val(b: u8) -> int {
    if 48 <= b <= 57 {
        b - 48
    } else if 97 <= b <= 102 {
        b - 87
    } else if 65 <= b <= 70 {
        b - 55
    } else {
        -1
    }
}

/// The instruction word written on a line as exactly four hexadecimal
/// digits, or -1 when the line is not that.
pub open spec fn line_word(line: Seq<u8>) -> int {
    if line.len() == 4 && hex_val(line[0]) >= 0 && hex_val(line[1]) >= 0 && hex_val(line[2]) >= 0
        && hex_val(line[3]) >= 0 {
        hex_val(line[0]) * 0x1000 + hex_val(line[1]) * 0x100 + hex_val(line[2]) * 0x10 + hex_val(
            line[3],
        )
    } else {
        -1
    }
}

/// Memory after loading the text lines from line `k` on, writing one
/// 2-byte word big-endian at each successive even offset from `addr`:
/// blank and comment lines are passed over, a malformed line or a write
/// past the 4096-byte space is an error.
pub open spec fn spec_load_lines(mem: Seq<u8>, lines: Seq<Seq<u8>>, k: int, addr: int) -> Result<
    Seq<u8>,
    LoadError,
>
    decreases lines.len() - k,
{
    if k >= lines.len() {
        Ok(mem)
    } else if spec_skip_line(lines[k]) {
        spec_load_lines(mem, lines, k + 1, addr)
    } else if line_word(lines[k]) < 0 {
        Err(LoadError::BadInstruction)
    } else if addr + 2 > 4096 {
        Err(LoadError::TooLarge)
    } else {
        let w = line_word(lines[k]);
        spec_load_lines(
            mem.update(addr, (w / 256) as u8).update(addr + 1, (w % 256) as u8),
            lines,
            k + 1,
            addr + 2,
        )
    }
}

/// Reads one ASCII hexadecimal digit, accepting both cases.
fn hex_digit(b: u8) -> (v: Option<u8>)
    ensures
        match v {
            Some(h) => hex_val(b) == h as int && h <= 15,
            None => hex_val(b) < 0,
        },
{
    if b >= 48 && b <= 57 {
        Some(b - 48)
    } else if b >= 97 && b <= 102 {
        Some(b - 87)
    } else if b >= 65 && b <= 70 {
        Some(b - 55)
    } else {
        None
    }
}

impl Chip8 {
    /// Loads a raw program image into memory at the program counter base
    /// (512 on a fresh machine).  An image that would run past the
    /// 4096-byte space is rejected whole and nothing is written.
    pub fn load_rom_bytes(&mut self, rom: &Vec<u8>) -> (r: Result<(), LoadError>)
        requires
            old(self).wf(),
        ensures
            final(self).wf(),
            (ChipState { mem: old(self)@.mem, ..final(self)@ }) == old(self)@,
            if old(self)@.pc + rom@.len() <= 4096 {
                r is Ok && final(self)@.mem == Seq::new(
                    4096,
                    |i: int|
                        if old(self)@.pc <= i < old(self)@.pc + rom@.len() {
                            rom@[i - old(self)@.pc]
                        } else {
                            old(self)@.mem[i]
                        },
                )
            } else {
                r == Err::<(), LoadError>(LoadError::TooLarge) && final(self)@ == old(self)@
            },
    {
        let base = self.pc_reg as usize;
        if base > 4096 || rom.len() > 4096 - base {
            return Err(LoadError::TooLarge);
        }
        let mut k: usize = 0;
        while k < rom.len()
            invariant
                old(self).wf(),
                k <= rom@.len(),
                base == old(self).pc_reg as usize,
                base + rom@.len() <= 4096,
                self@.mem.len() == 4096,
                (ChipState { mem: old(self)@.mem, ..self@ }) == old(self)@,
                forall|i: int|
                    0 <= i < 4096 ==> #[trigger] self@.mem[i] == (if base <= i < base + k {
                        rom@[i - base]
                    } else {
                        old(self)@.mem[i]
                    }),
            decreases rom@.len() - k,
        {
            self.memory[base + k] = rom[k];
            k = k + 1;
        }
        proof {
            assert(self@.mem =~= Seq::new(
                4096,
                |i: int|
                    if old(self)@.pc <= i < old(self)@.pc + rom@.len() {
                        rom@[i - old(self)@.pc]
                    } else {
                        old(self)@.mem[i]
                    },
            ));
        }
        Ok(())
    }

    /// Loads a program written in the line-oriented text format: one
    /// 4-hex-digit instruction word per line, written big-endian at
    /// successive even offsets from the program counter base; blank lines
    /// and lines starting with ";;" are passed over as comments.  A
    /// malformed line or a write past the 4096-byte space is reported; on
    /// an error, memory may hold the part of the image written so far.
    pub fn load_rom_from_radix_lines(&mut self, lines: &Vec<Vec<u8>>) -> (r: Result<
        (),
        LoadError,
    >)
        requires
            old(self).wf(),
        ensures
            final(self).wf(),
            (ChipState { mem: old(self)@.mem, ..final(self)@ }) == old(self)@,
            match spec_load_lines(old(self)@.mem, lines_view(*lines), 0, old(self)@.pc) {
                Ok(m) => r is Ok && final(self)@.mem == m,
                Err(e) => r == Err::<(), LoadError>(e),
            },
    {
        let mut k: usize = 0;
        let mut addr: usize = self.pc_reg as usize;
        while k < lines.len()
            invariant
                old(self).wf(),
                k <= lines@.len(),
                addr <= 0xFFFF,
                self@.mem.len() == 4096,
                (ChipState { mem: old(self)@.mem, ..self@ }) == old(self)@,
                spec_load_lines(old(self)@.mem, lines_view(*lines), 0, old(self)@.pc)
                    == spec_load_lines(self@.mem, lines_view(*lines), k as int, addr as int),
            decreases lines@.len() - k,
        {
            let line = &lines[k];
            proof {
                assert(line@ == lines_view(*lines)[k as int]);
            }
            if line.len() == 0 || (line.len() >= 2 && line[0] == 59 && line[1] == 59) {
                k = k + 1;
                continue;
            }
            if line.len() != 4 {
                return Err(LoadError::BadInstruction);
            }
            let v0 = match hex_digit(line[0]) {
                Some(v) => v,
                None => {
                    return Err(LoadError::BadInstruction);
                },
            };
            let v1 = match hex_digit(line[1]) {
                Some(v) => v,
                None => {
                    return Err(LoadError::BadInstruction);
                },
            };
            let v2 = match hex_digit(line[2]) {
                Some(v) => v,
                None => {
                    return Err(LoadError::BadInstruction);
                },
            };
            let v3 = match hex_digit(line[3]) {
                Some(v) => v,
                None => {
                    return Err(LoadError::BadInstruction);
                },
            };
            let w: u16 = (v0 as u16) * 0x1000 + (v1 as u16) * 0x100 + (v2 as u16) * 0x10
                + (v3 as u16);
            proof {
                assert(w == line_word(line@));
            }
            if addr + 2 > 4096 {
                return Err(LoadError::TooLarge);
            }
            self.memory[addr] = (w / 256) as u8;
            self.memory[addr + 1] = (w % 256) as u8;
            addr = addr + 2;
            k = k + 1;
        }
        Ok(())
    }
}

} // verus!
