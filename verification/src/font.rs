use vstd::prelude::*;

verus! {

/// The font table: an immutable mapping from hexadecimal digit to a fixed
/// 5-byte sprite, together with the base memory address the table is loaded
/// at and the absolute location of each digit's sprite once loaded.
pub struct Font {
    pub font_location_in_memory: usize,
    pub font_data: Vec<u8>,
    pub char_sprite_locations: Vec<u16>,
}

impl Font {
    /// Sixteen digits of five bytes each, placed below the program area
    /// (address 512) so the two regions never overlap, with digit `d`'s
    /// sprite at `font_location_in_memory + 5 * d`.
    pub open spec fn wf(self) -> bool {
        &&& self.font_data@.len() == 80
        &&& self.font_location_in_memory + 80 <= 512
        &&& self.char_sprite_locations@.len() == 16
        &&& (forall|d: int|
            0 <= d < 16 ==> #[trigger] self.char_sprite_locations@[d]
                == self.font_location_in_memory + 5 * d)
    }

    /// The standard sprite set for the digits 0 through F, based at
    /// address 80.
    pub fn new_standard() -> (f: Font)
        ensures
            f.wf(),
            f.font_location_in_memory == 80,
    {
        Font::new_standard_at(80)
    }

    /// The standard sprite set at a chosen base address; the whole table
    /// must fit below the program area at 512.
    pub fn new_standard_at(base: usize) -> (f: Font)
        requires
            base + 80 <= 512,
        ensures
            f.wf(),
            f.font_location_in_memory == base,
    {
        let font_data: Vec<u8> = vec![
            0xF0, 0x90, 0x90, 0x90, 0xF0,  // 0
            0x20, 0x60, 0x20, 0x20, 0x70,  // 1
            0xF0, 0x10, 0xF0, 0x80, 0xF0,  // 2
            0xF0, 0x10, 0xF0, 0x10, 0xF0,  // 3
            0x90, 0x90, 0xF0, 0x10, 0x10,  // 4
            0xF0, 0x80, 0xF0, 0x10, 0xF0,  // 5
            0xF0, 0x80, 0xF0, 0x90, 0xF0,  // 6
            0xF0, 0x10, 0x20, 0x40, 0x40,  // 7
            0xF0, 0x90, 0xF0, 0x90, 0xF0,  // 8
            0xF0, 0x90, 0xF0, 0x10, 0xF0,  // 9
            0xF0, 0x90, 0xF0, 0x90, 0x90,  // A
            0xE0, 0x90, 0xE0, 0x90, 0xE0,  // B
            0xF0, 0x80, 0x80, 0x80, 0xF0,  // C
            0xE0, 0x90, 0x90, 0x90, 0xE0,  // D
            0xF0, 0x80, 0xF0, 0x80, 0xF0,  // E
            0xF0, 0x80, 0xF0, 0x80, 0x80,  // F
        ];
        let mut char_sprite_locations: Vec<u16> = Vec::new();
        let mut d: u16 = 0;
        while d < 16
            invariant
                base + 80 <= 512,
                d <= 16,
                char_sprite_locations@.len() == d,
                forall|k: int|
                    0 <= k < d ==> #[trigger] char_sprite_locations@[k] == base + 5 * k,
            decreases 16 - d,
        {
            char_sprite_locations.push(base as u16 + 5 * d);
            d = d + 1;
        }
        Font { font_location_in_memory: base, font_data, char_sprite_locations }
    }
}

} // verus!
