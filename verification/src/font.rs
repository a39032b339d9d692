use vstd::prelude::*;

verus! {

/// Byte offset of the glyph table in memory.
pub const FONT_OFFSET: usize = 0;

/// Number of bitmap rows in one glyph.
pub const LINES_PER_SPRITE: usize = 5;

/// Number of glyphs (hexadecimal digits 0 through F).
pub const GLYPH_COUNT: usize = 16;

/// Total size of the glyph table in bytes.
pub const FONT_SIZE: usize = GLYPH_COUNT * LINES_PER_SPRITE;

/// The five bitmap rows of one glyph, most-significant bit leftmost.
pub open spec fn spec_glyph(d: int) -> Seq<u8> {
    if d == 0 {
        seq![0xF0u8, 0x90, 0x90, 0x90, 0xF0]
    } else if d == 1 {
        seq![0x20u8, 0x60, 0x20, 0x20, 0x70]
    } else if d == 2 {
        seq![0xF0u8, 0x10, 0xF0, 0x80, 0xF0]
    } else if d == 3 {
        seq![0xF0u8, 0x10, 0xF0, 0x10, 0xF0]
    } else if d == 4 {
        seq![0x90u8, 0x90, 0xF0, 0x10, 0x10]
    } else if d == 5 {
        seq![0xF0u8, 0x80, 0xF0, 0x10, 0xF0]
    } else if d == 6 {
        seq![0xF0u8, 0x80, 0xF0, 0x90, 0xF0]
    } else if d == 7 {
        seq![0xF0u8, 0x10, 0x20, 0x40, 0x40]
    } else if d == 8 {
        seq![0xF0u8, 0x90, 0xF0, 0x90, 0xF0]
    } else if d == 9 {
        seq![0xF0u8, 0x90, 0xF0, 0x10, 0xF0]
    } else if d == 10 {
        seq![0xF0u8, 0x90, 0xF0, 0x90, 0x90]
    } else if d == 11 {
        seq![0xE0u8, 0x90, 0xE0, 0x90, 0xE0]
    } else if d == 12 {
        seq![0xF0u8, 0x80, 0x80, 0x80, 0xF0]
    } else if d == 13 {
        seq![0xE0u8, 0x90, 0x90, 0x90, 0xE0]
    } else if d == 14 {
        seq![0xF0u8, 0x80, 0xF0, 0x80, 0xF0]
    } else {
        seq![0xF0u8, 0x80, 0xF0, 0x80, 0x80]
    }
}

/// Byte `i` of the 80-byte glyph table: row `i % 5` of glyph `i / 5`.
pub open spec fn spec_font_byte(i: int) -> u8 {
    spec_glyph(i / 5)[i % 5]
}

/// The five rows of one glyph, as executable values.
fn glyph_rows(d: u8) -> (r: (u8, u8, u8, u8, u8))
    requires
        d < GLYPH_COUNT,
    ensures
        seq![r.0, r.1, r.2, r.3, r.4] == spec_glyph(d as int),
{
    let rows = match d {
        0 => (0xF0, 0x90, 0x90, 0x90, 0xF0),
        1 => (0x20, 0x60, 0x20, 0x20, 0x70),
        2 => (0xF0, 0x10, 0xF0, 0x80, 0xF0),
        3 => (0xF0, 0x10, 0xF0, 0x10, 0xF0),
        4 => (0x90, 0x90, 0xF0, 0x10, 0x10),
        5 => (0xF0, 0x80, 0xF0, 0x10, 0xF0),
        6 => (0xF0, 0x80, 0xF0, 0x90, 0xF0),
        7 => (0xF0, 0x10, 0x20, 0x40, 0x40),
        8 => (0xF0, 0x90, 0xF0, 0x90, 0xF0),
        9 => (0xF0, 0x90, 0xF0, 0x10, 0xF0),
        10 => (0xF0, 0x90, 0xF0, 0x90, 0x90),
        11 => (0xE0, 0x90, 0xE0, 0x90, 0xE0),
        12 => (0xF0, 0x80, 0x80, 0x80, 0xF0),
        13 => (0xE0, 0x90, 0x90, 0x90, 0xE0),
        14 => (0xF0, 0x80, 0xF0, 0x80, 0xF0),
        _ => (0xF0, 0x80, 0xF0, 0x80, 0x80),
    };
    proof {
        assert(seq![rows.0, rows.1, rows.2, rows.3, rows.4] =~= spec_glyph(d as int));
    }
    rows
}

/// Copy the fixed 80-byte glyph table into the front of `memory`, leaving
/// every byte past it untouched.
pub fn load_fonts(memory: &mut Vec<u8>)
    requires
        old(memory)@.len() >= FONT_SIZE,
    ensures
        final(memory)@.len() == old(memory)@.len(),
        forall|i: int| 0 <= i < FONT_SIZE ==> final(memory)@[i] == spec_font_byte(i),
        forall|i: int| FONT_SIZE <= i < old(memory)@.len() ==> final(memory)@[i] == old(memory)@[i],
{
    let mut d: usize = 0;
    while d < GLYPH_COUNT
        invariant
            d <= GLYPH_COUNT,
            memory@.len() == old(memory)@.len(),
            memory@.len() >= FONT_SIZE,
            forall|i: int| 0 <= i < d * LINES_PER_SPRITE ==> memory@[i] == spec_font_byte(i),
            forall|i: int|
                d * LINES_PER_SPRITE <= i < memory@.len() ==> memory@[i] == old(memory)@[i],
        decreases GLYPH_COUNT - d,
    {
        let rows = glyph_rows(d as u8);
        let base = d * LINES_PER_SPRITE;
        memory[base] = rows.0;
        memory[base + 1] = rows.1;
        memory[base + 2] = rows.2;
        memory[base + 3] = rows.3;
        memory[base + 4] = rows.4;
        proof {
            assert forall|j: int| 0 <= j < 5 implies spec_font_byte(base + j) == spec_glyph(
                d as int,
            )[j] by {
                assert((base + j) / 5 == d as int && (base + j) % 5 == j);
            }
        }
        d = d + 1;
    }
}

/// Memory address of the glyph for `letter`: for digits 0 through F the glyph
/// table entry, and the table's base address for any other input.
pub open spec fn spec_glyph_address(letter: u8) -> usize {
    if letter < 16 {
        (letter * 5) as usize
    } else {
        FONT_OFFSET
    }
}

/// Address of the five-row glyph for a hexadecimal digit. Any input past 0xF
/// is a caller error answered with the table's base address.
pub fn find_font_sprite(letter: u8) -> (addr: usize)
    ensures
        addr == spec_glyph_address(letter),
{
    if letter > 0xF {
        return FONT_OFFSET;
    }
    letter as usize * LINES_PER_SPRITE
}

} // verus!
