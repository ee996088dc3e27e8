//! The bitmap font used to draw text into exported images.

use vstd::prelude::*;
use vstd::string::StringSliceAdditionalSpecFns;

verus! {

/// Number of characters the export font draws.
pub const FONT_CHAR_COUNT: usize = 45;

/// The characters the export font draws, in the order of `FONT_GLYPHS`.
pub const FONT_CHARS: [char; 45] = [
    'A', 'B', 'C', 'D', 'E', 'F', 'G', 'H', 'I', 'J', 'K', 'L',
    'M', 'N', 'O', 'P', 'Q', 'R', 'S', 'T', 'U', 'V', 'W', 'X',
    'Y', 'Z', '0', '1', '2', '3', '4', '5', '6', '7', '8', '9',
    '.', '-', '_', '/', '%', ':', '(', ')', ' ',
];

/// The glyph of each character of `FONT_CHARS`, then the glyph drawn for
/// characters the font lacks: seven rows of five columns, `1` marking a lit
/// pixel.
pub const FONT_GLYPHS: [[&'static str; 7]; 46] = [
    ["01110", "10001", "10001", "11111", "10001", "10001", "10001"],
    ["11110", "10001", "10001", "11110", "10001", "10001", "11110"],
    ["01111", "10000", "10000", "10000", "10000", "10000", "01111"],
    ["11110", "10001", "10001", "10001", "10001", "10001", "11110"],
    ["11111", "10000", "10000", "11110", "10000", "10000", "11111"],
    ["11111", "10000", "10000", "11110", "10000", "10000", "10000"],
    ["01111", "10000", "10000", "10111", "10001", "10001", "01111"],
    ["10001", "10001", "10001", "11111", "10001", "10001", "10001"],
    ["11111", "00100", "00100", "00100", "00100", "00100", "11111"],
    ["00111", "00010", "00010", "00010", "10010", "10010", "01100"],
    ["10001", "10010", "10100", "11000", "10100", "10010", "10001"],
    ["10000", "10000", "10000", "10000", "10000", "10000", "11111"],
    ["10001", "11011", "10101", "10101", "10001", "10001", "10001"],
    ["10001", "11001", "10101", "10011", "10001", "10001", "10001"],
    ["01110", "10001", "10001", "10001", "10001", "10001", "01110"],
    ["11110", "10001", "10001", "11110", "10000", "10000", "10000"],
    ["01110", "10001", "10001", "10001", "10101", "10010", "01101"],
    ["11110", "10001", "10001", "11110", "10100", "10010", "10001"],
    ["01111", "10000", "10000", "01110", "00001", "00001", "11110"],
    ["11111", "00100", "00100", "00100", "00100", "00100", "00100"],
    ["10001", "10001", "10001", "10001", "10001", "10001", "01110"],
    ["10001", "10001", "10001", "10001", "10001", "01010", "00100"],
    ["10001", "10001", "10001", "10101", "10101", "10101", "01010"],
    ["10001", "10001", "01010", "00100", "01010", "10001", "10001"],
    ["10001", "10001", "01010", "00100", "00100", "00100", "00100"],
    ["11111", "00001", "00010", "00100", "01000", "10000", "11111"],
    ["01110", "10001", "10011", "10101", "11001", "10001", "01110"],
    ["00100", "01100", "00100", "00100", "00100", "00100", "01110"],
    ["01110", "10001", "00001", "00010", "00100", "01000", "11111"],
    ["11110", "00001", "00001", "01110", "00001", "00001", "11110"],
    ["00010", "00110", "01010", "10010", "11111", "00010", "00010"],
    ["11111", "10000", "10000", "11110", "00001", "00001", "11110"],
    ["01110", "10000", "10000", "11110", "10001", "10001", "01110"],
    ["11111", "00001", "00010", "00100", "01000", "01000", "01000"],
    ["01110", "10001", "10001", "01110", "10001", "10001", "01110"],
    ["01110", "10001", "10001", "01111", "00001", "00001", "01110"],
    ["00000", "00000", "00000", "00000", "00000", "01100", "01100"],
    ["00000", "00000", "00000", "11111", "00000", "00000", "00000"],
    ["00000", "00000", "00000", "00000", "00000", "00000", "11111"],
    ["00001", "00010", "00010", "00100", "01000", "01000", "10000"],
    ["11001", "11010", "00010", "00100", "01000", "01011", "10011"],
    ["00000", "01100", "01100", "00000", "01100", "01100", "00000"],
    ["00010", "00100", "01000", "01000", "01000", "00100", "00010"],
    ["01000", "00100", "00010", "00010", "00010", "00100", "01000"],
    ["00000", "00000", "00000", "00000", "00000", "00000", "00000"],
    ["11111", "10001", "00010", "00100", "00100", "00000", "00100"],
];

/// Whether `row` is a glyph row: five pixels, each `0` (dark) or `1` (lit).
pub open spec fn is_glyph_row(row: &str) -> bool {
    &&& row@.len() == 5
    &&& row.spec_bytes().len() == 5
    &&& forall|k: int| 0 <= k < 5 ==> (#[trigger] row.spec_bytes()[k] == 48 || row.spec_bytes()[k] == 49)
    &&& forall|k: int| 0 <= k < 5 ==> row.spec_bytes()[k] == row@[k] as u8
}

proof fn lemma_glyph_row(row: &str)
    requires
        row@.len() == 5,
        forall|k: int| 0 <= k < 5 ==> (#[trigger] row@[k] == '0' || row@[k] == '1'),
    ensures
        is_glyph_row(row),
{
    broadcast use vstd::string::is_ascii_spec_bytes;
    assert(vstd::string::is_ascii(row));
}

/// Every glyph of the font has seven rows of five pixels.
pub proof fn lemma_font_rows()
    ensures
        forall|g: int, r: int| 0 <= g < FONT_CHAR_COUNT + 1 && 0 <= r < 7 ==> is_glyph_row(#[trigger] FONT_GLYPHS[g][r]),
{
    reveal_strlit("00000");
    lemma_glyph_row("00000");
    reveal_strlit("00001");
    lemma_glyph_row("00001");
    reveal_strlit("00010");
    lemma_glyph_row("00010");
    reveal_strlit("00100");
    lemma_glyph_row("00100");
    reveal_strlit("00110");
    lemma_glyph_row("00110");
    reveal_strlit("00111");
    lemma_glyph_row("00111");
    reveal_strlit("01000");
    lemma_glyph_row("01000");
    reveal_strlit("01010");
    lemma_glyph_row("01010");
    reveal_strlit("01011");
    lemma_glyph_row("01011");
    reveal_strlit("01100");
    lemma_glyph_row("01100");
    reveal_strlit("01101");
    lemma_glyph_row("01101");
    reveal_strlit("01110");
    lemma_glyph_row("01110");
    reveal_strlit("01111");
    lemma_glyph_row("01111");
    reveal_strlit("10000");
    lemma_glyph_row("10000");
    reveal_strlit("10001");
    lemma_glyph_row("10001");
    reveal_strlit("10010");
    lemma_glyph_row("10010");
    reveal_strlit("10011");
    lemma_glyph_row("10011");
    reveal_strlit("10100");
    lemma_glyph_row("10100");
    reveal_strlit("10101");
    lemma_glyph_row("10101");
    reveal_strlit("10111");
    lemma_glyph_row("10111");
    reveal_strlit("11000");
    lemma_glyph_row("11000");
    reveal_strlit("11001");
    lemma_glyph_row("11001");
    reveal_strlit("11010");
    lemma_glyph_row("11010");
    reveal_strlit("11011");
    lemma_glyph_row("11011");
    reveal_strlit("11110");
    lemma_glyph_row("11110");
    reveal_strlit("11111");
    lemma_glyph_row("11111");
    assert forall|g: int, r: int| 0 <= g < FONT_CHAR_COUNT + 1 && 0 <= r < 7 implies is_glyph_row(#[trigger] FONT_GLYPHS[g][r]) by {}
}

/// `c` with ASCII lower-case letters mapped to upper case.
pub open spec fn ascii_upper(c: char) -> char {
    if 'a' <= c <= 'z' {
        ((c as u32) - 32) as char
    } else {
        c
    }
}

/// `char::to_ascii_uppercase`.
fn to_ascii_uppercase(c: char) -> (r: char)
    ensures
        r == ascii_upper(c),
{
    if 'a' <= c && c <= 'z' {
        ((c as u8) - 32) as char
    } else {
        c
    }
}

/// The position of `c` in `FONT_CHARS` from position `from` on, or
/// `FONT_CHAR_COUNT` when it is not there.
pub open spec fn font_index_from(c: char, from: int) -> int
    decreases FONT_CHAR_COUNT - from,
{
    if from < 0 || from >= FONT_CHAR_COUNT {
        FONT_CHAR_COUNT as int
    } else if FONT_CHARS[from] == c {
        from
    } else {
        font_index_from(c, from + 1)
    }
}

/// The glyph the export font draws for `c`: that of its upper-case form, or
/// the glyph for missing characters.
pub open spec fn glyph_of(c: char) -> [&'static str; 7] {
    FONT_GLYPHS[font_index_from(ascii_upper(c), 0)]
}

pub(crate) proof fn lemma_font_index_range(c: char, from: int)
    requires
        0 <= from <= FONT_CHAR_COUNT,
    ensures
        from <= font_index_from(c, from) <= FONT_CHAR_COUNT,
    decreases FONT_CHAR_COUNT - from,
{
    if from < FONT_CHAR_COUNT && FONT_CHARS[from] != c {
        lemma_font_index_range(c, from + 1);
    }
}

/// The seven pixel rows of the glyph the export font draws for `ch`.
pub fn glyph_rows(ch: char) -> (rows: [&'static str; 7])
    ensures
        rows == glyph_of(ch),
{
    let upper = to_ascii_uppercase(ch);
    let mut i: usize = 0;
    while i < FONT_CHAR_COUNT
        invariant
            upper == ascii_upper(ch),
            i <= FONT_CHAR_COUNT,
            font_index_from(upper, 0) == font_index_from(upper, i as int),
        decreases FONT_CHAR_COUNT - i,
    {
        if FONT_CHARS[i] == upper {
            assert(font_index_from(upper, i as int) == i);
            return FONT_GLYPHS[i];
        }
        i += 1;
    }
    FONT_GLYPHS[FONT_CHAR_COUNT]
}

/// A letter is drawn with the glyph of its upper-case form.
pub proof fn lemma_glyph_ignores_ascii_case(c: char)
    ensures
        glyph_of(c) == glyph_of(ascii_upper(c)),
{
}

} // verus!
