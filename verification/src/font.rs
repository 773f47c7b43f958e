//! The bitmap font: which cell of the font sheet draws which character.
use vstd::prelude::*;

use crate::grid_layout::GridLayout;
use crate::Rect;

verus! {

/// The font sheet: 16 glyphs to a row, starting at the space character,
/// one pixel apart.
pub open spec fn spec_fontsheet_layout() -> GridLayout {
    GridLayout {
        area: Rect { x: 0, y: 0, width: 145, height: 1412 },
        rows: 83,
        columns: 16,
        cell_gap: 1,
    }
}

pub fn fontsheet_layout() -> (g: GridLayout)
    ensures
        g == spec_fontsheet_layout(),
        g.cells_ok(),
        g.spec_cell_size() == (8int, 16int),
        g.spec_step() == (9int, 17int),
        g.spec_origin() == (1int, 1int),
{
    let g = GridLayout {
        area: Rect { x: 0, y: 0, width: 145, height: 1412 },
        rows: 83,
        columns: 16,
        cell_gap: 1,
    };
    assert(g.spec_cell_size() == (8int, 16int));
    g
}

/// The font sheet cell of a character: the sheet starts at the space
/// character, and characters beyond ASCII show the first glyph.
pub open spec fn spec_glyph_index(c: char) -> int {
    if c as u32 > 127 {
        0
    } else {
        c as u32 - 32
    }
}

/// The source rectangle of a character's glyph.
pub open spec fn spec_glyph_rect(c: char) -> Rect {
    spec_fontsheet_layout().spec_cells()[spec_glyph_index(c)].2
}

/// Where a character's glyph lies on the sheet: the printable ASCII
/// characters fill the 16 columns of 8 by 16 pixel cells, one pixel apart,
/// row by row from the space onward, so `c` is in row `(c - 32) / 16` and
/// column `(c - 32) % 16`.  Distinct characters thus have distinct glyphs.
pub proof fn lemma_glyph_of_ascii(c: char, d: char)
    requires
        32 <= c as u32 <= 127,
        32 <= d as u32 <= 127,
    ensures
        spec_glyph_rect(c) == (Rect {
            x: (1 + 9 * ((c as u32 - 32) % 16)) as isize,
            y: (1 + 17 * ((c as u32 - 32) / 16)) as isize,
            width: 8,
            height: 16,
        }),
        c != d ==> spec_glyph_rect(c) != spec_glyph_rect(d),
{
    lemma_glyph_cell(c);
    lemma_glyph_cell(d);
    let k: int = c as u32 - 32;
    let m: int = d as u32 - 32;
    if c != d && spec_glyph_rect(c) == spec_glyph_rect(d) {
        assert(k % 16 == m % 16);
        assert(k / 16 == m / 16);
        assert(k == 16 * (k / 16) + k % 16);
        assert(m == 16 * (m / 16) + m % 16);
        assert((c as u32) == (d as u32));
    }
}

proof fn lemma_glyph_cell(c: char)
    requires
        32 <= c as u32 <= 127,
    ensures
        spec_glyph_rect(c) == (Rect {
            x: (1 + 9 * ((c as u32 - 32) % 16)) as isize,
            y: (1 + 17 * ((c as u32 - 32) / 16)) as isize,
            width: 8,
            height: 16,
        }),
{
    let g = spec_fontsheet_layout();
    let k: int = c as u32 - 32;
    let r = k / 16;
    let col = k % 16;
    assert(0 <= r < 6 && 0 <= col < 16);
    assert(r * 16 + col == k);
    crate::grid_layout::lemma_cells_at(g, r, col);
    assert(g.spec_cell_size() == (8int, 16int));
    assert(g.spec_step() == (9int, 17int));
    assert(g.spec_origin() == (1int, 1int));
    assert(spec_glyph_index(c) == k);
    assert(g.spec_cells()[k].2 == g.spec_grid_cell(r, col));
    assert(g.spec_grid_cell(r, col).x == 1 + col * 9);
    assert(g.spec_grid_cell(r, col).y == 1 + r * 17);
}

/// Every character is a space or above: the sheet has no control characters.
pub open spec fn printable(s: Seq<char>) -> bool {
    forall|i: int| 0 <= i < s.len() ==> #[trigger] s[i] as u32 >= 32
}

/// Every character is a space or above, checked one by one.
pub open spec fn printable_each(s: Seq<char>) -> bool
    decreases s.len(),
{
    s.len() == 0 || (s[0] as u32 >= 32 && printable_each(s.drop_first()))
}

/// Checking characters one by one is the same as checking them all.
pub proof fn lemma_printable_each(s: Seq<char>)
    requires
        printable_each(s),
    ensures
        printable(s),
    decreases s.len(),
{
    if s.len() > 0 {
        lemma_printable_each(s.drop_first());
        assert forall|i: int| 0 <= i < s.len() implies #[trigger] s[i] as u32 >= 32 by {
            if i > 0 {
                assert(s[i] == s.drop_first()[i - 1]);
            }
        }
    }
}

/// The source rectangles of the glyphs that draw `str`, one per character.
pub fn get_rects_for_str(str: &str) -> (rects: Vec<Rect>)
    requires
        printable(str@),
    ensures
        rects@.len() == str@.len(),
        forall|i: int| 0 <= i < str@.len() ==> rects@[i] == spec_glyph_rect(#[trigger] str@[i]),
{
    let layout = fontsheet_layout();
    let cells: Vec<(usize, usize, Rect)> = layout.iter_cells();
    let mut rects: Vec<Rect> = Vec::new();
    let n: usize = str.unicode_len();
    let mut i: usize = 0;
    while i < n
        invariant
            n == str@.len(),
            i <= n,
            printable(str@),
            cells@ == spec_fontsheet_layout().spec_cells(),
            cells@.len() == 83 * 16,
            rects@.len() == i,
            forall|j: int| 0 <= j < i ==> rects@[j] == spec_glyph_rect(#[trigger] str@[j]),
        decreases n - i,
    {
        let c: char = str.get_char(i);
        assert(c as u32 >= 32);
        let ascii: u32 = c as u32;
        let rect: Rect = if ascii > 127 {
            cells[0].2
        } else {
            cells[ascii as usize - 32].2
        };
        rects.push(rect);
        i = i + 1;
    }
    rects
}

} // verus!
