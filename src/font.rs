use crate::bytes::{read_u32_at, u32_at};
use vstd::prelude::*;

verus! {

/// Byte where the glyphs of a font file start.
pub const GLYPHS_START: usize = 0x27D;

/// Number of glyphs a font file holds.
pub const GLYPH_COUNT: usize = 92;

/// Code of the first character that has a glyph; lower codes are spaces.
pub const INDEX_OFFSET: usize = 0x21;

/// Width of a space, in font pixels.
pub const SPACE_WIDTH: u32 = 5;

/// One horizontal run of pixels of a glyph.
#[derive(Clone, Copy, Debug, PartialEq, Eq, Structural)]
pub struct Line {
    pub x: u8,
    pub y: u8,
    pub width: u8,
}

/// A glyph: its size and its runs of pixels.
#[derive(Debug)]
pub struct Character {
    pub width: u32,
    pub height: u32,
    pub lines: Vec<Line>,
}

/// The runs of the first `k` three-byte line records from `q`, without the
/// empty ones.
pub open spec fn glyph_lines(d: Seq<u8>, q: int, k: nat) -> Seq<Line>
    decreases k,
{
    if k == 0 {
        Seq::empty()
    } else {
        let p = q + 3 * (k - 1);
        let rest = glyph_lines(d, q, (k - 1) as nat);
        if d[p + 2] > 0 {
            rest.push(Line { x: d[p], y: d[p + 1], width: d[p + 2] })
        } else {
            rest
        }
    }
}

/// Where the line records of the glyph at `p` start: after its four header
/// numbers and its colour bytes.
pub open spec fn lines_start(d: Seq<u8>, p: int) -> int {
    p + 16 + u32_at(d, p + 8)
}

/// Number of line records of the glyph at `p`.
pub open spec fn line_count(d: Seq<u8>, p: int) -> nat {
    (u32_at(d, p + 12) / 3) as nat
}

/// Where the glyph after the one at `p` starts.
pub open spec fn glyph_end(d: Seq<u8>, p: int) -> int {
    lines_start(d, p) + 3 * line_count(d, p)
}

/// Where glyph `n` of the file starts.
pub open spec fn glyph_pos(d: Seq<u8>, n: nat) -> int
    decreases n,
{
    if n == 0 {
        GLYPHS_START as int
    } else {
        glyph_end(d, glyph_pos(d, (n - 1) as nat))
    }
}

/// Whether the file holds every glyph in full.
pub open spec fn font_complete(d: Seq<u8>) -> bool {
    glyph_pos(d, GLYPH_COUNT as nat) <= d.len()
}

proof fn lemma_glyph_pos_grows(d: Seq<u8>, j: nat, k: nat)
    requires
        j <= k,
    ensures
        glyph_pos(d, j) + 16 * (k - j) <= glyph_pos(d, k),
    decreases k - j,
{
    if j < k {
        lemma_glyph_pos_grows(d, j, (k - 1) as nat);
    }
}

/// Parses the glyphs of a font file: `None` when the file ends before the
/// last glyph does.
pub fn load_font(data: &[u8]) -> (r: Option<Vec<Character>>)
    ensures
        r is Some <==> font_complete(data@),
        r matches Some(f) ==> f@.len() == GLYPH_COUNT && forall|i: int|
            0 <= i < GLYPH_COUNT ==> {
                let p = glyph_pos(data@, i as nat);
                &&& (#[trigger] f@[i]).width == u32_at(data@, p)
                &&& f@[i].height == u32_at(data@, p + 4)
                &&& f@[i].lines@ == glyph_lines(data@, lines_start(data@, p), line_count(data@, p))
            },
{
    let ghost d = data@;
    let len = data.len();
    let mut font: Vec<Character> = Vec::new();
    let mut offset: usize = GLYPHS_START;
    while font.len() < GLYPH_COUNT
        invariant
            d == data@,
            len == d.len(),
            font@.len() <= GLYPH_COUNT,
            offset == glyph_pos(d, font@.len() as nat),
            offset <= len || font@.len() == 0,
            forall|i: int|
                0 <= i < font@.len() ==> {
                    let p = glyph_pos(d, i as nat);
                    &&& (#[trigger] font@[i]).width == u32_at(d, p)
                    &&& font@[i].height == u32_at(d, p + 4)
                    &&& font@[i].lines@ == glyph_lines(d, lines_start(d, p), line_count(d, p))
                },
        decreases GLYPH_COUNT - font@.len(),
    {
        let ghost n = font@.len();
        if offset > len || len - offset < 16 {
            proof {
                lemma_glyph_pos_grows(d, n as nat, (n + 1) as nat);
                lemma_glyph_pos_grows(d, (n + 1) as nat, GLYPH_COUNT as nat);
            }
            return None;
        }
        let width = read_u32_at(data, offset);
        let height = read_u32_at(data, offset + 4);
        let color_bytes = read_u32_at(data, offset + 8);
        let line_bytes = read_u32_at(data, offset + 12);
        let count = line_bytes / 3;
        if (color_bytes as u64) > ((len - offset - 16) as u64) || (count as u64) * 3 > ((len
            - offset - 16) as u64) - (color_bytes as u64) {
            proof {
                lemma_glyph_pos_grows(d, (n + 1) as nat, GLYPH_COUNT as nat);
            }
            return None;
        }
        let start = offset + 16 + color_bytes as usize;
        let mut lines: Vec<Line> = Vec::new();
        let mut k: usize = 0;
        while k < count as usize
            invariant
                d == data@,
                len == d.len(),
                start + 3 * count <= len,
                k <= count,
                lines@ == glyph_lines(d, start as int, k as nat),
            decreases count - k,
        {
            let p = start + 3 * k;
            let line = Line { x: data[p], y: data[p + 1], width: data[p + 2] };
            if line.width > 0 {
                lines.push(line);
            }
            k = k + 1;
        }
        font.push(Character { width, height, lines });
        offset = start + 3 * (count as usize);
        proof {
            assert forall|i: int| 0 <= i < font@.len() implies {
                let p = glyph_pos(d, i as nat);
                &&& (#[trigger] font@[i]).width == u32_at(d, p)
                &&& font@[i].height == u32_at(d, p + 4)
                &&& font@[i].lines@ == glyph_lines(d, lines_start(d, p), line_count(d, p))
            } by {
                if i == n {
                }
            }
        }
    }
    Some(font)
}

/// The index of a character in the font: the low byte of its code.
pub open spec fn char_index(c: char) -> int {
    (c as u32 % 256) as int
}

pub fn char_to_index(c: char) -> (r: usize)
    ensures
        r == char_index(c),
{
    (c as u32 % 256) as usize
}

/// Width and height of a text in a font whose glyphs have the sizes
/// `sizes`: spaces and control characters are 5 wide, other characters as
/// wide as their glyph, and the height is the tallest glyph's. `None` when a
/// character has no glyph or the width passes `u32::MAX`.
pub open spec fn text_size(sizes: Seq<(u32, u32)>, s: Seq<char>) -> Option<(u32, u32)>
    decreases s.len(),
{
    if s.len() == 0 {
        Some((0u32, 0u32))
    } else {
        match text_size(sizes, s.drop_last()) {
            None => None,
            Some((w, h)) => {
                let i = char_index(s.last());
                if i < INDEX_OFFSET {
                    if w + SPACE_WIDTH <= u32::MAX {
                        Some(((w + SPACE_WIDTH) as u32, h))
                    } else {
                        None
                    }
                } else if i - INDEX_OFFSET < sizes.len() {
                    let g = sizes[i - INDEX_OFFSET];
                    if w + g.0 <= u32::MAX {
                        Some(((w + g.0) as u32, if g.1 > h { g.1 } else { h }))
                    } else {
                        None
                    }
                } else {
                    None
                }
            },
        }
    }
}

pub open spec fn glyph_sizes(font: Seq<Character>) -> Seq<(u32, u32)> {
    font.map_values(|c: Character| (c.width, c.height))
}

/// Size in font pixels of a text; see `text_size`.
pub fn get_text_texture_size(font: &Vec<Character>, text: &str) -> (r: Option<(u32, u32)>)
    ensures
        r == text_size(glyph_sizes(font@), text@),
{
    let ghost sizes = glyph_sizes(font@);
    let n = text.unicode_len();
    let mut width: u32 = 0;
    let mut height: u32 = 0;
    let mut i: usize = 0;
    while i < n
        invariant
            n == text@.len(),
            i <= n,
            sizes == glyph_sizes(font@),
            text_size(sizes, text@.take(i as int)) == Some((width, height)),
        decreases n - i,
    {
        let c = text.get_char(i);
        proof {
            assert(text@.take(i + 1).drop_last() =~= text@.take(i as int));
        }
        let index = char_to_index(c);
        if index < INDEX_OFFSET {
            if width > u32::MAX - SPACE_WIDTH {
                proof {
                    lemma_text_size_none(sizes, text@, i + 1);
                }
                return None;
            }
            width = width + SPACE_WIDTH;
        } else {
            if index - INDEX_OFFSET >= font.len() {
                proof {
                    lemma_text_size_none(sizes, text@, i + 1);
                }
                return None;
            }
            let glyph = &font[index - INDEX_OFFSET];
            if width > u32::MAX - glyph.width {
                proof {
                    lemma_text_size_none(sizes, text@, i + 1);
                }
                return None;
            }
            width = width + glyph.width;
            if glyph.height > height {
                height = glyph.height;
            }
        }
        i = i + 1;
    }
    proof {
        assert(text@.take(n as int) =~= text@);
    }
    Some((width, height))
}

/// Once a prefix has no size, no longer prefix has one.
proof fn lemma_text_size_none(sizes: Seq<(u32, u32)>, s: Seq<char>, k: int)
    requires
        0 <= k <= s.len(),
        text_size(sizes, s.take(k)) is None,
    ensures
        text_size(sizes, s) is None,
    decreases s.len() - k,
{
    if k < s.len() {
        assert(s.take(k + 1).drop_last() =~= s.take(k));
        lemma_text_size_none(sizes, s, k + 1);
    } else {
        assert(s.take(k) =~= s);
    }
}

} // verus!
