//! Geometry of the candle font: one outline per codepoint of the candle range.
use vstd::prelude::*;

use crate::candle::{
    glyph_block_contains, height_count, height_prefix, lemma_counts, lemma_glyph_blocks_disjoint,
    lemma_inner_bound, lemma_regular_bounds, offset_prefix, regular_index, size_prefix,
    candle_index, lemma_valid_in_own_block, spec_empty, spec_is_empty, spec_is_naked_wick,
    spec_is_valid, spec_naked_wick, Candle, CANDLE_GLYPH_COUNT, CANDLE_PUA_START,
    CANDLE_SIZE,
};
use crate::fontforge::{font_script, font_script_spec, GLYPH_WIDTH, HHEA_DESCENT, LINE_HEIGHT};
use crate::text::{
    contains_infix, int_decimal, join_lines, lemma_join_lines_parts, lemma_join_lines_push, push_char,
    push_int_decimal,
};

verus! {

/// Left edge of the wick: a third of the glyph width, rounded down.
pub const WICK_LEFT: i32 = 411;

/// Right edge of the wick: two thirds of the glyph width, rounded down.
pub const WICK_RIGHT: i32 = 822;

/// Left edge of the body (the whole cell width).
pub const BODY_LEFT: i32 = 0;

/// Right edge of the body.
pub const BODY_RIGHT: i32 = GLYPH_WIDTH;

/// Height of one candle level: the line height divided by `CANDLE_SIZE`, rounded down.
pub const LEVEL_HEIGHT: i32 = 216;

/// Height of a doji body (open equal to close): a 32nd of the line height, rounded down.
pub const DOJI_HEIGHT: i32 = 74;

/// Top of the cell in font units.
pub const CELL_TOP: i32 = LINE_HEIGHT - HHEA_DESCENT;

/// A rectangle given by its edges.
#[derive(Clone, Copy, Debug, PartialEq, Eq, Structural)]
pub struct Rect {
    pub left: i32,
    pub bottom: i32,
    pub right: i32,
    pub top: i32,
}

/// Whether a rectangle has positive width and height.
pub open spec fn spec_rect_is_valid(r: Rect) -> bool {
    r.top > r.bottom && r.right > r.left
}

impl Rect {
    /// Whether the rectangle has positive width and height.
    pub fn is_valid(&self) -> (b: bool)
        ensures
            b == spec_rect_is_valid(*self),
    {
        self.top > self.bottom && self.right > self.left
    }
}

/// The outline of one glyph of the candle font.
#[derive(Clone, Copy, Debug, PartialEq, Eq, Structural)]
pub struct CandleGlyph {
    pub char_code: u32,
    pub wick: Option<Rect>,
    pub body: Option<Rect>,
}

/// A rectangle if it is not degenerate.
pub open spec fn nondegenerate(r: Rect) -> Option<Rect> {
    if spec_rect_is_valid(r) {
        Some(r)
    } else {
        None
    }
}

/// The wick of a candle placed `p` levels below the top of the cell, `h` levels tall.
pub open spec fn wick_rect(p: int, h: int) -> Rect {
    Rect {
        left: WICK_LEFT,
        right: WICK_RIGHT,
        top: (CELL_TOP - p * LEVEL_HEIGHT) as i32,
        bottom: (CELL_TOP - p * LEVEL_HEIGHT - h * LEVEL_HEIGHT) as i32,
    }
}

/// The body of a candle placed `p` levels below the top, starting `bs` levels below its
/// high and `bsz` levels tall (a thin doji line when `bsz` is zero).
pub open spec fn body_rect(p: int, bs: int, bsz: int) -> Rect {
    let top = CELL_TOP - p * LEVEL_HEIGHT - bs * LEVEL_HEIGHT;
    Rect {
        left: BODY_LEFT,
        right: BODY_RIGHT,
        top: top as i32,
        bottom: (if bsz == 0 {
            top - DOJI_HEIGHT
        } else {
            top - bsz * LEVEL_HEIGHT
        }) as i32,
    }
}

/// The glyph at index `i` of the candle range, which draws candle `c`: nothing for the
/// first (empty) glyph, the wick alone for a naked wick, the wick and the body otherwise.
pub open spec fn spec_candle_glyph(c: Candle, i: int) -> CandleGlyph {
    CandleGlyph {
        char_code: (CANDLE_PUA_START + i) as u32,
        wick: if i == 0 {
            None
        } else {
            nondegenerate(wick_rect(c.high_offset as int, c.height as int))
        },
        body: if i == 0 || spec_is_naked_wick(c) {
            None
        } else {
            nondegenerate(
                body_rect(c.high_offset as int, c.body_offset as int, c.body_size as int),
            )
        },
    }
}

/// The candle whose glyph block holds index `i` of the candle range.
pub open spec fn layout_candle(i: int) -> Candle {
    choose|c: Candle| glyph_block_contains(c, i)
}

/// The glyph at index `i` of the candle range.
pub open spec fn spec_glyph_at(i: int) -> CandleGlyph {
    spec_candle_glyph(layout_candle(i), i)
}

/// The whole glyph table of the candle font, in codepoint order.
pub open spec fn glyph_table() -> Seq<CandleGlyph> {
    Seq::new(CANDLE_GLYPH_COUNT as nat, |i: int| spec_glyph_at(i))
}

/// The glyph of the table at an index draws the candle whose glyph block holds that
/// index, and carries the index's codepoint.
pub proof fn lemma_glyph_table_draws(c: Candle, i: int)
    requires
        0 <= i < CANDLE_GLYPH_COUNT,
        glyph_block_contains(c, i),
    ensures
        glyph_table()[i] == spec_candle_glyph(c, i),
        glyph_table()[i].char_code == CANDLE_PUA_START + i,
{
    lemma_glyph_blocks_disjoint(c, layout_candle(i), i);
}

/// The first `glyphs.len()` glyphs of the table.
spec fn is_table_prefix(glyphs: Seq<CandleGlyph>) -> bool {
    forall|i: int| 0 <= i < glyphs.len() ==> #[trigger] glyphs[i] == spec_glyph_at(i)
}

/// Pushing the glyph of the candle whose block holds the next index extends a prefix of
/// the table.
proof fn lemma_push_glyph(glyphs: Seq<CandleGlyph>, c: Candle, g: CandleGlyph)
    requires
        is_table_prefix(glyphs),
        glyph_block_contains(c, glyphs.len() as int),
        g == spec_candle_glyph(c, glyphs.len() as int),
    ensures
        is_table_prefix(glyphs.push(g)),
{
    let n = glyphs.len() as int;
    let ng = glyphs.push(g);
    lemma_glyph_blocks_disjoint(c, layout_candle(n), n);
    assert forall|i: int| 0 <= i < ng.len() implies #[trigger] ng[i] == spec_glyph_at(i) by {
        if i < n {
            assert(ng[i] == glyphs[i]);
        }
    }
}

/// Computes the outline of every codepoint of the candle range, in codepoint order.
///
/// The empty glyph comes first; then, for each height, placement, body offset and body
/// size, one glyph per way of placing the wicks around the body (all sharing the body's
/// geometry); then the naked wicks hanging from the top and those reaching the bottom.
#[verifier::loop_isolation(false)]
pub fn generate_all_glyphs() -> (glyphs: Vec<CandleGlyph>)
    ensures
        glyphs@ == glyph_table(),
{
    proof {
        lemma_counts();
    }
    let mut glyphs: Vec<CandleGlyph> = Vec::new();
    let mut char_code = CANDLE_PUA_START;
    let size = CANDLE_SIZE as i32;
    let cell_top = -HHEA_DESCENT + LINE_HEIGHT;
    let first = CandleGlyph { char_code, wick: None, body: None };
    proof {
        lemma_push_glyph(glyphs@, spec_empty(), first);
    }
    glyphs.push(first);
    char_code += 1;
    assert(is_table_prefix(glyphs@));
    let mut h: i32 = 0;
    while h <= size
        invariant
            0 <= h <= 12,
            glyphs@.len() == 1 + height_prefix(h as int),
            char_code == CANDLE_PUA_START + glyphs@.len(),
            is_table_prefix(glyphs@),
        decreases 12 - h,
    {
        let n_borders = h + 1;
        let ghost cnt = height_count(h as int);
        let mut p: i32 = 0;
        while p <= size
            invariant
                0 <= p <= 12,
                glyphs@.len() == 1 + height_prefix(h as int) + p * cnt,
                char_code == CANDLE_PUA_START + glyphs@.len(),
                is_table_prefix(glyphs@),
            decreases 12 - p,
        {
            let wick_top_y = cell_top - p * LEVEL_HEIGHT;
            let wick_bottom_y = wick_top_y - h * LEVEL_HEIGHT;
            let mut body_start: i32 = 0;
            while body_start < n_borders
                invariant
                    0 <= body_start <= n_borders,
                    glyphs@.len() == 1 + height_prefix(h as int) + p * cnt + offset_prefix(
                        body_start as int,
                        n_borders as int,
                    ),
                    char_code == CANDLE_PUA_START + glyphs@.len(),
                    is_table_prefix(glyphs@),
                decreases n_borders - body_start,
            {
                let mut body_size: i32 = 0;
                while body_size < n_borders - body_start
                    invariant
                        0 <= body_size <= n_borders - body_start,
                        glyphs@.len() == 1 + height_prefix(h as int) + p * cnt + offset_prefix(
                            body_start as int,
                            n_borders as int,
                        ) + size_prefix(body_start as int, body_size as int, n_borders as int),
                        char_code == CANDLE_PUA_START + glyphs@.len(),
                        is_table_prefix(glyphs@),
                    decreases n_borders - body_start - body_size,
                {
                    let options_wick_above = 1 + body_start;
                    let options_wick_below = n_borders - (body_start + body_size);
                    let ghost cur = Candle {
                        high_offset: p as u8,
                        height: h as u8,
                        body_offset: body_start as i8,
                        body_size: body_size as i8,
                    };
                    proof {
                        lemma_regular_bounds(cur);
                        lemma_inner_bound(cur);
                    }
                    let mut wick_above: i32 = 0;
                    while wick_above < options_wick_above
                        invariant
                            0 <= wick_above <= options_wick_above,
                            glyphs@.len() == regular_index(cur) + wick_above
                                * options_wick_below,
                            char_code == CANDLE_PUA_START + glyphs@.len(),
                            is_table_prefix(glyphs@),
                        decreases options_wick_above - wick_above,
                    {
                        let mut wick_below: i32 = 0;
                        while wick_below < options_wick_below
                            invariant
                                0 <= wick_below <= options_wick_below,
                                glyphs@.len() == regular_index(cur) + wick_above
                                    * options_wick_below + wick_below,
                                char_code == CANDLE_PUA_START + glyphs@.len(),
                                is_table_prefix(glyphs@),
                            decreases options_wick_below - wick_below,
                        {
                            let body_top_y = wick_top_y - body_start * LEVEL_HEIGHT;
                            let body_bottom_y = if body_size == 0 {
                                body_top_y - DOJI_HEIGHT
                            } else {
                                body_top_y - body_size * LEVEL_HEIGHT
                            };
                            let wick = Rect {
                                left: WICK_LEFT,
                                right: WICK_RIGHT,
                                bottom: wick_bottom_y,
                                top: wick_top_y,
                            };
                            let body = Rect {
                                left: BODY_LEFT,
                                right: BODY_RIGHT,
                                bottom: body_bottom_y,
                                top: body_top_y,
                            };
                            let glyph = CandleGlyph {
                                char_code,
                                wick: if wick.is_valid() {
                                    Some(wick)
                                } else {
                                    None
                                },
                                body: if body.is_valid() {
                                    Some(body)
                                } else {
                                    None
                                },
                            };
                            proof {
                                assert(wick_above * options_wick_below + wick_below
                                    < options_wick_above * options_wick_below) by (nonlinear_arith)
                                    requires
                                        0 <= wick_above < options_wick_above,
                                        0 <= wick_below < options_wick_below,
                                ;
                                assert(glyph_block_contains(cur, glyphs@.len() as int));
                                assert(glyph == spec_candle_glyph(cur, glyphs@.len() as int));
                                lemma_push_glyph(glyphs@, cur, glyph);
                            }
                            glyphs.push(glyph);
                            char_code += 1;
                            wick_below += 1;
                        }
                        assert((wick_above + 1) * options_wick_below == wick_above
                            * options_wick_below + options_wick_below) by (nonlinear_arith);
                        wick_above += 1;
                    }
                    body_size += 1;
                }
                body_start += 1;
            }
            assert((p + 1) * cnt == p * cnt + cnt) by (nonlinear_arith);
            p += 1;
        }
        h += 1;
    }
    let mut h: i32 = 1;
    while h <= size
        invariant
            1 <= h <= 12,
            glyphs@.len() == 1 + height_prefix(12) + h - 1,
            char_code == CANDLE_PUA_START + glyphs@.len(),
            is_table_prefix(glyphs@),
        decreases 12 - h,
    {
        let wick_top_y = cell_top;
        let wick_bottom_y = wick_top_y - h * LEVEL_HEIGHT;
        let wick = Rect { left: WICK_LEFT, right: WICK_RIGHT, bottom: wick_bottom_y, top: wick_top_y };
        let glyph = CandleGlyph {
            char_code,
            wick: if wick.is_valid() {
                Some(wick)
            } else {
                None
            },
            body: None,
        };
        proof {
            let cur = spec_naked_wick(0, h as u8);
            assert(glyph_block_contains(cur, glyphs@.len() as int));
            lemma_push_glyph(glyphs@, cur, glyph);
        }
        glyphs.push(glyph);
        char_code += 1;
        h += 1;
    }
    let mut p: i32 = 1;
    while p < size
        invariant
            1 <= p <= 11,
            glyphs@.len() == 1 + height_prefix(12) + 11 + p - 1,
            char_code == CANDLE_PUA_START + glyphs@.len(),
            is_table_prefix(glyphs@),
        decreases 11 - p,
    {
        let h = size - p;
        let wick_top_y = cell_top - p * LEVEL_HEIGHT;
        let wick_bottom_y = wick_top_y - h * LEVEL_HEIGHT;
        let wick = Rect { left: WICK_LEFT, right: WICK_RIGHT, bottom: wick_bottom_y, top: wick_top_y };
        let glyph = CandleGlyph {
            char_code,
            wick: if wick.is_valid() {
                Some(wick)
            } else {
                None
            },
            body: None,
        };
        proof {
            let cur = spec_naked_wick(p as u8, h as u8);
            assert(glyph_block_contains(cur, glyphs@.len() as int));
            lemma_push_glyph(glyphs@, cur, glyph);
        }
        glyphs.push(glyph);
        char_code += 1;
        p += 1;
    }
    assert(glyphs@ =~= glyph_table());
    glyphs
}

/// The fontforge pen commands that draw a rectangle.
pub open spec fn rect_python(r: Rect) -> Seq<char> {
    "p.moveTo(("@ + int_decimal(r.left as int) + ","@ + int_decimal(r.bottom as int)
        + "));p.lineTo(("@ + int_decimal(r.right as int) + ","@ + int_decimal(r.bottom as int)
        + "));p.lineTo(("@ + int_decimal(r.right as int) + ","@ + int_decimal(r.top as int)
        + "));p.lineTo(("@ + int_decimal(r.left as int) + ","@ + int_decimal(r.top as int)
        + "));p.closePath()"@
}

/// The lines of fontforge Python that create a glyph and draw its outline.
pub open spec fn glyph_python_lines(g: CandleGlyph) -> Seq<Seq<char>> {
    let header = "g=font.createChar("@ + int_decimal(g.char_code as int) + ");g.width="@
        + int_decimal(GLYPH_WIDTH as int);
    if g.wick is None && g.body is None {
        seq![header]
    } else {
        seq![header, "p=g.glyphPen()"@] + (if let Some(w) = g.wick {
            seq![rect_python(w)]
        } else {
            seq![]
        }) + (if let Some(b) = g.body {
            seq![rect_python(b)]
        } else {
            seq![]
        }) + seq!["p=None"@]
    }
}

/// The fontforge Python that creates a glyph and draws its outline.
pub open spec fn glyph_python(g: CandleGlyph) -> Seq<char> {
    join_lines(glyph_python_lines(g))
}

fn push_rect_python(s: &mut String, r: Rect)
    ensures
        final(s)@ == old(s)@ + rect_python(r),
{
    s.append("p.moveTo((");
    push_int_decimal(s, r.left as i64);
    s.append(",");
    push_int_decimal(s, r.bottom as i64);
    s.append("));p.lineTo((");
    push_int_decimal(s, r.right as i64);
    s.append(",");
    push_int_decimal(s, r.bottom as i64);
    s.append("));p.lineTo((");
    push_int_decimal(s, r.right as i64);
    s.append(",");
    push_int_decimal(s, r.top as i64);
    s.append("));p.lineTo((");
    push_int_decimal(s, r.left as i64);
    s.append(",");
    push_int_decimal(s, r.top as i64);
    s.append("));p.closePath()");
    assert(s@ =~= old(s)@ + rect_python(r));
}

impl CandleGlyph {
    /// The fontforge Python that creates this glyph and draws its outline.
    pub fn as_python(&self) -> (s: String)
        ensures
            s@ == glyph_python(*self),
    {
        let mut s = String::new();
        s.append("g=font.createChar(");
        push_int_decimal(&mut s, self.char_code as i64);
        s.append(");g.width=");
        push_int_decimal(&mut s, GLYPH_WIDTH as i64);
        let ghost header = s@;
        let ghost mut lines: Seq<Seq<char>> = seq![header];
        assert(s@ == join_lines(lines));
        if self.wick.is_some() || self.body.is_some() {
            let ghost line = "p=g.glyphPen()"@;
            proof {
                lemma_join_lines_push(lines, line);
                lines = lines.push(line);
            }
            push_char(&mut s, '\n');
            s.append("p=g.glyphPen()");
            if let Some(w) = self.wick {
                push_char(&mut s, '\n');
                push_rect_python(&mut s, w);
                proof {
                    lemma_join_lines_push(lines, rect_python(w));
                    lines = lines.push(rect_python(w));
                    assert(s@ =~= join_lines(lines));
                }
            }
            if let Some(b) = self.body {
                push_char(&mut s, '\n');
                push_rect_python(&mut s, b);
                proof {
                    lemma_join_lines_push(lines, rect_python(b));
                    lines = lines.push(rect_python(b));
                    assert(s@ =~= join_lines(lines));
                }
            }
            let ghost last = "p=None"@;
            proof {
                lemma_join_lines_push(lines, last);
                lines = lines.push(last);
            }
            push_char(&mut s, '\n');
            s.append("p=None");
            assert(s@ =~= join_lines(lines));
            assert(lines =~= glyph_python_lines(*self));
        } else {
            assert(lines =~= glyph_python_lines(*self));
        }
        s
    }
}

/// The fontforge Python that creates every glyph of the candle font, in codepoint order.
pub open spec fn glyph_script_spec() -> Seq<char> {
    join_lines(glyph_table().map_values(|g: CandleGlyph| glyph_python(g)))
}

/// Generates the fontforge Python for every glyph of the candle font, with all
/// geometry computed here.
pub fn generate_glyph_script() -> (s: String)
    ensures
        s@ == glyph_script_spec(),
{
    let glyphs = generate_all_glyphs();
    let ghost pieces = glyphs@.map_values(|g: CandleGlyph| glyph_python(g));
    let mut s = String::new();
    let mut i: usize = 0;
    while i < glyphs.len()
        invariant
            i <= glyphs@.len(),
            pieces == glyphs@.map_values(|g: CandleGlyph| glyph_python(g)),
            s@ == join_lines(pieces.take(i as int)),
        decreases glyphs.len() - i,
    {
        let line = glyphs[i].as_python();
        proof {
            assert(pieces.take(i + 1) =~= pieces.take(i as int).push(pieces[i as int]));
            lemma_join_lines_push(pieces.take(i as int), pieces[i as int]);
        }
        if i > 0 {
            push_char(&mut s, '\n');
        }
        s.append(line.as_str());
        i += 1;
    }
    assert(pieces.take(glyphs@.len() as int) =~= pieces);
    s
}

/// Composes the fontforge Python that builds the candle font into the file at `output`.
pub fn candle_font_script(output: &str) -> (s: String)
    ensures
        s@ == font_script_spec("Candles"@, output@, glyph_script_spec()),
{
    let glyph_script = generate_glyph_script();
    font_script("Candles", output, glyph_script.as_str())
}

/// The glyph that encodes a valid non-empty candle carries its codepoint and draws the
/// candle where it stands: the wick (when the candle has height) over the middle third of
/// the cell from `high_offset` levels below the cell top down `height` levels, and, unless
/// the candle is a naked wick, the body over the whole width from `body_offset` levels
/// below the wick top down `body_size` levels (a thin doji line when the size is zero).
pub proof fn lemma_glyph_geometry(c: Candle)
    requires
        spec_is_valid(c),
        !spec_is_empty(c),
    ensures
        ({
            let g = glyph_table()[candle_index(c)];
            let p = c.high_offset as int;
            let h = c.height as int;
            let body_top = CELL_TOP - (p + c.body_offset) * LEVEL_HEIGHT;
            &&& g.char_code == CANDLE_PUA_START + candle_index(c)
            &&& h > 0 ==> g.wick == Some(
                Rect {
                    left: WICK_LEFT,
                    right: WICK_RIGHT,
                    top: (CELL_TOP - p * LEVEL_HEIGHT) as i32,
                    bottom: (CELL_TOP - (p + h) * LEVEL_HEIGHT) as i32,
                },
            )
            &&& h == 0 ==> g.wick is None
            &&& spec_is_naked_wick(c) ==> g.body is None
            &&& !spec_is_naked_wick(c) ==> g.body == Some(
                Rect {
                    left: BODY_LEFT,
                    right: BODY_RIGHT,
                    top: body_top as i32,
                    bottom: (if c.body_size == 0 {
                        body_top - DOJI_HEIGHT
                    } else {
                        CELL_TOP - (p + c.body_offset + c.body_size) * LEVEL_HEIGHT
                    }) as i32,
                },
            )
        }),
{
    lemma_valid_in_own_block(c);
    lemma_glyph_table_draws(c, candle_index(c));
    if !spec_is_naked_wick(c) {
        lemma_regular_bounds(c);
    }
}

/// The Python of a glyph creates it with its codepoint and advance width, and draws every
/// rectangle the glyph has, each on a line of its own, the wick before the body.
pub proof fn lemma_python_draws_shapes(g: CandleGlyph)
    ensures
        ({
            let text = glyph_python(g);
            let header = "g=font.createChar("@ + int_decimal(g.char_code as int) + ");g.width="@
                + int_decimal(GLYPH_WIDTH as int);
            &&& text.len() >= header.len()
            &&& text.take(header.len() as int) == header
            &&& g.wick matches Some(w) ==> contains_infix(text, seq!['\n'] + rect_python(w))
            &&& g.body matches Some(b) ==> contains_infix(text, seq!['\n'] + rect_python(b))
            &&& (g.wick is Some && g.body is Some) ==> contains_infix(
                text,
                seq!['\n'] + rect_python(g.wick->Some_0) + seq!['\n'] + rect_python(g.body->Some_0),
            )
            &&& (g.wick is None && g.body is None) ==> text == header
        }),
{
    let lines = glyph_python_lines(g);
    lemma_join_lines_parts(lines);
    if g.wick is Some || g.body is Some {
        assert(lines[1] == "p=g.glyphPen()"@);
        if g.wick is Some && g.body is Some {
            assert(lines[2] == rect_python(g.wick->Some_0));
            assert(lines[3] == rect_python(g.body->Some_0));
        } else if g.wick is Some {
            assert(lines[2] == rect_python(g.wick->Some_0));
        } else {
            assert(lines[2] == rect_python(g.body->Some_0));
        }
    }
}

} // verus!
