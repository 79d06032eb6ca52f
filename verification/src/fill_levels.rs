//! Fill levels: two bars per character cell, each filled to one of 251 levels, packed
//! into the first supplementary private use area.
use vstd::prelude::*;

use crate::fontforge::{font_script, font_script_spec};
use crate::text::{
    char_from_u32, int_decimal, join_lines, lemma_join_lines_push, push_char, push_int_decimal,
    repeat_char,
};

verus! {

/// Codepoint of the glyph with both bars empty.
pub const PUA_START: u32 = 0xf09e5;

/// Number of fill levels of one bar (`0..=250`).
pub const LEVELS: u16 = 251;

/// Highest codepoint of the first supplementary private use area.
pub const PUA_A_END: u32 = 0xffffd;

/// Codepoint of the glyph for a left and a right fill level.
pub open spec fn spec_encode_bars(left: int, right: int) -> int {
    PUA_START + left * LEVELS + right
}

/// Fill levels that `decode_bars` reads from a codepoint (the left level truncated to a byte).
pub open spec fn spec_decode_bars(code: int) -> (u8, u8) {
    (((code - PUA_START) / LEVELS as int) as u8, ((code - PUA_START) % LEVELS as int) as u8)
}

/// Encodes two bar levels (0-250 each) into a codepoint of the fill levels font.
pub fn encode_bars(left: u8, right: u8) -> (c: char)
    requires
        left <= 250,
        right <= 250,
    ensures
        c as u32 == spec_encode_bars(left as int, right as int),
        PUA_START <= (c as u32) <= PUA_A_END,
{
    assert(left * 251 <= 62750) by (nonlinear_arith)
        requires
            left <= 250,
    ;
    let code = PUA_START + left as u32 * LEVELS as u32 + right as u32;
    char_from_u32(code).unwrap()
}

/// Decodes a codepoint of the fill levels font into its left and right bar levels.
pub fn decode_bars(c: char) -> (levels: (u8, u8))
    requires
        PUA_START <= c as u32,
    ensures
        levels == spec_decode_bars(c as u32 as int),
{
    let code = c as u32 - PUA_START;
    let left = (code / LEVELS as u32) as u8;
    let right = (code % LEVELS as u32) as u8;
    (left, right)
}

/// Decoding the codepoint of two bar levels gives the levels back; in particular
/// distinct level pairs have distinct codepoints.
pub proof fn lemma_bars_roundtrip(left: u8, right: u8)
    requires
        left <= 250,
        right <= 250,
    ensures
        spec_decode_bars(spec_encode_bars(left as int, right as int)) == (left, right),
        PUA_START <= spec_encode_bars(left as int, right as int) <= PUA_A_END,
{
    let k = left as int * 251 + right as int;
    assert(k / 251 == left as int && k % 251 == right as int) by (nonlinear_arith)
        requires
            k == left as int * 251 + right as int,
            0 <= left <= 250,
            0 <= right <= 250,
    ;
}

/// Opening of the fill levels glyph script, up to the number of levels.
pub const GLYPH_SCRIPT_HEAD: &'static str = r#"
LEVELS = "#;

/// Between the number of levels and the first codepoint.
pub const GLYPH_SCRIPT_MID: &'static str = r#"
PUA_START = "#;

/// The glyph loop of the fill levels glyph script.
pub const GLYPH_SCRIPT_LOOP: &'static str = r#"
HALF_WIDTH = GLYPH_WIDTH // 2

for left in range(LEVELS):
    for right in range(LEVELS):
        char_code = PUA_START + left * LEVELS + right
        glyph = font.createChar(char_code)
        glyph.width = GLYPH_WIDTH

        # Draw from -HHEA_DESCENT to scaled height
        # Level 0 = empty, Level 250 = full bar from -483 to 1901
        left_height = int((left / 250.0) * LINE_HEIGHT) - HHEA_DESCENT
        right_height = int((right / 250.0) * LINE_HEIGHT) - HHEA_DESCENT

        pen = glyph.glyphPen()
        if left > 0:
            pen.moveTo((0, -HHEA_DESCENT))
            pen.lineTo((HALF_WIDTH, -HHEA_DESCENT))
            pen.lineTo((HALF_WIDTH, left_height))
            pen.lineTo((0, left_height))
            pen.closePath()

        if right > 0:
            pen.moveTo((HALF_WIDTH, -HHEA_DESCENT))
            pen.lineTo((GLYPH_WIDTH, -HHEA_DESCENT))
            pen.lineTo((GLYPH_WIDTH, right_height))
            pen.lineTo((HALF_WIDTH, right_height))
            pen.closePath()
        pen = None
"#;

/// The fontforge Python that draws every fill levels glyph: for each left and right level,
/// two bars rising from the bottom of the cell.
pub open spec fn fill_levels_glyph_script_spec() -> Seq<char> {
    GLYPH_SCRIPT_HEAD@ + int_decimal(LEVELS as int) + GLYPH_SCRIPT_MID@ + int_decimal(PUA_START as int)
        + GLYPH_SCRIPT_LOOP@
}

/// Composes the fontforge Python that draws every fill levels glyph.
pub fn fill_levels_glyph_script() -> (s: String)
    ensures
        s@ == fill_levels_glyph_script_spec(),
{
    let mut s = String::from_str(GLYPH_SCRIPT_HEAD);
    push_int_decimal(&mut s, LEVELS as i64);
    s.append(GLYPH_SCRIPT_MID);
    push_int_decimal(&mut s, PUA_START as i64);
    s.append(GLYPH_SCRIPT_LOOP);
    s
}

/// Composes the fontforge Python that builds the fill levels font into the file at `output`.
pub fn fill_levels_font_script(output: &str) -> (s: String)
    ensures
        s@ == font_script_spec("FillLevels"@, output@, fill_levels_glyph_script_spec()),
{
    let glyph_script = fill_levels_glyph_script();
    font_script("FillLevels", output, glyph_script.as_str())
}

/// The eighth blocks that draw a bar of 0 to 8 levels without the fill levels font.
pub open spec fn spec_fallback_block(level: int) -> char {
    if level == 0 {
        ' '
    } else {
        ((0x2580 + level) as u32) as char
    }
}

/// The character for a bar of `level` eighths (0 to 8) without the fill levels font.
pub fn fallback_block(level: u8) -> (c: char)
    requires
        level <= 8,
    ensures
        c == spec_fallback_block(level as int),
{
    let c = match level {
        0 => ' ',
        1 => '\u{2581}',
        2 => '\u{2582}',
        3 => '\u{2583}',
        4 => '\u{2584}',
        5 => '\u{2585}',
        6 => '\u{2586}',
        7 => '\u{2587}',
        _ => '\u{2588}',
    };
    proof {
        vstd::utf8::char_u32_cast(c, c as u32);
    }
    c
}

/// The character for a cell whose left and right halves are filled to the given levels:
/// the fill levels glyph, or without the font the eighth block of the higher level.
pub open spec fn spec_levels_to_char(use_font: bool, left: u8, right: u8) -> char {
    if use_font {
        (spec_encode_bars(left as int, right as int) as u32) as char
    } else {
        spec_fallback_block(if left >= right {
            left as int
        } else {
            right as int
        })
    }
}

/// The levels a cell can show: 0 to 250 with the font, 0 to 8 without.
pub open spec fn levels_in_range(use_font: bool, left: u8, right: u8) -> bool {
    if use_font {
        left <= 250 && right <= 250
    } else {
        left <= 8 && right <= 8
    }
}

/// The character for a cell whose left and right halves are filled to the given levels.
pub fn levels_to_char(use_font: bool, left: u8, right: u8) -> (c: char)
    requires
        levels_in_range(use_font, left, right),
    ensures
        c == spec_levels_to_char(use_font, left, right),
{
    if use_font {
        let c = encode_bars(left, right);
        proof {
            vstd::utf8::char_u32_cast(c, c as u32);
        }
        c
    } else {
        fallback_block(if left >= right {
            left
        } else {
            right
        })
    }
}

/// The character of an empty cell.
pub fn empty_char(use_font: bool) -> (c: char)
    ensures
        c == spec_levels_to_char(use_font, 0, 0),
{
    levels_to_char(use_font, 0, 0)
}

/// Horizontal samples per character: two with the font (one per bar), one without.
pub fn samples_per_char(use_font: bool) -> (n: usize)
    ensures
        n == if use_font {
            2usize
        } else {
            1usize
        },
{
    if use_font {
        2
    } else {
        1
    }
}

/// The order in force at price index `k`: the last order placed at or before `k`, or none.
pub open spec fn order_in_force<T>(orders: Seq<(usize, Option<T>)>, k: int) -> Option<T>
    decreases orders.len(),
{
    if orders.len() == 0 {
        None
    } else if orders.last().0 <= k {
        orders.last().1
    } else {
        order_in_force(orders.drop_last(), k)
    }
}

/// Orders sit at strictly increasing price indices below `n`.
pub open spec fn orders_well_placed<T>(orders: Seq<(usize, Option<T>)>, n: int) -> bool {
    &&& forall|i: int| 0 <= i < orders.len() ==> (#[trigger] orders[i]).0 < n
    &&& forall|i: int, j: int| 0 <= i < j < orders.len() ==> #[trigger] orders[i].0 < #[trigger] orders[j].0
}

proof fn lemma_in_force_after_last<T>(orders: Seq<(usize, Option<T>)>, k: int)
    requires
        orders.len() > 0,
        orders.last().0 <= k,
    ensures
        order_in_force(orders, k) == orders.last().1,
{
}

/// Spreads orders over `n_prices` price indices: each index holds the order in force there.
pub fn order_points<T: Copy>(n_prices: usize, orders: &[(usize, Option<T>)]) -> (points: Vec<
    Option<T>,
>)
    requires
        orders_well_placed(orders@, n_prices as int),
    ensures
        points@.len() == n_prices,
        forall|k: int| 0 <= k < n_prices ==> #[trigger] points@[k] == order_in_force(orders@, k),
{
    let mut points: Vec<Option<T>> = Vec::new();
    let mut last_ordinal: usize = 0;
    let mut last_order: Option<T> = None;
    let mut idx: usize = 0;
    while idx < orders.len()
        invariant
            idx <= orders@.len(),
            orders_well_placed(orders@, n_prices as int),
            points@.len() == last_ordinal <= n_prices,
            idx > 0 ==> last_ordinal == orders@[idx - 1].0,
            idx == 0 ==> last_ordinal == 0,
            forall|k: int|
                0 <= k < points@.len() ==> #[trigger] points@[k] == order_in_force(
                    orders@.take(idx as int),
                    k,
                ),
            forall|k: int|
                last_ordinal <= k ==> order_in_force(orders@.take(idx as int), k) == last_order,
        decreases orders.len() - idx,
    {
        let (ordinal, order) = orders[idx];
        let ghost prefix = orders@.take(idx as int);
        let ghost next = orders@.take(idx + 1);
        assert(next.drop_last() =~= prefix);
        proof {
            if idx > 0 {
                assert(orders@[idx - 1].0 < orders@[idx as int].0);
            }
            assert(next.last() == orders@[idx as int]);
            assert forall|k: int| k < ordinal implies order_in_force(next, k) == order_in_force(
                prefix,
                k,
            ) by {}
        }
        let ghost start = last_ordinal;
        while last_ordinal < ordinal
            invariant
                start <= last_ordinal <= ordinal,
                idx < orders@.len(),
                ordinal == orders@[idx as int].0,
                forall|k: int| k < ordinal ==> order_in_force(next, k) == order_in_force(prefix, k),
                ordinal < n_prices,
                next.drop_last() == prefix,
                next.last() == orders@[idx as int],
                points@.len() == last_ordinal,
                forall|k: int|
                    0 <= k < points@.len() ==> #[trigger] points@[k] == order_in_force(next, k),
                forall|k: int| start <= k ==> order_in_force(prefix, k) == last_order,
            decreases ordinal - last_ordinal,
        {
            points.push(last_order);
            last_ordinal += 1;
        }
        proof {
            assert forall|k: int| ordinal <= k implies order_in_force(next, k) == order by {
                lemma_in_force_after_last(next, k);
            }
        }
        last_ordinal = ordinal;
        last_order = order;
        idx += 1;
    }
    assert(orders@.take(orders@.len() as int) =~= orders@);
    let ghost start = last_ordinal;
    while last_ordinal < n_prices
        invariant
            start <= last_ordinal <= n_prices,
            points@.len() == last_ordinal,
            forall|k: int|
                0 <= k < points@.len() ==> #[trigger] points@[k] == order_in_force(orders@, k),
            forall|k: int| start <= k ==> order_in_force(orders@, k) == last_order,
        decreases n_prices - last_ordinal,
    {
        points.push(last_order);
        last_ordinal += 1;
    }
    points
}

/// A blank side panel line: a space right-aligned to `width` (so `width` spaces, or one
/// space when `width` is zero).
pub open spec fn blank_panel_line(width: nat) -> Seq<char> {
    if width == 0 {
        seq![' ']
    } else {
        repeat_char(' ', width)
    }
}

/// The lines of a side panel: the maximum on the first line, the minimum on the last,
/// blank lines between.
pub open spec fn side_panel_lines(max_str: Seq<char>, min_str: Seq<char>, width: nat, height: nat) -> Seq<Seq<char>> {
    Seq::new(
        height,
        |i: int|
            if i == 0 {
                max_str
            } else if i == height - 1 {
                min_str
            } else {
                blank_panel_line(width)
            },
    )
}

/// Builds the price labels shown right of a plot of `height` lines: `max_str` on the top
/// line, `min_str` on the bottom line, blank lines as wide as the longer label (in bytes)
/// between them.
pub fn side_panel(max_str: &str, min_str: &str, height: usize) -> (s: String)
    ensures
        s@ == join_lines(
            side_panel_lines(
                max_str@,
                min_str@,
                (if max_str.len() >= min_str.len() {
                    max_str.len()
                } else {
                    min_str.len()
                }) as nat,
                height as nat,
            ),
        ),
{
    let width = if max_str.len() >= min_str.len() {
        max_str.len()
    } else {
        min_str.len()
    };
    let mut blank = String::new();
    if width == 0 {
        push_char(&mut blank, ' ');
        assert(blank@ =~= blank_panel_line(0));
    } else {
        let mut j: usize = 0;
        while j < width
            invariant
                j <= width,
                blank@ == repeat_char(' ', j as nat),
            decreases width - j,
        {
            push_char(&mut blank, ' ');
            j += 1;
            assert(blank@ =~= repeat_char(' ', j as nat));
        }
    }
    let ghost lines = side_panel_lines(max_str@, min_str@, width as nat, height as nat);
    let mut s = String::new();
    let mut i: usize = 0;
    while i < height
        invariant
            i <= height,
            lines == side_panel_lines(max_str@, min_str@, width as nat, height as nat),
            blank@ == blank_panel_line(width as nat),
            s@ == join_lines(lines.take(i as int)),
        decreases height - i,
    {
        proof {
            assert(lines.take(i + 1) =~= lines.take(i as int).push(lines[i as int]));
            lemma_join_lines_push(lines.take(i as int), lines[i as int]);
        }
        if i > 0 {
            push_char(&mut s, '\n');
        }
        if i == 0 {
            s.append(max_str);
        } else if i == height - 1 {
            s.append(min_str);
        } else {
            s.append(blank.as_str());
        }
        i += 1;
    }
    assert(lines.take(height as int) =~= lines);
    s
}

/// The text of a plot with an optional secondary pane: the main section, then, when there
/// is a secondary section, a line of `width` box-drawing dashes and that section, each on
/// lines of their own.
pub open spec fn sections_text(main: Seq<char>, secondary: Option<Seq<char>>, width: nat) -> Seq<char> {
    match secondary {
        None => main,
        Some(sec) => main + seq!['\n'] + repeat_char('\u{2500}', width) + seq!['\n'] + sec,
    }
}

/// Puts the main plot above the secondary pane, separated by a line of dashes.
pub fn compose_sections(main: String, secondary: Option<String>, width: usize) -> (s: String)
    ensures
        s@ == sections_text(
            main@,
            match secondary {
                None => None,
                Some(sec) => Some(sec@),
            },
            width as nat,
        ),
{
    let mut out = main;
    match secondary {
        None => out,
        Some(sec) => {
            let ghost start = out@;
            push_char(&mut out, '\n');
            let mut k: usize = 0;
            while k < width
                invariant
                    k <= width,
                    out@ == start + seq!['\n'] + repeat_char('\u{2500}', k as nat),
                decreases width - k,
            {
                push_char(&mut out, '\u{2500}');
                k += 1;
                assert(out@ =~= start + seq!['\n'] + repeat_char('\u{2500}', k as nat));
            }
            push_char(&mut out, '\n');
            out.append(sec.as_str());
            out
        },
    }
}

} // verus!
