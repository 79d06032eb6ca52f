//! Candlestick charts: splitting each column's wick and body over the rows of cells.
use vstd::prelude::*;

use crate::candle::{
    candle_index, encode_candle, glyph_block_contains, lemma_decode_inverts_encode,
    lemma_valid_in_own_block, spec_empty, spec_is_empty, spec_is_valid, spec_naked_wick, Candle,
    CANDLE_PUA_START, CANDLE_SIZE,
};
use crate::text::{join_lines, lemma_join_lines_push, push_char};

verus! {

/// Levels (counted up from the bottom of the chart) of one column's candle.
#[derive(Clone, Copy, Debug, PartialEq, Eq, Structural)]
pub struct CandleLevels {
    pub high: usize,
    pub low: usize,
    pub open: usize,
    pub close: usize,
}

/// Levels covered by one row of cells.
pub const LEVELS_PER_ROW: usize = 11;

/// Lowest level of row `row` (rows are counted up from the bottom of the chart).
pub open spec fn row_bottom(row: int) -> int {
    row * 11
}

/// Highest level of row `row`.
pub open spec fn row_top(row: int) -> int {
    row * 11 + 10
}

/// Whether the wick reaches into the row.
pub open spec fn wick_meets_row(l: CandleLevels, row: int) -> bool {
    !(l.high < row_bottom(row) || l.low > row_top(row))
}

/// Bottom of the wick within the row (0 when it leaves the row downwards).
pub open spec fn local_low(l: CandleLevels, row: int) -> int {
    if l.low < row_bottom(row) {
        0
    } else {
        l.low - row_bottom(row)
    }
}

/// One past the top of the wick within the row (11 when it leaves the row upwards).
pub open spec fn local_high(l: CandleLevels, row: int) -> int {
    if l.high > row_top(row) {
        11
    } else {
        l.high - row_bottom(row) + 1
    }
}

/// Top of the body: the higher of open and close.
pub open spec fn body_top(l: CandleLevels) -> int {
    if l.open >= l.close {
        l.open as int
    } else {
        l.close as int
    }
}

/// Bottom of the body: the lower of open and close.
pub open spec fn body_bottom(l: CandleLevels) -> int {
    if l.open <= l.close {
        l.open as int
    } else {
        l.close as int
    }
}

/// Whether the body reaches into the row.
pub open spec fn body_meets_row(l: CandleLevels, row: int) -> bool {
    !(body_top(l) < row_bottom(row) || body_bottom(l) > row_top(row))
}

/// Bottom of the body within the row.
pub open spec fn local_body_bottom(l: CandleLevels, row: int) -> int {
    if body_bottom(l) < row_bottom(row) {
        0
    } else {
        body_bottom(l) - row_bottom(row)
    }
}

/// One past the top of the body within the row.
pub open spec fn local_body_top(l: CandleLevels, row: int) -> int {
    if body_top(l) > row_top(row) {
        11
    } else {
        body_top(l) - row_bottom(row) + 1
    }
}

/// The candle drawn in row `row` (counted up from the bottom) for a column.
///
/// The row covers levels `row * 11 ..= row * 11 + 10`. A wick that leaves the row is
/// drawn to the cell border on that side; a body that misses the row leaves a naked
/// wick; a body with equal open and close is a doji.
pub open spec fn spec_candle_cell(l: CandleLevels, row: int) -> Candle {
    if !wick_meets_row(l, row) {
        spec_empty()
    } else {
        let high_offset = (11 - local_high(l, row)) as u8;
        let height = (local_high(l, row) - local_low(l, row)) as u8;
        if !body_meets_row(l, row) {
            spec_naked_wick(high_offset, height)
        } else {
            let body_offset = (local_high(l, row) - local_body_top(l, row)) as i8;
            let body_size = if body_top(l) == body_bottom(l) {
                0i8
            } else {
                (local_body_top(l, row) - local_body_bottom(l, row)) as i8
            };
            Candle { high_offset, height, body_offset, body_size }
        }
    }
}

/// The cell can be drawn: the body starts inside the wick where both meet the row, the
/// wick does not end above where it starts, and the resulting candle is valid.
pub open spec fn cell_defined(l: CandleLevels, row: int) -> bool {
    wick_meets_row(l, row) ==> {
        &&& local_low(l, row) <= local_high(l, row)
        &&& (body_meets_row(l, row) ==> local_body_top(l, row) <= local_high(l, row))
        &&& spec_is_valid(spec_candle_cell(l, row))
    }
}

/// The wick spans the body: `low <= open, close <= high`.
pub open spec fn levels_ordered(l: CandleLevels) -> bool {
    &&& l.low <= l.open <= l.high
    &&& l.low <= l.close <= l.high
}

/// Every cell of a column whose wick spans its body can be drawn.
pub proof fn lemma_ordered_cells_defined(l: CandleLevels, row: int)
    requires
        levels_ordered(l),
        0 <= row,
    ensures
        cell_defined(l, row),
{
}

/// The candle of one cell.
pub fn candle_cell(l: CandleLevels, row: usize) -> (c: Candle)
    requires
        cell_defined(l, row as int),
        row * 11 + 10 <= usize::MAX,
    ensures
        c == spec_candle_cell(l, row as int),
        spec_is_valid(c),
{
    let levels_per_row = LEVELS_PER_ROW;
    let row_bottom = row * levels_per_row;
    let row_top = row_bottom + levels_per_row - 1;
    if l.high < row_bottom || l.low > row_top {
        return Candle::empty();
    }
    let extends_below = l.low < row_bottom;
    let extends_above = l.high > row_top;
    let local_low = if extends_below {
        0
    } else {
        l.low - row_bottom
    };
    let local_high = if extends_above {
        levels_per_row
    } else {
        l.high - row_bottom + 1
    };
    let high_offset = levels_per_row - local_high;
    let height = local_high - local_low;
    let body_top_global = if l.open >= l.close {
        l.open
    } else {
        l.close
    };
    let body_bottom_global = if l.open <= l.close {
        l.open
    } else {
        l.close
    };
    let body_intersects = !(body_top_global < row_bottom || body_bottom_global > row_top);
    if !body_intersects {
        Candle::naked_wick(high_offset as u8, height as u8)
    } else {
        let body_extends_below = body_bottom_global < row_bottom;
        let body_extends_above = body_top_global > row_top;
        let local_body_bottom = if body_extends_below {
            0
        } else {
            body_bottom_global - row_bottom
        };
        let local_body_top = if body_extends_above {
            levels_per_row
        } else {
            body_top_global - row_bottom + 1
        };
        let bo = local_high - local_body_top;
        let bsz = if body_top_global == body_bottom_global {
            0
        } else {
            local_body_top - local_body_bottom
        };
        Candle::new(high_offset as u8, height as u8, bo as i8, bsz as i8)
    }
}

/// The candles of a chart, top line first: line `i` shows row `height - 1 - i`.
pub open spec fn candle_grid(cols: Seq<CandleLevels>, height: nat) -> Seq<Seq<Candle>> {
    Seq::new(
        height,
        |i: int| Seq::new(cols.len(), |j: int| spec_candle_cell(cols[j], height - 1 - i)),
    )
}

/// The character that encodes a candle.
pub open spec fn candle_char(c: Candle) -> char {
    ((CANDLE_PUA_START + candle_index(c)) as u32) as char
}

/// The text lines of a chart.
pub open spec fn chart_lines(cols: Seq<CandleLevels>, height: nat) -> Seq<Seq<char>> {
    Seq::new(
        height,
        |i: int| Seq::new(cols.len(), |j: int| candle_char(candle_grid(cols, height)[i][j])),
    )
}

/// Every cell of every column can be drawn over `height` rows.
pub open spec fn columns_defined(cols: Seq<CandleLevels>, height: nat) -> bool {
    forall|j: int, row: int| 0 <= j < cols.len() && 0 <= row < height ==> #[trigger] cell_defined(cols[j], row)
}

/// A candle that occupies two vertically adjacent cells is drawn without a gap: the
/// upper cell's wick reaches the bottom of its cell and the lower cell's wick starts at
/// the top of its cell.
pub proof fn lemma_rows_connect(cols: Seq<CandleLevels>, height: nat, i: int, j: int)
    requires
        columns_defined(cols, height),
        0 <= i,
        i + 1 < height,
        0 <= j < cols.len(),
        !spec_is_empty(candle_grid(cols, height)[i][j]),
        !spec_is_empty(candle_grid(cols, height)[i + 1][j]),
    ensures
        candle_grid(cols, height)[i][j].high_offset + candle_grid(cols, height)[i][j].height
            == CANDLE_SIZE,
        candle_grid(cols, height)[i + 1][j].high_offset == 0,
{
    assert(cell_defined(cols[j], height - 1 - i));
    assert(cell_defined(cols[j], height - 2 - i));
}

/// Renders the chart of the given columns over `height` rows of cells.
pub fn candle_chart(cols: &Vec<CandleLevels>, height: usize) -> (s: String)
    requires
        columns_defined(cols@, height as nat),
        height * 11 <= usize::MAX,
    ensures
        s@ == join_lines(chart_lines(cols@, height as nat)),
{
    let mut s = String::new();
    let mut i: usize = 0;
    while i < height
        invariant
            i <= height,
            height * 11 <= usize::MAX,
            columns_defined(cols@, height as nat),
            s@ == join_lines(chart_lines(cols@, height as nat).take(i as int)),
        decreases height - i,
    {
        let row = height - 1 - i;
        let mut line = String::new();
        let mut j: usize = 0;
        while j < cols.len()
            invariant
                i < height,
                row == height - 1 - i,
                height * 11 <= usize::MAX,
                j <= cols.len(),
                columns_defined(cols@, height as nat),
                line@ == chart_lines(cols@, height as nat)[i as int].take(j as int),
            decreases cols.len() - j,
        {
            assert(cell_defined(cols@[j as int], row as int));
            let cell = candle_cell(cols[j], row);
            let ch = encode_candle(cell);
            proof {
                vstd::utf8::char_u32_cast(ch, ch as u32);
            }
            push_char(&mut line, ch);
            j += 1;
            assert(line@ =~= chart_lines(cols@, height as nat)[i as int].take(j as int));
        }
        proof {
            let lines = chart_lines(cols@, height as nat);
            assert(lines[i as int].take(cols.len() as int) =~= lines[i as int]);
            assert(lines.take(i + 1) =~= lines.take(i as int).push(lines[i as int]));
            lemma_join_lines_push(lines.take(i as int), lines[i as int]);
        }
        if i > 0 {
            push_char(&mut s, '\n');
        }
        s.append(line.as_str());
        i += 1;
    }
    assert(chart_lines(cols@, height as nat).take(height as int) =~= chart_lines(
        cols@,
        height as nat,
    ));
    s
}

/// In a rendered chart, take two vertically adjacent characters and the candles they
/// decode to: when both are non-empty, the upper one reaches the bottom of its cell and the
/// lower one starts at the top of its cell, so the candle is drawn without a gap.
pub proof fn lemma_chart_rows_connect(
    cols: Seq<CandleLevels>,
    height: nat,
    i: int,
    j: int,
    above: Candle,
    below: Candle,
)
    requires
        columns_defined(cols, height),
        0 <= i,
        i + 1 < height,
        0 <= j < cols.len(),
        glyph_block_contains(above, chart_lines(cols, height)[i][j] as u32 - CANDLE_PUA_START),
        glyph_block_contains(below, chart_lines(cols, height)[i + 1][j] as u32 - CANDLE_PUA_START),
        !spec_is_empty(above),
        !spec_is_empty(below),
    ensures
        above.high_offset + above.height == CANDLE_SIZE,
        below.high_offset == 0,
{
    let grid = candle_grid(cols, height);
    assert(cell_defined(cols[j], height - 1 - i));
    assert(cell_defined(cols[j], height - 2 - i));
    let ga = grid[i][j];
    let gb = grid[i + 1][j];
    lemma_valid_in_own_block(ga);
    lemma_valid_in_own_block(gb);
    let ca = candle_char(ga);
    let cb = candle_char(gb);
    vstd::utf8::char_u32_cast(ca, ca as u32);
    vstd::utf8::char_u32_cast(cb, cb as u32);
    assert(ca as u32 == CANDLE_PUA_START + candle_index(ga));
    assert(cb as u32 == CANDLE_PUA_START + candle_index(gb));
    lemma_decode_inverts_encode(ga, above);
    lemma_decode_inverts_encode(gb, below);
    lemma_rows_connect(cols, height, i, j);
}

/// Where a cell's candle lies, in terms of the column's levels and the row's levels
/// `row * 11 ..= row * 11 + 10`: an empty cell when the wick misses the row; otherwise the
/// wick runs from the row's top down to the higher of `high` and the row top, and on to the
/// lower of `low` and the row bottom; the body is missing (a naked wick) exactly when it
/// lies wholly above or below the row, and otherwise runs from the higher of open and close
/// down to the lower of them, both clamped to the row (zero size when open equals close).
pub proof fn lemma_cell_geometry(l: CandleLevels, row: int)
    requires
        levels_ordered(l),
        0 <= row,
    ensures
        ({
            let c = spec_candle_cell(l, row);
            let rb = row * 11;
            let rt = row * 11 + 10;
            let top: int = if l.open >= l.close {
                l.open as int
            } else {
                l.close as int
            };
            let bot: int = if l.open <= l.close {
                l.open as int
            } else {
                l.close as int
            };
            let hi: int = if l.high as int <= rt {
                l.high as int
            } else {
                rt
            };
            let lo: int = if l.low as int >= rb {
                l.low as int
            } else {
                rb
            };
            let body_hi: int = if top <= rt {
                top
            } else {
                rt
            };
            let body_lo: int = if bot >= rb {
                bot
            } else {
                rb
            };
            &&& (l.high < rb || l.low > rt) ==> (c.high_offset == 0 && c.height == 0
                && c.body_offset == 0 && c.body_size == 0)
            &&& !(l.high < rb || l.low > rt) ==> {
                &&& c.high_offset == rt - hi
                &&& c.high_offset + c.height == rt + 1 - lo
                &&& (top < rb || bot > rt) ==> (c.body_offset == -1 && c.body_size == -1)
                &&& !(top < rb || bot > rt) ==> {
                    &&& c.high_offset + c.body_offset == rt - body_hi
                    &&& (top == bot ==> c.body_size == 0)
                    &&& (top != bot ==> c.high_offset + c.body_offset + c.body_size == rt + 1
                        - body_lo)
                }
            }
        }),
{
}

} // verus!
