//! Candlestick glyphs: the cell model, its validation, and the codepoint layout of the
//! candle font.
use vstd::prelude::*;

use crate::text::{char_from_u32, int_decimal, push_int_decimal};

verus! {

/// Number of levels a candle cell is divided into (offsets run over `0..=CANDLE_SIZE`).
pub const CANDLE_SIZE: u8 = 11;

/// Number of naked wick glyphs: eleven hanging from the top of the cell, ten reaching
/// its bottom.
pub const NAKED_WICK_COUNT: u32 = 21;

/// Total number of candle glyphs: one empty, 52416 with a body, 21 naked wicks.
pub const CANDLE_GLYPH_COUNT: u32 = 52438;

/// Start of the candle font in the second supplementary private use area.
pub const CANDLE_PUA_START: u32 = 0x100000;

/// Sentinel stored in both body fields of a naked wick (a wick with no body in the cell).
pub const NAKED_WICK: i8 = -1;

/// Number of glyphs with a body (between the empty glyph and the naked wicks).
pub const REGULAR_GLYPH_COUNT: u32 = 52416;

/// A single candlestick glyph within a character cell.
///
/// Offsets count levels down from the top of the cell: the wick runs from `high_offset`
/// to `high_offset + height`, the body from `high_offset + body_offset` over `body_size`
/// levels. A naked wick stores `NAKED_WICK` in both body fields.
#[derive(Clone, Copy, Debug, PartialEq, Eq, Structural)]
pub struct Candle {
    /// Offset from the top of the cell to the wick high.
    pub high_offset: u8,
    /// Wick span from high to low.
    pub height: u8,
    /// Offset from `high_offset` to the body top, or `NAKED_WICK`.
    pub body_offset: i8,
    /// Body size (0 is a doji), or `NAKED_WICK`.
    pub body_size: i8,
}

/// The empty candle (all fields zero).
pub open spec fn spec_empty() -> Candle {
    Candle { high_offset: 0, height: 0, body_offset: 0, body_size: 0 }
}

/// A naked wick with the given placement.
pub open spec fn spec_naked_wick(high_offset: u8, height: u8) -> Candle {
    Candle { high_offset, height, body_offset: NAKED_WICK, body_size: NAKED_WICK }
}

/// Whether every field of the candle is zero.
pub open spec fn spec_is_empty(c: Candle) -> bool {
    c.height == 0 && c.high_offset == 0 && c.body_offset == 0 && c.body_size == 0
}

/// Whether both body fields hold the naked wick sentinel.
pub open spec fn spec_is_naked_wick(c: Candle) -> bool {
    c.body_offset == NAKED_WICK && c.body_size == NAKED_WICK
}

/// The candles that `Candle::validate` accepts.
pub open spec fn spec_is_valid(c: Candle) -> bool {
    spec_is_empty(c) || {
        &&& c.high_offset <= CANDLE_SIZE
        &&& c.height <= CANDLE_SIZE
        &&& c.high_offset + c.height <= CANDLE_SIZE
        &&& if spec_is_naked_wick(c) {
            &&& (c.high_offset == 0 || c.high_offset + c.height == CANDLE_SIZE)
            &&& c.height != 0
        } else {
            &&& 0 <= c.body_offset <= c.height
            &&& 0 <= c.body_size
            &&& c.body_offset + c.body_size <= c.height
        }
    }
}

impl Candle {
    /// Creates a candle from its four fields.
    pub fn new(high_offset: u8, height: u8, body_offset: i8, body_size: i8) -> (c: Candle)
        ensures
            c == (Candle { high_offset, height, body_offset, body_size }),
    {
        Candle { high_offset, height, body_offset, body_size }
    }

    /// Creates a naked wick candle (wick only, no body in this cell).
    pub fn naked_wick(high_offset: u8, height: u8) -> (c: Candle)
        ensures
            c == spec_naked_wick(high_offset, height),
    {
        Candle { high_offset, height, body_offset: NAKED_WICK, body_size: NAKED_WICK }
    }

    /// Creates the empty candle (the first codepoint of the candle range).
    pub fn empty() -> (c: Candle)
        ensures
            c == spec_empty(),
    {
        Candle { high_offset: 0, height: 0, body_offset: 0, body_size: 0 }
    }

    /// Whether this is the empty candle.
    pub fn is_empty(&self) -> (b: bool)
        ensures
            b == spec_is_empty(*self),
    {
        self.height == 0 && self.high_offset == 0 && self.body_offset == 0 && self.body_size == 0
    }

    /// Whether this is a naked wick (wick only, no body).
    pub fn is_naked_wick(&self) -> (b: bool)
        ensures
            b == spec_is_naked_wick(*self),
    {
        self.body_offset == NAKED_WICK && self.body_size == NAKED_WICK
    }
}

/// Number of ways the top and bottom wick can be placed around a body at offset `bs`
/// with size `bsz` inside `nb` borders (the glyphs that share this body geometry).
pub open spec fn wick_options_spec(bs: int, bsz: int, nb: int) -> int {
    (1 + bs) * (nb - (bs + bsz))
}

/// Sum of the wick options over body sizes `0..k` at body offset `bs`.
pub open spec fn size_prefix(bs: int, k: int, nb: int) -> int
    decreases k,
{
    if k <= 0 {
        0
    } else {
        size_prefix(bs, k - 1, nb) + wick_options_spec(bs, k - 1, nb)
    }
}

/// Glyphs taken by body offset `bs` over all its body sizes.
pub open spec fn offset_block(bs: int, nb: int) -> int {
    size_prefix(bs, nb - bs, nb)
}

/// Glyphs taken by body offsets `0..k`.
pub open spec fn offset_prefix(k: int, nb: int) -> int
    decreases k,
{
    if k <= 0 {
        0
    } else {
        offset_prefix(k - 1, nb) + offset_block(k - 1, nb)
    }
}

/// Glyphs per placement for a candle of height `h`.
pub open spec fn height_count(h: int) -> int {
    offset_prefix(h + 1, h + 1)
}

/// Glyphs taken by all heights `0..k` (each with twelve placements).
pub open spec fn height_prefix(k: int) -> int
    decreases k,
{
    if k <= 0 {
        0
    } else {
        height_prefix(k - 1) + 12 * height_count(k - 1)
    }
}

/// Glyphs per placement for each height (the binomial coefficients of `h + 4` over 4) and
/// glyphs with a body over all heights.
pub(crate) proof fn lemma_counts()
    ensures
        height_count(0) == 1,
        height_count(1) == 5,
        height_count(2) == 15,
        height_count(3) == 35,
        height_count(4) == 70,
        height_count(5) == 126,
        height_count(6) == 210,
        height_count(7) == 330,
        height_count(8) == 495,
        height_count(9) == 715,
        height_count(10) == 1001,
        height_count(11) == 1365,
        height_prefix(12) == 52416,
{
    reveal_with_fuel(size_prefix, 13);
    reveal_with_fuel(offset_prefix, 13);
    reveal_with_fuel(height_prefix, 13);
}

/// A candle with a body that the glyph table lays out: any height and placement up to
/// `CANDLE_SIZE`, with the body inside the wick.
pub open spec fn is_regular_layout(c: Candle) -> bool {
    &&& c.height <= CANDLE_SIZE
    &&& c.high_offset <= CANDLE_SIZE
    &&& 0 <= c.body_offset
    &&& 0 <= c.body_size
    &&& c.body_offset + c.body_size <= c.height
}

/// A naked wick that the glyph table lays out: hanging from the top of the cell, or
/// reaching exactly its bottom.
pub open spec fn is_naked_layout(c: Candle) -> bool {
    &&& spec_is_naked_wick(c)
    &&& ((c.high_offset == 0 && 1 <= c.height <= CANDLE_SIZE) || (1 <= c.high_offset
        <= CANDLE_SIZE - 1 && c.high_offset + c.height == CANDLE_SIZE))
}

/// Number of glyphs that share the geometry of a regular candle.
pub open spec fn block_len(c: Candle) -> int {
    wick_options_spec(c.body_offset as int, c.body_size as int, c.height + 1)
}

/// Index (from the start of the candle range) of the first glyph of a regular candle.
pub open spec fn regular_index(c: Candle) -> int {
    let h = c.height as int;
    1 + height_prefix(h) + c.high_offset * height_count(h) + offset_prefix(
        c.body_offset as int,
        h + 1,
    ) + size_prefix(c.body_offset as int, c.body_size as int, h + 1)
}

/// Index of the glyph of a naked wick.
pub open spec fn naked_index(c: Candle) -> int {
    1 + REGULAR_GLYPH_COUNT + if c.high_offset == 0 {
        c.height - 1
    } else {
        10 + c.high_offset
    }
}

/// Index of the glyph that encodes a valid candle.
pub open spec fn candle_index(c: Candle) -> int {
    if spec_is_empty(c) {
        0
    } else if spec_is_naked_wick(c) {
        naked_index(c)
    } else {
        regular_index(c)
    }
}

/// Whether glyph index `i` of the candle range draws candle `c`.
pub open spec fn glyph_block_contains(c: Candle, i: int) -> bool {
    ||| (spec_is_empty(c) && i == 0)
    ||| (is_regular_layout(c) && regular_index(c) <= i < regular_index(c) + block_len(c))
    ||| (is_naked_layout(c) && i == naked_index(c))
}

proof fn lemma_size_prefix_mono(bs: int, k1: int, k2: int, nb: int)
    requires
        0 <= bs,
        0 <= k1 <= k2,
        bs + k2 <= nb,
    ensures
        0 <= size_prefix(bs, k1, nb) <= size_prefix(bs, k2, nb),
    decreases k2,
{
    if k2 > 0 {
        let w = wick_options_spec(bs, k2 - 1, nb);
        assert(w >= 0) by (nonlinear_arith)
            requires
                w == (1 + bs) * (nb - (bs + k2 - 1)),
                0 <= bs,
                bs + k2 <= nb,
        ;
        if k1 == k2 {
            lemma_size_prefix_mono(bs, k1 - 1, k2 - 1, nb);
        } else {
            lemma_size_prefix_mono(bs, k1, k2 - 1, nb);
        }
    }
}

proof fn lemma_offset_prefix_mono(k1: int, k2: int, nb: int)
    requires
        0 <= k1 <= k2 <= nb,
    ensures
        0 <= offset_prefix(k1, nb) <= offset_prefix(k2, nb),
    decreases k2,
{
    if k2 > 0 {
        lemma_size_prefix_mono(k2 - 1, 0, nb - (k2 - 1), nb);
        if k1 == k2 {
            lemma_offset_prefix_mono(k1 - 1, k2 - 1, nb);
        } else {
            lemma_offset_prefix_mono(k1, k2 - 1, nb);
        }
    }
}

proof fn lemma_height_count_nonneg(h: int)
    requires
        0 <= h,
    ensures
        0 <= height_count(h),
{
    lemma_offset_prefix_mono(0, h + 1, h + 1);
}

proof fn lemma_height_prefix_mono(k1: int, k2: int)
    requires
        0 <= k1 <= k2,
    ensures
        0 <= height_prefix(k1) <= height_prefix(k2),
    decreases k2,
{
    if k2 > 0 {
        lemma_height_count_nonneg(k2 - 1);
        if k1 == k2 {
            lemma_height_prefix_mono(k1 - 1, k2 - 1);
        } else {
            lemma_height_prefix_mono(k1, k2 - 1);
        }
    }
}

/// Within one height and placement, a regular candle's glyphs lie inside the
/// `height_count` glyphs of that placement.
pub(crate) proof fn lemma_inner_bound(c: Candle)
    requires
        is_regular_layout(c),
    ensures
        0 <= offset_prefix(c.body_offset as int, c.height + 1),
        0 <= size_prefix(c.body_offset as int, c.body_size as int, c.height + 1),
        1 <= block_len(c),
        offset_prefix(c.body_offset as int, c.height + 1) + size_prefix(
            c.body_offset as int,
            c.body_size as int,
            c.height + 1,
        ) + block_len(c) <= height_count(c.height as int),
{
    let nb = c.height + 1;
    let bs = c.body_offset as int;
    let bsz = c.body_size as int;
    let w = block_len(c);
    assert(w >= 1) by (nonlinear_arith)
        requires
            w == (1 + bs) * (nb - (bs + bsz)),
            0 <= bs,
            bs + bsz < nb,
    ;
    lemma_size_prefix_mono(bs, 0, bsz, nb);
    lemma_size_prefix_mono(bs, bsz + 1, nb - bs, nb);
    lemma_offset_prefix_mono(0, bs, nb);
    lemma_offset_prefix_mono(bs + 1, nb, nb);
}

/// A regular candle's glyphs lie after the empty glyph and inside the glyphs of its
/// height; in particular before the naked wicks.
pub(crate) proof fn lemma_regular_bounds(c: Candle)
    requires
        is_regular_layout(c),
    ensures
        1 <= 1 + height_prefix(c.height as int) <= regular_index(c),
        regular_index(c) + block_len(c) <= 1 + height_prefix(c.height + 1),
        regular_index(c) + block_len(c) <= 1 + REGULAR_GLYPH_COUNT,
{
    let h = c.height as int;
    let p = c.high_offset as int;
    let cnt = height_count(h);
    lemma_inner_bound(c);
    lemma_height_count_nonneg(h);
    assert(0 <= p * cnt && (p + 1) * cnt <= 12 * cnt) by (nonlinear_arith)
        requires
            0 <= p <= 11,
            0 <= cnt,
    ;
    assert((p + 1) * cnt == p * cnt + cnt) by (nonlinear_arith);
    lemma_counts();
    lemma_height_prefix_mono(h + 1, 12);
    lemma_height_prefix_mono(0, h);
}

/// Lexicographic order on (height, high offset, body offset, body size): the order in
/// which the glyph table lays out regular candles.
pub open spec fn layout_before(a: Candle, b: Candle) -> bool {
    ||| a.height < b.height
    ||| (a.height == b.height && a.high_offset < b.high_offset)
    ||| (a.height == b.height && a.high_offset == b.high_offset && a.body_offset
        < b.body_offset)
    ||| (a.height == b.height && a.high_offset == b.high_offset && a.body_offset
        == b.body_offset && a.body_size < b.body_size)
}

/// Regular candles are laid out in `layout_before` order: each candle's glyph block ends
/// at or before the first glyph of every later candle.
pub proof fn lemma_layout_order(a: Candle, b: Candle)
    requires
        is_regular_layout(a),
        is_regular_layout(b),
        layout_before(a, b),
    ensures
        regular_index(a) + block_len(a) <= regular_index(b),
{
    lemma_regular_bounds(a);
    lemma_regular_bounds(b);
    lemma_inner_bound(a);
    lemma_inner_bound(b);
    let h = a.height as int;
    let nb = h + 1;
    if a.height < b.height {
        lemma_height_prefix_mono(h + 1, b.height as int);
    } else if a.high_offset < b.high_offset {
        let cnt = height_count(h);
        let pa = a.high_offset as int;
        let pb = b.high_offset as int;
        lemma_height_count_nonneg(h);
        assert(pa * cnt + cnt <= pb * cnt && 0 <= pb * cnt) by (nonlinear_arith)
            requires
                0 <= pa < pb,
                0 <= cnt,
        ;
    } else if a.body_offset < b.body_offset {
        let ba = a.body_offset as int;
        lemma_size_prefix_mono(ba, a.body_size + 1, nb - ba, nb);
        lemma_offset_prefix_mono(ba + 1, b.body_offset as int, nb);
    } else {
        lemma_size_prefix_mono(a.body_offset as int, a.body_size + 1, b.body_size as int, nb);
    }
}

/// Each glyph index of the candle range draws at most one candle: the glyph blocks of
/// distinct candles are disjoint.
pub proof fn lemma_glyph_blocks_disjoint(a: Candle, b: Candle, i: int)
    requires
        glyph_block_contains(a, i),
        glyph_block_contains(b, i),
    ensures
        a == b,
{
    if is_regular_layout(a) && regular_index(a) <= i < regular_index(a) + block_len(a) {
        lemma_regular_bounds(a);
        if is_regular_layout(b) && regular_index(b) <= i < regular_index(b) + block_len(b) {
            lemma_regular_bounds(b);
            if layout_before(a, b) {
                lemma_layout_order(a, b);
            } else if layout_before(b, a) {
                lemma_layout_order(b, a);
            }
        }
    } else if is_regular_layout(b) && regular_index(b) <= i < regular_index(b) + block_len(b) {
        lemma_regular_bounds(b);
    }
}

/// Number of wick placements around a body at offset `bs` of size `bsz` inside
/// `n_borders` borders.
fn wick_options(bs: u32, bsz: u32, n_borders: u32) -> (r: u32)
    requires
        bs + bsz < n_borders <= 12,
    ensures
        r == wick_options_spec(bs as int, bsz as int, n_borders as int),
        r <= 144,
{
    let options_wick_above = 1 + bs;
    let options_wick_below = n_borders - (bs + bsz);
    assert(options_wick_above * options_wick_below <= 144) by (nonlinear_arith)
        requires
            options_wick_above <= 12,
            options_wick_below <= 12,
    ;
    options_wick_above * options_wick_below
}

/// Glyphs taken by body offset `bs` (all its body sizes) inside `n_borders` borders.
fn offset_block_count(bs: u32, n_borders: u32) -> (r: u32)
    requires
        bs <= n_borders <= 12,
    ensures
        r == offset_block(bs as int, n_borders as int),
        r <= 1728,
{
    let mut total: u32 = 0;
    let mut bsz: u32 = 0;
    while bsz < n_borders - bs
        invariant
            bs <= n_borders <= 12,
            bsz <= n_borders - bs,
            total == size_prefix(bs as int, bsz as int, n_borders as int),
            total <= 144 * bsz,
        decreases n_borders - bs - bsz,
    {
        total += wick_options(bs, bsz, n_borders);
        bsz += 1;
    }
    total
}

/// Counts candle body and wick configurations for a height (one placement).
fn candle_count_for_height(height: u32, _size: u32) -> (r: u32)
    requires
        height <= 11,
    ensures
        r == height_count(height as int),
        1 <= r <= 1365,
{
    let n_borders = height + 1;
    let mut total: u32 = 0;
    let mut bs: u32 = 0;
    while bs < n_borders
        invariant
            n_borders == height + 1,
            height <= 11,
            bs <= n_borders,
            total == offset_prefix(bs as int, n_borders as int),
            total <= 1728 * bs,
        decreases n_borders - bs,
    {
        total += offset_block_count(bs, n_borders);
        bs += 1;
    }
    proof {
        lemma_count_range(height as int);
    }
    total
}

proof fn lemma_count_range(h: int)
    requires
        0 <= h <= 11,
    ensures
        1 <= height_count(h) <= 1365,
{
    lemma_counts();
    assert(h == 0 || h == 1 || h == 2 || h == 3 || h == 4 || h == 5 || h == 6 || h == 7 || h
        == 8 || h == 9 || h == 10 || h == 11);
}

/// Encodes a valid candle into its codepoint in the candle range.
///
/// The empty candle takes the first codepoint, candles with a body follow in layout
/// order (each at the first of the glyphs that share its geometry), naked wicks come
/// last.
pub fn encode_candle(candle: Candle) -> (c: char)
    requires
        spec_is_valid(candle),
    ensures
        c as u32 == CANDLE_PUA_START + candle_index(candle),
        CANDLE_PUA_START <= (c as u32) < CANDLE_PUA_START + CANDLE_GLYPH_COUNT,
{
    proof {
        lemma_valid_in_own_block(candle);
    }
    if candle.is_empty() {
        return char_from_u32(CANDLE_PUA_START).unwrap();
    }
    let size: u32 = CANDLE_SIZE as u32;
    if candle.is_naked_wick() {
        let regular_count: u32 = REGULAR_GLYPH_COUNT;
        let mut index: u32 = 1 + regular_count;
        let h = candle.height as u32;
        let p = candle.high_offset as u32;
        if p == 0 {
            index += h - 1;
        } else {
            index += 11 + (p - 1);
        }
        let code = CANDLE_PUA_START + index;
        return char_from_u32(code).unwrap();
    }
    proof {
        lemma_regular_bounds(candle);
        lemma_inner_bound(candle);
        lemma_counts();
    }
    let mut index: u32 = 1;
    let high_offset_options = size + 1;
    let mut h: u32 = 0;
    while h < candle.height as u32
        invariant
            h <= candle.height <= 11,
            index == 1 + height_prefix(h as int),
            height_prefix(12) == 52416,
            high_offset_options == 12,
        decreases candle.height - h,
    {
        proof {
            lemma_height_prefix_mono(h + 1, 12);
        }
        index += candle_count_for_height(h, size) * high_offset_options;
        h += 1;
    }
    let h = candle.height as u32;
    let cnt = candle_count_for_height(h, size);
    index += candle.high_offset as u32 * cnt;
    let n_borders = h + 1;
    let mut bs: u32 = 0;
    while bs < candle.body_offset as u32
        invariant
            n_borders == candle.height + 1,
            h == candle.height,
            is_regular_layout(candle),
            bs <= candle.body_offset,
            index == 1 + height_prefix(h as int) + candle.high_offset * height_count(h as int)
                + offset_prefix(bs as int, n_borders as int),
            regular_index(candle) + block_len(candle) <= 52417,
            0 <= size_prefix(candle.body_offset as int, candle.body_size as int, n_borders as int),
        decreases candle.body_offset - bs,
    {
        proof {
            lemma_offset_prefix_mono(bs + 1, candle.body_offset as int, n_borders as int);
            lemma_inner_bound(candle);
        }
        index += offset_block_count(bs, n_borders);
        bs += 1;
    }
    let mut bsz: u32 = 0;
    while bsz < candle.body_size as u32
        invariant
            n_borders == candle.height + 1,
            h == candle.height,
            is_regular_layout(candle),
            bsz <= candle.body_size,
            index == 1 + height_prefix(h as int) + candle.high_offset * height_count(h as int)
                + offset_prefix(candle.body_offset as int, n_borders as int) + size_prefix(
                candle.body_offset as int,
                bsz as int,
                n_borders as int,
            ),
            regular_index(candle) + block_len(candle) <= 52417,
        decreases candle.body_size - bsz,
    {
        proof {
            lemma_size_prefix_mono(
                candle.body_offset as int,
                bsz + 1,
                candle.body_size as int,
                n_borders as int,
            );
            lemma_inner_bound(candle);
        }
        index += wick_options(candle.body_offset as u32, bsz, n_borders);
        bsz += 1;
    }
    let code = CANDLE_PUA_START + index;
    char_from_u32(code).unwrap()
}

/// Decodes a codepoint of the candle range back to the candle its glyph draws.
///
/// The codepoint just past the range decodes to a naked wick of height 0 at the bottom
/// of the cell, which no glyph draws; codepoints further on, or below the range, are
/// not accepted.
pub fn decode_candle(c: char) -> (candle: Candle)
    requires
        CANDLE_PUA_START <= c as u32 <= CANDLE_PUA_START + CANDLE_GLYPH_COUNT,
    ensures
        (c as u32) < CANDLE_PUA_START + CANDLE_GLYPH_COUNT ==> glyph_block_contains(
            candle,
            c as u32 - CANDLE_PUA_START,
        ),
        c as u32 == CANDLE_PUA_START + CANDLE_GLYPH_COUNT ==> candle == spec_naked_wick(
            CANDLE_SIZE,
            0,
        ),
{
    let index: u32 = c as u32 - CANDLE_PUA_START;
    if index == 0 {
        return Candle::empty();
    }
    let size: u32 = CANDLE_SIZE as u32;
    let regular_count: u32 = REGULAR_GLYPH_COUNT;
    if index > regular_count {
        let remaining = index - 1 - regular_count;
        if remaining < 11 {
            let height = remaining + 1;
            return Candle::naked_wick(0, height as u8);
        } else {
            let high_offset = remaining - 11 + 1;
            let height = size - high_offset;
            return Candle::naked_wick(high_offset as u8, height as u8);
        }
    }
    proof {
        lemma_counts();
    }
    let mut remaining = index - 1;
    let high_offset_options = size + 1;
    let mut height: u32 = 0;
    while height <= size
        invariant_except_break
            height <= 12,
            size == 11,
            high_offset_options == 12,
            1 <= index <= 52416,
            height_prefix(12) == 52416,
            remaining == index - 1 - height_prefix(height as int),
        ensures
            height <= 11,
            remaining == index - 1 - height_prefix(height as int),
            remaining < 12 * height_count(height as int),
        decreases 12 - height,
    {
        let count = candle_count_for_height(height, size) * high_offset_options;
        if remaining < count {
            break;
        }
        remaining -= count;
        height += 1;
    }
    if height > size {
        return Candle::empty();
    }
    let count_per_high_offset = candle_count_for_height(height, size);
    let high_offset = remaining / count_per_high_offset;
    let ghost placed = remaining;
    remaining %= count_per_high_offset;
    proof {
        vstd::arithmetic::div_mod::lemma_fundamental_div_mod(
            placed as int,
            count_per_high_offset as int,
        );
        assert(high_offset < 12) by (nonlinear_arith)
            requires
                placed == count_per_high_offset * high_offset + remaining,
                placed < 12 * count_per_high_offset,
                0 <= remaining,
                0 < count_per_high_offset,
        ;
    }
    let ghost within = remaining;
    let n_borders = height + 1;
    let mut body_offset: u32 = 0;
    while body_offset < n_borders
        invariant_except_break
            n_borders == height + 1,
            height <= 11,
            body_offset <= n_borders,
            within < height_count(height as int),
            remaining == within - offset_prefix(body_offset as int, n_borders as int),
        ensures
            body_offset < n_borders,
            remaining == within - offset_prefix(body_offset as int, n_borders as int),
            remaining < offset_block(body_offset as int, n_borders as int),
        decreases n_borders - body_offset,
    {
        let count_for_bs = offset_block_count(body_offset, n_borders);
        if remaining < count_for_bs {
            break;
        }
        remaining -= count_for_bs;
        body_offset += 1;
    }
    let ghost sized = remaining;
    let mut body_size: u32 = 0;
    while body_offset + body_size < n_borders
        invariant_except_break
            n_borders <= 12,
            body_offset + body_size <= n_borders,
            sized < size_prefix(body_offset as int, n_borders - body_offset, n_borders as int),
            remaining == sized - size_prefix(body_offset as int, body_size as int, n_borders as int),
        ensures
            body_offset + body_size < n_borders,
            remaining == sized - size_prefix(body_offset as int, body_size as int, n_borders as int),
            remaining < wick_options_spec(body_offset as int, body_size as int, n_borders as int),
        decreases n_borders - body_offset - body_size,
    {
        let count = wick_options(body_offset, body_size, n_borders);
        if remaining < count {
            break;
        }
        remaining -= count;
        body_size += 1;
    }
    let candle = Candle::new(high_offset as u8, height as u8, body_offset as i8, body_size as i8);
    proof {
        assert(count_per_high_offset * high_offset == high_offset * count_per_high_offset)
            by (nonlinear_arith);
        assert(is_regular_layout(candle));
        assert(index == regular_index(candle) + remaining);
        assert(remaining < block_len(candle));
    }
    candle
}

/// Every valid candle is drawn by the glyph it encodes to, and by no other candle's glyph:
/// decoding the codepoint of a valid candle gives the candle back.
pub proof fn lemma_decode_inverts_encode(c: Candle, d: Candle)
    requires
        spec_is_valid(c),
        glyph_block_contains(d, candle_index(c)),
    ensures
        glyph_block_contains(c, candle_index(c)),
        d == c,
{
    lemma_valid_in_own_block(c);
    lemma_glyph_blocks_disjoint(c, d, candle_index(c));
}

/// A valid candle's glyph index lies in its own glyph block, inside the candle range.
pub proof fn lemma_valid_in_own_block(c: Candle)
    requires
        spec_is_valid(c),
    ensures
        glyph_block_contains(c, candle_index(c)),
        0 <= candle_index(c) < CANDLE_GLYPH_COUNT,
{
    if !spec_is_empty(c) && !spec_is_naked_wick(c) {
        lemma_regular_bounds(c);
        lemma_inner_bound(c);
    }
}

/// Distinct valid candles encode to distinct codepoints.
pub proof fn lemma_encode_injective(a: Candle, b: Candle)
    requires
        spec_is_valid(a),
        spec_is_valid(b),
        candle_index(a) == candle_index(b),
    ensures
        a == b,
{
    lemma_valid_in_own_block(a);
    lemma_decode_inverts_encode(b, a);
}

/// Why `Candle::validate` rejects a candle.
#[derive(Clone, Copy, Debug, PartialEq, Eq, Structural)]
pub enum CandleError {
    /// The wick high lies below the cell.
    HighOffsetOutOfRange { high_offset: u8 },
    /// The wick is taller than the cell.
    HeightOutOfRange { height: u8 },
    /// The wick low lies below the cell.
    BeyondCell { high_offset: u8, height: u8 },
    /// A naked wick touches neither the top nor the bottom of the cell.
    NakedWickDetached { high_offset: u8, height: u8 },
    /// A naked wick has no height.
    NakedWickZeroHeight,
    /// The body starts outside the wick.
    BodyOffsetOutOfRange { body_offset: i8, height: u8 },
    /// The body size is negative without the candle being a naked wick.
    NegativeBodySize { body_size: i8 },
    /// The body ends below the wick.
    BodyBeyondWick { body_offset: i8, body_size: i8, height: u8 },
}

/// The first check that a candle fails, in the order `Candle::validate` makes them.
pub open spec fn spec_validation_error(c: Candle) -> Option<CandleError> {
    if spec_is_empty(c) {
        None
    } else if c.high_offset > CANDLE_SIZE {
        Some(CandleError::HighOffsetOutOfRange { high_offset: c.high_offset })
    } else if c.height > CANDLE_SIZE {
        Some(CandleError::HeightOutOfRange { height: c.height })
    } else if c.high_offset + c.height > CANDLE_SIZE {
        Some(CandleError::BeyondCell { high_offset: c.high_offset, height: c.height })
    } else if spec_is_naked_wick(c) {
        if !(c.high_offset == 0 || c.high_offset + c.height == CANDLE_SIZE) {
            Some(CandleError::NakedWickDetached { high_offset: c.high_offset, height: c.height })
        } else if c.height == 0 {
            Some(CandleError::NakedWickZeroHeight)
        } else {
            None
        }
    } else if c.body_offset < 0 || c.body_offset > c.height {
        Some(CandleError::BodyOffsetOutOfRange { body_offset: c.body_offset, height: c.height })
    } else if c.body_size < 0 {
        Some(CandleError::NegativeBodySize { body_size: c.body_size })
    } else if c.body_offset + c.body_size > c.height {
        Some(
            CandleError::BodyBeyondWick {
                body_offset: c.body_offset,
                body_size: c.body_size,
                height: c.height,
            },
        )
    } else {
        None
    }
}

/// The message that `Candle::validate` returns for an error.
pub open spec fn spec_error_message(e: CandleError) -> Seq<char> {
    match e {
        CandleError::HighOffsetOutOfRange { high_offset } => "high_offset "@ + int_decimal(
            high_offset as int,
        ) + " out of range [0, 11]"@,
        CandleError::HeightOutOfRange { height } => "height "@ + int_decimal(height as int)
            + " out of range [0, 11]"@,
        CandleError::BeyondCell { high_offset, height } => "candle extends beyond cell: high_offset("@
            + int_decimal(high_offset as int) + ") + height("@ + int_decimal(height as int)
            + ") = "@ + int_decimal(high_offset + height) + " > 11"@,
        CandleError::NakedWickDetached { high_offset, height } =>
            "naked wick must connect to outside: high_offset="@ + int_decimal(high_offset as int)
            + ", height="@ + int_decimal(height as int)
            + ", need high_offset=0 OR high_offset+height=11"@,
        CandleError::NakedWickZeroHeight => "naked wick cannot have height=0"@,
        CandleError::BodyOffsetOutOfRange { body_offset, height } => "body_offset "@
            + int_decimal(body_offset as int) + " out of range [0, height="@ + int_decimal(
            height as int,
        ) + "]"@,
        CandleError::NegativeBodySize { body_size } => "body_size "@ + int_decimal(
            body_size as int,
        ) + " cannot be negative (use NAKED_WICK for both body params)"@,
        CandleError::BodyBeyondWick { body_offset, body_size, height } =>
            "body extends beyond wick: body_offset("@ + int_decimal(body_offset as int)
            + ") + body_size("@ + int_decimal(body_size as int) + ") = "@ + int_decimal(
            body_offset + body_size,
        ) + " > height("@ + int_decimal(height as int) + ")"@,
    }
}

impl CandleError {
    /// The human-readable message for this error.
    pub fn message(&self) -> (s: String)
        ensures
            s@ == spec_error_message(*self),
    {
        let mut s = String::new();
        match *self {
            CandleError::HighOffsetOutOfRange { high_offset } => {
                s.append("high_offset ");
                push_int_decimal(&mut s, high_offset as i64);
                s.append(" out of range [0, 11]");
            },
            CandleError::HeightOutOfRange { height } => {
                s.append("height ");
                push_int_decimal(&mut s, height as i64);
                s.append(" out of range [0, 11]");
            },
            CandleError::BeyondCell { high_offset, height } => {
                s.append("candle extends beyond cell: high_offset(");
                push_int_decimal(&mut s, high_offset as i64);
                s.append(") + height(");
                push_int_decimal(&mut s, height as i64);
                s.append(") = ");
                push_int_decimal(&mut s, high_offset as i64 + height as i64);
                s.append(" > 11");
            },
            CandleError::NakedWickDetached { high_offset, height } => {
                s.append("naked wick must connect to outside: high_offset=");
                push_int_decimal(&mut s, high_offset as i64);
                s.append(", height=");
                push_int_decimal(&mut s, height as i64);
                s.append(", need high_offset=0 OR high_offset+height=11");
            },
            CandleError::NakedWickZeroHeight => {
                s.append("naked wick cannot have height=0");
            },
            CandleError::BodyOffsetOutOfRange { body_offset, height } => {
                s.append("body_offset ");
                push_int_decimal(&mut s, body_offset as i64);
                s.append(" out of range [0, height=");
                push_int_decimal(&mut s, height as i64);
                s.append("]");
            },
            CandleError::NegativeBodySize { body_size } => {
                s.append("body_size ");
                push_int_decimal(&mut s, body_size as i64);
                s.append(" cannot be negative (use NAKED_WICK for both body params)");
            },
            CandleError::BodyBeyondWick { body_offset, body_size, height } => {
                s.append("body extends beyond wick: body_offset(");
                push_int_decimal(&mut s, body_offset as i64);
                s.append(") + body_size(");
                push_int_decimal(&mut s, body_size as i64);
                s.append(") = ");
                push_int_decimal(&mut s, body_offset as i64 + body_size as i64);
                s.append(" > height(");
                push_int_decimal(&mut s, height as i64);
                s.append(")");
            },
        }
        s
    }
}

impl Candle {
    /// Checks the candle against the cell and returns the message of the first violated
    /// constraint.
    pub fn validate(&self) -> (r: Result<(), String>)
        ensures
            r is Ok <==> spec_validation_error(*self) is None,
            r matches Err(msg) ==> msg@ == spec_error_message(
                spec_validation_error(*self)->Some_0,
            ),
    {
        let size = CANDLE_SIZE;
        if self.is_empty() {
            return Ok(());
        }
        if self.high_offset > size {
            return Err(CandleError::HighOffsetOutOfRange { high_offset: self.high_offset }.message());
        }
        if self.height > size {
            return Err(CandleError::HeightOutOfRange { height: self.height }.message());
        }
        if self.high_offset + self.height > size {
            return Err(
                CandleError::BeyondCell { high_offset: self.high_offset, height: self.height }.message(),
            );
        }
        if self.is_naked_wick() {
            let connects_above = self.high_offset == 0;
            let connects_below = self.high_offset + self.height == size;
            if !connects_above && !connects_below {
                return Err(
                    CandleError::NakedWickDetached {
                        high_offset: self.high_offset,
                        height: self.height,
                    }.message(),
                );
            }
            if self.height == 0 {
                return Err(CandleError::NakedWickZeroHeight.message());
            }
            return Ok(());
        }
        if self.body_offset < 0 || self.body_offset > self.height as i8 {
            return Err(
                CandleError::BodyOffsetOutOfRange {
                    body_offset: self.body_offset,
                    height: self.height,
                }.message(),
            );
        }
        if self.body_size < 0 {
            return Err(CandleError::NegativeBodySize { body_size: self.body_size }.message());
        }
        if self.body_offset as i16 + self.body_size as i16 > self.height as i16 {
            return Err(
                CandleError::BodyBeyondWick {
                    body_offset: self.body_offset,
                    body_size: self.body_size,
                    height: self.height,
                }.message(),
            );
        }
        Ok(())
    }
}

/// A candle passes validation exactly when it is valid.
pub proof fn lemma_validation_matches_validity(c: Candle)
    ensures
        spec_validation_error(c) is None <==> spec_is_valid(c),
{
}

/// The glyphs with a body number `REGULAR_GLYPH_COUNT`; with the empty glyph and the
/// naked wicks they make up the `CANDLE_GLYPH_COUNT` glyphs of the candle font.
pub proof fn lemma_glyph_counts()
    ensures
        height_prefix(CANDLE_SIZE + 1) == REGULAR_GLYPH_COUNT,
        1 + REGULAR_GLYPH_COUNT + NAKED_WICK_COUNT == CANDLE_GLYPH_COUNT,
{
    lemma_counts();
}

/// Encodes a candle after validating it: an invalid candle gives, instead of a codepoint,
/// the message `Invalid candle: ` followed by its validation message.
pub fn checked_encode_candle(candle: Candle) -> (r: Result<char, String>)
    ensures
        r is Ok <==> spec_is_valid(candle),
        r matches Ok(c) ==> c as u32 == CANDLE_PUA_START + candle_index(candle),
        r matches Err(msg) ==> msg@ == "Invalid candle: "@ + spec_error_message(
            spec_validation_error(candle)->Some_0,
        ),
{
    proof {
        lemma_validation_matches_validity(candle);
    }
    match candle.validate() {
        Ok(()) => Ok(encode_candle(candle)),
        Err(e) => {
            let mut msg = String::from_str("Invalid candle: ");
            msg.append(e.as_str());
            Err(msg)
        },
    }
}

/// `validate` accepts exactly the empty candle and the candles that fit the cell: a wick
/// ending inside the cell; for a naked wick, a positive height touching the top or the
/// bottom of the cell; otherwise a body of non-negative size starting and ending inside the
/// wick (a flat doji of height 0 included).
pub proof fn lemma_validate_accepts(c: Candle)
    ensures
        ({
            let accepted = (c.high_offset == 0 && c.height == 0 && c.body_offset == 0
                && c.body_size == 0) || (c.high_offset as int + c.height as int <= 11 && if c.body_offset
                == -1 && c.body_size == -1 {
                c.height >= 1 && (c.high_offset == 0 || c.high_offset as int + c.height as int == 11)
            } else {
                0 <= c.body_offset && 0 <= c.body_size && c.body_offset as int + c.body_size as int
                    <= c.height as int
            });
            &&& spec_validation_error(c) is None <==> accepted
            &&& spec_is_valid(c) <==> accepted
        }),
{
}

/// Every candle that the font draws and that ends inside the cell passes validation.
pub proof fn lemma_validate_accepts_drawn(c: Candle, i: int)
    requires
        glyph_block_contains(c, i),
        c.high_offset as int + c.height as int <= 11,
    ensures
        spec_validation_error(c) is None,
{
    lemma_validate_accepts(c);
}

} // verus!
