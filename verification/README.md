# snapshot_fonts

Monospace fonts for terminal-based data visualization: chart data is encoded
directly in Unicode text and drawn by two private use area fonts.

- **FillLevels** (U+F09E5 to U+FFFFD): 251 × 251 glyphs, each cell split into a
  left and a right bar filled to one of 251 levels.
- **Candles** (U+100000 to U+10CCD5): 52,438 candlestick glyphs.

## Layout

- `src/` is the verified library:
  - `candle.rs`: the candle cell model, its validation and error messages, and the
    codepoint layout of the candle font (`encode_candle`, `decode_candle`) with the
    proofs that decoding inverts encoding and that glyph blocks never overlap.
  - `glyphs.rs`: the outline of every candle glyph and the fontforge Python that
    draws them, proved to match the codepoint layout.
  - `chart.rs`: splitting a candlestick chart over rows of cells, with the proof
    that candles spanning several rows join without gaps.
  - `fill_levels.rs`: the two-bar encoding, the characters of sparkline cells, the
    price label panel and the spreading of orders over a price series.
  - `fontforge.rs`: font metrics and the fontforge script that builds a font.
  - `text.rs`: decimal rendering, line joining and splitting.
- `app/` is the command line program and what is floating point or I/O: scaling
  prices to levels, running fontforge.
- `tests/` exercise the library on concrete values.
