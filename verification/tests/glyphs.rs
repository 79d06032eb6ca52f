use snapshot_fonts::candle::{decode_candle, encode_candle, Candle, CANDLE_GLYPH_COUNT, CANDLE_PUA_START};
use snapshot_fonts::fontforge::{font_script, FONT_SETUP};
use snapshot_fonts::glyphs::{candle_font_script, generate_all_glyphs, generate_glyph_script, CandleGlyph, Rect};

#[test]
fn glyph_table_in_codepoint_order() {
    let glyphs = generate_all_glyphs();
    assert_eq!(glyphs.len(), CANDLE_GLYPH_COUNT as usize);
    for (i, g) in glyphs.iter().enumerate() {
        assert_eq!(g.char_code, CANDLE_PUA_START + i as u32);
    }
    assert_eq!(glyphs[0].wick, None);
    assert_eq!(glyphs[0].body, None);
}

#[test]
fn glyph_draws_encoded_candle() {
    let glyphs = generate_all_glyphs();
    // doji at the top of a zero-height wick
    let c = encode_candle(Candle::new(0, 0, 0, 0));
    assert_eq!(c as u32, CANDLE_PUA_START);
    let g = glyphs[1];
    assert_eq!(g.wick, None);
    assert_eq!(g.body, Some(Rect { left: 0, bottom: 1827, right: 1233, top: 1901 }));
    // a regular candle
    let candle = Candle::new(2, 5, 1, 3);
    let idx = (encode_candle(candle) as u32 - CANDLE_PUA_START) as usize;
    let g = glyphs[idx];
    assert_eq!(g.wick, Some(Rect { left: 411, bottom: 1901 - 7 * 216, right: 822, top: 1901 - 2 * 216 }));
    assert_eq!(g.body, Some(Rect { left: 0, bottom: 1901 - 6 * 216, right: 1233, top: 1901 - 3 * 216 }));
    assert_eq!(decode_candle(char::from_u32(g.char_code).unwrap()), candle);
    // a naked wick
    let naked = Candle::naked_wick(4, 7);
    let idx = (encode_candle(naked) as u32 - CANDLE_PUA_START) as usize;
    assert_eq!(glyphs[idx].wick, Some(Rect { left: 411, bottom: 1901 - 11 * 216, right: 822, top: 1901 - 4 * 216 }));
    assert_eq!(glyphs[idx].body, None);
}

#[test]
fn glyph_python_lines() {
    let empty = CandleGlyph { char_code: 1048576, wick: None, body: None };
    assert_eq!(empty.as_python(), "g=font.createChar(1048576);g.width=1233");
    let g = CandleGlyph {
        char_code: 7,
        wick: Some(Rect { left: 411, bottom: -10, right: 822, top: 5 }),
        body: None,
    };
    assert_eq!(
        g.as_python(),
        "g=font.createChar(7);g.width=1233\np=g.glyphPen()\np.moveTo((411,-10));p.lineTo((822,-10));p.lineTo((822,5));p.lineTo((411,5));p.closePath()\np=None"
    );
}

#[test]
fn glyph_script_covers_table() {
    let script = generate_glyph_script();
    assert!(script.starts_with("g=font.createChar(1048576);g.width=1233\ng=font.createChar(1048577);g.width=1233\np=g.glyphPen()\n"));
    assert_eq!(script.matches("font.createChar(").count(), CANDLE_GLYPH_COUNT as usize);
    assert!(!script.ends_with('\n'));
    let font = candle_font_script("out.ttf");
    assert!(font.starts_with(FONT_SETUP));
    assert!(font.ends_with("p=None\n\nfont.generate(\"out.ttf\")\n"));
}

#[test]
fn font_script_layout() {
    let s = font_script("Name", "o.ttf", "X");
    assert_eq!(s, format!("{FONT_SETUP}\nfont = create_font(\"Name\")\n\nX\n\nfont.generate(\"o.ttf\")\n"));
}
