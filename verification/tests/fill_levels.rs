use snapshot_fonts::fill_levels::{
    compose_sections, decode_bars, empty_char, encode_bars, fallback_block, fill_levels_font_script,
    fill_levels_glyph_script, levels_to_char, order_points, samples_per_char, side_panel,
    PUA_START,
};
use snapshot_fonts::text::{join_str_blocks_v, push_int_decimal, uniform_block};

#[test]
fn test_encode_decode_roundtrip() {
    for left in [0, 1, 125, 249, 250] {
        for right in [0, 1, 125, 249, 250] {
            let c = encode_bars(left, right);
            let (l, r) = decode_bars(c);
            assert_eq!((left, right), (l, r), "roundtrip failed for ({left}, {right})");
        }
    }
}

#[test]
fn test_encode_pua_range() {
    // All codepoints should be in PUA-A range (U+F0000 - U+FFFFD)
    let min = encode_bars(0, 0);
    let max = encode_bars(250, 250);
    assert_eq!(min as u32, PUA_START, "min should be PUA_START");
    assert_eq!(max as u32, PUA_START + 250 * 251 + 250, "max should be PUA_START + 63000");
    assert!(max as u32 <= 0xffffd, "should not exceed PUA-A range");
}

#[test]
fn every_level_pair_roundtrips() {
    let mut previous = None;
    for left in 0..=250u8 {
        for right in 0..=250u8 {
            let c = encode_bars(left, right);
            assert_eq!(decode_bars(c), (left, right));
            if let Some(p) = previous {
                assert_eq!(c as u32, p + 1);
            }
            previous = Some(c as u32);
        }
    }
    assert_eq!(previous, Some(0xffffd));
}

#[test]
fn encode_bars_exact_codepoint() {
    assert_eq!(encode_bars(1, 2) as u32, 0xf09e5 + 251 + 2);
    assert_eq!(encode_bars(125, 125) as u32, 0xf09e5 + 125 * 251 + 125);
}

#[test]
fn decode_bars_truncates_left_level() {
    // Past the fill levels range the left level wraps around a byte.
    let c = char::from_u32(PUA_START + 256 * 251 + 3).unwrap();
    assert_eq!(decode_bars(c), (0, 3));
}

#[test]
fn fallback_blocks_are_eighths() {
    let expected = [' ', '▁', '▂', '▃', '▄', '▅', '▆', '▇', '█'];
    for (level, c) in expected.iter().enumerate() {
        assert_eq!(fallback_block(level as u8), *c);
    }
}

#[test]
fn levels_to_char_modes() {
    assert_eq!(levels_to_char(true, 3, 7), encode_bars(3, 7));
    assert_eq!(levels_to_char(false, 3, 7), '▇');
    assert_eq!(levels_to_char(false, 8, 2), '█');
    assert_eq!(empty_char(true), encode_bars(0, 0));
    assert_eq!(empty_char(false), ' ');
    assert_eq!(samples_per_char(true), 2);
    assert_eq!(samples_per_char(false), 1);
}

#[test]
fn order_points_hold_last_order() {
    let orders = [(2usize, Some(10i32)), (4, None), (5, Some(7))];
    let points = order_points(7, &orders);
    assert_eq!(points, vec![None, None, Some(10), Some(10), None, Some(7), Some(7)]);
}

#[test]
fn order_points_without_orders() {
    let orders: [(usize, Option<u8>); 0] = [];
    assert_eq!(order_points(3, &orders), vec![None, None, None]);
    let first = [(0usize, Some(1u8))];
    assert_eq!(order_points(2, &first), vec![Some(1), Some(1)]);
}

#[test]
fn side_panel_labels() {
    assert_eq!(side_panel("103.50", "98.73", 4), "103.50\n      \n      \n98.73");
    assert_eq!(side_panel("1", "2", 1), "1");
    assert_eq!(side_panel("", "", 3), "\n \n");
    assert_eq!(side_panel("5", "4", 0), "");
}

#[test]
fn join_blocks_side_by_side() {
    let joined = join_str_blocks_v("ab\ncd".to_string(), "1\n2".to_string());
    assert_eq!(joined, "ab1\ncd2");
    let crlf = join_str_blocks_v("x\r\ny".to_string(), "1\n2".to_string());
    assert_eq!(crlf, "x1\ny2");
    let trailing = join_str_blocks_v("x\n".to_string(), "1\n2".to_string());
    assert_eq!(trailing, "x1");
}

#[test]
fn uniform_block_lines() {
    assert_eq!(uniform_block('a', 3, 2), "aaa\naaa");
    assert_eq!(uniform_block('a', 0, 3), "\n\n");
    assert_eq!(uniform_block('a', 2, 0), "");
}

#[test]
fn fill_levels_script_parameters() {
    let script = fill_levels_glyph_script();
    assert!(script.starts_with("\nLEVELS = 251\nPUA_START = 985573\nHALF_WIDTH = GLYPH_WIDTH // 2\n"));
    assert!(script.contains("char_code = PUA_START + left * LEVELS + right"));
    let font = fill_levels_font_script("/tmp/out.ttf");
    assert!(font.starts_with("\nimport fontforge\n"));
    assert!(font.contains("\nfont = create_font(\"FillLevels\")\n\n\nLEVELS = 251\n"));
    assert!(font.ends_with("\n\nfont.generate(\"/tmp/out.ttf\")\n"));
}

#[test]
fn sections_with_separator() {
    assert_eq!(compose_sections("a\nb".to_string(), None, 3), "a\nb");
    assert_eq!(compose_sections("a".to_string(), Some("c".to_string()), 3), "a\n───\nc");
    assert_eq!(compose_sections("a".to_string(), Some(String::new()), 0), "a\n\n");
}

#[test]
fn decimal_rendering_of_extremes() {
    let mut s = String::new();
    push_int_decimal(&mut s, i64::MIN);
    assert_eq!(s, i64::MIN.to_string());
    let mut s = String::new();
    push_int_decimal(&mut s, i64::MAX);
    assert_eq!(s, i64::MAX.to_string());
    let mut s = "x".to_string();
    push_int_decimal(&mut s, 0);
    assert_eq!(s, "x0");
}
