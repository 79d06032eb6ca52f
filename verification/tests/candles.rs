use snapshot_fonts::candle::{
    checked_encode_candle, decode_candle, encode_candle, Candle, CandleError, CANDLE_GLYPH_COUNT, CANDLE_PUA_START,
    CANDLE_SIZE, NAKED_WICK,
};
use snapshot_fonts::chart::{candle_cell, candle_chart, CandleLevels};

fn all_valid_candles() -> Vec<Candle> {
    let mut out = Vec::new();
    for p in 0..=12u8 {
        for h in 0..=12u8 {
            for bo in -1..=12i8 {
                for bs in -1..=12i8 {
                    let c = Candle::new(p, h, bo, bs);
                    if c.validate().is_ok() {
                        out.push(c);
                    }
                }
            }
        }
    }
    out
}

#[test]
fn valid_candles_roundtrip_through_codepoints() {
    let candles = all_valid_candles();
    let mut seen = std::collections::HashSet::new();
    for c in &candles {
        let ch = encode_candle(*c);
        let code = ch as u32;
        assert!(code >= CANDLE_PUA_START && code < CANDLE_PUA_START + CANDLE_GLYPH_COUNT);
        assert_eq!(decode_candle(ch), *c, "roundtrip failed for {c:?}");
        assert!(seen.insert(code), "codepoint reused by {c:?}");
    }
}

#[test]
fn every_codepoint_decodes() {
    for index in 0..=CANDLE_GLYPH_COUNT {
        let ch = char::from_u32(CANDLE_PUA_START + index).unwrap();
        let c = decode_candle(ch);
        if index > 0 && index <= 52416 {
            assert!(!c.is_naked_wick());
        }
    }
}

#[test]
fn encode_known_codepoints() {
    assert_eq!(encode_candle(Candle::empty()) as u32, 0x100000);
    assert_eq!(encode_candle(Candle::new(0, 0, 0, 0)) as u32, 0x100000);
    assert_eq!(encode_candle(Candle::new(1, 0, 0, 0)) as u32, 0x100002);
    assert_eq!(encode_candle(Candle::new(0, 1, 0, 0)) as u32, 0x100000 + 13);
    assert_eq!(encode_candle(Candle::naked_wick(0, 1)) as u32, 0x10ccc1);
    assert_eq!(encode_candle(Candle::naked_wick(0, 11)) as u32, 0x10cccb);
    assert_eq!(encode_candle(Candle::naked_wick(10, 1)) as u32, 0x10ccd5);
    assert_eq!(encode_candle(Candle::new(9, 2, 0, 0)) as u32, 0x1000d0);
}

#[test]
fn decode_shares_geometry_across_wick_options() {
    // height 1, placement 0: body offset 0 size 0 has 2 wick options
    assert_eq!(decode_candle('\u{10000d}'), Candle::new(0, 1, 0, 0));
    assert_eq!(decode_candle('\u{10000e}'), Candle::new(0, 1, 0, 0));
    assert_eq!(decode_candle('\u{100001}'), Candle::new(0, 0, 0, 0));
}

#[test]
fn validate_messages() {
    assert_eq!(Candle::empty().validate(), Ok(()));
    assert_eq!(Candle::new(12, 0, 0, 0).validate(), Err("high_offset 12 out of range [0, 11]".to_string()));
    assert_eq!(Candle::new(0, 12, 0, 0).validate(), Err("height 12 out of range [0, 11]".to_string()));
    assert_eq!(
        Candle::new(5, 7, 0, 0).validate(),
        Err("candle extends beyond cell: high_offset(5) + height(7) = 12 > 11".to_string())
    );
    assert_eq!(
        Candle::naked_wick(2, 3).validate(),
        Err("naked wick must connect to outside: high_offset=2, height=3, need high_offset=0 OR high_offset+height=11".to_string())
    );
    assert_eq!(Candle::naked_wick(0, 0).validate(), Err("naked wick cannot have height=0".to_string()));
    assert_eq!(Candle::naked_wick(11, 0).validate(), Err("naked wick cannot have height=0".to_string()));
    assert_eq!(
        Candle::new(0, 3, -2, 0).validate(),
        Err("body_offset -2 out of range [0, height=3]".to_string())
    );
    assert_eq!(
        Candle::new(0, 3, 4, 0).validate(),
        Err("body_offset 4 out of range [0, height=3]".to_string())
    );
    assert_eq!(
        Candle::new(0, 3, 1, -1).validate(),
        Err("body_size -1 cannot be negative (use NAKED_WICK for both body params)".to_string())
    );
    assert_eq!(
        Candle::new(0, 3, 2, 2).validate(),
        Err("body extends beyond wick: body_offset(2) + body_size(2) = 4 > height(3)".to_string())
    );
    assert_eq!(Candle::new(0, 3, 1, 2).validate(), Ok(()));
    assert_eq!(Candle::naked_wick(3, 8).validate(), Ok(()));
}

#[test]
fn error_messages_match_validate() {
    let e = CandleError::BeyondCell { high_offset: 5, height: 7 };
    assert_eq!(e.message(), "candle extends beyond cell: high_offset(5) + height(7) = 12 > 11");
}

#[test]
fn candle_predicates() {
    assert!(Candle::empty().is_empty());
    assert!(!Candle::new(1, 0, 0, 0).is_empty());
    assert!(Candle::naked_wick(0, 3).is_naked_wick());
    assert_eq!(Candle::naked_wick(0, 3), Candle::new(0, 3, NAKED_WICK, NAKED_WICK));
    assert!(!Candle::new(0, 3, -1, 0).is_naked_wick());
}

/// A candle from level 21 to level 34 with a doji at 34 spans three rows of cells.
#[test]
fn single_column_spans_three_rows() {
    let col = CandleLevels { high: 34, low: 21, open: 34, close: 34 };
    let chart = candle_chart(&vec![col], 12);
    let column: String = chart.lines().map(|l| l.chars().next().unwrap()).collect();
    assert_eq!(column, "\u{100000}".repeat(8) + "\u{1000d0}\u{10cccb}\u{10ccc1}\u{100000}");
    let decoded: Vec<Candle> = column.chars().map(decode_candle).collect();
    assert_eq!(decoded[8], Candle::new(9, 2, 0, 0));
    assert_eq!(decoded[9], Candle::new(0, CANDLE_SIZE, NAKED_WICK, NAKED_WICK));
    assert_eq!(decoded[10], Candle::naked_wick(0, 1));
    assert!(decoded[11].is_empty());
}

#[test]
fn multirow_candles_connect() {
    let cols = vec![
        CandleLevels { high: 131, low: 0, open: 40, close: 90 },
        CandleLevels { high: 60, low: 5, open: 60, close: 5 },
        CandleLevels { high: 23, low: 10, open: 12, close: 12 },
        CandleLevels { high: 100, low: 99, open: 99, close: 100 },
    ];
    let height = 12;
    let chart = candle_chart(&cols, height);
    let rows: Vec<Vec<Candle>> = chart.lines().map(|l| l.chars().map(decode_candle).collect()).collect();
    assert_eq!(rows.len(), height);
    for col in 0..cols.len() {
        for above in 0..height - 1 {
            let a = rows[above][col];
            let b = rows[above + 1][col];
            if a.is_empty() || b.is_empty() {
                continue;
            }
            assert_eq!(a.high_offset + a.height, CANDLE_SIZE);
            assert_eq!(b.high_offset, 0);
        }
    }
    // the cells agree with the per-cell rendering
    for (i, row) in rows.iter().enumerate() {
        for (j, c) in row.iter().enumerate() {
            assert_eq!(*c, candle_cell(cols[j], height - 1 - i));
        }
    }
}

#[test]
fn empty_chart_has_empty_lines() {
    assert_eq!(candle_chart(&vec![], 3), "\n\n");
}

#[test]
fn validate_wide_body_sum_is_an_error() {
    assert_eq!(
        Candle::new(0, 1, 1, 127).validate(),
        Err("body extends beyond wick: body_offset(1) + body_size(127) = 128 > height(1)".to_string())
    );
    assert!(Candle::new(0, 11, 11, 127).validate().is_err());
}

#[test]
fn checked_encode_reports_invalid_candles() {
    assert_eq!(checked_encode_candle(Candle::naked_wick(0, 3)), Ok(encode_candle(Candle::naked_wick(0, 3))));
    assert_eq!(
        checked_encode_candle(Candle::new(0, 12, 0, 0)),
        Err("Invalid candle: height 12 out of range [0, 11]".to_string())
    );
}

#[test]
fn codepoint_past_the_range_decodes_to_flat_wick() {
    let c = char::from_u32(CANDLE_PUA_START + CANDLE_GLYPH_COUNT).unwrap();
    assert_eq!(decode_candle(c), Candle::naked_wick(CANDLE_SIZE, 0));
}
