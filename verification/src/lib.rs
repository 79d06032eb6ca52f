//! Monospace fonts for terminal data visualization: chart data encoded directly in
//! Unicode text, drawn by two private use area fonts.
pub mod candle;
pub mod chart;
pub mod fill_levels;
pub mod fontforge;
pub mod glyphs;
pub mod text;

pub use candle::{checked_encode_candle, decode_candle, encode_candle, Candle, CandleError};
pub use chart::{candle_chart, CandleLevels};
pub use fill_levels::{decode_bars, encode_bars, PUA_START};
pub use glyphs::{candle_font_script, generate_glyph_script};
