//! Font metrics shared by both fonts and the fontforge script that builds a font file.
use vstd::prelude::*;

verus! {

/// Ascent of the horizontal header (matching DejaVu Sans Mono).
pub const HHEA_ASCENT: i32 = 1901;

/// Descent of the horizontal header (matching DejaVu Sans Mono).
pub const HHEA_DESCENT: i32 = 483;

/// Height of a line: ascent plus descent.
pub const LINE_HEIGHT: i32 = HHEA_ASCENT + HHEA_DESCENT;

/// Advance width of every glyph (1233 in a 2048 em, as DejaVu Sans Mono).
pub const GLYPH_WIDTH: i32 = 1233;

/// Common fontforge Python setup for fonts with DejaVu Sans Mono metrics: defines
/// `create_font(name)`.
pub const FONT_SETUP: &'static str = r#"
import fontforge

# Match DejaVu Sans Mono metrics exactly
# hhea: ascent=1901, descent=-483 (line height = 2384)
HHEA_ASCENT = 1901
HHEA_DESCENT = 483
LINE_HEIGHT = HHEA_ASCENT + HHEA_DESCENT  # 2384
GLYPH_WIDTH = 1233  # DejaVu Sans Mono width (1233 in 2048 em = 0.602 ratio)

def create_font(name):
    font = fontforge.font()
    font.fontname = name
    font.familyname = name
    font.fullname = f"{name} Regular"
    font.encoding = "UnicodeFull"

    font.em = 2048
    font.ascent = HHEA_ASCENT
    font.descent = 2048 - HHEA_ASCENT

    font.hhea_ascent = HHEA_ASCENT
    font.hhea_descent = -HHEA_DESCENT
    font.hhea_linegap = 0
    font.hhea_ascent_add = 0
    font.hhea_descent_add = 0

    font.os2_typoascent = HHEA_ASCENT
    font.os2_typodescent = -HHEA_DESCENT
    font.os2_typolinegap = 0
    font.os2_typoascent_add = 0
    font.os2_typodescent_add = 0
    font.os2_winascent = HHEA_ASCENT
    font.os2_windescent = HHEA_DESCENT
    font.os2_winascent_add = 0
    font.os2_windescent_add = 0
    font.os2_use_typo_metrics = False

    # Mark as monospace font
    font.os2_panose = (2, 11, 5, 9, 2, 2, 3, 2, 2, 7)
    font.is_quadratic = True

    return font
"#;

/// The fontforge Python that builds a font: the common setup, the creation of a font
/// with the given name, the glyph script, and the generation of the output file.
pub open spec fn font_script_spec(name: Seq<char>, output: Seq<char>, glyph_script: Seq<char>) -> Seq<char> {
    FONT_SETUP@ + "\nfont = create_font(\""@ + name + "\")\n\n"@ + glyph_script
        + "\n\nfont.generate(\""@ + output + "\")\n"@
}

/// Composes the fontforge Python that builds a font named `name` from `glyph_script`
/// into the file at `output`.
pub fn font_script(name: &str, output: &str, glyph_script: &str) -> (s: String)
    ensures
        s@ == font_script_spec(name@, output@, glyph_script@),
{
    let mut s = String::from_str(FONT_SETUP);
    s.append("\nfont = create_font(\"");
    s.append(name);
    s.append("\")\n\n");
    s.append(glyph_script);
    s.append("\n\nfont.generate(\"");
    s.append(output);
    s.append("\")\n");
    s
}

} // verus!
