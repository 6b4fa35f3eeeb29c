//! Which glyph of the font a board cell shows.
use vstd::prelude::*;

verus! {

/// How the glyph of an entity kind is found.
#[derive(Clone, Copy, PartialEq, Eq, Structural, Debug)]
pub enum GlyphRule {
    /// The kind always shows this glyph.
    Fixed(u8),
    /// The kind shows its parameter byte as glyph.
    Param,
    /// The parameter is a 1-based index into the board's robots.
    Robot,
    /// The parameter is a 1-based index into the board's sensors.
    Sensor,
}

/// The glyph shown for an entity id that no kind uses.
pub const UNKNOWN_GLYPH: u8 = 63;

/// The blank glyph (a space).
pub const BLANK_GLYPH: u8 = 32;

/// The table of entity kinds, keyed by entity id.
pub open spec fn rule_of(id: u8) -> GlyphRule {
    match id {
        0 | 71 => GlyphRule::Fixed(32),
        1 | 13 | 65 => GlyphRule::Fixed(178),
        2 => GlyphRule::Fixed(219),
        3 => GlyphRule::Fixed(6),
        4 => GlyphRule::Fixed(205),
        6 | 14 | 38 | 63 => GlyphRule::Fixed(177),
        8 => GlyphRule::Fixed(233),
        9 | 11 | 16 => GlyphRule::Fixed(254),
        15 | 20 | 25 | 26 | 34 => GlyphRule::Fixed(176),
        18 => GlyphRule::Fixed(197),
        19 | 60 => GlyphRule::Fixed(206),
        21 | 93 => GlyphRule::Fixed(24),
        22 => GlyphRule::Fixed(25),
        23 => GlyphRule::Fixed(26),
        24 | 92 => GlyphRule::Fixed(27),
        27 => GlyphRule::Fixed(160),
        28 | 29 => GlyphRule::Fixed(4),
        30 => GlyphRule::Fixed(3),
        31 => GlyphRule::Fixed(9),
        32 => GlyphRule::Fixed(150),
        33 | 50 => GlyphRule::Fixed(7),
        35 => GlyphRule::Fixed(163),
        36 => GlyphRule::Fixed(11),
        37 => GlyphRule::Fixed(171),
        39 => GlyphRule::Fixed(12),
        40 => GlyphRule::Fixed(10),
        41 | 48 | 59 => GlyphRule::Fixed(196),
        42 | 45 | 72 => GlyphRule::Fixed(47),
        43 => GlyphRule::Fixed(162),
        44 => GlyphRule::Fixed(161),
        46 => GlyphRule::Fixed(92),
        47 => GlyphRule::Fixed(22),
        49 | 88 => GlyphRule::Fixed(94),
        55 => GlyphRule::Fixed(159),
        56 => GlyphRule::Fixed(31),
        57 => GlyphRule::Fixed(18),
        58 => GlyphRule::Fixed(29),
        61 => GlyphRule::Fixed(249),
        62 => GlyphRule::Fixed(16),
        66 | 82 | 90 => GlyphRule::Fixed(5),
        67 => GlyphRule::Fixed(54),
        68 => GlyphRule::Fixed(55),
        69 => GlyphRule::Fixed(56),
        70 => GlyphRule::Fixed(57),
        73 | 83 => GlyphRule::Fixed(42),
        74 => GlyphRule::Fixed(143),
        75 => GlyphRule::Fixed(30),
        80 => GlyphRule::Fixed(235),
        81 | 85 => GlyphRule::Fixed(234),
        84 | 127 => GlyphRule::Fixed(2),
        86 => GlyphRule::Fixed(21),
        87 => GlyphRule::Fixed(224),
        89 => GlyphRule::Fixed(15),
        91 => GlyphRule::Fixed(227),
        94 => GlyphRule::Fixed(172),
        95 => GlyphRule::Fixed(173),
        97 => GlyphRule::Fixed(17),
        125 => GlyphRule::Fixed(226),
        126 => GlyphRule::Fixed(232),
        5 | 7 | 10 | 12 | 17 | 51 | 52 | 53 | 54 | 76 | 77 => GlyphRule::Param,
        122 => GlyphRule::Sensor,
        123 | 124 => GlyphRule::Robot,
        _ => GlyphRule::Fixed(UNKNOWN_GLYPH),
    }
}

/// Looks up the kind of an entity id in the table.
pub fn glyph_rule(id: u8) -> (r: GlyphRule)
    ensures
        r == rule_of(id),
{
    match id {
        0 | 71 => GlyphRule::Fixed(32),
        1 | 13 | 65 => GlyphRule::Fixed(178),
        2 => GlyphRule::Fixed(219),
        3 => GlyphRule::Fixed(6),
        4 => GlyphRule::Fixed(205),
        6 | 14 | 38 | 63 => GlyphRule::Fixed(177),
        8 => GlyphRule::Fixed(233),
        9 | 11 | 16 => GlyphRule::Fixed(254),
        15 | 20 | 25 | 26 | 34 => GlyphRule::Fixed(176),
        18 => GlyphRule::Fixed(197),
        19 | 60 => GlyphRule::Fixed(206),
        21 | 93 => GlyphRule::Fixed(24),
        22 => GlyphRule::Fixed(25),
        23 => GlyphRule::Fixed(26),
        24 | 92 => GlyphRule::Fixed(27),
        27 => GlyphRule::Fixed(160),
        28 | 29 => GlyphRule::Fixed(4),
        30 => GlyphRule::Fixed(3),
        31 => GlyphRule::Fixed(9),
        32 => GlyphRule::Fixed(150),
        33 | 50 => GlyphRule::Fixed(7),
        35 => GlyphRule::Fixed(163),
        36 => GlyphRule::Fixed(11),
        37 => GlyphRule::Fixed(171),
        39 => GlyphRule::Fixed(12),
        40 => GlyphRule::Fixed(10),
        41 | 48 | 59 => GlyphRule::Fixed(196),
        42 | 45 | 72 => GlyphRule::Fixed(47),
        43 => GlyphRule::Fixed(162),
        44 => GlyphRule::Fixed(161),
        46 => GlyphRule::Fixed(92),
        47 => GlyphRule::Fixed(22),
        49 | 88 => GlyphRule::Fixed(94),
        55 => GlyphRule::Fixed(159),
        56 => GlyphRule::Fixed(31),
        57 => GlyphRule::Fixed(18),
        58 => GlyphRule::Fixed(29),
        61 => GlyphRule::Fixed(249),
        62 => GlyphRule::Fixed(16),
        66 | 82 | 90 => GlyphRule::Fixed(5),
        67 => GlyphRule::Fixed(54),
        68 => GlyphRule::Fixed(55),
        69 => GlyphRule::Fixed(56),
        70 => GlyphRule::Fixed(57),
        73 | 83 => GlyphRule::Fixed(42),
        74 => GlyphRule::Fixed(143),
        75 => GlyphRule::Fixed(30),
        80 => GlyphRule::Fixed(235),
        81 | 85 => GlyphRule::Fixed(234),
        84 | 127 => GlyphRule::Fixed(2),
        86 => GlyphRule::Fixed(21),
        87 => GlyphRule::Fixed(224),
        89 => GlyphRule::Fixed(15),
        91 => GlyphRule::Fixed(227),
        94 => GlyphRule::Fixed(172),
        95 => GlyphRule::Fixed(173),
        97 => GlyphRule::Fixed(17),
        125 => GlyphRule::Fixed(226),
        126 => GlyphRule::Fixed(232),
        5 | 7 | 10 | 12 | 17 | 51 | 52 | 53 | 54 | 76 | 77 => GlyphRule::Param,
        122 => GlyphRule::Sensor,
        123 | 124 => GlyphRule::Robot,
        _ => GlyphRule::Fixed(UNKNOWN_GLYPH),
    }
}

/// A 1-based index into a list of `len` sprites is in range.
pub open spec fn index_ok(param: u8, len: int) -> bool {
    1 <= param && param <= len
}

/// The cell's entity id and parameter name an existing robot or sensor
/// wherever the kind asks for one.
pub open spec fn refs_ok(id: u8, param: u8, robot_glyphs: Seq<u8>, sensor_glyphs: Seq<u8>) -> bool {
    match rule_of(id) {
        GlyphRule::Robot => index_ok(param, robot_glyphs.len() as int),
        GlyphRule::Sensor => index_ok(param, sensor_glyphs.len() as int),
        _ => true,
    }
}

/// The glyph that a cell with this entity id and parameter shows.
pub open spec fn glyph_of(id: u8, param: u8, robot_glyphs: Seq<u8>, sensor_glyphs: Seq<u8>) -> u8 {
    match rule_of(id) {
        GlyphRule::Fixed(g) => g,
        GlyphRule::Param => param,
        GlyphRule::Robot => robot_glyphs[param - 1],
        GlyphRule::Sensor => sensor_glyphs[param - 1],
    }
}

/// Tells whether `refs_ok` holds of a cell.
pub fn check_refs(id: u8, param: u8, robot_glyphs: &[u8], sensor_glyphs: &[u8]) -> (r: bool)
    ensures
        r == refs_ok(id, param, robot_glyphs@, sensor_glyphs@),
{
    match glyph_rule(id) {
        GlyphRule::Robot => 1 <= param && (param as usize) <= robot_glyphs.len(),
        GlyphRule::Sensor => 1 <= param && (param as usize) <= sensor_glyphs.len(),
        _ => true,
    }
}

/// The glyph that a cell with this entity id and parameter shows.
pub fn resolve_glyph(id: u8, param: u8, robot_glyphs: &[u8], sensor_glyphs: &[u8]) -> (r: u8)
    requires
        refs_ok(id, param, robot_glyphs@, sensor_glyphs@),
    ensures
        r == glyph_of(id, param, robot_glyphs@, sensor_glyphs@),
{
    match glyph_rule(id) {
        GlyphRule::Fixed(g) => g,
        GlyphRule::Param => param,
        GlyphRule::Robot => robot_glyphs[(param - 1) as usize],
        GlyphRule::Sensor => sensor_glyphs[(param - 1) as usize],
    }
}

/// An entity kind with a fixed glyph shows the same glyph whatever its
/// parameter and whatever the robots and sensors show.
pub proof fn lemma_fixed_ignores_param(
    id: u8,
    param_a: u8,
    param_b: u8,
    robots_a: Seq<u8>,
    sensors_a: Seq<u8>,
    robots_b: Seq<u8>,
    sensors_b: Seq<u8>,
)
    requires
        rule_of(id) is Fixed,
    ensures
        glyph_of(id, param_a, robots_a, sensors_a) == glyph_of(id, param_b, robots_b, sensors_b),
{
}

/// A parametric entity kind shows its parameter byte as glyph, unchanged.
pub proof fn lemma_param_passthrough(id: u8, param: u8, robot_glyphs: Seq<u8>, sensor_glyphs: Seq<u8>)
    requires
        rule_of(id) is Param,
    ensures
        glyph_of(id, param, robot_glyphs, sensor_glyphs) == param,
{
}

} // verus!
