use mzxview::board::{render, Board, Coordinate, Robot, Sensor, NO_OVERLAY_COLOR};
use mzxview::color::resolve_colors;
use mzxview::glyph::{check_refs, glyph_rule, resolve_glyph, GlyphRule, UNKNOWN_GLYPH};
use mzxview::interp::{run_all_robots, run_robot_until_end, Command};
use mzxview::raster::ImgRenderer;
use mzxview::world::{Charset, Color, Palette, WorldState};

fn font() -> Charset {
    let mut data = vec![0u8; 256 * 14];
    // glyph 178: left half set on every row
    for row in 0..14 {
        data[178 * 14 + row] = 0xF0;
    }
    // glyph 'X': only the leftmost pixel of the first row
    data[b'X' as usize * 14] = 0x80;
    Charset { data }
}

fn palette() -> Palette {
    let mut colors = Vec::new();
    for i in 0..16u8 {
        colors.push(Color { r: i, g: i + 16, b: i + 32 });
    }
    Palette { colors }
}

fn world() -> WorldState {
    WorldState { charset: font(), palette: palette() }
}

fn board(width: usize, height: usize, level: Vec<(u8, u8, u8)>) -> Board {
    let under = vec![(0u8, 0u8, 0u8); width * height];
    Board { width, height, level, under, overlay: None, player_pos: Coordinate { x: 0, y: 0 } }
}

fn robot(program: Vec<Command>, x: usize, y: usize) -> Robot {
    Robot { program, ch: b'R', position: Coordinate { x, y } }
}

fn pixel(buf: &[u8], width_px: usize, x: usize, y: usize) -> [u8; 3] {
    let i = (y * width_px + x) * 3;
    [buf[i], buf[i + 1], buf[i + 2]]
}

#[test]
fn fixed_glyph_ignores_param() {
    for p in [0u8, 1, 77, 200, 255] {
        assert_eq!(resolve_glyph(1, p, &[], &[]), 178);
        assert_eq!(resolve_glyph(2, p, &[], &[]), 219);
        assert_eq!(resolve_glyph(0, p, &[], &[]), b' ');
    }
    assert_eq!(glyph_rule(1), GlyphRule::Fixed(178));
}

#[test]
fn parametric_glyph_is_param() {
    for id in [5u8, 7, 10, 12, 17, 51, 52, 53, 54, 76, 77] {
        assert_eq!(glyph_rule(id), GlyphRule::Param);
        for p in [0u8, 32, 178, 255] {
            assert_eq!(resolve_glyph(id, p, &[], &[]), p);
        }
    }
}

#[test]
fn unknown_id_shows_fallback_glyph() {
    assert_eq!(resolve_glyph(200, 9, &[], &[]), UNKNOWN_GLYPH);
    assert_eq!(resolve_glyph(64, 9, &[], &[]), UNKNOWN_GLYPH);
}

#[test]
fn robot_and_sensor_glyphs_are_one_based() {
    let robots = [65u8, 66];
    let sensors = [70u8];
    assert_eq!(resolve_glyph(124, 1, &robots, &sensors), 65);
    assert_eq!(resolve_glyph(123, 2, &robots, &sensors), 66);
    assert_eq!(resolve_glyph(122, 1, &robots, &sensors), 70);
    assert!(check_refs(124, 2, &robots, &sensors));
    assert!(!check_refs(124, 0, &robots, &sensors));
    assert!(!check_refs(124, 3, &robots, &sensors));
    assert!(!check_refs(122, 2, &robots, &sensors));
    assert!(check_refs(1, 99, &robots, &sensors));
}

#[test]
fn opaque_color_without_overlay_is_unchanged() {
    assert_eq!(resolve_colors(0x4A, 0x30, b' ', 0x00, 16), (0x0A, 0x04));
    assert_eq!(resolve_colors(0xFF, 0x00, b' ', 0x7F, 16), (0x0F, 0x0F));
}

#[test]
fn missing_background_comes_from_under() {
    assert_eq!(resolve_colors(0x04, 0x30, b' ', 0x00, 16), (0x04, 0x03));
    assert_eq!(resolve_colors(0x04, 0xFF, b' ', 0x00, 16), (0x04, 0x0F));
}

#[test]
fn see_through_overlay_keeps_background() {
    assert_eq!(resolve_colors(0x23, 0x00, b'X', 0x05, 16), (0x05, 0x02));
}

#[test]
fn opaque_overlay_replaces_color() {
    assert_eq!(resolve_colors(0x23, 0x00, b'X', 0x71, 16), (0x01, 0x07));
}

#[test]
fn zero_overlay_color_replaces_color() {
    assert_eq!(resolve_colors(0x23, 0x00, b'X', 0x00, 16), (0, 0));
}

#[test]
fn blit_with_equal_colors_fills_cell() {
    let charset = font();
    let c = Color { r: 10, g: 63, b: 0 };
    let mut fb = ImgRenderer { pixels: vec![7u8; 16 * 14 * 3], stride: 16 * 3 };
    fb.blit(&charset, 178, c, c, 1, 0);
    for y in 0..14 {
        for x in 0..16 {
            let p = pixel(&fb.pixels, 16, x, y);
            if x >= 8 {
                assert_eq!(p, [40, 252, 0]);
            } else {
                assert_eq!(p, [7, 7, 7]);
            }
        }
    }
}

#[test]
fn blit_draws_bits_msb_first() {
    let charset = font();
    let fg = Color { r: 1, g: 2, b: 3 };
    let bg = Color { r: 4, g: 5, b: 6 };
    let mut fb = ImgRenderer { pixels: vec![0u8; 8 * 14 * 3], stride: 8 * 3 };
    fb.blit(&charset, 178, fg, bg, 0, 0);
    assert_eq!(pixel(&fb.pixels, 8, 0, 0), [4, 8, 12]);
    assert_eq!(pixel(&fb.pixels, 8, 3, 13), [4, 8, 12]);
    assert_eq!(pixel(&fb.pixels, 8, 4, 0), [16, 20, 24]);
    assert_eq!(pixel(&fb.pixels, 8, 7, 13), [16, 20, 24]);
}

#[test]
fn channels_keep_six_bits() {
    let charset = font();
    let c = Color { r: 64, g: 65, b: 255 };
    let mut fb = ImgRenderer { pixels: vec![0u8; 8 * 14 * 3], stride: 8 * 3 };
    fb.blit(&charset, 0, c, c, 0, 0);
    assert_eq!(pixel(&fb.pixels, 8, 0, 0), [0, 4, 252]);
}

#[test]
fn short_palette_file_updates_leading_triples() {
    let mut p = palette();
    p.load(&[1, 2, 3, 4, 5, 6, 7, 8]);
    assert_eq!(p.colors[0], Color { r: 1, g: 2, b: 3 });
    assert_eq!(p.colors[1], Color { r: 4, g: 5, b: 6 });
    assert_eq!(p.colors[2], Color { r: 2, g: 18, b: 34 });
    assert_eq!(p.colors.len(), 16);
    for i in 3..16u8 {
        assert_eq!(p.colors[i as usize], Color { r: i, g: i + 16, b: i + 32 });
    }
}

#[test]
fn long_palette_file_fills_palette_only() {
    let mut p = palette();
    let data = vec![9u8; 16 * 3 + 30];
    p.load(&data);
    assert_eq!(p.colors.len(), 16);
    for c in &p.colors {
        assert_eq!(*c, Color { r: 9, g: 9, b: 9 });
    }
}

#[test]
fn charset_of_wrong_length_is_ignored() {
    let mut cs = font();
    assert!(!cs.load(&[1, 2, 3]));
    assert_eq!(cs.data, font().data);
    assert!(!cs.load(&vec![1u8; 256 * 14 + 1]));
    assert_eq!(cs.data, font().data);
    assert!(cs.load(&vec![0xAAu8; 256 * 14]));
    assert_eq!(cs.data, vec![0xAAu8; 256 * 14]);
}

#[test]
fn set_color_checks_index_and_truncates() {
    let mut p = palette();
    p.set_color(3, 300, -1, 64);
    assert_eq!(p.colors[3], Color { r: 44, g: 255, b: 64 });
    p.set_color(16, 1, 1, 1);
    p.set_color(-1, 1, 1, 1);
    assert_eq!(p.colors.len(), 16);
    assert_eq!(p.colors[15], Color { r: 15, g: 31, b: 47 });
    assert_eq!(p.colors[0], Color { r: 0, g: 16, b: 32 });
}

#[test]
fn two_cell_board_renders_blank_and_normal() {
    let w = world();
    let b = board(2, 1, vec![(0, 0x10, 0), (1, 0x10, 0)]);
    assert!(b.check_refs(&[], &[]));
    assert_eq!(resolve_glyph(0, 0, &[], &[]), b' ');
    assert_eq!(resolve_glyph(1, 0, &[], &[]), 178);
    assert_eq!(resolve_colors(0x10, 0, b' ', NO_OVERLAY_COLOR, 16), (0, 1));
    let px = render(&w, &b, &[], &[]);
    assert_eq!(px.len(), 16 * 14 * 3);
    let fg = [0, 64, 128];
    let bg = [4, 68, 132];
    for y in 0..14 {
        for x in 0..8 {
            assert_eq!(pixel(&px, 16, x, y), bg);
        }
        for x in 8..12 {
            assert_eq!(pixel(&px, 16, x, y), fg);
        }
        for x in 12..16 {
            assert_eq!(pixel(&px, 16, x, y), bg);
        }
    }
}

#[test]
fn overlay_glyph_and_color_are_drawn() {
    let w = world();
    let mut b = board(1, 1, vec![(1, 0x23, 0)]);
    b.overlay = Some(vec![(b'X', 0x00)]);
    let px = render(&w, &b, &[], &[]);
    // colour 0 on colour 0: every pixel is palette entry 0
    assert_eq!(pixel(&px, 8, 0, 0), [0, 64, 128]);
    assert_eq!(pixel(&px, 8, 5, 5), [0, 64, 128]);
    b.overlay = Some(vec![(b'X', 0x05)]);
    let px = render(&w, &b, &[], &[]);
    assert_eq!(pixel(&px, 8, 0, 0), [20, 84, 148]);
    assert_eq!(pixel(&px, 8, 1, 0), [8, 72, 136]);
}

#[test]
fn robot_cells_show_robot_glyph() {
    let w = world();
    let b = board(2, 1, vec![(124, 0x01, 1), (122, 0x01, 1)]);
    let robots = [robot(vec![], 0, 0)];
    let sensors = [Sensor { ch: 178 }];
    assert!(b.check_refs(&robots, &sensors));
    assert!(!b.check_refs(&robots, &[]));
    let mut robots = robots;
    robots[0].ch = 178;
    let px = render(&w, &b, &robots, &sensors);
    assert_eq!(pixel(&px, 16, 0, 0), [4, 68, 132]);
    assert_eq!(pixel(&px, 16, 8, 0), [4, 68, 132]);
    assert_eq!(pixel(&px, 16, 4, 0), [0, 64, 128]);
}

#[test]
fn empty_board_renders_nothing() {
    let w = world();
    let b = board(0, 3, vec![]);
    assert!(render(&w, &b, &[], &[]).is_empty());
}

#[test]
fn end_stops_robot_program() {
    let mut w = world();
    let mut b = board(2, 2, vec![(0, 0, 0); 4]);
    let mut r = robot(
        vec![Command::SetColor(5, 10, 20, 30), Command::End, Command::SetColor(5, 1, 1, 1), Command::Char(1)],
        1,
        1,
    );
    run_robot_until_end(&mut w, &mut b, &mut r);
    assert_eq!(w.palette.colors[5], Color { r: 10, g: 20, b: 30 });
    assert_eq!(r.ch, b'R');
}

#[test]
fn wait_stops_robot_program() {
    let mut w = world();
    let mut b = board(2, 2, vec![(0, 0, 0); 4]);
    let mut r = robot(vec![Command::Char(9), Command::Wait, Command::Char(10)], 0, 0);
    run_robot_until_end(&mut w, &mut b, &mut r);
    assert_eq!(r.ch, 9);
}

#[test]
fn color_commands_set_cells() {
    let mut w = world();
    let mut b = board(2, 2, vec![(1, 0, 7); 4]);
    b.player_pos = Coordinate { x: 0, y: 1 };
    let mut r = robot(vec![Command::Color(0x1F), Command::PlayerColor(0x2E), Command::Other], 1, 1);
    run_robot_until_end(&mut w, &mut b, &mut r);
    assert_eq!(b.level, vec![(1, 0, 7), (1, 0, 7), (1, 0x2E, 7), (1, 0x1F, 7)]);
}

#[test]
fn color_off_board_changes_nothing() {
    let mut w = world();
    let mut b = board(2, 2, vec![(1, 0, 7); 4]);
    b.player_pos = Coordinate { x: 2, y: 0 };
    let mut r = robot(vec![Command::Color(0x1F), Command::PlayerColor(0x2E)], 0, 5);
    run_robot_until_end(&mut w, &mut b, &mut r);
    assert_eq!(b.level, vec![(1, 0, 7); 4]);
}

#[test]
fn file_loads_apply_or_are_skipped() {
    let mut w = world();
    let mut b = board(1, 1, vec![(0, 0, 0)]);
    let mut r = robot(
        vec![
            Command::LoadCharSet(None),
            Command::LoadPalette(None),
            Command::LoadCharSet(Some(vec![1, 2, 3])),
            Command::LoadPalette(Some(vec![60, 61, 62, 63])),
            Command::LoadCharSet(Some(vec![0x55; 256 * 14])),
        ],
        0,
        0,
    );
    run_robot_until_end(&mut w, &mut b, &mut r);
    assert_eq!(w.palette.colors[0], Color { r: 60, g: 61, b: 62 });
    assert_eq!(w.palette.colors[1], Color { r: 1, g: 17, b: 33 });
    assert_eq!(w.charset.data, vec![0x55u8; 256 * 14]);
}

#[test]
fn robots_run_in_order_with_shared_state() {
    let mut w = world();
    let mut b = board(2, 1, vec![(124, 0, 1), (124, 0, 2)]);
    let mut robots = vec![
        robot(vec![Command::SetColor(2, 1, 1, 1), Command::Char(40), Command::Color(0x11)], 0, 0),
        robot(vec![Command::SetColor(2, 5, 5, 5), Command::End, Command::Char(41)], 1, 0),
    ];
    run_all_robots(&mut w, &mut b, &mut robots);
    assert_eq!(w.palette.colors[2], Color { r: 5, g: 5, b: 5 });
    assert_eq!(robots[0].ch, 40);
    assert_eq!(robots[1].ch, b'R');
    assert_eq!(b.level, vec![(124, 0x11, 1), (124, 0, 2)]);
}
