use aks_terminal::glyph_cache::{GlyphCache, GlyphSlot};
use aks_terminal::atlas::{AtlasPacker, ATLAS_SIZE};
use aks_terminal::fonts::{crop_coverage, first_glyph, glyph_extent, pick, FaceStyle};
use aks_terminal::header::HeaderButton;
use aks_terminal::input::{encode_key, KeyPress, LogicalKey, NamedKey};
use aks_terminal::pty::{PtyEvent, PumpStatus};
use aks_terminal::render::{background_quads, glyph_quads, grown_capacity, text_glyph_columns, BgQuad, GlyphQuad};
use aks_terminal::terminal::{Cell, TerminalGrid};
use aks_terminal::theme::{rgb, Color, Rgba8, Theme};

#[test]
fn palette_cube_and_greys() {
    let t = Theme::modern_dark();
    assert_eq!(t.ansi_256_rgba(1), rgb(213, 63, 61));
    assert_eq!(t.ansi_256_rgba(16), rgb(0, 0, 0));
    assert_eq!(t.ansi_256_rgba(196), rgb(255, 0, 0));
    assert_eq!(t.ansi_256_rgba(21), rgb(0, 0, 255));
    assert_eq!(t.ansi_256_rgba(67), rgb(95, 135, 175));
    assert_eq!(t.ansi_256_rgba(231), rgb(255, 255, 255));
    assert_eq!(t.ansi_256_rgba(232), rgb(8, 8, 8));
    assert_eq!(t.ansi_256_rgba(244), rgb(128, 128, 128));
    assert_eq!(t.ansi_256_rgba(255), rgb(238, 238, 238));
}

#[test]
fn resolve_colours() {
    let t = Theme::default();
    assert_eq!(t.resolve_fg(Color::Default, true), rgb(236, 236, 236));
    assert_eq!(t.resolve_fg(Color::Indexed(1), true), rgb(232, 84, 74));
    assert_eq!(t.resolve_fg(Color::Indexed(1), false), rgb(213, 63, 61));
    assert_eq!(t.resolve_fg(Color::Indexed(9), true), rgb(232, 84, 74));
    assert_eq!(t.resolve_fg(Color::Rgb(1, 2, 3), true), Rgba8 { r: 1, g: 2, b: 3, a: 255 });
    assert_eq!(t.resolve_bg(Color::Default), None);
    assert_eq!(t.resolve_bg(Color::Indexed(4)), Some(rgb(40, 110, 230)));
    assert_eq!(t.resolve_bg(Color::Rgb(9, 8, 7)), Some(rgb(9, 8, 7)));
    assert_eq!(t.background, rgb(0, 0, 0));
    assert_eq!(t.cursor, rgb(9, 106, 185));
}

#[test]
fn atlas_packs_along_shelves() {
    let mut p = AtlasPacker::new();
    assert!(p.pack_in_range(10, 12));
    assert_eq!(p.pack(10, 12), Some((2, 0)));
    assert_eq!(p.pack(5, 4), Some((13, 0)));
    assert_eq!(p.pack(1010, 3), Some((0, 13)));
    assert_eq!(p.pack(8, 8), Some((1011, 13)));
    assert_eq!(p.pack(20, 2), Some((0, 22)));
    p.reset();
    assert_eq!(p.pack(4, 4), Some((2, 0)));
}

#[test]
fn atlas_reports_full() {
    let mut p = AtlasPacker::new();
    assert_eq!(p.pack(ATLAS_SIZE - 2, ATLAS_SIZE), Some((2, 0)));
    assert_eq!(p.pack(1, 1), None);
    assert!(!p.pack_in_range(u32::MAX, 1));
}

#[test]
fn keys_with_control() {
    let key = |c: char| KeyPress { logical_key: LogicalKey::Character(vec![c]), text: Some(c.to_string().into_bytes()) };
    assert_eq!(encode_key(&key('a'), true), Some(vec![1]));
    assert_eq!(encode_key(&key('C'), true), Some(vec![3]));
    assert_eq!(encode_key(&key('z'), true), Some(vec![26]));
    assert_eq!(encode_key(&key(' '), true), Some(vec![0]));
    assert_eq!(encode_key(&key('['), true), Some(vec![0x1b]));
    assert_eq!(encode_key(&key('\\'), true), Some(vec![0x1c]));
    assert_eq!(encode_key(&key(']'), true), Some(vec![0x1d]));
    assert_eq!(encode_key(&key('1'), true), Some(vec![b'1']));
    assert_eq!(encode_key(&key('a'), false), Some(vec![b'a']));
    assert_eq!(encode_key(&key('é'), false), Some("é".as_bytes().to_vec()));
}

#[test]
fn named_keys() {
    let named = |k: NamedKey| KeyPress { logical_key: LogicalKey::Named(k), text: None };
    assert_eq!(encode_key(&named(NamedKey::Enter), false), Some(b"\r".to_vec()));
    assert_eq!(encode_key(&named(NamedKey::Backspace), false), Some(vec![0x7f]));
    assert_eq!(encode_key(&named(NamedKey::ArrowUp), true), Some(b"\x1b[A".to_vec()));
    assert_eq!(encode_key(&named(NamedKey::ArrowLeft), false), Some(b"\x1b[D".to_vec()));
    assert_eq!(encode_key(&named(NamedKey::End), false), Some(b"\x1b[F".to_vec()));
    assert_eq!(encode_key(&named(NamedKey::Delete), false), Some(b"\x1b[3~".to_vec()));
    assert_eq!(encode_key(&named(NamedKey::PageDown), false), Some(b"\x1b[6~".to_vec()));
    assert_eq!(encode_key(&named(NamedKey::Space), false), Some(b" ".to_vec()));
    assert_eq!(encode_key(&named(NamedKey::Other), false), None);
    let unknown = KeyPress { logical_key: LogicalKey::Unidentified, text: None };
    assert_eq!(encode_key(&unknown, true), None);
}

#[test]
fn pump_status_steps() {
    let mut st = PumpStatus { changed: false, closed: false };
    assert!(st.step(&Some(PtyEvent::Data(vec![1, 2]))));
    assert_eq!(st, PumpStatus { changed: true, closed: false });
    assert!(!st.step(&None));
    assert!(!st.step(&Some(PtyEvent::Closed)));
    assert_eq!(st, PumpStatus { changed: true, closed: true });
}

#[test]
fn header_buttons() {
    assert_eq!(HeaderButton::Minimize.icon(), '\u{2212}');
    assert_eq!(HeaderButton::Maximize.icon(), '\u{25A1}');
    assert_eq!(HeaderButton::Close.icon(), '\u{00D7}');
    assert_eq!(HeaderButton::Close.slot(), 0);
    assert_eq!(HeaderButton::Maximize.slot(), 1);
    assert_eq!(HeaderButton::Minimize.slot(), 2);
}

#[test]
fn render_plan_of_grid() {
    let mut g = TerminalGrid::new(2, 3);
    g.csi_dispatch_groups(&vec![vec![41]], &[], 'm');
    g.print('a');
    g.csi_dispatch_groups(&vec![vec![0]], &[], 'm');
    g.print(' ');
    g.csi_dispatch_groups(&vec![vec![1], vec![32]], &[], 'm');
    g.print('b');
    let t = Theme::modern_dark();
    let bg = background_quads(g.lines(), &t);
    assert_eq!(bg, vec![BgQuad { row: 0, col: 0, color: rgb(213, 63, 61) }]);
    let glyphs = glyph_quads(g.lines(), &t);
    assert_eq!(
        glyphs,
        vec![
            GlyphQuad { row: 0, col: 0, ch: 'a', bold: false, italic: false, color: rgb(236, 236, 236) },
            GlyphQuad { row: 0, col: 2, ch: 'b', bold: true, italic: false, color: rgb(110, 208, 92) },
        ]
    );
    let blank = vec![vec![Cell::default(); 2]; 2];
    assert!(background_quads(&blank, &t).is_empty());
    assert!(glyph_quads(&blank, &t).is_empty());
}

#[test]
fn text_columns_skip_spaces() {
    let text: Vec<char> = "a b".chars().collect();
    assert_eq!(text_glyph_columns(&text), vec![(0, 'a'), (2, 'b')]);
    assert!(text_glyph_columns(&[]).is_empty());
}

#[test]
fn vertex_capacity_grows_to_power_of_two() {
    assert_eq!(grown_capacity(10, 24576), 24576);
    assert_eq!(grown_capacity(24576, 24576), 24576);
    assert_eq!(grown_capacity(30000, 24576), 32768);
    assert_eq!(grown_capacity(5, 4), 8);
    assert_eq!(grown_capacity(1, 0), 1);
}

#[test]
fn coverage_is_cropped_by_stride() {
    let pixels: Vec<u8> = (0..12).collect();
    assert_eq!(crop_coverage(&pixels, 4, 3, 3), vec![0, 1, 2, 4, 5, 6, 8, 9, 10]);
    assert_eq!(crop_coverage(&pixels, 4, 2, 0), Vec::<u8>::new());
}

#[test]
fn faces_and_fallbacks() {
    assert_eq!(pick(false, false), FaceStyle::Regular);
    assert_eq!(pick(true, false), FaceStyle::Bold);
    assert_eq!(pick(false, true), FaceStyle::Italic);
    assert_eq!(pick(true, true), FaceStyle::BoldItalic);
    assert_eq!(first_glyph(&[None, Some(7), Some(9)]), Some((1, 7)));
    assert_eq!(first_glyph(&[Some(3)]), Some((0, 3)));
    assert_eq!(first_glyph(&[None, None]), None);
    assert_eq!(glyph_extent(5, 7), Some((5, 7)));
    assert_eq!(glyph_extent(0, 7), None);
    assert_eq!(glyph_extent(5, -1), None);
}

#[test]
fn glyph_cache_places_and_remembers() {
    let mut c = GlyphCache::new();
    assert_eq!(c.lookup('a', false, false), None);
    let slot = c.place('a', false, false, Some((6, 9, 1, -8)));
    let expected = GlyphSlot { x: 2, y: 0, width: 6, height: 9, bearing_left: 1, bearing_top: -8 };
    assert_eq!(slot, Some(expected));
    assert_eq!(c.lookup('a', false, false), Some(Some(expected)));
    assert_eq!(c.lookup('a', true, false), None);
    assert_eq!(c.place('\u{2603}', true, true, None), None);
    assert_eq!(c.lookup('\u{2603}', true, true), Some(None));
    let next = c.place('b', false, true, Some((4, 4, 0, -4)));
    assert_eq!(next.map(|s| (s.x, s.y)), Some((9, 0)));
    c.clear();
    assert_eq!(c.lookup('a', false, false), None);
    assert_eq!(c.place('c', false, false, Some((3, 3, 0, 0))).map(|s| (s.x, s.y)), Some((2, 0)));
}

#[test]
fn background_and_foreground_agree() {
    let t = Theme::modern_dark();
    for c in [Color::Indexed(3), Color::Indexed(100), Color::Indexed(240), Color::Rgb(4, 5, 6)] {
        assert_eq!(t.resolve_bg(c), Some(t.resolve_fg(c, false)));
    }
}

#[test]
fn packed_rects_never_overlap() {
    let mut p = AtlasPacker::new();
    let mut placed: Vec<(u32, u32, u32, u32)> = vec![(0, 0, 1, 1)];
    for i in 0..400u32 {
        let w = 3 + (i * 7) % 40;
        let h = 5 + (i * 11) % 30;
        if let Some((x, y)) = p.pack(w, h) {
            assert!(x + w <= ATLAS_SIZE && y + h <= ATLAS_SIZE);
            for &(ox, oy, ow, oh) in &placed {
                assert!(ox + ow <= x || x + w <= ox || oy + oh <= y || y + h <= oy);
            }
            placed.push((x, y, w, h));
        }
    }
    assert!(placed.len() > 100);
}

#[test]
fn shell_falls_back_to_bash() {
    assert_eq!(aks_terminal::pty::shell_or_default(None), "/bin/bash");
    assert_eq!(aks_terminal::pty::shell_or_default(Some("/bin/zsh".to_string())), "/bin/zsh");
}

#[test]
fn second_request_for_a_glyph_is_answered_from_the_cache() {
    let mut c = GlyphCache::new();
    let first = match c.lookup('q', true, false) {
        Some(hit) => hit,
        None => c.place('q', true, false, Some((5, 7, 0, -6))),
    };
    let second = match c.lookup('q', true, false) {
        Some(hit) => hit,
        None => c.place('q', true, false, Some((9, 9, 0, 0))),
    };
    assert_eq!(first, second);
    assert_eq!(c.place('r', false, false, Some((1, 1, 0, 0))).map(|s| s.x), Some(8));
}
