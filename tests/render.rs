use exodus_term::config::{bright_color, normal_color, Config};
use exodus_term::console::{KernelConsole, HEADER_SIZE};
use exodus_term::font::RawGlyph;
use exodus_term::renderer::{decode_attr, mix_channel, shade_pixel, Renderer};

/// Region of a `rows` x `cols` console with the given cells, row-major.
fn region(rows: u16, cols: u16, cells: &[(u8, u8)], flags: u32, cursor: (u16, u16), seq: u32) -> KernelConsole {
    let mut b = vec![0u8; HEADER_SIZE as usize + rows as usize * cols as usize * 2];
    b[0..2].copy_from_slice(&rows.to_le_bytes());
    b[2..4].copy_from_slice(&cols.to_le_bytes());
    b[4..6].copy_from_slice(&cursor.0.to_le_bytes());
    b[6..8].copy_from_slice(&cursor.1.to_le_bytes());
    b[8..12].copy_from_slice(&flags.to_le_bytes());
    b[20..24].copy_from_slice(&seq.to_le_bytes());
    for (i, &(ch, attr)) in cells.iter().enumerate() {
        b[48 + 2 * i] = ch;
        b[49 + 2 * i] = attr;
    }
    KernelConsole::from_mapping(rows, cols, b).unwrap()
}

/// 'A' covers its whole 2 x 7 cell, '%' half of it, anything else nothing.
fn raster(c: u8, _bold: bool) -> RawGlyph {
    let fill = match c {
        b'A' => 255,
        b'%' => 128,
        _ => 0,
    };
    let (w, h) = if fill == 0 { (0, 0) } else { (2, 7) };
    RawGlyph { width: w, height: h, xmin: 0, ymin: -1, bitmap: vec![fill; w * h] }
}

fn rgb(c: (u8, u8, u8)) -> u32 {
    (c.0 as u32) << 16 | (c.1 as u32) << 8 | c.2 as u32
}

#[test]
fn attribute_byte_decodes() {
    assert_eq!(decode_attr(0b0101_1001), (1, true, 5));
    assert_eq!(decode_attr(0x00), (0, false, 0));
    assert_eq!(decode_attr(0xff), (7, true, 7));
    assert_eq!(decode_attr(0x47), (7, false, 4));
}

#[test]
fn palettes_hold_their_entries() {
    assert_eq!(normal_color(3), (170, 85, 0));
    assert_eq!(bright_color(3), (255, 255, 85));
    assert_eq!(normal_color(7), (170, 170, 170));
    assert_eq!(bright_color(0), (85, 85, 85));
}

#[test]
fn channel_mix_is_exact() {
    assert_eq!(mix_channel(170, 0, 128), 85);
    assert_eq!(mix_channel(255, 0, 255), 255);
    assert_eq!(mix_channel(255, 85, 0), 85);
    assert_eq!(mix_channel(200, 100, 51), 120);
}

#[test]
fn cursor_blend_extremes() {
    let fg = (255, 85, 85);
    let bg = (0, 0, 170);
    assert_eq!(shade_pixel(fg, bg, 255, true), rgb(bg));
    assert_eq!(shade_pixel(fg, bg, 0, true), rgb(fg));
    assert_eq!(shade_pixel(fg, bg, 255, false), rgb(fg));
    assert_eq!(shade_pixel(fg, bg, 0, false), rgb(bg));
}

#[test]
fn degenerate_cell_is_uniform() {
    let con = region(1, 1, &[(b'%', 0x22)], 0, (0, 0), 1);
    let mut r = Renderer::new(5, 2);
    let mut fb = vec![0u32; 14];
    r.render(&con, &mut fb, 2, &raster);
    assert!(fb.iter().all(|&p| p == rgb((0, 170, 0))));
}

#[test]
fn render_draws_glyph_and_background() {
    let con = region(1, 2, &[(b'A', 0x41), (b' ', 0x47)], 0, (0, 0), 3);
    let mut r = Renderer::new(5, 2);
    let mut fb = vec![0u32; 28];
    r.render(&con, &mut fb, 4, &raster);
    for y in 0..7 {
        assert_eq!(fb[y * 4], rgb((170, 0, 0)));
        assert_eq!(fb[y * 4 + 1], rgb((170, 0, 0)));
        assert_eq!(fb[y * 4 + 2], rgb((0, 0, 170)));
        assert_eq!(fb[y * 4 + 3], rgb((0, 0, 170)));
    }
}

#[test]
fn render_bold_uses_bright_foreground() {
    let con = region(1, 1, &[(b'A', 0x09)], 0, (0, 0), 3);
    let mut r = Renderer::new(5, 2);
    let mut fb = vec![0u32; 14];
    r.render(&con, &mut fb, 2, &raster);
    assert!(fb.iter().all(|&p| p == rgb((255, 85, 85))));
}

#[test]
fn render_inverts_the_cursor_cell() {
    let con = region(1, 2, &[(b'A', 0x41), (b' ', 0x41)], 1, (0, 0), 3);
    let mut r = Renderer::new(5, 2);
    let mut fb = vec![0u32; 28];
    r.render(&con, &mut fb, 4, &raster);
    // full coverage under the cursor shows the background, an empty cell
    // outside it shows the background too
    assert_eq!(fb[0], rgb((0, 0, 170)));
    assert_eq!(fb[3], rgb((0, 0, 170)));
    // hidden cursor: the glyph is drawn in its foreground
    let hidden = region(1, 2, &[(b'A', 0x41), (b' ', 0x41)], 0, (0, 0), 4);
    r.render(&hidden, &mut fb, 4, &raster);
    assert_eq!(fb[0], rgb((170, 0, 0)));
    // cursor on the empty cell: zero coverage shows the foreground
    let on_blank = region(1, 2, &[(b'A', 0x41), (b' ', 0x41)], 1, (0, 1), 5);
    r.render(&on_blank, &mut fb, 4, &raster);
    assert_eq!(fb[3], rgb((170, 0, 0)));
}

#[test]
fn render_skips_pixels_outside_the_buffer() {
    let con = region(1, 2, &[(b'A', 0x41), (b'A', 0x41)], 0, (0, 0), 3);
    let mut r = Renderer::new(5, 2);
    // stride 3: the fourth pixel column does not fit a row
    let mut fb = vec![7u32; 5];
    r.render(&con, &mut fb, 3, &raster);
    assert_eq!(fb, vec![rgb((170, 0, 0)), rgb((170, 0, 0)), rgb((170, 0, 0)), rgb((170, 0, 0)), rgb((170, 0, 0))]);
    let mut wide = vec![7u32; 10 * 8];
    r.render(&con, &mut wide, 10, &raster);
    assert_eq!(wide[4], 7);
    assert_eq!(wide[7 * 10], 7);
}

#[test]
fn render_clamps_header_to_configured_grid() {
    let mut con = region(1, 1, &[(b'A', 0x41)], 0, (0, 0), 3);
    // the header claims a larger grid than the region was made for
    con.mem[0..2].copy_from_slice(&50u16.to_le_bytes());
    con.mem[2..4].copy_from_slice(&80u16.to_le_bytes());
    let mut r = Renderer::new(5, 2);
    let mut fb = vec![0u32; 100 * 100];
    r.render(&con, &mut fb, 100, &raster);
    assert_eq!(fb[0], rgb((170, 0, 0)));
    assert_eq!(fb[2], 0);
    assert_eq!(fb[7 * 100], 0);
}

#[test]
fn needs_redraw_follows_dirty_seq() {
    let mut r = Renderer::new(5, 2);
    let a = region(1, 1, &[(b'A', 0x41)], 0, (0, 0), u32::MAX);
    assert!(r.needs_redraw(&a));
    let mut fb = vec![0u32; 14];
    r.render(&a, &mut fb, 2, &raster);
    assert!(!r.needs_redraw(&a));
    let wrapped = region(1, 1, &[(b'A', 0x41)], 0, (0, 0), 0);
    assert!(r.needs_redraw(&wrapped));
    r.render(&wrapped, &mut fb, 2, &raster);
    assert!(!r.needs_redraw(&wrapped));
    assert!(r.needs_redraw(&region(1, 1, &[(b'A', 0x41)], 0, (0, 0), 1)));
}

#[test]
fn pixel_size_scales_cells() {
    let r = Renderer::new(16, 10);
    assert_eq!(r.pixel_size(120, 40), (1200, 920));
    assert_eq!(r.pixel_size(0, 0), (0, 0));
}

#[test]
fn default_config() {
    let c = Config::default();
    assert_eq!(c.font_size, 16);
    assert_eq!((c.default_rows, c.default_cols), (40, 120));
    assert_eq!((c.cursor_blink_ms, c.poll_interval_ms), (500, 16));
}
