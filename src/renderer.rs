//! The compositor: decodes each cell's attributes and blends its glyph's
//! coverage into a caller-owned buffer of packed RGB pixels.
use vstd::prelude::*;
use crate::config::{bright_color, bright_rgb, normal_color, normal_rgb, Rgb};
use crate::console::{cell_in, u16_at, u32_at, ExconCell, KernelConsole, FLAG_CURSOR_VISIBLE};
use crate::font::{filled_by, lemma_filled_by_trans, FontCache, RawGlyph};

verus! {

/// Foreground palette index: bits 0 to 2 of the attribute byte.
pub open spec fn fg_index(attr: u8) -> u8 {
    attr % 8
}

/// Bold flag: bit 3 of the attribute byte.
pub open spec fn is_bold(attr: u8) -> bool {
    (attr / 8) % 2 == 1
}

/// Background palette index: bits 4 to 6 of the attribute byte.
pub open spec fn bg_index(attr: u8) -> u8 {
    (attr / 16) % 8
}

/// Splits an attribute byte into foreground index, bold flag and
/// background index.
pub fn decode_attr(attr: u8) -> (r: (u8, bool, u8))
    ensures
        r == (fg_index(attr), is_bold(attr), bg_index(attr)),
{
    (attr % 8, (attr / 8) % 2 == 1, (attr / 16) % 8)
}

/// `over` weighted by coverage `alpha`, `under` by the rest, in 255ths.
pub open spec fn mix(over: int, under: int, alpha: int) -> int {
    (over * alpha + under * (255 - alpha)) / 255
}

/// One channel of a blend, in integer arithmetic.
pub fn mix_channel(over: u8, under: u8, alpha: u8) -> (r: u8)
    ensures
        r == mix(over as int, under as int, alpha as int),
{
    let o: u32 = over as u32;
    let u: u32 = under as u32;
    let a: u32 = alpha as u32;
    assert(o * a <= 255 * a && u * (255 - a) <= 255 * (255 - a)) by (nonlinear_arith)
        requires
            o <= 255,
            u <= 255,
            a <= 255,
    ;
    let v: u32 = o * a + u * (255 - a);
    (v / 255) as u8
}

/// Packs a color into the low 24 bits of a pixel.
pub open spec fn pack(c: (int, int, int)) -> int {
    c.0 * 65536 + c.1 * 256 + c.2
}

/// The pixel of a cell with colors `fg` and `bg` at coverage `alpha`: the
/// foreground over the background, or, under the cursor, the other way
/// round, so that full coverage shows the background.
pub open spec fn shade(fg: Rgb, bg: Rgb, alpha: int, cursor: bool) -> int {
    if cursor {
        pack((mix(bg.0 as int, fg.0 as int, alpha), mix(bg.1 as int, fg.1 as int, alpha), mix(bg.2 as int, fg.2 as int, alpha)))
    } else {
        pack((mix(fg.0 as int, bg.0 as int, alpha), mix(fg.1 as int, bg.1 as int, alpha), mix(fg.2 as int, bg.2 as int, alpha)))
    }
}

/// Blends one pixel of a cell, as `shade` states.
pub fn shade_pixel(fg: Rgb, bg: Rgb, alpha: u8, cursor: bool) -> (r: u32)
    ensures
        r == shade(fg, bg, alpha as int, cursor),
{
    let (r, g, b) = if cursor {
        (mix_channel(bg.0, fg.0, alpha), mix_channel(bg.1, fg.1, alpha), mix_channel(bg.2, fg.2, alpha))
    } else {
        (mix_channel(fg.0, bg.0, alpha), mix_channel(fg.1, bg.1, alpha), mix_channel(fg.2, bg.2, alpha))
    };
    (r as u32) * 65536 + (g as u32) * 256 + (b as u32)
}

/// Foreground color of a cell: bright when bold.
pub open spec fn fg_rgb(attr: u8) -> Rgb {
    if is_bold(attr) {
        bright_rgb(fg_index(attr) as int)
    } else {
        normal_rgb(fg_index(attr) as int)
    }
}

/// Background color of a cell: always from the normal palette.
pub open spec fn bg_rgb(attr: u8) -> Rgb {
    normal_rgb(bg_index(attr) as int)
}

/// Rows of the header in region `b`.
pub open spec fn header_rows(b: Seq<u8>) -> int {
    u16_at(b, 0)
}

/// Columns of the header in region `b`.
pub open spec fn header_cols(b: Seq<u8>) -> int {
    u16_at(b, 2)
}

/// Change counter of the header in region `b`.
pub open spec fn dirty_seq_of(b: Seq<u8>) -> u32 {
    u32_at(b, 20) as u32
}

/// Rows drawn: the header's, clamped to the configured grid.
pub open spec fn drawn_rows(c: KernelConsole) -> int {
    let r = header_rows(c.mem@);
    if r < c.rows { r } else { c.rows as int }
}

/// Columns drawn: the header's, clamped to the configured grid.
pub open spec fn drawn_cols(c: KernelConsole) -> int {
    let k = header_cols(c.mem@);
    if k < c.cols { k } else { c.cols as int }
}

/// The cursor is visible and sits at (`row`, `col`).
pub open spec fn cursor_at(b: Seq<u8>, row: int, col: int) -> bool {
    u32_at(b, 8) % 2 == 1 && u16_at(b, 4) == row && u16_at(b, 6) == col
}

/// Coverage at position `j` of a cached bitmap; zero where nothing is cached.
pub open spec fn coverage(g: Option<Vec<u8>>, j: int) -> int {
    match g {
        Some(v) => if 0 <= j < v@.len() { v@[j] as int } else { 0 },
        None => 0,
    }
}

/// The value that rendering console `c` with `font` writes at index `i` of a
/// buffer whose rows are `w` pixels apart, or `None` where `i` lies outside
/// every drawn cell's pixel box and is left alone.
pub open spec fn pixel_value(font: FontCache, c: KernelConsole, w: int, i: int) -> Option<u32> {
    let cw = font.cell_width as int;
    let chh = font.cell_height as int;
    if w == 0 || cw == 0 || chh == 0 {
        None
    } else {
        let x = i % w;
        let y = i / w;
        let row = y / chh;
        let col = x / cw;
        if row < drawn_rows(c) && col < drawn_cols(c) {
            let cell = cell_in(c.mem@, c.cols as int, row, col);
            let a = coverage(font.cached(cell.ch, is_bold(cell.attr)), (y % chh) * cw + x % cw);
            Some(shade(fg_rgb(cell.attr), bg_rgb(cell.attr), a, cursor_at(c.mem@, row, col)) as u32)
        } else {
            None
        }
    }
}

/// Computes `pixel_value`.
fn pixel_at(font: &FontCache, c: &KernelConsole, rows: u16, cols: u16, cursor: (bool, u16, u16), w: u32, i: usize) -> (r: Option<u32>)
    requires
        font.wf(),
        c.wf(),
        rows == drawn_rows(*c),
        cols == drawn_cols(*c),
        cursor.0 == (u32_at(c.mem@, 8) % 2 == 1),
        cursor.1 == u16_at(c.mem@, 4),
        cursor.2 == u16_at(c.mem@, 6),
    ensures
        r == pixel_value(*font, *c, w as int, i as int),
{
    let cw: u32 = font.cell_width;
    let chh: u32 = font.cell_height;
    if w == 0 || cw == 0 || chh == 0 {
        return None;
    }
    let x: usize = i % (w as usize);
    let y: usize = i / (w as usize);
    let row: usize = y / (chh as usize);
    let col: usize = x / (cw as usize);
    if row >= rows as usize || col >= cols as usize {
        return None;
    }
    let cell: ExconCell = c.cell(row as u16, col as u16).unwrap();
    let (fg_idx, bold, bg_idx) = decode_attr(cell.attr);
    let fg: Rgb = if bold { bright_color(fg_idx) } else { normal_color(fg_idx) };
    let bg: Rgb = normal_color(bg_idx);
    let gy: usize = y % (chh as usize);
    let gx: usize = x % (cw as usize);
    proof {
        crate::font::lemma_index_in_grid(cw as int, chh as int, gy as int, gx as int);
        assert((cw as int) * (chh as int) <= 0xffff * 0xffff) by (nonlinear_arith)
            requires
                cw <= 0xffff,
                chh <= 0xffff,
        ;
    }
    let j: usize = gy * (cw as usize) + gx;
    let k: usize = if bold { 2 * (cell.ch as usize) + 1 } else { 2 * (cell.ch as usize) };
    let alpha: u8 = match &font.cache[k] {
        Some(g) => if j < g.len() { g[j] } else { 0 },
        None => 0,
    };
    let is_cursor: bool = cursor.0 && cursor.1 as usize == row && cursor.2 as usize == col;
    Some(shade_pixel(fg, bg, alpha, is_cursor))
}

/// A redraw is due unless `seq` is the change counter last rendered.
pub open spec fn redraw_needed(last: Option<u32>, seq: u32) -> bool {
    last != Some(seq)
}

/// The glyph of every drawn cell of `c` is cached in `font`.
pub open spec fn glyphs_cached(font: FontCache, c: KernelConsole) -> bool {
    forall|r: int, k: int|
        0 <= r < drawn_rows(c) && 0 <= k < drawn_cols(c) ==> font.cached(
            #[trigger] cell_in(c.mem@, c.cols as int, r, k).ch,
            is_bold(cell_in(c.mem@, c.cols as int, r, k).attr),
        ) is Some
}

/// Once a frame is rendered, a redraw is due exactly when the change
/// counter moves to any other value, a wrap from `u32::MAX` to zero
/// included; before the first render one is always due.
pub proof fn lemma_redraw_tracks_dirty_seq(rendered: u32, now: u32)
    ensures
        !redraw_needed(Some(rendered), rendered),
        redraw_needed(Some(rendered), now) <==> now != rendered,
        redraw_needed(None, now),
{
}

/// Under the cursor, full coverage gives exactly the background color and
/// zero coverage exactly the foreground color.
pub proof fn lemma_cursor_blend_extremes(fg: Rgb, bg: Rgb)
    ensures
        shade(fg, bg, 255, true) == pack((bg.0 as int, bg.1 as int, bg.2 as int)),
        shade(fg, bg, 0, true) == pack((fg.0 as int, fg.1 as int, fg.2 as int)),
{
}

proof fn lemma_mix_same(c: int, alpha: int)
    requires
        0 <= alpha <= 255,
    ensures
        mix(c, c, alpha) == c,
{
    assert(c * alpha + c * (255 - alpha) == c * 255) by (nonlinear_arith);
}

/// A cell whose foreground and background indices agree and that is not
/// bold comes out in one color, its background, at every coverage, under
/// the cursor or not.
pub proof fn lemma_uniform_cell(attr: u8, alpha: int, cursor: bool)
    requires
        fg_index(attr) == bg_index(attr),
        !is_bold(attr),
        0 <= alpha <= 255,
    ensures
        shade(fg_rgb(attr), bg_rgb(attr), alpha, cursor) == pack(
            (bg_rgb(attr).0 as int, bg_rgb(attr).1 as int, bg_rgb(attr).2 as int),
        ),
{
    let c = bg_rgb(attr);
    lemma_mix_same(c.0 as int, alpha);
    lemma_mix_same(c.1 as int, alpha);
    lemma_mix_same(c.2 as int, alpha);
}

/// Draws a console into a pixel buffer, remembering what it drew last.
pub struct Renderer {
    pub font: FontCache,
    /// Change counter of the last rendered frame; `None` before the first.
    pub last_dirty_seq: Option<u32>,
}

impl Renderer {
    pub open spec fn wf(&self) -> bool {
        self.font.wf()
    }

    /// A renderer whose glyph cache has the metrics of `FontCache::new`.
    pub fn new(font_size: u32, advance: u32) -> (r: Renderer)
        requires
            font_size <= 40000,
            advance <= 0xffff,
        ensures
            r.wf(),
            r.font.cell_width == advance,
            r.font.cell_height == (14 * font_size + 9) / 10,
            r.font.baseline == (11 * font_size + 9) / 10,
            forall|k: int| 0 <= k < crate::font::GLYPH_SLOTS ==> #[trigger] r.font.cache@[k] is None,
            r.last_dirty_seq is None,
    {
        Renderer { font: FontCache::new(font_size, advance), last_dirty_seq: None }
    }

    /// Pixel width and height of a `cols` x `rows` grid.
    pub fn pixel_size(&self, cols: u16, rows: u16) -> (r: (u32, u32))
        requires
            self.wf(),
        ensures
            r.0 == cols * self.font.cell_width,
            r.1 == rows * self.font.cell_height,
    {
        assert((cols as int) * (self.font.cell_width as int) <= 0xffff * 0xffff
            && (rows as int) * (self.font.cell_height as int) <= 0xffff * 0xffff) by (nonlinear_arith)
            requires
                cols <= 0xffff,
                rows <= 0xffff,
                self.font.cell_width <= 0xffff,
                self.font.cell_height <= 0xffff,
        ;
        ((cols as u32) * self.font.cell_width, (rows as u32) * self.font.cell_height)
    }

    /// Whether the console changed since the last render: true before the
    /// first render and whenever the change counter differs.
    pub fn needs_redraw(&self, console: &KernelConsole) -> (r: bool)
        requires
            console.wf(),
        ensures
            r == redraw_needed(self.last_dirty_seq, dirty_seq_of(console.mem@)),
    {
        let seq: u32 = console.header().dirty_seq;
        match self.last_dirty_seq {
            Some(last) => last != seq,
            None => true,
        }
    }

    /// Draws every cell of the header's grid, clamped to the configured one,
    /// into `framebuf`, whose rows are `fb_width` pixels apart, rasterizing
    /// through `raster` the glyphs not cached yet. Pixels beyond a row's
    /// width or the buffer's end are skipped. Records the header's change
    /// counter as the last rendered.
    pub fn render<F: Fn(u8, bool) -> RawGlyph>(
        &mut self,
        console: &KernelConsole,
        framebuf: &mut [u32],
        fb_width: u32,
        raster: &F,
    )
        requires
            old(self).wf(),
            console.wf(),
            forall|c: u8, b: bool| raster.requires((c, b)),
        ensures
            final(self).wf(),
            old(self).font.kept_in(&final(self).font),
            filled_by(old(self).font, final(self).font, *raster),
            glyphs_cached(final(self).font, *console),
            final(self).last_dirty_seq == Some(dirty_seq_of(console.mem@)),
            final(framebuf)@.len() == old(framebuf)@.len(),
            forall|i: int|
                0 <= i < final(framebuf)@.len() ==> #[trigger] final(framebuf)@[i] == match pixel_value(
                    final(self).font,
                    *console,
                    fb_width as int,
                    i,
                ) {
                    Some(v) => v,
                    None => old(framebuf)@[i],
                },
    {
        let h = console.header();
        let rows: u16 = if h.rows < console.rows { h.rows } else { console.rows };
        let cols: u16 = if h.cols < console.cols { h.cols } else { console.cols };
        let cursor: (bool, u16, u16) = (h.flags % 2 == FLAG_CURSOR_VISIBLE, h.cursor_row, h.cursor_col);
        let ghost font0 = self.font;
        let mut row: u16 = 0;
        while row < rows
            invariant
                console.wf(),
                rows == drawn_rows(*console),
                cols == drawn_cols(*console),
                row <= rows,
                self.font.wf(),
                font0.kept_in(&self.font),
                filled_by(font0, self.font, *raster),
                forall|c: u8, b: bool| raster.requires((c, b)),
                forall|r: int, k: int|
                    0 <= r < row && 0 <= k < cols ==> self.font.cached(
                        #[trigger] cell_in(console.mem@, console.cols as int, r, k).ch,
                        is_bold(cell_in(console.mem@, console.cols as int, r, k).attr),
                    ) is Some,
            decreases rows - row,
        {
            let mut col: u16 = 0;
            while col < cols
                invariant
                    console.wf(),
                    rows == drawn_rows(*console),
                    cols == drawn_cols(*console),
                    row < rows,
                    col <= cols,
                    self.font.wf(),
                    font0.kept_in(&self.font),
                    filled_by(font0, self.font, *raster),
                    forall|c: u8, b: bool| raster.requires((c, b)),
                    forall|r: int, k: int|
                        (0 <= r < row && 0 <= k < cols) || (r == row && 0 <= k < col) ==> self.font.cached(
                            #[trigger] cell_in(console.mem@, console.cols as int, r, k).ch,
                            is_bold(cell_in(console.mem@, console.cols as int, r, k).attr),
                        ) is Some,
                decreases cols - col,
            {
                let cell: ExconCell = console.cell(row, col).unwrap();
                let (_, bold, _) = decode_attr(cell.attr);
                let ghost before = self.font;
                self.font.rasterize(cell.ch, bold, raster);
                proof {
                    lemma_filled_by_trans(font0, before, self.font, *raster);
                }
                col = col + 1;
            }
            row = row + 1;
        }
        let n: usize = framebuf.len();
        let mut i: usize = 0;
        while i < n
            invariant
                console.wf(),
                self.font.wf(),
                rows == drawn_rows(*console),
                cols == drawn_cols(*console),
                cursor.0 == (u32_at(console.mem@, 8) % 2 == 1),
                cursor.1 == u16_at(console.mem@, 4),
                cursor.2 == u16_at(console.mem@, 6),
                i <= n,
                framebuf@.len() == n,
                n == old(framebuf)@.len(),
                forall|j: int| 0 <= j < i ==> #[trigger] framebuf@[j] == match pixel_value(
                    self.font,
                    *console,
                    fb_width as int,
                    j,
                ) {
                    Some(v) => v,
                    None => old(framebuf)@[j],
                },
                forall|j: int| i <= j < n ==> #[trigger] framebuf@[j] == old(framebuf)@[j],
            decreases n - i,
        {
            match pixel_at(&self.font, console, rows, cols, cursor, fb_width, i) {
                Some(v) => {
                    framebuf[i] = v;
                },
                None => {},
            }
            i = i + 1;
        }
        self.last_dirty_seq = Some(h.dirty_seq);
    }
}

} // verus!
