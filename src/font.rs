//! The glyph cache: coverage bitmaps of one cell each, keyed by character
//! code and boldness, rasterized once and kept for the cache's lifetime.
use vstd::prelude::*;

verus! {

/// Number of cache slots: every byte code, plain and bold.
pub const GLYPH_SLOTS: usize = 512;

/// A glyph as the rasterizer hands it over: a `width` x `height` coverage
/// bitmap, row-major, whose lower-left corner sits `xmin`, `ymin` off the
/// pen position on the baseline. Cells are fixed-pitch, so placement keeps
/// every glyph at the cell's left edge and reads only `ymin`.
pub struct RawGlyph {
    pub width: usize,
    pub height: usize,
    pub xmin: i32,
    pub ymin: i32,
    pub bitmap: Vec<u8>,
}

/// Slot of the glyph for `ch` in the given weight.
pub open spec fn slot_of(ch: u8, bold: bool) -> int {
    2 * ch + if bold { 1int } else { 0int }
}

/// The bitmap holds exactly `width` x `height` coverage values.
pub open spec fn raw_ok(g: RawGlyph) -> bool {
    g.bitmap@.len() == g.width * g.height
}

/// Coverage at index `j` of a `cw` x `ch` cell box holding glyph `g`: the
/// glyph's left edge on the box's left edge, its baseline `baseline` pixels
/// down from the top; what falls outside the box is dropped, and a glyph
/// whose bitmap does not match its size draws nothing.
pub open spec fn placed_at(g: RawGlyph, cw: int, baseline: int, j: int) -> u8 {
    let dx = j % cw;
    let dy = j / cw;
    let row = dy - (baseline - g.height - g.ymin);
    if raw_ok(g) && 0 <= row < g.height && dx < g.width {
        g.bitmap@[row * g.width + dx]
    } else {
        0
    }
}

/// `b` is the cell bitmap of glyph `g` in a `cw` x `ch` box.
pub open spec fn is_placement(b: Seq<u8>, g: RawGlyph, cw: int, ch: int, baseline: int) -> bool {
    &&& b.len() == cw * ch
    &&& forall|j: int| 0 <= j < cw * ch ==> b[j] == #[trigger] placed_at(g, cw, baseline, j)
}

pub proof fn lemma_index_in_grid(w: int, h: int, row: int, col: int)
    requires
        0 <= row < h,
        0 <= col < w,
    ensures
        0 <= row * w + col < w * h,
{
    assert(0 <= row * w) by (nonlinear_arith)
        requires
            0 <= row,
            0 <= w,
    ;
    assert((row + 1) * w <= h * w) by (nonlinear_arith)
        requires
            row + 1 <= h,
            0 <= w,
    ;
    assert((row + 1) * w == row * w + w && h * w == w * h) by (nonlinear_arith);
}

/// Places glyph `g` in a `cw` x `ch` cell box with its baseline at
/// `baseline`, clipping what falls outside.
pub fn place_glyph(g: &RawGlyph, cw: u32, ch: u32, baseline: u32) -> (r: Vec<u8>)
    requires
        cw <= 0xffff,
        ch <= 0xffff,
    ensures
        is_placement(r@, *g, cw as int, ch as int, baseline as int),
{
    assert((cw as int) * (ch as int) <= 0xffff * 0xffff) by (nonlinear_arith)
        requires
            cw <= 0xffff,
            ch <= 0xffff,
    ;
    let area: u32 = cw * ch;
    let blen: usize = g.bitmap.len();
    let well_formed: bool = match g.width.checked_mul(g.height) {
        Some(n) => n == blen,
        None => false,
    };
    let y_off: i128 = baseline as i128 - g.height as i128 - g.ymin as i128;
    let mut out: Vec<u8> = Vec::new();
    let mut j: u32 = 0;
    while j < area
        invariant
            area == cw * ch,
            cw > 0 || area == 0,
            j <= area,
            blen == g.bitmap@.len(),
            well_formed == raw_ok(*g),
            y_off == baseline - g.height - g.ymin,
            out@.len() == j,
            forall|i: int| 0 <= i < j ==> out@[i] == #[trigger] placed_at(*g, cw as int, baseline as int, i),
        decreases area - j,
    {
        let dx: u32 = j % cw;
        let dy: u32 = j / cw;
        let row: i128 = dy as i128 - y_off;
        let mut v: u8 = 0;
        if well_formed && 0 <= row && row < g.height as i128 && (dx as usize) < g.width {
            let r: usize = row as usize;
            proof {
                lemma_index_in_grid(g.width as int, g.height as int, r as int, dx as int);
            }
            v = g.bitmap[r * g.width + dx as usize];
        }
        out.push(v);
        j = j + 1;
    }
    out
}

/// What a request for the glyph of (`ch`, `bold`) does to a cache, `before`
/// to `after`, handing out `r`: the key's slot is filled, no other slot
/// changes, and a slot already filled is served as it is.
pub open spec fn memo_step(before: FontCache, after: FontCache, ch: u8, bold: bool, r: Vec<u8>) -> bool {
    &&& after.wf()
    &&& before.kept_in(&after)
    &&& forall|k: int|
        0 <= k < GLYPH_SLOTS && k != slot_of(ch, bold) ==> #[trigger] after.cache@[k]
            == before.cache@[k]
    &&& before.cached(ch, bold) is Some ==> after.cache@ == before.cache@
    &&& after.cached(ch, bold) == Some(r)
}

/// Asking twice for the same glyph gives the same bitmap, and the second
/// request leaves the cache as the first left it, rasterizing nothing.
pub proof fn lemma_rasterize_memoized(
    c0: FontCache,
    c1: FontCache,
    c2: FontCache,
    ch: u8,
    bold: bool,
    r1: Vec<u8>,
    r2: Vec<u8>,
)
    requires
        memo_step(c0, c1, ch, bold, r1),
        memo_step(c1, c2, ch, bold, r2),
    ensures
        r1@ == r2@,
        c2.cache@ == c1.cache@,
{
}

/// Every slot that is empty in `before` and filled in `after` holds the
/// placement of a glyph that `raster` returned for its key.
pub open spec fn filled_by<F: Fn(u8, bool) -> RawGlyph>(before: FontCache, after: FontCache, raster: F) -> bool {
    forall|c: u8, b: bool|
        before.cached(c, b) is None && #[trigger] after.cached(c, b) is Some ==> exists|g: RawGlyph|
            raster.ensures((c, b), g) && is_placement(
                after.cached(c, b)->0@,
                g,
                after.cell_width as int,
                after.cell_height as int,
                after.baseline as int,
            )
}

/// Filling a cache in two rounds through the same rasterizer fills it
/// through that rasterizer.
pub proof fn lemma_filled_by_trans<F: Fn(u8, bool) -> RawGlyph>(
    c0: FontCache,
    c1: FontCache,
    c2: FontCache,
    raster: F,
)
    requires
        c0.kept_in(&c1),
        c1.kept_in(&c2),
        filled_by(c0, c1, raster),
        filled_by(c1, c2, raster),
    ensures
        c0.kept_in(&c2),
        filled_by(c0, c2, raster),
{
    assert forall|c: u8, b: bool|
        c0.cached(c, b) is None && #[trigger] c2.cached(c, b) is Some implies exists|g: RawGlyph|
            raster.ensures((c, b), g) && is_placement(
                c2.cached(c, b)->0@,
                g,
                c2.cell_width as int,
                c2.cell_height as int,
                c2.baseline as int,
            ) by {
        if c1.cached(c, b) is Some {
            assert(c2.cache@[slot_of(c, b)] == c1.cache@[slot_of(c, b)]);
        }
    }
}

/// Fixed cell metrics and the glyphs rasterized so far.
pub struct FontCache {
    pub cell_width: u32,
    pub cell_height: u32,
    /// Distance in pixels from the top of a cell to its baseline.
    pub baseline: u32,
    /// One slot per (code, weight), at `slot_of`; `None` until rasterized.
    pub cache: Vec<Option<Vec<u8>>>,
}

impl FontCache {
    /// Every slot exists and each filled one holds a whole cell bitmap.
    pub open spec fn wf(&self) -> bool {
        &&& self.cell_width <= 0xffff
        &&& self.cell_height <= 0xffff
        &&& self.cache@.len() == GLYPH_SLOTS
        &&& forall|k: int|
            0 <= k < GLYPH_SLOTS && (#[trigger] self.cache@[k]) is Some ==> self.cache@[k]->0@.len()
                == self.cell_width * self.cell_height
    }

    /// The cached bitmap for `ch` in the given weight, if any.
    pub open spec fn cached(&self, ch: u8, bold: bool) -> Option<Vec<u8>> {
        self.cache@[slot_of(ch, bold)]
    }

    /// Everything cached in `self` is still cached, unchanged, in `other`.
    pub open spec fn kept_in(&self, other: &FontCache) -> bool {
        &&& other.cell_width == self.cell_width
        &&& other.cell_height == self.cell_height
        &&& other.baseline == self.baseline
        &&& forall|k: int|
            0 <= k < GLYPH_SLOTS && (#[trigger] self.cache@[k]) is Some ==> other.cache@[k]
                == self.cache@[k]
    }

    /// An empty cache for a font of `size` pixels whose reference glyph
    /// advances `advance` pixels: cells are `advance` wide and 1.4 times the
    /// size high, with the baseline at 1.1 times the size, both rounded up.
    pub fn new(size: u32, advance: u32) -> (r: FontCache)
        requires
            size <= 40000,
            advance <= 0xffff,
        ensures
            r.wf(),
            r.cell_width == advance,
            r.cell_height == (14 * size + 9) / 10,
            r.baseline == (11 * size + 9) / 10,
            forall|k: int| 0 <= k < GLYPH_SLOTS ==> #[trigger] r.cache@[k] is None,
    {
        let mut cache: Vec<Option<Vec<u8>>> = Vec::new();
        let mut i: usize = 0;
        while i < GLYPH_SLOTS
            invariant
                i <= GLYPH_SLOTS,
                cache@.len() == i,
                forall|k: int| 0 <= k < i ==> #[trigger] cache@[k] is None,
            decreases GLYPH_SLOTS - i,
        {
            cache.push(None);
            i = i + 1;
        }
        FontCache {
            cell_width: advance,
            cell_height: (14 * size + 9) / 10,
            baseline: (11 * size + 9) / 10,
            cache,
        }
    }

    /// The coverage bitmap of `ch` in the given weight. The first request
    /// for a key calls `raster` once and places its glyph in the cell box;
    /// later requests return that same bitmap without calling it.
    pub fn rasterize<F: Fn(u8, bool) -> RawGlyph>(&mut self, ch: u8, bold: bool, raster: &F) -> (r: &Vec<u8>)
        requires
            old(self).wf(),
            forall|c: u8, b: bool| raster.requires((c, b)),
        ensures
            memo_step(*old(self), *final(self), ch, bold, *r),
            filled_by(*old(self), *final(self), *raster),
    {
        let k: usize = if bold { 2 * (ch as usize) + 1 } else { 2 * (ch as usize) };
        if self.cache[k].is_none() {
            let g = raster(ch, bold);
            let b = place_glyph(&g, self.cell_width, self.cell_height, self.baseline);
            self.cache[k] = Some(b);
            assert(self.cache@[k as int]->0@ == b@);
            assert(raster.ensures((ch, bold), g) && is_placement(
                self.cached(ch, bold)->0@,
                g,
                self.cell_width as int,
                self.cell_height as int,
                self.baseline as int,
            ));
        }
        self.cache[k].as_ref().unwrap()
    }
}

} // verus!
