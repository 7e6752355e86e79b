use vstd::prelude::*;
use crate::pixel::{on_spec, BgColor, Pixel, Rgb};
use crate::image::{black, Image};
use crate::view::{Fit, ImageView, Region};

verus! {

/// The glyph of a filled cell: its upper half shows the foreground color,
/// its lower half the background color.
pub const PIXEL_CHAR: char = '\u{2580}';

/// A color given to one half of a cell.
#[derive(Debug, Clone, Copy, PartialEq, Eq, Hash, Structural)]
pub enum Paint {
    /// No fill: the terminal's own color shows.
    Reset,
    /// An opaque color.
    Color(Rgb),
}

/// What one terminal cell of a render area shows.
#[derive(Debug, Clone, Copy, PartialEq, Eq, Hash, Structural)]
pub enum Cell {
    /// A space with no background fill: no pixel maps here.
    Blank,
    /// The half-block glyph, `fg` on the upper pixel row, `bg` on the lower.
    Filled { fg: Paint, bg: Paint },
}

/// The mapping of a render area onto a region, with the zoom of each axis
/// as the exact ratio `num / den` of target size to region size, and the
/// number of blank cells left of and above the image.
#[derive(Debug, Clone, Copy, PartialEq, Eq, Hash, Structural)]
pub struct Scaling {
    pub zoom_x_num: u128,
    pub zoom_x_den: u128,
    pub zoom_y_num: u128,
    pub zoom_y_den: u128,
    pub x_pos: u16,
    pub y_pos: u16,
}

/// The scaling of a region of `rw` by `rh` pixels into an area of `aw` by
/// `ah` cells. Under [`Fit::Stretch`] each axis fills the area. Under
/// [`Fit::Zoom`] the smaller zoom applies to both axes, and the image is
/// centered along the other axis.
pub open spec fn scaling_spec(fit: Fit, rw: nat, rh: nat, aw: nat, ah: nat) -> Scaling {
    match fit {
        Fit::Stretch => Scaling {
            zoom_x_num: aw as u128,
            zoom_x_den: rw as u128,
            zoom_y_num: (2 * ah) as u128,
            zoom_y_den: rh as u128,
            x_pos: 0,
            y_pos: 0,
        },
        Fit::Zoom => if aw * rh < 2 * ah * rw {
            Scaling {
                zoom_x_num: aw as u128,
                zoom_x_den: rw as u128,
                zoom_y_num: aw as u128,
                zoom_y_den: rw as u128,
                x_pos: 0,
                y_pos: ((2 * ah - (rh * aw) / rw) / 4) as u16,
            }
        } else {
            Scaling {
                zoom_x_num: (2 * ah) as u128,
                zoom_x_den: rh as u128,
                zoom_y_num: (2 * ah) as u128,
                zoom_y_den: rh as u128,
                x_pos: ((aw - (rw * 2 * ah) / rh) / 2) as u16,
                y_pos: 0,
            }
        },
    }
}

/// The color of a present pixel over `bg`; a missing one leaves no fill.
pub open spec fn paint_spec(p: Option<Pixel>, bg: BgColor) -> Paint {
    match p {
        Some(px) => Paint::Color(on_spec(px, bg)),
        None => Paint::Reset,
    }
}

/// The target area has exactly the region's size in cells.
pub open spec fn is_exact_fit(v: ImageView, aw: nat, ah: nat) -> bool {
    aw == v.region_spec().width && 2 * ah == v.region_spec().height
}

/// Cell `(x, y)` when the area has the region's size: the pixels of rows
/// `2y` and `2y + 1` of column `x`.
pub open spec fn exact_cell_spec(v: ImageView, x: nat, y: nat) -> Cell {
    Cell::Filled {
        fg: Paint::Color(on_spec(v.pixel_at(x as int, 2 * y as int).unwrap_or(Pixel::default_spec()), v.bg_spec())),
        bg: Paint::Color(on_spec(v.pixel_at(x as int, 2 * y as int + 1).unwrap_or(Pixel::default_spec()), v.bg_spec())),
    }
}

/// Cell `(x, y)` of an `aw` by `ah` area by nearest-neighbour sampling: the
/// cell's column and its two pixel rows, counted from the offsets, divided
/// by the zoom and rounded down, give the region pixels shown.
pub open spec fn scaled_cell_spec(v: ImageView, aw: nat, ah: nat, x: nat, y: nat) -> Cell {
    let rw = v.region_spec().width as nat;
    let rh = v.region_spec().height as nat;
    if rw == 0 || rh == 0 {
        Cell::Blank
    } else {
        let s = scaling_spec(v.fit_spec(), rw, rh, aw, ah);
        if x < s.x_pos || y < s.y_pos {
            Cell::Blank
        } else {
            let px = ((x - s.x_pos) * s.zoom_x_den) / s.zoom_x_num as int;
            let py1 = (2 * (y - s.y_pos) * s.zoom_y_den) / s.zoom_y_num as int;
            let py2 = ((2 * (y - s.y_pos) + 1) * s.zoom_y_den) / s.zoom_y_num as int;
            let p1 = v.pixel_at(px, py1);
            let p2 = v.pixel_at(px, py2);
            if p1 is None && p2 is None {
                Cell::Blank
            } else {
                Cell::Filled { fg: paint_spec(p1, v.bg_spec()), bg: paint_spec(p2, v.bg_spec()) }
            }
        }
    }
}

/// What cell `(x, y)` of an `aw` by `ah` area shows.
pub open spec fn cell_spec(v: ImageView, aw: nat, ah: nat, x: nat, y: nat) -> Cell {
    if is_exact_fit(v, aw, ah) {
        exact_cell_spec(v, x, y)
    } else {
        scaled_cell_spec(v, aw, ah, x, y)
    }
}

impl Pixel {
    /// The fully transparent black pixel.
    pub open spec fn default_spec() -> Pixel {
        Pixel { r: 0, g: 0, b: 0, a: 0 }
    }
}

proof fn lemma_div_below(a: int, b: int, c: int)
    requires
        0 <= a,
        0 < c,
        a < b * c,
    ensures
        a / c < b,
{
    vstd::arithmetic::div_mod::lemma_fundamental_div_mod(a, c);
    let q = a / c;
    let m = a % c;
    assert(q < b) by (nonlinear_arith)
        requires a == c * q + m, 0 <= m, a < b * c, c > 0;
}

proof fn lemma_div_at_most(a: int, b: int, c: int)
    requires
        0 <= a,
        0 < c,
        a <= b * c,
    ensures
        a / c <= b,
{
    vstd::arithmetic::div_mod::lemma_fundamental_div_mod(a, c);
    let q = a / c;
    let m = a % c;
    assert(q <= b) by (nonlinear_arith)
        requires a == c * q + m, 0 <= m, a <= b * c, c > 0;
}

/// The scaling of a region of `rw` by `rh` pixels into an area of `aw` by
/// `ah` cells under `fit`.
pub fn scale_for(fit: Fit, rw: usize, rh: usize, aw: u16, ah: u16) -> (r: Scaling)
    requires
        rw > 0,
        rh > 0,
    ensures
        r == scaling_spec(fit, rw as nat, rh as nat, aw as nat, ah as nat),
{
    let rw = rw as u128;
    let rh = rh as u128;
    let aw = aw as u128;
    let ah2 = ah as u128 * 2;
    match fit {
        Fit::Stretch => Scaling { zoom_x_num: aw, zoom_x_den: rw, zoom_y_num: ah2, zoom_y_den: rh, x_pos: 0, y_pos: 0 },
        Fit::Zoom => {
            proof {
                assert(aw * rh <= 0xffff * 0xffff_ffff_ffff_ffff) by (nonlinear_arith)
                    requires aw <= 0xffff, rh <= 0xffff_ffff_ffff_ffff;
                assert(ah2 * rw <= 0x1ffff * 0xffff_ffff_ffff_ffff) by (nonlinear_arith)
                    requires ah2 <= 0x1ffff, rw <= 0xffff_ffff_ffff_ffff;
            }
            if aw * rh < ah2 * rw {
                proof {
                    lemma_div_below(rh * aw, ah2 as int, rw as int);
                    assert(rh * aw == aw * rh) by (nonlinear_arith);
                }
                let fitted = (rh * aw) / rw;
                let y_pos = ((ah2 - fitted) / 4) as u16;
                Scaling { zoom_x_num: aw, zoom_x_den: rw, zoom_y_num: aw, zoom_y_den: rw, x_pos: 0, y_pos }
            } else {
                proof {
                    lemma_div_at_most(rw * ah2, aw as int, rh as int);
                    assert(rw * ah2 == ah2 * rw) by (nonlinear_arith);
                    assert(rw * 2 * ah == rw * ah2) by (nonlinear_arith)
                        requires ah2 == 2 * ah;
                }
                let fitted = (rw * ah2) / rh;
                let x_pos = ((aw - fitted) / 2) as u16;
                Scaling { zoom_x_num: ah2, zoom_x_den: rh, zoom_y_num: ah2, zoom_y_den: rh, x_pos, y_pos: 0 }
            }
        },
    }
}

impl<'a> ImageView<'a> {
    /// The pixel at `(x, y)` relative to the region, for coordinates that
    /// may lie far outside it.
    fn sample(&self, x: u128, y: u128) -> (r: Option<Pixel>)
        requires
            self.wf(),
        ensures
            r == self.pixel_at(x as int, y as int),
    {
        let w = self.region().width;
        let h = self.region().height;
        if x >= w as u128 || y >= h as u128 {
            None
        } else {
            self.pixel(x as usize, y as usize)
        }
    }

    fn paint(&self, p: Option<Pixel>) -> (r: Paint)
        ensures
            r == paint_spec(p, self.bg_spec()),
    {
        match p {
            Some(px) => Paint::Color(px.on(self.bg_color())),
            None => Paint::Reset,
        }
    }

    fn exact_cell(&self, x: u16, y: u16) -> (r: Cell)
        requires
            self.wf(),
        ensures
            r == exact_cell_spec(*self, x as nat, y as nat),
    {
        let blank = Pixel { r: 0, g: 0, b: 0, a: 0 };
        let top = match self.sample(x as u128, y as u128 * 2) {
            Some(p) => p,
            None => blank,
        };
        let bottom = match self.sample(x as u128, y as u128 * 2 + 1) {
            Some(p) => p,
            None => blank,
        };
        Cell::Filled { fg: Paint::Color(top.on(self.bg_color())), bg: Paint::Color(bottom.on(self.bg_color())) }
    }

    fn scaled_cell(&self, s: &Scaling, aw: u16, ah: u16, x: u16, y: u16) -> (r: Cell)
        requires
            self.wf(),
            self.region_spec().width > 0,
            self.region_spec().height > 0,
            *s == scaling_spec(
                self.fit_spec(),
                self.region_spec().width as nat,
                self.region_spec().height as nat,
                aw as nat,
                ah as nat,
            ),
            x < aw,
            y < ah,
        ensures
            r == scaled_cell_spec(*self, aw as nat, ah as nat, x as nat, y as nat),
    {
        if x < s.x_pos || y < s.y_pos {
            return Cell::Blank;
        }
        proof {
            assert(s.zoom_x_num > 0 && s.zoom_y_num > 0);
            assert(s.zoom_x_den <= 0xffff_ffff_ffff_ffff && s.zoom_y_den <= 0xffff_ffff_ffff_ffff);
            let dx = (x - s.x_pos) as int;
            let dy = (2 * (y - s.y_pos) + 1) as int;
            assert(dx * s.zoom_x_den <= 0xffff * 0xffff_ffff_ffff_ffff) by (nonlinear_arith)
                requires 0 <= dx <= 0xffff, 0 <= s.zoom_x_den <= 0xffff_ffff_ffff_ffff;
            assert(dy * s.zoom_y_den <= 0x1ffff * 0xffff_ffff_ffff_ffff) by (nonlinear_arith)
                requires 0 <= dy <= 0x1ffff, 0 <= s.zoom_y_den <= 0xffff_ffff_ffff_ffff;
            assert((dy - 1) * s.zoom_y_den <= dy * s.zoom_y_den) by (nonlinear_arith)
                requires 1 <= dy, 0 <= s.zoom_y_den;
        }
        let dx = (x - s.x_pos) as u128;
        let dy = (y - s.y_pos) as u128 * 2;
        let px = dx * s.zoom_x_den / s.zoom_x_num;
        let py1 = dy * s.zoom_y_den / s.zoom_y_num;
        let py2 = (dy + 1) * s.zoom_y_den / s.zoom_y_num;
        let p1 = self.sample(px, py1);
        let p2 = self.sample(px, py2);
        if p1.is_none() && p2.is_none() {
            Cell::Blank
        } else {
            Cell::Filled { fg: self.paint(p1), bg: self.paint(p2) }
        }
    }

    /// Renders the view into an area of `width` by `height` terminal cells:
    /// cell `(x, y)` is at index `y * width + x` of the result.
    pub fn render_cells(&self, width: u16, height: u16) -> (r: Vec<Cell>)
        requires
            self.wf(),
        ensures
            r@.len() == width * height,
            forall|i: int|
                0 <= i < r@.len() ==> #[trigger] r@[i] == cell_spec(
                    *self,
                    width as nat,
                    height as nat,
                    (i % width as int) as nat,
                    (i / width as int) as nat,
                ),
    {
        let rw = self.region().width;
        let rh = self.region().height;
        let exact = width as usize == rw && height as usize * 2 == rh;
        let s = if rw > 0 && rh > 0 {
            scale_for(self.fit(), rw, rh, width, height)
        } else {
            Scaling { zoom_x_num: 0, zoom_x_den: 0, zoom_y_num: 0, zoom_y_den: 0, x_pos: 0, y_pos: 0 }
        };
        let mut cells: Vec<Cell> = Vec::new();
        let mut y: u16 = 0;
        while y < height
            invariant
                self.wf(),
                y <= height,
                exact == is_exact_fit(*self, width as nat, height as nat),
                rw == self.region_spec().width,
                rh == self.region_spec().height,
                rw > 0 && rh > 0 ==> s == scaling_spec(self.fit_spec(), rw as nat, rh as nat, width as nat, height as nat),
                cells@.len() == y * width,
                forall|i: int|
                    0 <= i < cells@.len() ==> #[trigger] cells@[i] == cell_spec(
                        *self,
                        width as nat,
                        height as nat,
                        (i % width as int) as nat,
                        (i / width as int) as nat,
                    ),
            decreases height - y,
        {
            let mut x: u16 = 0;
            while x < width
                invariant
                    self.wf(),
                    y < height,
                    x <= width,
                    exact == is_exact_fit(*self, width as nat, height as nat),
                    rw == self.region_spec().width,
                    rh == self.region_spec().height,
                    rw > 0 && rh > 0 ==> s == scaling_spec(self.fit_spec(), rw as nat, rh as nat, width as nat, height as nat),
                    cells@.len() == y * width + x,
                    forall|i: int|
                        0 <= i < cells@.len() ==> #[trigger] cells@[i] == cell_spec(
                            *self,
                            width as nat,
                            height as nat,
                            (i % width as int) as nat,
                            (i / width as int) as nat,
                        ),
                decreases width - x,
            {
                let c = if exact {
                    self.exact_cell(x, y)
                } else if rw == 0 || rh == 0 {
                    Cell::Blank
                } else {
                    self.scaled_cell(&s, width, height, x, y)
                };
                proof {
                    let i = y * width + x;
                    vstd::arithmetic::div_mod::lemma_fundamental_div_mod_converse(
                        i as int,
                        width as int,
                        y as int,
                        x as int,
                    );
                }
                cells.push(c);
                x = x + 1;
            }
            proof {
                assert((y + 1) * width == y * width + width) by (nonlinear_arith);
            }
            y = y + 1;
        }
        proof {
            assert(y * width == width * height) by (nonlinear_arith)
                requires y == height;
        }
        cells
    }
}

/// Where the area has the region's size, so that both zoom ratios are
/// exactly one, the scaled mapping has no offsets and shows in every cell
/// what the exact-fit mapping shows, under either fit.
pub proof fn lemma_exact_and_scaled_agree(v: ImageView, aw: u16, ah: u16, x: nat, y: nat)
    requires
        v.wf(),
        aw as nat == v.region_spec().width,
        2 * ah as nat == v.region_spec().height,
        x < aw,
        y < ah,
    ensures
        scaling_spec(v.fit_spec(), aw as nat, 2 * ah as nat, aw as nat, ah as nat).x_pos == 0,
        scaling_spec(v.fit_spec(), aw as nat, 2 * ah as nat, aw as nat, ah as nat).y_pos == 0,
        scaled_cell_spec(v, aw as nat, ah as nat, x, y) == exact_cell_spec(v, x, y),
{
    let rw = aw as int;
    let rh = 2 * ah as int;
    assert(rw * rh == rh * rw) by (nonlinear_arith);
    assert(rw * 2 * ah == rw * rh && 2 * ah * rw == rw * rh) by (nonlinear_arith)
        requires rh == 2 * ah;
    vstd::arithmetic::div_mod::lemma_fundamental_div_mod_converse(rw * rh, rh, rw, 0);
    let s = scaling_spec(v.fit_spec(), rw as nat, rh as nat, aw as nat, ah as nat);
    assert(s.x_pos == 0 && s.y_pos == 0);
    let d = 2 * y as int;
    vstd::arithmetic::div_mod::lemma_fundamental_div_mod_converse(x * rw, rw, x as int, 0);
    vstd::arithmetic::div_mod::lemma_fundamental_div_mod_converse(x * rh, rh, x as int, 0);
    vstd::arithmetic::div_mod::lemma_fundamental_div_mod_converse(d * rh, rh, d, 0);
    vstd::arithmetic::div_mod::lemma_fundamental_div_mod_converse(d * rw, rw, d, 0);
    vstd::arithmetic::div_mod::lemma_fundamental_div_mod_converse((d + 1) * rh, rh, d + 1, 0);
    vstd::arithmetic::div_mod::lemma_fundamental_div_mod_converse((d + 1) * rw, rw, d + 1, 0);
    assert(d + 1 < rh);
}

/// A freshly sized image is opaque black everywhere, so its full view shows
/// black over any background.
pub proof fn lemma_sized_image_shows_black(v: ImageView, w: usize, h: usize, x: int, y: int)
    requires
        v.wf(),
        v.image_spec().width_spec() == w,
        v.image_spec().height_spec() == h,
        v.image_spec().pixels_spec() == Seq::new((w * h) as nat, |i: int| black()),
        v.region_spec() == (Region { x: 0, y: 0, width: w, height: h }),
        0 <= x < w,
        0 <= y < h,
    ensures
        v.pixel_at(x, y) == Some(black()),
        on_spec(v.pixel_at(x, y)->0, v.bg_spec()) == (Rgb { r: 0, g: 0, b: 0 }),
{
    crate::image::lemma_pixel_presence(v.image_spec(), x, y);
}

} // verus!
