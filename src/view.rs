use vstd::prelude::*;
use crate::image::Image;
use crate::pixel::{BgColor, Pixel};

verus! {

/// How an [`ImageView`] is mapped onto a render area.
#[derive(Debug, Clone, Copy, PartialEq, Eq, Hash, Default, Structural)]
pub enum Fit {
    /// Zoomed to fit the area with the aspect ratio kept; the image is
    /// centered and the unused part of the area is left blank.
    #[default]
    Zoom,
    /// Stretched to fill the entire area, distorting the image where the
    /// area's aspect ratio differs from the region's.
    Stretch,
}

/// A rectangle of an image, in pixel coordinates.
#[derive(Debug, Clone, Copy, PartialEq, Eq, Hash, Default, Structural)]
pub struct Region {
    /// The X-coordinate (horizontal) of the top-left pixel of the region
    pub x: usize,
    /// The Y-coordinate (vertical) of the top-left pixel of the region
    pub y: usize,
    /// The width of the region, in pixels
    pub width: usize,
    /// The height of the region, in pixels
    pub height: usize,
}

/// `v` halved, rounded up.
pub open spec fn half_up(v: nat) -> nat {
    (v + 1) / 2
}

/// The region that `r` becomes inside an image of `w` by `h` pixels: the
/// empty region at the origin when `r` starts beyond the image, otherwise `r`
/// cut at the image's right and bottom edges.
pub open spec fn clamp_spec(r: Region, w: nat, h: nat) -> Region {
    if r.x > w || r.y > h {
        Region { x: 0, y: 0, width: 0, height: 0 }
    } else {
        Region {
            x: r.x,
            y: r.y,
            width: if r.x + r.width > w { (w - r.x) as usize } else { r.width },
            height: if r.y + r.height > h { (h - r.y) as usize } else { r.height },
        }
    }
}

/// `r` lies inside an image of `w` by `h` pixels.
pub open spec fn region_within(r: Region, w: nat, h: nat) -> bool {
    r.x + r.width <= w && r.y + r.height <= h
}

/// The pixels of region `r` of `img`, row by row from its top-left pixel.
pub open spec fn region_pixels(img: Image, r: Region) -> Seq<Pixel> {
    Seq::new(
        (r.width * r.height) as nat,
        |k: int| img.pixels_spec()[(r.y + k / r.width as int) * img.width_spec() + r.x + k % r.width as int],
    )
}

impl Region {
    /// A region given in terminal cells: each cell row covers two pixel rows.
    pub fn from_cells(x: u16, y: u16, width: u16, height: u16) -> (r: Region)
        ensures
            r.x == x,
            r.y == 2 * y,
            r.width == width,
            r.height == 2 * height,
    {
        Region { x: x as usize, y: y as usize * 2, width: width as usize, height: height as usize * 2 }
    }

    /// The X-coordinate (horizontal) of the top-left pixel in terms of terminal cells
    pub fn cell_x(&self) -> (r: usize)
        ensures
            r == self.x,
    {
        self.x
    }

    /// The Y-coordinate (vertical) of the top-left pixel in terms of terminal cells, rounded up
    pub fn cell_y(&self) -> (r: usize)
        ensures
            r == half_up(self.y as nat),
    {
        self.y / 2 + self.y % 2
    }

    /// The width of the region, in terminal cells
    pub fn cell_width(&self) -> (r: usize)
        ensures
            r == self.width,
    {
        self.width
    }

    /// The height of the region, in terminal cells, rounded up
    pub fn cell_height(&self) -> (r: usize)
        ensures
            r == half_up(self.height as nat),
    {
        self.height / 2 + self.height % 2
    }
}

/// Clamping yields a region inside the image, and clamping that region again
/// against the same image changes nothing.
pub proof fn lemma_clamp_idempotent(r: Region, w: usize, h: usize)
    ensures
        region_within(clamp_spec(r, w as nat, h as nat), w as nat, h as nat),
        clamp_spec(clamp_spec(r, w as nat, h as nat), w as nat, h as nat) == clamp_spec(r, w as nat, h as nat),
{
}

/// A renderable view of a region of an image, with a fit mode and a
/// background color for translucent pixels.
#[derive(Debug, Clone, Copy)]
pub struct ImageView<'a> {
    image: &'a Image,
    fit: Fit,
    region: Region,
    bg: BgColor,
}

impl<'a> ImageView<'a> {
    pub closed spec fn image_spec(&self) -> Image {
        *self.image
    }

    pub closed spec fn fit_spec(&self) -> Fit {
        self.fit
    }

    pub closed spec fn region_spec(&self) -> Region {
        self.region
    }

    pub closed spec fn bg_spec(&self) -> BgColor {
        self.bg
    }

    /// The image is well formed and the region lies inside it.
    pub open spec fn wf(&self) -> bool {
        &&& self.image_spec().wf()
        &&& region_within(self.region_spec(), self.image_spec().width_spec() as nat, self.image_spec().height_spec() as nat)
    }

    /// The pixel at `(x, y)` relative to the region's top-left pixel, or none
    /// outside the region.
    pub open spec fn pixel_at(&self, x: int, y: int) -> Option<Pixel> {
        if 0 <= x < self.region_spec().width && 0 <= y < self.region_spec().height {
            self.image_spec().pixel_at(x + self.region_spec().x, y + self.region_spec().y)
        } else {
            None
        }
    }

    /// A view of the entire image, in [`Fit::Zoom`] mode over a black background.
    pub fn new(image: &'a Image) -> (r: ImageView<'a>)
        requires
            image.wf(),
        ensures
            r.wf(),
            r.image_spec() == *image,
            r.region_spec() == (Region { x: 0, y: 0, width: image.width_spec(), height: image.height_spec() }),
            r.fit_spec() == Fit::Zoom,
            r.bg_spec() == (BgColor { r: 0, g: 0, b: 0 }),
    {
        let width = image.width();
        let height = image.height();
        ImageView {
            image,
            fit: Fit::Zoom,
            region: Region { x: 0, y: 0, width, height },
            bg: BgColor { r: 0, g: 0, b: 0 },
        }
    }

    /// Builder-style setter for the [`Fit`] mode of the view
    pub fn with_fit(self, fit: Fit) -> (r: ImageView<'a>)
        ensures
            r.image_spec() == self.image_spec(),
            r.fit_spec() == fit,
            r.region_spec() == self.region_spec(),
            r.bg_spec() == self.bg_spec(),
    {
        let mut v = self;
        v.set_fit(fit);
        v
    }

    /// Builder-style setter for the [`Region`] of the view
    pub fn with_region(self, region: Region) -> (r: ImageView<'a>)
        requires
            self.wf(),
        ensures
            r.wf(),
            r.region_spec() == clamp_spec(region, self.image_spec().width_spec() as nat, self.image_spec().height_spec() as nat),
            r.image_spec() == self.image_spec(),
            r.fit_spec() == self.fit_spec(),
            r.bg_spec() == self.bg_spec(),
    {
        let mut v = self;
        v.set_region(region);
        v
    }

    /// Builder-style setter for the background color of the view
    pub fn with_bg_color(self, color: BgColor) -> (r: ImageView<'a>)
        ensures
            r.image_spec() == self.image_spec(),
            r.fit_spec() == self.fit_spec(),
            r.region_spec() == self.region_spec(),
            r.bg_spec() == color,
    {
        let mut v = self;
        v.set_bg_color(color);
        v
    }

    /// Sets the [`Fit`] mode of the view
    pub fn set_fit(&mut self, fit: Fit)
        ensures
            final(self).image_spec() == old(self).image_spec(),
            final(self).fit_spec() == fit,
            final(self).region_spec() == old(self).region_spec(),
            final(self).bg_spec() == old(self).bg_spec(),
    {
        self.fit = fit;
    }

    /// Sets the [`Region`] of the view, clamped to the image: a region that
    /// starts beyond the image becomes the empty region at the origin, and
    /// one that reaches past the right or bottom edge is cut there.
    pub fn set_region(&mut self, region: Region)
        requires
            old(self).wf(),
        ensures
            final(self).wf(),
            final(self).region_spec() == clamp_spec(
                region,
                old(self).image_spec().width_spec() as nat,
                old(self).image_spec().height_spec() as nat,
            ),
            final(self).image_spec() == old(self).image_spec(),
            final(self).fit_spec() == old(self).fit_spec(),
            final(self).bg_spec() == old(self).bg_spec(),
    {
        let iw = self.image.width();
        let ih = self.image.height();
        let Region { mut x, mut y, mut width, mut height } = region;
        if x > iw || y > ih {
            x = 0;
            y = 0;
            width = 0;
            height = 0;
        } else {
            if width > iw - x {
                width = iw - x;
            }
            if height > ih - y {
                height = ih - y;
            }
        }
        self.region = Region { x, y, width, height };
    }

    /// Sets the background color of the view
    pub fn set_bg_color(&mut self, color: BgColor)
        ensures
            final(self).image_spec() == old(self).image_spec(),
            final(self).fit_spec() == old(self).fit_spec(),
            final(self).region_spec() == old(self).region_spec(),
            final(self).bg_spec() == color,
    {
        self.bg = color;
    }

    /// The viewed image
    pub fn image(&self) -> (r: &'a Image)
        ensures
            *r == self.image_spec(),
    {
        self.image
    }

    /// The current [`Fit`] mode of the view
    pub fn fit(&self) -> (r: Fit)
        ensures
            r == self.fit_spec(),
    {
        self.fit
    }

    /// The current [`Region`] of the view
    pub fn region(&self) -> (r: &Region)
        ensures
            *r == self.region_spec(),
    {
        &self.region
    }

    /// The current background color of the view
    pub fn bg_color(&self) -> (r: BgColor)
        ensures
            r == self.bg_spec(),
    {
        self.bg
    }

    /// The pixels of the view's region, row by row from its top-left pixel.
    pub fn pixels(&self) -> (r: ViewPixels<'a>)
        requires
            self.wf(),
        ensures
            r.wf(),
            r.remaining() == region_pixels(self.image_spec(), self.region_spec()),
    {
        let region = self.region;
        if region.width == 0 || region.height == 0 {
            proof {
                assert(region.width * region.height == 0) by (nonlinear_arith)
                    requires region.width == 0 || region.height == 0;
                assert(region_pixels(self.image_spec(), region) =~= Seq::empty());
            }
            ViewPixels { image: self.image, region, x: usize::MAX, y: usize::MAX }
        } else {
            let r = ViewPixels { image: self.image, region, x: region.x, y: region.y };
            proof {
                assert(0 < region.width * region.height) by (nonlinear_arith)
                    requires region.width > 0, region.height > 0;
                assert(r.index() == (r.y - region.y) * region.width + (r.x - region.x));
                assert(0 * region.width == 0);
                assert(r.remaining() =~= region_pixels(self.image_spec(), region));
            }
            r
        }
    }

    /// The pixel at `(x, y)` relative to the region's top-left pixel, or None
    /// outside the region.
    pub fn pixel(&self, x: usize, y: usize) -> (r: Option<Pixel>)
        requires
            self.wf(),
        ensures
            r == self.pixel_at(x as int, y as int),
            (r is Some) <==> (x < self.region_spec().width && y < self.region_spec().height),
    {
        if x >= self.region.width || y >= self.region.height {
            None
        } else {
            match self.image.pixel(x + self.region.x, y + self.region.y) {
                Some(p) => Some(*p),
                None => None,
            }
        }
    }
}

impl Image {
    /// A view of the entire image, in [`Fit::Zoom`] mode over a black background.
    pub fn view(&self) -> (r: ImageView<'_>)
        requires
            self.wf(),
        ensures
            r.wf(),
            r.image_spec() == *self,
            r.region_spec() == (Region { x: 0, y: 0, width: self.width_spec(), height: self.height_spec() }),
            r.fit_spec() == Fit::Zoom,
            r.bg_spec() == (BgColor { r: 0, g: 0, b: 0 }),
    {
        ImageView::new(self)
    }
}

/// A cursor over the pixels of a region of an image, row by row from the
/// region's top-left pixel. Both coordinates at `usize::MAX` mark the end.
#[derive(Debug, Clone)]
pub struct ViewPixels<'a> {
    image: &'a Image,
    region: Region,
    x: usize,
    y: usize,
}

impl<'a> ViewPixels<'a> {
    /// The cursor has passed the region's last pixel.
    pub closed spec fn exhausted(&self) -> bool {
        self.x == usize::MAX
    }

    /// How many pixels of the region come before the cursor.
    pub closed spec fn index(&self) -> int {
        (self.y - self.region.y) * self.region.width + (self.x - self.region.x)
    }

    /// The region lies inside a well-formed image and the cursor is on one
    /// of its pixels or past the end.
    pub closed spec fn wf(&self) -> bool {
        &&& self.image.wf()
        &&& region_within(self.region, self.image.width_spec() as nat, self.image.height_spec() as nat)
        &&& if self.x == usize::MAX {
            self.y == usize::MAX
        } else {
            &&& self.region.x <= self.x < self.region.x + self.region.width
            &&& self.region.y <= self.y < self.region.y + self.region.height
        }
    }

    /// The pixels still to come.
    pub closed spec fn remaining(&self) -> Seq<Pixel> {
        if self.exhausted() {
            Seq::empty()
        } else {
            region_pixels(*self.image, self.region).subrange(
                self.index(),
                (self.region.width * self.region.height) as int,
            )
        }
    }

    /// The next pixel of the region, or None once all have been produced.
    pub fn next(&mut self) -> (r: Option<&'a Pixel>)
        requires
            old(self).wf(),
        ensures
            final(self).wf(),
            old(self).remaining().len() == 0 ==> r is None && final(self).remaining() == old(self).remaining(),
            old(self).remaining().len() > 0 ==> (r matches Some(p) && *p == old(self).remaining()[0]
                && final(self).remaining() == old(self).remaining().drop_first()),
    {
        if self.x == usize::MAX {
            return None;
        }
        let ghost k = self.index();
        let ghost rem = self.remaining();
        let x = self.x;
        let y = self.y;
        let region = self.region;
        let image: &'a Image = self.image;
        proof {
            let w = region.width as int;
            let h = region.height as int;
            let a = y - region.y;
            let b = x - region.x;
            assert(a * w + b < w * h) by (nonlinear_arith)
                requires 0 <= a < h, 0 <= b < w;
            vstd::arithmetic::div_mod::lemma_fundamental_div_mod_converse(k, w, a, b);
            assert(rem.len() > 0);
            assert(rem[0] == region_pixels(*image, region)[k]);
        }
        self.x = self.x + 1;
        if self.x >= region.x + region.width {
            self.x = region.x;
            self.y = self.y + 1;
            proof {
                let w = region.width as int;
                assert((y + 1 - region.y) * w == (y - region.y) * w + w) by (nonlinear_arith);
            }
            if self.y >= region.y + region.height {
                self.x = usize::MAX;
                self.y = usize::MAX;
                proof {
                    let w = region.width as int;
                    let h = region.height as int;
                    assert((h - 1) * w + w == w * h) by (nonlinear_arith);
                    assert(k + 1 == w * h);
                }
            }
        }
        proof {
            assert(self.remaining() =~= rem.drop_first());
        }
        match image.pixel(x, y) {
            Some(p) => Some(p),
            None => None,
        }
    }
}

/// The cursor of a view yields exactly `width * height` pixels, pixel `k`
/// being the one in row `k / width` and column `k % width` of the region, and
/// every call of [`ImageView::pixels`] starts over with the same sequence.
pub proof fn lemma_view_pixels(v: ImageView, it1: ViewPixels, it2: ViewPixels)
    requires
        v.wf(),
        it1.remaining() == region_pixels(v.image_spec(), v.region_spec()),
        it2.remaining() == region_pixels(v.image_spec(), v.region_spec()),
    ensures
        it1.remaining() == it2.remaining(),
        it1.remaining().len() == v.region_spec().width * v.region_spec().height,
        forall|k: int|
            0 <= k < it1.remaining().len() ==> #[trigger] it1.remaining()[k] == v.pixel_at(
                k % v.region_spec().width as int,
                k / v.region_spec().width as int,
            )->0,
{
    let r = v.region_spec();
    let img = v.image_spec();
    assert forall|k: int| 0 <= k < it1.remaining().len() implies #[trigger] it1.remaining()[k] == v.pixel_at(
        k % r.width as int,
        k / r.width as int,
    )->0 by {
        let w = r.width as int;
        let h = r.height as int;
        assert(w > 0) by (nonlinear_arith)
            requires 0 <= k < w * h, h >= 0;
        vstd::arithmetic::div_mod::lemma_div_pos_is_pos(k, w);
        vstd::arithmetic::div_mod::lemma_mod_pos_bound(k, w);
        vstd::arithmetic::div_mod::lemma_fundamental_div_mod(k, w);
        let q = k / w;
        let m = k % w;
        assert(q < h) by (nonlinear_arith)
            requires k == w * q + m, 0 <= m, k < w * h, w > 0;
    }
}

} // verus!
