use vstd::prelude::*;
use crate::pixel::Pixel;

verus! {

/// A single frame image: a row-major buffer of RGBA pixels.
#[derive(Debug, Clone, PartialEq, Eq, Hash)]
pub struct Image {
    pixels: Vec<Pixel>,
    width: usize,
    height: usize,
}

/// The channel layout of a buffer of decoded samples.
#[derive(Debug, Clone, Copy, PartialEq, Eq, Hash, Structural)]
pub enum SampleLayout {
    /// One luminance sample per pixel
    Gray,
    /// Luminance then alpha
    GrayAlpha,
    /// Red, green, blue
    Rgb,
    /// Red, green, blue, alpha
    Rgba,
}

/// The solid black pixel.
pub open spec fn black() -> Pixel {
    Pixel { r: 0, g: 0, b: 0, a: 255 }
}

/// The number of samples that make up one pixel.
pub open spec fn channels_spec(l: SampleLayout) -> nat {
    match l {
        SampleLayout::Gray => 1,
        SampleLayout::GrayAlpha => 2,
        SampleLayout::Rgb => 3,
        SampleLayout::Rgba => 4,
    }
}

/// The pixel whose samples start at `base` in `s`.
pub open spec fn pixel_of(l: SampleLayout, s: Seq<u8>, base: int) -> Pixel {
    match l {
        SampleLayout::Gray => Pixel { r: s[base], g: s[base], b: s[base], a: 255 },
        SampleLayout::GrayAlpha => Pixel { r: s[base], g: s[base], b: s[base], a: s[base + 1] },
        SampleLayout::Rgb => Pixel { r: s[base], g: s[base + 1], b: s[base + 2], a: 255 },
        SampleLayout::Rgba => Pixel { r: s[base], g: s[base + 1], b: s[base + 2], a: s[base + 3] },
    }
}

/// The `n` pixels that a buffer of samples in layout `l` holds.
pub open spec fn pixels_of(l: SampleLayout, s: Seq<u8>, n: nat) -> Seq<Pixel> {
    Seq::new(n, |i: int| pixel_of(l, s, i * channels_spec(l)))
}

/// The most significant byte of a 16-bit sample.
pub open spec fn high_byte_spec(v: u16) -> u8 {
    (v / 256) as u8
}

/// Each 16-bit sample narrowed to its most significant byte.
pub open spec fn narrowed(s: Seq<u16>) -> Seq<u8> {
    Seq::new(s.len(), |i: int| high_byte_spec(s[i]))
}

impl SampleLayout {
    /// The number of samples that make up one pixel.
    pub fn channels(&self) -> (r: usize)
        ensures
            r == channels_spec(*self),
    {
        match self {
            SampleLayout::Gray => 1,
            SampleLayout::GrayAlpha => 2,
            SampleLayout::Rgb => 3,
            SampleLayout::Rgba => 4,
        }
    }
}

/// Narrows a 16-bit sample to 8 bits by keeping its most significant byte.
pub fn high_byte(v: u16) -> (r: u8)
    ensures
        r == high_byte_spec(v),
{
    assert((v >> 8u16) as u8 == (v / 256) as u8) by (bit_vector);
    (v >> 8) as u8
}

impl Image {
    /// The pixels, row by row from the top-left one.
    pub closed spec fn pixels_spec(&self) -> Seq<Pixel> {
        self.pixels@
    }

    pub closed spec fn width_spec(&self) -> usize {
        self.width
    }

    pub closed spec fn height_spec(&self) -> usize {
        self.height
    }

    /// The buffer holds exactly one pixel per coordinate.
    pub open spec fn wf(&self) -> bool {
        self.pixels_spec().len() == self.width_spec() * self.height_spec()
    }

    /// The pixel at `(x, y)`, or none outside the image.
    pub open spec fn pixel_at(&self, x: int, y: int) -> Option<Pixel> {
        if 0 <= x < self.width_spec() && 0 <= y < self.height_spec() {
            Some(self.pixels_spec()[y * self.width_spec() + x])
        } else {
            None
        }
    }

    /// Creates an image of the given size with every pixel solid black.
    pub fn with_size(width: usize, height: usize) -> (r: Image)
        requires
            width * height <= usize::MAX,
        ensures
            r.wf(),
            r.width_spec() == width,
            r.height_spec() == height,
            r.pixels_spec() == Seq::new((width * height) as nat, |i: int| black()),
    {
        let n: usize = width * height;
        let mut pixels: Vec<Pixel> = Vec::new();
        let mut i: usize = 0;
        while i < n
            invariant
                i <= n,
                pixels@ == Seq::new(i as nat, |k: int| black()),
            decreases n - i,
        {
            pixels.push(Pixel { r: 0, g: 0, b: 0, a: 255 });
            i = i + 1;
            assert(pixels@ =~= Seq::new(i as nat, |k: int| black()));
        }
        Image { pixels, width, height }
    }

    /// Builds an image from decoded 8-bit samples in the given layout.
    /// None when the buffer does not hold `width * height` pixels exactly.
    pub fn from_samples8(layout: SampleLayout, width: usize, height: usize, data: &Vec<u8>) -> (r:
        Option<Image>)
        ensures
            r is Some <==> width * height * channels_spec(layout) == data@.len(),
            r matches Some(img) ==> img.wf() && img.width_spec() == width && img.height_spec()
                == height && img.pixels_spec() == pixels_of(layout, data@, (width * height) as nat),
    {
        let c = layout.channels();
        let len = data.len();
        let n = match width.checked_mul(height) {
            Some(n) => n,
            None => {
                proof {
                    assert(width * height * c >= width * height) by (nonlinear_arith)
                        requires c >= 1;
                }
                return None;
            },
        };
        match n.checked_mul(c) {
            Some(total) => {
                if total != len {
                    return None;
                }
            },
            None => {
                return None;
            },
        }
        let mut pixels: Vec<Pixel> = Vec::new();
        let mut i: usize = 0;
        while i < n
            invariant
                i <= n,
                n * c == data@.len(),
                data@.len() <= usize::MAX,
                c == channels_spec(layout),
                pixels@ == pixels_of(layout, data@, i as nat),
            decreases n - i,
        {
            proof {
                assert(i * c + c <= n * c) by (nonlinear_arith)
                    requires i < n, 0 <= c;
            }
            let base = i * c;
            let p = match layout {
                SampleLayout::Gray => Pixel { r: data[base], g: data[base], b: data[base], a: 255 },
                SampleLayout::GrayAlpha => Pixel {
                    r: data[base],
                    g: data[base],
                    b: data[base],
                    a: data[base + 1],
                },
                SampleLayout::Rgb => Pixel { r: data[base], g: data[base + 1], b: data[base + 2], a: 255 },
                SampleLayout::Rgba => Pixel {
                    r: data[base],
                    g: data[base + 1],
                    b: data[base + 2],
                    a: data[base + 3],
                },
            };
            pixels.push(p);
            i = i + 1;
            assert(pixels@ =~= pixels_of(layout, data@, i as nat));
        }
        Some(Image { pixels, width, height })
    }

    /// Builds an image from decoded 16-bit samples in the given layout, each
    /// sample narrowed to its most significant byte. None when the buffer does
    /// not hold `width * height` pixels exactly.
    pub fn from_samples16(layout: SampleLayout, width: usize, height: usize, data: &Vec<u16>) -> (r:
        Option<Image>)
        ensures
            r is Some <==> width * height * channels_spec(layout) == data@.len(),
            r matches Some(img) ==> img.wf() && img.width_spec() == width && img.height_spec()
                == height && img.pixels_spec() == pixels_of(
                layout,
                narrowed(data@),
                (width * height) as nat,
            ),
    {
        let mut bytes: Vec<u8> = Vec::new();
        let mut i: usize = 0;
        while i < data.len()
            invariant
                i <= data@.len(),
                bytes@ == narrowed(data@.take(i as int)),
            decreases data@.len() - i,
        {
            bytes.push(high_byte(data[i]));
            i = i + 1;
            assert(bytes@ =~= narrowed(data@.take(i as int)));
        }
        assert(data@.take(data@.len() as int) =~= data@);
        Self::from_samples8(layout, width, height, &bytes)
    }

    /// The width of the image, in pixels
    pub fn width(&self) -> (r: usize)
        ensures
            r == self.width_spec(),
    {
        self.width
    }

    /// The height of the image, in pixels
    pub fn height(&self) -> (r: usize)
        ensures
            r == self.height_spec(),
    {
        self.height
    }

    /// The width of the image, in terminal cells
    pub fn cell_width(&self) -> (r: usize)
        ensures
            r == self.width_spec(),
    {
        self.width
    }

    /// The height of the image, in terminal cells, rounded up
    pub fn cell_height(&self) -> (r: usize)
        ensures
            r == (self.height_spec() + 1) / 2,
    {
        self.height / 2 + self.height % 2
    }

    /// The pixels of the image, row by row from the top-left one.
    pub fn pixels(&self) -> (r: &[Pixel])
        ensures
            r@ == self.pixels_spec(),
    {
        self.pixels.as_slice()
    }

    /// Mutable access to the pixels of the image, row by row from the top-left one.
    pub fn pixels_mut(&mut self) -> (r: &mut [Pixel])
        ensures
            r@ == old(self).pixels_spec(),
            final(self).pixels_spec() == final(r)@,
            final(self).width_spec() == old(self).width_spec(),
            final(self).height_spec() == old(self).height_spec(),
    {
        self.pixels.as_mut_slice()
    }

    proof fn lemma_index_in_bounds(&self, x: usize, y: usize)
        requires
            self.wf(),
            x < self.width_spec(),
            y < self.height_spec(),
        ensures
            y * self.width_spec() + x < self.pixels_spec().len(),
    {
        let w = self.width_spec();
        let h = self.height_spec();
        assert(y * w + x < w * h) by (nonlinear_arith)
            requires x < w, y < h;
    }

    /// The pixel at the given coordinates, or None out of bounds.
    pub fn pixel(&self, x: usize, y: usize) -> (r: Option<&Pixel>)
        requires
            self.wf(),
        ensures
            (r is Some) == (self.pixel_at(x as int, y as int) is Some),
            r matches Some(p) ==> *p == self.pixel_at(x as int, y as int)->0,
    {
        if x >= self.width || y >= self.height {
            None
        } else {
            let _n = self.pixels.len();
            proof {
                self.lemma_index_in_bounds(x, y);
            }
            Some(&self.pixels[(y * self.width) + x])
        }
    }

    /// Mutable access to the pixel at the given coordinates, or None out of bounds.
    pub fn pixel_mut(&mut self, x: usize, y: usize) -> (r: Option<&mut Pixel>)
        requires
            old(self).wf(),
        ensures
            (r is Some) == (old(self).pixel_at(x as int, y as int) is Some),
            r is None ==> *final(self) == *old(self),
            r matches Some(p) ==> *p == old(self).pixel_at(x as int, y as int)->0
                && final(self).width_spec() == old(self).width_spec()
                && final(self).height_spec() == old(self).height_spec()
                && final(self).pixels_spec() == old(self).pixels_spec().update(
                y * old(self).width_spec() + x,
                *final(p),
            ),
    {
        if x >= self.width || y >= self.height {
            None
        } else {
            let _n = self.pixels.len();
            proof {
                self.lemma_index_in_bounds(x, y);
            }
            let w = self.width;
            Some(&mut self.pixels[(y * w) + x])
        }
    }
}

impl Default for Image {
    /// The empty image, zero pixels wide and high.
    fn default() -> (r: Image)
        ensures
            r.wf(),
            r.width_spec() == 0,
            r.height_spec() == 0,
    {
        Image { pixels: Vec::new(), width: 0, height: 0 }
    }
}

/// Every coordinate inside an image holds a pixel, and none outside it does.
pub proof fn lemma_pixel_presence(img: Image, x: int, y: int)
    requires
        img.wf(),
    ensures
        (img.pixel_at(x, y) is Some) <==> (0 <= x < img.width_spec() && 0 <= y < img.height_spec()),
        (0 <= x < img.width_spec() && 0 <= y < img.height_spec()) ==> y * img.width_spec() + x
            < img.pixels_spec().len(),
{
    if 0 <= x < img.width_spec() && 0 <= y < img.height_spec() {
        let w = img.width_spec();
        let h = img.height_spec();
        assert(y * w + x < w * h) by (nonlinear_arith)
            requires 0 <= x < w, 0 <= y < h;
    }
}

} // verus!
