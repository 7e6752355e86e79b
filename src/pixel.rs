use vstd::prelude::*;

verus! {

/// An image pixel color, represented as RGBA.
#[derive(Debug, Clone, Copy, PartialEq, Eq, Hash, Default, Structural)]
pub struct Pixel {
    /// Red channel
    pub r: u8,
    /// Green channel
    pub g: u8,
    /// Blue channel
    pub b: u8,
    /// Alpha channel
    pub a: u8,
}

/// Background color that translucent pixels are composited against.
///
/// An alpha value of 0 gives exactly the background color, an alpha value
/// of 255 gives the unmodified pixel color; values in between blend.
#[derive(Debug, Clone, Copy, PartialEq, Eq, Hash, Default, Structural)]
pub struct BgColor {
    /// Red channel
    pub r: u8,
    /// Green channel
    pub g: u8,
    /// Blue channel
    pub b: u8,
}

/// An opaque display color.
#[derive(Debug, Clone, Copy, PartialEq, Eq, Hash, Structural)]
pub struct Rgb {
    pub r: u8,
    pub g: u8,
    pub b: u8,
}

/// The composited value of one channel: `(v * a + bg * (255 - a)) / 255`.
pub open spec fn blend_spec(v: u8, bg: u8, alpha: u8) -> u8 {
    ((v as int * alpha as int + bg as int * (255 - alpha as int)) / 255) as u8
}

/// The opaque color of `p` drawn over `bg`.
pub open spec fn on_spec(p: Pixel, bg: BgColor) -> Rgb {
    Rgb { r: blend_spec(p.r, bg.r, p.a), g: blend_spec(p.g, bg.g, p.a), b: blend_spec(p.b, bg.b, p.a) }
}

proof fn lemma_blend_bounded(v: u8, bg: u8, alpha: u8)
    ensures
        0 <= v as int * alpha as int + bg as int * (255 - alpha as int) <= 255 * 255,
{
    assert(0 <= v as int * alpha as int <= 255 * alpha as int) by (nonlinear_arith)
        requires v <= 255;
    assert(0 <= bg as int * (255 - alpha as int) <= 255 * (255 - alpha as int)) by (nonlinear_arith)
        requires bg <= 255, alpha <= 255;
}

/// Composites one channel value over a background value according to `alpha`,
/// in 16-bit arithmetic.
pub fn blend(val: u8, bg: u8, alpha: u8) -> (r: u8)
    ensures
        r == blend_spec(val, bg, alpha),
{
    proof {
        lemma_blend_bounded(val, bg, alpha);
    }
    (((val as u16 * alpha as u16) + (bg as u16 * (255 - alpha) as u16)) / 255) as u8
}

impl Pixel {
    /// Converts the pixel to an opaque color by blending it with `bg`
    /// according to its alpha channel.
    pub fn on(&self, bg: BgColor) -> (r: Rgb)
        ensures
            r == on_spec(*self, bg),
    {
        Rgb { r: blend(self.r, bg.r, self.a), g: blend(self.g, bg.g, self.a), b: blend(self.b, bg.b, self.a) }
    }
}

impl BgColor {
    /// The background as an opaque display color.
    pub fn to_rgb(&self) -> (r: Rgb)
        ensures
            r == (Rgb { r: self.r, g: self.g, b: self.b }),
    {
        Rgb { r: self.r, g: self.g, b: self.b }
    }
}

/// A fully opaque pixel shows its own color whatever the background, and a
/// fully transparent one shows the background.
pub proof fn lemma_blend_extremes(v: u8, bg: u8)
    ensures
        blend_spec(v, bg, 255) == v,
        blend_spec(v, bg, 0) == bg,
{
}

/// For a fixed pair of channel values, more alpha moves the result towards
/// the pixel's value: up when `v >= bg`, down when `v <= bg`.
pub proof fn lemma_blend_monotonic(v: u8, bg: u8, a1: u8, a2: u8)
    requires
        a1 <= a2,
    ensures
        v >= bg ==> blend_spec(v, bg, a1) <= blend_spec(v, bg, a2),
        v <= bg ==> blend_spec(v, bg, a1) >= blend_spec(v, bg, a2),
{
    lemma_blend_bounded(v, bg, a1);
    lemma_blend_bounded(v, bg, a2);
    let s1 = v as int * a1 as int + bg as int * (255 - a1 as int);
    let s2 = v as int * a2 as int + bg as int * (255 - a2 as int);
    assert(s2 - s1 == (v as int - bg as int) * (a2 as int - a1 as int)) by (nonlinear_arith)
        requires
            s1 == v as int * a1 as int + bg as int * (255 - a1 as int),
            s2 == v as int * a2 as int + bg as int * (255 - a2 as int);
    if v >= bg {
        assert((v as int - bg as int) * (a2 as int - a1 as int) >= 0) by (nonlinear_arith)
            requires v >= bg, a1 <= a2;
        vstd::arithmetic::div_mod::lemma_div_is_ordered(s1, s2, 255);
    }
    if v <= bg {
        assert((v as int - bg as int) * (a2 as int - a1 as int) <= 0) by (nonlinear_arith)
            requires v <= bg, a1 <= a2;
        vstd::arithmetic::div_mod::lemma_div_is_ordered(s2, s1, 255);
    }
}

} // verus!
