//! Projection between cells and integer pixel coordinates.
//!
//! A pixel is a pair `(x, y)`. The projection from pixels back to cells is
//! computed in exact rational arithmetic: both fractional coordinates are
//! kept as numerators over one common denominator.

use vstd::prelude::*;
use super::hex::Hex;
use super::hex::fits_i32;
use super::hex::spec_abs;
use vstd::arithmetic::div_mod::lemma_fundamental_div_mod;
use crate::math::lemma_round_div_error;
use crate::math::lemma_trunc_div_exact;
use crate::math::lemma_round_div_near;
use crate::math::round_div;
use crate::math::spec_round_div;
use crate::math::spec_trunc_div;

verus! {

/// Width of a tile of the default view, in pixels.
pub const HEX_WIDTH: i32 = 32;

/// Height of a tile of the default view, in pixels.
pub const HEX_HEIGHT: i32 = 28;

/// Which way the hexagons point.
#[derive(Copy, Clone, Debug, PartialEq, Eq, Structural)]
pub enum HexOrientation {
    Flat,
    Pointy,
}

/// A tile size and orientation, fixing where each cell is drawn.
#[derive(Copy, Clone, Debug, PartialEq, Eq, Structural)]
pub struct HexView {
    pub layout: HexOrientation,
    pub tile_width: i32,
    pub tile_height: i32,
}

/// A pair of fractional axial coordinates `(q / den, r / den)`.
pub struct Fraction {
    pub q: int,
    pub r: int,
    pub den: int,
}

/// The value nearest to `x` that an `i32` can hold.
pub open spec fn spec_clamp_i32(x: int) -> int {
    if x < i32::MIN {
        i32::MIN as int
    } else if x > i32::MAX {
        i32::MAX as int
    } else {
        x
    }
}

/// The cell nearest to the fractional cube point `(q, r, -q - r) / den`.
/// Each coordinate is rounded by itself; the one whose rounding error is
/// largest is then recomputed from the other two, so that the three sum to
/// zero again.
pub open spec fn spec_cube_round(q: int, r: int, den: int) -> (int, int)
    recommends
        den > 0,
{
    let s = -q - r;
    let qi = spec_round_div(q, den);
    let ri = spec_round_div(r, den);
    let si = spec_round_div(s, den);
    let q_error = spec_abs(qi * den - q);
    let r_error = spec_abs(ri * den - r);
    let s_error = spec_abs(si * den - s);
    if q_error > r_error && q_error > s_error {
        (-ri - si, ri)
    } else if r_error > s_error {
        (qi, -qi - si)
    } else {
        (qi, ri)
    }
}

impl HexView {
    /// Horizontal and vertical pixel distance that one unit of the axial
    /// coordinates stands for.
    pub open spec fn spec_scale(&self) -> (int, int) {
        match self.layout {
            HexOrientation::Flat => (
                spec_trunc_div(self.tile_width * 3, 4),
                spec_trunc_div(self.tile_height as int, 2),
            ),
            HexOrientation::Pointy => (
                spec_trunc_div(self.tile_width as int, 2),
                spec_trunc_div(self.tile_height * 3, 4),
            ),
        }
    }

    /// The pixel at which a cell's center is drawn.
    pub open spec fn spec_to_pixel(&self, hex: Hex) -> (int, int) {
        let (w, h) = self.spec_scale();
        match self.layout {
            HexOrientation::Flat => (w * hex.q, h * (hex.r + hex.r + hex.q)),
            HexOrientation::Pointy => (w * (hex.q + hex.q + hex.r), h * hex.r),
        }
    }

    /// The fractional axial coordinates of a pixel, with a positive
    /// denominator. For flat tiles `q = 4x / 3w` and `r = y / h - 2x / 3w`;
    /// for pointy tiles `q = x / w - 2y / 3h` and `r = 4y / 3h`, where `w`
    /// and `h` are the tile's width and height.
    pub open spec fn spec_fraction(&self, x: int, y: int) -> Fraction
        recommends
            self.tile_width != 0,
            self.tile_height != 0,
    {
        let w = self.tile_width as int;
        let h = self.tile_height as int;
        let den = 3 * w * h;
        let (q, r) = match self.layout {
            HexOrientation::Flat => (4 * x * h, 3 * y * w - 2 * x * h),
            HexOrientation::Pointy => (3 * x * h - 2 * y * w, 4 * y * w),
        };
        if den < 0 {
            Fraction { q: -q, r: -r, den: -den }
        } else {
            Fraction { q, r, den }
        }
    }

    /// The cell that a pixel lies in; a coordinate beyond the range of `i32`
    /// is held at the range's end.
    pub open spec fn spec_from_pixel(&self, x: int, y: int) -> Hex
        recommends
            self.tile_width != 0,
            self.tile_height != 0,
    {
        let f = self.spec_fraction(x, y);
        let (q, r) = spec_cube_round(f.q, f.r, f.den);
        Hex { q: spec_clamp_i32(q) as i32, r: spec_clamp_i32(r) as i32 }
    }

    /// Whether the tile size divides evenly into the pixel distances of
    /// `spec_scale`, so that no cell's center is drawn off its true place.
    pub open spec fn spec_tiles_divide_evenly(&self) -> bool {
        &&& self.tile_width != 0
        &&& self.tile_height != 0
        &&& match self.layout {
            HexOrientation::Flat => self.tile_width % 4 == 0 && self.tile_height % 2 == 0,
            HexOrientation::Pointy => self.tile_width % 2 == 0 && self.tile_height % 4 == 0,
        }
    }

    pub fn new(layout: HexOrientation, tile_width: i32, tile_height: i32) -> (view: HexView)
        ensures
            view == (HexView { layout, tile_width, tile_height }),
    {
        HexView { layout, tile_width, tile_height }
    }

    /// The pixel at which a cell's center is drawn, where it is
    /// representable.
    pub fn checked_to_pixel(&self, hex: Hex) -> (pixel: Option<(i32, i32)>)
        ensures
            pixel == (if fits_i32(self.spec_to_pixel(hex).0) && fits_i32(
                self.spec_to_pixel(hex).1,
            ) {
                Some((self.spec_to_pixel(hex).0 as i32, self.spec_to_pixel(hex).1 as i32))
            } else {
                None
            }),
    {
        let q: i128 = hex.q as i128;
        let r: i128 = hex.r as i128;
        let w: i128;
        let h: i128;
        let across: i128;
        let down: i128;
        match self.layout {
            HexOrientation::Flat => {
                w = (self.tile_width as i128 * 3) / 4;
                h = self.tile_height as i128 / 2;
                across = q;
                down = r + r + q;
            },
            HexOrientation::Pointy => {
                w = self.tile_width as i128 / 2;
                h = (self.tile_height as i128 * 3) / 4;
                across = q + q + r;
                down = r;
            },
        }
        assert(-0x1_0000_0000_0000_0000_0000 <= w * across <= 0x1_0000_0000_0000_0000_0000
            && -0x1_0000_0000_0000_0000_0000 <= h * down <= 0x1_0000_0000_0000_0000_0000)
            by (nonlinear_arith)
            requires
                -0x1_0000_0000 <= w <= 0x1_0000_0000,
                -0x1_0000_0000 <= h <= 0x1_0000_0000,
                -0x2_0000_0000 <= across <= 0x2_0000_0000,
                -0x2_0000_0000 <= down <= 0x2_0000_0000,
        ;
        let x: i128 = w * across;
        let y: i128 = h * down;
        if -0x8000_0000 <= x && x <= 0x7fff_ffff && -0x8000_0000 <= y && y <= 0x7fff_ffff {
            Some((x as i32, y as i32))
        } else {
            None
        }
    }

    /// The pixel at which a cell's center is drawn.
    pub fn to_pixel(&self, hex: Hex) -> (pixel: (i32, i32))
        requires
            fits_i32(self.spec_to_pixel(hex).0),
            fits_i32(self.spec_to_pixel(hex).1),
        ensures
            pixel.0 == self.spec_to_pixel(hex).0,
            pixel.1 == self.spec_to_pixel(hex).1,
    {
        match self.checked_to_pixel(hex) {
            Some(pixel) => pixel,
            None => (0, 0),
        }
    }

    /// The cell that a pixel lies in.
    pub fn from_pixel(&self, p: (i32, i32)) -> (hex: Hex)
        requires
            self.tile_width != 0,
            self.tile_height != 0,
        ensures
            hex == self.spec_from_pixel(p.0 as int, p.1 as int),
    {
        let x: i128 = p.0 as i128;
        let y: i128 = p.1 as i128;
        let w: i128 = self.tile_width as i128;
        let h: i128 = self.tile_height as i128;
        assert(-0x4000_0000_0000_0000 <= w * h <= 0x4000_0000_0000_0000
            && -0x4000_0000_0000_0000 <= x * h <= 0x4000_0000_0000_0000
            && -0x4000_0000_0000_0000 <= y * w <= 0x4000_0000_0000_0000 && w * h != 0)
            by (nonlinear_arith)
            requires
                -0x8000_0000 <= w <= 0x8000_0000,
                -0x8000_0000 <= h <= 0x8000_0000,
                -0x8000_0000 <= x <= 0x8000_0000,
                -0x8000_0000 <= y <= 0x8000_0000,
                w != 0,
                h != 0,
        ;
        assert(3 * w * h == 3 * (w * h) && 4 * x * h == 4 * (x * h) && 3 * y * w == 3 * (y * w)
            && 2 * x * h == 2 * (x * h) && 3 * x * h == 3 * (x * h) && 2 * y * w == 2 * (y * w)
            && 4 * y * w == 4 * (y * w)) by (nonlinear_arith);
        let den: i128 = 3 * (w * h);
        let q: i128;
        let r: i128;
        match self.layout {
            HexOrientation::Flat => {
                q = 4 * (x * h);
                r = 3 * (y * w) - 2 * (x * h);
            },
            HexOrientation::Pointy => {
                q = 3 * (x * h) - 2 * (y * w);
                r = 4 * (y * w);
            },
        }
        if den < 0 {
            round(-q, -r, -den)
        } else {
            round(q, r, den)
        }
    }
}

/// The view that the game is drawn with.
pub fn hex_view() -> (view: HexView)
    ensures
        view == (HexView {
            layout: HexOrientation::Flat,
            tile_width: HEX_WIDTH,
            tile_height: HEX_HEIGHT,
        }),
        view.spec_tiles_divide_evenly(),
{
    HexView::new(HexOrientation::Flat, HEX_WIDTH, HEX_HEIGHT)
}

/// The value nearest to `x` that an `i32` can hold.
fn clamp_i32(x: i128) -> (clamped: i32)
    ensures
        clamped == spec_clamp_i32(x as int),
{
    if x < -0x8000_0000 {
        i32::MIN
    } else if x > 0x7fff_ffff {
        i32::MAX
    } else {
        x as i32
    }
}

/// The difference of two wide integers, without its sign.
fn distance_apart(x: i128, y: i128) -> (apart: i128)
    requires
        -0x1_0000_0000_0000_0000_0000 <= x <= 0x1_0000_0000_0000_0000_0000,
        -0x1_0000_0000_0000_0000_0000 <= y <= 0x1_0000_0000_0000_0000_0000,
    ensures
        apart == spec_abs(x - y),
{
    if x < y {
        y - x
    } else {
        x - y
    }
}

/// The cell nearest to the fractional point `(q / den, r / den)`.
pub fn round(q: i128, r: i128, den: i128) -> (hex: Hex)
    requires
        0 < den <= 0x1_0000_0000_0000_0000,
        -0x4_0000_0000_0000_0000 <= q <= 0x4_0000_0000_0000_0000,
        -0x4_0000_0000_0000_0000 <= r <= 0x4_0000_0000_0000_0000,
    ensures
        hex.q == spec_clamp_i32(spec_cube_round(q as int, r as int, den as int).0),
        hex.r == spec_clamp_i32(spec_cube_round(q as int, r as int, den as int).1),
{
    let s: i128 = -q - r;
    let qi: i128 = round_div(q, den);
    let ri: i128 = round_div(r, den);
    let si: i128 = round_div(s, den);
    proof {
        lemma_round_div_error(q as int, den as int);
        lemma_round_div_error(r as int, den as int);
        lemma_round_div_error(s as int, den as int);
    }
    let q_error: i128 = distance_apart(qi * den, q);
    let r_error: i128 = distance_apart(ri * den, r);
    let s_error: i128 = distance_apart(si * den, s);
    if q_error > r_error && q_error > s_error {
        Hex { q: clamp_i32(-ri - si), r: clamp_i32(ri) }
    } else if r_error > s_error {
        Hex { q: clamp_i32(qi), r: clamp_i32(-qi - si) }
    } else {
        Hex { q: clamp_i32(qi), r: clamp_i32(ri) }
    }
}

/// Where the tile size divides evenly, four horizontal units are three tile
/// widths and two vertical units one tile height (for flat tiles; for
/// pointy tiles the two are exchanged).
proof fn lemma_even_scale(view: HexView)
    requires
        view.spec_tiles_divide_evenly(),
    ensures
        view.layout == HexOrientation::Flat ==> 4 * view.spec_scale().0 == 3 * view.tile_width
            && 2 * view.spec_scale().1 == view.tile_height,
        view.layout == HexOrientation::Pointy ==> 2 * view.spec_scale().0 == view.tile_width && 4
            * view.spec_scale().1 == 3 * view.tile_height,
{
    let w = view.tile_width as int;
    let h = view.tile_height as int;
    match view.layout {
        HexOrientation::Flat => {
            lemma_fundamental_div_mod(w, 4);
            lemma_fundamental_div_mod(h, 2);
            lemma_trunc_div_exact(w * 3, 4, 3 * (w / 4));
            lemma_trunc_div_exact(h, 2, h / 2);
        },
        HexOrientation::Pointy => {
            lemma_fundamental_div_mod(w, 2);
            lemma_fundamental_div_mod(h, 4);
            lemma_trunc_div_exact(w, 2, w / 2);
            lemma_trunc_div_exact(h * 3, 4, 3 * (h / 4));
        },
    }
}

/// The pixel of a cell, as a fraction, is the cell itself: both numerators
/// are the cell's coordinates times the denominator.
proof fn lemma_fraction_of_pixel(w: int, h: int, sw: int, sh: int, q: int, r: int, flat: bool)
    requires
        flat ==> 4 * sw == 3 * w && 2 * sh == h,
        !flat ==> 2 * sw == w && 4 * sh == 3 * h,
    ensures
        flat ==> 4 * (sw * q) * h == q * (3 * w * h) && 3 * (sh * (r + r + q)) * w - 2 * (sw * q)
            * h == r * (3 * w * h),
        !flat ==> 4 * (sh * r) * w == r * (3 * w * h) && 3 * (sw * (q + q + r)) * h - 2 * (sh * r)
            * w == q * (3 * w * h),
{
    if flat {
        assert(4 * (sw * q) * h == q * (3 * w * h)) by (nonlinear_arith)
            requires
                4 * sw == 3 * w,
        ;
        assert(3 * (sh * (r + r + q)) * w - 2 * (sw * q) * h == r * (3 * w * h))
            by (nonlinear_arith)
            requires
                4 * sw == 3 * w,
                2 * sh == h,
        ;
    } else {
        assert(4 * (sh * r) * w == r * (3 * w * h)) by (nonlinear_arith)
            requires
                4 * sh == 3 * h,
        ;
        assert(3 * (sw * (q + q + r)) * h - 2 * (sh * r) * w == q * (3 * w * h))
            by (nonlinear_arith)
            requires
                2 * sw == w,
                4 * sh == 3 * h,
        ;
    }
}

/// Projecting a cell to its pixel and back gives the cell again, for every
/// view whose tile size divides evenly and every cell whose pixel is
/// representable.
pub proof fn lemma_pixel_round_trip(view: HexView, hex: Hex)
    requires
        view.spec_tiles_divide_evenly(),
        fits_i32(view.spec_to_pixel(hex).0),
        fits_i32(view.spec_to_pixel(hex).1),
    ensures
        view.spec_from_pixel(view.spec_to_pixel(hex).0, view.spec_to_pixel(hex).1) == hex,
{
    let (x, y) = view.spec_to_pixel(hex);
    let f = view.spec_fraction(x, y);
    let w = view.tile_width as int;
    let h = view.tile_height as int;
    let (sw, sh) = view.spec_scale();
    let q = hex.q as int;
    let r = hex.r as int;
    let den = 3 * w * h;
    let flat = view.layout == HexOrientation::Flat;
    lemma_even_scale(view);
    lemma_fraction_of_pixel(w, h, sw, sh, q, r, flat);
    assert(den != 0) by (nonlinear_arith)
        requires
            w != 0,
            h != 0,
            den == 3 * w * h,
    ;
    assert(f.den > 0 && f.q == q * f.den && f.r == r * f.den) by {
        if den < 0 {
            assert(-(q * den) == q * (-den) && -(r * den) == r * (-den)) by (nonlinear_arith);
        }
    }
    lemma_exact_cube_round(q, r, f.den);
}

/// A point that is a cell rounds to that cell.
proof fn lemma_exact_cube_round(q: int, r: int, den: int)
    requires
        den > 0,
    ensures
        spec_cube_round(q * den, r * den, den) == (q, r),
{
    let s = -q - r;
    assert(-(q * den) - r * den == s * den) by (nonlinear_arith)
        requires
            s == -q - r,
    ;
    lemma_round_div_near(q * den, den, q);
    lemma_round_div_near(r * den, den, r);
    lemma_round_div_near(s * den, den, s);
}

} // verus!
