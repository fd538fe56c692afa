//! The camera: which part of the world is on screen.
//!
//! The camera is centered on a cell, shifted by a number of pixels. While
//! it is dragged only the shift changes; when the drag ends the whole cells
//! of the shift are moved into the center cell.

use vstd::prelude::*;
use crate::hex::hex::fits_i32;
use crate::hex::hex::Hex;
use crate::hex::view::hex_view;
use crate::hex::view::HexOrientation;
use crate::hex::view::HexView;
use crate::hex::view::HEX_HEIGHT;
use crate::hex::view::HEX_WIDTH;

verus! {

#[derive(Copy, Clone, Debug)]
pub struct Camera {
    /// The cell that the camera is centered on.
    pub center_hex: Hex,
    /// The shift of the center in pixels.
    pub center_pix: (i32, i32),
    /// While the camera is dragged: the pixel of the world that the drag
    /// took hold of.
    pub drag: Option<(i32, i32)>,
}

/// The view that the camera projects with.
pub open spec fn spec_view() -> HexView {
    HexView { layout: HexOrientation::Flat, tile_width: HEX_WIDTH, tile_height: HEX_HEIGHT }
}

/// The pair `(x, y)` as pixel coordinates, where both are representable.
pub open spec fn spec_pixel(x: int, y: int) -> Option<(i32, i32)> {
    if fits_i32(x) && fits_i32(y) {
        Some((x as i32, y as i32))
    } else {
        None
    }
}

/// The pair `(q, r)` as a cell, where both are representable.
pub open spec fn spec_cell(q: int, r: int) -> Option<Hex> {
    if fits_i32(q) && fits_i32(r) {
        Some(Hex { q: q as i32, r: r as i32 })
    } else {
        None
    }
}

impl Camera {
    /// The pixel of the screen at which a cell is drawn: the pixel of its
    /// difference to the center cell, less the shift. Nothing where a step
    /// of this is not representable.
    pub open spec fn spec_to_screen(self, hex: Hex) -> Option<(i32, i32)> {
        match spec_cell(hex.q - self.center_hex.q, hex.r - self.center_hex.r) {
            Some(relative) => {
                let pixel = spec_view().spec_to_pixel(relative);
                match spec_pixel(pixel.0, pixel.1) {
                    Some(_) => spec_pixel(pixel.0 - self.center_pix.0, pixel.1 - self.center_pix.1),
                    None => None,
                }
            },
            None => None,
        }
    }

    /// The cell of the world under a pixel of the screen: the cell of the
    /// pixel plus the shift, plus the center cell. Nothing where a step of
    /// this is not representable.
    pub open spec fn spec_to_world(self, pix: (i32, i32)) -> Option<Hex> {
        match spec_pixel(pix.0 + self.center_pix.0, pix.1 + self.center_pix.1) {
            Some(shifted) => {
                let relative = spec_view().spec_from_pixel(shifted.0 as int, shifted.1 as int);
                spec_cell(relative.q + self.center_hex.q, relative.r + self.center_hex.r)
            },
            None => None,
        }
    }

    /// The camera after the whole cells of its shift have been moved into
    /// its center cell. Nothing where a step of this is not representable.
    pub open spec fn spec_settled(self) -> Option<Camera> {
        let offset_hex = spec_view().spec_from_pixel(
            self.center_pix.0 as int,
            self.center_pix.1 as int,
        );
        let offset_pix = spec_view().spec_to_pixel(offset_hex);
        match (
            spec_cell(self.center_hex.q + offset_hex.q, self.center_hex.r + offset_hex.r),
            spec_pixel(offset_pix.0, offset_pix.1),
            spec_pixel(self.center_pix.0 - offset_pix.0, self.center_pix.1 - offset_pix.1),
        ) {
            (Some(center_hex), Some(_), Some(center_pix)) => Some(
                Camera { center_hex, center_pix, drag: None },
            ),
            _ => None,
        }
    }

    /// The camera after one frame of panning. A camera that is dragged
    /// follows the cursor, and the drag ends when the button is released;
    /// one that is not starts to be dragged when the button is pressed. The
    /// camera stays as it is where a step of this is not representable.
    pub open spec fn spec_pan(self, cursor: (i32, i32), pressed: bool, released: bool) -> Camera {
        match self.drag {
            Some(start) => match spec_pixel(start.0 - cursor.0, start.1 - cursor.1) {
                Some(center_pix) => {
                    let dragged = Camera { center_pix, ..self };
                    if released {
                        match dragged.spec_settled() {
                            Some(settled) => settled,
                            None => self,
                        }
                    } else {
                        dragged
                    }
                },
                None => self,
            },
            None => {
                if pressed {
                    match spec_pixel(cursor.0 + self.center_pix.0, cursor.1 + self.center_pix.1) {
                        Some(start) => Camera { drag: Some(start), ..self },
                        None => self,
                    }
                } else {
                    self
                }
            },
        }
    }

    /// The camera centered on the origin, not shifted and not dragged.
    pub fn new() -> (camera: Camera)
        ensures
            camera == (Camera { center_hex: Hex { q: 0, r: 0 }, center_pix: (0, 0), drag: None }),
    {
        Camera { center_hex: Hex { q: 0, r: 0 }, center_pix: (0, 0), drag: None }
    }

    /// The pixel of the screen at which a cell is drawn.
    pub fn to_screen(&self, hex: Hex) -> (pixel: Option<(i32, i32)>)
        ensures
            pixel == self.spec_to_screen(hex),
    {
        let relative: Hex = match hex.checked_sub(self.center_hex) {
            Some(relative) => relative,
            None => {
                return None;
            },
        };
        match hex_view().checked_to_pixel(relative) {
            Some(pixel) => sum(pixel, (self.center_pix.0, self.center_pix.1), -1),
            None => None,
        }
    }

    /// The cell of the world under a pixel of the screen.
    pub fn to_world(&self, pix: (i32, i32)) -> (hex: Option<Hex>)
        ensures
            hex == self.spec_to_world(pix),
    {
        match sum(pix, self.center_pix, 1) {
            Some(shifted) => hex_view().from_pixel(shifted).checked_add(self.center_hex),
            None => None,
        }
    }

    /// The camera after the whole cells of its shift have been moved into
    /// its center cell.
    fn settled(&self) -> (camera: Option<Camera>)
        ensures
            camera == self.spec_settled(),
    {
        let view: HexView = hex_view();
        let offset_hex: Hex = view.from_pixel(self.center_pix);
        let center_hex: Hex = match self.center_hex.checked_add(offset_hex) {
            Some(center_hex) => center_hex,
            None => {
                return None;
            },
        };
        let offset_pix: (i32, i32) = match view.checked_to_pixel(offset_hex) {
            Some(offset_pix) => offset_pix,
            None => {
                return None;
            },
        };
        match sum(self.center_pix, offset_pix, -1) {
            Some(center_pix) => Some(Camera { center_hex, center_pix, drag: None }),
            None => None,
        }
    }
}

/// The pixel `a + sign * b`, where it is representable.
fn sum(a: (i32, i32), b: (i32, i32), sign: i32) -> (pixel: Option<(i32, i32)>)
    requires
        sign == 1 || sign == -1,
    ensures
        pixel == spec_pixel(a.0 + sign * b.0, a.1 + sign * b.1),
{
    let x: i64 = if sign > 0 {
        a.0 as i64 + b.0 as i64
    } else {
        a.0 as i64 - b.0 as i64
    };
    let y: i64 = if sign > 0 {
        a.1 as i64 + b.1 as i64
    } else {
        a.1 as i64 - b.1 as i64
    };
    assert(x == a.0 + sign * b.0 && y == a.1 + sign * b.1) by (nonlinear_arith)
        requires
            sign == 1 || sign == -1,
            x == (if sign > 0 {
                a.0 + b.0
            } else {
                a.0 - b.0
            }),
            y == (if sign > 0 {
                a.1 + b.1
            } else {
                a.1 - b.1
            }),
    ;
    if -0x8000_0000 <= x && x <= 0x7fff_ffff && -0x8000_0000 <= y && y <= 0x7fff_ffff {
        Some((x as i32, y as i32))
    } else {
        None
    }
}

/// One frame of panning with the mouse: where the cursor is on screen, and
/// whether the button that drags was pressed or released in this frame.
pub fn input_mouse_pan_system(
    camera: &mut Camera,
    cursor_screen: (i32, i32),
    pressed: bool,
    released: bool,
)
    ensures
        *final(camera) == old(camera).spec_pan(cursor_screen, pressed, released),
{
    match camera.drag {
        Some(start) => {
            if let Some(center_pix) = sum(start, cursor_screen, -1) {
                let dragged: Camera = Camera {
                    center_hex: camera.center_hex,
                    center_pix,
                    drag: camera.drag,
                };
                if released {
                    if let Some(settled) = dragged.settled() {
                        *camera = settled;
                    }
                } else {
                    *camera = dragged;
                }
            }
        },
        None => {
            if pressed {
                if let Some(start) = sum(cursor_screen, camera.center_pix, 1) {
                    camera.drag = Some(start);
                }
            }
        },
    }
}

} // verus!
