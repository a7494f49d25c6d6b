//! The glow overlay: its style, and the bookkeeping of the band it shows.
use vstd::prelude::*;

use crate::geometry::Rect;

verus! {

/// How the glow looks. `color` is `0x00BBGGRR`.
#[derive(Clone, Copy, Debug, PartialEq, Eq, Structural)]
pub struct OverlayStyle {
    pub color: u32,
    pub width: i32,
    pub intensity: u8,
    pub duration_ms: u32,
}

/// How hard the overlay works to animate.
#[derive(Clone, Copy, Debug, PartialEq, Eq, Structural)]
pub enum OverlayOptimizationMode {
    Smooth,
    Efficient,
}

/// The red, green and blue channels of a `0x00BBGGRR` color.
pub open spec fn red(color: u32) -> nat {
    (color as nat) % 256
}

pub open spec fn green(color: u32) -> nat {
    ((color as nat) / 256) % 256
}

pub open spec fn blue(color: u32) -> nat {
    ((color as nat) / 65536) % 256
}

/// The red, green and blue channels of a `0x00BBGGRR` color.
pub fn color_channels(color: u32) -> (rgb: (u8, u8, u8))
    ensures
        rgb.0 as nat == red(color),
        rgb.1 as nat == green(color),
        rgb.2 as nat == blue(color),
{
    ((color % 256) as u8, ((color / 256) % 256) as u8, ((color / 65536) % 256) as u8)
}

/// What to do with the drawing surface before painting a band of a size.
#[derive(Clone, Copy, Debug, PartialEq, Eq, Structural)]
pub enum SurfacePlan {
    /// The size is not positive: nothing can be drawn.
    Invalid,
    /// The current surface has the size already.
    Reuse,
    /// Release the current surface, if any, and create one of the size.
    Recreate,
}

/// The overlay's state: the band it shows, whether it is showing, its
/// style, and the size of its drawing surface (zero when there is none).
#[derive(Clone, Copy, Debug, PartialEq, Eq, Structural)]
pub struct OverlayState {
    pub band_rect: Rect,
    pub vertical: bool,
    pub visible: bool,
    pub style: OverlayStyle,
    pub surface_w: i32,
    pub surface_h: i32,
}

pub open spec fn spec_initial_style() -> OverlayStyle {
    OverlayStyle { color: 0x0028_30FF, width: 48, intensity: 220, duration_ms: 220 }
}

impl OverlayState {
    /// A hidden overlay with no surface and its initial style.
    pub fn new() -> (o: OverlayState)
        ensures
            o.band_rect == Rect::spec_zero(),
            o.vertical,
            !o.visible,
            o.style == spec_initial_style(),
            o.surface_w == 0,
            o.surface_h == 0,
    {
        OverlayState {
            band_rect: Rect::zero(),
            vertical: true,
            visible: false,
            style: OverlayStyle { color: 0x0028_30FF, width: 48, intensity: 220, duration_ms: 220 },
            surface_w: 0,
            surface_h: 0,
        }
    }

    /// Starts showing `band`; returns where the window goes, as `(x, y,
    /// width, height)`. The band's width and height must be representable.
    pub fn show_band(&mut self, band: Rect, vertical: bool) -> (placement: (i32, i32, i32, i32))
        requires
            i32::MIN <= band.right - band.left <= i32::MAX,
            i32::MIN <= band.bottom - band.top <= i32::MAX,
        ensures
            final(self).band_rect == band,
            final(self).vertical == vertical,
            final(self).visible,
            final(self).style == old(self).style,
            final(self).surface_w == old(self).surface_w,
            final(self).surface_h == old(self).surface_h,
            placement == (band.left, band.top, (band.right - band.left) as i32, (band.bottom
                - band.top) as i32),
    {
        self.band_rect = band;
        self.vertical = vertical;
        self.visible = true;
        (band.left, band.top, band.right - band.left, band.bottom - band.top)
    }

    /// Takes a new style; returns whether the band must be drawn again
    /// (when it is showing).
    pub fn update_style(&mut self, style: OverlayStyle) -> (repaint: bool)
        ensures
            *final(self) == (OverlayState { style, ..*old(self) }),
            repaint == old(self).visible,
    {
        self.style = style;
        self.visible
    }

    /// Stops showing the band.
    pub fn hide_band(&mut self)
        ensures
            *final(self) == (OverlayState { visible: false, ..*old(self) }),
    {
        self.visible = false;
    }

    /// What to do with the surface before drawing `width` by `height`
    /// pixels, given whether a surface exists.
    pub fn surface_plan(&self, width: i32, height: i32, has_surface: bool) -> (plan: SurfacePlan)
        ensures
            plan == (if width <= 0 || height <= 0 {
                SurfacePlan::Invalid
            } else if width == self.surface_w && height == self.surface_h && has_surface {
                SurfacePlan::Reuse
            } else {
                SurfacePlan::Recreate
            }),
    {
        if width <= 0 || height <= 0 {
            SurfacePlan::Invalid
        } else if width == self.surface_w && height == self.surface_h && has_surface {
            SurfacePlan::Reuse
        } else {
            SurfacePlan::Recreate
        }
    }

    /// Records the size of a newly created surface.
    pub fn surface_created(&mut self, width: i32, height: i32)
        ensures
            *final(self) == (OverlayState { surface_w: width, surface_h: height, ..*old(self) }),
    {
        self.surface_w = width;
        self.surface_h = height;
    }

    /// Records that the surface was released.
    pub fn surface_released(&mut self)
        ensures
            *final(self) == (OverlayState { surface_w: 0, surface_h: 0, ..*old(self) }),
    {
        self.surface_w = 0;
        self.surface_h = 0;
    }
}

/// The three channels are the low three bytes of the color.
pub proof fn lemma_channels_compose(color: u32)
    ensures
        red(color) < 256 && green(color) < 256 && blue(color) < 256,
        red(color) + 256 * green(color) + 65536 * blue(color) == (color as nat) % 0x100_0000,
{
    let c = color as nat;
    assert(c == (c / 256) * 256 + c % 256);
    assert(c / 256 == (c / 65536) * 256 + (c / 256) % 256) by {
        assert(c / 65536 == (c / 256) / 256);
    }
    assert(c / 65536 == (c / 0x100_0000) * 256 + (c / 65536) % 256) by {
        assert(c / 0x100_0000 == (c / 65536) / 256);
    }
    assert(c == (c / 0x100_0000) * 0x100_0000 + c % 0x100_0000);
}

} // verus!
