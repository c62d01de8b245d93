//! Viewports, scissor boxes and the orthographic cameras used for 2D content.

use vstd::prelude::*;

verus! {

/// A rectangle of pixels on a render target; (x, y) is its bottom-left corner.
#[derive(Clone, Copy, Debug, PartialEq, Eq, Structural)]
pub struct Viewport {
    pub x: i32,
    pub y: i32,
    pub width: u32,
    pub height: u32,
}

impl Viewport {
    /// A viewport of the given size whose bottom-left corner is at the origin.
    pub fn new_at_origin(width: u32, height: u32) -> (r: Viewport)
        ensures
            r == (Viewport { x: 0, y: 0, width, height }),
    {
        Viewport { x: 0, y: 0, width, height }
    }
}

/// The part of a render target that a draw may write to.
#[derive(Clone, Copy, Debug, PartialEq, Eq, Structural)]
pub struct ScissorBox {
    pub x: i32,
    pub y: i32,
    pub width: u32,
    pub height: u32,
}

/// A point or a direction in world space, in half-pixel units: each coordinate is twice
/// the world coordinate, so that the center of any viewport is exact.
#[derive(Clone, Copy, Debug, PartialEq, Eq, Structural)]
pub struct HalfPoint3 {
    pub x2: i64,
    pub y2: i64,
    pub z2: i64,
}

/// An orthographic camera.
#[derive(Clone, Copy, Debug, PartialEq, Eq, Structural)]
pub struct OrthoCamera {
    pub viewport: Viewport,
    pub position: HalfPoint3,
    pub target: HalfPoint3,
    pub up: HalfPoint3,
    /// The height of the view volume, in world units.
    pub height: u32,
    pub z_near: u32,
    pub z_far: u32,
}

/// The far plane of every 2D camera.
pub const Z_FAR_2D: u32 = 10;

/// The 2D camera for a viewport, looking down the z axis from `z_sign` (1 or -1) with the
/// y axis up (`up_sign` 1) or down (`up_sign` -1): centered on the viewport, with the view
/// volume as high as the viewport, near plane 0 and far plane 10.
pub open spec fn centered_camera(viewport: Viewport, z_sign: int, up_sign: int) -> OrthoCamera {
    OrthoCamera {
        viewport,
        position: HalfPoint3 {
            x2: viewport.width as i64,
            y2: viewport.height as i64,
            z2: (2 * z_sign) as i64,
        },
        target: HalfPoint3 { x2: viewport.width as i64, y2: viewport.height as i64, z2: 0 },
        up: HalfPoint3 { x2: 0, y2: (2 * up_sign) as i64, z2: 0 },
        height: viewport.height,
        z_near: 0,
        z_far: Z_FAR_2D,
    }
}

pub(crate) fn make_centered_camera(viewport: Viewport, z_sign: i64, up_sign: i64) -> (r: OrthoCamera)
    requires
        z_sign == 1 || z_sign == -1,
        up_sign == 1 || up_sign == -1,
    ensures
        r == centered_camera(viewport, z_sign as int, up_sign as int),
{
    OrthoCamera {
        viewport,
        position: HalfPoint3 {
            x2: viewport.width as i64,
            y2: viewport.height as i64,
            z2: 2 * z_sign,
        },
        target: HalfPoint3 { x2: viewport.width as i64, y2: viewport.height as i64, z2: 0 },
        up: HalfPoint3 { x2: 0, y2: 2 * up_sign, z2: 0 },
        height: viewport.height,
        z_near: 0,
        z_far: Z_FAR_2D,
    }
}

/// An orthographic camera for viewing 2D content. It is placed at the center of the
/// viewport at z = 1, looking towards z = 0 with the y axis up, so that (0, 0) is the
/// bottom-left corner and (width, height) the top-right corner.
pub fn camera2d(viewport: Viewport) -> (r: OrthoCamera)
    ensures
        r == centered_camera(viewport, 1, 1),
{
    make_centered_camera(viewport, 1, 1)
}

} // verus!
