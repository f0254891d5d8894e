//! The window rectangle, the camera and the map from pixels to the world.

use vstd::prelude::*;
use crate::fixed::{fmul, in_range, multiply, narrow, LIMIT};

verus! {

/// A point or a displacement in the plane.
#[derive(Clone, Copy, Debug, PartialEq, Eq, Structural)]
pub struct Vector {
    pub x: i64,
    pub y: i64,
}

impl Vector {
    /// Both coordinates are storable.
    pub open spec fn wf(self) -> bool {
        in_range(self.x as int) && in_range(self.y as int)
    }

    /// The square of the distance to `other`.
    pub open spec fn dist2(self, other: Vector) -> int {
        (other.x - self.x) * (other.x - self.x) + (other.y - self.y) * (other.y - self.y)
    }

    /// Builds a vector where both coordinates are storable.
    pub fn new(x: i64, y: i64) -> (r: Option<Vector>)
        ensures
            r == (if in_range(x as int) && in_range(y as int) {
                Some(Vector { x, y })
            } else {
                None
            }),
    {
        if -LIMIT <= x && x <= LIMIT && -LIMIT <= y && y <= LIMIT {
            Some(Vector { x, y })
        } else {
            None
        }
    }

    /// Computes the square of the distance to `other`.
    pub fn distance_squared(&self, other: &Vector) -> (d: i128)
        requires
            self.wf(),
            other.wf(),
        ensures
            d == self.dist2(*other),
            0 <= d <= 8 * LIMIT * LIMIT,
    {
        let dx: i128 = other.x as i128 - self.x as i128;
        let dy: i128 = other.y as i128 - self.y as i128;
        proof {
            crate::fixed::lemma_product_bound(dx as int, dx as int, 2 * LIMIT, 2 * LIMIT);
            crate::fixed::lemma_product_bound(dy as int, dy as int, 2 * LIMIT, 2 * LIMIT);
            assert(dx * dx >= 0) by (nonlinear_arith);
            assert(dy * dy >= 0) by (nonlinear_arith);
        }
        dx * dx + dy * dy
    }
}

/// The window: bubbles live in `[-width/2, width/2] x [-height/2, height/2]`.
#[derive(Clone, Copy, Debug, PartialEq, Eq, Structural)]
pub struct Window {
    pub width: i64,
    pub height: i64,
}

impl Window {
    /// Both half extents are positive and storable.
    pub open spec fn wf(self) -> bool {
        2 <= self.width <= LIMIT && 2 <= self.height <= LIMIT
    }

    /// Half of the width: the right wall.
    pub open spec fn half_width(self) -> int {
        self.width / 2
    }

    /// Half of the height: the top wall.
    pub open spec fn half_height(self) -> int {
        self.height / 2
    }

    /// Builds a window where both half extents are positive and storable.
    pub fn new(width: i64, height: i64) -> (r: Option<Window>)
        ensures
            r == (if (Window { width, height }).wf() {
                Some(Window { width, height })
            } else {
                None
            }),
    {
        if 2 <= width && width <= LIMIT && 2 <= height && height <= LIMIT {
            Some(Window { width, height })
        } else {
            None
        }
    }
}

/// The camera: where the window's centre lies in the world, and how many
/// world units one pixel spans on each axis.
#[derive(Clone, Copy, Debug, PartialEq, Eq, Structural)]
pub struct Camera {
    pub translation: Vector,
    pub scale: Vector,
}

/// The world abscissa of pixel column `px`.
pub open spec fn world_x(window: Window, camera: Camera, px: int) -> int {
    camera.translation.x - fmul(window.half_width(), camera.scale.x as int) + fmul(
        px,
        camera.scale.x as int,
    )
}

/// The world ordinate of pixel row `py`; rows grow downward, the world upward.
pub open spec fn world_y(window: Window, camera: Camera, py: int) -> int {
    -(camera.translation.y - fmul(window.half_height(), camera.scale.y as int) + fmul(
        py,
        camera.scale.y as int,
    ))
}

/// The world point under a pixel, where its coordinates are storable.
pub open spec fn world_point(window: Window, camera: Camera, position: Vector) -> Option<Vector> {
    let x = world_x(window, camera, position.x as int);
    let y = world_y(window, camera, position.y as int);
    if in_range(x) && in_range(y) {
        Some(Vector { x: x as i64, y: y as i64 })
    } else {
        None
    }
}

/// Maps a pixel position to world coordinates, where those are storable.
pub fn window_to_world(window: &Window, camera: &Camera, position: &Vector) -> (r: Option<Vector>)
    requires
        window.wf(),
    ensures
        r == world_point(*window, *camera, *position),
        r matches Some(p) ==> p.wf(),
{
    let half_width: i64 = window.width / 2;
    let half_height: i64 = window.height / 2;
    let hx: i128 = multiply(half_width, camera.scale.x);
    let hy: i128 = multiply(half_height, camera.scale.y);
    let ox: i128 = multiply(position.x, camera.scale.x);
    let oy: i128 = multiply(position.y, camera.scale.y);
    proof {
        crate::fixed::lemma_fmul_bound(half_width as int, camera.scale.x as int);
        crate::fixed::lemma_fmul_bound(half_height as int, camera.scale.y as int);
        crate::fixed::lemma_fmul_bound(position.x as int, camera.scale.x as int);
        crate::fixed::lemma_fmul_bound(position.y as int, camera.scale.y as int);
    }
    let left: i128 = camera.translation.x as i128 - hx;
    let bottom: i128 = camera.translation.y as i128 - hy;
    let x = narrow(left + ox);
    let y = narrow(-(bottom + oy));
    match (x, y) {
        (Some(x), Some(y)) => Some(Vector { x, y }),
        _ => None,
    }
}

} // verus!
