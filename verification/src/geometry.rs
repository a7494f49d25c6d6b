//! Screen geometry: rectangles, points and the integer helpers that place the
//! boundary glow.
use vstd::prelude::*;

verus! {

/// An axis-aligned rectangle in virtual-screen pixels; `right` and `bottom`
/// are exclusive.
#[derive(Clone, Copy, Debug, PartialEq, Eq, Structural)]
pub struct Rect {
    pub left: i32,
    pub top: i32,
    pub right: i32,
    pub bottom: i32,
}

/// A point in virtual-screen pixels.
#[derive(Clone, Copy, Debug, PartialEq, Eq, Structural)]
pub struct Point {
    pub x: i32,
    pub y: i32,
}

impl Rect {
    /// The all-zero rectangle (what a missing monitor rectangle defaults to).
    pub fn zero() -> (r: Rect)
        ensures
            r == Rect::spec_zero(),
    {
        Rect { left: 0, top: 0, right: 0, bottom: 0 }
    }

    pub open spec fn spec_zero() -> Rect {
        Rect { left: 0, top: 0, right: 0, bottom: 0 }
    }

    /// A rectangle is empty when it has no width or no height.
    pub open spec fn spec_is_empty(self) -> bool {
        self.right <= self.left || self.bottom <= self.top
    }

    pub fn is_empty(&self) -> (b: bool)
        ensures
            b == self.spec_is_empty(),
    {
        self.right <= self.left || self.bottom <= self.top
    }

    /// `self` lies inside `outer`.
    pub open spec fn within(self, outer: Rect) -> bool {
        &&& outer.left <= self.left
        &&& outer.top <= self.top
        &&& self.right <= outer.right
        &&& self.bottom <= outer.bottom
    }
}

pub open spec fn min_int(a: int, b: int) -> int {
    if a <= b {
        a
    } else {
        b
    }
}

pub open spec fn max_int(a: int, b: int) -> int {
    if a >= b {
        a
    } else {
        b
    }
}

pub open spec fn abs_int(a: int) -> int {
    if a < 0 {
        -a
    } else {
        a
    }
}

/// `a / 2` rounded toward zero, as integer division does on machine integers.
pub open spec fn trunc_half(a: int) -> int {
    if a >= 0 {
        a / 2
    } else {
        -((-a) / 2)
    }
}

/// `x` clamped to `[lo, hi]` (meaningful when `lo <= hi`).
pub open spec fn clamp_int(x: int, lo: int, hi: int) -> int {
    if x < lo {
        lo
    } else if x > hi {
        hi
    } else {
        x
    }
}

/// The lowest and highest centre that keeps a segment of length `span`
/// inside `[start, end]`; when the segment is longer than the range the two
/// meet in the middle of the range.
pub open spec fn center_bounds(start: int, end: int, span: int) -> (int, int) {
    let reach = min_int(trunc_half(span), trunc_half(end - start));
    (start + reach, end - reach)
}

pub open spec fn spec_clamp_center(center: int, start: int, end: int, span: int) -> int {
    clamp_int(center, center_bounds(start, end, span).0, center_bounds(start, end, span).1)
}

/// Moves `center` so that a segment of length `span` centred on it stays
/// inside `[start, end]`.
///
/// The bounds are computed without overflow; the only inputs left out are
/// those on which the lower bound exceeds the upper one, where clamping
/// panics.
pub fn clamp_center(center: i32, start: i32, end: i32, span: i32) -> (c: i32)
    requires
        center_bounds(start as int, end as int, span as int).0 <= center_bounds(
            start as int,
            end as int,
            span as int,
        ).1,
    ensures
        c == spec_clamp_center(center as int, start as int, end as int, span as int),
        center_bounds(start as int, end as int, span as int).0 <= c <= center_bounds(
            start as int,
            end as int,
            span as int,
        ).1,
        0 <= span && start <= end ==> start <= c <= end,
{
    let half: i64 = (span as i64) / 2;
    let room: i64 = (end as i64 - start as i64) / 2;
    let reach: i64 = if half <= room {
        half
    } else {
        room
    };
    let min_center: i64 = start as i64 + reach;
    let max_center: i64 = end as i64 - reach;
    let c: i64 = center as i64;
    let r: i64 = if c < min_center {
        min_center
    } else if c > max_center {
        max_center
    } else {
        c
    };
    proof {
        if c < min_center {
            // the lower bound is above a value of i32 and at most `end`, or at most `start`
            if reach > 0 {
                assert(reach <= room);
            }
        }
        if c > max_center {
            if reach >= 0 {
                assert(reach <= room);
            }
        }
    }
    r as i32
}

/// Which side of the previous monitor the cursor left by, as the glow's axis
/// and the coordinate of the boundary line.
///
/// Among the sides the cursor is outside of, checked left, right, top,
/// bottom, the one it is farthest beyond wins, an earlier side keeping a tie.
/// When the cursor is outside of none, the axis is the one along which the
/// monitor centres lie farther apart (horizontal on a tie). A vertical
/// boundary sits at the previous monitor's left edge when the cursor is left
/// of it and at its right edge otherwise; a horizontal one at its top edge
/// when the cursor is above it and at its bottom edge otherwise.
pub open spec fn boundary_axis(previous: Rect, current: Rect, cursor: Point) -> (bool, int) {
    let exited_left = cursor.x < previous.left;
    let exited_right = cursor.x >= previous.right;
    let exited_top = cursor.y < previous.top;
    let exited_bottom = cursor.y >= previous.bottom;
    let dx_left = previous.left - cursor.x;
    let dx_right = cursor.x - (previous.right - 1);
    let dy_top = previous.top - cursor.y;
    let dy_bottom = cursor.y - (previous.bottom - 1);
    let (axis1, mag1) = if exited_left {
        (1int, max_int(-1, dx_left))
    } else {
        (0int, -1int)
    };
    let (axis2, mag2) = if exited_right && dx_right > mag1 {
        (1int, dx_right)
    } else {
        (axis1, mag1)
    };
    let (axis3, mag3) = if exited_top && dy_top > mag2 {
        (2int, dy_top)
    } else {
        (axis2, mag2)
    };
    let axis4 = if exited_bottom && dy_bottom > mag3 {
        2int
    } else {
        axis3
    };
    let axis = if axis4 == 0 {
        let dcx = trunc_half(current.left + current.right) - trunc_half(previous.left + previous.right);
        let dcy = trunc_half(current.top + current.bottom) - trunc_half(previous.top + previous.bottom);
        if abs_int(dcx) >= abs_int(dcy) {
            1int
        } else {
            2int
        }
    } else {
        axis4
    };
    if axis == 1 {
        (true, if exited_left { previous.left as int } else { previous.right as int })
    } else {
        (false, if exited_top { previous.top as int } else { previous.bottom as int })
    }
}

fn abs_i64(a: i64) -> (r: i64)
    requires
        a > i64::MIN,
    ensures
        r == abs_int(a as int),
{
    if a < 0 {
        -a
    } else {
        a
    }
}

/// Decides the orientation of the boundary the cursor crossed and where it
/// lies (see `boundary_axis`). Distances are computed without overflow.
pub fn pick_boundary_axis(previous: Rect, current: Rect, cursor: Point) -> (r: (bool, i32))
    ensures
        r.0 == boundary_axis(previous, current, cursor).0,
        r.1 as int == boundary_axis(previous, current, cursor).1,
        r.0 ==> r.1 == previous.left || r.1 == previous.right,
        !r.0 ==> r.1 == previous.top || r.1 == previous.bottom,
        ({
            let inside_x = previous.left <= cursor.x < previous.right;
            let inside_y = previous.top <= cursor.y < previous.bottom;
            &&& cursor.x < previous.left && inside_y ==> r == (true, previous.left)
            &&& cursor.x >= previous.right && previous.left < previous.right && inside_y ==> r == (
                true,
                previous.right,
            )
            &&& cursor.y < previous.top && inside_x ==> r == (false, previous.top)
            &&& cursor.y >= previous.bottom && previous.top < previous.bottom && inside_x ==> r == (
                false,
                previous.bottom,
            )
        }),
{
    let cx: i64 = cursor.x as i64;
    let cy: i64 = cursor.y as i64;
    let exited_left = cx < previous.left as i64;
    let exited_right = cx >= previous.right as i64;
    let exited_top = cy < previous.top as i64;
    let exited_bottom = cy >= previous.bottom as i64;
    let dx_left: i64 = previous.left as i64 - cx;
    let dx_right: i64 = cx - (previous.right as i64 - 1);
    let dy_top: i64 = previous.top as i64 - cy;
    let dy_bottom: i64 = cy - (previous.bottom as i64 - 1);

    let mut best_axis: u8 = 0;
    let mut best_mag: i64 = -1;
    if exited_left {
        best_axis = 1;
        best_mag = if dx_left > best_mag {
            dx_left
        } else {
            best_mag
        };
    }
    if exited_right && dx_right > best_mag {
        best_axis = 1;
        best_mag = dx_right;
    }
    if exited_top && dy_top > best_mag {
        best_axis = 2;
        best_mag = dy_top;
    }
    if exited_bottom && dy_bottom > best_mag {
        best_axis = 2;
    }
    if best_axis == 0 {
        let prev_center_x: i64 = (previous.left as i64 + previous.right as i64) / 2;
        let prev_center_y: i64 = (previous.top as i64 + previous.bottom as i64) / 2;
        let cur_center_x: i64 = (current.left as i64 + current.right as i64) / 2;
        let cur_center_y: i64 = (current.top as i64 + current.bottom as i64) / 2;
        best_axis = if abs_i64(cur_center_x - prev_center_x) >= abs_i64(cur_center_y - prev_center_y) {
            1
        } else {
            2
        };
    }
    if best_axis == 1 {
        let edge_x = if exited_left {
            previous.left
        } else {
            previous.right
        };
        (true, edge_x)
    } else {
        let edge_y = if exited_top {
            previous.top
        } else {
            previous.bottom
        };
        (false, edge_y)
    }
}

} // verus!
