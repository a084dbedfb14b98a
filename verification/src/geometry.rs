//! Logical rectangles and points, and the size constraints of the wrapper surface.

use vstd::prelude::*;

verus! {

/// A point in logical coordinates.
#[derive(Clone, Copy, Debug, PartialEq, Eq, Structural)]
pub struct Point {
    pub x: i32,
    pub y: i32,
}

/// A rectangle in logical coordinates: its top-left corner and its size.
#[derive(Clone, Copy, Debug, PartialEq, Eq, Structural)]
pub struct Rectangle {
    pub x: i32,
    pub y: i32,
    pub w: i32,
    pub h: i32,
}

/// `p` lies inside `r`: the left and top edges are included, the right and
/// bottom edges are not.
pub open spec fn rect_contains(r: Rectangle, p: Point) -> bool {
    &&& r.x <= p.x
    &&& r.y <= p.y
    &&& p.x < r.x + r.w
    &&& p.y < r.y + r.h
}

impl Rectangle {
    /// The location (top-left corner) of the rectangle.
    pub open spec fn loc_spec(self) -> Point {
        Point { x: self.x, y: self.y }
    }

    /// Builds a rectangle from its location and size.
    pub fn from_loc_and_size(loc: Point, w: i32, h: i32) -> (r: Rectangle)
        ensures
            r == (Rectangle { x: loc.x, y: loc.y, w, h }),
    {
        Rectangle { x: loc.x, y: loc.y, w, h }
    }

    /// The location (top-left corner) of the rectangle.
    pub fn loc(&self) -> (p: Point)
        ensures
            p == (Point { x: self.x, y: self.y }),
    {
        Point { x: self.x, y: self.y }
    }

    /// Whether the point lies inside the rectangle.
    pub fn contains(&self, p: Point) -> (b: bool)
        ensures
            b == rect_contains(*self, p),
    {
        let x = self.x as i64;
        let y = self.y as i64;
        let px = p.x as i64;
        let py = p.y as i64;
        x <= px && y <= py && px < x + self.w as i64 && py < y + self.h as i64
    }
}

/// Clamps `v` into `[lo, hi]` the way a size range of the configuration does:
/// first raised to `lo` when below it, otherwise lowered to `hi` when above it.
pub open spec fn clamp_to_range(v: u32, lo: u32, hi: u32) -> u32 {
    if v < lo {
        lo
    } else if v > hi {
        hi
    } else {
        v
    }
}

pub open spec fn max_u32(a: u32, b: u32) -> u32 {
    if a >= b { a } else { b }
}

pub open spec fn min_u32(a: u32, b: u32) -> u32 {
    if a <= b { a } else { b }
}

/// The size that a wrapper surface asks for when its content is `(w, h)`:
/// at least 1x1, then held into the configured width and height ranges.
pub open spec fn constrained_by_ranges(
    dim: (u32, u32),
    width_range: Option<(u32, u32)>,
    height_range: Option<(u32, u32)>,
) -> (u32, u32) {
    let w = max_u32(1, dim.0);
    let h = max_u32(1, dim.1);
    let w = match width_range {
        Some(r) => clamp_to_range(w, r.0, r.1),
        None => w,
    };
    let h = match height_range {
        Some(r) => clamp_to_range(h, r.0, r.1),
        None => h,
    };
    (w, h)
}

/// Holds a requested surface size into the configured ranges (the ranges are
/// half-open `start..end` in the configuration; both ends are used as bounds).
pub fn constrain_dim_by_ranges(
    dim: (u32, u32),
    width_range: Option<(u32, u32)>,
    height_range: Option<(u32, u32)>,
) -> (res: (u32, u32))
    ensures
        res == constrained_by_ranges(dim, width_range, height_range),
{
    let (mut w, mut h) = dim;
    if w < 1 {
        w = 1;
    }
    if h < 1 {
        h = 1;
    }
    if let Some((start, end)) = width_range {
        if w < start {
            w = start;
        } else if w > end {
            w = end;
        }
    }
    if let Some((start, end)) = height_range {
        if h < start {
            h = start;
        } else if h > end {
            h = end;
        }
    }
    (w, h)
}

/// The size that a wrapper surface asks for under optional minimum and maximum
/// dimensions: raised to the minimum (1x1 when none is set), then lowered to
/// the maximum when one is set.
pub open spec fn constrained_by_min_max(
    dim: (u32, u32),
    min_dimensions: Option<(u32, u32)>,
    max_dimensions: Option<(u32, u32)>,
) -> (u32, u32) {
    let mins = match min_dimensions {
        Some(m) => m,
        None => (1u32, 1u32),
    };
    let w = max_u32(mins.0, dim.0);
    let h = max_u32(mins.1, dim.1);
    match max_dimensions {
        Some(m) => (min_u32(m.0, w), min_u32(m.1, h)),
        None => (w, h),
    }
}

/// Holds a requested surface size between optional minimum and maximum dimensions.
pub fn constrain_dim_by_min_max(
    dim: (u32, u32),
    min_dimensions: Option<(u32, u32)>,
    max_dimensions: Option<(u32, u32)>,
) -> (res: (u32, u32))
    ensures
        res == constrained_by_min_max(dim, min_dimensions, max_dimensions),
{
    let (min_w, min_h) = match min_dimensions {
        Some(m) => m,
        None => (1, 1),
    };
    let (mut w, mut h) = dim;
    if w < min_w {
        w = min_w;
    }
    if h < min_h {
        h = min_h;
    }
    if let Some((max_w, max_h)) = max_dimensions {
        if max_w < w {
            w = max_w;
        }
        if max_h < h {
            h = max_h;
        }
    }
    (w, h)
}

/// Holding a size into well-formed ranges a second time changes nothing, and
/// the result lies inside each range that is set.
pub proof fn lemma_constrain_by_ranges_idempotent(
    dim: (u32, u32),
    width_range: Option<(u32, u32)>,
    height_range: Option<(u32, u32)>,
)
    requires
        width_range matches Some(r) ==> r.0 <= r.1,
        height_range matches Some(r) ==> r.0 <= r.1,
    ensures
        constrained_by_ranges(constrained_by_ranges(dim, width_range, height_range), width_range, height_range)
            == constrained_by_ranges(dim, width_range, height_range),
        width_range matches Some(r) ==> {
            let w = constrained_by_ranges(dim, width_range, height_range).0;
            r.0 <= w <= r.1
        },
        height_range matches Some(r) ==> {
            let h = constrained_by_ranges(dim, width_range, height_range).1;
            r.0 <= h <= r.1
        },
{
}

/// Holding a size between a minimum and a maximum a second time changes
/// nothing.
pub proof fn lemma_constrain_by_min_max_idempotent(
    dim: (u32, u32),
    min_dimensions: Option<(u32, u32)>,
    max_dimensions: Option<(u32, u32)>,
)
    ensures
        constrained_by_min_max(constrained_by_min_max(dim, min_dimensions, max_dimensions), min_dimensions, max_dimensions)
            == constrained_by_min_max(dim, min_dimensions, max_dimensions),
{
}

} // verus!
