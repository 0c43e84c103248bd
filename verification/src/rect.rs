use vstd::prelude::*;

verus! {

/// The largest coordinate or size that a rectangle may hold (`i32::MAX / 2`).
pub const MAX_INT_VALUE: u32 = 1073741823;

/// The smallest coordinate that a rectangle or point may hold (`i32::MIN / 2`).
pub const MIN_INT_VALUE: i32 = -1073741824;

/// A rectangle in the plain terms that contracts speak of.
pub struct RectView {
    pub x: int,
    pub y: int,
    pub w: int,
    pub h: int,
}

impl RectView {
    pub open spec fn left(self) -> int {
        self.x
    }

    pub open spec fn right(self) -> int {
        self.x + self.w
    }

    pub open spec fn top(self) -> int {
        self.y
    }

    pub open spec fn bottom(self) -> int {
        self.y + self.h
    }

    /// Positions lie in `[MIN_INT_VALUE, MAX_INT_VALUE]`, sizes in `[1, MAX_INT_VALUE]`.
    pub open spec fn wf(self) -> bool {
        &&& MIN_INT_VALUE <= self.x <= MAX_INT_VALUE
        &&& MIN_INT_VALUE <= self.y <= MAX_INT_VALUE
        &&& 1 <= self.w <= MAX_INT_VALUE
        &&& 1 <= self.h <= MAX_INT_VALUE
    }
}

/// A size as a rectangle stores it: 0 becomes 1, and anything above
/// `MAX_INT_VALUE` becomes `MAX_INT_VALUE`.
pub open spec fn clamped_size(v: int) -> int {
    if v == 0 {
        1
    } else if v > MAX_INT_VALUE {
        MAX_INT_VALUE as int
    } else {
        v
    }
}

/// A coordinate as a rectangle or point stores it: clamped to
/// `[MIN_INT_VALUE, MAX_INT_VALUE]`.
pub open spec fn clamped_position(v: int) -> int {
    if v > MAX_INT_VALUE {
        MAX_INT_VALUE as int
    } else if v < MIN_INT_VALUE {
        MIN_INT_VALUE as int
    } else {
        v
    }
}

fn clamp_size(v: u32) -> (r: i32)
    ensures
        r == clamped_size(v as int),
{
    if v == 0 {
        1
    } else if v > MAX_INT_VALUE {
        1073741823
    } else {
        v as i32
    }
}

fn clamp_position(v: i32) -> (r: i32)
    ensures
        r == clamped_position(v as int),
{
    if v > 1073741823 {
        1073741823
    } else if v < MIN_INT_VALUE {
        MIN_INT_VALUE
    } else {
        v
    }
}

/// A non-empty axis-aligned rectangle: a top-left corner and a strictly
/// positive width and height. Coordinates are kept within
/// `[MIN_INT_VALUE, MAX_INT_VALUE]` and sizes within `[1, MAX_INT_VALUE]`, so
/// that the right and bottom sides always fit in an `i32`.
#[derive(Clone, Copy, Debug, PartialEq, Eq)]
pub struct Rect {
    x: i32,
    y: i32,
    w: i32,
    h: i32,
}

impl View for Rect {
    type V = RectView;

    closed spec fn view(&self) -> RectView {
        RectView { x: self.x as int, y: self.y as int, w: self.w as int, h: self.h as int }
    }
}

impl Rect {
    #[verifier::type_invariant]
    spec fn inv(self) -> bool {
        self@.wf()
    }

    /// The rectangle at `(x, y)` of the given size, each value clamped as
    /// `clamped_position` and `clamped_size` say.
    pub fn new(x: i32, y: i32, width: u32, height: u32) -> (r: Rect)
        ensures
            r@ == (RectView {
                x: clamped_position(x as int),
                y: clamped_position(y as int),
                w: clamped_size(width as int),
                h: clamped_size(height as int),
            }),
            r@.wf(),
    {
        Rect { x: clamp_position(x), y: clamp_position(y), w: clamp_size(width), h: clamp_size(height) }
    }

    /// The horizontal position.
    pub fn x(&self) -> (r: i32)
        ensures
            r == self@.x,
            MIN_INT_VALUE <= r <= MAX_INT_VALUE,
    {
        proof { use_type_invariant(self); }
        self.x
    }

    /// The vertical position.
    pub fn y(&self) -> (r: i32)
        ensures
            r == self@.y,
            MIN_INT_VALUE <= r <= MAX_INT_VALUE,
    {
        proof { use_type_invariant(self); }
        self.y
    }

    /// The width.
    pub fn width(&self) -> (r: u32)
        ensures
            r == self@.w,
            1 <= r <= MAX_INT_VALUE,
    {
        proof { use_type_invariant(self); }
        self.w as u32
    }

    /// The height.
    pub fn height(&self) -> (r: u32)
        ensures
            r == self@.h,
            1 <= r <= MAX_INT_VALUE,
    {
        proof { use_type_invariant(self); }
        self.h as u32
    }

    /// The x-position of the left side.
    pub fn left(&self) -> (r: i32)
        ensures
            r == self@.left(),
    {
        self.x
    }

    /// The x-position of the right side: `x + width`.
    pub fn right(&self) -> (r: i32)
        ensures
            r == self@.right(),
    {
        proof { use_type_invariant(self); }
        self.x + self.w
    }

    /// The y-position of the top side.
    pub fn top(&self) -> (r: i32)
        ensures
            r == self@.top(),
    {
        self.y
    }

    /// The y-position of the bottom side: `y + height`.
    pub fn bottom(&self) -> (r: i32)
        ensures
            r == self@.bottom(),
    {
        proof { use_type_invariant(self); }
        self.y + self.h
    }
}

/// A point whose coordinates are clamped to `[MIN_INT_VALUE, MAX_INT_VALUE]`.
#[derive(Clone, Copy, Debug, PartialEq, Eq)]
pub struct Point {
    x: i32,
    y: i32,
}

impl View for Point {
    type V = (int, int);

    closed spec fn view(&self) -> (int, int) {
        (self.x as int, self.y as int)
    }
}

impl Point {
    /// The point at `(x, y)`, each coordinate clamped as `clamped_position` says.
    pub fn new(x: i32, y: i32) -> (r: Point)
        ensures
            r@ == (clamped_position(x as int), clamped_position(y as int)),
    {
        Point { x: clamp_position(x), y: clamp_position(y) }
    }

    /// The horizontal coordinate.
    pub fn x(&self) -> (r: i32)
        ensures
            r == self@.0,
    {
        self.x
    }

    /// The vertical coordinate.
    pub fn y(&self) -> (r: i32)
        ensures
            r == self@.1,
    {
        self.y
    }
}

} // verus!
