use vstd::prelude::*;

verus! {

/// Whether `v` fits in an `i64`.
pub open spec fn fits_i64(v: int) -> bool {
    i64::MIN <= v <= i64::MAX
}

/// Rust's `/` on `i64`: division rounding towards zero.
pub open spec fn div_i64(a: i64, b: i64) -> i64 {
    if a >= 0 {
        (a / b) as i64
    } else {
        (-((-a) / (b as int))) as i64
    }
}

/// Rust's `%` on `i64`: the remainder takes the sign of the dividend.
pub open spec fn rem_i64(a: i64, b: i64) -> i64 {
    if a >= 0 {
        (a % b) as i64
    } else {
        (-((-a) % (b as int))) as i64
    }
}

/// Whether `a / b` neither divides by zero nor overflows.
pub open spec fn div_ok(a: i64, b: i64) -> bool {
    b != 0 && !(a == i64::MIN && b == -1)
}

/// A point on screen, in pixels.
#[derive(Debug, Clone, Copy)]
pub struct Position {
    pub x: i64,
    pub y: i64,
}

impl Default for Position {
    fn default() -> (r: Position)
        ensures
            r.x == 0 && r.y == 0,
    {
        Position { x: 0, y: 0 }
    }
}

impl Position {
    pub fn new(x: i64, y: i64) -> (r: Position)
        ensures
            r.x == x,
            r.y == y,
    {
        Position { x, y }
    }

    pub fn zero() -> (r: Position)
        ensures
            r.x == 0,
            r.y == 0,
    {
        Position { x: 0, y: 0 }
    }

    pub fn from_dimensions(dimensions: Dimension) -> (r: Position)
        ensures
            r.x == dimensions.width,
            r.y == dimensions.height,
    {
        Position { x: dimensions.width as i64, y: dimensions.height as i64 }
    }
}

impl core::ops::Neg for Position {
    type Output = Position;

    fn neg(self) -> (r: Position) {
        Position { x: -self.x, y: -self.y }
    }
}

impl vstd::std_specs::ops::NegSpecImpl for Position {
    open spec fn obeys_neg_spec() -> bool {
        true
    }

    open spec fn neg_req(self) -> bool {
        self.x != i64::MIN && self.y != i64::MIN
    }

    open spec fn neg_spec(self) -> Position {
        Position { x: (-self.x) as i64, y: (-self.y) as i64 }
    }
}

impl core::ops::Add<i64> for Position {
    type Output = Position;

    fn add(self, rhs: i64) -> (r: Position) {
        Position { x: self.x + rhs, y: self.y + rhs }
    }
}

impl vstd::std_specs::ops::AddSpecImpl<i64> for Position {
    open spec fn obeys_add_spec() -> bool {
        true
    }

    open spec fn add_req(self, rhs: i64) -> bool {
        fits_i64(self.x + rhs) && fits_i64(self.y + rhs)
    }

    open spec fn add_spec(self, rhs: i64) -> Position {
        Position { x: (self.x + rhs) as i64, y: (self.y + rhs) as i64 }
    }
}

impl core::ops::Sub<i64> for Position {
    type Output = Position;

    fn sub(self, rhs: i64) -> (r: Position) {
        Position { x: self.x - rhs, y: self.y - rhs }
    }
}

impl vstd::std_specs::ops::SubSpecImpl<i64> for Position {
    open spec fn obeys_sub_spec() -> bool {
        true
    }

    open spec fn sub_req(self, rhs: i64) -> bool {
        fits_i64(self.x - rhs) && fits_i64(self.y - rhs)
    }

    open spec fn sub_spec(self, rhs: i64) -> Position {
        Position { x: (self.x - rhs) as i64, y: (self.y - rhs) as i64 }
    }
}

impl core::ops::Mul<i64> for Position {
    type Output = Position;

    fn mul(self, rhs: i64) -> (r: Position) {
        Position { x: self.x * rhs, y: self.y * rhs }
    }
}

impl vstd::std_specs::ops::MulSpecImpl<i64> for Position {
    open spec fn obeys_mul_spec() -> bool {
        true
    }

    open spec fn mul_req(self, rhs: i64) -> bool {
        fits_i64(self.x * rhs) && fits_i64(self.y * rhs)
    }

    open spec fn mul_spec(self, rhs: i64) -> Position {
        Position { x: (self.x * rhs) as i64, y: (self.y * rhs) as i64 }
    }
}

impl core::ops::Div<i64> for Position {
    type Output = Position;

    fn div(self, rhs: i64) -> (r: Position) {
        Position { x: self.x / rhs, y: self.y / rhs }
    }
}

impl vstd::std_specs::ops::DivSpecImpl<i64> for Position {
    open spec fn obeys_div_spec() -> bool {
        true
    }

    open spec fn div_req(self, rhs: i64) -> bool {
        div_ok(self.x, rhs) && div_ok(self.y, rhs)
    }

    open spec fn div_spec(self, rhs: i64) -> Position {
        Position { x: div_i64(self.x, rhs), y: div_i64(self.y, rhs) }
    }
}

impl core::ops::Rem<i64> for Position {
    type Output = Position;

    fn rem(self, rhs: i64) -> (r: Position) {
        Position { x: self.x % rhs, y: self.y % rhs }
    }
}

impl vstd::std_specs::ops::RemSpecImpl<i64> for Position {
    open spec fn obeys_rem_spec() -> bool {
        true
    }

    open spec fn rem_req(self, rhs: i64) -> bool {
        div_ok(self.x, rhs) && div_ok(self.y, rhs)
    }

    open spec fn rem_spec(self, rhs: i64) -> Position {
        Position { x: rem_i64(self.x, rhs), y: rem_i64(self.y, rhs) }
    }
}

impl core::ops::Add<Position> for Position {
    type Output = Position;

    fn add(self, rhs: Position) -> (r: Position) {
        Position { x: self.x + rhs.x, y: self.y + rhs.y }
    }
}

impl vstd::std_specs::ops::AddSpecImpl<Position> for Position {
    open spec fn obeys_add_spec() -> bool {
        true
    }

    open spec fn add_req(self, rhs: Position) -> bool {
        fits_i64(self.x + rhs.x) && fits_i64(self.y + rhs.y)
    }

    open spec fn add_spec(self, rhs: Position) -> Position {
        Position { x: (self.x + rhs.x) as i64, y: (self.y + rhs.y) as i64 }
    }
}

impl core::ops::Sub<Position> for Position {
    type Output = Position;

    fn sub(self, rhs: Position) -> (r: Position) {
        Position { x: self.x - rhs.x, y: self.y - rhs.y }
    }
}

impl vstd::std_specs::ops::SubSpecImpl<Position> for Position {
    open spec fn obeys_sub_spec() -> bool {
        true
    }

    open spec fn sub_req(self, rhs: Position) -> bool {
        fits_i64(self.x - rhs.x) && fits_i64(self.y - rhs.y)
    }

    open spec fn sub_spec(self, rhs: Position) -> Position {
        Position { x: (self.x - rhs.x) as i64, y: (self.y - rhs.y) as i64 }
    }
}

impl core::ops::Add<Dimension> for Position {
    type Output = Position;

    fn add(self, rhs: Dimension) -> (r: Position) {
        Position { x: self.x + rhs.width as i64, y: self.y + rhs.height as i64 }
    }
}

impl vstd::std_specs::ops::AddSpecImpl<Dimension> for Position {
    open spec fn obeys_add_spec() -> bool {
        true
    }

    open spec fn add_req(self, rhs: Dimension) -> bool {
        fits_i64(self.x + rhs.width) && fits_i64(self.y + rhs.height)
    }

    open spec fn add_spec(self, rhs: Dimension) -> Position {
        Position { x: (self.x + rhs.width) as i64, y: (self.y + rhs.height) as i64 }
    }
}

impl core::ops::Sub<Dimension> for Position {
    type Output = Position;

    fn sub(self, rhs: Dimension) -> (r: Position) {
        Position { x: self.x - rhs.width as i64, y: self.y - rhs.height as i64 }
    }
}

impl vstd::std_specs::ops::SubSpecImpl<Dimension> for Position {
    open spec fn obeys_sub_spec() -> bool {
        true
    }

    open spec fn sub_req(self, rhs: Dimension) -> bool {
        fits_i64(self.x - rhs.width) && fits_i64(self.y - rhs.height)
    }

    open spec fn sub_spec(self, rhs: Dimension) -> Position {
        Position { x: (self.x - rhs.width) as i64, y: (self.y - rhs.height) as i64 }
    }
}

/// A side of a rectangle.
#[derive(Debug, Clone, Copy, PartialEq, Eq, Structural)]
pub enum Edge {
    Top,
    Bottom,
    Left,
    Right,
}

/// An axis-aligned rectangle; `min` is inclusive and `max` exclusive.
#[derive(Debug, Clone, Copy)]
pub struct Rect {
    pub min: Position,
    pub max: Position,
}

impl Default for Rect {
    fn default() -> (r: Rect)
        ensures
            r.min.x == 0 && r.min.y == 0 && r.max.x == 0 && r.max.y == 0,
    {
        Rect { min: Position { x: 0, y: 0 }, max: Position { x: 0, y: 0 } }
    }
}

impl Rect {
    /// The width as `width` computes it: the difference truncated to 32 bits.
    pub open spec fn spec_width(self) -> u32 {
        (self.max.x - self.min.x) as u32
    }

    pub open spec fn spec_height(self) -> u32 {
        (self.max.y - self.min.y) as u32
    }

    /// Both differences fit in an `i64` (computing them overflows otherwise).
    pub open spec fn sides_fit(self) -> bool {
        fits_i64(self.max.x - self.min.x) && fits_i64(self.max.y - self.min.y)
    }

    pub open spec fn spec_contains(self, pos: Position) -> bool {
        self.min.x <= pos.x < self.max.x && self.min.y <= pos.y < self.max.y
    }

    pub open spec fn spec_intersects(self, other: Rect) -> bool {
        &&& self.min.x < other.max.x
        &&& self.max.x > other.min.x
        &&& self.min.y < other.max.y
        &&& self.max.y > other.min.y
    }

    pub fn new(min: Position, max: Position) -> (r: Rect)
        ensures
            r.min == min,
            r.max == max,
    {
        Rect { min, max }
    }

    pub fn zero() -> (r: Rect)
        ensures
            r.min.x == 0 && r.min.y == 0 && r.max.x == 0 && r.max.y == 0,
    {
        Rect { min: Position::new(0, 0), max: Position::new(0, 0) }
    }

    pub fn from_dimensions(dimensions: Dimension) -> (r: Rect)
        ensures
            r.min.x == 0 && r.min.y == 0,
            r.max.x == dimensions.width,
            r.max.y == dimensions.height,
    {
        Rect {
            min: Position::new(0, 0),
            max: Position::new(dimensions.width as i64, dimensions.height as i64),
        }
    }

    /// A rectangle of the given size, centered in `parent` (rounding towards the top left
    /// when the leftover space is odd and positive).
    pub open spec fn spec_centered_in(parent: Rect, dimensions: Dimension) -> Rect {
        let min_x = parent.min.x + div_i64((parent.spec_width() - dimensions.width) as i64, 2);
        let min_y = parent.min.y + div_i64((parent.spec_height() - dimensions.height) as i64, 2);
        Rect {
            min: Position { x: min_x as i64, y: min_y as i64 },
            max: Position {
                x: (min_x + dimensions.width) as i64,
                y: (min_y + dimensions.height) as i64,
            },
        }
    }

    /// All intermediate values of `centered_in` fit in an `i64`.
    pub open spec fn centered_in_fits(parent: Rect, dimensions: Dimension) -> bool {
        let min_x = parent.min.x + div_i64((parent.spec_width() - dimensions.width) as i64, 2);
        let min_y = parent.min.y + div_i64((parent.spec_height() - dimensions.height) as i64, 2);
        &&& parent.sides_fit()
        &&& fits_i64(min_x) && fits_i64(min_x + dimensions.width)
        &&& fits_i64(min_y) && fits_i64(min_y + dimensions.height)
    }

    pub fn centered_in(parent: Rect, dimensions: Dimension) -> (r: Rect)
        requires
            Rect::centered_in_fits(parent, dimensions),
        ensures
            r == Rect::spec_centered_in(parent, dimensions),
    {
        let min = Position::new(
            parent.min.x + (parent.width() as i64 - dimensions.width as i64) / 2,
            parent.min.y + (parent.height() as i64 - dimensions.height as i64) / 2,
        );
        let max = Position::new(min.x + dimensions.width as i64, min.y + dimensions.height as i64);
        Rect { min, max }
    }

    pub fn dimensions(&self) -> (r: Dimension)
        requires
            self.sides_fit(),
        ensures
            r.width == self.spec_width(),
            r.height == self.spec_height(),
    {
        Dimension::new(self.width(), self.height())
    }

    pub fn width(&self) -> (r: u32)
        requires
            fits_i64(self.max.x - self.min.x),
        ensures
            r == self.spec_width(),
    {
        (self.max.x - self.min.x) as u32
    }

    pub fn height(&self) -> (r: u32)
        requires
            fits_i64(self.max.y - self.min.y),
        ensures
            r == self.spec_height(),
    {
        (self.max.y - self.min.y) as u32
    }

    pub fn center(&self) -> (r: Position)
        requires
            fits_i64(self.min.x + self.max.x),
            fits_i64(self.min.y + self.max.y),
        ensures
            r.x == div_i64((self.min.x + self.max.x) as i64, 2),
            r.y == div_i64((self.min.y + self.max.y) as i64, 2),
    {
        Position { x: (self.min.x + self.max.x) / 2, y: (self.min.y + self.max.y) / 2 }
    }

    pub fn shrink(&self, padding: u32) -> (r: Rect)
        requires
            fits_i64(self.min.x + padding),
            fits_i64(self.min.y + padding),
            fits_i64(self.max.x - padding),
            fits_i64(self.max.y - padding),
        ensures
            r.min.x == self.min.x + padding,
            r.min.y == self.min.y + padding,
            r.max.x == self.max.x - padding,
            r.max.y == self.max.y - padding,
    {
        Rect {
            min: Position::new(self.min.x + padding as i64, self.min.y + padding as i64),
            max: Position::new(self.max.x - padding as i64, self.max.y - padding as i64),
        }
    }

    pub fn contains(&self, pos: Position) -> (r: bool)
        ensures
            r == self.spec_contains(pos),
    {
        pos.x >= self.min.x && pos.x < self.max.x && pos.y >= self.min.y && pos.y < self.max.y
    }

    pub fn translate(&self, offset: Position) -> (r: Rect)
        requires
            fits_i64(self.min.x + offset.x),
            fits_i64(self.min.y + offset.y),
            fits_i64(self.max.x + offset.x),
            fits_i64(self.max.y + offset.y),
        ensures
            r.min.x == self.min.x + offset.x,
            r.min.y == self.min.y + offset.y,
            r.max.x == self.max.x + offset.x,
            r.max.y == self.max.y + offset.y,
    {
        Rect {
            min: Position { x: self.min.x + offset.x, y: self.min.y + offset.y },
            max: Position { x: self.max.x + offset.x, y: self.max.y + offset.y },
        }
    }

    pub fn intersects(&self, other: &Rect) -> (r: bool)
        ensures
            r == self.spec_intersects(*other),
    {
        self.min.x < other.max.x && self.max.x > other.min.x && self.min.y < other.max.y
            && self.max.y > other.min.y
    }

    /// Which edge of `other` `self` sits across, if any; the edges are tried in the
    /// order top, bottom, left, right.
    pub open spec fn spec_intersects_edge(self, other: Rect) -> Option<Edge> {
        if !self.spec_intersects(other) {
            None
        } else if self.min.y < other.min.y && self.max.y > other.min.y {
            Some(Edge::Top)
        } else if self.max.y > other.max.y && self.min.y < other.max.y {
            Some(Edge::Bottom)
        } else if self.min.x < other.min.x && self.max.x > other.min.x {
            Some(Edge::Left)
        } else if self.max.x > other.max.x && self.min.x < other.max.x {
            Some(Edge::Right)
        } else {
            None
        }
    }

    /// check if self sits on the edge of other
    pub fn intersects_edge(&self, other: &Rect) -> (r: Option<Edge>)
        ensures
            r == self.spec_intersects_edge(*other),
    {
        if !self.intersects(other) {
            return None;
        }
        if self.min.y < other.min.y && self.max.y > other.min.y {
            return Some(Edge::Top);
        } else if self.max.y > other.max.y && self.min.y < other.max.y {
            return Some(Edge::Bottom);
        } else if self.min.x < other.min.x && self.max.x > other.min.x {
            return Some(Edge::Left);
        } else if self.max.x > other.max.x && self.min.x < other.max.x {
            return Some(Edge::Right);
        }
        None
    }
}

/// Size of an area, in pixels.
#[derive(Debug, Clone, Copy, PartialEq, Eq, Structural)]
pub struct Dimension {
    pub width: u32,
    pub height: u32,
}

impl Dimension {
    pub fn new(width: u32, height: u32) -> (r: Dimension)
        ensures
            r.width == width,
            r.height == height,
    {
        Dimension { width, height }
    }

    pub fn zero() -> (r: Dimension)
        ensures
            r.width == 0,
            r.height == 0,
    {
        Dimension { width: 0, height: 0 }
    }
}

impl core::ops::Add<u32> for Dimension {
    type Output = Dimension;

    fn add(self, rhs: u32) -> (r: Dimension) {
        Dimension { width: self.width + rhs, height: self.height + rhs }
    }
}

impl vstd::std_specs::ops::AddSpecImpl<u32> for Dimension {
    open spec fn obeys_add_spec() -> bool {
        true
    }

    open spec fn add_req(self, rhs: u32) -> bool {
        self.width + rhs <= u32::MAX && self.height + rhs <= u32::MAX
    }

    open spec fn add_spec(self, rhs: u32) -> Dimension {
        Dimension { width: (self.width + rhs) as u32, height: (self.height + rhs) as u32 }
    }
}

impl core::ops::Mul<u32> for Dimension {
    type Output = Dimension;

    fn mul(self, rhs: u32) -> (r: Dimension) {
        Dimension { width: self.width * rhs, height: self.height * rhs }
    }
}

impl vstd::std_specs::ops::MulSpecImpl<u32> for Dimension {
    open spec fn obeys_mul_spec() -> bool {
        true
    }

    open spec fn mul_req(self, rhs: u32) -> bool {
        self.width * rhs <= u32::MAX && self.height * rhs <= u32::MAX
    }

    open spec fn mul_spec(self, rhs: u32) -> Dimension {
        Dimension { width: (self.width * rhs) as u32, height: (self.height * rhs) as u32 }
    }
}

impl core::ops::Div<u32> for Dimension {
    type Output = Dimension;

    fn div(self, rhs: u32) -> (r: Dimension) {
        Dimension { width: self.width / rhs, height: self.height / rhs }
    }
}

impl vstd::std_specs::ops::DivSpecImpl<u32> for Dimension {
    open spec fn obeys_div_spec() -> bool {
        true
    }

    open spec fn div_req(self, rhs: u32) -> bool {
        rhs != 0
    }

    open spec fn div_spec(self, rhs: u32) -> Dimension {
        Dimension { width: (self.width / rhs) as u32, height: (self.height / rhs) as u32 }
    }
}

/// An RGB color.
#[derive(Debug, Clone, Copy, PartialEq, Eq, Structural)]
pub struct Color {
    pub r: u8,
    pub g: u8,
    pub b: u8,
}

impl Color {
    pub fn new(r: u8, g: u8, b: u8) -> (c: Color)
        ensures
            c.r == r,
            c.g == g,
            c.b == b,
    {
        Color { r, g, b }
    }
}

/// A rectangle centered in a parent that can hold it lies inside the parent, has the
/// asked size, and leaves margins on opposite sides that differ by at most one pixel
/// (the extra pixel going to the right and bottom margins).
pub proof fn lemma_centered_inside(parent: Rect, dimensions: Dimension)
    requires
        parent.min.x <= parent.max.x,
        parent.min.y <= parent.max.y,
        parent.max.x - parent.min.x <= u32::MAX,
        parent.max.y - parent.min.y <= u32::MAX,
        dimensions.width <= parent.max.x - parent.min.x,
        dimensions.height <= parent.max.y - parent.min.y,
        Rect::centered_in_fits(parent, dimensions),
    ensures
        ({
            let r = Rect::spec_centered_in(parent, dimensions);
            &&& parent.min.x <= r.min.x && r.max.x <= parent.max.x
            &&& parent.min.y <= r.min.y && r.max.y <= parent.max.y
            &&& r.max.x - r.min.x == dimensions.width
            &&& r.max.y - r.min.y == dimensions.height
            &&& r.min.x - parent.min.x <= parent.max.x - r.max.x <= r.min.x - parent.min.x + 1
            &&& r.min.y - parent.min.y <= parent.max.y - r.max.y <= r.min.y - parent.min.y + 1
        }),
{
}

/// Moving the parent moves the centered rectangle by the same offset.
pub proof fn lemma_centered_moves_with_parent(parent: Rect, dimensions: Dimension, dx: i64, dy: i64)
    requires
        Rect::centered_in_fits(parent, dimensions),
        Rect::centered_in_fits(
            Rect {
                min: Position { x: (parent.min.x + dx) as i64, y: (parent.min.y + dy) as i64 },
                max: Position { x: (parent.max.x + dx) as i64, y: (parent.max.y + dy) as i64 },
            },
            dimensions,
        ),
        fits_i64(parent.min.x + dx) && fits_i64(parent.max.x + dx),
        fits_i64(parent.min.y + dy) && fits_i64(parent.max.y + dy),
    ensures
        ({
            let moved = Rect {
                min: Position { x: (parent.min.x + dx) as i64, y: (parent.min.y + dy) as i64 },
                max: Position { x: (parent.max.x + dx) as i64, y: (parent.max.y + dy) as i64 },
            };
            let r = Rect::spec_centered_in(parent, dimensions);
            let m = Rect::spec_centered_in(moved, dimensions);
            &&& m.min.x == r.min.x + dx && m.min.y == r.min.y + dy
            &&& m.max.x == r.max.x + dx && m.max.y == r.max.y + dy
        }),
{
}

} // verus!
