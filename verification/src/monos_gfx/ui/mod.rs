pub mod context;
pub mod widget_lines;
pub mod widgets;

use crate::monos_gfx::types::{div_i64, fits_i64, Dimension, Position, Rect};
use vstd::prelude::*;

verus! {

/// affects how big the total space allocated for a widget will be.
///
/// minimum: the widget will be allocated the exact space it needs.
/// grow: the widget will fill the entire cross axis.
/// fixed: put the widget at a fixed position and size.
#[derive(Debug, Clone, Copy)]
pub enum MarginMode {
    Minimum,
    Grow,
    Fixed(Position, Dimension),
}

/// affects how much of the allocated space (determined by the margin mode) will be filled with the widget.
///
/// minimum: the widget will only fill the exact space it needs
/// fill: the widget will fill the entire space allocated for it.
#[derive(Debug, Clone, Copy)]
pub enum PaddingMode {
    Fill,
    Gap(u32),
}

#[derive(Debug, Clone, Copy, PartialEq, Eq, Structural)]
pub enum Direction {
    LeftToRight,
    RightToLeft,
    TopToBottom,
    BottomToTop,
}

/// The outcome of placing (and possibly interacting with) a widget.
#[derive(Debug)]
pub struct UIResult {
    /// unique id of the widget. this will only be set if the widget stored some state or is focusable
    pub id: Option<u64>,
    /// rect of the widget
    pub rect: Rect,
    /// rect of the widget including its margin
    pub full_rect: Rect,
    /// whether the widget was clicked
    pub clicked: bool,
    /// whether the mouse is hovering over the widget
    pub hovered: bool,
    /// the exact meaning of this field is up to the widget.
    /// a textbox might set this to true if the user pressed enter.
    pub submitted: bool,
}

pub open spec fn zero_rect() -> Rect {
    Rect { min: Position { x: 0, y: 0 }, max: Position { x: 0, y: 0 } }
}

impl Default for UIResult {
    fn default() -> (r: UIResult)
        ensures
            r.id is None,
            r.rect == zero_rect(),
            r.full_rect == zero_rect(),
            !r.clicked && !r.hovered && !r.submitted,
    {
        UIResult {
            id: None,
            rect: Rect::zero(),
            full_rect: Rect::zero(),
            clicked: false,
            hovered: false,
            submitted: false,
        }
    }
}

impl UIResult {
    pub fn set_clicked(&mut self, clicked: bool)
        ensures
            *final(self) == (UIResult { clicked, ..*old(self) }),
    {
        self.clicked = clicked;
    }

    pub fn set_hovered(&mut self, hovered: bool)
        ensures
            *final(self) == (UIResult { hovered, ..*old(self) }),
    {
        self.hovered = hovered;
    }
}

/// Lays widgets out one after another inside a bounding rectangle.
#[derive(Debug)]
pub struct Placer {
    pub max_rect: Rect,
    pub cursor: Position,
    pub cross_size: u32,
    pub direction: Direction,
    pub padding_mode: PaddingMode,
    pub margin_mode: MarginMode,
    pub gap: u32,
}

/// Where the cursor of a placer starts for the given bounds and direction.
pub open spec fn start_cursor(bounds: Rect, direction: Direction) -> Position {
    match direction {
        Direction::LeftToRight => bounds.min,
        Direction::RightToLeft => Position { x: bounds.max.x, y: bounds.min.y },
        Direction::TopToBottom => bounds.min,
        Direction::BottomToTop => Position { x: bounds.min.x, y: bounds.max.y },
    }
}

/// The space around a widget: twice the gap, plus twice the padding gap if there is one.
pub open spec fn spec_total_gap(gap: u32, padding: PaddingMode) -> int {
    gap * 2 + match padding {
        PaddingMode::Gap(g) => g * 2,
        PaddingMode::Fill => 0,
    }
}

/// `spec_total_gap` can be computed in `u32` without overflow.
pub open spec fn total_gap_fits(gap: u32, padding: PaddingMode) -> bool {
    &&& gap * 2 <= u32::MAX
    &&& match padding {
        PaddingMode::Gap(g) => g * 2 <= u32::MAX,
        PaddingMode::Fill => true,
    }
    &&& spec_total_gap(gap, padding) <= u32::MAX
}

/// The rectangle (as integer corners) that a widget of padded size `w` x `h` occupies,
/// including its margin, before anything is clamped to 64 bits.
pub open spec fn padded_corners(p: Placer, w: int, h: int) -> (int, int, int, int) {
    let c = p.cursor;
    let grow = p.margin_mode is Grow;
    match p.direction {
        Direction::LeftToRight => (
            c.x as int,
            c.y as int,
            c.x + w,
            if grow { c.y + p.max_rect.spec_height() } else { c.y + h },
        ),
        Direction::RightToLeft => (
            c.x - w,
            c.y as int,
            c.x as int,
            if grow { c.y + p.max_rect.spec_height() } else { c.y + h },
        ),
        Direction::TopToBottom => (
            c.x as int,
            c.y as int,
            if grow { p.max_rect.max.x as int } else { c.x + w },
            c.y + h,
        ),
        Direction::BottomToTop => (
            c.x as int,
            c.y - h,
            if grow { p.max_rect.max.x as int } else { c.x + w },
            c.y as int,
        ),
    }
}

/// The cursor and cross size after advancing past a widget of padded size `w` x `h`,
/// as integers (wrapping to the next row or column when the bounds are reached).
pub open spec fn advanced_cursor(p: Placer, w: int, h: int) -> (int, int, int) {
    let c = p.cursor;
    let mr = p.max_rect;
    match p.direction {
        Direction::LeftToRight => if c.x + w >= mr.max.x {
            (mr.min.x as int, c.y + p.cross_size, 0)
        } else {
            (c.x + w, c.y as int, p.cross_size as int)
        },
        Direction::RightToLeft => if c.x - w <= mr.min.x {
            (mr.max.x as int, c.y - p.cross_size, 0)
        } else {
            (c.x - w, c.y as int, p.cross_size as int)
        },
        Direction::TopToBottom => if c.y + h >= mr.max.y {
            (c.x + p.cross_size, mr.min.y as int, 0)
        } else {
            (c.x as int, c.y + h, p.cross_size as int)
        },
        Direction::BottomToTop => if c.y - h <= mr.min.y {
            (c.x + p.cross_size, mr.max.y as int, 0)
        } else {
            (c.x as int, c.y - h, p.cross_size as int)
        },
    }
}

pub open spec fn max_u32(a: u32, b: u32) -> u32 {
    if a >= b { a } else { b }
}

/// How far a padded widget reaches across the direction of placement.
pub open spec fn cross_extent(direction: Direction, padded: Rect) -> u32 {
    match direction {
        Direction::LeftToRight | Direction::RightToLeft => padded.spec_height(),
        _ => padded.spec_width(),
    }
}

/// The widget's own rectangle inside its padded space: centered when there is a padding
/// gap, the whole padded space otherwise; then shrunk by the gap on every side.
pub open spec fn spec_widget_space(
    padding: PaddingMode,
    gap: u32,
    padded: Rect,
    desired: Dimension,
) -> Rect {
    let (x0, y0, x1, y1) = (padded.min.x as int, padded.min.y as int, padded.max.x as int, padded.max.y as int);
    let inner = match padding {
        PaddingMode::Gap(_) => {
            let cx = x0 + div_i64((x1 - x0) as i64, 2);
            let cy = y0 + div_i64((y1 - y0) as i64, 2);
            (cx - desired.width / 2, cy - desired.height / 2, cx + desired.width / 2, cy + desired.height / 2)
        },
        PaddingMode::Fill => (x0, y0, x1, y1),
    };
    Rect {
        min: Position { x: (inner.0 + gap) as i64, y: (inner.1 + gap) as i64 },
        max: Position { x: (inner.2 - gap) as i64, y: (inner.3 - gap) as i64 },
    }
}

/// Every intermediate value of `spec_widget_space` fits in an `i64`.
pub open spec fn widget_space_fits(gap: u32, padded: Rect, desired: Dimension) -> bool {
    let (x0, y0, x1, y1) = (padded.min.x as int, padded.min.y as int, padded.max.x as int, padded.max.y as int);
    let cx = x0 + div_i64((x1 - x0) as i64, 2);
    let cy = y0 + div_i64((y1 - y0) as i64, 2);
    let w = desired.width / 2;
    let h = desired.height / 2;
    &&& fits_i64(cx) && fits_i64(cy)
    &&& fits_i64(cx - w) && fits_i64(cy - h) && fits_i64(cx + w) && fits_i64(cy + h)
    &&& fits_i64(cx - w + gap) && fits_i64(cy - h + gap)
    &&& fits_i64(cx + w - gap) && fits_i64(cy + h - gap)
    &&& fits_i64(x0 + gap) && fits_i64(y0 + gap) && fits_i64(x1 - gap) && fits_i64(y1 - gap)
}

/// Every intermediate value of `alloc_space` fits in its machine type.
pub open spec fn alloc_space_fits(p: Placer, desired: Dimension) -> bool {
    match p.margin_mode {
        MarginMode::Fixed(pos, dim) => fits_i64(pos.x + dim.width) && fits_i64(pos.y + dim.height),
        _ => {
            let g = spec_total_gap(p.gap, p.padding_mode);
            let w = desired.width + g;
            let h = desired.height + g;
            let (x0, y0, x1, y1) = padded_corners(p, w, h);
            let (cx, cy, _cs) = advanced_cursor(p, w, h);
            &&& total_gap_fits(p.gap, p.padding_mode)
            &&& w <= u32::MAX && h <= u32::MAX
            &&& ((p.direction == Direction::LeftToRight || p.direction == Direction::RightToLeft)
                && p.margin_mode is Grow ==> fits_i64(p.max_rect.max.y - p.max_rect.min.y))
            &&& fits_i64(x0) && fits_i64(y0) && fits_i64(x1) && fits_i64(y1)
            &&& fits_i64(x1 - x0) && fits_i64(y1 - y0)
            &&& fits_i64(p.cursor.x + w) && fits_i64(p.cursor.x - w)
            &&& fits_i64(p.cursor.y + h) && fits_i64(p.cursor.y - h)
            &&& fits_i64(cx) && fits_i64(cy)
            &&& widget_space_fits(p.gap, Rect {
                min: Position { x: x0 as i64, y: y0 as i64 },
                max: Position { x: x1 as i64, y: y1 as i64 },
            }, Dimension { width: w as u32, height: h as u32 })
        },
    }
}

/// Growing widgets fill the cross axis: placed along a row (either way), a widget's
/// space is as high as the placer's bounds; placed along a column (either way), it
/// reaches the right edge of the bounds.
pub proof fn lemma_grow_fills_cross_axis(p: Placer, desired: Dimension)
    requires
        p.margin_mode is Grow,
        alloc_space_fits(p, desired),
    ensures
        ({
            let full = spec_alloc_rects(p, desired).1;
            &&& (p.direction == Direction::LeftToRight || p.direction == Direction::RightToLeft)
                ==> full.spec_height() == p.max_rect.spec_height()
            &&& (p.direction == Direction::TopToBottom || p.direction == Direction::BottomToTop)
                ==> full.max.x == p.max_rect.max.x
        }),
{
}

/// Placing a widget at its minimum size: its full space starts at the cursor and is the
/// desired size plus twice the gap and twice the padding on each axis, the widget's own
/// rectangle lies inside that space, and when the row (or column) is not full the next
/// widget's space starts where this one's ends, on the same row (or column).
pub proof fn lemma_minimum_placement(p: Placer, desired: Dimension, next: Dimension)
    requires
        p.margin_mode is Minimum,
        p.direction == Direction::LeftToRight || p.direction == Direction::TopToBottom,
        alloc_space_fits(p, desired),
        alloc_space_fits(spec_alloc_next(p, desired), next),
    ensures
        ({
            let pad = match p.padding_mode {
                PaddingMode::Gap(g) => g as int,
                PaddingMode::Fill => 0int,
            };
            let w = desired.width + 2 * p.gap + 2 * pad;
            let h = desired.height + 2 * p.gap + 2 * pad;
            let (rect, full) = spec_alloc_rects(p, desired);
            let after = spec_alloc_rects(spec_alloc_next(p, desired), next).1;
            &&& full.min == p.cursor
            &&& full.max.x == p.cursor.x + w && full.max.y == p.cursor.y + h
            &&& full.min.x <= rect.min.x <= rect.max.x <= full.max.x
            &&& full.min.y <= rect.min.y <= rect.max.y <= full.max.y
            &&& (p.direction == Direction::LeftToRight && p.cursor.x + w < p.max_rect.max.x) ==> (
                after.min.x == full.max.x && after.min.y == full.min.y)
            &&& (p.direction == Direction::TopToBottom && p.cursor.y + h < p.max_rect.max.y) ==> (
                after.min.y == full.max.y && after.min.x == full.min.x)
        }),
{
}

/// The rectangle the widget itself gets inside its padded space, and the padded space.
pub open spec fn spec_alloc_rects(p: Placer, desired: Dimension) -> (Rect, Rect) {
    match p.margin_mode {
        MarginMode::Fixed(pos, dim) => {
            let r = Rect {
                min: pos,
                max: Position {
                    x: (pos.x + dim.width) as i64,
                    y: (pos.y + dim.height) as i64,
                },
            };
            (r, r)
        },
        _ => {
            let g = spec_total_gap(p.gap, p.padding_mode);
            let w = desired.width + g;
            let h = desired.height + g;
            let (x0, y0, x1, y1) = padded_corners(p, w, h);
            let padded = Rect {
                min: Position { x: x0 as i64, y: y0 as i64 },
                max: Position { x: x1 as i64, y: y1 as i64 },
            };
            let widget = spec_widget_space(p.padding_mode, p.gap, padded, Dimension {
                width: w as u32,
                height: h as u32,
            });
            (widget, padded)
        },
    }
}

/// The placer after allocating space for a widget of the desired size.
pub open spec fn spec_alloc_next(p: Placer, desired: Dimension) -> Placer {
    match p.margin_mode {
        MarginMode::Fixed(_, _) => p,
        _ => {
            let g = spec_total_gap(p.gap, p.padding_mode);
            let w = desired.width + g;
            let h = desired.height + g;
            let (x0, y0, x1, y1) = padded_corners(p, w, h);
            let (cx, cy, cs) = advanced_cursor(p, w, h);
            let padded = Rect {
                min: Position { x: x0 as i64, y: y0 as i64 },
                max: Position { x: x1 as i64, y: y1 as i64 },
            };
            Placer {
                cursor: Position { x: cx as i64, y: cy as i64 },
                cross_size: max_u32(cs as u32, cross_extent(p.direction, padded)),
                ..p
            }
        },
    }
}

/// The room left before the far edge of the bounds, along the x axis.
pub open spec fn spec_room(p: Placer) -> int {
    match p.direction {
        Direction::RightToLeft => p.cursor.x - p.max_rect.min.x,
        _ => p.max_rect.max.x - p.cursor.x,
    }
}

/// The widest a widget may be, after the gaps, given the room left before the far edge.
pub open spec fn spec_max_width(p: Placer) -> u32 {
    let max = spec_room(p) - spec_total_gap(p.gap, p.padding_mode);
    if max < 0 {
        0
    } else {
        max as u32
    }
}

impl Placer {
    pub fn new(bounds: Rect, direction: Direction) -> (r: Placer)
        ensures
            r.max_rect == bounds,
            r.direction == direction,
            r.cross_size == 0,
            r.cursor == start_cursor(bounds, direction),
            r.margin_mode is Minimum,
            r.padding_mode == PaddingMode::Gap(2),
            r.gap == 1,
    {
        let cursor = match direction {
            Direction::LeftToRight => Position::new(bounds.min.x, bounds.min.y),
            Direction::RightToLeft => Position::new(bounds.max.x, bounds.min.y),
            Direction::TopToBottom => Position::new(bounds.min.x, bounds.min.y),
            Direction::BottomToTop => Position::new(bounds.min.x, bounds.max.y),
        };
        Placer {
            max_rect: bounds,
            direction,
            cross_size: 0,
            cursor,
            margin_mode: MarginMode::Minimum,
            padding_mode: PaddingMode::Gap(2),
            gap: 1,
        }
    }

    fn total_gap(&self) -> (r: u32)
        requires
            total_gap_fits(self.gap, self.padding_mode),
        ensures
            r == spec_total_gap(self.gap, self.padding_mode),
    {
        self.gap * 2 + match self.padding_mode {
            PaddingMode::Gap(gap) => gap * 2,
            PaddingMode::Fill => 0,
        }
    }

    pub fn max_width(&self) -> (r: u32)
        requires
            total_gap_fits(self.gap, self.padding_mode),
            fits_i64(self.max_rect.max.x - self.cursor.x),
            fits_i64(self.cursor.x - self.max_rect.min.x),
            fits_i64(spec_room(*self) - spec_total_gap(self.gap, self.padding_mode)),
        ensures
            r == spec_max_width(*self),
    {
        let max_incl_gap = match self.direction {
            Direction::LeftToRight | Direction::TopToBottom | Direction::BottomToTop => {
                self.max_rect.max.x - self.cursor.x
            },
            Direction::RightToLeft => self.cursor.x - self.max_rect.min.x,
        };
        let total_gap = self.total_gap();
        let max = max_incl_gap - total_gap as i64;
        if max < 0 {
            return 0;
        }
        max as u32
    }


    fn padded_space(&self, w: u32, h: u32) -> (r: Rect)
        requires
            ({
                let (x0, y0, x1, y1) = padded_corners(*self, w as int, h as int);
                &&& fits_i64(x0) && fits_i64(y0) && fits_i64(x1) && fits_i64(y1)
                &&& ((self.direction == Direction::LeftToRight || self.direction
                    == Direction::RightToLeft) && self.margin_mode is Grow
                    ==> fits_i64(self.max_rect.max.y - self.max_rect.min.y))
            }),
        ensures
            ({
                let (x0, y0, x1, y1) = padded_corners(*self, w as int, h as int);
                r.min.x == x0 && r.min.y == y0 && r.max.x == x1 && r.max.y == y1
            }),
    {
        let grow = match self.margin_mode {
            MarginMode::Grow => true,
            _ => false,
        };
        let c = self.cursor;
        match self.direction {
            Direction::LeftToRight => {
                let max_y = if grow {
                    c.y + self.max_rect.height() as i64
                } else {
                    c.y + h as i64
                };
                Rect::new(c, Position::new(c.x + w as i64, max_y))
            },
            Direction::RightToLeft => {
                let max_y = if grow {
                    c.y + self.max_rect.height() as i64
                } else {
                    c.y + h as i64
                };
                Rect::new(Position::new(c.x - w as i64, c.y), Position::new(c.x, max_y))
            },
            Direction::TopToBottom => {
                let max_x = if grow {
                    self.max_rect.max.x
                } else {
                    c.x + w as i64
                };
                Rect::new(c, Position::new(max_x, c.y + h as i64))
            },
            Direction::BottomToTop => {
                let max_x = if grow {
                    self.max_rect.max.x
                } else {
                    c.x + w as i64
                };
                Rect::new(Position::new(c.x, c.y - h as i64), Position::new(max_x, c.y))
            },
        }
    }

    fn advance(&mut self, w: u32, h: u32)
        requires
            fits_i64(old(self).cursor.x + w) && fits_i64(old(self).cursor.x - w),
            fits_i64(old(self).cursor.y + h) && fits_i64(old(self).cursor.y - h),
            ({
                let (cx, cy, _cs) = advanced_cursor(*old(self), w as int, h as int);
                fits_i64(cx) && fits_i64(cy)
            }),
        ensures
            ({
                let (cx, cy, cs) = advanced_cursor(*old(self), w as int, h as int);
                *final(self) == (Placer {
                    cursor: Position { x: cx as i64, y: cy as i64 },
                    cross_size: cs as u32,
                    ..*old(self)
                })
            }),
    {
        match self.direction {
            Direction::LeftToRight => {
                self.cursor.x = self.cursor.x + w as i64;
                if self.cursor.x >= self.max_rect.max.x {
                    self.cursor.x = self.max_rect.min.x;
                    self.cursor.y = self.cursor.y + self.cross_size as i64;
                    self.cross_size = 0;
                }
            },
            Direction::RightToLeft => {
                self.cursor.x = self.cursor.x - w as i64;
                if self.cursor.x <= self.max_rect.min.x {
                    self.cursor.x = self.max_rect.max.x;
                    self.cursor.y = self.cursor.y - self.cross_size as i64;
                    self.cross_size = 0;
                }
            },
            Direction::TopToBottom => {
                self.cursor.y = self.cursor.y + h as i64;
                if self.cursor.y >= self.max_rect.max.y {
                    self.cursor.y = self.max_rect.min.y;
                    self.cursor.x = self.cursor.x + self.cross_size as i64;
                    self.cross_size = 0;
                }
            },
            Direction::BottomToTop => {
                self.cursor.y = self.cursor.y - h as i64;
                if self.cursor.y <= self.max_rect.min.y {
                    self.cursor.y = self.max_rect.max.y;
                    self.cursor.x = self.cursor.x + self.cross_size as i64;
                    self.cross_size = 0;
                }
            },
        }
    }

    fn update_cross_size(&mut self, padded: &Rect)
        requires
            padded.sides_fit(),
        ensures
            *final(self) == (Placer {
                cross_size: max_u32(old(self).cross_size, cross_extent(old(self).direction, *padded)),
                ..*old(self)
            }),
    {
        let extent = match self.direction {
            Direction::LeftToRight | Direction::RightToLeft => padded.height(),
            Direction::TopToBottom | Direction::BottomToTop => padded.width(),
        };
        if extent > self.cross_size {
            self.cross_size = extent;
        }
    }

    fn widget_space(&self, padded: &Rect, desired: Dimension) -> (r: Rect)
        requires
            padded.sides_fit(),
            widget_space_fits(self.gap, *padded, desired),
        ensures
            r == spec_widget_space(self.padding_mode, self.gap, *padded, desired),
    {
        let mut widget_space = match self.padding_mode {
            PaddingMode::Gap(_) => {
                let center = padded.min + (padded.max - padded.min) / 2;
                let min = center - (desired / 2);
                let max = center + (desired / 2);
                Rect::new(min, max)
            },
            PaddingMode::Fill => *padded,
        };
        widget_space.min.x = widget_space.min.x + self.gap as i64;
        widget_space.min.y = widget_space.min.y + self.gap as i64;
        widget_space.max.x = widget_space.max.x - self.gap as i64;
        widget_space.max.y = widget_space.max.y - self.gap as i64;
        widget_space
    }

    /// allocate a rect of the desired space.
    ///
    /// there is no guarantee that the returned rect will fit the desired space.
    pub fn alloc_space(&mut self, desired_space: Dimension) -> (r: UIResult)
        requires
            alloc_space_fits(*old(self), desired_space),
        ensures
            (r.rect, r.full_rect) == spec_alloc_rects(*old(self), desired_space),
            *final(self) == spec_alloc_next(*old(self), desired_space),
            r.id is None,
            !r.clicked && !r.hovered && !r.submitted,
    {
        if let MarginMode::Fixed(position, dimension) = self.margin_mode {
            let rect = Rect::new(position, position + dimension);
            return UIResult {
                id: None,
                rect,
                full_rect: rect,
                clicked: false,
                hovered: false,
                submitted: false,
            };
        }
        let mut desired_space = desired_space;
        let total_gap = self.total_gap();
        desired_space.height = desired_space.height + total_gap;
        desired_space.width = desired_space.width + total_gap;

        let w = desired_space.width;
        let h = desired_space.height;
        let padded_space = self.padded_space(w, h);
        self.advance(w, h);
        self.update_cross_size(&padded_space);
        let widget_space = self.widget_space(&padded_space, desired_space);

        UIResult {
            id: None,
            rect: widget_space,
            full_rect: padded_space,
            clicked: false,
            hovered: false,
            submitted: false,
        }
    }
}

} // verus!
