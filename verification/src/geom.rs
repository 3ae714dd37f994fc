//! Page-space geometry: frames (four margins), bounding boxes, the
//! common fields of every region, and alignment rules.
//!
//! Lengths are integers in thousandths of the page unit and may be
//! negative only where an offset can be (alignment of content larger
//! than its box); widths and heights of well-formed boxes are
//! non-negative.

use vstd::prelude::*;

verus! {

/// Horizontal alignment of content inside a box.
#[derive(Debug, Clone, Copy, PartialEq, Eq, Structural)]
pub enum Alignment {
    Left,
    Center,
    Right,
    Justify,
}

/// Vertical alignment of content inside a box.
#[derive(Debug, Clone, Copy, PartialEq, Eq, Structural)]
pub enum VerticalAlignment {
    Top,
    Middle,
    Bottom,
}

/// A point in page space, as template files carry positions.
#[derive(Debug, Clone, Copy, PartialEq, Eq, Structural)]
pub struct JsonPosition {
    pub x: i64,
    pub y: i64,
}

/// Four independent margins, subtracted from a box before layout.
#[derive(Debug, Clone, Copy, PartialEq, Eq, Structural)]
pub struct Frame {
    pub top: i64,
    pub right: i64,
    pub bottom: i64,
    pub left: i64,
}

impl Frame {
    /// True when every margin is non-negative and small enough that
    /// frame arithmetic cannot overflow.
    pub open spec fn wf(self) -> bool {
        0 <= self.top <= 0x4000_0000_0000
        && 0 <= self.right <= 0x4000_0000_0000
        && 0 <= self.bottom <= 0x4000_0000_0000
        && 0 <= self.left <= 0x4000_0000_0000
    }

    pub fn new(top: i64, right: i64, bottom: i64, left: i64) -> (r: Frame)
        requires
            0 <= top <= 0x4000_0000_0000,
            0 <= right <= 0x4000_0000_0000,
            0 <= bottom <= 0x4000_0000_0000,
            0 <= left <= 0x4000_0000_0000,
        ensures
            r.wf(),
            r.top == top,
            r.right == right,
            r.bottom == bottom,
            r.left == left,
    {
        Frame { top, right, bottom, left }
    }

    /// A frame of four zero margins.
    pub fn zero() -> (r: Frame)
        ensures
            r.wf(),
            r.top == 0 && r.right == 0 && r.bottom == 0 && r.left == 0,
    {
        Frame { top: 0, right: 0, bottom: 0, left: 0 }
    }

    /// The four margins read from a list `[top, right, bottom, left]`,
    /// as page templates carry them; fails when the list is short or a
    /// value is out of range.
    pub fn from_list(values: &Vec<i64>) -> (r: Result<Frame, crate::error::Error>)
        ensures
            r is Ok ==> values@.len() >= 4
                && (r->Ok_0).wf()
                && (r->Ok_0).top == values@[0]
                && (r->Ok_0).right == values@[1]
                && (r->Ok_0).bottom == values@[2]
                && (r->Ok_0).left == values@[3],
            r is Err ==> values@.len() < 4
                || !(Frame {
                    top: values@[0],
                    right: values@[1],
                    bottom: values@[2],
                    left: values@[3],
                }).wf(),
    {
        if values.len() < 4 {
            return Err(crate::error::Error::ValueOutOfRange);
        }
        let top = values[0];
        let right = values[1];
        let bottom = values[2];
        let left = values[3];
        if top < 0 || top > 0x4000_0000_0000
            || right < 0 || right > 0x4000_0000_0000
            || bottom < 0 || bottom > 0x4000_0000_0000
            || left < 0 || left > 0x4000_0000_0000 {
            return Err(crate::error::Error::ValueOutOfRange);
        }
        Ok(Frame { top, right, bottom, left })
    }
}

/// An axis-aligned box in page space.
#[derive(Debug, Clone, Copy, PartialEq, Eq, Structural)]
pub struct BoundingBox {
    pub x: i64,
    pub y: i64,
    pub width: i64,
    pub height: i64,
}

impl BoundingBox {
    pub fn new(x: i64, y: i64, width: i64, height: i64) -> (r: BoundingBox)
        ensures
            r.x == x && r.y == y && r.width == width && r.height == height,
    {
        BoundingBox { x, y, width, height }
    }
}

/// The geometry every region carries: a name and its box.
#[derive(Debug, Clone)]
pub struct BaseSchema {
    pub name: String,
    pub x: i64,
    pub y: i64,
    pub width: i64,
    pub height: i64,
}

/// Geometry values the layout arithmetic can always handle without
/// overflow.
pub open spec fn coord_in_range(v: i64) -> bool {
    -1_000_000_000_000_000 <= v <= 1_000_000_000_000_000
}

impl BaseSchema {
    pub open spec fn wf(self) -> bool {
        coord_in_range(self.x)
        && coord_in_range(self.y)
        && 0 <= self.width <= 0x4000_0000_0000
        && 0 <= self.height <= 1_000_000_000_000_000
    }

    pub fn new(name: String, x: i64, y: i64, width: i64, height: i64) -> (r: BaseSchema)
        requires
            coord_in_range(x),
            coord_in_range(y),
            0 <= width <= 0x4000_0000_0000,
            0 <= height <= 1_000_000_000_000_000,
        ensures
            r.wf(),
            r.name@ == name@,
            r.x == x && r.y == y && r.width == width && r.height == height,
    {
        BaseSchema { name, x, y, width, height }
    }
}

/// The page master: the physical page size, the page margins, and
/// nothing else layout needs.
#[derive(Debug, Clone, Copy, PartialEq, Eq, Structural)]
pub struct BasePdf {
    pub width: i64,
    pub height: i64,
    pub padding: Frame,
}

impl BasePdf {
    /// A well-formed page master.
    pub open spec fn wf(self) -> bool {
        0 <= self.width <= 0x4000_0000_0000
        && 0 <= self.height <= 0x4000_0000_0000
        && self.padding.wf()
    }

    pub fn new(width: i64, height: i64, padding: Frame) -> (r: BasePdf)
        requires
            0 <= width <= 0x4000_0000_0000,
            0 <= height <= 0x4000_0000_0000,
            padding.wf(),
        ensures
            r.wf(),
            r.width == width && r.height == height && r.padding == padding,
    {
        BasePdf { width, height, padding }
    }
}

/// The width and height left inside a box once a padding frame is
/// subtracted, clamped at zero.
pub open spec fn spec_effective_size(width: i64, height: i64, padding: Frame) -> (i64, i64) {
    (
        if width - padding.left - padding.right >= 0 {
            (width - padding.left - padding.right) as i64
        } else {
            0i64
        },
        if height - padding.top - padding.bottom >= 0 {
            (height - padding.top - padding.bottom) as i64
        } else {
            0i64
        },
    )
}

/// Subtracts a padding frame from a box, clamping each axis at zero.
pub fn effective_box_size(width: i64, height: i64, padding: &Frame) -> (r: (i64, i64))
    requires
        0 <= width <= 1_000_000_000_000_000,
        0 <= height <= 1_000_000_000_000_000,
        padding.wf(),
    ensures
        r == spec_effective_size(width, height, *padding),
        0 <= r.0 <= width,
        0 <= r.1 <= height,
{
    let w = width - padding.left - padding.right;
    let h = height - padding.top - padding.bottom;
    (if w >= 0 { w } else { 0 }, if h >= 0 { h } else { 0 })
}

/// Signed division by two as the i64 `/` operator computes it
/// (truncation toward zero).
pub open spec fn half_toward_zero(v: int) -> int {
    if v >= 0 {
        v / 2
    } else {
        0 - ((0 - v) / 2)
    }
}

/// The vertical offset of a block of the given total height inside a
/// box, under a vertical alignment rule.  A block taller than the box
/// yields a negative offset for `Middle` and `Bottom`.
pub open spec fn spec_vertical_offset(
    alignment: VerticalAlignment,
    box_height: int,
    total_height: int,
) -> int {
    match alignment {
        VerticalAlignment::Top => 0,
        VerticalAlignment::Middle => half_toward_zero(box_height - total_height),
        VerticalAlignment::Bottom => box_height - total_height,
    }
}

/// A value inside the wider range offset arithmetic accepts: content
/// extents can exceed page geometry, but must stay far from the
/// integer limits.
pub open spec fn extent_in_range(v: i64) -> bool {
    -2_000_000_000_000_000_000 <= v <= 2_000_000_000_000_000_000
}

/// Computes the vertical alignment offset of content inside a box.
pub fn calculate_vertical_offset(
    alignment: VerticalAlignment,
    box_height: i64,
    total_height: i64,
) -> (r: i64)
    requires
        extent_in_range(box_height),
        extent_in_range(total_height),
    ensures
        r == spec_vertical_offset(alignment, box_height as int, total_height as int),
        (box_height - total_height <= r <= 0) || (0 <= r <= box_height - total_height),
{
    match alignment {
        VerticalAlignment::Top => 0,
        VerticalAlignment::Middle => (box_height - total_height) / 2,
        VerticalAlignment::Bottom => box_height - total_height,
    }
}

/// The horizontal offset of a line of the given width inside a box,
/// before any left padding is added, under a horizontal alignment
/// rule.  `Justify` anchors at the left like `Left`; the extra space is
/// spent on character spacing instead.
pub open spec fn spec_horizontal_offset(
    alignment: Alignment,
    box_width: int,
    line_width: int,
) -> int {
    match alignment {
        Alignment::Left => 0,
        Alignment::Center => half_toward_zero(box_width - line_width),
        Alignment::Right => box_width - line_width,
        Alignment::Justify => 0,
    }
}

/// Computes the horizontal alignment offset of a line inside a box.
pub fn calculate_horizontal_offset(
    alignment: Alignment,
    box_width: i64,
    line_width: i64,
) -> (r: i64)
    requires
        extent_in_range(box_width),
        extent_in_range(line_width),
    ensures
        r == spec_horizontal_offset(alignment, box_width as int, line_width as int),
        (box_width - line_width <= r <= 0) || (0 <= r <= box_width - line_width),
{
    match alignment {
        Alignment::Left => 0,
        Alignment::Center => (box_width - line_width) / 2,
        Alignment::Right => box_width - line_width,
        Alignment::Justify => 0,
    }
}

} // verus!
