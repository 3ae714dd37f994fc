//! The line region: a horizontal stroke of the region's width,
//! optionally rotated about the center of its zero-height box.

use vstd::prelude::*;
use crate::color::{Rgb, parse_color, css_color_of};
use crate::error::Error;
use crate::geom::{BaseSchema, JsonPosition, coord_in_range};
use crate::ops::{DrawOp, OpBuffer, PaintMode, PolyPoint, spec_page_at};

verus! {

/// A line region as the template file carries it.
#[derive(Debug, Clone)]
pub struct JsonLineSchema {
    pub name: String,
    pub position: JsonPosition,
    pub width: i64,
    pub height: Option<i64>,
    pub rotate: Option<i64>,
    pub opacity: Option<i64>,
    pub border_width: Option<i64>,
    pub color: String,
}

/// A validated line region.
#[derive(Debug, Clone)]
pub struct Line {
    pub base: BaseSchema,
    pub rotate: Option<i64>,
    pub opacity: Option<i64>,
    pub border_width: i64,
    pub color: Rgb,
}

/// What a line draw needs.
#[derive(Debug, Clone)]
pub struct DrawLine {
    pub x: i64,
    pub y: i64,
    pub width: i64,
    pub rotate: Option<i64>,
    pub page_height: i64,
    pub color: Rgb,
    pub border_width: i64,
}

/// Builds the instruction run that draws a line: a center-pivot frame
/// of zero height at the position, the stroke color and width, and a
/// two-point stroked polygon.
pub fn draw_line(props: DrawLine) -> (r: Vec<DrawOp>)
    requires
        -4_000_000_000_000_000 <= props.x <= 4_000_000_000_000_000,
        -4_000_000_000_000_000 <= props.y <= 4_000_000_000_000_000,
        -4_000_000_000_000_000 <= props.page_height <= 4_000_000_000_000_000,
    ensures
        r@.len() == 6,
        r@[0] is SaveGraphicsState,
        r@[1] == (DrawOp::SetMatrixPivot {
            x: props.x,
            y: (props.page_height - props.y) as i64,
            width: props.width,
            height: 0,
            rotate_mdeg: (match props.rotate {
                Some(angle) => angle,
                None => 0,
            }),
        }),
        r@[2] == (DrawOp::SetOutlineColor { color: props.color }),
        r@[3] == (DrawOp::SetOutlineThickness { thickness: props.border_width }),
        (r@[4] matches DrawOp::DrawPolygon { points, mode }
            && points@.len() == 2
            && points@[0] == (PolyPoint { x: 0, y: 0, bezier: false })
            && points@[1] == (PolyPoint { x: props.width, y: 0, bezier: false })
            && mode is Stroke),
        r@[5] is RestoreGraphicsState,
{
    let rotate_mdeg = match props.rotate {
        Some(angle) => angle,
        None => 0,
    };
    let mut points: Vec<PolyPoint> = Vec::new();
    points.push(PolyPoint { x: 0, y: 0, bezier: false });
    points.push(PolyPoint { x: props.width, y: 0, bezier: false });
    let mut ops: Vec<DrawOp> = Vec::new();
    ops.push(DrawOp::SaveGraphicsState);
    ops.push(DrawOp::SetMatrixPivot {
        x: props.x,
        y: props.page_height - props.y,
        width: props.width,
        height: 0,
        rotate_mdeg,
    });
    ops.push(DrawOp::SetOutlineColor { color: props.color });
    ops.push(DrawOp::SetOutlineThickness { thickness: props.border_width });
    ops.push(DrawOp::DrawPolygon { points, mode: PaintMode::Stroke });
    ops.push(DrawOp::RestoreGraphicsState);
    ops
}

impl Line {
    /// A well-formed line region.
    pub open spec fn wf(self) -> bool {
        self.base.wf()
    }

    /// Whether a line region's file form validates: geometry inside
    /// the ranges, the color a CSS color.
    pub open spec fn spec_json_valid(json: JsonLineSchema) -> bool {
        &&& coord_in_range(json.position.x) && coord_in_range(json.position.y)
        &&& 0 <= json.width <= 0x4000_0000_0000
        &&& (match json.height {
            Some(h) => 0 <= h <= 0x4000_0000_0000,
            None => true,
        })
        &&& css_color_of(json.color@) is Some
    }

    /// Validates a line region from its file form: the color must
    /// parse; a missing height is zero, a missing stroke width one
    /// unit.
    pub fn from_json(json: JsonLineSchema) -> (r: Result<Line, Error>)
        ensures
            r is Ok <==> Line::spec_json_valid(json),
            r is Err ==> r->Err_0 == Error::ValueOutOfRange
                || r->Err_0 == Error::InvalidColor,
            r is Ok ==> {
                let line = r->Ok_0;
                &&& line.wf()
                &&& css_color_of(json.color@) is Some
                &&& line.base.x == json.position.x && line.base.y == json.position.y
                &&& line.base.width == json.width
                &&& line.base.height == (match json.height {
                    Some(h) => h,
                    None => 0,
                })
                &&& line.rotate == json.rotate
            },
    {
        let height = match json.height {
            Some(h) => h,
            None => 0,
        };
        if !(crate::text::coord_in_range_exec(json.position.x)
            && crate::text::coord_in_range_exec(json.position.y)
            && 0 <= json.width && json.width <= 0x4000_0000_0000
            && 0 <= height && height <= 0x4000_0000_0000) {
            return Err(Error::ValueOutOfRange);
        }
        let color = match parse_color(&json.color) {
            Ok(c) => c,
            Err(e) => {
                return Err(e);
            }
        };
        let base = BaseSchema::new(
            json.name, json.position.x, json.position.y, json.width, height);
        Ok(Line {
            base,
            rotate: json.rotate,
            opacity: json.opacity,
            border_width: match json.border_width {
                Some(w) => w,
                None => 1000,
            },
            color,
        })
    }

    /// The region's geometry.
    pub fn get_base(self) -> (r: BaseSchema)
        ensures
            r == self.base,
    {
        self.base
    }

    /// Appends the line's draw instructions to the page.
    pub fn render(
        &self,
        parent_height: i64,
        page: usize,
        buffer: &mut OpBuffer,
    ) -> (r: Result<(), Error>)
        requires
            self.wf(),
            coord_in_range(parent_height),
            page < usize::MAX,
        ensures
            r is Ok,
            final(buffer).buffer@.len()
                == (if page + 1 >= old(buffer).buffer@.len() {
                    page + 1
                } else {
                    old(buffer).buffer@.len() as int
                }),
            forall|i: int| 0 <= i < final(buffer).buffer@.len() && i != page ==>
                final(buffer).buffer@[i]@ == #[trigger] spec_page_at(old(buffer).buffer@, i),
            spec_page_at(old(buffer).buffer@, page as int).len()
                <= spec_page_at(final(buffer).buffer@, page as int).len(),
            spec_page_at(final(buffer).buffer@, page as int)
                .take(spec_page_at(old(buffer).buffer@, page as int).len() as int)
                == spec_page_at(old(buffer).buffer@, page as int),
            spec_page_at(final(buffer).buffer@, page as int).len()
                == spec_page_at(old(buffer).buffer@, page as int).len() + 6,
    {
        let ops = draw_line(DrawLine {
            x: self.base.x,
            y: self.base.y,
            width: self.base.width,
            rotate: self.rotate,
            page_height: parent_height,
            color: self.color,
            border_width: self.border_width,
        });
        let ghost opsv = ops@;
        buffer.insert(page, ops);
        proof {
            let old_page = spec_page_at(old(buffer).buffer@, page as int);
            let new_page = spec_page_at(buffer.buffer@, page as int);
            assert(new_page == old_page + opsv);
            assert(new_page.take(old_page.len() as int) =~= old_page);
        }
        Ok(())
    }

    pub fn set_x(&mut self, x: i64)
        ensures
            *final(self) == (Line { base: BaseSchema { x, ..old(self).base }, ..*old(self) }),
    {
        self.base.x = x;
    }

    pub fn set_y(&mut self, y: i64)
        ensures
            *final(self) == (Line { base: BaseSchema { y, ..old(self).base }, ..*old(self) }),
    {
        self.base.y = y;
    }

    pub fn set_height(&mut self, height: i64)
        ensures
            *final(self) == (Line {
                base: BaseSchema { height, ..old(self).base },
                ..*old(self)
            }),
    {
        self.base.height = height;
    }

    pub fn get_width(&self) -> (r: i64)
        ensures
            r == self.base.width,
    {
        self.base.width
    }

    pub fn get_height(&self) -> (r: i64)
        ensures
            r == self.base.height,
    {
        self.base.height
    }
}

} // verus!
