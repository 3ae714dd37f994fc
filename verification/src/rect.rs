//! The rectangle region: a filled and stroked box, optionally rotated
//! about its center, plus the rounded-rectangle path builder.

use vstd::prelude::*;
use crate::color::{Rgb, parse_color, css_color_of};
use crate::error::Error;
use crate::geom::{BaseSchema, JsonPosition, coord_in_range};
use crate::ops::{DrawOp, OpBuffer, PaintMode, PolyPoint, spec_page_at};
use crate::transform::MAX_OBJECT_BOX;

verus! {

/// A rectangle region as the template file carries it.
#[derive(Debug, Clone)]
pub struct JsonRectSchema {
    pub name: String,
    pub position: JsonPosition,
    pub width: i64,
    pub height: i64,
    pub rotate: Option<i64>,
    pub opacity: Option<i64>,
    pub border_width: Option<i64>,
    pub border_color: String,
    pub color: String,
}

/// A validated rectangle region.
#[derive(Debug, Clone)]
pub struct Rect {
    pub base: BaseSchema,
    pub rotate: Option<i64>,
    pub opacity: Option<i64>,
    pub border_width: i64,
    pub border_color: Rgb,
    pub color: Rgb,
}

/// What a rectangle draw needs.
#[derive(Debug, Clone)]
pub struct DrawRectangle {
    pub x: i64,
    pub y: i64,
    pub width: i64,
    pub height: i64,
    pub rotate: Option<i64>,
    pub page_height: i64,
    pub color: Option<Rgb>,
    pub border_width: Option<i64>,
    pub border_color: Option<Rgb>,
}

/// Builds the instruction run that draws a rectangle: a center-pivot
/// frame at the box (in writer coordinates), colors, stroke width and
/// the four-corner polygon.  The polygon is filled without a stroke
/// when the fill and border colors coincide, and filled and stroked
/// otherwise.
pub fn draw_rectangle(props: DrawRectangle) -> (r: Vec<DrawOp>)
    requires
        -4_000_000_000_000_000 <= props.x <= 4_000_000_000_000_000,
        -4_000_000_000_000_000 <= props.y <= 4_000_000_000_000_000,
        -4_000_000_000_000_000 <= props.width <= 4_000_000_000_000_000,
        -4_000_000_000_000_000 <= props.height <= 4_000_000_000_000_000,
        -4_000_000_000_000_000 <= props.page_height <= 4_000_000_000_000_000,
    ensures
        r@.len() == 7,
        r@[0] is SaveGraphicsState,
        r@[1] == (DrawOp::SetMatrixPivot {
            x: props.x,
            y: (props.page_height - props.y - props.height) as i64,
            width: props.width,
            height: props.height,
            rotate_mdeg: (match props.rotate {
                Some(angle) => angle,
                None => 0,
            }),
        }),
        r@[2] == (DrawOp::SetOutlineColor {
            color: (match props.border_color {
                Some(c) => c,
                None => (Rgb { r: 0, g: 0, b: 0 }),
            }),
        }),
        r@[3] == (DrawOp::SetFillColor {
            color: (match props.color {
                Some(c) => c,
                None => (Rgb { r: 255, g: 255, b: 255 }),
            }),
        }),
        r@[4] == (DrawOp::SetOutlineThickness {
            thickness: (match props.border_width {
                Some(w) => w,
                None => 100,
            }),
        }),
        (r@[5] matches DrawOp::DrawPolygon { points, mode }
            && points@ == spec_box_points(props.width as int, props.height as int)
            && mode == (if props.color == props.border_color {
                PaintMode::Fill
            } else {
                PaintMode::FillStroke
            })),
        r@[6] is RestoreGraphicsState,
{
    let rotate_mdeg = match props.rotate {
        Some(angle) => angle,
        None => 0,
    };
    let mode = if rgb_option_eq(&props.color, &props.border_color) {
        PaintMode::Fill
    } else {
        PaintMode::FillStroke
    };
    let color = match props.color {
        Some(c) => c,
        None => Rgb::white(),
    };
    let border_color = match props.border_color {
        Some(c) => c,
        None => Rgb::black(),
    };
    let border_width = match props.border_width {
        Some(w) => w,
        None => 100,
    };
    let mut ops: Vec<DrawOp> = Vec::new();
    ops.push(DrawOp::SaveGraphicsState);
    ops.push(DrawOp::SetMatrixPivot {
        x: props.x,
        y: props.page_height - props.y - props.height,
        width: props.width,
        height: props.height,
        rotate_mdeg,
    });
    ops.push(DrawOp::SetOutlineColor { color: border_color });
    ops.push(DrawOp::SetFillColor { color });
    ops.push(DrawOp::SetOutlineThickness { thickness: border_width });
    let corner_points = crate::text::box_polygon(props.width, props.height);
    proof {
        assert(corner_points@ =~= spec_box_points(props.width as int, props.height as int));
    }
    ops.push(DrawOp::DrawPolygon { points: corner_points, mode });
    ops.push(DrawOp::RestoreGraphicsState);
    ops
}

/// Whether two optional colors are the same.
fn rgb_option_eq(a: &Option<Rgb>, b: &Option<Rgb>) -> (r: bool)
    ensures
        r == (*a == *b),
{
    match (a, b) {
        (Some(ca), Some(cb)) => ca.r == cb.r && ca.g == cb.g && ca.b == cb.b,
        (None, None) => true,
        _ => false,
    }
}

impl Rect {
    /// A well-formed rectangle region.
    pub open spec fn wf(self) -> bool {
        self.base.wf()
    }

    /// Whether a rectangle region's file form validates: geometry
    /// inside the ranges, both colors CSS colors.
    pub open spec fn spec_json_valid(json: JsonRectSchema) -> bool {
        &&& coord_in_range(json.position.x) && coord_in_range(json.position.y)
        &&& 0 <= json.width <= 0x4000_0000_0000
        &&& 0 <= json.height <= 0x4000_0000_0000
        &&& css_color_of(json.border_color@) is Some
        &&& css_color_of(json.color@) is Some
    }

    /// Validates a rectangle region from its file form: both colors
    /// must parse; missing border width defaults to one unit.
    pub fn from_json(json: JsonRectSchema) -> (r: Result<Rect, Error>)
        ensures
            r is Ok <==> Rect::spec_json_valid(json),
            r is Err ==> r->Err_0 == Error::ValueOutOfRange
                || r->Err_0 == Error::InvalidColor,
            r is Ok ==> {
                let rect = r->Ok_0;
                &&& rect.wf()
                &&& css_color_of(json.color@) is Some
                &&& css_color_of(json.border_color@) is Some
                &&& rect.base.x == json.position.x && rect.base.y == json.position.y
                &&& rect.base.width == json.width && rect.base.height == json.height
                &&& rect.rotate == json.rotate
            },
            (coord_in_range(json.position.x) && coord_in_range(json.position.y)
                && 0 <= json.width <= 0x4000_0000_0000 && 0 <= json.height <= 0x4000_0000_0000
                && css_color_of(json.border_color@) is None)
                ==> r == Result::<Rect, Error>::Err(Error::InvalidColor),
    {
        if !(crate::text::coord_in_range_exec(json.position.x)
            && crate::text::coord_in_range_exec(json.position.y)
            && 0 <= json.width && json.width <= 0x4000_0000_0000
            && 0 <= json.height && json.height <= 0x4000_0000_0000) {
            return Err(Error::ValueOutOfRange);
        }
        let border_color = match parse_color(&json.border_color) {
            Ok(c) => c,
            Err(e) => {
                return Err(e);
            }
        };
        let color = match parse_color(&json.color) {
            Ok(c) => c,
            Err(e) => {
                return Err(e);
            }
        };
        let base = BaseSchema::new(
            json.name, json.position.x, json.position.y, json.width, json.height);
        Ok(Rect {
            base,
            rotate: json.rotate,
            opacity: json.opacity,
            border_width: match json.border_width {
                Some(w) => w,
                None => 1000,
            },
            border_color,
            color,
        })
    }

    /// The region's geometry.
    pub fn get_base(self) -> (r: BaseSchema)
        ensures
            r == self.base,
    {
        self.base
    }

    /// Appends the rectangle's draw instructions to the page.
    pub fn render(
        &self,
        parent_height: i64,
        page: usize,
        buffer: &mut OpBuffer,
    ) -> (r: Result<(), Error>)
        requires
            self.wf(),
            coord_in_range(parent_height),
            page < usize::MAX,
        ensures
            r is Ok,
            final(buffer).buffer@.len()
                == (if page + 1 >= old(buffer).buffer@.len() {
                    page + 1
                } else {
                    old(buffer).buffer@.len() as int
                }),
            forall|i: int| 0 <= i < final(buffer).buffer@.len() && i != page ==>
                final(buffer).buffer@[i]@ == #[trigger] spec_page_at(old(buffer).buffer@, i),
            spec_page_at(old(buffer).buffer@, page as int).len()
                <= spec_page_at(final(buffer).buffer@, page as int).len(),
            spec_page_at(final(buffer).buffer@, page as int)
                .take(spec_page_at(old(buffer).buffer@, page as int).len() as int)
                == spec_page_at(old(buffer).buffer@, page as int),
            spec_page_at(final(buffer).buffer@, page as int).len()
                == spec_page_at(old(buffer).buffer@, page as int).len() + 7,
    {
        let ops = draw_rectangle(DrawRectangle {
            x: self.base.x,
            y: self.base.y,
            width: self.base.width,
            height: self.base.height,
            rotate: self.rotate,
            page_height: parent_height,
            color: Some(self.color),
            border_width: Some(self.border_width),
            border_color: Some(self.border_color),
        });
        let ghost opsv = ops@;
        buffer.insert(page, ops);
        proof {
            let old_page = spec_page_at(old(buffer).buffer@, page as int);
            let new_page = spec_page_at(buffer.buffer@, page as int);
            assert(new_page == old_page + opsv);
            assert(new_page.take(old_page.len() as int) =~= old_page);
        }
        Ok(())
    }

    pub fn set_x(&mut self, x: i64)
        ensures
            *final(self) == (Rect { base: BaseSchema { x, ..old(self).base }, ..*old(self) }),
    {
        self.base.x = x;
    }

    pub fn set_y(&mut self, y: i64)
        ensures
            *final(self) == (Rect { base: BaseSchema { y, ..old(self).base }, ..*old(self) }),
    {
        self.base.y = y;
    }

    pub fn set_height(&mut self, height: i64)
        ensures
            *final(self) == (Rect {
                base: BaseSchema { height, ..old(self).base },
                ..*old(self)
            }),
    {
        self.base.height = height;
    }

    pub fn get_width(&self) -> (r: i64)
        ensures
            r == self.base.width,
    {
        self.base.width
    }

    pub fn get_height(&self) -> (r: i64)
        ensures
            r == self.base.height,
    {
        self.base.height
    }
}

/// What a rounded-rectangle draw needs.
#[derive(Debug, Clone)]
pub struct DrawRoundedRectangle {
    pub x: i64,
    pub y: i64,
    pub width: i64,
    pub height: i64,
    pub page_height: i64,
    pub color: Option<Rgb>,
    pub border_width: Option<i64>,
    pub border_color: Option<Rgb>,
    pub radius: i64,
}

/// The numerator of the circle-approximation constant the rounded
/// corners use, in millionths.
pub const BEZIER_KAPPA_NUM: i64 = 551_915;

/// The four corners of a box anchored at the frame origin,
/// counterclockwise from the origin.
pub open spec fn spec_box_points(width: int, height: int) -> Seq<PolyPoint> {
    seq![
        (PolyPoint { x: 0, y: 0, bezier: false }),
        (PolyPoint { x: width as i64, y: 0, bezier: false }),
        (PolyPoint { x: width as i64, y: height as i64, bezier: false }),
        (PolyPoint { x: 0, y: height as i64, bezier: false }),
    ]
}

/// The sixteen points of a rounded-rectangle path in writer
/// coordinates, counterclockwise from the lower-left corner: each
/// corner contributes an entry point, two curve control points a fixed
/// fraction of the radius away, and an exit point.
pub open spec fn spec_rounded_points(props: DrawRoundedRectangle) -> Seq<PolyPoint> {
    let kappa = props.radius * BEZIER_KAPPA_NUM / 1_000_000;
    let bottom_y = props.page_height - props.y;
    let top_y = bottom_y + props.height;
    let right_x = props.x + props.width;
    let radius = props.radius;
    seq![
        (PolyPoint { x: props.x, y: (bottom_y + radius) as i64, bezier: false }),
        (PolyPoint { x: props.x, y: (bottom_y + radius - kappa) as i64, bezier: true }),
        (PolyPoint { x: (props.x + radius - kappa) as i64, y: bottom_y as i64, bezier: true }),
        (PolyPoint { x: (props.x + radius) as i64, y: bottom_y as i64, bezier: false }),
        (PolyPoint { x: (right_x - radius) as i64, y: bottom_y as i64, bezier: false }),
        (PolyPoint { x: (right_x - radius + kappa) as i64, y: bottom_y as i64, bezier: true }),
        (PolyPoint { x: right_x as i64, y: (bottom_y + radius - kappa) as i64, bezier: true }),
        (PolyPoint { x: right_x as i64, y: (bottom_y + radius) as i64, bezier: false }),
        (PolyPoint { x: right_x as i64, y: (top_y - radius) as i64, bezier: false }),
        (PolyPoint { x: right_x as i64, y: (top_y - radius + kappa) as i64, bezier: true }),
        (PolyPoint { x: (right_x - radius + kappa) as i64, y: top_y as i64, bezier: true }),
        (PolyPoint { x: (right_x - radius) as i64, y: top_y as i64, bezier: false }),
        (PolyPoint { x: (props.x + radius) as i64, y: top_y as i64, bezier: false }),
        (PolyPoint { x: (props.x + radius - kappa) as i64, y: top_y as i64, bezier: true }),
        (PolyPoint { x: props.x, y: (top_y - radius + kappa) as i64, bezier: true }),
        (PolyPoint { x: props.x, y: (top_y - radius) as i64, bezier: false }),
    ]
}

/// Builds the instruction run that draws a rectangle with rounded
/// corners: colors, stroke width and a sixteen-point polygon whose
/// curve control points sit a fixed fraction of the radius from each
/// corner.  A radius larger than half an edge yields no instructions.
pub fn draw_rounded_rectangle(props: DrawRoundedRectangle) -> (r: Vec<DrawOp>)
    requires
        -4_000_000_000_000_000 <= props.x <= 4_000_000_000_000_000,
        -4_000_000_000_000_000 <= props.y <= 4_000_000_000_000_000,
        0 <= props.width <= 0x4000_0000_0000,
        0 <= props.height <= 0x4000_0000_0000,
        -4_000_000_000_000_000 <= props.page_height <= 4_000_000_000_000_000,
        0 <= props.radius <= MAX_OBJECT_BOX,
    ensures
        (2 * props.radius > props.width || 2 * props.radius > props.height)
            <==> r@.len() == 0,
        r@.len() != 0 ==> r@.len() == 4
            && r@[0] == (DrawOp::SetOutlineColor {
                color: (match props.border_color {
                    Some(c) => c,
                    None => (Rgb { r: 0, g: 0, b: 0 }),
                }),
            })
            && r@[1] == (DrawOp::SetFillColor {
                color: (match props.color {
                    Some(c) => c,
                    None => (Rgb { r: 255, g: 255, b: 255 }),
                }),
            })
            && r@[2] == (DrawOp::SetOutlineThickness {
                thickness: (match props.border_width {
                    Some(w) => w,
                    None => 100,
                }),
            })
            && (r@[3] matches DrawOp::DrawPolygon { points, mode }
                && points@ == spec_rounded_points(props)
                && mode == (match props.color {
                    Some(_) => PaintMode::FillStroke,
                    None => PaintMode::Stroke,
                })),
{
    if 2 * props.radius > props.width || 2 * props.radius > props.height {
        return Vec::new();
    }
    let kappa: i64 = props.radius * BEZIER_KAPPA_NUM / 1_000_000;
    proof {
        assert(0 <= props.radius * BEZIER_KAPPA_NUM
            <= MAX_OBJECT_BOX as int * BEZIER_KAPPA_NUM as int) by (nonlinear_arith)
            requires
                0 <= props.radius <= MAX_OBJECT_BOX,
        ;
    }
    let mode = match props.color {
        Some(_) => PaintMode::FillStroke,
        None => PaintMode::Stroke,
    };
    let color = match props.color {
        Some(c) => c,
        None => Rgb::white(),
    };
    let border_color = match props.border_color {
        Some(c) => c,
        None => Rgb::black(),
    };
    let border_width = match props.border_width {
        Some(w) => w,
        None => 100,
    };
    let bottom_y = props.page_height - props.y;
    let top_y = bottom_y + props.height;
    let right_x = props.x + props.width;
    let radius = props.radius;

    let mut points: Vec<PolyPoint> = Vec::new();
    // Lower-left corner, counterclockwise.
    points.push(PolyPoint { x: props.x, y: bottom_y + radius, bezier: false });
    points.push(PolyPoint { x: props.x, y: bottom_y + radius - kappa, bezier: true });
    points.push(PolyPoint { x: props.x + radius - kappa, y: bottom_y, bezier: true });
    points.push(PolyPoint { x: props.x + radius, y: bottom_y, bezier: false });
    // Lower-right corner.
    points.push(PolyPoint { x: right_x - radius, y: bottom_y, bezier: false });
    points.push(PolyPoint { x: right_x - radius + kappa, y: bottom_y, bezier: true });
    points.push(PolyPoint { x: right_x, y: bottom_y + radius - kappa, bezier: true });
    points.push(PolyPoint { x: right_x, y: bottom_y + radius, bezier: false });
    // Upper-right corner.
    points.push(PolyPoint { x: right_x, y: top_y - radius, bezier: false });
    points.push(PolyPoint { x: right_x, y: top_y - radius + kappa, bezier: true });
    points.push(PolyPoint { x: right_x - radius + kappa, y: top_y, bezier: true });
    points.push(PolyPoint { x: right_x - radius, y: top_y, bezier: false });
    // Upper-left corner.
    points.push(PolyPoint { x: props.x + radius, y: top_y, bezier: false });
    points.push(PolyPoint { x: props.x + radius - kappa, y: top_y, bezier: true });
    points.push(PolyPoint { x: props.x, y: top_y - radius + kappa, bezier: true });
    points.push(PolyPoint { x: props.x, y: top_y - radius, bezier: false });

    let ghost pointsv = points@;
    let mut ops: Vec<DrawOp> = Vec::new();
    ops.push(DrawOp::SetOutlineColor { color: border_color });
    ops.push(DrawOp::SetFillColor { color });
    ops.push(DrawOp::SetOutlineThickness { thickness: border_width });
    ops.push(DrawOp::DrawPolygon { points, mode });
    proof {
        assert(pointsv =~= spec_rounded_points(props));
    }
    ops
}

} // verus!
