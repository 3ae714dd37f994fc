//! Placement transforms: the center-pivot frame every rotatable region
//! uses, the plain scale-and-translate placement of embedded objects,
//! and the object-fit strategies that scale a raster image's natural
//! pixel size into a target box.
//!
//! A fixed density of 300 dots per inch converts pixels to page-space
//! lengths: one pixel is 25400/300 thousandths of a unit.  Scales are
//! exact rationals, so every fit decision and offset here is computed
//! without rounding beyond the final integer division.

use vstd::prelude::*;
use crate::geom::{BaseSchema, coord_in_range};
use crate::ops::{DrawOp, FitTransform};

verus! {

/// The numerator of the pixel-to-length ratio: thousandths of a unit
/// per inch.
pub const PX_UNITS_PER_INCH: i64 = 25400;

/// The denominator of the pixel-to-length ratio: pixels per inch.
pub const PX_PER_INCH: i64 = 300;

/// The largest box edge, in thousandths of a unit, object fitting
/// accepts.
pub const MAX_OBJECT_BOX: i64 = 1_000_000_000;

/// The largest pixel edge object fitting accepts.
pub const MAX_OBJECT_PX: i64 = 1_000_000;

/// How a raster image's natural size maps into its box.
#[derive(Debug, Clone, Copy, PartialEq, Eq, Structural)]
pub enum ObjectFit {
    /// Stretch independently on each axis to the box.
    Fill,
    /// Scale uniformly to the larger-fitting axis and center on the
    /// other.
    Contain,
    /// Scale uniformly to the smaller-fitting axis; overflow is
    /// clipped by the box.
    Cover,
    /// Render at natural size, anchored at the box origin.
    Natural,
    /// As `Natural` when the natural size already fits the box, else
    /// as `Contain`.
    ScaleDown,
}

impl Default for ObjectFit {
    /// The default strategy stretches to the box.
    fn default() -> (r: ObjectFit)
        ensures
            r is Fill,
    {
        ObjectFit::Fill
    }
}

/// Whether the image's natural size at the fixed density fits inside
/// the box on both axes.
pub open spec fn spec_natural_fits(px_w: int, px_h: int, box_w: int, box_h: int) -> bool {
    px_w * PX_UNITS_PER_INCH <= box_w * PX_PER_INCH
    && px_h * PX_UNITS_PER_INCH <= box_h * PX_PER_INCH
}

/// Whether the image's aspect ratio is wider than the box's.
pub open spec fn spec_wider_than_box(px_w: int, px_h: int, box_w: int, box_h: int) -> bool {
    px_w * box_h > px_h * box_w
}

/// The inputs object fitting accepts: a positive box and a positive
/// pixel size, both bounded.
pub open spec fn object_fit_inputs_ok(
    base: BaseSchema,
    page_height: int,
    px_w: int,
    px_h: int,
) -> bool {
    base.wf()
    && 0 < base.width <= MAX_OBJECT_BOX
    && 0 < base.height <= MAX_OBJECT_BOX
    && 0 < px_w <= MAX_OBJECT_PX
    && 0 < px_h <= MAX_OBJECT_PX
    && coord_in_range(page_height as i64)
}

/// The transform `Contain` chooses: uniform scale to the larger-
/// fitting axis, centered on the other.
pub open spec fn spec_contain_transform(
    base: BaseSchema,
    page_height: int,
    px_w: int,
    px_h: int,
) -> FitTransform {
    if spec_wider_than_box(px_w, px_h, base.width as int, base.height as int) {
        let scaled_h = px_h * base.width / px_w;
        (FitTransform {
            translate_x: base.x,
            translate_y: (page_height - base.y - base.height
                + crate::geom::half_toward_zero(base.height - scaled_h)) as i64,
            scale_x_num: (base.width * PX_PER_INCH) as i64,
            scale_x_den: (px_w * PX_UNITS_PER_INCH) as i64,
            scale_y_num: (base.width * PX_PER_INCH) as i64,
            scale_y_den: (px_w * PX_UNITS_PER_INCH) as i64,
            dpi: PX_PER_INCH as u32,
        })
    } else {
        let scaled_w = px_w * base.height / px_h;
        (FitTransform {
            translate_x: (base.x + crate::geom::half_toward_zero(base.width - scaled_w)) as i64,
            translate_y: (page_height - base.y - base.height) as i64,
            scale_x_num: (base.height * PX_PER_INCH) as i64,
            scale_x_den: (px_h * PX_UNITS_PER_INCH) as i64,
            scale_y_num: (base.height * PX_PER_INCH) as i64,
            scale_y_den: (px_h * PX_UNITS_PER_INCH) as i64,
            dpi: PX_PER_INCH as u32,
        })
    }
}

/// The transform `Natural` chooses: natural size, anchored at the box
/// origin.
pub open spec fn spec_natural_transform(base: BaseSchema, page_height: int) -> FitTransform {
    (FitTransform {
        translate_x: base.x,
        translate_y: (page_height - base.y - base.height) as i64,
        scale_x_num: 1,
        scale_x_den: 1,
        scale_y_num: 1,
        scale_y_den: 1,
        dpi: PX_PER_INCH as u32,
    })
}

/// The transform an object-fit strategy chooses for a natural pixel
/// size inside a box.
pub open spec fn spec_object_fit_transform(
    base: BaseSchema,
    page_height: int,
    px_w: int,
    px_h: int,
    fit: ObjectFit,
) -> FitTransform {
    match fit {
        ObjectFit::Fill => (FitTransform {
            translate_x: base.x,
            translate_y: (page_height - base.y - base.height) as i64,
            scale_x_num: (base.width * PX_PER_INCH) as i64,
            scale_x_den: (px_w * PX_UNITS_PER_INCH) as i64,
            scale_y_num: (base.height * PX_PER_INCH) as i64,
            scale_y_den: (px_w * PX_UNITS_PER_INCH) as i64,
            dpi: PX_PER_INCH as u32,
        }),
        ObjectFit::Contain => spec_contain_transform(base, page_height, px_w, px_h),
        ObjectFit::Cover => {
            if spec_wider_than_box(px_w, px_h, base.width as int, base.height as int) {
                (FitTransform {
                    translate_x: base.x,
                    translate_y: (page_height - base.y - base.height) as i64,
                    scale_x_num: (base.height * PX_PER_INCH) as i64,
                    scale_x_den: (px_h * PX_UNITS_PER_INCH) as i64,
                    scale_y_num: (base.height * PX_PER_INCH) as i64,
                    scale_y_den: (px_h * PX_UNITS_PER_INCH) as i64,
                    dpi: PX_PER_INCH as u32,
                })
            } else {
                (FitTransform {
                    translate_x: base.x,
                    translate_y: (page_height - base.y - base.height) as i64,
                    scale_x_num: (base.width * PX_PER_INCH) as i64,
                    scale_x_den: (px_w * PX_UNITS_PER_INCH) as i64,
                    scale_y_num: (base.width * PX_PER_INCH) as i64,
                    scale_y_den: (px_w * PX_UNITS_PER_INCH) as i64,
                    dpi: PX_PER_INCH as u32,
                })
            }
        },
        ObjectFit::Natural => spec_natural_transform(base, page_height),
        ObjectFit::ScaleDown => {
            if spec_natural_fits(px_w, px_h, base.width as int, base.height as int) {
                spec_natural_transform(base, page_height)
            } else {
                spec_contain_transform(base, page_height, px_w, px_h)
            }
        },
    }
}

/// Computes the placement of an image of the given natural pixel size
/// inside the box, under an object-fit strategy, at the fixed density.
pub fn calculate_object_fit_transform(
    base: &BaseSchema,
    page_height: i64,
    px_w: i64,
    px_h: i64,
    fit: ObjectFit,
) -> (r: FitTransform)
    requires
        object_fit_inputs_ok(*base, page_height as int, px_w as int, px_h as int),
    ensures
        r == spec_object_fit_transform(*base, page_height as int, px_w as int, px_h as int,
            fit),
{
    proof {
        lemma_object_fit_products(base.width as int, base.height as int, px_w as int,
            px_h as int);
    }
    let base_translate_y = page_height - base.y - base.height;
    match fit {
        ObjectFit::Fill => FitTransform {
            translate_x: base.x,
            translate_y: base_translate_y,
            scale_x_num: base.width * PX_PER_INCH,
            scale_x_den: px_w * PX_UNITS_PER_INCH,
            scale_y_num: base.height * PX_PER_INCH,
            scale_y_den: px_w * PX_UNITS_PER_INCH,
            dpi: 300,
        },
        ObjectFit::Contain => contain_transform(base, page_height, px_w, px_h),
        ObjectFit::Cover => {
            if px_w * base.height > px_h * base.width {
                FitTransform {
                    translate_x: base.x,
                    translate_y: base_translate_y,
                    scale_x_num: base.height * PX_PER_INCH,
                    scale_x_den: px_h * PX_UNITS_PER_INCH,
                    scale_y_num: base.height * PX_PER_INCH,
                    scale_y_den: px_h * PX_UNITS_PER_INCH,
                    dpi: 300,
                }
            } else {
                FitTransform {
                    translate_x: base.x,
                    translate_y: base_translate_y,
                    scale_x_num: base.width * PX_PER_INCH,
                    scale_x_den: px_w * PX_UNITS_PER_INCH,
                    scale_y_num: base.width * PX_PER_INCH,
                    scale_y_den: px_w * PX_UNITS_PER_INCH,
                    dpi: 300,
                }
            }
        },
        ObjectFit::Natural => FitTransform {
            translate_x: base.x,
            translate_y: base_translate_y,
            scale_x_num: 1,
            scale_x_den: 1,
            scale_y_num: 1,
            scale_y_den: 1,
            dpi: 300,
        },
        ObjectFit::ScaleDown => {
            if px_w * PX_UNITS_PER_INCH <= base.width * PX_PER_INCH
                && px_h * PX_UNITS_PER_INCH <= base.height * PX_PER_INCH {
                FitTransform {
                    translate_x: base.x,
                    translate_y: base_translate_y,
                    scale_x_num: 1,
                    scale_x_den: 1,
                    scale_y_num: 1,
                    scale_y_den: 1,
                    dpi: 300,
                }
            } else {
                contain_transform(base, page_height, px_w, px_h)
            }
        },
    }
}

/// The `Contain` placement: uniform scale to the larger-fitting axis,
/// centered on the other.
fn contain_transform(base: &BaseSchema, page_height: i64, px_w: i64, px_h: i64) -> (r:
    FitTransform)
    requires
        object_fit_inputs_ok(*base, page_height as int, px_w as int, px_h as int),
    ensures
        r == spec_contain_transform(*base, page_height as int, px_w as int, px_h as int),
{
    proof {
        lemma_object_fit_products(base.width as int, base.height as int, px_w as int,
            px_h as int);
    }
    if px_w * base.height > px_h * base.width {
        // Wider than the box: fit to the width, center vertically.
        let scaled_h = px_h * base.width / px_w;
        let offset_y = (base.height - scaled_h) / 2;
        proof {
            assert(px_h * base.width >= 0);
            assert(scaled_h == px_h as int * base.width as int / px_w as int);
            assert(0 <= scaled_h <= MAX_OBJECT_PX as int * MAX_OBJECT_BOX as int)
                by (nonlinear_arith)
                requires
                    0 <= px_h as int * base.width as int
                        <= MAX_OBJECT_PX as int * MAX_OBJECT_BOX as int,
                    px_w >= 1,
                    scaled_h == px_h as int * base.width as int / px_w as int,
            ;
        }
        FitTransform {
            translate_x: base.x,
            translate_y: page_height - base.y - base.height + offset_y,
            scale_x_num: base.width * PX_PER_INCH,
            scale_x_den: px_w * PX_UNITS_PER_INCH,
            scale_y_num: base.width * PX_PER_INCH,
            scale_y_den: px_w * PX_UNITS_PER_INCH,
            dpi: 300,
        }
    } else {
        // Taller than (or equal to) the box: fit to the height, center
        // horizontally.
        let scaled_w = px_w * base.height / px_h;
        let offset_x = (base.width - scaled_w) / 2;
        proof {
            assert(0 <= scaled_w <= MAX_OBJECT_PX as int * MAX_OBJECT_BOX as int)
                by (nonlinear_arith)
                requires
                    0 <= px_w as int * base.height as int
                        <= MAX_OBJECT_PX as int * MAX_OBJECT_BOX as int,
                    px_h >= 1,
                    scaled_w == px_w as int * base.height as int / px_h as int,
            ;
        }
        FitTransform {
            translate_x: base.x + offset_x,
            translate_y: page_height - base.y - base.height,
            scale_x_num: base.height * PX_PER_INCH,
            scale_x_den: px_h * PX_UNITS_PER_INCH,
            scale_y_num: base.height * PX_PER_INCH,
            scale_y_den: px_h * PX_UNITS_PER_INCH,
            dpi: 300,
        }
    }
}

/// The products object fitting computes stay inside `i64`.
proof fn lemma_object_fit_products(box_w: int, box_h: int, px_w: int, px_h: int)
    by (nonlinear_arith)
    requires
        0 < box_w <= MAX_OBJECT_BOX as int,
        0 < box_h <= MAX_OBJECT_BOX as int,
        0 < px_w <= MAX_OBJECT_PX as int,
        0 < px_h <= MAX_OBJECT_PX as int,
    ensures
        0 <= box_w * PX_PER_INCH as int <= MAX_OBJECT_BOX as int * PX_PER_INCH as int,
        0 <= box_h * PX_PER_INCH as int <= MAX_OBJECT_BOX as int * PX_PER_INCH as int,
        0 < px_w * PX_UNITS_PER_INCH as int <= MAX_OBJECT_PX as int * PX_UNITS_PER_INCH as int,
        0 < px_h * PX_UNITS_PER_INCH as int <= MAX_OBJECT_PX as int * PX_UNITS_PER_INCH as int,
        0 <= px_h * box_w <= MAX_OBJECT_PX as int * MAX_OBJECT_BOX as int,
        0 <= px_w * box_h <= MAX_OBJECT_PX as int * MAX_OBJECT_BOX as int,
        0 <= px_h * box_w / px_w <= MAX_OBJECT_PX as int * MAX_OBJECT_BOX as int,
        0 <= px_w * box_h / px_h <= MAX_OBJECT_PX as int * MAX_OBJECT_BOX as int,
        0 <= px_w * PX_UNITS_PER_INCH as int,
        0 <= px_h * PX_UNITS_PER_INCH as int,
{
}

/// Produces the symbolic center-pivot placement frame for a box
/// rotated about its own center by an angle in millidegrees; the
/// document writer evaluates the trigonometry.  An unrotated box is
/// the plain translation to `(x, y)`.
pub fn calculate_transform_matrix_with_center_pivot(
    x: i64,
    y: i64,
    width: i64,
    height: i64,
    rotate_mdeg: i64,
) -> (r: DrawOp)
    ensures
        r == (DrawOp::SetMatrixPivot { x, y, width, height, rotate_mdeg }),
{
    DrawOp::SetMatrixPivot { x, y, width, height, rotate_mdeg }
}

impl BaseSchema {
    /// The placement of an embedded object stretched to this box.  An
    /// object with a known natural pixel width scales by the ratio of
    /// the box to the natural size on each axis, against the natural
    /// width; an object without one scales by the box lengths in whole
    /// units.
    pub fn get_matrix(&self, page_height: i64, original_width_px: Option<i64>) -> (r:
        FitTransform)
        requires
            self.wf(),
            coord_in_range(page_height),
            match original_width_px {
                Some(px) => 0 < px <= MAX_OBJECT_PX && self.width <= MAX_OBJECT_BOX
                    && self.height <= MAX_OBJECT_BOX,
                None => true,
            },
        ensures
            match original_width_px {
                Some(px) => r == (FitTransform {
                    translate_x: self.x,
                    translate_y: (page_height - self.y - self.height) as i64,
                    scale_x_num: (self.width * PX_PER_INCH) as i64,
                    scale_x_den: (px * PX_UNITS_PER_INCH) as i64,
                    scale_y_num: (self.height * PX_PER_INCH) as i64,
                    scale_y_den: (px * PX_UNITS_PER_INCH) as i64,
                    dpi: PX_PER_INCH as u32,
                }),
                None => r == (FitTransform {
                    translate_x: self.x,
                    translate_y: (page_height - self.y - self.height) as i64,
                    scale_x_num: self.width,
                    scale_x_den: 1000,
                    scale_y_num: self.height,
                    scale_y_den: 1000,
                    dpi: PX_PER_INCH as u32,
                }),
            },
    {
        let translate_y = page_height - self.y - self.height;
        match original_width_px {
            Some(px) => {
                proof {
                    lemma_object_fit_products(
                        if self.width > 0 { self.width as int } else { 1int },
                        if self.height > 0 { self.height as int } else { 1int },
                        px as int, px as int);
                    assert(0 <= self.width * PX_PER_INCH) by (nonlinear_arith)
                        requires self.width >= 0;
                    assert(self.width * PX_PER_INCH
                        <= MAX_OBJECT_BOX as int * PX_PER_INCH as int) by (nonlinear_arith)
                        requires 0 <= self.width <= MAX_OBJECT_BOX;
                    assert(0 <= self.height * PX_PER_INCH
                        && self.height * PX_PER_INCH
                            <= MAX_OBJECT_BOX as int * PX_PER_INCH as int)
                        by (nonlinear_arith)
                        requires 0 <= self.height <= MAX_OBJECT_BOX;
                }
                FitTransform {
                    translate_x: self.x,
                    translate_y,
                    scale_x_num: self.width * PX_PER_INCH,
                    scale_x_den: px * PX_UNITS_PER_INCH,
                    scale_y_num: self.height * PX_PER_INCH,
                    scale_y_den: px * PX_UNITS_PER_INCH,
                    dpi: 300,
                }
            }
            None => FitTransform {
                translate_x: self.x,
                translate_y,
                scale_x_num: self.width,
                scale_x_den: 1000,
                scale_y_num: self.height,
                scale_y_den: 1000,
                dpi: 300,
            },
        }
    }
}

} // verus!
