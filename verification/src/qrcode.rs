//! The code-symbol region: places a square machine-readable symbol,
//! generated outside the engine from the region's payload, inside its
//! box with alignment and padding.

use vstd::prelude::*;
use crate::error::Error;
use crate::font::MAX_TEXT_LEN;
use crate::geom::{Alignment, VerticalAlignment, BaseSchema, BoundingBox, Frame, JsonPosition, coord_in_range, effective_box_size, calculate_vertical_offset, calculate_horizontal_offset};
use crate::ops::{DrawOp, EmbedSource, OpBuffer, spec_page_at};
use crate::transform::MAX_OBJECT_BOX;
use crate::wrap::chars_of;

verus! {

/// The natural pixel width the symbol generator renders at.
pub const QR_NATURAL_PX: i64 = 256;

/// A code-symbol region as the template file carries it.
#[derive(Debug, Clone)]
pub struct JsonQrCodeSchema {
    pub name: String,
    pub content: String,
    pub position: JsonPosition,
    pub width: i64,
    pub height: i64,
    pub rotate: Option<i64>,
    pub alignment: Option<Alignment>,
    pub vertical_alignment: Option<VerticalAlignment>,
    pub padding: Option<Frame>,
}

/// A validated code-symbol region.
#[derive(Debug, Clone)]
pub struct QrCode {
    pub base: BaseSchema,
    pub content: Vec<char>,
    pub rotate: Option<i64>,
    pub alignment: Alignment,
    pub vertical_alignment: VerticalAlignment,
    pub bounding_box: Option<BoundingBox>,
    pub padding: Option<Frame>,
}

impl QrCode {
    /// A well-formed symbol region: geometry small enough for exact
    /// placement arithmetic.
    pub open spec fn wf(self) -> bool {
        self.base.wf()
        && 0 <= self.base.width <= 1_000_000_000_000_000
        && 0 <= self.base.height <= 1_000_000_000_000_000
        && self.content@.len() <= MAX_TEXT_LEN
        && (match self.padding {
            Some(frame) => frame.wf(),
            None => true,
        })
        && (match self.bounding_box {
            Some(bb) => coord_in_range(bb.x) && coord_in_range(bb.y)
                && 0 <= bb.width <= 1_000_000_000_000_000
                && 0 <= bb.height <= 1_000_000_000_000_000,
            None => true,
        })
    }

    /// Builds a centered symbol region.
    pub fn new(
        name: String,
        x: i64,
        y: i64,
        width: i64,
        height: i64,
        content: Vec<char>,
    ) -> (r: Result<QrCode, Error>)
        ensures
            r is Ok <==> (coord_in_range(x) && coord_in_range(y)
                && 0 <= width <= MAX_OBJECT_BOX && 0 <= height <= MAX_OBJECT_BOX
                && content@.len() <= MAX_TEXT_LEN),
            r is Err ==> r->Err_0 == Error::ValueOutOfRange,
            r is Ok ==> {
                let q = r->Ok_0;
                &&& q.wf()
                &&& q.base.x == x && q.base.y == y
                &&& q.base.width == width && q.base.height == height
                &&& q.content@ == content@
                &&& q.alignment is Center
                &&& q.vertical_alignment is Middle
                &&& q.bounding_box is None
                &&& q.padding is None
            },
    {
        if !(crate::text::coord_in_range_exec(x) && crate::text::coord_in_range_exec(y)
            && 0 <= width && width <= MAX_OBJECT_BOX
            && 0 <= height && height <= MAX_OBJECT_BOX
            && content.len() <= MAX_TEXT_LEN) {
            return Err(Error::ValueOutOfRange);
        }
        let base = BaseSchema::new(name, x, y, width, height);
        Ok(QrCode {
            base,
            content,
            rotate: None,
            alignment: Alignment::Center,
            vertical_alignment: VerticalAlignment::Middle,
            bounding_box: None,
            padding: None,
        })
    }

    /// Whether a symbol region's file form validates: geometry inside
    /// the embedding ranges, well-formed padding, bounded payload.
    pub open spec fn spec_json_valid(json: JsonQrCodeSchema) -> bool {
        &&& coord_in_range(json.position.x) && coord_in_range(json.position.y)
        &&& 0 <= json.width <= MAX_OBJECT_BOX
        &&& 0 <= json.height <= MAX_OBJECT_BOX
        &&& (match json.padding {
            Some(frame) => frame.wf(),
            None => true,
        })
        &&& json.content@.len() <= MAX_TEXT_LEN
    }

    /// Validates a symbol region from its file form.
    pub fn from_json(json: JsonQrCodeSchema) -> (r: Result<QrCode, Error>)
        ensures
            r is Ok <==> QrCode::spec_json_valid(json),
            r is Err ==> r->Err_0 == Error::ValueOutOfRange,
            r is Ok ==> {
                let q = r->Ok_0;
                &&& q.wf()
                &&& q.content@ == json.content@
                &&& q.base.x == json.position.x && q.base.y == json.position.y
                &&& q.base.width == json.width && q.base.height == json.height
                &&& 0 <= q.base.width <= MAX_OBJECT_BOX
                &&& 0 <= q.base.height <= MAX_OBJECT_BOX
            },
    {
        if !(crate::text::coord_in_range_exec(json.position.x)
            && crate::text::coord_in_range_exec(json.position.y)
            && 0 <= json.width && json.width <= MAX_OBJECT_BOX
            && 0 <= json.height && json.height <= MAX_OBJECT_BOX) {
            return Err(Error::ValueOutOfRange);
        }
        match json.padding {
            Some(frame) => {
                if !(frame.top >= 0 && frame.top <= 0x4000_0000_0000
                    && frame.right >= 0 && frame.right <= 0x4000_0000_0000
                    && frame.bottom >= 0 && frame.bottom <= 0x4000_0000_0000
                    && frame.left >= 0 && frame.left <= 0x4000_0000_0000) {
                    return Err(Error::ValueOutOfRange);
                }
            }
            None => {}
        }
        let content = chars_of(json.content.as_str());
        if content.len() > MAX_TEXT_LEN {
            return Err(Error::ValueOutOfRange);
        }
        let base = BaseSchema::new(
            json.name, json.position.x, json.position.y, json.width, json.height);
        Ok(QrCode {
            base,
            content,
            rotate: json.rotate,
            alignment: match json.alignment {
                Some(a) => a,
                None => Alignment::Left,
            },
            vertical_alignment: match json.vertical_alignment {
                Some(a) => a,
                None => VerticalAlignment::Top,
            },
            bounding_box: None,
            padding: json.padding,
        })
    }

    /// A copy of the region that reads the same.
    pub fn duplicate(&self) -> (r: QrCode)
        ensures
            r.base.name@ == self.base.name@,
            r.base.x == self.base.x && r.base.y == self.base.y,
            r.base.width == self.base.width && r.base.height == self.base.height,
            r.content@ == self.content@,
            r.rotate == self.rotate,
            r.alignment == self.alignment,
            r.vertical_alignment == self.vertical_alignment,
            r.bounding_box == self.bounding_box,
            r.padding == self.padding,
            self.wf() ==> r.wf(),
    {
        QrCode {
            base: BaseSchema {
                name: crate::text::clone_string(&self.base.name),
                x: self.base.x,
                y: self.base.y,
                width: self.base.width,
                height: self.base.height,
            },
            content: crate::text::clone_chars(&self.content),
            rotate: self.rotate,
            alignment: self.alignment,
            vertical_alignment: self.vertical_alignment,
            bounding_box: self.bounding_box,
            padding: self.padding,
        }
    }

    /// The region's geometry: the assigned bounding box when a table
    /// cell placed it, otherwise its own.
    pub fn get_base(self) -> (r: BaseSchema)
        ensures
            match self.bounding_box {
                Some(bb) => r.x == bb.x && r.y == bb.y
                    && r.width == bb.width && r.height == bb.height
                    && r.name@ == self.base.name@,
                None => r == self.base,
            },
    {
        match self.bounding_box {
            Some(bounding_box) => BaseSchema {
                name: self.base.name,
                x: bounding_box.x,
                y: bounding_box.y,
                width: bounding_box.width,
                height: bounding_box.height,
            },
            None => self.base,
        }
    }

    /// The box the symbol aligns inside, once padding is subtracted:
    /// the assigned bounding box when present, the region's own box
    /// otherwise.
    pub fn get_effective_box_size(&self) -> (r: (i64, i64))
        requires
            self.wf(),
        ensures
            r == (match self.bounding_box {
                Some(bb) => crate::geom::spec_effective_size(bb.width, bb.height,
                    self.spec_padding()),
                None => crate::geom::spec_effective_size(self.base.width, self.base.height,
                    self.spec_padding()),
            }),
    {
        let padding = match self.padding {
            Some(frame) => frame,
            None => Frame::zero(),
        };
        match self.bounding_box {
            Some(bounding_box) => effective_box_size(
                bounding_box.width, bounding_box.height, &padding),
            None => effective_box_size(self.base.width, self.base.height, &padding),
        }
    }

    /// The region's padding, a zero frame when none is set.
    pub open spec fn spec_padding(self) -> Frame {
        match self.padding {
            Some(frame) => frame,
            None => (Frame { top: 0, right: 0, bottom: 0, left: 0 }),
        }
    }

    /// Places the symbol inside its box with alignment and padding and
    /// appends the embedded-object draw to the page.  The payload rides
    /// along for the outside symbol generator.
    pub fn render(
        &self,
        parent_height: i64,
        page: usize,
        buffer: &mut OpBuffer,
    ) -> (r: Result<(), Error>)
        requires
            self.wf(),
            coord_in_range(parent_height),
            page < usize::MAX,
        ensures
            r is Ok,
            final(buffer).buffer@.len()
                == (if page + 1 >= old(buffer).buffer@.len() {
                    page + 1
                } else {
                    old(buffer).buffer@.len() as int
                }),
            forall|i: int| 0 <= i < final(buffer).buffer@.len() && i != page ==>
                final(buffer).buffer@[i]@ == #[trigger] spec_page_at(old(buffer).buffer@, i),
            ({
                let appended = spec_page_at(final(buffer).buffer@, page as int)
                    .skip(spec_page_at(old(buffer).buffer@, page as int).len() as int);
                &&& spec_page_at(old(buffer).buffer@, page as int).len()
                    <= spec_page_at(final(buffer).buffer@, page as int).len()
                &&& spec_page_at(final(buffer).buffer@, page as int)
                    .take(spec_page_at(old(buffer).buffer@, page as int).len() as int)
                    == spec_page_at(old(buffer).buffer@, page as int)
                &&& appended.len() == 3
                &&& appended[0] is SaveGraphicsState
                &&& appended[2] is RestoreGraphicsState
                &&& (appended[1] matches DrawOp::UseEmbedded { source, transform }
                    && (source matches EmbedSource::CodeSymbol { payload }
                        && payload@ == self.content@))
            }),
    {
        let (box_width, box_height) = self.get_effective_box_size();
        let qr_width = self.base.width;
        let qr_height = self.base.height;
        let x_offset = calculate_horizontal_offset(self.alignment, box_width, qr_width);
        let y_offset = calculate_vertical_offset(self.vertical_alignment, box_height, qr_height);
        let padding = match self.padding {
            Some(frame) => frame,
            None => Frame::zero(),
        };
        let anchor_x = match self.bounding_box {
            Some(bb) => bb.x,
            None => self.base.x,
        };
        let anchor_y = match self.bounding_box {
            Some(bb) => bb.y,
            None => self.base.y,
        };
        let x = anchor_x + padding.left + x_offset;
        let y = anchor_y + padding.top + y_offset;
        let temp_base = BaseSchema {
            name: crate::text::clone_string(&self.base.name),
            x,
            y,
            width: qr_width,
            height: qr_height,
        };
        let transform = qr_placement(&temp_base, parent_height);
        let mut ops: Vec<DrawOp> = Vec::new();
        ops.push(DrawOp::SaveGraphicsState);
        ops.push(DrawOp::UseEmbedded {
            source: EmbedSource::CodeSymbol { payload: self.content.clone() },
            transform,
        });
        ops.push(DrawOp::RestoreGraphicsState);
        let ghost opsv = ops@;
        buffer.insert(page, ops);
        proof {
            let old_page = spec_page_at(old(buffer).buffer@, page as int);
            let new_page = spec_page_at(buffer.buffer@, page as int);
            assert(new_page == old_page + opsv);
            assert(new_page.take(old_page.len() as int) =~= old_page);
            assert(new_page.skip(old_page.len() as int) =~= opsv);
        }
        Ok(())
    }

    /// Assigns the bounding box a table cell placed the symbol in.
    pub fn set_bounding_box(&mut self, bounding_box: BoundingBox)
        ensures
            *final(self) == (QrCode { bounding_box: Some(bounding_box), ..*old(self) }),
    {
        self.bounding_box = Some(bounding_box);
    }

    /// Moves the region horizontally: the assigned bounding box when
    /// present, the region's own box otherwise.
    pub fn set_x(&mut self, x: i64)
        ensures
            match old(self).bounding_box {
                Some(bb) => *final(self) == (QrCode {
                    bounding_box: Some(BoundingBox { x, ..bb }),
                    ..*old(self)
                }),
                None => *final(self) == (QrCode {
                    base: BaseSchema { x, ..old(self).base },
                    ..*old(self)
                }),
            },
    {
        match self.bounding_box {
            Some(ref mut bounding_box) => {
                bounding_box.x = x;
            }
            None => {
                self.base.x = x;
            }
        }
    }

    /// Moves the region vertically: the assigned bounding box when
    /// present, the region's own box otherwise.
    pub fn set_y(&mut self, y: i64)
        ensures
            match old(self).bounding_box {
                Some(bb) => *final(self) == (QrCode {
                    bounding_box: Some(BoundingBox { y, ..bb }),
                    ..*old(self)
                }),
                None => *final(self) == (QrCode {
                    base: BaseSchema { y, ..old(self).base },
                    ..*old(self)
                }),
            },
    {
        match self.bounding_box {
            Some(ref mut bounding_box) => {
                bounding_box.y = y;
            }
            None => {
                self.base.y = y;
            }
        }
    }

    /// Resizes the region vertically: the assigned bounding box when
    /// present, the region's own box otherwise.
    pub fn set_height(&mut self, height: i64)
        ensures
            match old(self).bounding_box {
                Some(bb) => *final(self) == (QrCode {
                    bounding_box: Some(BoundingBox { height, ..bb }),
                    ..*old(self)
                }),
                None => *final(self) == (QrCode {
                    base: BaseSchema { height, ..old(self).base },
                    ..*old(self)
                }),
            },
    {
        match self.bounding_box {
            Some(ref mut bounding_box) => {
                bounding_box.height = height;
            }
            None => {
                self.base.height = height;
            }
        }
    }

    pub fn get_width(&self) -> (r: i64)
        ensures
            r == self.base.width,
    {
        self.base.width
    }

    pub fn get_height(&self) -> (r: i64)
        ensures
            r == self.base.height,
    {
        self.base.height
    }
}

/// The placement of the symbol's natural pixel square stretched to its
/// box, as the embedded-object transform.
fn qr_placement(base: &BaseSchema, parent_height: i64) -> (r: crate::ops::FitTransform)
    requires
        -4_000_000_000_000_000 <= base.x <= 4_000_000_000_000_000,
        -4_000_000_000_000_000 <= base.y <= 4_000_000_000_000_000,
        0 <= base.width <= 1_000_000_000_000_000,
        0 <= base.height <= 1_000_000_000_000_000,
        coord_in_range(parent_height),
    ensures
        r.dpi == 300,
{
    proof {
        assert(0 <= base.width * crate::transform::PX_PER_INCH
            <= 1_000_000_000_000_000 * crate::transform::PX_PER_INCH as int)
            by (nonlinear_arith)
            requires
                0 <= base.width <= 1_000_000_000_000_000,
        ;
        assert(0 <= base.height * crate::transform::PX_PER_INCH
            <= 1_000_000_000_000_000 * crate::transform::PX_PER_INCH as int)
            by (nonlinear_arith)
            requires
                0 <= base.height <= 1_000_000_000_000_000,
        ;
    }
    crate::ops::FitTransform {
        translate_x: base.x,
        translate_y: parent_height - base.y - base.height,
        scale_x_num: base.width * crate::transform::PX_PER_INCH,
        scale_x_den: QR_NATURAL_PX * crate::transform::PX_UNITS_PER_INCH,
        scale_y_num: base.height * crate::transform::PX_PER_INCH,
        scale_y_den: QR_NATURAL_PX * crate::transform::PX_UNITS_PER_INCH,
        dpi: 300,
    }
}

} // verus!
