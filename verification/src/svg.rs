//! The vector-graphic region: a drawing parsed outside the engine,
//! referred to by the handle its parser registered it under, stretched
//! to its box.

use vstd::prelude::*;
use crate::error::Error;
use crate::geom::{BaseSchema, JsonPosition, coord_in_range};
use crate::ops::{DrawOp, EmbedSource, OpBuffer, spec_page_at};
use crate::transform::{MAX_OBJECT_BOX, MAX_OBJECT_PX};

verus! {

/// A vector-graphic region as the template file carries it, after the
/// outside parser measured it.
#[derive(Debug, Clone)]
pub struct JsonSvgSchema {
    pub name: String,
    pub position: JsonPosition,
    pub width: i64,
    pub height: i64,
    pub natural_width_px: Option<i64>,
    pub handle: usize,
}

/// A validated vector-graphic region.
#[derive(Debug, Clone)]
pub struct Svg {
    pub base: BaseSchema,
    pub natural_width_px: Option<i64>,
    pub handle: usize,
}

impl Svg {
    /// Whether a vector-graphic region's file form validates: geometry
    /// and natural width inside the embedding ranges.
    pub open spec fn spec_json_valid(json: JsonSvgSchema) -> bool {
        &&& coord_in_range(json.position.x) && coord_in_range(json.position.y)
        &&& 0 <= json.width <= MAX_OBJECT_BOX
        &&& 0 <= json.height <= MAX_OBJECT_BOX
        &&& (match json.natural_width_px {
            Some(px) => 0 < px <= MAX_OBJECT_PX,
            None => true,
        })
    }

    /// A well-formed vector-graphic region.
    pub open spec fn wf(self) -> bool {
        self.base.wf()
        && 0 <= self.base.width <= MAX_OBJECT_BOX
        && 0 <= self.base.height <= MAX_OBJECT_BOX
        && (match self.natural_width_px {
            Some(px) => 0 < px <= MAX_OBJECT_PX,
            None => true,
        })
    }

    /// Builds a vector-graphic region.
    pub fn new(
        name: String,
        x: i64,
        y: i64,
        width: i64,
        height: i64,
        natural_width_px: Option<i64>,
        handle: usize,
    ) -> (r: Result<Svg, Error>)
        ensures
            r is Ok <==> (coord_in_range(x) && coord_in_range(y)
                && 0 <= width <= MAX_OBJECT_BOX && 0 <= height <= MAX_OBJECT_BOX
                && (match natural_width_px {
                    Some(px) => 0 < px <= MAX_OBJECT_PX,
                    None => true,
                })),
            r is Err ==> r->Err_0 == Error::ValueOutOfRange,
            r is Ok ==> {
                let svg = r->Ok_0;
                &&& svg.wf()
                &&& svg.base.x == x && svg.base.y == y
                &&& svg.base.width == width && svg.base.height == height
                &&& svg.natural_width_px == natural_width_px
                &&& svg.handle == handle
            },
    {
        if !(crate::text::coord_in_range_exec(x) && crate::text::coord_in_range_exec(y)
            && 0 <= width && width <= MAX_OBJECT_BOX
            && 0 <= height && height <= MAX_OBJECT_BOX) {
            return Err(Error::ValueOutOfRange);
        }
        match natural_width_px {
            Some(px) => {
                if !(0 < px && px <= MAX_OBJECT_PX) {
                    return Err(Error::ValueOutOfRange);
                }
            }
            None => {}
        }
        let base = BaseSchema::new(name, x, y, width, height);
        Ok(Svg { base, natural_width_px, handle })
    }

    /// Validates a vector-graphic region from its file form.
    pub fn from_json(json: JsonSvgSchema) -> (r: Result<Svg, Error>)
        ensures
            r is Ok <==> Svg::spec_json_valid(json),
            r is Err ==> r->Err_0 == Error::ValueOutOfRange,
            r is Ok ==> {
                let svg = r->Ok_0;
                &&& svg.wf()
                &&& svg.base.x == json.position.x && svg.base.y == json.position.y
                &&& svg.base.width == json.width && svg.base.height == json.height
                &&& svg.handle == json.handle
            },
    {
        Svg::new(json.name, json.position.x, json.position.y, json.width, json.height,
            json.natural_width_px, json.handle)
    }

    /// The region's geometry.
    pub fn get_base(self) -> (r: BaseSchema)
        ensures
            r == self.base,
    {
        self.base
    }

    /// Appends the graphic's embedded-object draw, stretched to the
    /// region's box, to the page.
    pub fn render(
        &self,
        parent_height: i64,
        page: usize,
        buffer: &mut OpBuffer,
    ) -> (r: Result<(), Error>)
        requires
            self.wf(),
            coord_in_range(parent_height),
            page < usize::MAX,
        ensures
            r is Ok,
            final(buffer).buffer@.len()
                == (if page + 1 >= old(buffer).buffer@.len() {
                    page + 1
                } else {
                    old(buffer).buffer@.len() as int
                }),
            forall|i: int| 0 <= i < final(buffer).buffer@.len() && i != page ==>
                final(buffer).buffer@[i]@ == #[trigger] spec_page_at(old(buffer).buffer@, i),
            ({
                let appended = spec_page_at(final(buffer).buffer@, page as int)
                    .skip(spec_page_at(old(buffer).buffer@, page as int).len() as int);
                &&& spec_page_at(old(buffer).buffer@, page as int).len()
                    <= spec_page_at(final(buffer).buffer@, page as int).len()
                &&& spec_page_at(final(buffer).buffer@, page as int)
                    .take(spec_page_at(old(buffer).buffer@, page as int).len() as int)
                    == spec_page_at(old(buffer).buffer@, page as int)
                &&& appended.len() == 1
                &&& (appended[0] matches DrawOp::UseEmbedded { source, transform }
                    && source == (EmbedSource::Vector { handle: self.handle }))
            }),
    {
        let transform = self.base.get_matrix(parent_height, self.natural_width_px);
        let mut ops: Vec<DrawOp> = Vec::new();
        ops.push(DrawOp::UseEmbedded {
            source: EmbedSource::Vector { handle: self.handle },
            transform,
        });
        let ghost opsv = ops@;
        buffer.insert(page, ops);
        proof {
            let old_page = spec_page_at(old(buffer).buffer@, page as int);
            let new_page = spec_page_at(buffer.buffer@, page as int);
            assert(new_page == old_page + opsv);
            assert(new_page.take(old_page.len() as int) =~= old_page);
            assert(new_page.skip(old_page.len() as int) =~= opsv);
        }
        Ok(())
    }

    pub fn set_x(&mut self, x: i64)
        ensures
            *final(self) == (Svg { base: BaseSchema { x, ..old(self).base }, ..*old(self) }),
    {
        self.base.x = x;
    }

    pub fn set_y(&mut self, y: i64)
        ensures
            *final(self) == (Svg { base: BaseSchema { y, ..old(self).base }, ..*old(self) }),
    {
        self.base.y = y;
    }

    pub fn set_height(&mut self, height: i64)
        ensures
            *final(self) == (Svg {
                base: BaseSchema { height, ..old(self).base },
                ..*old(self)
            }),
    {
        self.base.height = height;
    }

    pub fn get_width(&self) -> (r: i64)
        ensures
            r == self.base.width,
    {
        self.base.width
    }

    pub fn get_height(&self) -> (r: i64)
        ensures
            r == self.base.height,
    {
        self.base.height
    }
}

} // verus!
