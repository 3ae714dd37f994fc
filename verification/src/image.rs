//! The raster image region: an image decoded outside the engine,
//! referred to by the handle its decoder registered it under, placed
//! inside its box under an object-fit strategy.

use vstd::prelude::*;
use crate::error::Error;
use crate::geom::{BaseSchema, JsonPosition, coord_in_range};
use crate::ops::{DrawOp, EmbedSource, FitTransform, OpBuffer, spec_page_at};
use crate::transform::{ObjectFit, MAX_OBJECT_BOX, MAX_OBJECT_PX, spec_object_fit_transform, calculate_object_fit_transform};

verus! {

/// An image region as the template file carries it, after the outside
/// decoder measured the image: its natural pixel size and the handle
/// the decoded bitmap was registered under.
#[derive(Debug, Clone)]
pub struct JsonImageSchema {
    pub name: String,
    pub position: JsonPosition,
    pub width: i64,
    pub height: i64,
    pub px_width: i64,
    pub px_height: i64,
    pub handle: usize,
    pub object_fit: ObjectFit,
}

/// A validated image region.
#[derive(Debug, Clone)]
pub struct Image {
    pub base: BaseSchema,
    pub px_width: i64,
    pub px_height: i64,
    pub handle: usize,
    pub object_fit: ObjectFit,
}

impl Image {
    /// A well-formed image region: a positive box and natural size
    /// inside the ranges exact fitting accepts.
    pub open spec fn wf(self) -> bool {
        self.base.wf()
        && 0 < self.base.width <= MAX_OBJECT_BOX
        && 0 < self.base.height <= MAX_OBJECT_BOX
        && 0 < self.px_width <= MAX_OBJECT_PX
        && 0 < self.px_height <= MAX_OBJECT_PX
    }

    /// Builds an image region; stretches to its box by default.
    pub fn new(
        name: String,
        x: i64,
        y: i64,
        width: i64,
        height: i64,
        px_width: i64,
        px_height: i64,
        handle: usize,
    ) -> (r: Result<Image, Error>)
        ensures
            r is Ok <==> (coord_in_range(x) && coord_in_range(y)
                && 0 < width <= MAX_OBJECT_BOX && 0 < height <= MAX_OBJECT_BOX
                && 0 < px_width <= MAX_OBJECT_PX && 0 < px_height <= MAX_OBJECT_PX),
            r is Err ==> r->Err_0 == Error::ValueOutOfRange,
            r is Ok ==> {
                let img = r->Ok_0;
                &&& img.wf()
                &&& img.base.x == x && img.base.y == y
                &&& img.base.width == width && img.base.height == height
                &&& img.px_width == px_width && img.px_height == px_height
                &&& img.handle == handle
                &&& img.object_fit is Fill
            },
    {
        if !(crate::text::coord_in_range_exec(x) && crate::text::coord_in_range_exec(y)
            && 0 < width && width <= MAX_OBJECT_BOX
            && 0 < height && height <= MAX_OBJECT_BOX
            && 0 < px_width && px_width <= MAX_OBJECT_PX
            && 0 < px_height && px_height <= MAX_OBJECT_PX) {
            return Err(Error::ValueOutOfRange);
        }
        let base = BaseSchema::new(name, x, y, width, height);
        Ok(Image {
            base,
            px_width,
            px_height,
            handle,
            object_fit: ObjectFit::Fill,
        })
    }

    /// Whether an image region's file form validates: a positive box
    /// and natural size inside the ranges exact fitting accepts.
    pub open spec fn spec_json_valid(json: JsonImageSchema) -> bool {
        &&& coord_in_range(json.position.x) && coord_in_range(json.position.y)
        &&& 0 < json.width <= MAX_OBJECT_BOX
        &&& 0 < json.height <= MAX_OBJECT_BOX
        &&& 0 < json.px_width <= MAX_OBJECT_PX
        &&& 0 < json.px_height <= MAX_OBJECT_PX
    }

    /// Validates an image region from its file form.
    pub fn from_json(json: JsonImageSchema) -> (r: Result<Image, Error>)
        ensures
            r is Ok <==> Image::spec_json_valid(json),
            r is Err ==> r->Err_0 == Error::ValueOutOfRange,
            r is Ok ==> {
                let img = r->Ok_0;
                &&& img.wf()
                &&& img.base.x == json.position.x && img.base.y == json.position.y
                &&& img.base.width == json.width && img.base.height == json.height
                &&& img.px_width == json.px_width && img.px_height == json.px_height
                &&& img.handle == json.handle
                &&& img.object_fit == json.object_fit
            },
    {
        let image = match Image::new(
            json.name, json.position.x, json.position.y, json.width, json.height,
            json.px_width, json.px_height, json.handle) {
            Ok(img) => img,
            Err(e) => {
                return Err(e);
            }
        };
        Ok(image.with_object_fit(json.object_fit))
    }

    /// The same region under another object-fit strategy.
    pub fn with_object_fit(self, object_fit: ObjectFit) -> (r: Image)
        ensures
            r == (Image { object_fit, ..self }),
    {
        Image { object_fit, ..self }
    }

    /// The region's geometry.
    pub fn get_base(self) -> (r: BaseSchema)
        ensures
            r == self.base,
    {
        self.base
    }

    /// The placement the region's object-fit strategy chooses for its
    /// natural pixel size.
    pub fn calculate_object_fit_transform(&self, parent_height: i64) -> (r: FitTransform)
        requires
            self.wf(),
            coord_in_range(parent_height),
        ensures
            r == spec_object_fit_transform(self.base, parent_height as int,
                self.px_width as int, self.px_height as int, self.object_fit),
    {
        calculate_object_fit_transform(
            &self.base, parent_height, self.px_width, self.px_height, self.object_fit)
    }

    /// Appends the image's embedded-object draw, placed by its
    /// object-fit strategy, to the page.
    pub fn render(
        &self,
        parent_height: i64,
        page: usize,
        buffer: &mut OpBuffer,
    ) -> (r: Result<(), Error>)
        requires
            self.wf(),
            coord_in_range(parent_height),
            page < usize::MAX,
        ensures
            r is Ok,
            final(buffer).buffer@.len()
                == (if page + 1 >= old(buffer).buffer@.len() {
                    page + 1
                } else {
                    old(buffer).buffer@.len() as int
                }),
            forall|i: int| 0 <= i < final(buffer).buffer@.len() && i != page ==>
                final(buffer).buffer@[i]@ == #[trigger] spec_page_at(old(buffer).buffer@, i),
            ({
                let appended = spec_page_at(final(buffer).buffer@, page as int)
                    .skip(spec_page_at(old(buffer).buffer@, page as int).len() as int);
                &&& spec_page_at(old(buffer).buffer@, page as int).len()
                    <= spec_page_at(final(buffer).buffer@, page as int).len()
                &&& spec_page_at(final(buffer).buffer@, page as int)
                    .take(spec_page_at(old(buffer).buffer@, page as int).len() as int)
                    == spec_page_at(old(buffer).buffer@, page as int)
                &&& appended.len() == 3
                &&& appended[0] is SaveGraphicsState
                &&& appended[2] is RestoreGraphicsState
                &&& appended[1] == (DrawOp::UseEmbedded {
                    source: EmbedSource::Raster { handle: self.handle },
                    transform: spec_object_fit_transform(self.base, parent_height as int,
                        self.px_width as int, self.px_height as int, self.object_fit),
                })
            }),
    {
        let transform = self.calculate_object_fit_transform(parent_height);
        let mut ops: Vec<DrawOp> = Vec::new();
        ops.push(DrawOp::SaveGraphicsState);
        ops.push(DrawOp::UseEmbedded {
            source: EmbedSource::Raster { handle: self.handle },
            transform,
        });
        ops.push(DrawOp::RestoreGraphicsState);
        let ghost opsv = ops@;
        buffer.insert(page, ops);
        proof {
            let old_page = spec_page_at(old(buffer).buffer@, page as int);
            let new_page = spec_page_at(buffer.buffer@, page as int);
            assert(new_page == old_page + opsv);
            assert(new_page.take(old_page.len() as int) =~= old_page);
            assert(new_page.skip(old_page.len() as int) =~= opsv);
        }
        Ok(())
    }

    pub fn set_x(&mut self, x: i64)
        ensures
            *final(self) == (Image { base: BaseSchema { x, ..old(self).base }, ..*old(self) }),
    {
        self.base.x = x;
    }

    pub fn set_y(&mut self, y: i64)
        ensures
            *final(self) == (Image { base: BaseSchema { y, ..old(self).base }, ..*old(self) }),
    {
        self.base.y = y;
    }

    pub fn get_width(&self) -> (r: i64)
        ensures
            r == self.base.width,
    {
        self.base.width
    }

    pub fn get_height(&self) -> (r: i64)
        ensures
            r == self.base.height,
    {
        self.base.height
    }
}

} // verus!
