//! The group region: an ordered list of child regions drawn inside a
//! local coordinate frame, optionally rotated about the group's
//! center.

use vstd::prelude::*;
use crate::dynamic_text::{DynamicText, JsonDynamicTextSchema};
use crate::error::Error;
use crate::font::FontMap;
use crate::geom::{BaseSchema, JsonPosition, coord_in_range};
use crate::image::{Image, JsonImageSchema};
use crate::ops::{DrawOp, OpBuffer};
use crate::qrcode::{QrCode, JsonQrCodeSchema};
use crate::rect::{Rect, JsonRectSchema};
use crate::svg::{Svg, JsonSvgSchema};
use crate::table::{Table, JsonTableSchema};
use crate::text::{Text, JsonTextSchema};

verus! {

/// A child region a group may carry.
#[derive(Debug, Clone)]
pub enum GroupChild {
    Text(Text),
    DynamicText(DynamicText),
    Table(Table),
    QrCode(QrCode),
    Image(Image),
    Svg(Svg),
    Rect(Rect),
}

/// A child region as the template file carries it.
#[derive(Debug, Clone)]
pub enum JsonGroupChild {
    Text(JsonTextSchema),
    DynamicText(JsonDynamicTextSchema),
    Table(JsonTableSchema),
    QrCode(JsonQrCodeSchema),
    Image(JsonImageSchema),
    Svg(JsonSvgSchema),
    Rectangle(JsonRectSchema),
}

/// A group region as the template file carries it.
#[derive(Debug, Clone)]
pub struct JsonGroupSchema {
    pub name: String,
    pub position: JsonPosition,
    pub width: i64,
    pub height: i64,
    pub rotate: Option<i64>,
    pub schemas: Vec<JsonGroupChild>,
}

/// A validated group region.
#[derive(Debug, Clone)]
pub struct Group {
    pub base: BaseSchema,
    pub rotate: Option<i64>,
    pub schemas: Vec<GroupChild>,
}

impl GroupChild {
    /// A well-formed child region.
    pub open spec fn wf(self) -> bool {
        match self {
            GroupChild::Text(text) => text.wf(),
            GroupChild::DynamicText(text) => text.wf(),
            GroupChild::Table(table) => table.wf(),
            GroupChild::QrCode(qr) => qr.wf(),
            GroupChild::Image(image) => image.wf(),
            GroupChild::Svg(svg) => svg.wf(),
            GroupChild::Rect(rect) => rect.wf(),
        }
    }
}

/// Whether a group child's file form validates against a font table.
pub open spec fn spec_group_child_valid(child: JsonGroupChild, font_map: FontMap) -> bool {
    match child {
        JsonGroupChild::Text(j) => Text::spec_json_valid(j, font_map),
        JsonGroupChild::DynamicText(j) => DynamicText::spec_json_valid(j, font_map),
        JsonGroupChild::Table(j) => crate::table::spec_table_json_valid(j, font_map),
        JsonGroupChild::QrCode(j) => QrCode::spec_json_valid(j),
        JsonGroupChild::Image(j) => Image::spec_json_valid(j),
        JsonGroupChild::Svg(j) => Svg::spec_json_valid(j),
        JsonGroupChild::Rectangle(j) => Rect::spec_json_valid(j),
    }
}

/// Whether a group's file form validates against a font table:
/// geometry inside the ranges and every child valid.
pub open spec fn spec_group_json_valid(json: JsonGroupSchema, font_map: FontMap) -> bool {
    &&& coord_in_range(json.position.x) && coord_in_range(json.position.y)
    &&& 0 <= json.width <= 0x4000_0000_0000
    &&& 0 <= json.height <= 0x4000_0000_0000
    &&& (forall|i: int| 0 <= i < json.schemas@.len()
        ==> spec_group_child_valid(#[trigger] json.schemas@[i], font_map))
}

impl Group {
    /// A well-formed group region.
    pub open spec fn wf(self) -> bool {
        self.base.wf()
        && (forall|i: int| 0 <= i < self.schemas@.len() ==> (#[trigger] self.schemas@[i]).wf())
    }

    /// Validates a group region from its file form; every child must
    /// validate.
    pub fn from_json(json: JsonGroupSchema, font_map: &FontMap) -> (r: Result<Group, Error>)
        ensures
            r is Ok <==> spec_group_json_valid(json, *font_map),
            r is Ok ==> {
                let g = r->Ok_0;
                &&& g.wf()
                &&& g.base.x == json.position.x && g.base.y == json.position.y
                &&& g.base.width == json.width && g.base.height == json.height
                &&& g.rotate == json.rotate
                &&& g.schemas@.len() == json.schemas@.len()
            },
    {
        if !(crate::text::coord_in_range_exec(json.position.x)
            && crate::text::coord_in_range_exec(json.position.y)
            && 0 <= json.width && json.width <= 0x4000_0000_0000
            && 0 <= json.height && json.height <= 0x4000_0000_0000) {
            return Err(Error::ValueOutOfRange);
        }
        let mut schemas: Vec<GroupChild> = Vec::new();
        let mut i: usize = 0;
        let mut pending = json.schemas;
        let total_children = pending.len();
        proof {
            assert(pending@ =~= json.schemas@.skip(0));
        }
        while pending.len() > 0
            invariant
                json.schemas@.len() == total_children,
                schemas@.len() + pending@.len() == json.schemas@.len(),
                i == schemas@.len(),
                pending@ == json.schemas@.skip(i as int),
                forall|k: int| 0 <= k < i ==> (#[trigger] schemas@[k]).wf(),
                forall|k: int| 0 <= k < i
                    ==> spec_group_child_valid(#[trigger] json.schemas@[k], *font_map),
            decreases pending@.len(),
        {
            let json_child = pending.remove(0);
            proof {
                assert(json.schemas@.skip(i as int)[0] == json.schemas@[i as int]);
                assert(json.schemas@.skip(i as int).remove(0)
                    =~= json.schemas@.skip(i as int + 1));
            }
            let child = match json_child {
                JsonGroupChild::Text(j) => {
                    match Text::from_json(j, font_map) {
                        Ok(t) => GroupChild::Text(t),
                        Err(e) => {
                            return Err(e);
                        }
                    }
                }
                JsonGroupChild::DynamicText(j) => {
                    match DynamicText::from_json(j, font_map) {
                        Ok(t) => GroupChild::DynamicText(t),
                        Err(e) => {
                            return Err(e);
                        }
                    }
                }
                JsonGroupChild::Table(j) => {
                    match Table::from_json(j, font_map) {
                        Ok(t) => GroupChild::Table(t),
                        Err(e) => {
                            return Err(e);
                        }
                    }
                }
                JsonGroupChild::QrCode(j) => {
                    match QrCode::from_json(j) {
                        Ok(q) => GroupChild::QrCode(q),
                        Err(e) => {
                            return Err(e);
                        }
                    }
                }
                JsonGroupChild::Image(j) => {
                    match Image::from_json(j) {
                        Ok(img) => GroupChild::Image(img),
                        Err(e) => {
                            return Err(e);
                        }
                    }
                }
                JsonGroupChild::Svg(j) => {
                    match Svg::from_json(j) {
                        Ok(s) => GroupChild::Svg(s),
                        Err(e) => {
                            return Err(e);
                        }
                    }
                }
                JsonGroupChild::Rectangle(j) => {
                    match Rect::from_json(j) {
                        Ok(rect) => GroupChild::Rect(rect),
                        Err(e) => {
                            return Err(e);
                        }
                    }
                }
            };
            schemas.push(child);
            i = i + 1;
        }
        let base = BaseSchema::new(
            json.name, json.position.x, json.position.y, json.width, json.height);
        Ok(Group { base, rotate: json.rotate, schemas })
    }

    /// The region's geometry.
    pub fn get_base(self) -> (r: BaseSchema)
        ensures
            r == self.base,
    {
        self.base
    }

    /// Draws the group: a center-pivot frame for the whole group, then
    /// every child inside it, against the group's own height.  A child
    /// that cannot stand inside a group's local frame (a flowing text
    /// or a table, which paginate) fails the render.
    pub fn render(
        &self,
        font_map: &FontMap,
        page_height: i64,
        page: usize,
        buffer: &mut OpBuffer,
    ) -> (r: Result<(), Error>)
        requires
            self.wf(),
            font_map.wf(),
            coord_in_range(page_height),
            page < usize::MAX,
        ensures
            r is Err ==> r->Err_0 == Error::FontNotFound
                || r->Err_0 == Error::UnsupportedGroupChild,
            r is Ok ==> crate::ops::pages_extend(old(buffer).buffer@, final(buffer).buffer@),
            r is Ok ==> final(buffer).buffer@.len()
                == (if page + 1 >= old(buffer).buffer@.len() {
                    page + 1
                } else {
                    old(buffer).buffer@.len() as int
                }),
            r is Ok ==> ({
                let appended = crate::ops::spec_page_at(final(buffer).buffer@, page as int)
                    .skip(crate::ops::spec_page_at(old(buffer).buffer@, page as int).len()
                        as int);
                &&& appended.len() >= 3
                &&& appended[0] is SaveGraphicsState
                &&& appended[1] == (DrawOp::SetMatrixPivot {
                    x: self.base.x,
                    y: (page_height - self.base.y - self.base.height) as i64,
                    width: self.base.width,
                    height: self.base.height,
                    rotate_mdeg: (match self.rotate {
                        Some(angle) => angle,
                        None => 0,
                    }),
                })
                &&& appended.last() is RestoreGraphicsState
            }),
    {
        proof {
            crate::ops::lemma_pages_extend_refl(old(buffer).buffer@);
        }
        let mut frame_ops: Vec<DrawOp> = Vec::new();
        frame_ops.push(DrawOp::SaveGraphicsState);
        frame_ops.push(DrawOp::SetMatrixPivot {
            x: self.base.x,
            y: page_height - self.base.y - self.base.height,
            width: self.base.width,
            height: self.base.height,
            rotate_mdeg: match self.rotate {
                Some(angle) => angle,
                None => 0,
            },
        });
        let ghost before_frame = buffer.buffer@;
        let ghost frame_view = frame_ops@;
        buffer.insert(page, frame_ops);
        let ghost framed = buffer.buffer@;
        proof {
            let old_page = crate::ops::spec_page_at(before_frame, page as int);
            let new_page = crate::ops::spec_page_at(buffer.buffer@, page as int);
            assert(new_page == old_page + frame_view);
            assert(new_page.take(old_page.len() as int) =~= old_page);
            crate::ops::lemma_render_extends(before_frame, buffer.buffer@, page as int);
            crate::ops::lemma_pages_extend_refl(framed);
        }
        let mut i: usize = 0;
        while i < self.schemas.len()
            invariant
                0 <= i <= self.schemas@.len(),
                self.wf(),
                font_map.wf(),
                page < usize::MAX,
                crate::ops::pages_extend(old(buffer).buffer@, buffer.buffer@),
                crate::ops::pages_extend(framed, buffer.buffer@),
                buffer.buffer@.len() == (if page + 1 >= old(buffer).buffer@.len() {
                    page + 1
                } else {
                    old(buffer).buffer@.len() as int
                }),
            decreases self.schemas@.len() - i,
        {
            let ghost before_child = buffer.buffer@;
            let outcome = match &self.schemas[i] {
                GroupChild::Text(text) => text.render(
                    font_map, self.base.height, page, buffer),
                GroupChild::QrCode(qr) => qr.render(self.base.height, page, buffer),
                GroupChild::Image(image) => image.render(self.base.height, page, buffer),
                GroupChild::Svg(svg) => svg.render(self.base.height, page, buffer),
                GroupChild::Rect(rect) => rect.render(self.base.height, page, buffer),
                GroupChild::DynamicText(_) => Err(Error::UnsupportedGroupChild),
                GroupChild::Table(_) => Err(Error::UnsupportedGroupChild),
            };
            match outcome {
                Ok(()) => {
                    proof {
                        crate::ops::lemma_render_extends(
                            before_child, buffer.buffer@, page as int);
                        crate::ops::lemma_pages_extend_trans(
                            old(buffer).buffer@, before_child, buffer.buffer@);
                        crate::ops::lemma_pages_extend_trans(
                            framed, before_child, buffer.buffer@);
                    }
                }
                Err(e) => {
                    return Err(e);
                }
            }
            i = i + 1;
        }
        let ghost before_restore = buffer.buffer@;
        let mut restore_ops: Vec<DrawOp> = Vec::new();
        restore_ops.push(DrawOp::RestoreGraphicsState);
        let ghost restore_view = restore_ops@;
        buffer.insert(page, restore_ops);
        proof {
            let old_page = crate::ops::spec_page_at(old(buffer).buffer@, page as int);
            let framed_page = crate::ops::spec_page_at(framed, page as int);
            let restore_page = crate::ops::spec_page_at(before_restore, page as int);
            let new_page = crate::ops::spec_page_at(buffer.buffer@, page as int);
            assert(new_page == restore_page + restore_view);
            assert(new_page.take(restore_page.len() as int) =~= restore_page);
            crate::ops::lemma_render_extends(before_restore, buffer.buffer@, page as int);
            crate::ops::lemma_pages_extend_trans(
                old(buffer).buffer@, before_restore, buffer.buffer@);
            // The frame ops survive at the start of the appended run,
            // and the restore sits at its end.
            assert(framed_page == old_page + frame_view);
            assert(restore_page.take(framed_page.len() as int) == framed_page);
            let appended = new_page.skip(old_page.len() as int);
            assert(appended.len() >= 3);
            assert(appended[0] == framed_page[old_page.len() as int]);
            assert(appended[1] == framed_page[old_page.len() as int + 1]);
            assert(restore_page[old_page.len() as int]
                == restore_page.take(framed_page.len() as int)[old_page.len() as int]);
            assert(restore_page[old_page.len() as int + 1]
                == restore_page.take(framed_page.len() as int)[old_page.len() as int + 1]);
            assert(appended.last() == new_page.last());
            assert(new_page.last() is RestoreGraphicsState);
        }
        Ok(())
    }

    pub fn set_x(&mut self, x: i64)
        ensures
            *final(self) == (Group { base: BaseSchema { x, ..old(self).base }, ..*old(self) }),
    {
        self.base.x = x;
    }

    pub fn set_y(&mut self, y: i64)
        ensures
            *final(self) == (Group { base: BaseSchema { y, ..old(self).base }, ..*old(self) }),
    {
        self.base.y = y;
    }

    pub fn set_height(&mut self, height: i64)
        ensures
            *final(self) == (Group {
                base: BaseSchema { height, ..old(self).base },
                ..*old(self)
            }),
    {
        self.base.height = height;
    }

    pub fn get_width(&self) -> (r: i64)
        ensures
            r == self.base.width,
    {
        self.base.width
    }

    pub fn get_height(&self) -> (r: i64)
        ensures
            r == self.base.height,
    {
        self.base.height
    }
}

} // verus!
