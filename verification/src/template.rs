//! The flow controller: drives every region of every logical page
//! through its renderer, accumulating drawing instructions in the page
//! buffer, with a two-pass design for page-count-dependent content.
//!
//! Pass one renders all per-page regions; flowing regions and tables
//! may expand one logical page into several physical pages, so only
//! after pass one is the true physical page count known.  Pass two
//! then renders the static region set — parameterized outside the
//! engine by the current page and the total count — onto each existing
//! page.  Both passes only append: no page's instructions are ever
//! dropped or rewritten.

use vstd::prelude::*;
use crate::dynamic_text::DynamicText;
use crate::error::Error;
use crate::font::FontMap;
use crate::geom::{BaseSchema, BasePdf};
use crate::group::Group;
use crate::image::Image;
use crate::line::Line;
use crate::ops::{OpBuffer, pages_extend, lemma_pages_extend_refl, lemma_pages_extend_trans, lemma_render_extends};
use crate::qrcode::QrCode;
use crate::rect::Rect;
use crate::svg::Svg;
use crate::table::Table;
use crate::text::Text;

verus! {

/// One placeable, typed region of a template page.
#[derive(Debug, Clone)]
pub enum Schema {
    Text(Text),
    DynamicText(DynamicText),
    Table(Table),
    QrCode(QrCode),
    Image(Image),
    Svg(Svg),
    Rect(Rect),
    Line(Line),
    Group(Group),
}

impl Schema {
    /// A well-formed region of any kind.
    pub open spec fn wf(self) -> bool {
        match self {
            Schema::Text(text) => text.wf(),
            Schema::DynamicText(text) => text.wf(),
            Schema::Table(table) => table.wf()
                && -100_000_000_000_000 <= table.base.x <= 100_000_000_000_000
                && -100_000_000_000_000 <= table.base.y <= 100_000_000_000_000,
            Schema::QrCode(qr) => qr.wf(),
            Schema::Image(image) => image.wf(),
            Schema::Svg(svg) => svg.wf(),
            Schema::Rect(rect) => rect.wf(),
            Schema::Line(line) => line.wf(),
            Schema::Group(group) => group.wf(),
        }
    }

    /// The region's geometry, consumed.
    pub fn get_base(self) -> (r: BaseSchema)
        ensures
            match self {
                Schema::Text(text) => r == text.base,
                Schema::DynamicText(text) => r == text.base,
                Schema::Table(table) => r == table.base,
                Schema::QrCode(_) => true,
                Schema::Image(image) => r == image.base,
                Schema::Svg(svg) => r == svg.base,
                Schema::Rect(rect) => r == rect.base,
                Schema::Line(line) => r == line.base,
                Schema::Group(group) => r == group.base,
            },
    {
        match self {
            Schema::Text(text) => text.get_base(),
            Schema::DynamicText(text) => text.get_base(),
            Schema::Table(table) => table.get_base(),
            Schema::QrCode(qr) => qr.get_base(),
            Schema::Image(image) => image.get_base(),
            Schema::Svg(svg) => svg.get_base(),
            Schema::Rect(rect) => rect.get_base(),
            Schema::Line(line) => line.get_base(),
            Schema::Group(group) => group.get_base(),
        }
    }

    /// A copy of the region's geometry, the region kept.  A code
    /// symbol placed by a table cell reports its assigned bounding
    /// box.
    pub fn get_base_copy(&self) -> (r: BaseSchema)
        ensures
            match self {
                Schema::Text(text) => base_reads_same(r, text.base),
                Schema::DynamicText(text) => base_reads_same(r, text.base),
                Schema::Table(table) => base_reads_same(r, table.base),
                Schema::QrCode(qr) => (match qr.bounding_box {
                    Some(bb) => r.name@ == qr.base.name@ && r.x == bb.x && r.y == bb.y
                        && r.width == bb.width && r.height == bb.height,
                    None => base_reads_same(r, qr.base),
                }),
                Schema::Image(image) => base_reads_same(r, image.base),
                Schema::Svg(svg) => base_reads_same(r, svg.base),
                Schema::Rect(rect) => base_reads_same(r, rect.base),
                Schema::Line(line) => base_reads_same(r, line.base),
                Schema::Group(group) => base_reads_same(r, group.base),
            },
    {
        match self {
            Schema::Text(text) => copy_base(&text.base),
            Schema::DynamicText(text) => copy_base(&text.base),
            Schema::Table(table) => copy_base(&table.base),
            Schema::QrCode(qr) => match qr.bounding_box {
                Some(bb) => BaseSchema {
                    name: crate::text::clone_string(&qr.base.name),
                    x: bb.x,
                    y: bb.y,
                    width: bb.width,
                    height: bb.height,
                },
                None => copy_base(&qr.base),
            },
            Schema::Image(image) => copy_base(&image.base),
            Schema::Svg(svg) => copy_base(&svg.base),
            Schema::Rect(rect) => copy_base(&rect.base),
            Schema::Line(line) => copy_base(&line.base),
            Schema::Group(group) => copy_base(&group.base),
        }
    }
}

/// Whether two geometries read the same.
pub open spec fn base_reads_same(a: BaseSchema, b: BaseSchema) -> bool {
    a.name@ == b.name@ && a.x == b.x && a.y == b.y && a.width == b.width
        && a.height == b.height
}

/// A copy of a geometry that reads the same.
fn copy_base(base: &BaseSchema) -> (r: BaseSchema)
    ensures
        r.name@ == base.name@,
        r.x == base.x && r.y == base.y && r.width == base.width && r.height == base.height,
{
    BaseSchema {
        name: crate::text::clone_string(&base.name),
        x: base.x,
        y: base.y,
        width: base.width,
        height: base.height,
    }
}

/// Whether a region always draws onto its own logical page alone: any
/// kind but a flowing text or a table, which paginate.
pub open spec fn spec_single_page_schema(schema: Schema) -> bool {
    match schema {
        Schema::DynamicText(_) => false,
        Schema::Table(_) => false,
        _ => true,
    }
}

/// Whether every region of every page is well formed.
pub open spec fn schemas_wf(pages: Seq<Vec<Schema>>) -> bool {
    forall|p: int| 0 <= p < pages.len() ==>
        forall|s: int| 0 <= s < (#[trigger] pages[p])@.len()
            ==> (#[trigger] pages[p]@[s]).wf()
}

/// Renders one region onto the buffer, threading the flow cursor: a
/// flowing text continues from the cursor and moves it; a table starts
/// at its logical page and moves the cursor; every other region draws
/// on its logical page and leaves the cursor alone.  The buffer only
/// grows.
pub fn render_schema(
    schema: &Schema,
    font_map: &FontMap,
    base_pdf: &BasePdf,
    page_index: usize,
    current_page: usize,
    y: Option<i64>,
    buffer: &mut OpBuffer,
) -> (r: Result<(usize, Option<i64>), Error>)
    requires
        schema.wf(),
        font_map.wf(),
        base_pdf.wf(),
        page_index <= 1_000_000_000,
        current_page <= 1_000_000_000,
        match y {
            Some(v) => -100_000_000_000_000 <= v <= 100_000_000_000_000,
            None => true,
        },
    ensures
        r is Ok ==> pages_extend(old(buffer).buffer@, final(buffer).buffer@),
        r is Ok ==> {
            let (next_page, next_y) = r->Ok_0;
            &&& next_page <= 1_000_000_000
            &&& (match next_y {
                Some(v) => -100_000_000_000_000 <= v <= 100_000_000_000_000,
                None => true,
            })
        },
        (r is Ok && spec_single_page_schema(*schema)) ==> final(buffer).buffer@.len()
            == (if page_index + 1 >= old(buffer).buffer@.len() {
                page_index + 1
            } else {
                old(buffer).buffer@.len() as int
            }),
{
    let ghost before = buffer.buffer@;
    match schema {
        Schema::Text(text) => {
            match text.render(font_map, base_pdf.height, page_index, buffer) {
                Ok(()) => {
                    proof {
                        lemma_render_extends(before, buffer.buffer@, page_index as int);
                    }
                    Ok((current_page, y))
                }
                Err(e) => Err(e),
            }
        }
        Schema::DynamicText(text) => {
            match text.render(font_map, base_pdf, current_page, y, buffer) {
                Ok((next_page, next_y)) => {
                    if next_page > 1_000_000_000 {
                        return Err(Error::ValueOutOfRange);
                    }
                    let clamped = match next_y {
                        Some(v) => {
                            if -100_000_000_000_000 <= v && v <= 100_000_000_000_000 {
                                Some(v)
                            } else {
                                return Err(Error::ValueOutOfRange);
                            }
                        }
                        None => None,
                    };
                    Ok((next_page, clamped))
                }
                Err(e) => Err(e),
            }
        }
        Schema::Table(table) => {
            match table.render(font_map, base_pdf, page_index, y, buffer) {
                Ok((next_page, next_y)) => {
                    if next_page > 1_000_000_000 {
                        return Err(Error::ValueOutOfRange);
                    }
                    let clamped = match next_y {
                        Some(v) => {
                            if -100_000_000_000_000 <= v && v <= 100_000_000_000_000 {
                                Some(v)
                            } else {
                                return Err(Error::ValueOutOfRange);
                            }
                        }
                        None => None,
                    };
                    Ok((next_page, clamped))
                }
                Err(e) => Err(e),
            }
        }
        Schema::QrCode(qr) => {
            match qr.render(base_pdf.height, page_index, buffer) {
                Ok(()) => {
                    proof {
                        lemma_render_extends(before, buffer.buffer@, page_index as int);
                    }
                    Ok((current_page, y))
                }
                Err(e) => Err(e),
            }
        }
        Schema::Image(image) => {
            match image.render(base_pdf.height, page_index, buffer) {
                Ok(()) => {
                    proof {
                        lemma_render_extends(before, buffer.buffer@, page_index as int);
                    }
                    Ok((current_page, y))
                }
                Err(e) => Err(e),
            }
        }
        Schema::Svg(svg) => {
            match svg.render(base_pdf.height, page_index, buffer) {
                Ok(()) => {
                    proof {
                        lemma_render_extends(before, buffer.buffer@, page_index as int);
                    }
                    Ok((current_page, y))
                }
                Err(e) => Err(e),
            }
        }
        Schema::Rect(rect) => {
            match rect.render(base_pdf.height, page_index, buffer) {
                Ok(()) => {
                    proof {
                        lemma_render_extends(before, buffer.buffer@, page_index as int);
                    }
                    Ok((current_page, y))
                }
                Err(e) => Err(e),
            }
        }
        Schema::Line(line) => {
            match line.render(base_pdf.height, page_index, buffer) {
                Ok(()) => {
                    proof {
                        lemma_render_extends(before, buffer.buffer@, page_index as int);
                    }
                    Ok((current_page, y))
                }
                Err(e) => Err(e),
            }
        }
        Schema::Group(group) => {
            match group.render(font_map, base_pdf.height, page_index, buffer) {
                Ok(()) => Ok((current_page, y)),
                Err(e) => Err(e),
            }
        }
    }
}

/// Pass one: renders every region of every logical page, threading the
/// flow cursor through the flowing regions so each starts where the
/// previous left off.  The buffer only grows, so its length after this
/// pass is the document's true physical page count.
pub fn render_schemas(
    font_map: &FontMap,
    base_pdf: &BasePdf,
    schemas: &Vec<Vec<Schema>>,
    buffer: &mut OpBuffer,
) -> (r: Result<(), Error>)
    requires
        font_map.wf(),
        base_pdf.wf(),
        schemas_wf(schemas@),
        schemas@.len() <= 10_000,
    ensures
        r is Ok ==> pages_extend(old(buffer).buffer@, final(buffer).buffer@),
{
    let ghost original = buffer.buffer@;
    let mut current_page: usize = 0;
    let mut y: Option<i64> = None;
    let mut page_index: usize = 0;
    proof {
        lemma_pages_extend_refl(original);
    }
    while page_index < schemas.len()
        invariant
            0 <= page_index <= schemas@.len(),
            schemas@.len() <= 10_000,
            font_map.wf(),
            base_pdf.wf(),
            schemas_wf(schemas@),
            pages_extend(original, buffer.buffer@),
            current_page <= 1_000_000_000,
            match y {
                Some(v) => -100_000_000_000_000 <= v <= 100_000_000_000_000,
                None => true,
            },
        decreases schemas@.len() - page_index,
    {
        let page = &schemas[page_index];
        let mut s: usize = 0;
        while s < page.len()
            invariant
                0 <= s <= page@.len(),
                page@ == schemas@[page_index as int]@,
                0 <= page_index < schemas@.len(),
                schemas@.len() <= 10_000,
                font_map.wf(),
                base_pdf.wf(),
                schemas_wf(schemas@),
                pages_extend(original, buffer.buffer@),
                current_page <= 1_000_000_000,
                match y {
                    Some(v) => -100_000_000_000_000 <= v <= 100_000_000_000_000,
                    None => true,
                },
            decreases page@.len() - s,
        {
            let schema = &page[s];
            proof {
                assert(schemas@[page_index as int]@[s as int].wf());
            }
            let ghost before = buffer.buffer@;
            match render_schema(schema, font_map, base_pdf, page_index, current_page, y,
                buffer) {
                Ok((next_page, next_y)) => {
                    current_page = next_page;
                    y = next_y;
                    proof {
                        lemma_pages_extend_trans(original, before, buffer.buffer@);
                    }
                }
                Err(e) => {
                    return Err(e);
                }
            }
            s = s + 1;
        }
        page_index = page_index + 1;
    }
    Ok(())
}

/// Pass two: renders one physical page's static region set onto that
/// page, after the outside substitution engine filled in the current
/// page number and the total count.  The buffer only grows, so no
/// page rendered in pass one loses an instruction.
pub fn render_static_schemas_for_page(
    font_map: &FontMap,
    base_pdf: &BasePdf,
    schemas: &Vec<Schema>,
    page_index: usize,
    buffer: &mut OpBuffer,
) -> (r: Result<(), Error>)
    requires
        font_map.wf(),
        base_pdf.wf(),
        forall|s: int| 0 <= s < schemas@.len() ==> (#[trigger] schemas@[s]).wf(),
        page_index <= 1_000_000_000,
    ensures
        r is Ok ==> pages_extend(old(buffer).buffer@, final(buffer).buffer@),
        (r is Ok && page_index < old(buffer).buffer@.len()
            && (forall|k: int| 0 <= k < schemas@.len()
                ==> spec_single_page_schema(#[trigger] schemas@[k])))
            ==> final(buffer).buffer@.len() == old(buffer).buffer@.len(),
{
    let ghost original = buffer.buffer@;
    proof {
        lemma_pages_extend_refl(original);
    }
    let mut s: usize = 0;
    while s < schemas.len()
        invariant
            0 <= s <= schemas@.len(),
            font_map.wf(),
            base_pdf.wf(),
            forall|k: int| 0 <= k < schemas@.len() ==> (#[trigger] schemas@[k]).wf(),
            pages_extend(original, buffer.buffer@),
            page_index <= 1_000_000_000,
            (page_index < original.len()
                && (forall|k: int| 0 <= k < schemas@.len()
                    ==> spec_single_page_schema(#[trigger] schemas@[k])))
                ==> buffer.buffer@.len() == original.len(),
        decreases schemas@.len() - s,
    {
        let schema = &schemas[s];
        let ghost before = buffer.buffer@;
        match render_schema(schema, font_map, base_pdf, page_index, page_index, None,
            buffer) {
            Ok(_) => {
                proof {
                    lemma_pages_extend_trans(original, before, buffer.buffer@);
                }
            }
            Err(e) => {
                return Err(e);
            }
        }
        s = s + 1;
    }
    Ok(())
}

} // verus!
