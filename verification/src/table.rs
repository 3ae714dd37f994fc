//! The table layout engine: header and body rows in fixed-percentage
//! columns, per-row heights as the maximum of the cell heights, and
//! repagination with a repeated header and alternating row shading.
//!
//! Column widths are the table width split by the head percentages,
//! which must sum to exactly one hundred percent — validated when the
//! table is constructed.  Rows alternate their background by position
//! within the accumulated output (repeated headers included), so a
//! page break does not reset the alternation.  A table with no data
//! rows renders nothing and reports no cursor advance.

use vstd::prelude::*;
use crate::color::{Rgb, parse_color, parse_optional_color, css_color_of};
use crate::error::Error;
use crate::fit::MAX_LINE_HEIGHT;
use crate::font::{FontMap, MAX_TEXT_LEN, MAX_FONT_SIZE, MAX_SPACING};
use crate::geom::{Alignment, VerticalAlignment, BaseSchema, BasePdf, BoundingBox, Frame, JsonPosition, coord_in_range};
use crate::ops::{DrawOp, OpBuffer, spec_page_at};
use crate::qrcode::{QrCode, JsonQrCodeSchema};
use crate::rect::{DrawRectangle, draw_rectangle};
use crate::text::{Text, JsonTextSchema, clone_string};
use crate::transform::MAX_OBJECT_BOX;
use crate::wrap::chars_of;

verus! {

/// One hundred percent, in thousandths of a percent.
pub const PERCENT_TOTAL: i64 = 100_000;

/// The most columns a table may declare.
pub const MAX_COLUMNS: usize = 1000;

/// The most data rows a table may carry.
pub const MAX_ROWS: usize = 1_000_000;

/// Head styling as the template file carries it.
#[derive(Debug, Clone)]
pub struct JsonHeadStyles {
    pub font_size: i64,
    pub font_name: String,
    pub character_spacing: Option<i64>,
    pub alignment: Option<Alignment>,
    pub vertical_alignment: Option<VerticalAlignment>,
    pub line_height: Option<i64>,
    pub font_color: String,
    pub border_color: String,
    pub background_color: String,
    pub border_width: Frame,
    pub padding: Frame,
}

/// Validated head styling; its colors stay as the template wrote them,
/// as the header cells carry their own colors.
#[derive(Debug, Clone)]
pub struct HeadStyles {
    pub font_size: i64,
    pub font_name: String,
    pub character_spacing: i64,
    pub alignment: Alignment,
    pub vertical_alignment: VerticalAlignment,
    pub line_height: i64,
    pub font_color: String,
    pub border_color: String,
    pub background_color: String,
    pub border_width: Frame,
    pub padding: Frame,
}

/// Whether head styling is inside the ranges layout accepts.
pub open spec fn spec_head_styles_valid(json: JsonHeadStyles) -> bool {
    &&& 0 <= json.font_size <= MAX_FONT_SIZE
    &&& (match json.character_spacing {
        Some(s) => 0 <= s <= MAX_SPACING,
        None => true,
    })
    &&& (match json.line_height {
        Some(lh) => 0 <= lh <= MAX_LINE_HEIGHT,
        None => true,
    })
    &&& json.padding.wf()
}

impl HeadStyles {
    /// Validates head styling: numeric styles must be inside the
    /// ranges layout accepts; missing spacing is zero, missing
    /// alignment left and middle, missing line height one.
    pub fn from_json(json: JsonHeadStyles) -> (r: Result<HeadStyles, Error>)
        ensures
            r is Ok <==> spec_head_styles_valid(json),
            r is Ok ==> {
                let s = r->Ok_0;
                &&& 0 <= s.font_size <= MAX_FONT_SIZE
                &&& 0 <= s.character_spacing <= MAX_SPACING
                &&& 0 <= s.line_height <= MAX_LINE_HEIGHT
                &&& s.padding.wf()
                &&& s.font_name@ == json.font_name@
                &&& s.font_color@ == json.font_color@
                &&& s.background_color@ == json.background_color@
                &&& s.border_color@ == json.border_color@
            },
            r is Err ==> r->Err_0 == Error::ValueOutOfRange,
    {
        if !(0 <= json.font_size && json.font_size <= MAX_FONT_SIZE) {
            return Err(Error::ValueOutOfRange);
        }
        let character_spacing = match json.character_spacing {
            Some(s) => s,
            None => 0,
        };
        if !(0 <= character_spacing && character_spacing <= MAX_SPACING) {
            return Err(Error::ValueOutOfRange);
        }
        let line_height = match json.line_height {
            Some(lh) => lh,
            None => 1000,
        };
        if !(0 <= line_height && line_height <= MAX_LINE_HEIGHT) {
            return Err(Error::ValueOutOfRange);
        }
        if !(json.padding.top >= 0 && json.padding.top <= 0x4000_0000_0000
            && json.padding.right >= 0 && json.padding.right <= 0x4000_0000_0000
            && json.padding.bottom >= 0 && json.padding.bottom <= 0x4000_0000_0000
            && json.padding.left >= 0 && json.padding.left <= 0x4000_0000_0000) {
            return Err(Error::ValueOutOfRange);
        }
        Ok(HeadStyles {
            font_size: json.font_size,
            font_name: json.font_name,
            character_spacing,
            alignment: match json.alignment {
                Some(a) => a,
                None => Alignment::Left,
            },
            vertical_alignment: match json.vertical_alignment {
                Some(a) => a,
                None => VerticalAlignment::Middle,
            },
            line_height,
            font_color: json.font_color,
            border_color: json.border_color,
            background_color: json.background_color,
            border_width: json.border_width,
            padding: json.padding,
        })
    }
}

/// Body styling as the template file carries it.
#[derive(Debug, Clone)]
pub struct JsonBodyStyles {
    pub alignment: Alignment,
    pub vertical_alignment: VerticalAlignment,
    pub character_spacing: Option<i64>,
    pub font_size: i64,
    pub font_name: String,
    pub font_color: String,
    pub line_height: i64,
    pub border_color: String,
    pub background_color: String,
    pub alternate_background_color: Option<String>,
    pub border_width: Frame,
    pub padding: Frame,
}

/// Validated body styling with parsed colors.
#[derive(Debug, Clone)]
pub struct BodyStyles {
    pub alignment: Alignment,
    pub vertical_alignment: VerticalAlignment,
    pub character_spacing: i64,
    pub font_size: i64,
    pub font_name: String,
    pub font_color: Rgb,
    pub line_height: i64,
    pub border_color: Rgb,
    pub background_color: Rgb,
    pub alternate_background_color: Option<Rgb>,
    pub border_width: Frame,
    pub padding: Frame,
}

/// Whether body styling is inside the ranges layout accepts and every
/// color of it is a CSS color.
pub open spec fn spec_body_styles_valid(json: JsonBodyStyles) -> bool {
    &&& 0 <= json.font_size <= MAX_FONT_SIZE
    &&& (match json.character_spacing {
        Some(s) => 0 <= s <= MAX_SPACING,
        None => true,
    })
    &&& 0 <= json.line_height <= MAX_LINE_HEIGHT
    &&& json.padding.wf()
    &&& css_color_of(json.font_color@) is Some
    &&& css_color_of(json.background_color@) is Some
    &&& (match json.alternate_background_color {
        Some(text) => css_color_of(text@) is Some,
        None => true,
    })
    &&& css_color_of(json.border_color@) is Some
}

impl BodyStyles {
    /// Validates body styling: each color must parse and each numeric
    /// style must be inside the ranges layout accepts.
    pub fn from_json(json: JsonBodyStyles) -> (r: Result<BodyStyles, Error>)
        ensures
            r is Ok <==> spec_body_styles_valid(json),
            r is Err ==> r->Err_0 == Error::ValueOutOfRange
                || r->Err_0 == Error::InvalidColor,
            r is Ok ==> {
                let s = r->Ok_0;
                &&& 0 <= s.font_size <= MAX_FONT_SIZE
                &&& 0 <= s.character_spacing <= MAX_SPACING
                &&& 0 <= s.line_height <= MAX_LINE_HEIGHT
                &&& s.padding.wf()
                &&& css_color_of(json.font_color@) == Some((
                    s.font_color.r, s.font_color.g, s.font_color.b,
                    css_color_of(json.font_color@)->Some_0.3))
                &&& css_color_of(json.background_color@) is Some
                &&& css_color_of(json.border_color@) is Some
                &&& (s.alternate_background_color is Some
                    <==> json.alternate_background_color is Some)
                &&& s.font_name@ == json.font_name@
            },
            r is Ok ==> (match json.alternate_background_color {
                Some(text) => css_color_of(text@) is Some
                    && r->Ok_0.alternate_background_color == Some(Rgb {
                        r: css_color_of(text@)->Some_0.0,
                        g: css_color_of(text@)->Some_0.1,
                        b: css_color_of(text@)->Some_0.2,
                    }),
                None => r->Ok_0.alternate_background_color is None,
            }),
            r is Ok ==> r->Ok_0.background_color == (Rgb {
                r: css_color_of(json.background_color@)->Some_0.0,
                g: css_color_of(json.background_color@)->Some_0.1,
                b: css_color_of(json.background_color@)->Some_0.2,
            }),
    {
        if !(0 <= json.font_size && json.font_size <= MAX_FONT_SIZE) {
            return Err(Error::ValueOutOfRange);
        }
        let character_spacing = match json.character_spacing {
            Some(s) => s,
            None => 0,
        };
        if !(0 <= character_spacing && character_spacing <= MAX_SPACING) {
            return Err(Error::ValueOutOfRange);
        }
        if !(0 <= json.line_height && json.line_height <= MAX_LINE_HEIGHT) {
            return Err(Error::ValueOutOfRange);
        }
        if !(json.padding.top >= 0 && json.padding.top <= 0x4000_0000_0000
            && json.padding.right >= 0 && json.padding.right <= 0x4000_0000_0000
            && json.padding.bottom >= 0 && json.padding.bottom <= 0x4000_0000_0000
            && json.padding.left >= 0 && json.padding.left <= 0x4000_0000_0000) {
            return Err(Error::ValueOutOfRange);
        }
        let font_color = match parse_color(&json.font_color) {
            Ok(c) => c,
            Err(e) => {
                return Err(e);
            }
        };
        let background_color = match parse_color(&json.background_color) {
            Ok(c) => c,
            Err(e) => {
                return Err(e);
            }
        };
        let alternate_background_color = match parse_optional_color(
            &json.alternate_background_color) {
            Ok(c) => c,
            Err(e) => {
                return Err(e);
            }
        };
        let border_color = match parse_color(&json.border_color) {
            Ok(c) => c,
            Err(e) => {
                return Err(e);
            }
        };
        Ok(BodyStyles {
            alignment: json.alignment,
            vertical_alignment: json.vertical_alignment,
            character_spacing,
            font_size: json.font_size,
            font_name: json.font_name,
            font_color,
            line_height: json.line_height,
            border_color,
            background_color,
            alternate_background_color,
            border_width: json.border_width,
            padding: json.padding,
        })
    }
}

/// Table-wide styling as the template file carries it.
#[derive(Debug, Clone)]
pub struct JsonTableStyles {
    pub border_width: i64,
    pub border_color: String,
}

/// Validated table-wide styling.
#[derive(Debug, Clone)]
pub struct TableStyles {
    pub border_width: i64,
    pub border_color: Rgb,
}

impl TableStyles {
    /// Validates table-wide styling: the border color must parse.
    pub fn from_json(json: JsonTableStyles) -> (r: Result<TableStyles, Error>)
        ensures
            r is Ok <==> css_color_of(json.border_color@) is Some,
            r is Err ==> r->Err_0 == Error::InvalidColor,
            r is Ok ==> r->Ok_0.border_width == json.border_width,
    {
        let border_color = match parse_color(&json.border_color) {
            Ok(c) => c,
            Err(e) => {
                return Err(e);
            }
        };
        Ok(TableStyles { border_width: json.border_width, border_color })
    }
}

/// One head column as the template file carries it: its width share in
/// thousandths of a percent and the label's styling overrides.
#[derive(Debug, Clone)]
pub struct JsonHead {
    pub percent: i64,
    pub content: String,
    pub font_size: Option<i64>,
    pub font_name: Option<String>,
    pub character_spacing: Option<i64>,
    pub alignment: Option<Alignment>,
    pub vertical_alignment: Option<VerticalAlignment>,
}

/// One validated head column: its width share and the pre-built label.
#[derive(Debug, Clone)]
pub struct Head {
    pub percent: i64,
    pub text: Text,
}

/// A table cell template or a placed cell: a text cell or a code
/// symbol.
#[derive(Debug, Clone)]
pub enum CellSchema {
    Text(Text),
    QrCode(QrCode),
}

/// A cell template as the template file carries it.
#[derive(Debug, Clone)]
pub enum JsonCellSchema {
    Text(JsonTextSchema),
    QrCode(JsonQrCodeSchema),
}

/// A cell template with its optional fixed height.
#[derive(Debug, Clone)]
pub struct JsonCellStyle {
    pub schema: JsonCellSchema,
    pub height: Option<i64>,
}

/// A table region as the template file carries it.
#[derive(Debug, Clone)]
pub struct JsonTableSchema {
    pub name: String,
    pub position: JsonPosition,
    pub width: i64,
    pub height: i64,
    pub content: String,
    pub show_head: bool,
    pub head_styles: JsonHeadStyles,
    pub head_width_percentages: Vec<JsonHead>,
    pub body_styles: JsonBodyStyles,
    pub table_styles: JsonTableStyles,
    pub columns: Vec<JsonCellStyle>,
    pub fields: Vec<Vec<String>>,
}

/// A validated table region.
#[derive(Debug, Clone)]
pub struct Table {
    pub base: BaseSchema,
    pub content: Vec<char>,
    pub show_head: bool,
    pub head_width_percentages: Vec<Head>,
    pub body_styles: BodyStyles,
    pub table_styles: TableStyles,
    pub columns: Vec<CellSchema>,
    pub fields: Vec<Vec<Vec<char>>>,
}

/// Pushing one laid-out data row (with its re-emitted header when a
/// page opened) onto a law-abiding row list keeps the placement laws.
#[verifier::rlimit(100)]
proof fn lemma_placement_push(
    table: Table,
    base_pdf: BasePdf,
    start_y: int,
    rows_entry: Seq<PlacedRow>,
    new_rows: Seq<PlacedRow>,
    header: PlacedRow,
    data: PlacedRow,
    pushed_header: bool,
    header_needed: bool,
    y_line_entry: int,
    page_entry: int,
    header_height: int,
)
    requires
        spec_placement_laws(table, base_pdf, start_y, rows_entry),
        rows_entry.len() > 0 ==> !rows_entry.last().header
            && rows_entry.last().page_offset == page_entry
            && y_line_entry == rows_entry.last().y + rows_entry.last().height,
        rows_entry.len() == 0 ==> y_line_entry == start_y && page_entry == 0,
        pushed_header == ((rows_entry.len() == 0 || header_needed) && table.show_head),
        !table.show_head ==> header_height == 0,
        new_rows == if pushed_header {
            rows_entry.push(header).push(data)
        } else {
            rows_entry.push(data)
        },
        pushed_header ==> header.header == true
            && header.page_offset == (if header_needed { page_entry + 1 } else { page_entry })
            && header.y == (if header_needed {
                base_pdf.padding.top as int
            } else {
                y_line_entry
            })
            && header.height == header_height
            && header.alternate == (rows_entry.len() % 2 == 1),
        data.header == false,
        data.page_offset == (if header_needed { page_entry + 1 } else { page_entry }),
        data.y == (if header_needed { base_pdf.padding.top as int } else { y_line_entry })
            + (if pushed_header { header_height } else { 0int }),
        data.alternate == ((rows_entry.len() + (if pushed_header { 1int } else { 0int })) % 2
            == 1),
        rows_entry.len() == 0 ==> (header_needed <==> start_y + header_height + data.height
            > base_pdf.height - base_pdf.padding.bottom),
        rows_entry.len() > 0 ==> (header_needed <==> y_line_entry + data.height
            > base_pdf.height - base_pdf.padding.bottom),
    ensures
        spec_placement_laws(table, base_pdf, start_y, new_rows),
        spec_data_row_count(new_rows) == spec_data_row_count(rows_entry) + 1,
{
    let n0 = rows_entry.len() as int;
    let top = base_pdf.padding.top as int;
    let bottom = base_pdf.height - base_pdf.padding.bottom;
    let at = |i: int| if i < n0 {
        rows_entry[i]
    } else if pushed_header && i == n0 {
        header
    } else {
        data
    };
    assert forall|i: int| 0 <= i < new_rows.len()
        implies #[trigger] new_rows[i] == at(i) by {
        if pushed_header {
            if i < n0 {
                assert(new_rows[i] == rows_entry.push(header)[i]);
                assert(rows_entry.push(header)[i] == rows_entry[i]);
            } else if i == n0 {
                assert(new_rows[i] == rows_entry.push(header)[i]);
            }
        }
    }
    assert forall|i: int| 0 <= i < new_rows.len()
        implies (#[trigger] new_rows[i]).alternate == (i % 2 == 1) by {
        assert(new_rows[i] == at(i));
    }
    assert forall|i: int| 0 <= i < new_rows.len()
        implies ((#[trigger] new_rows[i]).header ==> table.show_head) by {
        assert(new_rows[i] == at(i));
    }
    assert(new_rows[0] == at(0));
    assert(new_rows[0].header <==> table.show_head);
    assert(new_rows[0].page_offset <= 1
        && (new_rows[0].page_offset == 0 ==> new_rows[0].y == start_y)
        && (new_rows[0].page_offset == 1 ==> new_rows[0].y == top));
    assert forall|i: int| 1 <= i < new_rows.len()
        implies ((#[trigger] new_rows[i]).page_offset == new_rows[i - 1].page_offset
            || new_rows[i].page_offset == new_rows[i - 1].page_offset + 1) by {
        assert(new_rows[i] == at(i));
        assert(new_rows[i - 1] == at(i - 1));
    }
    assert forall|i: int| 1 <= i < new_rows.len()
        && (#[trigger] new_rows[i]).page_offset == new_rows[i - 1].page_offset
        implies new_rows[i].y == new_rows[i - 1].y + new_rows[i - 1].height by {
        assert(new_rows[i] == at(i));
        assert(new_rows[i - 1] == at(i - 1));
    }
    assert forall|i: int| 1 <= i < new_rows.len()
        && (#[trigger] new_rows[i]).page_offset == new_rows[i - 1].page_offset + 1
        implies new_rows[i].y == top && (table.show_head ==> new_rows[i].header) by {
        assert(new_rows[i] == at(i));
        assert(new_rows[i - 1] == at(i - 1));
    }
    assert forall|i: int| 1 <= i < new_rows.len()
        && !(#[trigger] new_rows[i]).header && !new_rows[i - 1].header
        && new_rows[i].page_offset == new_rows[i - 1].page_offset
        implies new_rows[i].y + new_rows[i].height <= bottom by {
        assert(new_rows[i] == at(i));
        assert(new_rows[i - 1] == at(i - 1));
    }
    if !table.show_head {
        assert forall|i: int| 1 <= i < new_rows.len()
            && (#[trigger] new_rows[i]).page_offset == new_rows[i - 1].page_offset + 1
            implies new_rows[i - 1].y + new_rows[i - 1].height + new_rows[i].height
                > bottom by {
            assert(new_rows[i] == at(i));
            assert(new_rows[i - 1] == at(i - 1));
        }
    }
    if table.show_head {
        assert forall|i: int| 1 <= i < new_rows.len() && (#[trigger] new_rows[i]).header
            implies i + 1 < new_rows.len() && !new_rows[i + 1].header
                && new_rows[i - 1].y + new_rows[i - 1].height + new_rows[i + 1].height
                    > bottom by {
            assert(new_rows[i] == at(i));
            assert(new_rows[i - 1] == at(i - 1));
            if i < n0 {
                assert(i + 1 < n0);
                assert(new_rows[i + 1] == at(i + 1));
            } else {
                assert(new_rows[i + 1] == at(i + 1));
            }
        }
    }
    assert(new_rows[0].page_offset == 1 && !table.show_head
        ==> start_y + new_rows[0].height > bottom);
    if new_rows.len() > 1 {
        assert(new_rows[1] == at(1));
    }
    assert(spec_data_row_count(new_rows) == spec_data_row_count(rows_entry) + 1) by {
        assert(new_rows.last() == data);
        if pushed_header {
            assert(new_rows.drop_last() =~= rows_entry.push(header));
            assert(spec_data_row_count(new_rows)
                == spec_data_row_count(rows_entry.push(header)) + 1);
            assert(rows_entry.push(header).drop_last() =~= rows_entry);
            assert(rows_entry.push(header).last() == header);
            assert(spec_data_row_count(rows_entry.push(header))
                == spec_data_row_count(rows_entry));
        } else {
            assert(new_rows.drop_last() =~= rows_entry);
            assert(spec_data_row_count(new_rows)
                == spec_data_row_count(rows_entry) + 1);
        }
    }
}

/// Whether one head column's file form validates against a font
/// table: an override font size inside the range, a bounded label, and
/// a registered font (the column's own, or the head styles' default).
pub open spec fn spec_head_label_valid(
    head: JsonHead,
    styles: JsonHeadStyles,
    font_map: FontMap,
) -> bool {
    &&& (match head.font_size {
        Some(size) => 0 <= size <= MAX_FONT_SIZE,
        None => true,
    })
    &&& head.content@.len() <= MAX_TEXT_LEN
    &&& font_map.spec_find(match head.font_name {
        Some(name) => name@,
        None => styles.font_name@,
    }) is Some
}

/// Whether a table's file form validates against a font table:
/// geometry inside the ranges, shares that sum to exactly one hundred
/// percent, valid styles and colors, a valid label per head column, a
/// valid cell template per column, and bounded data.
pub open spec fn spec_table_json_valid(json: JsonTableSchema, font_map: FontMap) -> bool {
    &&& coord_in_range(json.position.x) && coord_in_range(json.position.y)
    &&& 0 <= json.width <= MAX_OBJECT_BOX
    &&& 0 <= json.height <= 0x4000_0000_0000
    &&& json.head_width_percentages@.len() <= MAX_COLUMNS
    &&& (forall|i: int| 0 <= i < json.head_width_percentages@.len()
        ==> 0 <= (#[trigger] json.head_width_percentages@[i]).percent <= PERCENT_TOTAL)
    &&& spec_percent_sum(json.head_width_percentages@) == PERCENT_TOTAL
    &&& spec_head_styles_valid(json.head_styles)
    &&& css_color_of(json.table_styles.border_color@) is Some
    &&& spec_body_styles_valid(json.body_styles)
    &&& (forall|i: int| 0 <= i < json.head_width_percentages@.len()
        ==> spec_head_label_valid(#[trigger] json.head_width_percentages@[i],
            json.head_styles, font_map))
    &&& json.columns@.len() <= MAX_COLUMNS
    &&& (forall|i: int| 0 <= i < json.columns@.len()
        ==> (match (#[trigger] json.columns@[i]).schema {
            JsonCellSchema::Text(text_json) => Text::spec_json_valid(text_json, font_map),
            JsonCellSchema::QrCode(qr_json) => QrCode::spec_json_valid(qr_json),
        }))
    &&& json.fields@.len() <= MAX_ROWS
    &&& (forall|i: int| 0 <= i < json.fields@.len()
        ==> (#[trigger] json.fields@[i])@.len() <= MAX_COLUMNS
            && (forall|j: int| 0 <= j < json.fields@[i]@.len()
                ==> (#[trigger] json.fields@[i]@[j])@.len() <= MAX_TEXT_LEN))
    &&& json.content@.len() <= MAX_TEXT_LEN
}

/// The sum of the head width shares, in thousandths of a percent.
pub open spec fn spec_percent_sum(heads: Seq<JsonHead>) -> int
    decreases heads.len(),
{
    if heads.len() == 0 {
        0
    } else {
        heads[0].percent + spec_percent_sum(heads.drop_first())
    }
}

/// One placed table row: its cells, page and vertical position, its
/// height, whether it is a (re-)emitted header, and whether it takes
/// the alternate background.
#[derive(Debug, Clone)]
pub struct PlacedRow {
    pub cells: Vec<CellSchema>,
    pub page_offset: usize,
    pub y: i64,
    pub height: i64,
    pub header: bool,
    pub alternate: bool,
}

/// The sum of the first `k` column widths.
pub open spec fn spec_width_prefix(widths: Seq<i64>, k: int) -> int
    decreases k,
{
    if k <= 0 {
        0
    } else {
        spec_width_prefix(widths, k - 1) + widths[k - 1]
    }
}

/// The largest of a list of heights, zero when empty.
pub open spec fn spec_max_height(heights: Seq<int>) -> int
    decreases heights.len(),
{
    if heights.len() == 0 {
        0
    } else {
        let rest = spec_max_height(heights.drop_last());
        if heights.last() >= rest {
            heights.last()
        } else {
            rest
        }
    }
}

/// The placement laws a table layout's row list obeys, from a starting
/// cursor: rows alternate their background by position in the
/// accumulated output; page offsets never decrease and grow by at most
/// one; rows on the same page stack contiguously; the first row of
/// every later page sits at the top margin and is the re-emitted
/// header whenever the table shows one; a data row that follows
/// another on the same page ends at or above the bottom margin; and a
/// page only breaks when the next data row would have crossed it.
pub open spec fn spec_placement_laws(
    table: Table,
    base_pdf: BasePdf,
    start_y: int,
    rows: Seq<PlacedRow>,
) -> bool {
    let top = base_pdf.padding.top as int;
    let bottom = base_pdf.height - base_pdf.padding.bottom;
    &&& (forall|i: int| 0 <= i < rows.len()
        ==> (#[trigger] rows[i]).alternate == (i % 2 == 1))
    &&& (forall|i: int| 0 <= i < rows.len() ==> ((#[trigger] rows[i]).header ==> table.show_head))
    &&& (rows.len() > 0 ==> (rows[0].header <==> table.show_head))
    &&& (rows.len() > 0 ==> rows[0].page_offset <= 1
        && (rows[0].page_offset == 0 ==> rows[0].y == start_y)
        && (rows[0].page_offset == 1 ==> rows[0].y == top))
    &&& (forall|i: int| 1 <= i < rows.len()
        ==> (#[trigger] rows[i]).page_offset == rows[i - 1].page_offset
            || rows[i].page_offset == rows[i - 1].page_offset + 1)
    &&& (forall|i: int| 1 <= i < rows.len()
        && (#[trigger] rows[i]).page_offset == rows[i - 1].page_offset
        ==> rows[i].y == rows[i - 1].y + rows[i - 1].height)
    &&& (forall|i: int| 1 <= i < rows.len()
        && (#[trigger] rows[i]).page_offset == rows[i - 1].page_offset + 1
        ==> rows[i].y == top && (table.show_head ==> rows[i].header))
    &&& (forall|i: int| 1 <= i < rows.len()
        && !(#[trigger] rows[i]).header && !rows[i - 1].header
        && rows[i].page_offset == rows[i - 1].page_offset
        ==> rows[i].y + rows[i].height <= bottom)
    &&& (!table.show_head ==> (forall|i: int| 1 <= i < rows.len()
        && (#[trigger] rows[i]).page_offset == rows[i - 1].page_offset + 1
        ==> rows[i - 1].y + rows[i - 1].height + rows[i].height > bottom))
    &&& (table.show_head ==> (forall|i: int| 1 <= i < rows.len() && (#[trigger] rows[i]).header
        ==> i + 1 < rows.len() && !rows[i + 1].header
            && rows[i - 1].y + rows[i - 1].height + rows[i + 1].height > bottom))
    &&& (rows.len() > 0 && rows[0].page_offset == 1 && !table.show_head
        ==> start_y + rows[0].height > bottom)
    &&& (rows.len() > 1 && rows[0].page_offset == 1 && table.show_head
        ==> start_y + rows[0].height + rows[1].height > bottom)
}

/// The background a placed row's cells are shaded with: the base
/// background on even output positions, the alternate background (when
/// configured) on odd ones.
pub open spec fn spec_row_shade(styles: BodyStyles, alternate: bool) -> Rgb {
    if alternate {
        match styles.alternate_background_color {
            Some(color) => color,
            None => styles.background_color,
        }
    } else {
        styles.background_color
    }
}

/// What a successful table render reports and draws: for some placed
/// row list obeying the placement laws and covering every data row,
/// the result names the page of the last row and the cursor just below
/// it, and every nonempty placed row's page carries a fill of that
/// row's shade.
pub open spec fn spec_render_result(
    table: Table,
    base_pdf: BasePdf,
    start_y: int,
    current_page: int,
    pages: Seq<Vec<DrawOp>>,
    result: (usize, Option<i64>),
) -> bool {
    exists|rows: Seq<PlacedRow>|
        #[trigger] spec_placement_laws(table, base_pdf, start_y, rows)
        && spec_data_row_count(rows) == table.fields@.len()
        && rows.len() > 0
        && result == (
            (current_page + rows.last().page_offset) as usize,
            Some((rows.last().y + rows.last().height) as i64),
        )
        && (forall|i: int| 0 <= i < rows.len()
            && (#[trigger] rows[i]).cells@.len() > 0
            ==> spec_page_at(pages, current_page + rows[i].page_offset)
                .contains(DrawOp::SetFillColor {
                    color: spec_row_shade(table.body_styles, rows[i].alternate),
                }))
}

/// How many of the placed rows carry data (are not headers).
pub open spec fn spec_data_row_count(rows: Seq<PlacedRow>) -> int
    decreases rows.len(),
{
    if rows.len() == 0 {
        0
    } else {
        spec_data_row_count(rows.drop_last()) + (if rows.last().header { 0int } else { 1int })
    }
}

impl CellSchema {
    /// A well-formed cell.
    pub open spec fn wf(self) -> bool {
        match self {
            CellSchema::Text(text) => text.wf(),
            CellSchema::QrCode(qr) => qr.wf(),
        }
    }

    /// A well-formed cell template: a symbol template additionally
    /// keeps its natural box inside the embedding range.
    pub open spec fn template_ok(self) -> bool {
        self.wf() && (match self {
            CellSchema::Text(_) => true,
            CellSchema::QrCode(qr) => 0 <= qr.base.width <= MAX_OBJECT_BOX
                && 0 <= qr.base.height <= MAX_OBJECT_BOX,
        })
    }

    /// The cell's box.
    pub fn get_box(&self) -> (r: BoundingBox)
        ensures
            match self {
                CellSchema::Text(text) => r == (BoundingBox {
                    x: text.base.x,
                    y: text.base.y,
                    width: text.base.width,
                    height: text.base.height,
                }),
                CellSchema::QrCode(qr) => r == (match qr.bounding_box {
                    Some(bb) => bb,
                    None => (BoundingBox {
                        x: qr.base.x,
                        y: qr.base.y,
                        width: qr.base.width,
                        height: qr.base.height,
                    }),
                }),
            },
    {
        match self {
            CellSchema::Text(text) => BoundingBox {
                x: text.base.x,
                y: text.base.y,
                width: text.base.width,
                height: text.base.height,
            },
            CellSchema::QrCode(qr) => match qr.bounding_box {
                Some(bb) => bb,
                None => BoundingBox {
                    x: qr.base.x,
                    y: qr.base.y,
                    width: qr.base.width,
                    height: qr.base.height,
                },
            },
        }
    }
}

impl Table {
    /// A well-formed table: bounded geometry, shares that sum to one
    /// hundred percent, well-formed cell templates, and bounded data.
    pub open spec fn wf(self) -> bool {
        self.base.wf()
        && 0 <= self.base.width <= MAX_OBJECT_BOX
        && self.head_width_percentages@.len() <= MAX_COLUMNS
        && (forall|i: int| 0 <= i < self.head_width_percentages@.len()
            ==> 0 <= (#[trigger] self.head_width_percentages@[i]).percent <= PERCENT_TOTAL
                && self.head_width_percentages@[i].text.wf())
        && self.columns@.len() <= MAX_COLUMNS
        && (forall|i: int| 0 <= i < self.columns@.len()
            ==> (#[trigger] self.columns@[i]).template_ok())
        && self.fields@.len() <= MAX_ROWS
        && (forall|i: int| 0 <= i < self.fields@.len()
            ==> (#[trigger] self.fields@[i])@.len() <= MAX_COLUMNS
                && (forall|j: int| 0 <= j < self.fields@[i]@.len()
                    ==> (#[trigger] self.fields@[i]@[j])@.len() <= MAX_TEXT_LEN))
        && 0 <= self.body_styles.font_size <= MAX_FONT_SIZE
        && 0 <= self.body_styles.character_spacing <= MAX_SPACING
        && 0 <= self.body_styles.line_height <= MAX_LINE_HEIGHT
        && self.body_styles.padding.wf()
    }

    /// The column widths: the table width split by the head shares.
    /// Their sum never exceeds the table width.
    pub fn cell_widths(&self) -> (r: Vec<i64>)
        requires
            self.wf(),
        ensures
            r@.len() == self.head_width_percentages@.len(),
            forall|i: int| 0 <= i < r@.len() ==> #[trigger] r@[i]
                == self.base.width * self.head_width_percentages@[i].percent as int
                    / (PERCENT_TOTAL as int),
            forall|i: int| 0 <= i < r@.len() ==> 0 <= #[trigger] r@[i] <= self.base.width,
    {
        let box_width = self.base.width;
        let mut widths: Vec<i64> = Vec::new();
        let mut i: usize = 0;
        while i < self.head_width_percentages.len()
            invariant
                0 <= i <= self.head_width_percentages@.len(),
                widths@.len() == i,
                forall|k: int| 0 <= k < i ==> #[trigger] widths@[k]
                    == self.base.width * self.head_width_percentages@[k].percent as int
                        / (PERCENT_TOTAL as int),
                forall|k: int| 0 <= k < i ==> 0 <= #[trigger] widths@[k] <= self.base.width,
            decreases self.head_width_percentages@.len() - i,
        {
            let percent = self.head_width_percentages[i].percent;
            proof {
                lemma_cell_width_bounds(box_width as int, percent as int);
            }
            let width = box_width * percent / PERCENT_TOTAL;
            widths.push(width);
            i = i + 1;
        }
        widths
    }

    /// Validates a table region from its file form.  The head shares
    /// must sum to exactly one hundred percent — a sum off by as
    /// little as a tenth of a percent is rejected — and every head
    /// label and cell template must validate.
    pub fn from_json(json: JsonTableSchema, font_map: &FontMap) -> (r: Result<Table, Error>)
        ensures
            r is Ok <==> spec_table_json_valid(json, *font_map),
            r is Err ==> r->Err_0 == Error::ValueOutOfRange
                || r->Err_0 == Error::InvalidColumnPercentages
                || r->Err_0 == Error::InvalidColor
                || r->Err_0 == Error::FontNotFound
                || r->Err_0 == Error::InvalidFontSize,
            r is Ok ==> spec_percent_sum(json.head_width_percentages@) == PERCENT_TOTAL,
            r is Ok ==> {
                let t = r->Ok_0;
                &&& t.wf()
                &&& t.show_head == json.show_head
                &&& t.base.x == json.position.x && t.base.y == json.position.y
                &&& t.base.width == json.width && t.base.height == json.height
                &&& t.head_width_percentages@.len() == json.head_width_percentages@.len()
                &&& t.fields@.len() == json.fields@.len()
                &&& t.columns@.len() == json.columns@.len()
            },
            (coord_in_range(json.position.x) && coord_in_range(json.position.y)
                && 0 <= json.width <= MAX_OBJECT_BOX && 0 <= json.height <= 0x4000_0000_0000
                && json.head_width_percentages@.len() <= MAX_COLUMNS
                && (forall|i: int| 0 <= i < json.head_width_percentages@.len()
                    ==> 0 <= (#[trigger] json.head_width_percentages@[i]).percent
                        <= PERCENT_TOTAL)
                && spec_percent_sum(json.head_width_percentages@) != PERCENT_TOTAL)
                ==> r == Result::<Table, Error>::Err(Error::InvalidColumnPercentages),
    {
        if !(crate::text::coord_in_range_exec(json.position.x)
            && crate::text::coord_in_range_exec(json.position.y)
            && 0 <= json.width && json.width <= MAX_OBJECT_BOX
            && 0 <= json.height && json.height <= 0x4000_0000_0000) {
            return Err(Error::ValueOutOfRange);
        }
        if json.head_width_percentages.len() > MAX_COLUMNS {
            return Err(Error::ValueOutOfRange);
        }
        // The column shares must sum to exactly one hundred percent.
        let mut sum: i64 = 0;
        let mut i: usize = 0;
        while i < json.head_width_percentages.len()
            invariant
                0 <= i <= json.head_width_percentages@.len(),
                sum == spec_percent_sum(json.head_width_percentages@.take(i as int)),
                0 <= sum <= PERCENT_TOTAL * (i as int),
                json.head_width_percentages@.len() <= MAX_COLUMNS,
                forall|k: int| 0 <= k < i
                    ==> 0 <= (#[trigger] json.head_width_percentages@[k]).percent
                        <= PERCENT_TOTAL,
            decreases json.head_width_percentages@.len() - i,
        {
            let percent = json.head_width_percentages[i].percent;
            if percent < 0 || percent > PERCENT_TOTAL {
                return Err(Error::ValueOutOfRange);
            }
            proof {
                lemma_percent_sum_step(json.head_width_percentages@, i as int);
                assert(0 <= PERCENT_TOTAL as int * (i as int)
                    <= PERCENT_TOTAL as int * MAX_COLUMNS as int) by (nonlinear_arith)
                    requires
                        0 <= i <= MAX_COLUMNS,
                ;
                assert(PERCENT_TOTAL as int * (i as int + 1)
                    == PERCENT_TOTAL as int * (i as int) + PERCENT_TOTAL as int)
                    by (nonlinear_arith);
            }
            sum = sum + percent;
            i = i + 1;
        }
        proof {
            assert(json.head_width_percentages@.take(json.head_width_percentages@.len() as int)
                =~= json.head_width_percentages@);
        }
        if sum != PERCENT_TOTAL {
            return Err(Error::InvalidColumnPercentages);
        }

        let head_styles = match HeadStyles::from_json(json.head_styles) {
            Ok(s) => s,
            Err(e) => {
                return Err(e);
            }
        };
        let table_styles = match TableStyles::from_json(json.table_styles) {
            Ok(s) => s,
            Err(e) => {
                return Err(e);
            }
        };
        let body_styles = match BodyStyles::from_json(json.body_styles) {
            Ok(s) => s,
            Err(e) => {
                return Err(e);
            }
        };

        // Build one label cell per head column.
        let mut heads: Vec<Head> = Vec::new();
        let mut h: usize = 0;
        let json_heads = json.head_width_percentages;
        while h < json_heads.len()
            invariant
                0 <= h <= json_heads@.len(),
                heads@.len() == h,
                json_heads@ == json.head_width_percentages@,
                json_heads@.len() <= MAX_COLUMNS,
                0 <= json.width <= MAX_OBJECT_BOX,
                forall|k: int| 0 <= k < json_heads@.len()
                    ==> 0 <= (#[trigger] json_heads@[k]).percent <= PERCENT_TOTAL,
                forall|k: int| 0 <= k < h
                    ==> 0 <= (#[trigger] heads@[k]).percent <= PERCENT_TOTAL
                        && heads@[k].text.wf(),
                forall|k: int| 0 <= k < h
                    ==> spec_head_label_valid(#[trigger] json_heads@[k], json.head_styles,
                        *font_map),
                0 <= head_styles.font_size <= MAX_FONT_SIZE,
                head_styles.padding.wf(),
                head_styles.font_name@ == json.head_styles.font_name@,
            decreases json_heads@.len() - h,
        {
            let json_head = &json_heads[h];
            proof {
                lemma_cell_width_bounds(json.width as int, json_head.percent as int);
            }
            let label_width = json.width * json_head.percent / PERCENT_TOTAL;
            let font_name = match &json_head.font_name {
                Some(name) => clone_string(name),
                None => clone_string(&head_styles.font_name),
            };
            let font_size = match json_head.font_size {
                Some(size) => {
                    if !(0 <= size && size <= MAX_FONT_SIZE) {
                        return Err(Error::ValueOutOfRange);
                    }
                    size
                }
                None => head_styles.font_size,
            };
            let content = chars_of(json_head.content.as_str());
            if content.len() > MAX_TEXT_LEN {
                return Err(Error::ValueOutOfRange);
            }
            let alignment = match json_head.alignment {
                Some(a) => a,
                None => head_styles.alignment,
            };
            let vertical_alignment = match json_head.vertical_alignment {
                Some(a) => a,
                None => head_styles.vertical_alignment,
            };
            let text = match Text::new(
                0, 0, label_width, 0, font_name, font_size, content, alignment,
                vertical_alignment, font_map, Some(head_styles.padding)) {
                Ok(t) => t,
                Err(e) => {
                    return Err(e);
                }
            };
            heads.push(Head { percent: json_head.percent, text });
            h = h + 1;
        }

        // Build the cell templates.
        let mut columns: Vec<CellSchema> = Vec::new();
        let mut c: usize = 0;
        let json_columns = json.columns;
        if json_columns.len() > MAX_COLUMNS {
            return Err(Error::ValueOutOfRange);
        }
        let mut pending_columns = json_columns;
        proof {
            assert(pending_columns@ =~= json.columns@.skip(0));
        }
        while pending_columns.len() > 0
            invariant
                columns@.len() + pending_columns@.len() == json.columns@.len(),
                c == columns@.len(),
                pending_columns@ == json.columns@.skip(c as int),
                forall|k: int| 0 <= k < c ==> (#[trigger] columns@[k]).template_ok(),
                forall|k: int| 0 <= k < c
                    ==> (match (#[trigger] json.columns@[k]).schema {
                        JsonCellSchema::Text(text_json) =>
                            Text::spec_json_valid(text_json, *font_map),
                        JsonCellSchema::QrCode(qr_json) => QrCode::spec_json_valid(qr_json),
                    }),
            decreases pending_columns@.len(),
        {
            let column_style = pending_columns.remove(0);
            proof {
                assert(json.columns@.skip(c as int)[0] == json.columns@[c as int]);
                assert(json.columns@.skip(c as int).remove(0)
                    =~= json.columns@.skip(c as int + 1));
            }
            let cell = match column_style.schema {
                JsonCellSchema::Text(text_json) => {
                    match Text::from_json(text_json, font_map) {
                        Ok(t) => CellSchema::Text(t),
                        Err(e) => {
                            return Err(e);
                        }
                    }
                }
                JsonCellSchema::QrCode(qr_json) => {
                    match QrCode::from_json(qr_json) {
                        Ok(q) => CellSchema::QrCode(q),
                        Err(e) => {
                            return Err(e);
                        }
                    }
                }
            };
            columns.push(cell);
            c = c + 1;
        }

        // Take the data rows over as character matrices.
        if json.fields.len() > MAX_ROWS {
            return Err(Error::ValueOutOfRange);
        }
        let mut fields: Vec<Vec<Vec<char>>> = Vec::new();
        let mut fr: usize = 0;
        let json_fields = json.fields;
        while fr < json_fields.len()
            invariant
                0 <= fr <= json_fields@.len(),
                fields@.len() == fr,
                json_fields@ == json.fields@,
                forall|k: int| 0 <= k < fr
                    ==> (#[trigger] fields@[k])@.len() <= MAX_COLUMNS
                        && (forall|j: int| 0 <= j < fields@[k]@.len()
                            ==> (#[trigger] fields@[k]@[j])@.len() <= MAX_TEXT_LEN),
                forall|k: int| 0 <= k < fr
                    ==> (#[trigger] json_fields@[k])@.len() <= MAX_COLUMNS
                        && (forall|j: int| 0 <= j < json_fields@[k]@.len()
                            ==> (#[trigger] json_fields@[k]@[j])@.len() <= MAX_TEXT_LEN),
            decreases json_fields@.len() - fr,
        {
            let row = &json_fields[fr];
            if row.len() > MAX_COLUMNS {
                return Err(Error::ValueOutOfRange);
            }
            let mut cells: Vec<Vec<char>> = Vec::new();
            let mut fc: usize = 0;
            while fc < row.len()
                invariant
                    0 <= fc <= row@.len(),
                    cells@.len() == fc,
                    row@ == json_fields@[fr as int]@,
                    0 <= fr < json_fields@.len(),
                    row@.len() <= MAX_COLUMNS,
                    forall|j: int| 0 <= j < fc
                        ==> (#[trigger] cells@[j])@.len() <= MAX_TEXT_LEN,
                    forall|j: int| 0 <= j < fc
                        ==> (#[trigger] row@[j])@.len() <= MAX_TEXT_LEN,
                decreases row@.len() - fc,
            {
                let cell = chars_of(row[fc].as_str());
                if cell.len() > MAX_TEXT_LEN {
                    return Err(Error::ValueOutOfRange);
                }
                cells.push(cell);
                fc = fc + 1;
            }
            fields.push(cells);
            fr = fr + 1;
        }

        let content = chars_of(json.content.as_str());
        if content.len() > MAX_TEXT_LEN {
            return Err(Error::ValueOutOfRange);
        }
        let base = BaseSchema::new(
            json.name, json.position.x, json.position.y, json.width, json.height);
        Ok(Table {
            base,
            content,
            show_head: json.show_head,
            head_width_percentages: heads,
            body_styles,
            table_styles,
            columns,
            fields,
        })
    }

    /// The region's geometry.
    pub fn get_base(self) -> (r: BaseSchema)
        ensures
            r == self.base,
    {
        self.base
    }
}

/// A column width is between zero and the table width.
proof fn lemma_cell_width_bounds(box_width: int, percent: int)
    by (nonlinear_arith)
    requires
        0 <= box_width <= MAX_OBJECT_BOX as int,
        0 <= percent <= PERCENT_TOTAL as int,
    ensures
        0 <= box_width * percent <= MAX_OBJECT_BOX as int * PERCENT_TOTAL as int,
        0 <= box_width * percent / (PERCENT_TOTAL as int) <= box_width,
{
}

/// Taking one more head extends the share sum by its share.
proof fn lemma_percent_sum_step(heads: Seq<JsonHead>, i: int)
    requires
        0 <= i < heads.len(),
    ensures
        spec_percent_sum(heads.take(i + 1))
            == spec_percent_sum(heads.take(i)) + heads[i].percent,
    decreases i,
{
    if i == 0 {
        assert(heads.take(1).drop_first() =~= Seq::<JsonHead>::empty());
        assert(heads.take(1)[0] == heads[0]);
        assert(heads.take(0) =~= Seq::<JsonHead>::empty());
    } else {
        assert(heads.take(i + 1).drop_first() =~= heads.drop_first().take(i));
        assert(heads.take(i).drop_first() =~= heads.drop_first().take(i - 1));
        assert(heads.take(i + 1)[0] == heads[0]);
        assert(heads.take(i)[0] == heads[0]);
        assert(heads.drop_first()[i - 1] == heads[i]);
        lemma_percent_sum_step(heads.drop_first(), i - 1);
    }
}


impl CellSchema {
    /// Moves the cell vertically, keeping its other box edges.
    pub fn set_y(&mut self, y: i64)
        ensures
            final(self).get_box_spec().y == y,
            final(self).get_box_spec().x == old(self).get_box_spec().x,
            final(self).get_box_spec().width == old(self).get_box_spec().width,
            final(self).get_box_spec().height == old(self).get_box_spec().height,
            final(self).spec_content() == old(self).spec_content(),
            old(self).wf() && coord_in_range(y) ==> final(self).wf(),
            (*final(self)) is Text <==> (*old(self)) is Text,
    {
        match self {
            CellSchema::Text(text) => text.set_y(y),
            CellSchema::QrCode(qr) => qr.set_y(y),
        }
    }

    /// Resizes the cell vertically, keeping its other box edges.
    pub fn set_height(&mut self, height: i64)
        ensures
            final(self).get_box_spec().height == height,
            final(self).get_box_spec().x == old(self).get_box_spec().x,
            final(self).get_box_spec().y == old(self).get_box_spec().y,
            final(self).get_box_spec().width == old(self).get_box_spec().width,
            final(self).spec_content() == old(self).spec_content(),
            old(self).wf() && 0 <= height <= 1_000_000_000_000_000 ==> final(self).wf(),
            (*final(self)) is Text <==> (*old(self)) is Text,
    {
        match self {
            CellSchema::Text(text) => text.set_height(height),
            CellSchema::QrCode(qr) => qr.set_height(height),
        }
    }

    /// A copy of the cell that reads the same.
    pub fn duplicate(&self) -> (r: CellSchema)
        ensures
            self.wf() ==> r.wf(),
            r is Text <==> (*self) is Text,
            r.get_box_spec() == self.get_box_spec(),
    {
        match self {
            CellSchema::Text(text) => CellSchema::Text(text.duplicate()),
            CellSchema::QrCode(qr) => CellSchema::QrCode(qr.duplicate()),
        }
    }

    /// The text a cell draws: a text cell's content, a symbol cell's
    /// payload.
    pub open spec fn spec_content(self) -> Seq<char> {
        match self {
            CellSchema::Text(text) => text.content@,
            CellSchema::QrCode(qr) => qr.content@,
        }
    }

    /// The cell's box, as a spec value.
    pub open spec fn get_box_spec(self) -> BoundingBox {
        match self {
            CellSchema::Text(text) => (BoundingBox {
                x: text.base.x,
                y: text.base.y,
                width: text.base.width,
                height: text.base.height,
            }),
            CellSchema::QrCode(qr) => (match qr.bounding_box {
                Some(bb) => bb,
                None => (BoundingBox {
                    x: qr.base.x,
                    y: qr.base.y,
                    width: qr.base.width,
                    height: qr.base.height,
                }),
            }),
        }
    }

    /// Draws the cell's content onto the page; the buffer only grows.
    pub fn render(
        &self,
        font_map: &FontMap,
        parent_height: i64,
        page: usize,
        buffer: &mut OpBuffer,
    ) -> (r: Result<(), Error>)
        requires
            self.wf(),
            font_map.wf(),
            coord_in_range(parent_height),
            page < usize::MAX,
        ensures
            r is Err ==> r->Err_0 == Error::FontNotFound,
            r is Ok ==> crate::ops::pages_extend(old(buffer).buffer@, final(buffer).buffer@),
    {
        let ghost before = buffer.buffer@;
        let outcome = match self {
            CellSchema::Text(text) => text.render(font_map, parent_height, page, buffer),
            CellSchema::QrCode(qr) => qr.render(parent_height, page, buffer),
        };
        proof {
            if outcome is Ok {
                crate::ops::lemma_render_extends(before, buffer.buffer@, page as int);
            }
        }
        outcome
    }
}

impl Table {
    /// Builds the header row at a vertical position: one label cell
    /// per head column, advanced by the column widths, each as tall as
    /// the tallest label.
    pub fn create_header_row(
        &self,
        font_map: &FontMap,
        y_line: i64,
        cell_widths: &Vec<i64>,
    ) -> (r: Result<(Vec<CellSchema>, i64), Error>)
        requires
            self.wf(),
            font_map.wf(),
            -100_000_000_000_000 <= self.base.x <= 100_000_000_000_000,
            -500_000_000_000_000 <= y_line <= 500_000_000_000_000,
            cell_widths@.len() == self.head_width_percentages@.len(),
            forall|k: int| 0 <= k < cell_widths@.len()
                ==> 0 <= #[trigger] cell_widths@[k] <= MAX_OBJECT_BOX,
        ensures
            r is Err ==> r->Err_0 == Error::FontNotFound,
            r is Ok ==> {
                let (cells, height) = r->Ok_0;
                &&& cells@.len() == self.head_width_percentages@.len()
                &&& 0 <= height <= 200_000_000_000_000
                &&& forall|k: int| 0 <= k < cells@.len() ==> (#[trigger] cells@[k]).wf()
                &&& forall|k: int| 0 <= k < cells@.len()
                    ==> (#[trigger] cells@[k]).get_box_spec().x
                            == self.base.x + spec_width_prefix(cell_widths@, k)
                        && cells@[k].get_box_spec().y == y_line
                        && cells@[k].get_box_spec().width == cell_widths@[k]
                        && cells@[k].get_box_spec().height == height
                &&& forall|k: int| 0 <= k < cells@.len()
                    ==> (#[trigger] cells@[k]) is Text
                        && cells@[k].spec_content()
                            == self.head_width_percentages@[k].text.content@
            },
    {
        let mut cols: Vec<CellSchema> = Vec::new();
        let mut x = self.base.x;
        let mut max_height: i64 = 0;
        let mut head_index: usize = 0;
        while head_index < self.head_width_percentages.len()
            invariant
                0 <= head_index <= self.head_width_percentages@.len(),
                cols@.len() == head_index,
                self.wf(),
                font_map.wf(),
                cell_widths@.len() == self.head_width_percentages@.len(),
                forall|k: int| 0 <= k < cell_widths@.len()
                    ==> 0 <= #[trigger] cell_widths@[k] <= MAX_OBJECT_BOX,
                -500_000_000_000_000 <= y_line <= 500_000_000_000_000,
                -100_000_000_000_000 <= self.base.x <= 100_000_000_000_000,
                self.base.x <= x <= self.base.x + head_index * 1_000_000_000,
                x == self.base.x + spec_width_prefix(cell_widths@, head_index as int),
                0 <= max_height <= 200_000_000_000_000,
                forall|k: int| 0 <= k < head_index ==> (#[trigger] cols@[k]).wf(),
                forall|k: int| 0 <= k < head_index
                    ==> (#[trigger] cols@[k]).get_box_spec().x
                            == self.base.x + spec_width_prefix(cell_widths@, k)
                        && cols@[k].get_box_spec().y == y_line
                        && cols@[k].get_box_spec().width == cell_widths@[k],
                forall|k: int| 0 <= k < head_index
                    ==> (#[trigger] cols@[k]) is Text
                        && cols@[k].spec_content()
                            == self.head_width_percentages@[k].text.content@,
            decreases self.head_width_percentages@.len() - head_index,
        {
            let mut text = self.head_width_percentages[head_index].text.duplicate();
            proof {
                assert(text.wf());
            }
            let first_height = match text.get_height(font_map) {
                Ok(h) => h,
                Err(e) => {
                    return Err(e);
                }
            };
            if first_height > max_height {
                max_height = first_height;
            }
            proof {
                assert(head_index * 1_000_000_000 <= 1000 * 1_000_000_000);
                assert(coord_in_range(x));
            }
            text.set_x(x);
            text.set_y(y_line);
            text.set_width(cell_widths[head_index]);
            proof {
                assert(text.wf());
            }
            let resized_height = match text.get_height(font_map) {
                Ok(h) => h,
                Err(e) => {
                    return Err(e);
                }
            };
            if resized_height > max_height {
                max_height = resized_height;
            }
            x = x + cell_widths[head_index];
            cols.push(CellSchema::Text(text));
            head_index = head_index + 1;
        }
        // Stretch every label cell to the tallest one.
        let mut k: usize = 0;
        while k < cols.len()
            invariant
                0 <= k <= cols@.len(),
                cols@.len() == self.head_width_percentages@.len(),
                cell_widths@.len() == self.head_width_percentages@.len(),
                0 <= max_height <= 200_000_000_000_000,
                forall|j: int| 0 <= j < cols@.len() ==> (#[trigger] cols@[j]).wf(),
                forall|j: int| 0 <= j < cols@.len()
                    ==> (#[trigger] cols@[j]).get_box_spec().x
                            == self.base.x + spec_width_prefix(cell_widths@, j)
                        && cols@[j].get_box_spec().y == y_line
                        && cols@[j].get_box_spec().width == cell_widths@[j],
                forall|j: int| 0 <= j < cols@.len()
                    ==> (#[trigger] cols@[j]) is Text
                        && cols@[j].spec_content()
                            == self.head_width_percentages@[j].text.content@,
                forall|j: int| 0 <= j < k
                    ==> (#[trigger] cols@[j]).get_box_spec().height == max_height,
            decreases cols@.len() - k,
        {
            let ghost pre = cols@;
            let mut cell = cols.remove(k);
            cell.set_height(max_height);
            cols.insert(k, cell);
            proof {
                pre.remove_ensures(k as int);
                assert forall|j: int| 0 <= j < cols@.len()
                    implies (#[trigger] cols@[j]).wf() by {
                    if j != k {
                        assert(cols@[j] == pre[j]);
                    }
                }
                assert forall|j: int| 0 <= j < cols@.len() implies
                    ((#[trigger] cols@[j]).get_box_spec().x
                            == self.base.x + spec_width_prefix(cell_widths@, j)
                        && cols@[j].get_box_spec().y == y_line
                        && cols@[j].get_box_spec().width == cell_widths@[j]
                        && cols@[j] is Text
                        && cols@[j].spec_content()
                            == self.head_width_percentages@[j].text.content@) by {
                    if j != k {
                        assert(cols@[j] == pre[j]);
                    }
                }
                assert forall|j: int| 0 <= j < k + 1 implies
                    (#[trigger] cols@[j]).get_box_spec().height == max_height by {
                    if j != k {
                        assert(cols@[j] == pre[j]);
                    }
                }
            }
            k = k + 1;
        }
        Ok((cols, max_height))
    }

    /// Instantiates one data row at a vertical position: each column's
    /// cell template takes the row's value, cells advance by the column
    /// widths, and the row is as tall as its tallest cell.  Fails with
    /// a column-count mismatch when the row has more values than cell
    /// templates or columns.
    pub fn process_row(
        &self,
        font_map: &FontMap,
        row: &Vec<Vec<char>>,
        y_line: i64,
        cell_widths: &Vec<i64>,
    ) -> (r: Result<(Vec<CellSchema>, i64), Error>)
        requires
            self.wf(),
            font_map.wf(),
            -100_000_000_000_000 <= self.base.x <= 100_000_000_000_000,
            -500_000_000_000_000 <= y_line <= 500_000_000_000_000,
            row@.len() <= MAX_COLUMNS,
            forall|j: int| 0 <= j < row@.len()
                ==> (#[trigger] row@[j])@.len() <= MAX_TEXT_LEN,
            forall|k: int| 0 <= k < cell_widths@.len()
                ==> 0 <= #[trigger] cell_widths@[k] <= MAX_OBJECT_BOX,
        ensures
            r is Ok ==> {
                let (cells, height) = r->Ok_0;
                &&& cells@.len() == row@.len()
                &&& 0 <= height <= 200_000_000_000_000
                &&& forall|k: int| 0 <= k < cells@.len() ==> (#[trigger] cells@[k]).wf()
                &&& forall|k: int| 0 <= k < cells@.len()
                    ==> (#[trigger] cells@[k]).get_box_spec().x
                            == self.base.x + spec_width_prefix(cell_widths@, k)
                        && cells@[k].get_box_spec().y == y_line
                        && cells@[k].get_box_spec().width == cell_widths@[k]
                &&& forall|k: int| 0 <= k < cells@.len()
                    ==> ((#[trigger] cells@[k]) is Text <==> self.columns@[k] is Text)
                        && (cells@[k] is Text ==> cells@[k].spec_content() == row@[k]@)
                &&& exists|cell_heights: Seq<int>| cell_heights.len() == cells@.len()
                    && height == #[trigger] spec_max_height(cell_heights)
                    && (forall|k: int| 0 <= k < cell_heights.len()
                        ==> (match #[trigger] self.columns@[k] {
                            CellSchema::QrCode(q) => cell_heights[k] >= q.base.height,
                            CellSchema::Text(_) => true,
                        }))
            },
            (row@.len() > self.columns@.len() || row@.len() > cell_widths@.len())
                ==> r == Result::<(Vec<CellSchema>, i64), Error>::Err(
                    Error::ColumnCountMismatch),
            r is Err ==> r->Err_0 == Error::ColumnCountMismatch
                || r->Err_0 == Error::FontNotFound
                || r->Err_0 == Error::ValueOutOfRange,
    {
        if row.len() > self.columns.len() || row.len() > cell_widths.len() {
            return Err(Error::ColumnCountMismatch);
        }
        let mut cols: Vec<CellSchema> = Vec::new();
        let mut x = self.base.x;
        let mut max_height: i64 = 0;
        let mut col_index: usize = 0;
        let ghost mut heights: Seq<int> = Seq::empty();
        proof {
            assert(spec_max_height(heights) == 0);
        }
        while col_index < row.len()
            invariant
                0 <= col_index <= row@.len(),
                row@.len() <= self.columns@.len(),
                row@.len() <= cell_widths@.len(),
                cols@.len() == col_index,
                self.wf(),
                font_map.wf(),
                row@.len() <= MAX_COLUMNS,
                forall|j: int| 0 <= j < row@.len()
                    ==> (#[trigger] row@[j])@.len() <= MAX_TEXT_LEN,
                forall|k: int| 0 <= k < cell_widths@.len()
                    ==> 0 <= #[trigger] cell_widths@[k] <= MAX_OBJECT_BOX,
                -500_000_000_000_000 <= y_line <= 500_000_000_000_000,
                -100_000_000_000_000 <= self.base.x <= 100_000_000_000_000,
                self.base.x <= x <= self.base.x + col_index * 1_000_000_000,
                x == self.base.x + spec_width_prefix(cell_widths@, col_index as int),
                0 <= max_height <= 200_000_000_000_000,
                heights.len() == col_index,
                max_height == spec_max_height(heights),
                forall|k: int| 0 <= k < col_index
                    ==> (match #[trigger] self.columns@[k] {
                        CellSchema::QrCode(q) => heights[k] >= q.base.height,
                        CellSchema::Text(_) => true,
                    }),
                forall|k: int| 0 <= k < col_index ==> (#[trigger] cols@[k]).wf(),
                forall|k: int| 0 <= k < col_index
                    ==> (#[trigger] cols@[k]).get_box_spec().x
                            == self.base.x + spec_width_prefix(cell_widths@, k)
                        && cols@[k].get_box_spec().y == y_line
                        && cols@[k].get_box_spec().width == cell_widths@[k],
                forall|k: int| 0 <= k < col_index
                    ==> ((#[trigger] cols@[k]) is Text <==> self.columns@[k] is Text)
                        && (cols@[k] is Text ==> cols@[k].spec_content() == row@[k]@),
            decreases row@.len() - col_index,
        {
            let cell_width = cell_widths[col_index];
            let ghost heights_before = heights;
            match &self.columns[col_index] {
                CellSchema::Text(template) => {
                    let mut text = template.duplicate();
                    proof {
                        assert(text.wf());
                        assert(col_index * 1_000_000_000 <= 1000 * 1_000_000_000);
                        assert(coord_in_range(x));
                    }
                    text.set_x(x);
                    text.set_y(y_line);
                    text.set_width(cell_width);
                    let replacement = crate::text::clone_chars(&row[col_index]);
                    text.set_content(replacement);
                    proof {
                        assert(text.wf());
                    }
                    let height = match text.get_height(font_map) {
                        Ok(h) => h,
                        Err(e) => {
                            return Err(e);
                        }
                    };
                    proof {
                        heights = heights.push(height as int);
                        assert(heights.drop_last() =~= heights_before);
                    }
                    if height > max_height {
                        max_height = height;
                    }
                    x = x + cell_width;
                    cols.push(CellSchema::Text(text));
                }
                CellSchema::QrCode(template) => {
                    let mut qr = template.duplicate();
                    proof {
                        assert(self.columns@[col_index as int].template_ok());
                        assert(qr.wf());
                        assert(0 <= qr.base.height <= MAX_OBJECT_BOX);
                    }
                    let qr_height = qr.get_height();
                    proof {
                        heights = heights.push(qr_height as int);
                        assert(heights.drop_last() =~= heights_before);
                    }
                    if qr_height > max_height {
                        max_height = qr_height;
                    }
                    qr.set_bounding_box(BoundingBox {
                        x,
                        y: y_line,
                        width: cell_width,
                        height: max_height,
                    });
                    x = x + cell_width;
                    cols.push(CellSchema::QrCode(qr));
                }
            }
            col_index = col_index + 1;
        }
        proof {
            assert(heights.len() == cols@.len()
                && max_height == spec_max_height(heights)
                && (forall|k: int| 0 <= k < heights.len()
                    ==> (match #[trigger] self.columns@[k] {
                        CellSchema::QrCode(q) => heights[k] >= q.base.height,
                        CellSchema::Text(_) => true,
                    })));
        }
        Ok((cols, max_height))
    }

    /// Lays the table's rows out across pages: the header first when
    /// shown, then each data row, opening a new page and repeating the
    /// header whenever a row would cross the bottom margin.
    ///
    /// The law of row-alternation continuity: in the returned list, a
    /// row takes the alternate background exactly when its position in
    /// the accumulated output — repeated headers included — is odd, so
    /// a page break never resets the alternation.  A table with no
    /// data rows yields no rows at all.
    #[verifier::rlimit(100)]
    #[verifier::loop_isolation(true)]
    pub fn layout_rows(
        &self,
        font_map: &FontMap,
        base_pdf: &BasePdf,
        current_top: Option<i64>,
    ) -> (r: Result<Vec<PlacedRow>, Error>)
        requires
            self.wf(),
            font_map.wf(),
            base_pdf.wf(),
            -100_000_000_000_000 <= self.base.x <= 100_000_000_000_000,
            -100_000_000_000_000 <= self.base.y <= 100_000_000_000_000,
            match current_top {
                Some(y) => -100_000_000_000_000 <= y <= 100_000_000_000_000,
                None => true,
            },
        ensures
            r is Err ==> r->Err_0 == Error::FontNotFound
                || r->Err_0 == Error::ColumnCountMismatch
                || r->Err_0 == Error::ValueOutOfRange,
            (self.fields@.len() == 0 && !self.show_head) ==> r is Ok,
            r is Ok ==> {
                let rows = r->Ok_0;
                let start_y = (match current_top {
                    Some(y) => y as int,
                    None => self.base.y as int,
                });
                &&& (self.fields@.len() == 0 ==> rows@.len() == 0)
                &&& (self.fields@.len() > 0 ==> rows@.len() > 0)
                &&& spec_placement_laws(*self, *base_pdf, start_y, rows@)
                &&& spec_data_row_count(rows@) == self.fields@.len()
                &&& forall|i: int| 0 <= i < rows@.len() - 1
                    ==> (#[trigger] rows@[i]).page_offset <= rows@[i + 1].page_offset
                &&& forall|i: int| 0 <= i < rows@.len()
                    ==> (forall|k: int| 0 <= k < (#[trigger] rows@[i]).cells@.len()
                        ==> (#[trigger] rows@[i].cells@[k]).wf()
                            && rows@[i].cells@[k].get_box_spec().y == rows@[i].y
                            && rows@[i].cells@[k].get_box_spec().height == rows@[i].height)
                &&& forall|i: int| 0 <= i < rows@.len()
                    ==> 0 <= (#[trigger] rows@[i]).height <= 200_000_000_000_000
                        && -600_000_000_000_000 <= rows@[i].y <= 600_000_000_000_000
                        && rows@[i].page_offset <= self.fields@.len() + 1
            },
    {
        let top_margin = base_pdf.padding.top;
        let bottom_y = base_pdf.height - base_pdf.padding.bottom;
        let y_top = match current_top {
            Some(y) => y,
            None => self.base.y,
        };
        let cell_widths = self.cell_widths();
        proof {
            assert forall|k: int| 0 <= k < cell_widths@.len()
                implies 0 <= #[trigger] cell_widths@[k] <= MAX_OBJECT_BOX by {
            }
        }

        let (header_row, header_height) = if self.show_head {
            match self.create_header_row(font_map, top_margin, &cell_widths) {
                Ok((cells, height)) => (Some(cells), height),
                Err(e) => {
                    return Err(e);
                }
            }
        } else {
            (None, 0)
        };

        let mut rows: Vec<PlacedRow> = Vec::new();
        if self.fields.len() == 0 {
            proof {
                assert(spec_placement_laws(*self, *base_pdf, y_top as int, rows@));
            }
            return Ok(rows);
        }

        let ghost start_y = y_top as int;
        let mut y_line = y_top;
        let mut page_offset: usize = 0;
        let mut row_index: usize = 0;
        while row_index < self.fields.len()
            invariant
                0 <= row_index <= self.fields@.len(),
                self.fields@.len() <= MAX_ROWS,
                self.wf(),
                font_map.wf(),
                base_pdf.wf(),
                -100_000_000_000_000 <= self.base.x <= 100_000_000_000_000,
                cell_widths@.len() == self.head_width_percentages@.len(),
                forall|k: int| 0 <= k < cell_widths@.len()
                    ==> 0 <= #[trigger] cell_widths@[k] <= MAX_OBJECT_BOX,
                0 <= top_margin <= 0x4000_0000_0000,
                top_margin == base_pdf.padding.top,
                -0x8000_0000_0000 <= bottom_y <= 0x8000_0000_0000,
                bottom_y == base_pdf.height - base_pdf.padding.bottom,
                0 <= header_height <= 200_000_000_000_000,
                !self.show_head ==> header_height == 0,
                (header_row is Some) <==> self.show_head,
                header_row is Some ==> {
                    let cells = header_row->Some_0;
                    &&& cells@.len() == self.head_width_percentages@.len()
                    &&& forall|k: int| 0 <= k < cells@.len() ==> (#[trigger] cells@[k]).wf()
                        && cells@[k].get_box_spec().height == header_height
                },
                -500_000_000_000_000 <= y_line <= 500_000_000_000_000,
                0 <= page_offset <= row_index + 1,
                start_y == y_top as int,
                -100_000_000_000_000 <= y_top <= 100_000_000_000_000,
                spec_placement_laws(*self, *base_pdf, start_y, rows@),
                spec_data_row_count(rows@) == row_index,
                (row_index == 0) <==> (rows@.len() == 0),
                rows@.len() == 0 ==> y_line == y_top && page_offset == 0,
                rows@.len() > 0 ==> !rows@.last().header
                    && rows@.last().page_offset == page_offset
                    && y_line == rows@.last().y + rows@.last().height,
                forall|i: int| 0 <= i < rows@.len() - 1
                    ==> (#[trigger] rows@[i]).page_offset <= rows@[i + 1].page_offset,
                forall|i: int| 0 <= i < rows@.len()
                    ==> (forall|k: int| 0 <= k < (#[trigger] rows@[i]).cells@.len()
                        ==> (#[trigger] rows@[i].cells@[k]).wf()
                            && rows@[i].cells@[k].get_box_spec().y == rows@[i].y
                            && rows@[i].cells@[k].get_box_spec().height == rows@[i].height),
                forall|i: int| 0 <= i < rows@.len()
                    ==> 0 <= (#[trigger] rows@[i]).height <= 200_000_000_000_000
                        && -600_000_000_000_000 <= rows@[i].y <= 600_000_000_000_000
                        && rows@[i].page_offset <= self.fields@.len() + 1,
            decreases self.fields@.len() - row_index,
        {
            let ghost rows_entry = rows@;
            let ghost y_line_entry = y_line;
            let ghost page_entry = page_offset;
            let field_row = &self.fields[row_index];
            let (mut cells, row_height) = match self.process_row(
                font_map, field_row, y_line, &cell_widths) {
                Ok(pair) => pair,
                Err(e) => {
                    return Err(e);
                }
            };
            let header_needed = if row_index == 0 {
                y_line + header_height + row_height > bottom_y
            } else {
                y_line + row_height > bottom_y
            };
            if header_needed {
                // The row would cross the bottom margin: open the next
                // page at the top margin.
                page_offset = page_offset + 1;
                y_line = top_margin;
            }
            let ghost mut pushed_header = false;
            if (row_index == 0 || header_needed) && self.show_head {
                // Emit (or re-emit) the header row at the top of this
                // page section.
                match &header_row {
                    Some(cells_template) => {
                        let mut header_cells: Vec<CellSchema> = Vec::new();
                        let mut hk: usize = 0;
                        while hk < cells_template.len()
                            invariant
                                0 <= hk <= cells_template@.len(),
                                header_cells@.len() == hk,
                                forall|k: int| 0 <= k < cells_template@.len()
                                    ==> (#[trigger] cells_template@[k]).wf()
                                        && cells_template@[k].get_box_spec().height
                                            == header_height,
                                forall|k: int| 0 <= k < hk
                                    ==> (#[trigger] header_cells@[k]).wf()
                                        && header_cells@[k].get_box_spec().y == y_line
                                        && header_cells@[k].get_box_spec().height
                                            == header_height,
                                -500_000_000_000_000 <= y_line <= 500_000_000_000_000,
                            decreases cells_template@.len() - hk,
                        {
                            let mut cell = cells_template[hk].duplicate();
                            proof {
                                assert(cell.wf());
                            }
                            cell.set_y(y_line);
                            header_cells.push(cell);
                            hk = hk + 1;
                        }
                        let ghost pre = rows@;
                        rows.push(PlacedRow {
                            cells: header_cells,
                            page_offset,
                            y: y_line,
                            height: header_height,
                            header: true,
                            alternate: rows.len() % 2 == 1,
                        });
                        proof {
                            pushed_header = true;
                            assert forall|i: int| 0 <= i < rows@.len()
                                implies (#[trigger] rows@[i]).alternate == (i % 2 == 1) by {
                                if i < pre.len() {
                                    assert(rows@[i] == pre[i]);
                                }
                            }
                        }
                    }
                    None => {}
                }
                y_line = y_line + header_height;
            }
            if row_index == 0 || header_needed {
                // The row's cells were measured at the old cursor:
                // move them to their final position.
                let mut rk: usize = 0;
                while rk < cells.len()
                    invariant
                        0 <= rk <= cells@.len(),
                        forall|k: int| 0 <= k < cells@.len()
                            ==> (#[trigger] cells@[k]).wf(),
                        forall|k: int| 0 <= k < rk
                            ==> (#[trigger] cells@[k]).get_box_spec().y == y_line,
                        -500_000_000_000_000 <= y_line <= 500_000_000_000_000,
                    decreases cells@.len() - rk,
                {
                    let ghost pre = cells@;
                    let mut cell = cells.remove(rk);
                    cell.set_y(y_line);
                    cells.insert(rk, cell);
                    proof {
                        pre.remove_ensures(rk as int);
                        assert forall|k: int| 0 <= k < cells@.len()
                            implies (#[trigger] cells@[k]).wf() by {
                            if k != rk {
                                assert(cells@[k] == pre[k]);
                            }
                        }
                        assert forall|k: int| 0 <= k < rk + 1 implies
                            (#[trigger] cells@[k]).get_box_spec().y == y_line by {
                            if k != rk {
                                assert(cells@[k] == pre[k]);
                            }
                        }
                    }
                    rk = rk + 1;
                }
            }
            proof {
                assert forall|k: int| 0 <= k < cells@.len() implies
                    (#[trigger] cells@[k]).get_box_spec().y == y_line by {
                }
            }
            // Stretch the row's cells to the row height.
            let mut sk: usize = 0;
            while sk < cells.len()
                invariant
                    0 <= sk <= cells@.len(),
                    forall|k: int| 0 <= k < cells@.len()
                        ==> (#[trigger] cells@[k]).wf()
                            && cells@[k].get_box_spec().y == y_line,
                    forall|k: int| 0 <= k < sk
                        ==> (#[trigger] cells@[k]).get_box_spec().height == row_height,
                    0 <= row_height <= 200_000_000_000_000,
                decreases cells@.len() - sk,
            {
                let ghost pre = cells@;
                let mut cell = cells.remove(sk);
                cell.set_height(row_height);
                cells.insert(sk, cell);
                proof {
                    pre.remove_ensures(sk as int);
                    assert forall|k: int| 0 <= k < cells@.len()
                        implies (#[trigger] cells@[k]).wf()
                            && cells@[k].get_box_spec().y == y_line by {
                        if k != sk {
                            assert(cells@[k] == pre[k]);
                        }
                    }
                    assert forall|k: int| 0 <= k < sk + 1 implies
                        (#[trigger] cells@[k]).get_box_spec().height == row_height by {
                        if k != sk {
                            assert(cells@[k] == pre[k]);
                        }
                    }
                }
                sk = sk + 1;
            }
            let ghost pre = rows@;
            rows.push(PlacedRow {
                cells,
                page_offset,
                y: y_line,
                height: row_height,
                header: false,
                alternate: rows.len() % 2 == 1,
            });
            proof {
                let gdata = rows@.last();
                let gheader = if pushed_header { pre.last() } else { gdata };
                assert(rows@ == if pushed_header {
                    rows_entry.push(gheader).push(gdata)
                } else {
                    rows_entry.push(gdata)
                }) by {
                    if pushed_header {
                        assert(rows@ =~= rows_entry.push(gheader).push(gdata));
                    } else {
                        assert(rows@ =~= rows_entry.push(gdata));
                    }
                }
                lemma_placement_push(*self, *base_pdf, start_y, rows_entry, rows@,
                    gheader, gdata, pushed_header, header_needed, y_line_entry as int,
                    page_entry as int, header_height as int);
            }
            y_line = y_line + row_height;
            row_index = row_index + 1;
        }
        Ok(rows)
    }

    /// Renders the table: lays the rows out, then draws each placed
    /// row's background rectangle — the base background on even output
    /// positions, the alternate background (when configured) on odd
    /// ones — and each cell's content on its page.  Returns the page
    /// the table ended on and the cursor below its last row.  A table
    /// with no data rows appends nothing and reports no cursor
    /// advance.
    #[verifier::rlimit(100)]
    #[verifier::loop_isolation(true)]
    pub fn render(
        &self,
        font_map: &FontMap,
        base_pdf: &BasePdf,
        current_page: usize,
        current_top: Option<i64>,
        buffer: &mut OpBuffer,
    ) -> (r: Result<(usize, Option<i64>), Error>)
        requires
            self.wf(),
            font_map.wf(),
            base_pdf.wf(),
            current_page <= 1_000_000_000,
            -100_000_000_000_000 <= self.base.x <= 100_000_000_000_000,
            -100_000_000_000_000 <= self.base.y <= 100_000_000_000_000,
            match current_top {
                Some(y) => -100_000_000_000_000 <= y <= 100_000_000_000_000,
                None => true,
            },
        ensures
            (r is Ok && self.fields@.len() == 0) ==>
                r->Ok_0 == (current_page, Option::<i64>::None)
                && *final(buffer) == *old(buffer),
            (self.fields@.len() == 0 && !self.show_head) ==> r is Ok,
            r is Err ==> r->Err_0 == Error::FontNotFound
                || r->Err_0 == Error::ColumnCountMismatch
                || r->Err_0 == Error::ValueOutOfRange,
            r is Ok ==> r->Ok_0.0 >= current_page,
            r is Ok ==> crate::ops::pages_extend(old(buffer).buffer@, final(buffer).buffer@),
            (r is Ok && self.fields@.len() > 0) ==> spec_render_result(
                *self, *base_pdf,
                (match current_top {
                    Some(y) => y as int,
                    None => self.base.y as int,
                }),
                current_page as int, final(buffer).buffer@, r->Ok_0),
    {
        proof {
            crate::ops::lemma_pages_extend_refl(old(buffer).buffer@);
        }
        let rows = match self.layout_rows(font_map, base_pdf, current_top) {
            Ok(rows) => rows,
            Err(e) => {
                return Err(e);
            }
        };
        if self.fields.len() == 0 {
            return Ok((current_page, None));
        }

        let mut last_page_offset: usize = 0;
        let mut last_bottom: i64 = match current_top {
            Some(y) => y,
            None => self.base.y,
        };
        let mut r_index: usize = 0;
        while r_index < rows.len()
            invariant
                0 <= r_index <= rows@.len(),
                self.wf(),
                font_map.wf(),
                base_pdf.wf(),
                current_page <= 1_000_000_000,
                forall|i: int| 0 <= i < rows@.len()
                    ==> (forall|k: int| 0 <= k < (#[trigger] rows@[i]).cells@.len()
                        ==> (#[trigger] rows@[i].cells@[k]).wf()),
                forall|i: int| 0 <= i < rows@.len()
                    ==> 0 <= (#[trigger] rows@[i]).height <= 200_000_000_000_000
                        && -600_000_000_000_000 <= rows@[i].y <= 600_000_000_000_000
                        && rows@[i].page_offset <= self.fields@.len() + 1,
                self.fields@.len() <= MAX_ROWS,
                self.fields@.len() > 0,
                rows@.len() > 0,
                last_page_offset <= self.fields@.len() + 1,
                -900_000_000_000_000 <= last_bottom <= 900_000_000_000_000,
                r_index > 0 ==> last_page_offset == rows@[r_index - 1].page_offset
                    && last_bottom == rows@[r_index - 1].y + rows@[r_index - 1].height,
                crate::ops::pages_extend(old(buffer).buffer@, buffer.buffer@),
                forall|i: int| 0 <= i < r_index
                    && (#[trigger] rows@[i]).cells@.len() > 0
                    ==> spec_page_at(buffer.buffer@, current_page + rows@[i].page_offset)
                        .contains(DrawOp::SetFillColor {
                            color: spec_row_shade(self.body_styles, rows@[i].alternate),
                        }),
            decreases rows@.len() - r_index,
        {
            let row = &rows[r_index];
            let shade = if row.alternate {
                match self.body_styles.alternate_background_color {
                    Some(alt) => alt,
                    None => self.body_styles.background_color,
                }
            } else {
                self.body_styles.background_color
            };
            let target_page = current_page + row.page_offset;
            let ghost row_start = buffer.buffer@;
            let ghost shade_op = DrawOp::SetFillColor {
                color: spec_row_shade(self.body_styles, rows@[r_index as int].alternate),
            };
            proof {
                crate::ops::lemma_pages_extend_refl(row_start);
            }
            let mut cell_index: usize = 0;
            let row_cells = &row.cells;
            while cell_index < row_cells.len()
                invariant
                    0 <= cell_index <= row_cells@.len(),
                    self.wf(),
                    font_map.wf(),
                    base_pdf.wf(),
                    forall|k: int| 0 <= k < row_cells@.len()
                        ==> (#[trigger] row_cells@[k]).wf(),
                    0 <= row.height <= 200_000_000_000_000,
                    target_page <= 1_000_000_000 + MAX_ROWS + 1,
                    self.fields@.len() > 0,
                    0 <= r_index < rows@.len(),
                    row == rows@[r_index as int],
                    target_page == current_page + rows@[r_index as int].page_offset,
                    shade == spec_row_shade(self.body_styles, rows@[r_index as int].alternate),
                    crate::ops::pages_extend(old(buffer).buffer@, buffer.buffer@),
                    crate::ops::pages_extend(row_start, buffer.buffer@),
                    shade_op == (DrawOp::SetFillColor { color: shade }),
                    cell_index > 0 ==> spec_page_at(buffer.buffer@, target_page as int)
                        .contains(shade_op),
                    forall|i: int| 0 <= i < r_index
                        && (#[trigger] rows@[i]).cells@.len() > 0
                        ==> spec_page_at(buffer.buffer@,
                                current_page + rows@[i].page_offset)
                            .contains(DrawOp::SetFillColor {
                                color: spec_row_shade(self.body_styles, rows@[i].alternate),
                            }),
                decreases row_cells@.len() - cell_index,
            {
                let cell = &row_cells[cell_index];
                let cell_box = cell.get_box();
                proof {
                    match cell {
                        CellSchema::Text(text) => {
                            assert(text.wf());
                        }
                        CellSchema::QrCode(qr) => {
                            assert(qr.wf());
                        }
                    }
                }
                let rect_ops = draw_rectangle(DrawRectangle {
                    x: cell_box.x,
                    y: cell_box.y,
                    width: cell_box.width,
                    height: cell_box.height,
                    rotate: None,
                    page_height: base_pdf.height,
                    color: Some(shade),
                    border_width: Some(self.table_styles.border_width),
                    border_color: None,
                });
                let ghost before_rect = buffer.buffer@;
                let ghost rect_view = rect_ops@;
                buffer.insert(target_page, rect_ops);
                proof {
                    let old_page = crate::ops::spec_page_at(before_rect, target_page as int);
                    let new_page = crate::ops::spec_page_at(buffer.buffer@, target_page as int);
                    assert(new_page == old_page + rect_view);
                    assert(new_page.take(old_page.len() as int) =~= old_page);
                    crate::ops::lemma_render_extends(
                        before_rect, buffer.buffer@, target_page as int);
                    crate::ops::lemma_pages_extend_trans(
                        old(buffer).buffer@, before_rect, buffer.buffer@);
                    crate::ops::lemma_pages_extend_trans(
                        row_start, before_rect, buffer.buffer@);
                    // The rectangle's fill carries this row's shade.
                    assert(new_page[old_page.len() as int + 3] == rect_view[3]);
                    assert(new_page.contains(shade_op));
                    assert forall|i: int| 0 <= i < r_index
                        && (#[trigger] rows@[i]).cells@.len() > 0
                        implies spec_page_at(buffer.buffer@,
                                current_page + rows@[i].page_offset)
                            .contains(DrawOp::SetFillColor {
                                color: spec_row_shade(self.body_styles, rows@[i].alternate),
                            }) by {
                        crate::ops::lemma_contains_persists(before_rect, buffer.buffer@,
                            current_page + rows@[i].page_offset,
                            DrawOp::SetFillColor {
                                color: spec_row_shade(self.body_styles, rows@[i].alternate),
                            });
                    }
                }
                let ghost before_cell = buffer.buffer@;
                match cell.render(font_map, base_pdf.height, target_page, buffer) {
                    Ok(()) => {
                        proof {
                            crate::ops::lemma_pages_extend_trans(
                                old(buffer).buffer@, before_cell, buffer.buffer@);
                            crate::ops::lemma_pages_extend_trans(
                                row_start, before_cell, buffer.buffer@);
                            crate::ops::lemma_contains_persists(before_cell, buffer.buffer@,
                                target_page as int, shade_op);
                            assert forall|i: int| 0 <= i < r_index
                                && (#[trigger] rows@[i]).cells@.len() > 0
                                implies spec_page_at(buffer.buffer@,
                                        current_page + rows@[i].page_offset)
                                    .contains(DrawOp::SetFillColor {
                                        color: spec_row_shade(self.body_styles,
                                            rows@[i].alternate),
                                    }) by {
                                crate::ops::lemma_contains_persists(before_cell,
                                    buffer.buffer@, current_page + rows@[i].page_offset,
                                    DrawOp::SetFillColor {
                                        color: spec_row_shade(self.body_styles,
                                            rows@[i].alternate),
                                    });
                            }
                        }
                    }
                    Err(e) => {
                        return Err(e);
                    }
                }
                cell_index = cell_index + 1;
            }
            proof {
                assert forall|i: int| 0 <= i < r_index + 1
                    && (#[trigger] rows@[i]).cells@.len() > 0
                    implies spec_page_at(buffer.buffer@,
                            current_page + rows@[i].page_offset)
                        .contains(DrawOp::SetFillColor {
                            color: spec_row_shade(self.body_styles, rows@[i].alternate),
                        }) by {
                }
            }
            last_page_offset = row.page_offset;
            last_bottom = row.y + row.height;
            r_index = r_index + 1;
        }
        let end_page = current_page + last_page_offset;
        proof {
            assert(rows@.len() > 0);
            assert(last_page_offset == rows@.last().page_offset);
            assert(last_bottom == rows@.last().y + rows@.last().height);
            let start_y = (match current_top {
                Some(y) => y as int,
                None => self.base.y as int,
            });
            assert(spec_render_result(*self, *base_pdf, start_y, current_page as int,
                buffer.buffer@, (end_page, Some(last_bottom)))) by {
                assert(spec_placement_laws(*self, *base_pdf, start_y, rows@)
                    && spec_data_row_count(rows@) == self.fields@.len()
                    && rows@.len() > 0
                    && (end_page, Some(last_bottom)) == (
                        (current_page + rows@.last().page_offset) as usize,
                        Some((rows@.last().y + rows@.last().height) as i64),
                    )
                    && (forall|i: int| 0 <= i < rows@.len()
                        && (#[trigger] rows@[i]).cells@.len() > 0
                        ==> spec_page_at(buffer.buffer@,
                                current_page + rows@[i].page_offset)
                            .contains(DrawOp::SetFillColor {
                                color: spec_row_shade(self.body_styles, rows@[i].alternate),
                            })));
            }
        }
        Ok((end_page, Some(last_bottom)))
    }
}

} // verus!
