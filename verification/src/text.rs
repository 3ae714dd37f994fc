//! The plain text region: wraps its content into lines inside its box
//! and draws each line with alignment, padding, optional background,
//! border and rotation.

use vstd::prelude::*;
use crate::color::{Rgb, parse_color, parse_optional_color, css_color_of};
use crate::error::Error;
use crate::fit::{FontSize, JsonFontSize, MAX_LINE_HEIGHT, calculate_dynamic_font_size, paragraphs_view, spec_font_size_valid, spec_fitted_size, spec_line_count};
use crate::font::{FontMap, FontMetrics, MAX_TEXT_LEN, MAX_FONT_SIZE, MAX_SPACING, calculate_character_spacing};
use crate::geom::{Alignment, VerticalAlignment, BaseSchema, Frame, JsonPosition, coord_in_range, effective_box_size, calculate_vertical_offset, calculate_horizontal_offset};
use crate::ops::{DrawOp, OpBuffer, PaintMode, PolyPoint, spec_page_at};
use crate::wrap::{split_text_to_size, segment_content, chars_of, lemma_split_paragraph_count, flatten_chars, without_newlines, is_segmentation, spec_wrap_of, spec_wrapped_lines, lemma_wrapped_lines_count, lines_view};

verus! {

/// A text region as the template file carries it, before validation.
#[derive(Debug, Clone)]
pub struct JsonTextSchema {
    pub name: String,
    pub position: JsonPosition,
    pub width: i64,
    pub height: i64,
    pub content: String,
    pub font_name: String,
    pub alignment: Option<Alignment>,
    pub vertical_alignment: Option<VerticalAlignment>,
    pub character_spacing: Option<i64>,
    pub line_height: Option<i64>,
    pub font_size: JsonFontSize,
    pub font_color: Option<String>,
    pub background_color: Option<String>,
    pub padding: Option<Frame>,
    pub rotate: Option<i64>,
    pub scale_x: Option<i64>,
    pub scale_y: Option<i64>,
    pub border_color: Option<String>,
    pub border_width: Option<i64>,
}

/// A validated text region.
#[derive(Debug, Clone)]
pub struct Text {
    pub base: BaseSchema,
    pub content: Vec<char>,
    pub alignment: Alignment,
    pub vertical_alignment: VerticalAlignment,
    pub character_spacing: i64,
    pub line_height: Option<i64>,
    pub font_size: FontSize,
    pub font_name: String,
    pub font_color: Rgb,
    pub background_color: Option<Rgb>,
    pub padding: Option<Frame>,
    pub rotate: Option<i64>,
    pub scale_x: Option<i64>,
    pub scale_y: Option<i64>,
    pub border_color: Option<Rgb>,
    pub border_width: Option<i64>,
}

impl Text {
    /// A well-formed text region: its geometry, measurement inputs and
    /// styles are inside the ranges layout accepts.
    pub open spec fn wf(self) -> bool {
        self.base.wf()
        && self.content@.len() <= MAX_TEXT_LEN
        && 0 <= self.character_spacing <= MAX_SPACING
        && (match self.line_height {
            Some(lh) => 0 <= lh <= MAX_LINE_HEIGHT,
            None => true,
        })
        && (match self.font_size {
            FontSize::Fixed(size) => 0 <= size <= MAX_FONT_SIZE,
            FontSize::Dynamic(dynamic) => dynamic.wf(),
        })
        && (match self.padding {
            Some(frame) => frame.wf(),
            None => true,
        })
    }

    /// Builds a table-cell text region at a fixed size; fails exactly
    /// when the font name was never registered.
    pub fn new(
        x: i64,
        y: i64,
        width: i64,
        height: i64,
        font_name: String,
        font_size: i64,
        content: Vec<char>,
        alignment: Alignment,
        vertical_alignment: VerticalAlignment,
        font_map: &FontMap,
        padding: Option<Frame>,
    ) -> (r: Result<Text, Error>)
        requires
            coord_in_range(x),
            coord_in_range(y),
            0 <= width <= 0x4000_0000_0000,
            0 <= height <= 0x4000_0000_0000,
            0 <= font_size <= MAX_FONT_SIZE,
            content@.len() <= MAX_TEXT_LEN,
            match padding {
                Some(frame) => frame.wf(),
                None => true,
            },
        ensures
            r is Ok <==> font_map.spec_find(font_name@) is Some,
            r is Err ==> r->Err_0 == Error::FontNotFound,
            r is Ok ==> {
                let t = r->Ok_0;
                &&& t.wf()
                &&& t.base.x == x && t.base.y == y
                &&& t.base.width == width && t.base.height == height
                &&& t.content@ == content@
                &&& t.font_name@ == font_name@
                &&& t.font_size == FontSize::Fixed(font_size)
                &&& t.alignment == alignment
                &&& t.vertical_alignment == vertical_alignment
                &&& t.character_spacing == 0
                &&& t.padding == padding
                &&& t.font_color == (Rgb { r: 0, g: 0, b: 0 })
                &&& t.background_color is None
                &&& t.border_color is None && t.border_width is None
                &&& t.rotate is None && t.line_height is None
            },
    {
        if font_map.find(&font_name).is_none() {
            return Err(Error::FontNotFound);
        }
        let name: String = chars_to_string(&chars_of("cell"));
        let base = BaseSchema::new(name, x, y, width, height);
        Ok(Text {
            base,
            content,
            alignment,
            vertical_alignment,
            character_spacing: 0,
            line_height: None,
            font_size: FontSize::Fixed(font_size),
            font_name,
            font_color: Rgb::black(),
            background_color: None,
            padding,
            rotate: None,
            scale_x: None,
            scale_y: None,
            border_color: None,
            border_width: None,
        })
    }

    /// Whether a text region's file form validates against a font
    /// table: the font is registered, every length is inside the
    /// ranges layout accepts, and every color given is a CSS color.
    pub open spec fn spec_json_valid(json: JsonTextSchema, font_map: FontMap) -> bool {
        &&& font_map.spec_find(json.font_name@) is Some
        &&& coord_in_range(json.position.x) && coord_in_range(json.position.y)
        &&& 0 <= json.width <= 0x4000_0000_0000
        &&& 0 <= json.height <= 0x4000_0000_0000
        &&& (match json.character_spacing {
            Some(s) => 0 <= s <= crate::font::MAX_SPACING,
            None => true,
        })
        &&& (match json.line_height {
            Some(lh) => 0 <= lh <= MAX_LINE_HEIGHT,
            None => true,
        })
        &&& (match json.padding {
            Some(frame) => frame.wf(),
            None => true,
        })
        &&& spec_font_size_valid(json.font_size)
        &&& json.content@.len() <= MAX_TEXT_LEN
        &&& (match json.font_color {
            Some(text) => css_color_of(text@) is Some,
            None => true,
        })
        &&& (match json.background_color {
            Some(text) => css_color_of(text@) is Some,
            None => true,
        })
        &&& (match json.border_color {
            Some(text) => css_color_of(text@) is Some,
            None => true,
        })
    }

    /// Validates a text region from its file form: the font must be
    /// registered, every color must parse, and every numeric style
    /// must be inside the ranges layout accepts.
    pub fn from_json(json: JsonTextSchema, font_map: &FontMap) -> (r: Result<Text, Error>)
        ensures
            r is Ok <==> Text::spec_json_valid(json, *font_map),
            r is Err ==> r->Err_0 == Error::FontNotFound
                || r->Err_0 == Error::ValueOutOfRange
                || r->Err_0 == Error::InvalidFontSize
                || r->Err_0 == Error::InvalidColor,
            r is Ok ==> {
                let t = r->Ok_0;
                &&& t.wf()
                &&& font_map.spec_find(json.font_name@) is Some
                &&& t.font_name@ == json.font_name@
                &&& t.content@ == json.content@
                &&& t.base.x == json.position.x && t.base.y == json.position.y
                &&& t.base.width == json.width && t.base.height == json.height
            },
            font_map.spec_find(json.font_name@) is None
                ==> r == Result::<Text, Error>::Err(Error::FontNotFound),
    {
        if font_map.find(&json.font_name).is_none() {
            return Err(Error::FontNotFound);
        }
        if !(coord_in_range_exec(json.position.x) && coord_in_range_exec(json.position.y)) {
            return Err(Error::ValueOutOfRange);
        }
        if json.width < 0 || json.width > 0x4000_0000_0000
            || json.height < 0 || json.height > 0x4000_0000_0000 {
            return Err(Error::ValueOutOfRange);
        }
        let character_spacing = match json.character_spacing {
            Some(spacing) => spacing,
            None => 0,
        };
        if character_spacing < 0 || character_spacing > MAX_SPACING {
            return Err(Error::ValueOutOfRange);
        }
        match json.line_height {
            Some(lh) => {
                if lh < 0 || lh > MAX_LINE_HEIGHT {
                    return Err(Error::ValueOutOfRange);
                }
            }
            None => {}
        }
        match json.padding {
            Some(frame) => {
                if !(frame.top >= 0 && frame.top <= 0x4000_0000_0000
                    && frame.right >= 0 && frame.right <= 0x4000_0000_0000
                    && frame.bottom >= 0 && frame.bottom <= 0x4000_0000_0000
                    && frame.left >= 0 && frame.left <= 0x4000_0000_0000) {
                    return Err(Error::ValueOutOfRange);
                }
            }
            None => {}
        }
        let font_size = match FontSize::from_json(json.font_size) {
            Ok(size) => size,
            Err(e) => {
                return Err(e);
            }
        };
        let content = chars_of(json.content.as_str());
        if content.len() > MAX_TEXT_LEN {
            return Err(Error::ValueOutOfRange);
        }
        let font_color = match json.font_color {
            Some(color_text) => {
                match parse_color(&color_text) {
                    Ok(c) => c,
                    Err(e) => {
                        return Err(e);
                    }
                }
            }
            None => Rgb::black(),
        };
        let background_color = match parse_optional_color(&json.background_color) {
            Ok(c) => c,
            Err(e) => {
                return Err(e);
            }
        };
        let border_color = match parse_optional_color(&json.border_color) {
            Ok(c) => c,
            Err(e) => {
                return Err(e);
            }
        };
        let base = BaseSchema::new(
            json.name, json.position.x, json.position.y, json.width, json.height);
        Ok(Text {
            base,
            content,
            alignment: match json.alignment {
                Some(a) => a,
                None => Alignment::Left,
            },
            vertical_alignment: match json.vertical_alignment {
                Some(a) => a,
                None => VerticalAlignment::Top,
            },
            character_spacing,
            line_height: json.line_height,
            font_size,
            font_name: json.font_name,
            font_color,
            background_color,
            padding: json.padding,
            rotate: json.rotate,
            scale_x: json.scale_x,
            scale_y: json.scale_y,
            border_color,
            border_width: json.border_width,
        })
    }

    /// A copy of the region that reads the same.
    pub fn duplicate(&self) -> (r: Text)
        ensures
            r.base.name@ == self.base.name@,
            r.base.x == self.base.x && r.base.y == self.base.y,
            r.base.width == self.base.width && r.base.height == self.base.height,
            r.content@ == self.content@,
            r.font_name@ == self.font_name@,
            r.alignment == self.alignment,
            r.vertical_alignment == self.vertical_alignment,
            r.character_spacing == self.character_spacing,
            r.line_height == self.line_height,
            r.font_size == self.font_size,
            r.font_color == self.font_color,
            r.background_color == self.background_color,
            r.padding == self.padding,
            r.rotate == self.rotate,
            r.scale_x == self.scale_x,
            r.scale_y == self.scale_y,
            r.border_color == self.border_color,
            r.border_width == self.border_width,
            self.wf() ==> r.wf(),
    {
        Text {
            base: BaseSchema {
                name: clone_string(&self.base.name),
                x: self.base.x,
                y: self.base.y,
                width: self.base.width,
                height: self.base.height,
            },
            content: clone_chars(&self.content),
            alignment: self.alignment,
            vertical_alignment: self.vertical_alignment,
            character_spacing: self.character_spacing,
            line_height: self.line_height,
            font_size: self.font_size,
            font_name: clone_string(&self.font_name),
            font_color: self.font_color,
            background_color: self.background_color,
            padding: self.padding,
            rotate: self.rotate,
            scale_x: self.scale_x,
            scale_y: self.scale_y,
            border_color: self.border_color,
            border_width: self.border_width,
        }
    }

    /// The region's geometry.
    pub fn get_base(self) -> (r: BaseSchema)
        ensures
            r == self.base,
    {
        self.base
    }

    /// The box left for content once padding is subtracted.
    pub fn get_effective_box_size(&self) -> (r: (i64, i64))
        requires
            self.wf(),
        ensures
            r == crate::geom::spec_effective_size(self.base.width, self.base.height,
                self.spec_padding()),
            0 <= r.0 <= self.base.width,
            0 <= r.1 <= self.base.height,
    {
        let padding = self.padding_or_zero();
        effective_box_size(self.base.width, self.base.height, &padding)
    }

    /// The region's padding, a zero frame when none is set.
    pub open spec fn spec_padding(self) -> Frame {
        match self.padding {
            Some(frame) => frame,
            None => (Frame { top: 0, right: 0, bottom: 0, left: 0 }),
        }
    }

    /// The region's padding, a zero frame when none is set.
    pub fn padding_or_zero(&self) -> (r: Frame)
        requires
            self.wf(),
        ensures
            r == self.spec_padding(),
            r.wf(),
    {
        match self.padding {
            Some(frame) => frame,
            None => Frame::zero(),
        }
    }

    /// The region's line-height multiplier in thousandths, one when
    /// none is set.
    pub open spec fn spec_line_height(self) -> int {
        match self.line_height {
            Some(lh) => lh as int,
            None => 1000,
        }
    }

    /// Whether a size is the one this region renders at: its fixed
    /// size, or a size satisfying the fitter's law for its dynamic
    /// interval over some faithful segmentation of its content.
    pub open spec fn spec_size_law(self, font: FontMetrics, r: int) -> bool {
        match self.font_size {
            FontSize::Fixed(size) => r == size,
            FontSize::Dynamic(dynamic) => spec_fitted_size(
                font, dynamic, self.content@, self.spec_line_height(),
                self.character_spacing as int, self.base.width as int,
                self.base.height as int, r),
        }
    }

    /// The font size the region renders at: its fixed size, or the
    /// fitted size for a dynamic one, which satisfies the fitter's law
    /// and never leaves the declared interval.
    pub fn get_font_size(&self, font: &FontMetrics) -> (r: i64)
        requires
            self.wf(),
            font.wf(),
        ensures
            0 <= r <= MAX_FONT_SIZE,
            match self.font_size {
                FontSize::Fixed(size) => r == size,
                FontSize::Dynamic(dynamic) => dynamic.min <= r <= dynamic.max,
            },
            self.spec_size_law(*font, r as int),
    {
        match self.font_size {
            FontSize::Fixed(size) => size,
            FontSize::Dynamic(dynamic) => {
                let paragraphs = segment_content(&self.content);
                proof {
                    lemma_split_paragraph_count(self.content@);
                    let pviews = paragraphs_view(paragraphs@);
                    assert forall|p: int| 0 <= p < pviews.len() implies
                        flatten_chars(#[trigger] pviews[p]).len()
                            <= MAX_TEXT_LEN as int by {
                        crate::wrap::lemma_split_member_len(self.content@, p);
                    }
                    crate::wrap::lemma_budget_by_total(pviews);
                    crate::wrap::lemma_total_chars_matches(
                        pviews, crate::wrap::spec_split_paragraphs(self.content@));
                    crate::wrap::lemma_split_paragraphs_chars(self.content@);
                    broadcast use vstd::seq_lib::group_filter_ensures;
                    assert(without_newlines(self.content@).len() <= self.content@.len());
                }
                let line_height = match self.line_height {
                    Some(lh) => lh,
                    None => 1000,
                };
                let fitted = calculate_dynamic_font_size(
                    font,
                    &dynamic,
                    &paragraphs,
                    line_height,
                    self.character_spacing,
                    self.base.width,
                    self.base.height,
                );
                proof {
                    assert(spec_fitted_size(
                        *font, dynamic, self.content@, self.spec_line_height(),
                        self.character_spacing as int, self.base.width as int,
                        self.base.height as int, fitted as int)) by {
                        assert(is_segmentation(self.content@, paragraphs_view(paragraphs@))
                            && crate::fit::spec_fit_law(*font, dynamic,
                                paragraphs_view(paragraphs@), self.spec_line_height(),
                                self.character_spacing as int, self.base.width as int,
                                self.base.height as int, fitted as int));
                    }
                }
                fitted
            }
        }
    }

    /// The height the region's wrapped content takes at its font size:
    /// one font size per wrapped line of the content at the region's
    /// width, plus the vertical padding.
    pub fn get_height(&self, font_map: &FontMap) -> (r: Result<i64, Error>)
        requires
            self.wf(),
            font_map.wf(),
        ensures
            r is Ok <==> font_map.spec_find(self.font_name@) is Some,
            r is Err ==> r->Err_0 == Error::FontNotFound,
            r is Ok ==> 0 <= r->Ok_0 <= 200_000_000_000_000,
            r is Ok ==> exists|size: int, paragraphs: Seq<Seq<Seq<char>>>|
                #![trigger spec_line_count(font_map.spec_find(self.font_name@)->Some_0,
                    paragraphs, size, self.base.width as int, self.character_spacing as int)]
                {
                    let font = font_map.spec_find(self.font_name@)->Some_0;
                    &&& self.spec_size_law(font, size)
                    &&& is_segmentation(self.content@, paragraphs)
                    &&& r->Ok_0 == spec_line_count(font, paragraphs, size,
                        self.base.width as int, self.character_spacing as int) * size
                        + self.spec_padding().top + self.spec_padding().bottom
                },
    {
        let font = match font_map.find(&self.font_name) {
            Some(metrics) => metrics,
            None => {
                return Err(Error::FontNotFound);
            }
        };
        let font_size = self.get_font_size(font);
        let lines = split_text_to_size(
            font, &self.content, font_size, self.base.width, self.character_spacing);
        let padding = self.padding_or_zero();
        proof {
            assert(0 <= lines@.len() * font_size
                <= (4 * MAX_TEXT_LEN as int + 1) * MAX_FONT_SIZE as int)
                by (nonlinear_arith)
                requires
                    0 <= lines@.len() <= 4 * MAX_TEXT_LEN as int + 1,
                    0 <= font_size <= MAX_FONT_SIZE,
            ;
        }
        let height = (lines.len() as i64) * font_size;
        proof {
            let fontv = font_map.spec_find(self.font_name@)->Some_0;
            let chosen = choose|paragraphs: Seq<Seq<Seq<char>>>|
                is_segmentation(self.content@, paragraphs)
                && lines_view(lines@) == #[trigger] spec_wrapped_lines(fontv, paragraphs,
                    font_size as int, self.base.width as int, self.character_spacing as int);
            lemma_wrapped_lines_count(fontv, chosen, font_size as int,
                self.base.width as int, self.character_spacing as int);
            assert(is_segmentation(self.content@, chosen)
                && height + padding.top + padding.bottom
                    == spec_line_count(fontv, chosen, font_size as int,
                        self.base.width as int, self.character_spacing as int)
                        * font_size + self.spec_padding().top + self.spec_padding().bottom);
        }
        Ok(height + padding.top + padding.bottom)
    }

    pub fn set_x(&mut self, x: i64)
        ensures
            *final(self) == (Text { base: BaseSchema { x, ..old(self).base }, ..*old(self) }),
    {
        self.base.x = x;
    }

    pub fn set_y(&mut self, y: i64)
        ensures
            *final(self) == (Text { base: BaseSchema { y, ..old(self).base }, ..*old(self) }),
    {
        self.base.y = y;
    }

    pub fn set_width(&mut self, width: i64)
        ensures
            *final(self) == (Text {
                base: BaseSchema { width, ..old(self).base },
                ..*old(self)
            }),
    {
        self.base.width = width;
    }

    pub fn set_height(&mut self, height: i64)
        ensures
            *final(self) == (Text {
                base: BaseSchema { height, ..old(self).base },
                ..*old(self)
            }),
    {
        self.base.height = height;
    }

    /// Replaces the region's text.
    pub fn set_content(&mut self, content: Vec<char>)
        ensures
            *final(self) == (Text { content, ..*old(self) }),
    {
        self.content = content;
    }

    /// Adds to the region's rotation; setting a rotation on an already
    /// rotated region accumulates the angles.
    pub fn set_rotate(&mut self, rotate: Option<i64>)
        requires
            match (old(self).rotate, rotate) {
                (Some(a), Some(b)) => -0x1000_0000 <= a + b <= 0x1000_0000,
                _ => true,
            },
            match old(self).rotate {
                Some(a) => -0x1000_0000 <= a <= 0x1000_0000,
                None => true,
            },
        ensures
            final(self).rotate == (match (old(self).rotate, rotate) {
                (Some(a), Some(b)) => Some((a + b) as i64),
                (Some(a), None) => Some(a),
                (None, r) => r,
            }),
            *final(self) == (Text { rotate: final(self).rotate, ..*old(self) }),
    {
        match self.rotate {
            Some(existing) => {
                let added = match rotate {
                    Some(value) => value,
                    None => 0,
                };
                self.rotate = Some(existing + added);
            }
            None => {
                self.rotate = rotate;
            }
        }
    }

    /// The region's center-pivot rotation frame op.
    pub open spec fn spec_pivot_op(self, parent_height: int) -> DrawOp {
        (DrawOp::SetMatrixPivot {
            x: self.base.x,
            y: (parent_height - self.base.y - self.base.height) as i64,
            width: self.base.width,
            height: self.base.height,
            rotate_mdeg: (match self.rotate {
                Some(angle) => angle,
                None => 0,
            }),
        })
    }

    /// How many ops the background and border blocks take before the
    /// text runs.
    pub open spec fn spec_prefix_len(self) -> int {
        (if self.background_color is Some { 5int } else { 0int })
            + (if self.border_color is Some && self.border_width is Some { 6int } else { 0int })
    }

    /// The five-op background block: the rotation frame, the fill
    /// color, and the filled box polygon.
    pub open spec fn spec_background_ops_ok(self, parent_height: int, ops: Seq<DrawOp>) -> bool {
        &&& ops.len() == 5
        &&& ops[0] is SaveGraphicsState
        &&& ops[1] == self.spec_pivot_op(parent_height)
        &&& ops[2] == (DrawOp::SetFillColor { color: self.background_color->Some_0 })
        &&& (ops[3] matches DrawOp::DrawPolygon { points, mode }
            && points@ == crate::rect::spec_box_points(self.base.width as int,
                self.base.height as int)
            && mode is Fill)
        &&& ops[4] is RestoreGraphicsState
    }

    /// The six-op border block: the rotation frame, the stroke color
    /// and width, and the stroked box polygon.
    pub open spec fn spec_border_ops_ok(self, parent_height: int, ops: Seq<DrawOp>) -> bool {
        &&& ops.len() == 6
        &&& ops[0] is SaveGraphicsState
        &&& ops[1] == self.spec_pivot_op(parent_height)
        &&& ops[2] == (DrawOp::SetOutlineColor { color: self.border_color->Some_0 })
        &&& ops[3] == (DrawOp::SetOutlineThickness { thickness: self.border_width->Some_0 })
        &&& (ops[4] matches DrawOp::DrawPolygon { points, mode }
            && points@ == crate::rect::spec_box_points(self.base.width as int,
                self.base.height as int)
            && mode is Stroke)
        &&& ops[5] is RestoreGraphicsState
    }

    /// The optional background and border blocks, in that order.
    pub open spec fn spec_frame_ops_ok(self, parent_height: int, ops: Seq<DrawOp>) -> bool {
        &&& ops.len() == self.spec_prefix_len()
        &&& (self.background_color is Some
            ==> self.spec_background_ops_ok(parent_height, ops.take(5)))
        &&& ((self.border_color is Some && self.border_width is Some)
            ==> self.spec_border_ops_ok(parent_height,
                ops.skip(if self.background_color is Some { 5int } else { 0int })))
    }

    /// The eleven-op run that draws one wrapped line: the rotation
    /// frame, a text section at the line's height, the font color and
    /// size, the text matrix at the alignment offset, the character
    /// spacing (justify distributes the residual width over the line's
    /// grapheme boundaries), and the sanitized line itself.
    pub open spec fn spec_line_ops_ok(
        self,
        font: FontMetrics,
        size: int,
        line: Seq<char>,
        index: int,
        line_count: int,
        parent_height: int,
        ops: Seq<DrawOp>,
    ) -> bool {
        let line_height = size * self.spec_line_height() / 1000;
        let eff = crate::geom::spec_effective_size(self.base.width, self.base.height,
            self.spec_padding());
        let y_offset = crate::geom::spec_vertical_offset(self.vertical_alignment,
            eff.1 as int, line_count * line_height);
        let line_width = font.spec_width_of(line, size, self.character_spacing as int);
        let x_line = crate::geom::spec_horizontal_offset(self.alignment, eff.0 as int,
            line_width) + self.spec_padding().left;
        let spacing = if self.alignment is Justify && eff.0 - line_width >= 0 {
            self.character_spacing + crate::font::div_toward_zero(eff.0 - line_width,
                crate::font::grapheme_boundary_count_of(line))
        } else {
            self.character_spacing as int
        };
        let y = self.base.height
            - (y_offset + line_height * (index + 1) + self.spec_padding().top);
        &&& ops.len() == 11
        &&& ops[0] is SaveGraphicsState
        &&& ops[1] == self.spec_pivot_op(parent_height)
        &&& ops[2] is StartTextSection
        &&& ops[3] == (DrawOp::SetLineHeight { height: line_height as i64 })
        &&& ops[4] == (DrawOp::SetFillColor { color: self.font_color })
        &&& (ops[5] matches DrawOp::SetFontSize { font: f, size: s }
            && f@ == self.font_name@ && s == size)
        &&& ops[6] == (DrawOp::SetTextMatrix {
            x: x_line as i64,
            y: y as i64,
            scale_x_milli: (match self.scale_x {
                Some(s) => s,
                None => 1000,
            }),
            scale_y_milli: (match self.scale_y {
                Some(s) => s,
                None => 1000,
            }),
        })
        &&& ops[7] == (DrawOp::SetCharacterSpacing { spacing: spacing as i64 })
        &&& (ops[8] matches DrawOp::WriteText { font: f, text }
            && f@ == self.font_name@
            && text@ == crate::font::spec_sanitized(font, line))
        &&& ops[9] is EndTextSection
        &&& ops[10] is RestoreGraphicsState
    }

    /// The whole op run a text render appends: the optional background
    /// and border blocks, then one eleven-op run per wrapped line.
    pub open spec fn spec_render_ops_ok(
        self,
        font: FontMetrics,
        size: int,
        lines: Seq<Seq<char>>,
        parent_height: int,
        ops: Seq<DrawOp>,
    ) -> bool {
        let prefix = self.spec_prefix_len();
        &&& ops.len() == prefix + 11 * lines.len()
        &&& self.spec_frame_ops_ok(parent_height, ops.take(prefix))
        &&& (forall|i: int| 0 <= i < lines.len()
            ==> self.spec_line_ops_ok(font, size, #[trigger] lines[i], i, lines.len() as int,
                parent_height, ops.subrange(prefix + 11 * i, prefix + 11 * i + 11)))
    }

    /// Lays the region's content out and appends its drawing
    /// instructions to the page: the rotation frame, an optional
    /// background and border, then one sanitized text run per wrapped
    /// line with the region's alignment.  Fails exactly when the
    /// region's font was never registered, leaving the buffer
    /// untouched.
    #[verifier::rlimit(100)]
    pub fn render(
        &self,
        font_map: &FontMap,
        parent_height: i64,
        current_page: usize,
        buffer: &mut OpBuffer,
    ) -> (r: Result<(), Error>)
        requires
            self.wf(),
            font_map.wf(),
            coord_in_range(parent_height),
            current_page < usize::MAX,
        ensures
            r is Ok <==> font_map.spec_find(self.font_name@) is Some,
            r is Err ==> r->Err_0 == Error::FontNotFound
                && *final(buffer) == *old(buffer),
            r is Ok ==> final(buffer).buffer@.len()
                == (if current_page + 1 >= old(buffer).buffer@.len() {
                    current_page + 1
                } else {
                    old(buffer).buffer@.len() as int
                }),
            r is Ok ==> forall|i: int|
                0 <= i < final(buffer).buffer@.len() && i != current_page ==>
                    final(buffer).buffer@[i]@
                        == #[trigger] spec_page_at(old(buffer).buffer@, i),
            r is Ok ==> spec_page_at(old(buffer).buffer@, current_page as int).len()
                <= spec_page_at(final(buffer).buffer@, current_page as int).len(),
            r is Ok ==> spec_page_at(final(buffer).buffer@, current_page as int)
                .take(spec_page_at(old(buffer).buffer@, current_page as int).len() as int)
                == spec_page_at(old(buffer).buffer@, current_page as int),
            r is Ok ==> ({
                let appended = spec_page_at(final(buffer).buffer@, current_page as int)
                    .skip(spec_page_at(old(buffer).buffer@, current_page as int).len() as int);
                let font = font_map.spec_find(self.font_name@)->Some_0;
                exists|size: int, lines: Seq<Seq<char>>|
                    self.spec_size_law(font, size)
                    && spec_wrap_of(font, self.content@, size,
                        crate::geom::spec_effective_size(self.base.width, self.base.height,
                            self.spec_padding()).0 as int,
                        self.character_spacing as int, lines)
                    && #[trigger] self.spec_render_ops_ok(font, size, lines,
                        parent_height as int, appended)
            }),
    {
        let font = match font_map.find(&self.font_name) {
            Some(metrics) => metrics,
            None => {
                return Err(Error::FontNotFound);
            }
        };
        let font_size = self.get_font_size(font);
        let ghost gsize = font_size;
        let (box_width, box_height) = self.get_effective_box_size();
        let padding = self.padding_or_zero();

        let lines = split_text_to_size(
            font, &self.content, font_size, box_width, self.character_spacing);

        let line_height_milli = match self.line_height {
            Some(lh) => lh,
            None => 1000,
        };
        proof {
            assert(0 <= font_size * line_height_milli
                <= MAX_FONT_SIZE as int * MAX_LINE_HEIGHT as int) by (nonlinear_arith)
                requires
                    0 <= font_size <= MAX_FONT_SIZE,
                    0 <= line_height_milli <= MAX_LINE_HEIGHT,
            ;
        }
        let line_height: i64 = font_size * line_height_milli / 1000;
        proof {
            assert(0 <= lines@.len() * line_height
                <= (4 * MAX_TEXT_LEN as int + 1) * 1_000_000_000) by (nonlinear_arith)
                requires
                    0 <= lines@.len() <= 4 * MAX_TEXT_LEN as int + 1,
                    0 <= line_height <= 1_000_000_000,
            ;
        }
        let total_height: i64 = (lines.len() as i64) * line_height;
        let y_offset = calculate_vertical_offset(
            self.vertical_alignment, box_height, total_height);

        let mut ops: Vec<DrawOp> = Vec::new();

        match self.background_color {
            Some(color) => {
                ops.push(DrawOp::SaveGraphicsState);
                ops.push(self.pivot_op(parent_height));
                ops.push(DrawOp::SetFillColor { color });
                let corners = box_polygon(self.base.width, self.base.height);
                proof {
                    assert(corners@ =~= crate::rect::spec_box_points(
                        self.base.width as int, self.base.height as int));
                }
                ops.push(DrawOp::DrawPolygon { points: corners, mode: PaintMode::Fill });
                ops.push(DrawOp::RestoreGraphicsState);
            }
            None => {}
        }
        match (self.border_color, self.border_width) {
            (Some(color), Some(thickness)) => {
                let ghost bg_len = ops@.len();
                ops.push(DrawOp::SaveGraphicsState);
                ops.push(self.pivot_op(parent_height));
                ops.push(DrawOp::SetOutlineColor { color });
                ops.push(DrawOp::SetOutlineThickness { thickness });
                let corners = box_polygon(self.base.width, self.base.height);
                proof {
                    assert(corners@ =~= crate::rect::spec_box_points(
                        self.base.width as int, self.base.height as int));
                }
                ops.push(DrawOp::DrawPolygon { points: corners, mode: PaintMode::Stroke });
                ops.push(DrawOp::RestoreGraphicsState);
                proof {
                    assert(ops@.skip(bg_len as int).len() == 6);
                    assert(self.spec_border_ops_ok(parent_height as int,
                        ops@.skip(bg_len as int)));
                }
            }
            _ => {}
        }
        let ghost prefix = ops@;
        proof {
            assert(prefix.len() == self.spec_prefix_len());
            if self.background_color is Some {
                assert(prefix.take(5) =~= prefix.take(5));
            }
            assert(self.spec_frame_ops_ok(parent_height as int, prefix.take(prefix.len() as int)));
            assert(prefix.take(prefix.len() as int) =~= prefix);
        }

        let mut index: usize = 0;
        while index < lines.len()
            invariant
                0 <= index <= lines@.len(),
                font.wf(),
                self.wf(),
                0 <= font_size <= MAX_FONT_SIZE,
                font_size == gsize,
                0 <= line_height <= 1_000_000_000,
                line_height == font_size * self.spec_line_height() / 1000,
                lines@.len() <= 4 * MAX_TEXT_LEN + 1,
                (box_width, box_height) == crate::geom::spec_effective_size(
                    self.base.width, self.base.height, self.spec_padding()),
                padding == self.spec_padding(),
                padding.wf(),
                y_offset == crate::geom::spec_vertical_offset(self.vertical_alignment,
                    box_height as int, lines@.len() * line_height),
                -1_000_000_000_000_000 <= y_offset <= 1_000_000_000_000_000,
                forall|i: int| 0 <= i < lines@.len()
                    ==> (#[trigger] lines@[i])@.len() <= MAX_TEXT_LEN,
                ops@.len() == prefix.len() + 11 * index,
                ops@.take(prefix.len() as int) == prefix,
                forall|i: int| 0 <= i < index
                    ==> self.spec_line_ops_ok(*font, font_size as int,
                        #[trigger] lines@[i]@, i, lines@.len() as int, parent_height as int,
                        ops@.subrange(prefix.len() + 11 * i, prefix.len() + 11 * i + 11)),
            decreases lines@.len() - index,
        {
            let line = &lines[index];
            let line_width = font.width_of_text_at_size(
                line, font_size, self.character_spacing);
            let x_align = calculate_horizontal_offset(self.alignment, box_width, line_width);
            let x_line = x_align + padding.left;
            let character_spacing = match self.alignment {
                Alignment::Justify => {
                    let residual = box_width - line_width;
                    if residual >= 0 {
                        self.character_spacing
                            + calculate_character_spacing(line, residual)
                    } else {
                        self.character_spacing
                    }
                }
                _ => self.character_spacing,
            };
            proof {
                assert(0 <= line_height * (index + 1)
                    <= 1_000_000_000 * (4 * MAX_TEXT_LEN as int + 2)) by (nonlinear_arith)
                    requires
                        0 <= line_height <= 1_000_000_000,
                        0 <= index + 1 <= 4 * MAX_TEXT_LEN as int + 2,
                ;
            }
            let y = self.base.height - (y_offset + line_height * ((index as i64) + 1)
                + padding.top);
            let drawn = crate::font::sanitize_text_for_font(line, font);
            let ghost before = ops@;
            ops.push(DrawOp::SaveGraphicsState);
            ops.push(self.pivot_op(parent_height));
            ops.push(DrawOp::StartTextSection);
            ops.push(DrawOp::SetLineHeight { height: line_height });
            ops.push(DrawOp::SetFillColor { color: self.font_color });
            ops.push(DrawOp::SetFontSize {
                font: clone_string(&self.font_name),
                size: font_size,
            });
            ops.push(DrawOp::SetTextMatrix {
                x: x_line,
                y,
                scale_x_milli: match self.scale_x {
                    Some(s) => s,
                    None => 1000,
                },
                scale_y_milli: match self.scale_y {
                    Some(s) => s,
                    None => 1000,
                },
            });
            ops.push(DrawOp::SetCharacterSpacing { spacing: character_spacing });
            ops.push(DrawOp::WriteText {
                font: clone_string(&self.font_name),
                text: drawn,
            });
            ops.push(DrawOp::EndTextSection);
            ops.push(DrawOp::RestoreGraphicsState);
            proof {
                let block = ops@.subrange(before.len() as int, before.len() as int + 11);
                assert(self.spec_line_ops_ok(*font, font_size as int, lines@[index as int]@,
                    index as int, lines@.len() as int, parent_height as int, block));
                assert(ops@.take(prefix.len() as int) =~= prefix);
                assert forall|i: int| 0 <= i < index + 1 implies
                    self.spec_line_ops_ok(*font, font_size as int,
                        #[trigger] lines@[i]@, i, lines@.len() as int, parent_height as int,
                        ops@.subrange(prefix.len() + 11 * i, prefix.len() + 11 * i + 11)) by {
                    if i < index {
                        assert(ops@.subrange(prefix.len() + 11 * i, prefix.len() + 11 * i + 11)
                            =~= before.subrange(prefix.len() + 11 * i,
                                prefix.len() + 11 * i + 11));
                    } else {
                        assert(ops@.subrange(prefix.len() + 11 * i, prefix.len() + 11 * i + 11)
                            =~= block);
                    }
                }
            }
            index = index + 1;
        }

        let ghost final_ops = ops@;
        proof {
            assert(final_ops.take(prefix.len() as int) == prefix);
            assert(self.spec_frame_ops_ok(parent_height as int,
                final_ops.take(self.spec_prefix_len())));
            assert(self.spec_render_ops_ok(*font, font_size as int, lines_view(lines@),
                parent_height as int, final_ops));
        }
        buffer.insert(current_page, ops);
        proof {
            let old_page = spec_page_at(old(buffer).buffer@, current_page as int);
            let new_page = spec_page_at(buffer.buffer@, current_page as int);
            assert(new_page == old_page + final_ops);
            assert(new_page.skip(old_page.len() as int) =~= final_ops);
            let fontv = font_map.spec_find(self.font_name@)->Some_0;
            assert(fontv == *font);
            assert(self.spec_size_law(fontv, gsize as int)
                && spec_wrap_of(fontv, self.content@, gsize as int,
                    crate::geom::spec_effective_size(self.base.width, self.base.height,
                        self.spec_padding()).0 as int,
                    self.character_spacing as int, lines_view(lines@))
                && self.spec_render_ops_ok(fontv, gsize as int, lines_view(lines@),
                    parent_height as int, new_page.skip(old_page.len() as int)));
        }
        Ok(())
    }
}

impl Text {
    /// Builds the region's center-pivot rotation frame op.
    fn pivot_op(&self, parent_height: i64) -> (r: DrawOp)
        requires
            self.wf(),
            coord_in_range(parent_height),
        ensures
            r == self.spec_pivot_op(parent_height as int),
    {
        DrawOp::SetMatrixPivot {
            x: self.base.x,
            y: parent_height - self.base.y - self.base.height,
            width: self.base.width,
            height: self.base.height,
            rotate_mdeg: match self.rotate {
                Some(angle) => angle,
                None => 0,
            },
        }
    }
}

/// The four corners of a box anchored at the frame origin.
pub fn box_polygon(width: i64, height: i64) -> (r: Vec<PolyPoint>)
    ensures
        r@.len() == 4,
        r@[0] == (PolyPoint { x: 0, y: 0, bezier: false }),
        r@[1] == (PolyPoint { x: width, y: 0, bezier: false }),
        r@[2] == (PolyPoint { x: width, y: height, bezier: false }),
        r@[3] == (PolyPoint { x: 0, y: height, bezier: false }),
{
    let mut points: Vec<PolyPoint> = Vec::new();
    points.push(PolyPoint { x: 0, y: 0, bezier: false });
    points.push(PolyPoint { x: width, y: 0, bezier: false });
    points.push(PolyPoint { x: width, y: height, bezier: false });
    points.push(PolyPoint { x: 0, y: height, bezier: false });
    points
}

/// Copies a character list; the copy reads the same.
pub fn clone_chars(chars: &Vec<char>) -> (r: Vec<char>)
    ensures
        r@ == chars@,
{
    let copied = chars.clone();
    proof {
        assert(copied@ =~= chars@);
    }
    copied
}

/// Copies a string; the copy reads the same.
pub fn clone_string(s: &String) -> (r: String)
    ensures
        r@ == s@,
{
    let copied = s.clone();
    proof {
        assert(copied@ == s@);
    }
    copied
}

/// Turns a character list back into a string.  Relies on
/// core::iter::Iterator::collect over characters preserving them in
/// order.
#[verifier::external_body]
pub(crate) fn chars_to_string(chars: &Vec<char>) -> (r: String)
    ensures
        r@ == chars@,
{
    chars.iter().collect()
}

/// Whether a coordinate is inside the range layout arithmetic accepts.
pub fn coord_in_range_exec(v: i64) -> (r: bool)
    ensures
        r == coord_in_range(v),
{
    -1_000_000_000_000_000 <= v && v <= 1_000_000_000_000_000
}

} // verus!
