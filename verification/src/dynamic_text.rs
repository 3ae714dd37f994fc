//! The flowing text region: wraps its content at a fixed font size and
//! flows the lines down the page, opening a new physical page whenever
//! the next line would cross the bottom margin, for arbitrarily long
//! content.

use vstd::prelude::*;
use crate::error::Error;
use crate::fit::MAX_LINE_HEIGHT;
use crate::font::{FontMap, MAX_TEXT_LEN, MAX_FONT_SIZE, MAX_SPACING};
use crate::geom::{BaseSchema, BasePdf, JsonPosition, coord_in_range};
use crate::ops::{DrawOp, OpBuffer, spec_page_at};
use crate::text::{clone_string, coord_in_range_exec};
use crate::wrap::{split_text_to_size, chars_of, spec_wrap_of, lines_view};

verus! {

/// A flowing text region as the template file carries it.
#[derive(Debug, Clone)]
pub struct JsonDynamicTextSchema {
    pub name: String,
    pub position: JsonPosition,
    pub width: i64,
    pub height: i64,
    pub content: String,
    pub font_name: String,
    pub character_spacing: Option<i64>,
    pub line_height: Option<i64>,
    pub font_size: Option<i64>,
}

/// A validated flowing text region.
#[derive(Debug, Clone)]
pub struct DynamicText {
    pub base: BaseSchema,
    pub content: Vec<char>,
    pub character_spacing: i64,
    pub line_height: Option<i64>,
    pub font_size: i64,
    pub font_name: String,
}

/// One flow step: advancing the cursor by a line height, opening a new
/// page at the top margin when the bottom margin would be crossed.
pub open spec fn spec_flow_step(
    page: int,
    y: int,
    line_height: int,
    top_margin: int,
    bottom_y: int,
) -> (int, int) {
    if y + line_height > bottom_y {
        (page + 1, top_margin)
    } else {
        (page, y + line_height)
    }
}

/// Whether an end cursor is exactly the flow, line by line, of the
/// wrapped content (under some faithful segmentation) from a starting
/// cursor.
pub open spec fn spec_flow_of_wrap(
    font: crate::font::FontMetrics,
    content: Seq<char>,
    size: int,
    width: int,
    spacing: int,
    page0: int,
    y0: int,
    line_height: int,
    top_margin: int,
    bottom_y: int,
    page1: int,
    y1: int,
) -> bool {
    exists|lines: Seq<Seq<char>>|
        spec_wrap_of(font, content, size, width, spacing, lines)
        && (page1, y1) == #[trigger] spec_flow(lines.len() as int, page0, y0, line_height,
            top_margin, bottom_y)
}

/// The cursor after flowing `n` lines from a starting position.
pub open spec fn spec_flow(
    n: int,
    page: int,
    y: int,
    line_height: int,
    top_margin: int,
    bottom_y: int,
) -> (int, int)
    decreases n,
{
    if n <= 0 {
        (page, y)
    } else {
        let (page2, y2) = spec_flow_step(page, y, line_height, top_margin, bottom_y);
        spec_flow(n - 1, page2, y2, line_height, top_margin, bottom_y)
    }
}

impl DynamicText {
    /// A well-formed flowing region.
    pub open spec fn wf(self) -> bool {
        self.base.wf()
        && self.content@.len() <= MAX_TEXT_LEN
        && 0 <= self.character_spacing <= MAX_SPACING
        && (match self.line_height {
            Some(lh) => 0 <= lh <= MAX_LINE_HEIGHT,
            None => true,
        })
        && 0 <= self.font_size <= MAX_FONT_SIZE
    }

    /// Builds a flowing region; fails exactly when the font name was
    /// never registered.
    pub fn new(
        x: i64,
        y: i64,
        width: i64,
        height: i64,
        font_name: String,
        font_size: i64,
        content: Vec<char>,
        font_map: &FontMap,
    ) -> (r: Result<DynamicText, Error>)
        requires
            coord_in_range(x),
            coord_in_range(y),
            0 <= width <= 0x4000_0000_0000,
            0 <= height <= 0x4000_0000_0000,
            0 <= font_size <= MAX_FONT_SIZE,
            content@.len() <= MAX_TEXT_LEN,
        ensures
            r is Ok <==> font_map.spec_find(font_name@) is Some,
            r is Err ==> r->Err_0 == Error::FontNotFound,
            r is Ok ==> {
                let t = r->Ok_0;
                &&& t.wf()
                &&& t.base.x == x && t.base.y == y
                &&& t.base.width == width && t.base.height == height
                &&& t.content@ == content@
                &&& t.font_name@ == font_name@
                &&& t.font_size == font_size
            },
    {
        if font_map.find(&font_name).is_none() {
            return Err(Error::FontNotFound);
        }
        let name: String = crate::text::chars_to_string(&chars_of("cell"));
        let base = BaseSchema::new(name, x, y, width, height);
        Ok(DynamicText {
            base,
            content,
            character_spacing: 0,
            line_height: None,
            font_size,
            font_name,
        })
    }

    /// Whether a flowing region's file form validates against a font
    /// table: the font is registered, a fixed font size is given, and
    /// every length is inside the ranges layout accepts.
    pub open spec fn spec_json_valid(json: JsonDynamicTextSchema, font_map: FontMap) -> bool {
        &&& font_map.spec_find(json.font_name@) is Some
        &&& (match json.font_size {
            Some(size) => 0 <= size <= MAX_FONT_SIZE,
            None => false,
        })
        &&& coord_in_range(json.position.x) && coord_in_range(json.position.y)
        &&& 0 <= json.width <= 0x4000_0000_0000
        &&& 0 <= json.height <= 0x4000_0000_0000
        &&& (match json.character_spacing {
            Some(s) => 0 <= s <= MAX_SPACING,
            None => true,
        })
        &&& (match json.line_height {
            Some(lh) => 0 <= lh <= MAX_LINE_HEIGHT,
            None => true,
        })
        &&& json.content@.len() <= MAX_TEXT_LEN
    }

    /// Validates a flowing region from its file form.  A region
    /// without a font size cannot flow and is rejected.
    pub fn from_json(json: JsonDynamicTextSchema, font_map: &FontMap) -> (r:
        Result<DynamicText, Error>)
        ensures
            r is Ok <==> DynamicText::spec_json_valid(json, *font_map),
            r is Err ==> r->Err_0 == Error::FontNotFound
                || r->Err_0 == Error::InvalidFontSize
                || r->Err_0 == Error::ValueOutOfRange,
            r is Ok ==> {
                let t = r->Ok_0;
                &&& t.wf()
                &&& font_map.spec_find(json.font_name@) is Some
                &&& t.font_name@ == json.font_name@
                &&& t.content@ == json.content@
            },
            font_map.spec_find(json.font_name@) is None
                ==> r == Result::<DynamicText, Error>::Err(Error::FontNotFound),
            (font_map.spec_find(json.font_name@) is Some && json.font_size is None)
                ==> r == Result::<DynamicText, Error>::Err(Error::InvalidFontSize),
    {
        if font_map.find(&json.font_name).is_none() {
            return Err(Error::FontNotFound);
        }
        let font_size = match json.font_size {
            Some(size) => size,
            None => {
                return Err(Error::InvalidFontSize);
            }
        };
        if font_size < 0 || font_size > MAX_FONT_SIZE {
            return Err(Error::ValueOutOfRange);
        }
        if !(coord_in_range_exec(json.position.x) && coord_in_range_exec(json.position.y)) {
            return Err(Error::ValueOutOfRange);
        }
        if json.width < 0 || json.width > 0x4000_0000_0000
            || json.height < 0 || json.height > 0x4000_0000_0000 {
            return Err(Error::ValueOutOfRange);
        }
        let character_spacing = match json.character_spacing {
            Some(spacing) => spacing,
            None => 0,
        };
        if character_spacing < 0 || character_spacing > MAX_SPACING {
            return Err(Error::ValueOutOfRange);
        }
        match json.line_height {
            Some(lh) => {
                if lh < 0 || lh > MAX_LINE_HEIGHT {
                    return Err(Error::ValueOutOfRange);
                }
            }
            None => {}
        }
        let content = chars_of(json.content.as_str());
        if content.len() > MAX_TEXT_LEN {
            return Err(Error::ValueOutOfRange);
        }
        let base = BaseSchema::new(
            json.name, json.position.x, json.position.y, json.width, json.height);
        Ok(DynamicText {
            base,
            content,
            character_spacing,
            line_height: json.line_height,
            font_size,
            font_name: json.font_name,
        })
    }

    /// The region's geometry.
    pub fn get_base(self) -> (r: BaseSchema)
        ensures
            r == self.base,
    {
        self.base
    }

    pub fn set_y(&mut self, y: i64)
        ensures
            *final(self) == (DynamicText {
                base: BaseSchema { y, ..old(self).base },
                ..*old(self)
            }),
    {
        self.base.y = y;
    }

    pub fn set_height(&mut self, height: i64)
        ensures
            *final(self) == (DynamicText {
                base: BaseSchema { height, ..old(self).base },
                ..*old(self)
            }),
    {
        self.base.height = height;
    }

    /// Wraps the content at the region's font size and flows the lines
    /// across pages: a line that would cross the bottom margin opens
    /// the next page at the top margin.  Returns the page index the
    /// flow ended on and the cursor below the last placed line, which
    /// followed the flow rule line by line from the starting cursor.
    /// Fails exactly when the region's font was never registered,
    /// leaving the buffer untouched.
    #[verifier::rlimit(100)]
    pub fn render(
        &self,
        font_map: &FontMap,
        base_pdf: &BasePdf,
        current_page: usize,
        current_top: Option<i64>,
        buffer: &mut OpBuffer,
    ) -> (r: Result<(usize, Option<i64>), Error>)
        requires
            self.wf(),
            font_map.wf(),
            base_pdf.wf(),
            current_page <= 1_000_000_000,
            match current_top {
                Some(y) => coord_in_range(y),
                None => true,
            },
        ensures
            r is Ok <==> font_map.spec_find(self.font_name@) is Some,
            r is Err ==> r->Err_0 == Error::FontNotFound
                && *final(buffer) == *old(buffer),
            r is Ok ==> {
                let (end_page, end_y) = r->Ok_0;
                let start_y = (match current_top {
                    Some(y) => y as int,
                    None => self.base.y as int,
                });
                &&& end_page >= current_page
                &&& end_y is Some
                &&& spec_flow_of_wrap(font_map.spec_find(self.font_name@)->Some_0,
                    self.content@, self.font_size as int, self.base.width as int,
                    self.character_spacing as int, current_page as int, start_y,
                    self.spec_line_step(), base_pdf.padding.top as int,
                    base_pdf.height - base_pdf.padding.bottom,
                    end_page as int, end_y->Some_0 as int)
            },
            r is Ok ==> final(buffer).buffer@.len() >= old(buffer).buffer@.len(),
            r is Ok ==> forall|i: int|
                0 <= i < final(buffer).buffer@.len() ==>
                    spec_page_at(old(buffer).buffer@, i).len()
                        <= (#[trigger] final(buffer).buffer@[i]@).len()
                    && final(buffer).buffer@[i]@
                        .take(spec_page_at(old(buffer).buffer@, i).len() as int)
                        == spec_page_at(old(buffer).buffer@, i),
            r is Ok ==> forall|i: int|
                0 <= i < final(buffer).buffer@.len()
                    && !(current_page <= i <= r->Ok_0.0) ==>
                    final(buffer).buffer@[i]@ == #[trigger] spec_page_at(old(buffer).buffer@, i),
    {
        let font = match font_map.find(&self.font_name) {
            Some(metrics) => metrics,
            None => {
                return Err(Error::FontNotFound);
            }
        };
        let top_margin = base_pdf.padding.top;
        let bottom_y = base_pdf.height - base_pdf.padding.bottom;
        let y_top = match current_top {
            Some(y) => y,
            None => self.base.y,
        };
        let line_height_milli = match self.line_height {
            Some(lh) => lh,
            None => 1000,
        };
        proof {
            assert(0 <= self.font_size * line_height_milli
                <= MAX_FONT_SIZE as int * MAX_LINE_HEIGHT as int) by (nonlinear_arith)
                requires
                    0 <= self.font_size <= MAX_FONT_SIZE,
                    0 <= line_height_milli <= MAX_LINE_HEIGHT,
            ;
        }
        let line_height: i64 = self.font_size * line_height_milli / 1000;

        let lines = split_text_to_size(
            font, &self.content, self.font_size, self.base.width, self.character_spacing);

        let ghost line_step = self.spec_line_step();
        proof {
            assert(line_step == line_height);
        }

        // Assign each line to a physical page, following the flow rule.
        let mut page_counter: usize = 0;
        let mut y_line = y_top;
        let mut pages: Vec<Vec<Vec<char>>> = Vec::new();
        let mut li: usize = 0;
        while li < lines.len()
            invariant
                0 <= li <= lines@.len(),
                lines@.len() <= 4 * MAX_TEXT_LEN + 1,
                0 <= page_counter <= li,
                -2_000_000_000_000_000 <= y_line <= 2_000_000_000_000_000,
                0 <= line_height <= 1_000_000_000,
                coord_in_range(top_margin as i64),
                coord_in_range(y_top as i64),
                -2_000_000_000_000_000 <= bottom_y <= 2_000_000_000_000_000,
                (page_counter as int, y_line as int) == spec_flow(
                    li as int, 0, y_top as int, line_height as int, top_margin as int,
                    bottom_y as int),
                pages@.len() == (if li == 0 { 0int } else { page_counter + 1 }),
                forall|p: int| 0 <= p < pages@.len()
                    ==> (#[trigger] pages@[p])@.len() <= li,
                forall|p: int| 0 <= p < pages@.len()
                    ==> forall|q: int| 0 <= q < (#[trigger] pages@[p])@.len()
                        ==> (#[trigger] pages@[p]@[q])@.len() <= MAX_TEXT_LEN,
            decreases lines@.len() - li,
        {
            let line = lines[li].clone();
            proof {
                crate::wrap::lemma_flatten_member_len(crate::wrap::lines_view(lines@), li as int);
                lemma_flow_unfold(lines@.len() as int, li as int, 0, y_top as int,
                    line_height as int, top_margin as int, bottom_y as int);
            }
            if y_line + line_height > bottom_y {
                page_counter = page_counter + 1;
                y_line = top_margin;
            } else {
                y_line = y_line + line_height;
            }
            if li == 0 && page_counter == 0 {
                let mut first_page: Vec<Vec<char>> = Vec::new();
                first_page.push(line);
                pages.push(first_page);
                proof {
                    assert(pages@.len() == 1);
                    assert(pages@[0]@.len() == 1);
                }
            } else if page_counter < pages.len() {
                let idx = page_counter;
                let ghost pre_pages = pages@;
                let mut group = pages.remove(idx);
                group.push(line);
                let ghost new_group = group;
                pages.insert(idx, group);
                proof {
                    pre_pages.remove_ensures(idx as int);
                    pre_pages.remove(idx as int).insert_ensures(idx as int, new_group);
                    assert(pages@ =~= pre_pages.update(idx as int, new_group));
                    assert forall|p: int| 0 <= p < pages@.len() implies
                        (#[trigger] pages@[p])@.len() <= li + 1 by {
                        if p != idx {
                            assert(pages@[p] == pre_pages[p]);
                        }
                    }
                }
            } else {
                // li == 0 with an immediate page break lands here too:
                // grow the page list up to the counter.
                while pages.len() < page_counter
                    invariant
                        pages@.len() <= page_counter,
                        forall|p: int| 0 <= p < pages@.len()
                            ==> (#[trigger] pages@[p])@.len() <= li,
                        forall|p: int| 0 <= p < pages@.len()
                            ==> forall|q: int| 0 <= q < (#[trigger] pages@[p])@.len()
                                ==> (#[trigger] pages@[p]@[q])@.len() <= MAX_TEXT_LEN,
                    decreases page_counter - pages@.len(),
                {
                    let empty_group: Vec<Vec<char>> = Vec::new();
                    pages.push(empty_group);
                }
                let ghost grown = pages@;
                let mut group: Vec<Vec<char>> = Vec::new();
                group.push(line);
                pages.push(group);
                proof {
                    assert forall|p: int| 0 <= p < pages@.len() implies
                        (#[trigger] pages@[p])@.len() <= li + 1 by {
                        if p < grown.len() {
                            assert(pages@[p] == grown[p]);
                        } else {
                            assert(pages@[p]@.len() == 1);
                        }
                    }
                }
            }
            li = li + 1;
        }

        let next_y_line = y_line;

        // Draw each page group; the first group starts at the original
        // cursor, later groups at the top margin.
        let mut y_start = y_top;
        let mut group_index: usize = 0;
        while group_index < pages.len()
            invariant
                0 <= group_index <= pages@.len(),
                pages@.len() <= 1 + page_counter,
                page_counter <= lines@.len(),
                lines@.len() <= 4 * MAX_TEXT_LEN + 1,
                current_page <= 1_000_000_000,
                0 <= line_height <= 1_000_000_000,
                coord_in_range(top_margin as i64),
                coord_in_range(y_top as i64),
                coord_in_range(y_start as i64),
                self.wf(),
                coord_in_range(base_pdf.height as i64),
                forall|p: int| 0 <= p < pages@.len()
                    ==> (#[trigger] pages@[p])@.len() <= lines@.len(),
                forall|p: int| 0 <= p < pages@.len()
                    ==> forall|q: int| 0 <= q < (#[trigger] pages@[p])@.len()
                        ==> (#[trigger] pages@[p]@[q])@.len() <= MAX_TEXT_LEN,
                buffer.buffer@.len() >= old(buffer).buffer@.len(),
                forall|i: int|
                    0 <= i < buffer.buffer@.len() ==>
                        spec_page_at(old(buffer).buffer@, i).len()
                            <= (#[trigger] buffer.buffer@[i]@).len()
                        && buffer.buffer@[i]@
                            .take(spec_page_at(old(buffer).buffer@, i).len() as int)
                            == spec_page_at(old(buffer).buffer@, i),
                forall|i: int|
                    0 <= i < buffer.buffer@.len()
                        && !(current_page <= i < current_page + group_index) ==>
                        buffer.buffer@[i]@
                            == #[trigger] spec_page_at(old(buffer).buffer@, i),
            decreases pages@.len() - group_index,
        {
            let group = &pages[group_index];
            let mut ops: Vec<DrawOp> = Vec::new();
            let mut index: usize = 0;
            while index < group.len()
                invariant
                    0 <= index <= group@.len(),
                    group@.len() <= lines@.len() + 1,
                    lines@.len() <= 4 * MAX_TEXT_LEN + 1,
                    0 <= line_height <= 1_000_000_000,
                    coord_in_range(y_start as i64),
                    self.wf(),
                    coord_in_range(base_pdf.height as i64),
                    forall|q: int| 0 <= q < group@.len()
                        ==> (#[trigger] group@[q])@.len() <= MAX_TEXT_LEN,
                decreases group@.len() - index,
            {
                proof {
                    assert(0 <= line_height * (index + 1)
                        <= 1_000_000_000 * (4 * MAX_TEXT_LEN as int + 3)) by (nonlinear_arith)
                        requires
                            0 <= line_height <= 1_000_000_000,
                            0 <= index + 1 <= 4 * MAX_TEXT_LEN as int + 3,
                    ;
                }
                let y_position = base_pdf.height - y_start
                    - line_height * ((index as i64) + 1);
                ops.push(DrawOp::SaveGraphicsState);
                ops.push(DrawOp::SetMatrixPivot {
                    x: self.base.x,
                    y: self.base.y,
                    width: self.base.width,
                    height: self.base.height,
                    rotate_mdeg: 0,
                });
                ops.push(DrawOp::StartTextSection);
                ops.push(DrawOp::SetLineHeight { height: line_height });
                ops.push(DrawOp::SetFillColor { color: crate::color::Rgb::black() });
                ops.push(DrawOp::SetFontSize {
                    font: clone_string(&self.font_name),
                    size: self.font_size,
                });
                ops.push(DrawOp::SetTextMatrix {
                    x: self.base.x,
                    y: y_position,
                    scale_x_milli: 1000,
                    scale_y_milli: 1000,
                });
                ops.push(DrawOp::SetCharacterSpacing { spacing: self.character_spacing });
                ops.push(DrawOp::WriteText {
                    font: clone_string(&self.font_name),
                    text: group[index].clone(),
                });
                ops.push(DrawOp::EndTextSection);
                ops.push(DrawOp::RestoreGraphicsState);
                index = index + 1;
            }
            let target_page = current_page + group_index;
            let ghost before = buffer.buffer@;
            buffer.insert(target_page, ops);
            proof {
                assert forall|i: int|
                    0 <= i < buffer.buffer@.len() implies
                        spec_page_at(old(buffer).buffer@, i).len()
                            <= (#[trigger] buffer.buffer@[i]@).len()
                        && buffer.buffer@[i]@
                            .take(spec_page_at(old(buffer).buffer@, i).len() as int)
                            == spec_page_at(old(buffer).buffer@, i) by {
                    if i != target_page {
                        assert(buffer.buffer@[i]@ == spec_page_at(before, i));
                        if i >= before.len() {
                            assert(spec_page_at(before, i) =~= Seq::<DrawOp>::empty());
                            assert(spec_page_at(old(buffer).buffer@, i)
                                =~= Seq::<DrawOp>::empty());
                            assert(buffer.buffer@[i]@
                                .take(spec_page_at(old(buffer).buffer@, i).len() as int)
                                =~= spec_page_at(old(buffer).buffer@, i));
                        }
                    } else {
                        assert(buffer.buffer@[i]@
                            .take(spec_page_at(before, i).len() as int)
                            =~= spec_page_at(before, i));
                        if i < before.len() {
                            assert(spec_page_at(before, i)
                                .take(spec_page_at(old(buffer).buffer@, i).len() as int)
                                == spec_page_at(old(buffer).buffer@, i));
                        } else {
                            assert(spec_page_at(before, i) =~= Seq::<DrawOp>::empty());
                            assert(spec_page_at(old(buffer).buffer@, i)
                                =~= Seq::<DrawOp>::empty());
                        }
                        assert(buffer.buffer@[i]@
                            .take(spec_page_at(old(buffer).buffer@, i).len() as int)
                            =~= spec_page_at(old(buffer).buffer@, i));
                    }
                }
                assert forall|i: int|
                    0 <= i < buffer.buffer@.len()
                        && !(current_page <= i < current_page + group_index + 1) implies
                        buffer.buffer@[i]@
                            == #[trigger] spec_page_at(old(buffer).buffer@, i) by {
                    assert(i != target_page);
                    assert(buffer.buffer@[i]@ == spec_page_at(before, i));
                    if i >= before.len() {
                        assert(spec_page_at(before, i) =~= Seq::<DrawOp>::empty());
                        assert(spec_page_at(old(buffer).buffer@, i)
                            =~= Seq::<DrawOp>::empty());
                    }
                }
            }
            y_start = top_margin;
            group_index = group_index + 1;
        }

        let pages_increased = if pages.len() > 0 { pages.len() - 1 } else { 0 };
        proof {
            lemma_flow_page_bound(lines@.len() as int, 0, y_top as int, line_height as int,
                top_margin as int, bottom_y as int);
        }
        let end_page = current_page + pages_increased;
        proof {
            if pages@.len() > 0 {
                assert(pages_increased == page_counter);
            } else {
                assert(lines@.len() == 0);
                assert((page_counter as int, next_y_line as int)
                    == spec_flow(0, 0, y_top as int, line_height as int, top_margin as int,
                        bottom_y as int));
            }
            lemma_flow_shift(lines@.len() as int, current_page as int, 0, y_top as int,
                line_height as int, top_margin as int, bottom_y as int);
            assert((end_page as int, next_y_line as int) == spec_flow(
                lines@.len() as int, current_page as int, y_top as int, line_height as int,
                top_margin as int, bottom_y as int));
            let start_y = (match current_top {
                Some(y) => y as int,
                None => self.base.y as int,
            });
            assert(start_y == y_top as int);
            assert((end_page as int, next_y_line as int) == spec_flow(
                lines@.len() as int, current_page as int, start_y,
                self.spec_line_step(), base_pdf.padding.top as int,
                base_pdf.height - base_pdf.padding.bottom));
            assert(spec_flow_of_wrap(font_map.spec_find(self.font_name@)->Some_0,
                self.content@, self.font_size as int, self.base.width as int,
                self.character_spacing as int, current_page as int, start_y,
                self.spec_line_step(), base_pdf.padding.top as int,
                base_pdf.height - base_pdf.padding.bottom,
                end_page as int, next_y_line as int)) by {
                assert(spec_wrap_of(font_map.spec_find(self.font_name@)->Some_0,
                    self.content@, self.font_size as int, self.base.width as int,
                    self.character_spacing as int, lines_view(lines@))
                    && (end_page as int, next_y_line as int) == spec_flow(
                        lines_view(lines@).len() as int, current_page as int, start_y,
                        self.spec_line_step(), base_pdf.padding.top as int,
                        base_pdf.height - base_pdf.padding.bottom));
            }
        }
        Ok((end_page, Some(next_y_line)))
    }

    /// The height of one flowed line: the font size under the region's
    /// line-height multiplier.
    pub open spec fn spec_line_step(self) -> int {
        self.font_size * (match self.line_height {
            Some(lh) => lh as int,
            None => 1000,
        }) / 1000
    }
}

/// Unfolds one flow step at position `i`.
proof fn lemma_flow_unfold(
    total: int,
    i: int,
    page: int,
    y: int,
    line_height: int,
    top_margin: int,
    bottom_y: int,
)
    requires
        0 <= i < total,
    ensures
        spec_flow(i + 1, page, y, line_height, top_margin, bottom_y)
            == {
                let (p, yy) = spec_flow(i, page, y, line_height, top_margin, bottom_y);
                spec_flow_step(p, yy, line_height, top_margin, bottom_y)
            },
    decreases i,
{
    let (p2, y2) = spec_flow_step(page, y, line_height, top_margin, bottom_y);
    if i > 0 {
        lemma_flow_unfold(total - 1, i - 1, p2, y2, line_height, top_margin, bottom_y);
    } else {
        assert(spec_flow(1, page, y, line_height, top_margin, bottom_y)
            == spec_flow(0, p2, y2, line_height, top_margin, bottom_y));
        assert(spec_flow(0, p2, y2, line_height, top_margin, bottom_y) == (p2, y2));
    }
}

/// The flow never moves the page index backward, nor further forward
/// than one page per line.
proof fn lemma_flow_page_bound(
    n: int,
    page: int,
    y: int,
    line_height: int,
    top_margin: int,
    bottom_y: int,
)
    requires
        n >= 0,
    ensures
        page <= spec_flow(n, page, y, line_height, top_margin, bottom_y).0 <= page + n,
    decreases n,
{
    if n > 0 {
        let (p2, y2) = spec_flow_step(page, y, line_height, top_margin, bottom_y);
        lemma_flow_page_bound(n - 1, p2, y2, line_height, top_margin, bottom_y);
    }
}

/// Flowing from a shifted page index shifts the result page index.
proof fn lemma_flow_shift(
    n: int,
    shift: int,
    page: int,
    y: int,
    line_height: int,
    top_margin: int,
    bottom_y: int,
)
    requires
        n >= 0,
    ensures
        spec_flow(n, page + shift, y, line_height, top_margin, bottom_y).0
            == spec_flow(n, page, y, line_height, top_margin, bottom_y).0 + shift,
        spec_flow(n, page + shift, y, line_height, top_margin, bottom_y).1
            == spec_flow(n, page, y, line_height, top_margin, bottom_y).1,
    decreases n,
{
    if n > 0 {
        let (p2, y2) = spec_flow_step(page, y, line_height, top_margin, bottom_y);
        assert(spec_flow_step(page + shift, y, line_height, top_margin, bottom_y)
            == (p2 + shift, y2));
        lemma_flow_shift(n - 1, shift, p2, y2, line_height, top_margin, bottom_y);
    }
}

} // verus!
