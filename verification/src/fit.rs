//! The font-size fitter: an iterative search that grows or shrinks a
//! font size, in fixed quarter-unit steps, until wrapped content fills
//! a box on a chosen axis without exceeding it.
//!
//! Content is handed to the fitter pre-segmented: a list of paragraphs,
//! each a list of word-like chunks, as the line breaker's segmenter
//! produces them.  At each candidate size the content is wrapped and
//! measured; the constrained-axis bound is the total line height for a
//! vertical fit and the widest line for a horizontal one.
//!
//! The search starts at the minimum, grows while the constrained axis
//! still has room (backing one step off when a step overshoots), then
//! shrinks while either axis overflows, and never leaves the closed
//! interval between the minimum and the maximum.

use vstd::prelude::*;
use crate::error::Error;
use crate::font::{FontMetrics, MAX_TEXT_LEN, MAX_FONT_SIZE, MAX_SPACING};
use crate::wrap::{
    lines_view, flatten_chars, spec_pack, pack_segments, pack_loop, pack_chars,
};

verus! {

/// The fixed search step: a quarter of a size unit, in thousandths.
pub const FONT_SIZE_STEP: i64 = 250;

/// The largest line-height multiplier, in thousandths, the fitter
/// accepts.
pub const MAX_LINE_HEIGHT: i64 = 100_000;

/// The largest packing budget (an upper bound on the number of wrapped
/// lines) a single fit may carry.
pub const MAX_PACK_BUDGET: i64 = 1_000_000;

/// Which axis a dynamic font size fills.
#[derive(Debug, Clone, Copy, PartialEq, Eq, Structural)]
pub enum DynamicFontSizeFit {
    Horizontal,
    Vertical,
}

/// A dynamic font size: a closed search interval and the axis to fill.
#[derive(Debug, Clone, Copy, PartialEq, Eq, Structural)]
pub struct DynamicFontSize {
    pub min: i64,
    pub max: i64,
    pub fit: DynamicFontSizeFit,
}

impl DynamicFontSize {
    /// A well-formed spec: a non-empty interval of representable sizes.
    pub open spec fn wf(self) -> bool {
        0 <= self.min <= self.max <= MAX_FONT_SIZE
    }

    pub fn new(min: i64, max: i64, fit: DynamicFontSizeFit) -> (r: DynamicFontSize)
        requires
            0 <= min <= max <= MAX_FONT_SIZE,
        ensures
            r.wf(),
            r.min == min && r.max == max && r.fit == fit,
    {
        DynamicFontSize { min, max, fit }
    }

    /// Whether the search should grow: the size is still below the
    /// maximum and the constrained-axis bound is strictly inside its
    /// box bound.
    pub fn should_font_grow_to_fit(
        &self,
        font_size: i64,
        width: i64,
        height: i64,
        total_width: i64,
        total_height: i64,
    ) -> (r: bool)
        ensures
            r == (font_size < self.max && (if self.fit is Horizontal {
                total_width < width
            } else {
                total_height < height
            })),
    {
        if font_size >= self.max {
            false
        } else if self.is_fit_horizontal() {
            total_width < width
        } else {
            total_height < height
        }
    }

    /// Whether the search should shrink: the size is still above the
    /// minimum (and positive) and a bound overflows its box on either
    /// axis.
    pub fn should_font_shrink_to_fit(
        &self,
        font_size: i64,
        width: i64,
        height: i64,
        total_width: i64,
        total_height: i64,
    ) -> (r: bool)
        ensures
            r == (font_size > self.min && font_size > 0
                && (total_width > width || total_height > height)),
    {
        if font_size <= self.min || font_size <= 0 {
            false
        } else {
            total_width > width || total_height > height
        }
    }

    /// The lower end of the search interval.
    pub fn get_min(&self) -> (r: i64)
        ensures
            r == self.min,
    {
        self.min
    }

    pub fn is_fit_vertical(&self) -> (r: bool)
        ensures
            r == (self.fit is Vertical),
    {
        match self.fit {
            DynamicFontSizeFit::Vertical => true,
            DynamicFontSizeFit::Horizontal => false,
        }
    }

    pub fn is_fit_horizontal(&self) -> (r: bool)
        ensures
            r == (self.fit is Horizontal),
    {
        match self.fit {
            DynamicFontSizeFit::Horizontal => true,
            DynamicFontSizeFit::Vertical => false,
        }
    }
}

/// A font size as a template declares it: fixed, or searched inside an
/// interval.
#[derive(Debug, Clone, Copy)]
pub enum FontSize {
    Fixed(i64),
    Dynamic(DynamicFontSize),
}

/// A font size as the template file carries it, before validation.
#[derive(Debug, Clone, Copy)]
pub enum JsonFontSize {
    Fixed(i64),
    Dynamic { min: i64, max: i64, fit: DynamicFontSizeFit },
}

/// Whether a declared font size is representable: a fixed size inside
/// the range, or a dynamic interval with `min <= max` inside it.
pub open spec fn spec_font_size_valid(json: JsonFontSize) -> bool {
    match json {
        JsonFontSize::Fixed(size) => 0 <= size <= MAX_FONT_SIZE,
        JsonFontSize::Dynamic { min, max, fit } =>
            0 <= min && max <= MAX_FONT_SIZE && min <= max,
    }
}

impl FontSize {
    /// Validates a declared font size: a fixed size must be a
    /// representable non-negative size, and a dynamic interval must
    /// satisfy `min <= max` inside the representable range.
    pub fn from_json(json: JsonFontSize) -> (r: Result<FontSize, Error>)
        ensures
            r is Ok <==> spec_font_size_valid(json),
            match json {
                JsonFontSize::Fixed(size) => {
                    if 0 <= size <= MAX_FONT_SIZE {
                        r == Result::<FontSize, Error>::Ok(FontSize::Fixed(size))
                    } else {
                        r == Result::<FontSize, Error>::Err(Error::ValueOutOfRange)
                    }
                },
                JsonFontSize::Dynamic { min, max, fit } => {
                    if !(0 <= min && max <= MAX_FONT_SIZE) {
                        r == Result::<FontSize, Error>::Err(Error::ValueOutOfRange)
                    } else if min > max {
                        r == Result::<FontSize, Error>::Err(Error::InvalidFontSize)
                    } else {
                        r == Result::<FontSize, Error>::Ok(
                            FontSize::Dynamic(DynamicFontSize { min, max, fit }))
                    }
                },
            },
    {
        match json {
            JsonFontSize::Fixed(size) => {
                if 0 <= size && size <= MAX_FONT_SIZE {
                    Ok(FontSize::Fixed(size))
                } else {
                    Err(Error::ValueOutOfRange)
                }
            }
            JsonFontSize::Dynamic { min, max, fit } => {
                if !(0 <= min && max <= MAX_FONT_SIZE) {
                    Err(Error::ValueOutOfRange)
                } else if min > max {
                    Err(Error::InvalidFontSize)
                } else {
                    Ok(FontSize::Dynamic(DynamicFontSize { min, max, fit }))
                }
            }
        }
    }
}

/// The views of a paragraph list: each paragraph a list of chunks.
pub open spec fn paragraphs_view(paragraphs: Seq<Vec<Vec<char>>>) -> Seq<Seq<Seq<char>>> {
    paragraphs.map(|i: int, p: Vec<Vec<char>>| lines_view(p@))
}

/// The height of one wrapped line at a size under a line-height
/// multiplier in thousandths.
pub open spec fn spec_line_step(size: int, line_height_milli: int) -> int {
    size * line_height_milli / 1000
}

/// How many lines wrapping the paragraphs at a size produces.
pub open spec fn spec_line_count(
    font: FontMetrics,
    paragraphs: Seq<Seq<Seq<char>>>,
    size: int,
    box_width: int,
    spacing: int,
) -> int
    decreases paragraphs.len(),
{
    if paragraphs.len() == 0 {
        0
    } else {
        spec_pack(font, paragraphs[0], size, box_width, spacing).len()
            + spec_line_count(font, paragraphs.drop_first(), size, box_width, spacing)
    }
}

/// The widest measured line of a wrapped line list.
pub open spec fn spec_max_line_width(
    font: FontMetrics,
    lines: Seq<Seq<char>>,
    size: int,
    spacing: int,
) -> int
    decreases lines.len(),
{
    if lines.len() == 0 {
        0
    } else {
        let head = font.spec_width_of(lines[0], size, spacing);
        let rest = spec_max_line_width(font, lines.drop_first(), size, spacing);
        if head >= rest {
            head
        } else {
            rest
        }
    }
}

/// The widest line over all wrapped paragraphs at a size.
pub open spec fn spec_content_width(
    font: FontMetrics,
    paragraphs: Seq<Seq<Seq<char>>>,
    size: int,
    box_width: int,
    spacing: int,
) -> int
    decreases paragraphs.len(),
{
    if paragraphs.len() == 0 {
        0
    } else {
        let head = spec_max_line_width(
            font, spec_pack(font, paragraphs[0], size, box_width, spacing), size, spacing);
        let rest = spec_content_width(
            font, paragraphs.drop_first(), size, box_width, spacing);
        if head >= rest {
            head
        } else {
            rest
        }
    }
}

/// The total height of the wrapped content at a size: the line count
/// times the per-line height.
pub open spec fn spec_content_height(
    font: FontMetrics,
    paragraphs: Seq<Seq<Seq<char>>>,
    size: int,
    box_width: int,
    spacing: int,
    line_height_milli: int,
) -> int {
    spec_line_count(font, paragraphs, size, box_width, spacing)
        * spec_line_step(size, line_height_milli)
}

/// The packing budget of a paragraph list: an upper bound on the lines
/// wrapping can produce, from the chunk and character counts alone.
pub open spec fn spec_pack_budget(paragraphs: Seq<Seq<Seq<char>>>) -> int
    decreases paragraphs.len(),
{
    if paragraphs.len() == 0 {
        0
    } else {
        2 * paragraphs[0].len() + flatten_chars(paragraphs[0]).len() + 1
            + spec_pack_budget(paragraphs.drop_first())
    }
}

/// What the fitter requires of its content and style inputs.
pub open spec fn fit_inputs_ok(
    font: FontMetrics,
    paragraphs: Seq<Seq<Seq<char>>>,
    spacing: int,
    line_height_milli: int,
    box_width: int,
    box_height: int,
) -> bool {
    font.wf()
    && (forall|p: int| 0 <= p < paragraphs.len()
        ==> flatten_chars(#[trigger] paragraphs[p]).len() <= MAX_TEXT_LEN)
    && spec_pack_budget(paragraphs) <= MAX_PACK_BUDGET
    && 0 <= spacing <= MAX_SPACING
    && 0 <= line_height_milli <= MAX_LINE_HEIGHT
    && 0 <= box_width <= 0x4000_0000_0000
    && 0 <= box_height <= 1_000_000_000_000_000
}

/// Packing a chunk character by character opens at most one line per
/// character.
proof fn lemma_pack_chars_count(
    font: FontMetrics,
    box_scaled: int,
    size: int,
    spacing: int,
    lines: Seq<Seq<char>>,
    cur: Seq<char>,
    open: bool,
    chars: Seq<char>,
)
    ensures
        pack_chars(font, box_scaled, size, spacing, lines, cur, open, chars).0.len()
            <= lines.len() + chars.len(),
    decreases chars.len(),
{
    if chars.len() > 0 {
        let ch = chars[0];
        if open && font.spec_width_scaled(cur.push(ch), size, spacing) <= box_scaled {
            lemma_pack_chars_count(font, box_scaled, size, spacing, lines, cur.push(ch),
                open, chars.drop_first());
        } else {
            let closed = if open { lines.push(cur) } else { lines };
            lemma_pack_chars_count(font, box_scaled, size, spacing, closed, seq![ch],
                true, chars.drop_first());
        }
    }
}

/// Packing a chunk list opens at most two lines per chunk plus one per
/// character.
proof fn lemma_pack_loop_count(
    font: FontMetrics,
    box_scaled: int,
    size: int,
    spacing: int,
    lines: Seq<Seq<char>>,
    cur: Seq<char>,
    open: bool,
    segs: Seq<Seq<char>>,
)
    ensures
        pack_loop(font, box_scaled, size, spacing, lines, cur, open, segs).0.len()
            <= lines.len() + 2 * segs.len() + flatten_chars(segs).len(),
    decreases segs.len(),
{
    if segs.len() > 0 {
        let seg = segs[0];
        assert(flatten_chars(segs) == seg + flatten_chars(segs.drop_first()));
        if seg.len() == 0 {
            let closed = if open { lines.push(cur) } else { lines };
            lemma_pack_loop_count(font, box_scaled, size, spacing,
                closed.push(Seq::empty()), Seq::empty(), false, segs.drop_first());
        } else if font.spec_width_scaled(cur + seg, size, spacing) <= box_scaled {
            lemma_pack_loop_count(font, box_scaled, size, spacing, lines, cur + seg, true,
                segs.drop_first());
        } else if font.spec_width_scaled(seg, size, spacing) <= box_scaled {
            let closed = if open { lines.push(cur) } else { lines };
            lemma_pack_loop_count(font, box_scaled, size, spacing, closed, seg, true,
                segs.drop_first());
        } else {
            let (l2, c2, o2) = pack_chars(font, box_scaled, size, spacing, lines, cur,
                open, seg);
            lemma_pack_chars_count(font, box_scaled, size, spacing, lines, cur, open, seg);
            lemma_pack_loop_count(font, box_scaled, size, spacing, l2, c2, o2,
                segs.drop_first());
        }
    }
}

/// The wrapped line count of a chunk list stays within its packing
/// budget.
pub proof fn lemma_spec_pack_count(
    font: FontMetrics,
    segs: Seq<Seq<char>>,
    size: int,
    box_width: int,
    spacing: int,
)
    ensures
        0 <= spec_pack(font, segs, size, box_width, spacing).len()
            <= 2 * segs.len() + flatten_chars(segs).len() + 1,
{
    lemma_pack_loop_count(font, box_width * font.units_per_em as int, size, spacing,
        Seq::empty(), Seq::empty(), false, segs);
}

/// Wraps every paragraph at a size and measures the result: the widest
/// line, and the total height as the line count times the per-line
/// height.
pub fn calculate_constraints(
    font: &FontMetrics,
    paragraphs: &Vec<Vec<Vec<char>>>,
    font_size: i64,
    line_height_milli: i64,
    character_spacing: i64,
    box_width: i64,
) -> (r: (i64, i64))
    requires
        fit_inputs_ok(*font, paragraphs_view(paragraphs@), character_spacing as int,
            line_height_milli as int, box_width as int, 0),
        0 <= font_size <= MAX_FONT_SIZE,
    ensures
        r.0 == spec_content_width(*font, paragraphs_view(paragraphs@), font_size as int,
            box_width as int, character_spacing as int),
        r.1 == spec_content_height(*font, paragraphs_view(paragraphs@), font_size as int,
            box_width as int, character_spacing as int, line_height_milli as int),
        r.0 >= 0,
        r.1 >= 0,
{
    let ghost pviews = paragraphs_view(paragraphs@);
    proof {
        assert(0 <= font_size * line_height_milli
            <= MAX_FONT_SIZE as int * MAX_LINE_HEIGHT as int) by (nonlinear_arith)
            requires
                0 <= font_size <= MAX_FONT_SIZE,
                0 <= line_height_milli <= MAX_LINE_HEIGHT,
        ;
    }
    let line_step: i64 = font_size * line_height_milli / 1000;
    proof {
        assert(line_step == spec_line_step(font_size as int, line_height_milli as int));
        assert(0 <= line_step <= 1_000_000_000);
    }
    let mut max_width: i64 = 0;
    let mut count: i64 = 0;
    let mut p: usize = 0;
    proof {
        assert(pviews.skip(0) =~= pviews);
        lemma_budget_nonneg(pviews);
    }
    while p < paragraphs.len()
        invariant
            0 <= p <= paragraphs@.len(),
            max_width == spec_content_width(*font, pviews.take(p as int), font_size as int,
                box_width as int, character_spacing as int),
            count == spec_line_count(*font, pviews.take(p as int), font_size as int,
                box_width as int, character_spacing as int),
            max_width >= 0,
            0 <= count <= spec_pack_budget(pviews.take(p as int)),
            spec_pack_budget(pviews.take(p as int)) + spec_pack_budget(pviews.skip(p as int))
                == spec_pack_budget(pviews),
        decreases paragraphs@.len() - p,
    {
        let ghost pv = pviews[p as int];
        proof {
            assert(pviews.skip(p as int)[0] == pv);
            assert(pviews.skip(p as int).drop_first() =~= pviews.skip(p as int + 1));
            lemma_budget_nonneg(pviews.skip(p as int + 1));
            lemma_budget_nonneg(pviews.take(p as int));
        }
        let paragraph = &paragraphs[p];
        assert(lines_view(paragraph@) == pv);
        let lines = pack_segments(font, paragraph, font_size, box_width, character_spacing);
        let ghost lv = lines_view(lines@);
        proof {
            lemma_spec_pack_count(*font, pv, font_size as int, box_width as int,
                character_spacing as int);
            assert(lv.len() <= 2 * pv.len() + flatten_chars(pv).len() + 1);
        }
        let mut li: usize = 0;
        proof {
            assert(lv.skip(0) =~= lv);
            lemma_max_line_width_nonneg(*font, lv, font_size as int, character_spacing as int);
        }
        let mut para_width: i64 = 0;
        while li < lines.len()
            invariant
                0 <= li <= lines@.len(),
                lv == lines_view(lines@),
                para_width >= 0,
                spec_max_line_width(*font, lv, font_size as int, character_spacing as int)
                    == spec_max_of(para_width as int,
                        spec_max_line_width(*font, lv.skip(li as int), font_size as int,
                            character_spacing as int)),
            decreases lines@.len() - li,
        {
            proof {
                assert(lv.skip(li as int)[0] == lines@[li as int]@);
                assert(lv.skip(li as int).drop_first() =~= lv.skip(li as int + 1));
                crate::wrap::lemma_flatten_member_len(lv, li as int);
            }
            let line = &lines[li];
            let line_width = font.width_of_text_at_size(line, font_size, character_spacing);
            proof {
                assert(spec_max_line_width(*font, lv.skip(li as int), font_size as int,
                    character_spacing as int)
                    == spec_max_of(line_width as int,
                        spec_max_line_width(*font, lv.skip(li as int + 1), font_size as int,
                            character_spacing as int)));
            }
            if line_width > para_width {
                para_width = line_width;
            }
            li = li + 1;
        }
        proof {
            assert(lv.skip(lines@.len() as int) =~= Seq::<Seq<char>>::empty());
            assert(spec_max_line_width(*font, lv, font_size as int, character_spacing as int)
                == para_width);
            assert(pviews.take(p as int + 1).drop_last() =~= pviews.take(p as int));
            assert(pviews.take(p as int + 1).last() == pv);
            lemma_content_measures_step(*font, pviews, p as int, font_size as int,
                box_width as int, character_spacing as int);
        }
        if para_width > max_width {
            max_width = para_width;
        }
        count = count + lines.len() as i64;
        p = p + 1;
    }
    proof {
        assert(pviews.take(paragraphs@.len() as int) =~= pviews);
        assert(0 <= count * line_step
            <= MAX_PACK_BUDGET as int * 1_000_000_000) by (nonlinear_arith)
            requires
                0 <= count <= MAX_PACK_BUDGET,
                0 <= line_step <= 1_000_000_000,
        ;
    }
    let total_height: i64 = count * line_step;
    (max_width, total_height)
}

/// The larger of two values.
pub open spec fn spec_max_of(a: int, b: int) -> int {
    if a >= b {
        a
    } else {
        b
    }
}

/// A width maximum is never negative for non-negative size and spacing.
proof fn lemma_max_line_width_nonneg(
    font: FontMetrics,
    lines: Seq<Seq<char>>,
    size: int,
    spacing: int,
)
    requires
        font.wf(),
        size >= 0,
        spacing >= 0,
    ensures
        spec_max_line_width(font, lines, size, spacing) >= 0,
    decreases lines.len(),
{
    if lines.len() > 0 {
        crate::wrap::lemma_width_scaled_nonneg(font, lines[0], size, spacing);
        lemma_max_line_width_nonneg(font, lines.drop_first(), size, spacing);
    }
}

/// A packing budget is never negative.
proof fn lemma_budget_nonneg(paragraphs: Seq<Seq<Seq<char>>>)
    ensures
        spec_pack_budget(paragraphs) >= 0,
    decreases paragraphs.len(),
{
    if paragraphs.len() > 0 {
        lemma_budget_nonneg(paragraphs.drop_first());
    }
}

/// Taking one more paragraph extends the width maximum and line count
/// by that paragraph's measures, and moves its budget across the
/// prefix boundary.
proof fn lemma_content_measures_step(
    font: FontMetrics,
    paragraphs: Seq<Seq<Seq<char>>>,
    p: int,
    size: int,
    box_width: int,
    spacing: int,
)
    requires
        0 <= p < paragraphs.len(),
    ensures
        spec_line_count(font, paragraphs.take(p + 1), size, box_width, spacing)
            == spec_line_count(font, paragraphs.take(p), size, box_width, spacing)
                + spec_pack(font, paragraphs[p], size, box_width, spacing).len(),
        spec_content_width(font, paragraphs.take(p + 1), size, box_width, spacing)
            == spec_max_of(
                spec_content_width(font, paragraphs.take(p), size, box_width, spacing),
                spec_max_line_width(font,
                    spec_pack(font, paragraphs[p], size, box_width, spacing), size, spacing)),
        spec_pack_budget(paragraphs.take(p + 1))
            == spec_pack_budget(paragraphs.take(p))
                + 2 * paragraphs[p].len() + flatten_chars(paragraphs[p]).len() + 1,
    decreases p,
{
    if p == 0 {
        assert(paragraphs.take(1).drop_first() =~= Seq::<Seq<Seq<char>>>::empty());
        assert(paragraphs.take(1)[0] == paragraphs[0]);
        assert(paragraphs.take(0) =~= Seq::<Seq<Seq<char>>>::empty());
    } else {
        assert(paragraphs.take(p + 1).drop_first() =~= paragraphs.drop_first().take(p));
        assert(paragraphs.take(p).drop_first() =~= paragraphs.drop_first().take(p - 1));
        assert(paragraphs.take(p + 1)[0] == paragraphs[0]);
        assert(paragraphs.take(p)[0] == paragraphs[0]);
        assert(paragraphs.drop_first()[p - 1] == paragraphs[p]);
        lemma_content_measures_step(font, paragraphs.drop_first(), p - 1, size, box_width,
            spacing);
    }
}

/// Whether the wrapped content fits both box bounds at a size.
pub open spec fn spec_fits(
    font: FontMetrics,
    paragraphs: Seq<Seq<Seq<char>>>,
    size: int,
    box_width: int,
    box_height: int,
    spacing: int,
    line_height_milli: int,
) -> bool {
    spec_content_width(font, paragraphs, size, box_width, spacing) <= box_width
    && spec_content_height(font, paragraphs, size, box_width, spacing, line_height_milli)
        <= box_height
}

/// The constrained-axis bound of the wrapped content at a size.
pub open spec fn spec_axis_bound(
    font: FontMetrics,
    paragraphs: Seq<Seq<Seq<char>>>,
    size: int,
    box_width: int,
    spacing: int,
    line_height_milli: int,
    fit: DynamicFontSizeFit,
) -> int {
    if fit is Horizontal {
        spec_content_width(font, paragraphs, size, box_width, spacing)
    } else {
        spec_content_height(font, paragraphs, size, box_width, spacing, line_height_milli)
    }
}

/// The box bound of the constrained axis.
pub open spec fn spec_axis_box(box_width: int, box_height: int, fit: DynamicFontSizeFit) -> int {
    if fit is Horizontal {
        box_width
    } else {
        box_height
    }
}

/// The fitter's law for a chosen size over segmented content: the
/// size stays in the closed interval; the content fits both box bounds
/// at it, except that even the minimum may overflow, in which case the
/// minimum is returned; and whenever the content fits and one more
/// step stays inside the interval and the constrained axis does not
/// already exactly fill its box bound, that one step up no longer
/// fits — the result is the largest stepped size that fits.
pub open spec fn spec_fit_law(
    font: FontMetrics,
    dynamic: DynamicFontSize,
    paragraphs: Seq<Seq<Seq<char>>>,
    line_height_milli: int,
    spacing: int,
    box_width: int,
    box_height: int,
    r: int,
) -> bool {
    &&& dynamic.min <= r <= dynamic.max
    &&& (spec_fits(font, paragraphs, r, box_width, box_height, spacing, line_height_milli)
        || r == dynamic.min)
    &&& (spec_fits(font, paragraphs, r, box_width, box_height, spacing, line_height_milli)
        || !spec_fits(font, paragraphs, dynamic.min as int, box_width, box_height, spacing,
            line_height_milli))
    &&& ((spec_fits(font, paragraphs, r, box_width, box_height, spacing, line_height_milli)
        && r + FONT_SIZE_STEP <= dynamic.max
        && spec_axis_bound(font, paragraphs, r, box_width, spacing, line_height_milli,
            dynamic.fit) != spec_axis_box(box_width, box_height, dynamic.fit))
        ==> !spec_fits(font, paragraphs, r + FONT_SIZE_STEP, box_width, box_height,
            spacing, line_height_milli))
}

/// Whether a size is a lawful fit of a text's content: the fitter's
/// law holds for it over some faithful segmentation of the text.
pub open spec fn spec_fitted_size(
    font: FontMetrics,
    dynamic: DynamicFontSize,
    content: Seq<char>,
    line_height_milli: int,
    spacing: int,
    box_width: int,
    box_height: int,
    r: int,
) -> bool {
    exists|paragraphs: Seq<Seq<Seq<char>>>|
        crate::wrap::is_segmentation(content, paragraphs)
        && #[trigger] spec_fit_law(font, dynamic, paragraphs, line_height_milli, spacing,
            box_width, box_height, r)
}

/// Searches for the font size at which the wrapped content fills the
/// box on the constrained axis without exceeding it.
///
/// The law of fit monotonicity (`spec_fit_law`): the returned size
/// stays in the closed interval, stepping from the minimum in fixed
/// quarter-unit steps; the content fits both box bounds at the
/// returned size unless even the minimum overflows; and whenever the
/// content fits, one more step stays inside the interval, and the
/// constrained axis does not already exactly fill its box, that one
/// step up would no longer fit.
#[verifier::loop_isolation(true)]
pub fn calculate_dynamic_font_size(
    font: &FontMetrics,
    dynamic: &DynamicFontSize,
    paragraphs: &Vec<Vec<Vec<char>>>,
    line_height_milli: i64,
    character_spacing: i64,
    box_width: i64,
    box_height: i64,
) -> (r: i64)
    requires
        dynamic.wf(),
        fit_inputs_ok(*font, paragraphs_view(paragraphs@), character_spacing as int,
            line_height_milli as int, box_width as int, box_height as int),
    ensures
        spec_fit_law(*font, *dynamic, paragraphs_view(paragraphs@),
            line_height_milli as int, character_spacing as int, box_width as int,
            box_height as int, r as int),
{
    let ghost pviews = paragraphs_view(paragraphs@);
    let mut font_size: i64 = dynamic.min;
    let (mut total_width, mut total_height) = calculate_constraints(
        font, paragraphs, font_size, line_height_milli, character_spacing, box_width);

    while dynamic.should_font_grow_to_fit(
        font_size, box_width, box_height, total_width, total_height)
        invariant_except_break
            dynamic.wf(),
            fit_inputs_ok(*font, pviews, character_spacing as int,
                line_height_milli as int, box_width as int, box_height as int),
            pviews == paragraphs_view(paragraphs@),
            dynamic.min <= font_size <= dynamic.max,
            (font_size as int - dynamic.min as int) % (FONT_SIZE_STEP as int) == 0,
            total_width == spec_content_width(*font, pviews, font_size as int,
                box_width as int, character_spacing as int),
            total_height == spec_content_height(*font, pviews, font_size as int,
                box_width as int, character_spacing as int, line_height_milli as int),
        ensures
            dynamic.min <= font_size <= dynamic.max,
            (font_size as int - dynamic.min as int) % (FONT_SIZE_STEP as int) == 0,
            total_width == spec_content_width(*font, pviews, font_size as int,
                box_width as int, character_spacing as int),
            total_height == spec_content_height(*font, pviews, font_size as int,
                box_width as int, character_spacing as int, line_height_milli as int),
            font_size + FONT_SIZE_STEP > dynamic.max
                || spec_axis_bound(*font, pviews, font_size as int, box_width as int,
                    character_spacing as int, line_height_milli as int, dynamic.fit)
                    >= spec_axis_box(box_width as int, box_height as int, dynamic.fit)
                || spec_axis_bound(*font, pviews, font_size as int + FONT_SIZE_STEP,
                    box_width as int, character_spacing as int, line_height_milli as int,
                    dynamic.fit)
                    > spec_axis_box(box_width as int, box_height as int, dynamic.fit),
        decreases dynamic.max - font_size,
    {
        if font_size + FONT_SIZE_STEP > dynamic.max {
            // The next step would leave the closed interval: the
            // search never does.
            break;
        }
        let stepped = font_size + FONT_SIZE_STEP;
        let (new_width, new_height) = calculate_constraints(
            font, paragraphs, stepped, line_height_milli, character_spacing, box_width);
        let new_bound = if dynamic.is_fit_vertical() { new_height } else { new_width };
        let box_bound = if dynamic.is_fit_vertical() { box_height } else { box_width };
        if new_bound > box_bound {
            // Overshot: back one step off and stop growing.
            break;
        } else {
            font_size = stepped;
            total_width = new_width;
            total_height = new_height;
        }
    }

    let ghost after_grow = font_size as int;
    let ghost grow_exit_fact = font_size + FONT_SIZE_STEP > dynamic.max
        || spec_axis_bound(*font, pviews, font_size as int, box_width as int,
            character_spacing as int, line_height_milli as int, dynamic.fit)
            >= spec_axis_box(box_width as int, box_height as int, dynamic.fit)
        || spec_axis_bound(*font, pviews, font_size as int + FONT_SIZE_STEP,
            box_width as int, character_spacing as int, line_height_milli as int,
            dynamic.fit)
            > spec_axis_box(box_width as int, box_height as int, dynamic.fit);
    let ghost mut moved_down = false;

    while dynamic.should_font_shrink_to_fit(
        font_size, box_width, box_height, total_width, total_height)
        invariant
            dynamic.wf(),
            fit_inputs_ok(*font, pviews, character_spacing as int,
                line_height_milli as int, box_width as int, box_height as int),
            pviews == paragraphs_view(paragraphs@),
            dynamic.min <= font_size <= dynamic.max,
            (font_size as int - dynamic.min as int) % (FONT_SIZE_STEP as int) == 0,
            total_width == spec_content_width(*font, pviews, font_size as int,
                box_width as int, character_spacing as int),
            total_height == spec_content_height(*font, pviews, font_size as int,
                box_width as int, character_spacing as int, line_height_milli as int),
            !moved_down ==> font_size as int == after_grow && grow_exit_fact,
            moved_down ==> {
                &&& font_size + FONT_SIZE_STEP <= dynamic.max
                &&& !spec_fits(*font, pviews, font_size as int + FONT_SIZE_STEP,
                    box_width as int, box_height as int, character_spacing as int,
                    line_height_milli as int)
            },
        decreases font_size - dynamic.min,
    {
        let previous = font_size;
        proof {
            // Every visited size sits on the step grid above the
            // minimum, so a downward step never crosses it.
            assert(font_size - FONT_SIZE_STEP >= dynamic.min);
        }
        font_size = font_size - FONT_SIZE_STEP;
        let (w, h) = calculate_constraints(
            font, paragraphs, font_size, line_height_milli, character_spacing, box_width);
        total_width = w;
        total_height = h;
        proof {
            moved_down = true;
            assert(previous == font_size + FONT_SIZE_STEP);
            assert(!spec_fits(*font, pviews, previous as int, box_width as int,
                box_height as int, character_spacing as int, line_height_milli as int));
        }
    }

    proof {
        let fits_r = spec_fits(*font, pviews, font_size as int, box_width as int,
            box_height as int, character_spacing as int, line_height_milli as int);
        if !fits_r {
            // The shrink loop only stops short of a fit at the minimum.
            assert(font_size == dynamic.min);
        }
        if fits_r && font_size + FONT_SIZE_STEP <= dynamic.max
            && spec_axis_bound(*font, pviews, font_size as int, box_width as int,
                character_spacing as int, line_height_milli as int, dynamic.fit)
                != spec_axis_box(box_width as int, box_height as int, dynamic.fit) {
            if !moved_down {
                assert(grow_exit_fact);
            }
        }
    }
    font_size
}

} // verus!
