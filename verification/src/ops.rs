//! The drawing-instruction vocabulary the layout engine targets, and
//! the page-indexed buffer those instructions accumulate in.
//!
//! The external document writer consumes exactly these instructions:
//! state save/restore, matrix set, color and stroke state, text runs,
//! polygon draws, and embedded-object placement.  Transform matrices
//! that involve rotation are kept symbolic (placement box plus an angle
//! in millidegrees); the writer evaluates the trigonometry.

use vstd::prelude::*;
use crate::color::Rgb;

verus! {

/// How a polygon is painted.
#[derive(Debug, Clone, Copy, PartialEq, Eq, Structural)]
pub enum PaintMode {
    Fill,
    Stroke,
    FillStroke,
}

/// One vertex of a polygon; `bezier` marks curve control points.
#[derive(Debug, Clone, Copy, PartialEq, Eq, Structural)]
pub struct PolyPoint {
    pub x: i64,
    pub y: i64,
    pub bezier: bool,
}

/// A placement of an embedded object: a translation, an exact rational
/// scale per axis, and the pixel density the scale was computed
/// against.
#[derive(Debug, Clone, Copy, PartialEq, Eq, Structural)]
pub struct FitTransform {
    pub translate_x: i64,
    pub translate_y: i64,
    pub scale_x_num: i64,
    pub scale_x_den: i64,
    pub scale_y_num: i64,
    pub scale_y_den: i64,
    pub dpi: u32,
}

/// What an embedded-object draw refers to.  Raster images and vector
/// graphics are decoded outside the engine and referred to by the
/// handle the caller registered them under; a code symbol carries the
/// payload the symbol generator will encode.
#[derive(Debug, Clone, PartialEq, Eq)]
pub enum EmbedSource {
    Raster { handle: usize },
    Vector { handle: usize },
    CodeSymbol { payload: Vec<char> },
}

/// One drawing instruction for the external document writer.
#[derive(Debug, Clone)]
pub enum DrawOp {
    SaveGraphicsState,
    RestoreGraphicsState,
    /// Sets the current transform to a center-pivot placement: the box
    /// at `(x, y)` sized `width` by `height`, rotated by `rotate_mdeg`
    /// millidegrees about its center.
    SetMatrixPivot { x: i64, y: i64, width: i64, height: i64, rotate_mdeg: i64 },
    /// Sets the text matrix to a translation with an optional per-axis
    /// scale in thousandths (1000 is unscaled).
    SetTextMatrix { x: i64, y: i64, scale_x_milli: i64, scale_y_milli: i64 },
    SetFillColor { color: Rgb },
    SetOutlineColor { color: Rgb },
    SetOutlineThickness { thickness: i64 },
    SetLineHeight { height: i64 },
    SetFontSize { font: String, size: i64 },
    SetCharacterSpacing { spacing: i64 },
    StartTextSection,
    EndTextSection,
    WriteText { font: String, text: Vec<char> },
    DrawPolygon { points: Vec<PolyPoint>, mode: PaintMode },
    UseEmbedded { source: EmbedSource, transform: FitTransform },
}

/// An append-only, page-indexed sequence of drawing-instruction lists.
/// Inserting at a page that does not yet exist grows the buffer,
/// filling intermediate pages with empty lists.
#[derive(Debug, Clone)]
pub struct OpBuffer {
    pub buffer: Vec<Vec<DrawOp>>,
}

impl OpBuffer {
    pub fn new() -> (r: OpBuffer)
        ensures
            r.buffer@.len() == 0,
    {
        OpBuffer { buffer: Vec::new() }
    }

    /// Creates an empty buffer; the capacity hint only pre-allocates.
    pub fn with_capacity(capacity: usize) -> (r: OpBuffer)
        ensures
            r.buffer@.len() == 0,
    {
        OpBuffer { buffer: Vec::with_capacity(capacity) }
    }

    /// The number of pages the buffer holds.
    pub fn page_count(&self) -> (r: usize)
        ensures
            r == self.buffer@.len(),
    {
        self.buffer.len()
    }

    /// Drops every page.
    pub fn clear(&mut self)
        ensures
            final(self).buffer@.len() == 0,
    {
        self.buffer.clear();
    }

    /// Appends instructions to the given page, growing the buffer with
    /// empty pages up to and including that index first.  Pages other
    /// than `page` keep their instructions; page `page` gains exactly
    /// `ops` at its end.
    pub fn insert(&mut self, page: usize, ops: Vec<DrawOp>)
        requires
            page < usize::MAX,
        ensures
            final(self).buffer@.len() == if page + 1 >= old(self).buffer@.len() {
                page + 1
            } else {
                old(self).buffer@.len() as int
            },
            forall|i: int| 0 <= i < final(self).buffer@.len() && i != page ==>
                final(self).buffer@[i]@ == #[trigger] spec_page_at(old(self).buffer@, i),
            final(self).buffer@[page as int]@
                == spec_page_at(old(self).buffer@, page as int) + ops@,
    {
        let ghost old_buf = self.buffer@;
        if page >= self.buffer.len() {
            let needed = page + 1;
            while self.buffer.len() < needed
                invariant
                    needed == page + 1,
                    old_buf.len() <= self.buffer@.len() <= needed,
                    forall|i: int| 0 <= i < old_buf.len() ==>
                        self.buffer@[i]@ == #[trigger] spec_page_at(old_buf, i),
                    forall|i: int| old_buf.len() <= i < self.buffer@.len() ==>
                        self.buffer@[i]@ == #[trigger] spec_page_at(old_buf, i),
                decreases needed - self.buffer@.len(),
            {
                self.buffer.push(Vec::new());
            }
        }
        let mut added = ops;
        let mut target = self.buffer.remove(page);
        target.append(&mut added);
        self.buffer.insert(page, target);
        proof {
            assert forall|i: int| 0 <= i < final(self).buffer@.len() && i != page implies
                final(self).buffer@[i]@ == #[trigger] spec_page_at(old_buf, i) by {
            }
        }
    }
}

/// The instructions on page `i` of a buffer, the empty list when the
/// page does not exist yet.
pub open spec fn spec_page_at(pages: Seq<Vec<DrawOp>>, i: int) -> Seq<DrawOp> {
    if 0 <= i < pages.len() {
        pages[i]@
    } else {
        Seq::empty()
    }
}


/// Whether a page list only extends another: no page shrank, no
/// already-emitted instruction changed.
pub open spec fn pages_extend(before: Seq<Vec<DrawOp>>, after: Seq<Vec<DrawOp>>) -> bool {
    after.len() >= before.len()
    && forall|i: int| 0 <= i < after.len() ==>
        spec_page_at(before, i).len() <= (#[trigger] after[i]@).len()
        && after[i]@.take(spec_page_at(before, i).len() as int) == spec_page_at(before, i)
}

/// Extension is reflexive.
pub proof fn lemma_pages_extend_refl(a: Seq<Vec<DrawOp>>)
    ensures
        pages_extend(a, a),
{
    assert forall|i: int| 0 <= i < a.len() implies
        spec_page_at(a, i).len() <= (#[trigger] a[i]@).len()
        && a[i]@.take(spec_page_at(a, i).len() as int) == spec_page_at(a, i) by {
        assert(a[i]@.take(a[i]@.len() as int) =~= a[i]@);
    }
}

/// Extension is transitive.
pub proof fn lemma_pages_extend_trans(
    a: Seq<Vec<DrawOp>>,
    b: Seq<Vec<DrawOp>>,
    c: Seq<Vec<DrawOp>>,
)
    requires
        pages_extend(a, b),
        pages_extend(b, c),
    ensures
        pages_extend(a, c),
{
    assert forall|i: int| 0 <= i < c.len() implies
        spec_page_at(a, i).len() <= (#[trigger] c[i]@).len()
        && c[i]@.take(spec_page_at(a, i).len() as int) == spec_page_at(a, i) by {
        if i < b.len() {
            assert(b[i]@.take(spec_page_at(a, i).len() as int) == spec_page_at(a, i));
            assert(c[i]@.take(spec_page_at(b, i).len() as int) == spec_page_at(b, i));
            assert(spec_page_at(b, i) == b[i]@);
            assert(spec_page_at(a, i).len() <= b[i]@.len());
            assert(b[i]@.len() <= c[i]@.len());
            assert(c[i]@.take(spec_page_at(a, i).len() as int)
                =~= c[i]@.take(b[i]@.len() as int).take(spec_page_at(a, i).len() as int));
        } else {
            assert(spec_page_at(a, i) =~= Seq::<DrawOp>::empty());
            assert(c[i]@.take(0) =~= Seq::<DrawOp>::empty());
        }
    }
}

/// A page list where only one page gained instructions at its end, and
/// every other page is unchanged, extends the original.
pub proof fn lemma_render_extends(
    before: Seq<Vec<DrawOp>>,
    after: Seq<Vec<DrawOp>>,
    page: int,
)
    requires
        after.len() >= before.len(),
        forall|i: int| 0 <= i < after.len() && i != page ==>
            after[i]@ == #[trigger] spec_page_at(before, i),
        0 <= page < after.len() ==> spec_page_at(before, page).len() <= after[page]@.len()
            && (after[page]@).take(spec_page_at(before, page).len() as int)
                == spec_page_at(before, page),
    ensures
        pages_extend(before, after),
{
    assert forall|i: int| 0 <= i < after.len() implies
        spec_page_at(before, i).len() <= (#[trigger] after[i]@).len()
        && after[i]@.take(spec_page_at(before, i).len() as int)
            == spec_page_at(before, i) by {
        if i != page {
            assert(after[i]@ == spec_page_at(before, i));
            assert(after[i]@.take(after[i]@.len() as int) =~= after[i]@);
        }
    }
}


/// An instruction already on a page stays there under extension.
pub proof fn lemma_contains_persists(
    before: Seq<Vec<DrawOp>>,
    after: Seq<Vec<DrawOp>>,
    p: int,
    op: DrawOp,
)
    requires
        pages_extend(before, after),
        spec_page_at(before, p).contains(op),
    ensures
        spec_page_at(after, p).contains(op),
{
    let k = choose|k: int| 0 <= k < spec_page_at(before, p).len()
        && spec_page_at(before, p)[k] == op;
    assert(0 <= p < before.len());
    assert(after[p]@.take(spec_page_at(before, p).len() as int)[k] == op);
    assert(spec_page_at(after, p)[k] == op);
}

} // verus!
