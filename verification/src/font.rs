//! Glyph metrics and text measurement.
//!
//! A font is modeled by the plain values the layout engine reads from
//! it: its units-per-em, a configured space width, and a table of
//! per-character horizontal advances in font units.  A character
//! missing from the table measures as a fallback advance, so
//! measurement never fails.
//!
//! The width of a run of characters at a font size is
//! `advance_sum * size / units_per_em + (count - 1) * letter_spacing`,
//! computed exactly over integers with a single final division.

use vstd::prelude::*;

verus! {

/// The fallback advance, in font units, of a character the font has no
/// glyph for.
pub const TOFU_ADVANCE: u32 = 500;

/// The largest advance, space width, and units-per-em a well-formed
/// font may carry; keeps every width computation inside `i64`.
pub const MAX_ADVANCE: u32 = 1_000_000;

/// The largest units-per-em a well-formed font may carry.
pub const MAX_UNITS_PER_EM: u32 = 100_000;

/// The largest number of characters a single measured run may hold.
pub const MAX_TEXT_LEN: usize = 100_000;

/// The largest font size, in thousandths of a unit, measurement accepts.
pub const MAX_FONT_SIZE: i64 = 10_000_000;

/// The largest letter spacing, in thousandths of a unit, measurement
/// accepts.
pub const MAX_SPACING: i64 = 1_000_000;

/// The glyph metrics of one registered font, as plain values.
#[derive(Debug, Clone)]
pub struct FontMetrics {
    /// Font units per em square; advances scale by `size / units_per_em`.
    pub units_per_em: u32,
    /// The configured advance of the space character, in font units.
    pub space_width: u32,
    /// Per-character horizontal advances in font units; the first entry
    /// for a character wins.
    pub glyphs: Vec<(char, u32)>,
}

/// The advance recorded for `c` in a glyph table, first entry winning.
pub open spec fn glyph_lookup(glyphs: Seq<(char, u32)>, c: char) -> Option<u32>
    decreases glyphs.len(),
{
    if glyphs.len() == 0 {
        None
    } else if glyphs[0].0 == c {
        Some(glyphs[0].1)
    } else {
        glyph_lookup(glyphs.drop_first(), c)
    }
}

impl FontMetrics {
    /// Well-formed metrics: a positive em square and bounded advances.
    pub open spec fn wf(self) -> bool {
        1 <= self.units_per_em <= MAX_UNITS_PER_EM
        && self.space_width <= MAX_ADVANCE
        && (forall|i: int| 0 <= i < self.glyphs@.len() ==> (#[trigger] self.glyphs@[i]).1 <= MAX_ADVANCE)
    }

    /// The advance of one character: the configured space width for a
    /// space, the recorded glyph advance when present, and the fallback
    /// advance otherwise.
    pub open spec fn spec_advance_of(self, c: char) -> u32 {
        if c == ' ' {
            self.space_width
        } else {
            match glyph_lookup(self.glyphs@, c) {
                Some(advance) => advance,
                None => TOFU_ADVANCE,
            }
        }
    }

    /// The sum of the advances of a run of characters, in font units.
    pub open spec fn spec_advance_sum(self, text: Seq<char>) -> int
        decreases text.len(),
    {
        if text.len() == 0 {
            0
        } else {
            self.spec_advance_sum(text.drop_last()) + self.spec_advance_of(text.last())
        }
    }

    /// The exact width of a run at a font size, scaled up by
    /// `units_per_em` so that no division is involved: a run fits a box
    /// of width `w` exactly when this value is at most `w * units_per_em`.
    pub open spec fn spec_width_scaled(
        self,
        text: Seq<char>,
        size: int,
        spacing: int,
    ) -> int {
        if text.len() == 0 {
            0
        } else {
            self.spec_advance_sum(text) * size + (text.len() - 1) * spacing * self.units_per_em
        }
    }

    /// The width of a run at a font size, in thousandths of a unit:
    /// the sum of glyph advances scaled by `size / units_per_em`, plus
    /// `(count - 1) * spacing`.
    pub open spec fn spec_width_of(self, text: Seq<char>, size: int, spacing: int) -> int {
        self.spec_width_scaled(text, size, spacing) / (self.units_per_em as int)
    }

    /// True when a measurement call's inputs are inside the ranges the
    /// integer arithmetic handles.
    pub open spec fn measurable(self, text: Seq<char>, size: int, spacing: int) -> bool {
        self.wf()
        && text.len() <= MAX_TEXT_LEN
        && 0 <= size <= MAX_FONT_SIZE
        && 0 <= spacing <= MAX_SPACING
    }

    pub fn new(units_per_em: u32, space_width: u32, glyphs: Vec<(char, u32)>) -> (r: FontMetrics)
        requires
            1 <= units_per_em <= MAX_UNITS_PER_EM,
            space_width <= MAX_ADVANCE,
            forall|i: int| 0 <= i < glyphs@.len() ==> (#[trigger] glyphs@[i]).1 <= MAX_ADVANCE,
        ensures
            r.wf(),
            r.units_per_em == units_per_em,
            r.space_width == space_width,
            r.glyphs@ == glyphs@,
    {
        FontMetrics { units_per_em, space_width, glyphs }
    }

    /// True when the font records a glyph for the character.
    pub fn has_glyph(&self, c: char) -> (r: bool)
        ensures
            r == (glyph_lookup(self.glyphs@, c) is Some),
    {
        let mut i: usize = 0;
        proof {
            assert(self.glyphs@.skip(0) =~= self.glyphs@);
        }
        while i < self.glyphs.len()
            invariant
                0 <= i <= self.glyphs@.len(),
                glyph_lookup(self.glyphs@, c) == glyph_lookup(self.glyphs@.skip(i as int), c),
            decreases self.glyphs@.len() - i,
        {
            let (gc, _adv) = self.glyphs[i];
            if gc == c {
                proof {
                    assert(self.glyphs@.skip(i as int)[0] == self.glyphs@[i as int]);
                }
                return true;
            }
            proof {
                assert(self.glyphs@.skip(i as int).drop_first()
                    =~= self.glyphs@.skip(i as int + 1));
            }
            i = i + 1;
        }
        proof {
            assert(self.glyphs@.skip(i as int).len() == 0);
        }
        false
    }

    /// The advance of one character in font units.
    pub fn advance_of(&self, c: char) -> (r: u32)
        ensures
            r == self.spec_advance_of(c),
    {
        if c == ' ' {
            return self.space_width;
        }
        let mut i: usize = 0;
        proof {
            assert(self.glyphs@.skip(0) =~= self.glyphs@);
        }
        while i < self.glyphs.len()
            invariant
                0 <= i <= self.glyphs@.len(),
                glyph_lookup(self.glyphs@, c) == glyph_lookup(self.glyphs@.skip(i as int), c),
            decreases self.glyphs@.len() - i,
        {
            let (gc, adv) = self.glyphs[i];
            if gc == c {
                proof {
                    assert(self.glyphs@.skip(i as int)[0] == self.glyphs@[i as int]);
                    assert(glyph_lookup(self.glyphs@.skip(i as int), c) == Some(adv));
                }
                return adv;
            }
            proof {
                assert(self.glyphs@.skip(i as int).drop_first()
                    =~= self.glyphs@.skip(i as int + 1));
            }
            i = i + 1;
        }
        proof {
            assert(self.glyphs@.skip(i as int).len() == 0);
        }
        TOFU_ADVANCE
    }

    /// The sum of the advances of a run, in font units.
    pub fn advance_sum(&self, text: &Vec<char>) -> (r: u64)
        requires
            self.wf(),
            text@.len() <= MAX_TEXT_LEN,
        ensures
            r == self.spec_advance_sum(text@),
            r <= text@.len() * MAX_ADVANCE,
    {
        proof {
            self.lemma_advance_bounded();
        }
        let mut sum: u64 = 0;
        let mut i: usize = 0;
        while i < text.len()
            invariant
                0 <= i <= text@.len(),
                text@.len() <= MAX_TEXT_LEN,
                self.wf(),
                sum == self.spec_advance_sum(text@.take(i as int)),
                sum <= i * MAX_ADVANCE,
                forall|c: char| #[trigger] self.spec_advance_of(c) <= MAX_ADVANCE,
            decreases text@.len() - i,
        {
            let c = text[i];
            proof {
                assert(text@.take(i as int + 1).drop_last() =~= text@.take(i as int));
                assert(text@.take(i as int + 1).last() == text@[i as int]);
            }
            sum = sum + self.advance_of(c) as u64;
            i = i + 1;
        }
        proof {
            assert(text@.take(text@.len() as int) =~= text@);
        }
        sum
    }

    /// Every character's advance is bounded in a well-formed font.
    pub proof fn lemma_advance_bounded(self)
        requires
            self.wf(),
        ensures
            forall|c: char| #[trigger] self.spec_advance_of(c) <= MAX_ADVANCE,
    {
        assert forall|c: char| #[trigger] self.spec_advance_of(c) <= MAX_ADVANCE by {
            lemma_glyph_lookup_bounded(self.glyphs@, c, MAX_ADVANCE as int);
        }
    }

    /// The advance sum of a run is bounded by its length times the
    /// largest advance.
    pub proof fn lemma_advance_sum_bounded(self, text: Seq<char>)
        requires
            self.wf(),
        ensures
            0 <= self.spec_advance_sum(text) <= text.len() * MAX_ADVANCE,
        decreases text.len(),
    {
        if text.len() > 0 {
            self.lemma_advance_sum_bounded(text.drop_last());
            self.lemma_advance_bounded();
        }
    }

    /// Appending runs adds their advance sums.
    pub proof fn lemma_advance_sum_append(self, a: Seq<char>, b: Seq<char>)
        ensures
            self.spec_advance_sum(a + b) == self.spec_advance_sum(a) + self.spec_advance_sum(b),
        decreases b.len(),
    {
        if b.len() == 0 {
            assert(a + b =~= a);
        } else {
            self.lemma_advance_sum_append(a, b.drop_last());
            assert((a + b).drop_last() =~= a + b.drop_last());
            assert((a + b).last() == b.last());
        }
    }

    /// The width of a run at a font size, in thousandths of a unit.
    /// An empty run has width zero.
    pub fn width_of_text_at_size(
        &self,
        text: &Vec<char>,
        font_size: i64,
        character_spacing: i64,
    ) -> (r: i64)
        requires
            self.measurable(text@, font_size as int, character_spacing as int),
        ensures
            r == self.spec_width_of(text@, font_size as int, character_spacing as int),
            0 <= r <= 1_100_000_000_000_000_000,
    {
        if text.len() == 0 {
            return 0;
        }
        let sum = self.advance_sum(text) as i64;
        let count_minus_one = (text.len() - 1) as i64;
        proof {
            self.lemma_advance_sum_bounded(text@);
            lemma_width_products_bounded(
                sum as int,
                font_size as int,
                count_minus_one as int,
                character_spacing as int,
                self.units_per_em as int,
            );
        }
        let scaled: i64 = sum * font_size
            + count_minus_one * character_spacing * (self.units_per_em as i64);
        let r = scaled / (self.units_per_em as i64);
        proof {
            assert(scaled == self.spec_width_scaled(
                text@, font_size as int, character_spacing as int));
            lemma_div_nonneg_trunc_is_euclidean(scaled as int, self.units_per_em as int);
            assert(scaled as int / (self.units_per_em as int) <= scaled) by (nonlinear_arith)
                requires
                    scaled >= 0,
                    self.units_per_em >= 1,
            ;
        }
        r
    }

    /// The exact scaled width of a run: `spec_width_scaled` as a value.
    /// Fits a box of width `w` exactly when at most `w * units_per_em`.
    pub fn width_scaled_of(
        &self,
        text: &Vec<char>,
        font_size: i64,
        character_spacing: i64,
    ) -> (r: i64)
        requires
            self.measurable(text@, font_size as int, character_spacing as int),
        ensures
            r == self.spec_width_scaled(text@, font_size as int, character_spacing as int),
            r >= 0,
    {
        if text.len() == 0 {
            return 0;
        }
        let sum = self.advance_sum(text) as i64;
        let count_minus_one = (text.len() - 1) as i64;
        proof {
            self.lemma_advance_sum_bounded(text@);
            lemma_width_products_bounded(
                sum as int,
                font_size as int,
                count_minus_one as int,
                character_spacing as int,
                self.units_per_em as int,
            );
        }
        sum * font_size + count_minus_one * character_spacing * (self.units_per_em as i64)
    }

    /// The line height of the font at a size: the size itself (the
    /// caller applies its line-height multiplier on top).
    pub fn height_of_font_at_size(&self, font_size: i64) -> (r: i64)
        ensures
            r == font_size,
    {
        font_size
    }
}

/// A bounded glyph table bounds every successful lookup.
pub proof fn lemma_glyph_lookup_bounded(glyphs: Seq<(char, u32)>, c: char, bound: int)
    requires
        forall|i: int| 0 <= i < glyphs.len() ==> (#[trigger] glyphs[i]).1 <= bound,
        TOFU_ADVANCE <= bound,
    ensures
        glyph_lookup(glyphs, c) is Some ==> glyph_lookup(glyphs, c)->Some_0 <= bound,
    decreases glyphs.len(),
{
    if glyphs.len() > 0 && glyphs[0].0 != c {
        assert(forall|i: int| 0 <= i < glyphs.drop_first().len()
            ==> (#[trigger] glyphs.drop_first()[i]).1 <= bound);
        lemma_glyph_lookup_bounded(glyphs.drop_first(), c, bound);
    }
}

/// Truncating division equals Euclidean division for a non-negative
/// dividend and a positive divisor.
pub proof fn lemma_div_nonneg_trunc_is_euclidean(a: int, b: int)
    requires
        a >= 0,
        b > 0,
    ensures
        a / b >= 0,
{
}

/// The products inside a width computation stay inside `i64`.
proof fn lemma_width_products_bounded(
    sum: int,
    font_size: int,
    count_minus_one: int,
    spacing: int,
    upem: int,
)
    by (nonlinear_arith)
    requires
        0 <= sum <= MAX_TEXT_LEN as int * MAX_ADVANCE as int,
        0 <= font_size <= MAX_FONT_SIZE as int,
        0 <= count_minus_one <= MAX_TEXT_LEN as int,
        0 <= spacing <= MAX_SPACING as int,
        1 <= upem <= MAX_UNITS_PER_EM as int,
    ensures
        0 <= sum * font_size <= 1_000_000_000_000_000_000,
        0 <= count_minus_one * spacing <= 100_000_000_000,
        0 <= count_minus_one * spacing * upem <= 10_000_000_000_000_000,
{
}

/// What a character becomes when the font has no glyph for it: the
/// first fallback character the font does have a glyph for, in order
/// of preference, or the character itself when even the fallbacks are
/// missing.
pub open spec fn spec_fallback_char(font: FontMetrics, c: char) -> char {
    if glyph_lookup(font.glyphs@, c) is Some {
        c
    } else if glyph_lookup(font.glyphs@, '\u{25A1}') is Some {
        '\u{25A1}'
    } else if glyph_lookup(font.glyphs@, '\u{FFFD}') is Some {
        '\u{FFFD}'
    } else if glyph_lookup(font.glyphs@, '?') is Some {
        '?'
    } else if glyph_lookup(font.glyphs@, '.') is Some {
        '.'
    } else if glyph_lookup(font.glyphs@, 'X') is Some {
        'X'
    } else if glyph_lookup(font.glyphs@, ' ') is Some {
        ' '
    } else {
        c
    }
}

/// A run with every glyphless character replaced by its fallback.
pub open spec fn spec_sanitized(font: FontMetrics, text: Seq<char>) -> Seq<char> {
    text.map(|i: int, c: char| spec_fallback_char(font, c))
}

/// Replaces characters the font has no glyph for with the best
/// available fallback character, so a later draw never asks the font
/// for a missing glyph.
pub fn sanitize_text_for_font(text: &Vec<char>, font: &FontMetrics) -> (r: Vec<char>)
    ensures
        r@ == spec_sanitized(*font, text@),
{
    let mut sanitized: Vec<char> = Vec::new();
    let mut i: usize = 0;
    proof {
        assert(sanitized@ =~= spec_sanitized(*font, text@.take(0)));
    }
    while i < text.len()
        invariant
            0 <= i <= text@.len(),
            sanitized@ == spec_sanitized(*font, text@.take(i as int)),
        decreases text@.len() - i,
    {
        let c = text[i];
        let replacement = if font.has_glyph(c) {
            c
        } else if font.has_glyph('\u{25A1}') {
            '\u{25A1}'
        } else if font.has_glyph('\u{FFFD}') {
            '\u{FFFD}'
        } else if font.has_glyph('?') {
            '?'
        } else if font.has_glyph('.') {
            '.'
        } else if font.has_glyph('X') {
            'X'
        } else if font.has_glyph(' ') {
            ' '
        } else {
            c
        };
        sanitized.push(replacement);
        proof {
            assert(sanitized@ =~= spec_sanitized(*font, text@.take(i as int + 1)));
        }
        i = i + 1;
    }
    proof {
        assert(text@.take(text@.len() as int) =~= text@);
    }
    sanitized
}

/// The table of registered fonts, keyed by name; later registrations
/// of a name replace earlier ones.
#[derive(Debug, Clone)]
pub struct FontMap {
    pub entries: Vec<(String, FontMetrics)>,
}

impl FontMap {
    /// The metrics registered under a name, first entry winning.
    pub open spec fn spec_find(self, name: Seq<char>) -> Option<FontMetrics> {
        spec_map_find(self.entries@, name)
    }

    /// Every registered font is well formed.
    pub open spec fn wf(self) -> bool {
        forall|i: int| 0 <= i < self.entries@.len() ==> (#[trigger] self.entries@[i]).1.wf()
    }

    pub fn new() -> (r: FontMap)
        ensures
            r.wf(),
            r.entries@.len() == 0,
            forall|name: Seq<char>| #[trigger] r.spec_find(name) is None,
    {
        FontMap { entries: Vec::new() }
    }

    /// Registers metrics under a name; a font already registered under
    /// that name is replaced and returned.
    pub fn add_font(&mut self, font_name: String, metrics: FontMetrics) -> (r: Option<FontMetrics>)
        requires
            old(self).wf(),
            metrics.wf(),
        ensures
            final(self).wf(),
            final(self).spec_find(font_name@) == Some(metrics),
            forall|other: Seq<char>| other != font_name@ ==>
                #[trigger] final(self).spec_find(other) == old(self).spec_find(other),
            r == old(self).spec_find(font_name@),
    {
        let ghost old_entries = self.entries@;
        let ghost gname = font_name;
        let mut i: usize = 0;
        while i < self.entries.len()
            invariant
                0 <= i <= self.entries@.len(),
                self.entries@ == old_entries,
                forall|j: int| 0 <= j < i ==> (#[trigger] old_entries[j]).0@ != font_name@,
            decreases self.entries@.len() - i,
        {
            if self.entries[i].0 == font_name {
                let old_entry = self.entries.remove(i);
                self.entries.insert(i, (font_name, metrics));
                proof {
                    old_entries.remove_ensures(i as int);
                    old_entries.remove(i as int).insert_ensures(i as int, (gname, metrics));
                    assert(self.entries@ =~= old_entries.update(i as int, (gname, metrics)));
                    lemma_map_find_replace(old_entries, i as int, gname, metrics);
                    lemma_map_find_first_match(old_entries, i as int, gname@);
                    assert(old_entry == old_entries[i as int]);
                    assert forall|k: int| 0 <= k < self.entries@.len()
                        implies (#[trigger] self.entries@[k]).1.wf() by {
                        if k != i {
                            assert(self.entries@[k] == old_entries[k]);
                        }
                    }
                }
                return Some(old_entry.1);
            }
            i = i + 1;
        }
        self.entries.push((font_name, metrics));
        proof {
            assert(self.entries@ =~= old_entries.push((gname, metrics)));
            lemma_map_find_push(old_entries, gname, metrics);
            lemma_map_find_absent(old_entries, gname@);
            assert forall|k: int| 0 <= k < self.entries@.len()
                implies (#[trigger] self.entries@[k]).1.wf() by {
                if k < old_entries.len() {
                    assert(self.entries@[k] == old_entries[k]);
                }
            }
        }
        None
    }

    /// Looks a font up by name.  Returns `None` exactly when no font
    /// was registered under that name.
    pub fn find(&self, font_name: &String) -> (r: Option<&FontMetrics>)
        ensures
            match r {
                Some(metrics) => self.spec_find(font_name@) == Some(*metrics),
                None => self.spec_find(font_name@) is None,
            },
            self.wf() && r is Some ==> r->Some_0.wf(),
    {
        let mut i: usize = 0;
        proof {
            assert(self.entries@.skip(0) =~= self.entries@);
        }
        while i < self.entries.len()
            invariant
                0 <= i <= self.entries@.len(),
                spec_map_find(self.entries@, font_name@)
                    == spec_map_find(self.entries@.skip(i as int), font_name@),
            decreases self.entries@.len() - i,
        {
            if self.entries[i].0 == *font_name {
                proof {
                    assert(self.entries@.skip(i as int)[0] == self.entries@[i as int]);
                }
                return Some(&self.entries[i].1);
            }
            proof {
                assert(self.entries@.skip(i as int).drop_first()
                    =~= self.entries@.skip(i as int + 1));
            }
            i = i + 1;
        }
        proof {
            assert(self.entries@.skip(i as int).len() == 0);
        }
        None
    }
}

/// First-match lookup in a name-keyed entry list.
pub open spec fn spec_map_find(
    entries: Seq<(String, FontMetrics)>,
    name: Seq<char>,
) -> Option<FontMetrics>
    decreases entries.len(),
{
    if entries.len() == 0 {
        None
    } else if entries[0].0@ == name {
        Some(entries[0].1)
    } else {
        spec_map_find(entries.drop_first(), name)
    }
}

/// Replacing the first entry whose name matches keeps every other
/// lookup and redirects the matching one.
proof fn lemma_map_find_replace(
    entries: Seq<(String, FontMetrics)>,
    i: int,
    newname: String,
    metrics: FontMetrics,
)
    requires
        0 <= i < entries.len(),
        entries[i].0@ == newname@,
        forall|j: int| 0 <= j < i ==> (#[trigger] entries[j]).0@ != newname@,
    ensures
        spec_map_find(entries.update(i, (newname, metrics)), newname@) == Some(metrics),
        forall|other: Seq<char>| other != newname@ ==>
            #[trigger] spec_map_find(entries.update(i, (newname, metrics)), other)
                == spec_map_find(entries, other),
    decreases entries.len(),
{
    let updated = entries.update(i, (newname, metrics));
    if i == 0 {
        assert(updated[0].0@ == newname@);
        assert(updated.drop_first() =~= entries.drop_first());
        assert forall|other: Seq<char>| other != newname@ implies
            #[trigger] spec_map_find(updated, other) == spec_map_find(entries, other) by {
            assert(spec_map_find(updated, other)
                == spec_map_find(updated.drop_first(), other));
            assert(spec_map_find(entries, other)
                == spec_map_find(entries.drop_first(), other));
        }
    } else {
        assert(updated[0] == entries[0]);
        assert(updated.drop_first() =~= entries.drop_first().update(i - 1, (newname, metrics)));
        lemma_map_find_replace(entries.drop_first(), i - 1, newname, metrics);
        assert(spec_map_find(updated, newname@) == Some(metrics));
        assert forall|other: Seq<char>| other != newname@ implies
            #[trigger] spec_map_find(updated, other) == spec_map_find(entries, other) by {
            if entries[0].0@ == other {
                assert(spec_map_find(updated, other) == Some(updated[0].1));
                assert(spec_map_find(entries, other) == Some(entries[0].1));
            } else {
                assert(spec_map_find(updated, other)
                    == spec_map_find(updated.drop_first(), other));
                assert(spec_map_find(entries, other)
                    == spec_map_find(entries.drop_first(), other));
            }
        }
    }
}

/// Appending a fresh entry adds its lookup and keeps the others when
/// the name was absent.
proof fn lemma_map_find_push(
    entries: Seq<(String, FontMetrics)>,
    newname: String,
    metrics: FontMetrics,
)
    requires
        forall|j: int| 0 <= j < entries.len() ==> (#[trigger] entries[j]).0@ != newname@,
    ensures
        spec_map_find(entries.push((newname, metrics)), newname@) == Some(metrics),
        forall|other: Seq<char>| other != newname@ ==>
            #[trigger] spec_map_find(entries.push((newname, metrics)), other)
                == spec_map_find(entries, other),
    decreases entries.len(),
{
    let pushed = entries.push((newname, metrics));
    if entries.len() == 0 {
        assert(pushed[0].0@ == newname@);
        assert(pushed.drop_first() =~= Seq::<(String, FontMetrics)>::empty());
        assert forall|other: Seq<char>| other != newname@ implies
            #[trigger] spec_map_find(pushed, other) == spec_map_find(entries, other) by {
            assert(spec_map_find(pushed, other)
                == spec_map_find(pushed.drop_first(), other));
        }
    } else {
        assert(pushed[0] == entries[0]);
        assert(pushed.drop_first() =~= entries.drop_first().push((newname, metrics)));
        lemma_map_find_push(entries.drop_first(), newname, metrics);
        assert(spec_map_find(pushed, newname@) == Some(metrics));
        assert forall|other: Seq<char>| other != newname@ implies
            #[trigger] spec_map_find(pushed, other) == spec_map_find(entries, other) by {
            if entries[0].0@ == other {
                assert(spec_map_find(pushed, other) == Some(pushed[0].1));
                assert(spec_map_find(entries, other) == Some(entries[0].1));
            } else {
                assert(spec_map_find(pushed, other)
                    == spec_map_find(pushed.drop_first(), other));
                assert(spec_map_find(entries, other)
                    == spec_map_find(entries.drop_first(), other));
            }
        }
    }
}

/// A name no entry carries finds nothing.
proof fn lemma_map_find_absent(entries: Seq<(String, FontMetrics)>, name: Seq<char>)
    requires
        forall|j: int| 0 <= j < entries.len() ==> (#[trigger] entries[j]).0@ != name,
    ensures
        spec_map_find(entries, name) is None,
    decreases entries.len(),
{
    if entries.len() > 0 {
        lemma_map_find_absent(entries.drop_first(), name);
    }
}

/// The first matching entry decides the lookup.
proof fn lemma_map_find_first_match(entries: Seq<(String, FontMetrics)>, i: int, name: Seq<char>)
    requires
        0 <= i < entries.len(),
        entries[i].0@ == name,
        forall|j: int| 0 <= j < i ==> (#[trigger] entries[j]).0@ != name,
    ensures
        spec_map_find(entries, name) == Some(entries[i].1),
    decreases entries.len(),
{
    if i > 0 {
        lemma_map_find_first_match(entries.drop_first(), i - 1, name);
    }
}

/// The number of grapheme-cluster boundaries the segmenter reports for
/// a string, counting the leading boundary at offset zero.  The count
/// depends on the characters alone.
pub uninterp spec fn grapheme_boundary_count_of(text: Seq<char>) -> int;

/// Relies on icu_segmenter::GraphemeClusterSegmenter::segment_str:
/// there are always boundaries at 0 and at the string's end, or only
/// at 0 for the empty string, and every boundary lies on a character
/// boundary, so the count is between 1 and the character count plus 1.
#[verifier::external_body]
fn grapheme_boundary_count(text: &Vec<char>) -> (r: usize)
    requires
        text@.len() <= MAX_TEXT_LEN,
    ensures
        r == grapheme_boundary_count_of(text@),
        1 <= r <= text@.len() + 1,
{
    let s: std::string::String = text.iter().collect();
    let segmenter = icu_segmenter::GraphemeClusterSegmenter::new();
    segmenter.segment_str(&s).count()
}

/// Signed division as the i64 `/` operator computes it (truncation
/// toward zero).
pub open spec fn div_toward_zero(a: int, b: int) -> int {
    if a >= 0 {
        a / b
    } else {
        0 - ((0 - a) / b)
    }
}

/// The extra letter spacing that distributes a residual width evenly
/// over a line's grapheme boundaries, as justified text needs.
pub fn calculate_character_spacing(text: &Vec<char>, residual: i64) -> (r: i64)
    requires
        text@.len() <= MAX_TEXT_LEN,
        crate::geom::coord_in_range(residual),
    ensures
        r == div_toward_zero(residual as int, grapheme_boundary_count_of(text@)),
        residual >= 0 ==> 0 <= r <= residual,
{
    let count = grapheme_boundary_count(text) as i64;
    let r = residual / count;
    proof {
        if residual >= 0 {
            assert(0 <= residual as int / (count as int) <= residual) by (nonlinear_arith)
                requires
                    residual >= 0,
                    count >= 1,
            ;
        }
    }
    r
}

} // verus!
