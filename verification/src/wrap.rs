//! The line breaker: segments a paragraph into width-constrained lines.
//!
//! A text run is first split on explicit newlines; each paragraph is
//! then cut into word-like chunks by an outside word-boundary
//! segmenter, and the chunks are greedily packed into lines while the
//! running line still fits the box width.  A chunk that alone exceeds
//! the box width is packed character by character under the same
//! greedy rule, so even an unbreakable run still wraps.  An empty
//! chunk forces a line break and stays as a blank line.
//!
//! Every produced line measures within the box width, except a line
//! that is a single character wider than the box — the unavoidable
//! minimal violation.  No character is lost or reordered: the lines
//! concatenate to the input with its newlines removed.

use vstd::prelude::*;
use crate::font::{FontMetrics, MAX_TEXT_LEN, MAX_FONT_SIZE, MAX_SPACING, MAX_UNITS_PER_EM, MAX_ADVANCE};

verus! {

/// The views of a list of character vectors.
pub open spec fn lines_view(lines: Seq<Vec<char>>) -> Seq<Seq<char>> {
    lines.map(|i: int, l: Vec<char>| l@)
}

/// The concatenation of a list of character runs.
pub open spec fn flatten_chars(segs: Seq<Seq<char>>) -> Seq<char>
    decreases segs.len(),
{
    if segs.len() == 0 {
        Seq::empty()
    } else {
        segs[0] + flatten_chars(segs.drop_first())
    }
}

/// Appending one run to a list appends its characters to the
/// concatenation.
pub proof fn lemma_flatten_push(segs: Seq<Seq<char>>, last: Seq<char>)
    ensures
        flatten_chars(segs.push(last)) == flatten_chars(segs) + last,
    decreases segs.len(),
{
    if segs.len() == 0 {
        assert(flatten_chars(segs) =~= Seq::<char>::empty());
        assert(segs.push(last).drop_first() =~= Seq::<Seq<char>>::empty());
        assert(segs.push(last)[0] == last);
        assert(flatten_chars(segs.push(last))
            == last + flatten_chars(segs.push(last).drop_first()));
        assert(last + Seq::<char>::empty() =~= Seq::<char>::empty() + last);
    } else {
        assert(segs.push(last).drop_first() =~= segs.drop_first().push(last));
        lemma_flatten_push(segs.drop_first(), last);
        assert(flatten_chars(segs.push(last))
            == segs[0] + (flatten_chars(segs.drop_first()) + last));
        assert(segs[0] + (flatten_chars(segs.drop_first()) + last)
            =~= (segs[0] + flatten_chars(segs.drop_first())) + last);
    }
}

/// Pushing a line onto a line list appends its characters to the
/// list's concatenation.
pub proof fn lemma_lines_view_push(lines: Seq<Vec<char>>, v: Vec<char>)
    ensures
        lines_view(lines.push(v)) =~= lines_view(lines).push(v@),
        flatten_chars(lines_view(lines.push(v)))
            == flatten_chars(lines_view(lines)) + v@,
{
    assert(lines_view(lines.push(v)) =~= lines_view(lines).push(v@));
    lemma_flatten_push(lines_view(lines), v@);
}

/// Taking one more run extends the concatenation by that run.
pub proof fn lemma_flatten_take_step(segs: Seq<Seq<char>>, i: int)
    requires
        0 <= i < segs.len(),
    ensures
        flatten_chars(segs.take(i + 1)) == flatten_chars(segs.take(i)) + segs[i],
{
    assert(segs.take(i + 1) =~= segs.take(i).push(segs[i]));
    lemma_flatten_push(segs.take(i), segs[i]);
}

/// The concatenation splits around any prefix boundary.
pub proof fn lemma_flatten_suffix(segs: Seq<Seq<char>>, i: int)
    requires
        0 <= i <= segs.len(),
    ensures
        flatten_chars(segs) == flatten_chars(segs.take(i)) + flatten_chars(segs.skip(i)),
    decreases i,
{
    if i == 0 {
        assert(segs.take(0) =~= Seq::<Seq<char>>::empty());
        assert(segs.skip(0) =~= segs);
        assert(flatten_chars(segs.take(0)) + flatten_chars(segs) =~= flatten_chars(segs));
    } else {
        lemma_flatten_suffix(segs, i - 1);
        lemma_flatten_take_step(segs, i - 1);
        assert(segs.skip(i - 1).drop_first() =~= segs.skip(i));
        assert(segs.skip(i - 1)[0] == segs[i - 1]);
        assert(flatten_chars(segs.skip(i - 1))
            == segs[i - 1] + flatten_chars(segs.skip(i)));
        assert(flatten_chars(segs.take(i - 1))
            + (segs[i - 1] + flatten_chars(segs.skip(i)))
            =~= (flatten_chars(segs.take(i - 1)) + segs[i - 1])
                + flatten_chars(segs.skip(i)));
    }
}

/// The concatenation of a prefix of runs is no longer than the
/// concatenation of all of them.
pub proof fn lemma_flatten_prefix_len(segs: Seq<Seq<char>>, i: int)
    requires
        0 <= i <= segs.len(),
    ensures
        flatten_chars(segs.take(i)).len() <= flatten_chars(segs).len(),
{
    lemma_flatten_suffix(segs, i);
}

/// A line fits a box width exactly when its scaled width is within the
/// box width scaled by the font's units-per-em.
pub open spec fn line_fits(
    font: FontMetrics,
    line: Seq<char>,
    size: int,
    box_width: int,
    spacing: int,
) -> bool {
    font.spec_width_scaled(line, size, spacing) <= box_width * font.units_per_em
}

/// The wrap-width law: every line a wrap produces either fits the box
/// width or is a single character.
pub open spec fn wrapped_lines_ok(
    font: FontMetrics,
    lines: Seq<Seq<char>>,
    size: int,
    box_width: int,
    spacing: int,
) -> bool {
    forall|i: int| 0 <= i < lines.len() ==>
        line_fits(font, #[trigger] lines[i], size, box_width, spacing) || lines[i].len() == 1
}

/// The greedy packer's state over one chunk, character by character: a
/// character extends the open line while the line would still fit, and
/// otherwise starts a new line of its own.
pub open spec fn pack_chars(
    font: FontMetrics,
    box_scaled: int,
    size: int,
    spacing: int,
    lines: Seq<Seq<char>>,
    cur: Seq<char>,
    open: bool,
    chars: Seq<char>,
) -> (Seq<Seq<char>>, Seq<char>, bool)
    decreases chars.len(),
{
    if chars.len() == 0 {
        (lines, cur, open)
    } else {
        let ch = chars[0];
        if open && font.spec_width_scaled(cur.push(ch), size, spacing) <= box_scaled {
            pack_chars(font, box_scaled, size, spacing, lines, cur.push(ch), open,
                chars.drop_first())
        } else {
            let closed = if open { lines.push(cur) } else { lines };
            pack_chars(font, box_scaled, size, spacing, closed, seq![ch], true,
                chars.drop_first())
        }
    }
}

/// The greedy packer's state over a chunk list: an empty chunk closes
/// the open line and leaves a blank one; a chunk that keeps the open
/// line within the box extends it; a chunk that fits alone starts a new
/// line; a chunk wider than the box packs character by character.
pub open spec fn pack_loop(
    font: FontMetrics,
    box_scaled: int,
    size: int,
    spacing: int,
    lines: Seq<Seq<char>>,
    cur: Seq<char>,
    open: bool,
    segs: Seq<Seq<char>>,
) -> (Seq<Seq<char>>, Seq<char>, bool)
    decreases segs.len(),
{
    if segs.len() == 0 {
        (lines, cur, open)
    } else {
        let seg = segs[0];
        if seg.len() == 0 {
            let closed = if open { lines.push(cur) } else { lines };
            pack_loop(font, box_scaled, size, spacing, closed.push(Seq::empty()),
                Seq::empty(), false, segs.drop_first())
        } else if font.spec_width_scaled(cur + seg, size, spacing) <= box_scaled {
            pack_loop(font, box_scaled, size, spacing, lines, cur + seg, true,
                segs.drop_first())
        } else if font.spec_width_scaled(seg, size, spacing) <= box_scaled {
            let closed = if open { lines.push(cur) } else { lines };
            pack_loop(font, box_scaled, size, spacing, closed, seg, true,
                segs.drop_first())
        } else {
            let (l2, c2, o2) = pack_chars(font, box_scaled, size, spacing, lines, cur,
                open, seg);
            pack_loop(font, box_scaled, size, spacing, l2, c2, o2, segs.drop_first())
        }
    }
}

/// The lines the greedy packer produces for a chunk list at a size:
/// the loop's closed lines, with the line still open appended.
pub open spec fn spec_pack(
    font: FontMetrics,
    segs: Seq<Seq<char>>,
    size: int,
    box_width: int,
    spacing: int,
) -> Seq<Seq<char>> {
    let (lines, cur, open) = pack_loop(font, box_width * font.units_per_em, size, spacing,
        Seq::empty(), Seq::empty(), false, segs);
    if open {
        lines.push(cur)
    } else {
        lines
    }
}

/// Relies on icu_segmenter::WordSegmenter::segment_str (constructed by
/// WordSegmenter::new_auto): it returns word-boundary offsets into the
/// string, the first always 0 and the last always the string's length,
/// each on a character boundary, so the pieces between consecutive
/// boundaries concatenate to the input.
#[verifier::external_body]
pub(crate) fn segment_words(paragraph: &Vec<char>) -> (segs: Vec<Vec<char>>)
    ensures
        flatten_chars(lines_view(segs@)) == paragraph@,
        forall|i: int| 0 <= i < segs@.len() ==> (#[trigger] segs@[i])@.len() > 0,
{
    let s: std::string::String = paragraph.iter().collect();
    let segmenter = icu_segmenter::WordSegmenter::new_auto();
    let breakpoints: Vec<usize> = segmenter.segment_str(&s).collect();
    let mut segs: Vec<Vec<char>> = Vec::new();
    let mut last: usize = 0;
    for breakpoint in breakpoints {
        if breakpoint > last {
            segs.push(s[last..breakpoint].chars().collect());
        }
        last = breakpoint;
    }
    segs
}

/// Greedily packs word-like chunks into lines that fit `box_width`.
///
/// A chunk is appended to the open line while the line would still
/// fit; a chunk that fits a line of its own starts one; a chunk wider
/// than the box is packed character by character, so a line may end up
/// as a single character wider than the box.  An empty chunk forces a
/// line break and stays as a blank line.  The lines concatenate to the
/// chunks' concatenation: no character is lost.
#[verifier::rlimit(100)]
pub fn pack_segments(
    font: &FontMetrics,
    segments: &Vec<Vec<char>>,
    font_size: i64,
    box_width: i64,
    character_spacing: i64,
) -> (lines: Vec<Vec<char>>)
    requires
        font.wf(),
        flatten_chars(lines_view(segments@)).len() <= MAX_TEXT_LEN,
        0 <= font_size <= MAX_FONT_SIZE,
        0 <= character_spacing <= MAX_SPACING,
        0 <= box_width <= 0x4000_0000_0000,
    ensures
        lines_view(lines@) == spec_pack(
            *font,
            lines_view(segments@),
            font_size as int,
            box_width as int,
            character_spacing as int,
        ),
        flatten_chars(lines_view(lines@)) == flatten_chars(lines_view(segments@)),
        wrapped_lines_ok(
            *font,
            lines_view(lines@),
            font_size as int,
            box_width as int,
            character_spacing as int,
        ),
{
    let ghost seg_views = lines_view(segments@);
    let mut lines: Vec<Vec<char>> = Vec::new();
    let mut cur: Vec<char> = Vec::new();
    let mut cur_adv: i64 = 0;
    let mut open = false;
    proof {
        assert(0 <= box_width * font.units_per_em as i64 <= 0x4000_0000_0000i64 * MAX_UNITS_PER_EM as i64)
            by (nonlinear_arith)
            requires
                0 <= box_width <= 0x4000_0000_0000,
                1 <= font.units_per_em <= MAX_UNITS_PER_EM,
        ;
    }
    let box_scaled: i64 = box_width * (font.units_per_em as i64);

    proof {
        assert(lines_view(segments@).take(0) =~= Seq::<Seq<char>>::empty());
        assert(lines_view(lines@) =~= Seq::<Seq<char>>::empty());
    }

    let ghost target = pack_loop(
        *font, box_scaled as int, font_size as int, character_spacing as int,
        Seq::empty(), Seq::empty(), false, seg_views);
    proof {
        assert(seg_views.skip(0) =~= seg_views);
    }
    let mut s: usize = 0;
    while s < segments.len()
        invariant
            0 <= s <= segments@.len(),
            pack_loop(*font, box_scaled as int, font_size as int, character_spacing as int,
                lines_view(lines@), cur@, open, seg_views.skip(s as int)) == target,
            flatten_chars(lines_view(lines@)) + (if open { cur@ } else { Seq::<char>::empty() })
                == flatten_chars(lines_view(segments@).take(s as int)),
            wrapped_lines_ok(
                *font,
                lines_view(lines@),
                font_size as int,
                box_width as int,
                character_spacing as int,
            ),
            open ==> (line_fits(
                *font, cur@, font_size as int, box_width as int, character_spacing as int,
            ) || cur@.len() == 1),
            !open ==> cur@.len() == 0,
            cur_adv == font.spec_advance_sum(cur@),
        decreases segments@.len() - s,
    {
        proof {
            lemma_flatten_take_step(lines_view(segments@), s as int);
            lemma_flatten_prefix_len(lines_view(segments@), s as int + 1);
            font.lemma_advance_sum_bounded(cur@);
        }
        let ghost seg_view = lines_view(segments@)[s as int];
        let segment = &segments[s];
        assert(segment@ == seg_view);
        assert(cur@.len() + segment@.len() <= MAX_TEXT_LEN);
        proof {
            assert(seg_views.skip(s as int)[0] == seg_view);
            assert(seg_views.skip(s as int).drop_first() =~= seg_views.skip(s as int + 1));
        }
        let ghost lines_entry = lines_view(lines@);
        let ghost cur_entry = cur@;
        let ghost open_entry = open;
        if segment.len() == 0 {
            // An empty chunk: close the open line and keep a blank one.
            if open {
                let ghost pre = lines@;
                let ghost gcur = cur;
                lines.push(cur);
                cur = Vec::new();
                cur_adv = 0;
                open = false;
                proof {
                    lemma_lines_view_push(pre, gcur);
                }
            }
            let blank: Vec<char> = Vec::new();
            let ghost pre = lines@;
            lines.push(blank);
            proof {
                lemma_lines_view_push(pre, blank);
                assert(flatten_chars(lines_view(lines@))
                    =~= flatten_chars(lines_view(pre)));
                assert(seg_view =~= Seq::<char>::empty());
                assert(flatten_chars(lines_view(segments@).take(s as int + 1))
                    =~= flatten_chars(lines_view(segments@).take(s as int)));
                assert(font.spec_width_scaled(
                    Seq::<char>::empty(), font_size as int, character_spacing as int) == 0);
                assert(0 <= box_width * font.units_per_em) by (nonlinear_arith)
                    requires
                        box_width >= 0,
                        font.units_per_em >= 1,
                ;
                let closed = if open_entry { lines_entry.push(cur_entry) } else { lines_entry };
                assert(lines_view(lines@) =~= closed.push(Seq::<char>::empty()));
                assert(cur@ =~= Seq::<char>::empty());
            }
        } else {
            let seg_adv = font.advance_sum(segment) as i64;
            proof {
                font.lemma_advance_sum_bounded(segment@);
                lemma_pack_products_bounded(
                    cur_adv as int, seg_adv as int,
                    cur@.len() as int, segment@.len() as int,
                    font_size as int, character_spacing as int,
                    font.units_per_em as int,
                );
            }
            let joint_adv = cur_adv + seg_adv;
            let joint_len = (cur.len() + segment.len()) as i64;
            let joint_scaled = joint_adv * font_size
                + (joint_len - 1) * character_spacing * (font.units_per_em as i64);
            let seg_scaled = seg_adv * font_size
                + (segment.len() as i64 - 1) * character_spacing * (font.units_per_em as i64);
            proof {
                font.lemma_advance_sum_append(cur@, segment@);
                assert(joint_scaled == font.spec_width_scaled(
                    cur@ + segment@, font_size as int, character_spacing as int));
                assert(seg_scaled == font.spec_width_scaled(
                    segment@, font_size as int, character_spacing as int));
            }
            if joint_scaled <= box_scaled {
                // The chunk extends the open line (or starts it).
                let mut extension = segment.clone();
                assert(extension@ == segment@);
                let ghost cur_before = cur@;
                cur.append(&mut extension);
                cur_adv = joint_adv;
                open = true;
                proof {
                    assert(cur@ == cur_before + seg_view);
                    assert(flatten_chars(lines_view(lines@)) + cur@
                        =~= (flatten_chars(lines_view(lines@)) + cur_before) + seg_view);
                    if cur_before.len() == 0 {
                        assert(flatten_chars(lines_view(lines@)) + cur_before
                            =~= flatten_chars(lines_view(lines@))
                                + (if false { cur_before } else { Seq::<char>::empty() }));
                    }
                    assert(lines_view(lines@) == lines_entry);
                }
            } else if seg_scaled <= box_scaled {
                // The chunk fits a line of its own: start a new line.
                if open {
                    let ghost pre = lines@;
                    let ghost gcur = cur;
                    lines.push(cur);
                    proof {
                        lemma_lines_view_push(pre, gcur);
                    }
                }
                cur = segment.clone();
                cur_adv = seg_adv;
                open = true;
                proof {
                    assert(cur@ == seg_view);
                    assert(flatten_chars(lines_view(lines@)) + cur@
                        =~= flatten_chars(lines_view(segments@).take(s as int)) + seg_view);
                    let closed = if open_entry { lines_entry.push(cur_entry) } else { lines_entry };
                    assert(lines_view(lines@) == closed);
                }
            } else {
                // The chunk alone exceeds the box: pack character by
                // character under the same greedy rule.
                let ghost flat_prefix = flatten_chars(lines_view(segments@).take(s as int));
                let ghost inner_target = pack_chars(
                    *font, box_scaled as int, font_size as int, character_spacing as int,
                    lines_entry, cur_entry, open_entry, seg_view);
                proof {
                    assert(seg_view.take(0) =~= Seq::<char>::empty());
                    assert(seg_view.skip(0) =~= seg_view);
                    assert(flatten_chars(lines_view(lines@))
                        + (if open { cur@ } else { Seq::<char>::empty() })
                        =~= flat_prefix + seg_view.take(0));
                }
                let mut c: usize = 0;
                while c < segment.len()
                    invariant
                        0 <= c <= segment@.len(),
                        pack_chars(*font, box_scaled as int, font_size as int,
                            character_spacing as int, lines_view(lines@), cur@, open,
                            seg_view.skip(c as int)) == inner_target,
                        flatten_chars(lines_view(lines@))
                            + (if open { cur@ } else { Seq::<char>::empty() })
                            == flat_prefix + seg_view.take(c as int),
                        wrapped_lines_ok(
                            *font,
                            lines_view(lines@),
                            font_size as int,
                            box_width as int,
                            character_spacing as int,
                        ),
                        open ==> (line_fits(
                            *font, cur@, font_size as int, box_width as int,
                            character_spacing as int,
                        ) || cur@.len() == 1),
                        !open ==> cur@.len() == 0,
                        cur_adv == font.spec_advance_sum(cur@),
                    decreases segment@.len() - c,
                {
                    proof {
                        assert(flat_prefix.len() + seg_view.len()
                            == flatten_chars(lines_view(segments@).take(s as int + 1)).len());
                        font.lemma_advance_sum_bounded(cur@);
                        font.lemma_advance_bounded();
                    }
                    let ch = segment[c];
                    let ch_adv = font.advance_of(ch) as i64;
                    proof {
                        lemma_pack_products_bounded(
                            cur_adv as int, ch_adv as int,
                            cur@.len() as int, 1int,
                            font_size as int, character_spacing as int,
                            font.units_per_em as int,
                        );
                    }
                    let with_adv = cur_adv + ch_adv;
                    let with_len = (cur.len() + 1) as i64;
                    let with_scaled = with_adv * font_size
                        + (with_len - 1) * character_spacing * (font.units_per_em as i64);
                    proof {
                        assert(seq![ch].len() == 1);
                        assert(seq![ch].last() == ch);
                        assert(seq![ch].drop_last() =~= Seq::<char>::empty());
                        assert(font.spec_advance_sum(Seq::<char>::empty()) == 0);
                        assert(font.spec_advance_sum(seq![ch])
                            == font.spec_advance_sum(seq![ch].drop_last())
                                + font.spec_advance_of(seq![ch].last()));
                        assert(font.spec_advance_sum(seq![ch]) == font.spec_advance_of(ch));
                        font.lemma_advance_sum_append(cur@, seq![ch]);
                        assert(with_scaled == font.spec_width_scaled(
                            cur@ + seq![ch], font_size as int, character_spacing as int));
                    }
                    let ghost cur_before = cur@;
                    let ghost flat_before = flatten_chars(lines_view(lines@));
                    let ghost was_open = open;
                    let ghost lines_before_step = lines_view(lines@);
                    proof {
                        assert(seg_view.skip(c as int)[0] == ch);
                        assert(seg_view.skip(c as int).drop_first()
                            =~= seg_view.skip(c as int + 1));
                        assert(cur_before.push(ch) =~= cur_before + seq![ch]);
                    }
                    if open && with_scaled <= box_scaled {
                        cur.push(ch);
                        cur_adv = with_adv;
                        proof {
                            assert(cur@ =~= cur_before + seq![ch]);
                            assert(flat_before + cur_before
                                == flat_prefix + seg_view.take(c as int));
                            assert(flat_before + cur@
                                =~= (flat_before + cur_before) + seq![ch]);
                            assert(cur@ == cur_before.push(ch));
                        }
                    } else {
                        if open {
                            let ghost pre = lines@;
                            let ghost gcur = cur;
                            lines.push(cur);
                            cur = Vec::new();
                            proof {
                                lemma_lines_view_push(pre, gcur);
                                assert(flatten_chars(lines_view(lines@))
                                    == flat_before + cur_before);
                            }
                        }
                        cur = Vec::new();
                        cur.push(ch);
                        cur_adv = ch_adv;
                        open = true;
                        proof {
                            assert(cur@ =~= seq![ch]);
                            if was_open {
                                assert(flatten_chars(lines_view(lines@))
                                    == flat_prefix + seg_view.take(c as int));
                                assert(lines_view(lines@)
                                    == lines_before_step.push(cur_before));
                            } else {
                                assert(flatten_chars(lines_view(lines@)) == flat_before);
                                assert(flat_before + Seq::<char>::empty()
                                    == flat_prefix + seg_view.take(c as int));
                                assert(flat_before =~= flat_prefix + seg_view.take(c as int));
                                assert(lines_view(lines@) == lines_before_step);
                            }
                        }
                    }
                    proof {
                        assert(seg_view.take(c as int + 1)
                            =~= seg_view.take(c as int) + seq![ch]);
                        assert(flatten_chars(lines_view(lines@))
                            + (if open { cur@ } else { Seq::<char>::empty() })
                            =~= flat_prefix + seg_view.take(c as int + 1));
                    }
                    c = c + 1;
                }
                proof {
                    assert(seg_view.take(seg_view.len() as int) =~= seg_view);
                    assert(seg_view.skip(seg_view.len() as int)
                        =~= Seq::<char>::empty());
                    assert((lines_view(lines@), cur@, open) == inner_target);
                }
            }
        }
        s = s + 1;
    }
    proof {
        assert(seg_views.skip(segments@.len() as int) =~= Seq::<Seq<char>>::empty());
        assert((lines_view(lines@), cur@, open) == target);
    }
    if open {
        let ghost pre = lines@;
        let ghost gcur = cur;
        lines.push(cur);
        proof {
            lemma_lines_view_push(pre, gcur);
        }
    }
    proof {
        assert(lines_view(segments@).take(segments@.len() as int) =~= lines_view(segments@));
    }
    lines
}

/// The products inside a greedy packing check stay inside `i64`.
proof fn lemma_pack_products_bounded(
    adv_a: int,
    adv_b: int,
    len_a: int,
    len_b: int,
    font_size: int,
    spacing: int,
    upem: int,
)
    by (nonlinear_arith)
    requires
        0 <= adv_a <= len_a * MAX_ADVANCE as int,
        0 <= adv_b <= len_b * MAX_ADVANCE as int,
        0 <= len_a <= MAX_TEXT_LEN as int,
        0 <= len_b <= MAX_TEXT_LEN as int,
        0 <= font_size <= MAX_FONT_SIZE as int,
        0 <= spacing <= MAX_SPACING as int,
        1 <= upem <= MAX_UNITS_PER_EM as int,
    ensures
        0 <= (adv_a + adv_b) * font_size <= 0x2000_0000_0000_0000,
        len_a + len_b >= 1 ==>
            0 <= (len_a + len_b - 1) * spacing <= 0x2000_0000_0000,
        len_a + len_b >= 1 ==>
            0 <= (len_a + len_b - 1) * spacing * upem <= 0x2000_0000_0000_0000,
        0 <= adv_b * font_size <= 0x1000_0000_0000_0000,
        len_b >= 1 ==> 0 <= (len_b - 1) * spacing <= 0x1000_0000_0000,
        len_b >= 1 ==> 0 <= (len_b - 1) * spacing * upem <= 0x1000_0000_0000_0000,
        0 <= adv_a * font_size <= 0x1000_0000_0000_0000,
{
}


/// The first index of a newline in a run, if any.
pub open spec fn find_newline(s: Seq<char>) -> Option<int>
    decreases s.len(),
{
    if s.len() == 0 {
        None
    } else if s[0] == '\n' {
        Some(0)
    } else {
        match find_newline(s.drop_first()) {
            Some(i) => Some(i + 1),
            None => None,
        }
    }
}

/// What `find_newline` returns: the first newline position.
pub proof fn lemma_find_newline_props(s: Seq<char>)
    ensures
        match find_newline(s) {
            Some(i) => 0 <= i < s.len() && s[i] == '\n'
                && (forall|j: int| 0 <= j < i ==> s[j] != '\n'),
            None => forall|j: int| 0 <= j < s.len() ==> s[j] != '\n',
        },
    decreases s.len(),
{
    if s.len() > 0 && s[0] != '\n' {
        lemma_find_newline_props(s.drop_first());
        match find_newline(s.drop_first()) {
            Some(i) => {
                assert(s.drop_first()[i] == s[i + 1]);
                assert forall|j: int| 0 <= j < i + 1 implies s[j] != '\n' by {
                    if j > 0 {
                        assert(s.drop_first()[j - 1] == s[j]);
                    }
                }
            }
            None => {
                assert forall|j: int| 0 <= j < s.len() implies s[j] != '\n' by {
                    if j > 0 {
                        assert(s.drop_first()[j - 1] == s[j]);
                    }
                }
            }
        }
    }
}

/// A run with no newline before `k` and a newline at `k` finds it at `k`.
pub proof fn lemma_find_newline_at(s: Seq<char>, k: int)
    requires
        0 <= k < s.len(),
        s[k] == '\n',
        forall|j: int| 0 <= j < k ==> s[j] != '\n',
    ensures
        find_newline(s) == Some(k),
    decreases k,
{
    if k > 0 {
        lemma_find_newline_at(s.drop_first(), k - 1);
    }
}

/// A run with no newline at all finds none.
pub proof fn lemma_find_newline_none(s: Seq<char>)
    requires
        forall|j: int| 0 <= j < s.len() ==> s[j] != '\n',
    ensures
        find_newline(s) is None,
    decreases s.len(),
{
    if s.len() > 0 {
        lemma_find_newline_none(s.drop_first());
    }
}

/// The paragraphs of a text run: the pieces between newlines.  A text
/// ending in a newline yields no trailing empty paragraph, and the
/// empty text yields no paragraph at all.
pub open spec fn spec_split_paragraphs(s: Seq<char>) -> Seq<Seq<char>>
    decreases s.len(),
        via spec_split_paragraphs_decreases
{
    if s.len() == 0 {
        Seq::empty()
    } else {
        match find_newline(s) {
            None => seq![s],
            Some(i) => seq![s.take(i)] + spec_split_paragraphs(s.skip(i + 1)),
        }
    }
}

#[via_fn]
proof fn spec_split_paragraphs_decreases(s: Seq<char>) {
    lemma_find_newline_props(s);
}

/// Splits a text run into paragraphs on explicit newlines.
pub fn split_paragraphs(content: &Vec<char>) -> (paragraphs: Vec<Vec<char>>)
    ensures
        lines_view(paragraphs@) == spec_split_paragraphs(content@),
{
    let mut paragraphs: Vec<Vec<char>> = Vec::new();
    let mut cur: Vec<char> = Vec::new();
    let mut i: usize = 0;
    proof {
        assert(lines_view(paragraphs@) =~= Seq::<Seq<char>>::empty());
        assert(content@.skip(0) =~= content@);
    }
    while i < content.len()
        invariant
            0 <= i <= content@.len(),
            cur@.len() <= i,
            cur@ == content@.subrange(i - cur@.len(), i as int),
            forall|j: int| i - cur@.len() <= j < i ==> content@[j] != '\n',
            spec_split_paragraphs(content@) == lines_view(paragraphs@)
                + spec_split_paragraphs(content@.skip(i - cur@.len())),
        decreases content@.len() - i,
    {
        let c = content[i];
        let ghost start = i - cur@.len();
        let ghost rest = content@.skip(start);
        if c == '\n' {
            proof {
                assert(rest[i - start] == '\n');
                assert forall|j: int| 0 <= j < i - start implies rest[j] != '\n' by {
                    assert(rest[j] == content@[start + j]);
                }
                lemma_find_newline_at(rest, i - start);
                assert(rest.take(i - start) =~= cur@);
                assert(rest.skip(i - start + 1) =~= content@.skip(i + 1));
                assert(spec_split_paragraphs(rest)
                    == seq![cur@] + spec_split_paragraphs(content@.skip(i + 1)));
            }
            let ghost pre = paragraphs@;
            let ghost gcur = cur;
            paragraphs.push(cur);
            cur = Vec::new();
            proof {
                assert(lines_view(paragraphs@) =~= lines_view(pre).push(gcur@));
                assert(lines_view(pre) + (seq![gcur@]
                    + spec_split_paragraphs(content@.skip(i + 1)))
                    =~= lines_view(paragraphs@)
                        + spec_split_paragraphs(content@.skip(i + 1)));
            }
        } else {
            let ghost cur_before = cur@;
            cur.push(c);
            proof {
                assert(cur@ =~= content@.subrange(start, i + 1));
            }
        }
        i = i + 1;
    }
    if cur.len() > 0 {
        let ghost start = i - cur@.len();
        let ghost rest = content@.skip(start);
        proof {
            assert forall|j: int| 0 <= j < rest.len() implies rest[j] != '\n' by {
                assert(rest[j] == content@[start + j]);
            }
            lemma_find_newline_none(rest);
            assert(rest =~= cur@);
            assert(rest.len() > 0);
            assert(spec_split_paragraphs(rest) == seq![rest]);
        }
        let ghost pre = paragraphs@;
        let ghost gcur = cur;
        paragraphs.push(cur);
        proof {
            assert(lines_view(paragraphs@) =~= lines_view(pre).push(gcur@));
            assert(lines_view(pre) + seq![gcur@] =~= lines_view(paragraphs@));
        }
    } else {
        proof {
            let rest = content@.skip(i as int);
            assert(rest =~= Seq::<char>::empty());
            assert(spec_split_paragraphs(rest) =~= Seq::<Seq<char>>::empty());
            assert(lines_view(paragraphs@) + Seq::<Seq<char>>::empty()
                =~= lines_view(paragraphs@));
        }
    }
    paragraphs
}

/// Everything but the newlines: what wrapping preserves of a text run.
pub open spec fn without_newlines(s: Seq<char>) -> Seq<char> {
    s.filter(|c: char| c != '\n')
}

/// The paragraphs of a run concatenate to the run without its newlines.
pub proof fn lemma_split_paragraphs_chars(s: Seq<char>)
    ensures
        flatten_chars(spec_split_paragraphs(s)) == without_newlines(s),
    decreases s.len(),
{
    reveal(Seq::filter);
    broadcast use vstd::seq_lib::group_filter_ensures;
    if s.len() == 0 {
        assert(without_newlines(s) =~= Seq::<char>::empty());
    } else {
        lemma_find_newline_props(s);
        match find_newline(s) {
            None => {
                assert(spec_split_paragraphs(s) == seq![s]);
                assert(seq![s].drop_first() =~= Seq::<Seq<char>>::empty());
                assert(seq![s][0] == s);
                assert(flatten_chars(Seq::<Seq<char>>::empty()) =~= Seq::<char>::empty());
                assert(flatten_chars(seq![s])
                    == s + flatten_chars(seq![s].drop_first()));
                assert(flatten_chars(spec_split_paragraphs(s)) =~= s);
                lemma_filter_identity(s);
            }
            Some(i) => {
                let head = s.take(i);
                let tail = s.skip(i + 1);
                assert(spec_split_paragraphs(s) == seq![head] + spec_split_paragraphs(tail));
                assert((seq![head] + spec_split_paragraphs(tail)).drop_first()
                    =~= spec_split_paragraphs(tail));
                assert((seq![head] + spec_split_paragraphs(tail))[0] == head);
                assert(flatten_chars(spec_split_paragraphs(s))
                    == head + flatten_chars(spec_split_paragraphs(tail)));
                lemma_split_paragraphs_chars(tail);
                assert forall|j: int| 0 <= j < head.len() implies head[j] != '\n' by {
                    assert(head[j] == s[j]);
                }
                lemma_filter_identity(head);
                assert(s =~= head + seq![s[i]] + tail);
                Seq::filter_distributes_over_add(
                    head + seq![s[i]], tail, |c: char| c != '\n');
                Seq::filter_distributes_over_add(head, seq![s[i]], |c: char| c != '\n');
                assert(seq![s[i]].drop_last() =~= Seq::<char>::empty());
                assert(seq![s[i]].last() == s[i]);
                assert(without_newlines(Seq::<char>::empty()) =~= Seq::<char>::empty());
                assert(without_newlines(seq![s[i]])
                    == without_newlines(seq![s[i]].drop_last()));
                assert(without_newlines(seq![s[i]]) =~= Seq::<char>::empty());
                assert(without_newlines(s)
                    =~= head + without_newlines(tail));
            }
        }
    }
}

/// Filtering for non-newlines leaves a newline-free run unchanged.
pub proof fn lemma_filter_identity(s: Seq<char>)
    requires
        forall|j: int| 0 <= j < s.len() ==> s[j] != '\n',
    ensures
        without_newlines(s) == s,
    decreases s.len(),
{
    reveal(Seq::filter);
    if s.len() > 0 {
        lemma_filter_identity(s.drop_last());
        assert(s[s.len() - 1] != '\n');
        assert(s.last() != '\n');
        assert(without_newlines(s)
            == without_newlines(s.drop_last()).push(s.last()));
        assert(without_newlines(s.drop_last()).push(s.last()) =~= s);
    }
}

/// Wraps a text run into lines that fit a box width: the run splits on
/// explicit newlines, each paragraph is cut into chunks by the outside
/// word segmenter, and the chunks pack greedily.
///
/// Every returned line measures within `box_width` at the given size
/// and spacing, unless it is a single character wider than the box;
/// and the lines concatenate to the input without its newlines, so no
/// character is lost.
pub fn split_text_to_size(
    font: &FontMetrics,
    content: &Vec<char>,
    font_size: i64,
    box_width: i64,
    character_spacing: i64,
) -> (lines: Vec<Vec<char>>)
    requires
        font.wf(),
        content@.len() <= MAX_TEXT_LEN,
        0 <= font_size <= MAX_FONT_SIZE,
        0 <= character_spacing <= MAX_SPACING,
        0 <= box_width <= 0x4000_0000_0000,
    ensures
        spec_wrap_of(*font, content@, font_size as int, box_width as int,
            character_spacing as int, lines_view(lines@)),
        flatten_chars(lines_view(lines@)) == without_newlines(content@),
        forall|i: int| 0 <= i < lines@.len() ==>
            font.spec_width_of(#[trigger] lines@[i]@, font_size as int, character_spacing as int)
                <= box_width || lines@[i]@.len() == 1,
        forall|i: int| 0 <= i < lines@.len() ==> lines@[i]@.len() <= MAX_TEXT_LEN,
        lines@.len() <= 4 * content@.len() + 1,
{
    let paragraphs = split_paragraphs(content);
    let ghost para_views = lines_view(paragraphs@);
    proof {
        lemma_split_paragraphs_chars(content@);
        broadcast use vstd::seq_lib::group_filter_ensures;
        assert(without_newlines(content@).len() <= content@.len());
        assert(para_views.take(0) =~= Seq::<Seq<char>>::empty());
    }
    let mut lines: Vec<Vec<char>> = Vec::new();
    let mut p: usize = 0;
    let ghost mut collected: Seq<Seq<Seq<char>>> = Seq::empty();
    proof {
        assert(lines_view(lines@) =~= Seq::<Seq<char>>::empty());
        assert(spec_wrapped_lines(*font, collected, font_size as int, box_width as int,
            character_spacing as int) =~= Seq::<Seq<char>>::empty());
    }
    while p < paragraphs.len()
        invariant
            0 <= p <= paragraphs@.len(),
            collected.len() == p,
            forall|q: int| 0 <= q < p
                ==> flatten_chars(#[trigger] collected[q]) == para_views[q],
            forall|q: int| 0 <= q < p
                ==> (forall|i: int| 0 <= i < (#[trigger] collected[q]).len()
                    ==> (#[trigger] collected[q][i]).len() > 0),
            lines_view(lines@) == spec_wrapped_lines(*font, collected, font_size as int,
                box_width as int, character_spacing as int),
            flatten_chars(lines_view(lines@))
                == flatten_chars(para_views.take(p as int)),
            forall|i: int| 0 <= i < lines@.len() ==>
                line_fits(*font, #[trigger] lines@[i]@, font_size as int,
                    box_width as int, character_spacing as int)
                || lines@[i]@.len() == 1,
            lines@.len() <= 3 * flatten_chars(para_views.take(p as int)).len() + p,
        decreases paragraphs@.len() - p,
    {
        let paragraph = &paragraphs[p];
        let segments = segment_words(paragraph);
        proof {
            lemma_flatten_take_step(para_views, p as int);
            lemma_flatten_member_len(para_views, p as int);
            assert(flatten_chars(para_views) == without_newlines(content@));
            assert(paragraph@.len() <= MAX_TEXT_LEN);
            assert(flatten_chars(lines_view(segments@)).len() <= MAX_TEXT_LEN);
            lemma_nonempty_count(lines_view(segments@));
            crate::fit::lemma_spec_pack_count(*font, lines_view(segments@),
                font_size as int, box_width as int, character_spacing as int);
        }
        let mut packed = pack_segments(font, &segments, font_size, box_width, character_spacing);
        let ghost packed_view = lines_view(packed@);
        let ghost lines_before = lines@;
        let ghost seg_list = lines_view(segments@);
        lines.append(&mut packed);
        proof {
            lemma_wrapped_lines_push(*font, collected, seg_list, font_size as int,
                box_width as int, character_spacing as int);
            collected = collected.push(seg_list);
            assert(lines_view(lines@) =~= lines_view(lines_before) + packed_view);
            lemma_flatten_append(lines_view(lines_before), packed_view);
            assert(flatten_chars(lines_view(lines@))
                == flatten_chars(para_views.take(p as int)) + para_views[p as int]);
            assert forall|i: int| 0 <= i < lines@.len() implies
                (line_fits(*font, #[trigger] lines@[i]@, font_size as int,
                    box_width as int, character_spacing as int)
                || lines@[i]@.len() == 1) by {
                if i < lines_before.len() {
                    assert(lines@[i] == lines_before[i]);
                } else {
                    assert(lines@[i]@ == lines_view(lines@)[i]);
                    assert(lines_view(lines@)[i] == packed_view[i - lines_before.len()]);
                }
            }
        }
        p = p + 1;
    }
    proof {
        assert(para_views.take(paragraphs@.len() as int) =~= para_views);
        assert(is_segmentation(content@, collected));
        assert(spec_wrap_of(*font, content@, font_size as int, box_width as int,
            character_spacing as int, lines_view(lines@)));
        lemma_split_paragraph_count(content@);
        broadcast use vstd::seq_lib::group_filter_ensures;
        assert(without_newlines(content@).len() <= content@.len());
        assert forall|i: int| 0 <= i < lines@.len() implies
            font.spec_width_of(#[trigger] lines@[i]@, font_size as int, character_spacing as int)
                <= box_width || lines@[i]@.len() == 1 by {
            if line_fits(*font, lines@[i]@, font_size as int,
                box_width as int, character_spacing as int) {
                lemma_width_scaled_nonneg(
                    *font, lines@[i]@, font_size as int, character_spacing as int);
                lemma_fits_bounds_width(
                    *font, lines@[i]@, font_size as int,
                    box_width as int, character_spacing as int);
            }
        }
        assert forall|i: int| 0 <= i < lines@.len()
            implies lines@[i]@.len() <= MAX_TEXT_LEN by {
            lemma_flatten_member_len(lines_view(lines@), i);
        }
    }
    lines
}

/// Concatenation of runs distributes over list append.
pub proof fn lemma_flatten_append(a: Seq<Seq<char>>, b: Seq<Seq<char>>)
    ensures
        flatten_chars(a + b) == flatten_chars(a) + flatten_chars(b),
    decreases b.len(),
{
    if b.len() == 0 {
        assert(a + b =~= a);
        assert(flatten_chars(a) + flatten_chars(b) =~= flatten_chars(a));
    } else {
        lemma_flatten_append(a, b.drop_last());
        assert((a + b).drop_last() =~= a + b.drop_last());
        lemma_flatten_unsnoc(a + b);
        lemma_flatten_unsnoc(b);
        assert(flatten_chars(a + b)
            == (flatten_chars(a) + flatten_chars(b.drop_last())) + b.last());
        assert((flatten_chars(a) + flatten_chars(b.drop_last())) + b.last()
            =~= flatten_chars(a) + (flatten_chars(b.drop_last()) + b.last()));
    }
}

/// Concatenation peels its last run.
pub proof fn lemma_flatten_unsnoc(segs: Seq<Seq<char>>)
    requires
        segs.len() > 0,
    ensures
        flatten_chars(segs) == flatten_chars(segs.drop_last()) + segs.last(),
{
    assert(segs =~= segs.drop_last().push(segs.last()));
    lemma_flatten_push(segs.drop_last(), segs.last());
}

/// A member of a list of runs is no longer than their concatenation.
pub proof fn lemma_flatten_member_len(segs: Seq<Seq<char>>, i: int)
    requires
        0 <= i < segs.len(),
    ensures
        segs[i].len() <= flatten_chars(segs).len(),
{
    lemma_flatten_suffix(segs, i);
    assert(segs.skip(i)[0] == segs[i]);
    assert(flatten_chars(segs.skip(i))
        == segs[i] + flatten_chars(segs.skip(i).drop_first()));
}

/// A line whose scaled width fits the scaled box measures within the
/// box width.
pub proof fn lemma_fits_bounds_width(
    font: FontMetrics,
    line: Seq<char>,
    size: int,
    box_width: int,
    spacing: int,
)
    requires
        font.wf(),
        box_width >= 0,
        line_fits(font, line, size, box_width, spacing),
        font.spec_width_scaled(line, size, spacing) >= 0,
    ensures
        font.spec_width_of(line, size, spacing) <= box_width,
{
    let w = font.spec_width_scaled(line, size, spacing);
    let u = font.units_per_em as int;
    assert(w / u <= (box_width * u) / u) by (nonlinear_arith)
        requires
            0 <= w <= box_width * u,
            u >= 1,
    ;
    assert((box_width * u) / u == box_width) by (nonlinear_arith)
        requires
            u >= 1,
    ;
}


/// A width never comes out negative for non-negative size and spacing.
pub proof fn lemma_width_scaled_nonneg(
    font: FontMetrics,
    line: Seq<char>,
    size: int,
    spacing: int,
)
    requires
        font.wf(),
        size >= 0,
        spacing >= 0,
    ensures
        font.spec_width_scaled(line, size, spacing) >= 0,
{
    if line.len() > 0 {
        font.lemma_advance_sum_bounded(line);
        let sum = font.spec_advance_sum(line);
        assert(sum * size >= 0) by (nonlinear_arith)
            requires
                sum >= 0,
                size >= 0,
        ;
        assert((line.len() - 1) * spacing * font.units_per_em >= 0) by (nonlinear_arith)
            requires
                line.len() >= 1,
                spacing >= 0,
                font.units_per_em >= 1,
        ;
    }
}


/// A list of nonempty runs is no longer than its concatenation.
pub proof fn lemma_nonempty_count(segs: Seq<Seq<char>>)
    requires
        forall|i: int| 0 <= i < segs.len() ==> (#[trigger] segs[i]).len() > 0,
    ensures
        segs.len() <= flatten_chars(segs).len(),
    decreases segs.len(),
{
    if segs.len() > 0 {
        assert forall|i: int| 0 <= i < segs.drop_first().len()
            implies (#[trigger] segs.drop_first()[i]).len() > 0 by {
            assert(segs.drop_first()[i] == segs[i + 1]);
        }
        lemma_nonempty_count(segs.drop_first());
    }
}

/// A text of bounded length splits into at most that many paragraphs.
pub proof fn lemma_split_paragraph_count(s: Seq<char>)
    ensures
        spec_split_paragraphs(s).len() <= s.len(),
    decreases s.len(),
{
    if s.len() > 0 {
        lemma_find_newline_props(s);
        match find_newline(s) {
            None => {}
            Some(i) => {
                lemma_split_paragraph_count(s.skip(i + 1));
            }
        }
    }
}

/// Relies on str::chars: iterating a string slice yields exactly its
/// characters in order.
#[verifier::external_body]
pub(crate) fn chars_of(s: &str) -> (r: Vec<char>)
    ensures
        r@ == s@,
{
    s.chars().collect()
}

/// Whether segmented paragraphs are a faithful segmentation of a text:
/// one chunk list per newline-separated paragraph, every chunk
/// nonempty, and each paragraph's chunks concatenating to that
/// paragraph.
pub open spec fn is_segmentation(content: Seq<char>, paragraphs: Seq<Seq<Seq<char>>>) -> bool {
    &&& paragraphs.len() == spec_split_paragraphs(content).len()
    &&& (forall|p: int| 0 <= p < paragraphs.len()
        ==> flatten_chars(#[trigger] paragraphs[p]) == spec_split_paragraphs(content)[p])
    &&& (forall|p: int| 0 <= p < paragraphs.len()
        ==> (forall|i: int| 0 <= i < (#[trigger] paragraphs[p]).len()
            ==> (#[trigger] paragraphs[p][i]).len() > 0))
}

/// The lines wrapping segmented paragraphs produces: each paragraph's
/// chunks packed greedily, joined in paragraph order.
pub open spec fn spec_wrapped_lines(
    font: FontMetrics,
    paragraphs: Seq<Seq<Seq<char>>>,
    size: int,
    box_width: int,
    spacing: int,
) -> Seq<Seq<char>>
    decreases paragraphs.len(),
{
    if paragraphs.len() == 0 {
        Seq::empty()
    } else {
        spec_pack(font, paragraphs[0], size, box_width, spacing)
            + spec_wrapped_lines(font, paragraphs.drop_first(), size, box_width, spacing)
    }
}

/// Wrapping one more paragraph appends its packed lines.
pub proof fn lemma_wrapped_lines_push(
    font: FontMetrics,
    paragraphs: Seq<Seq<Seq<char>>>,
    next: Seq<Seq<char>>,
    size: int,
    box_width: int,
    spacing: int,
)
    ensures
        spec_wrapped_lines(font, paragraphs.push(next), size, box_width, spacing)
            == spec_wrapped_lines(font, paragraphs, size, box_width, spacing)
                + spec_pack(font, next, size, box_width, spacing),
    decreases paragraphs.len(),
{
    if paragraphs.len() == 0 {
        assert(paragraphs.push(next).drop_first() =~= Seq::<Seq<Seq<char>>>::empty());
        assert(paragraphs.push(next)[0] == next);
        assert(spec_wrapped_lines(font, paragraphs, size, box_width, spacing)
            =~= Seq::<Seq<char>>::empty());
        assert(spec_wrapped_lines(font, paragraphs.push(next), size, box_width, spacing)
            == spec_pack(font, next, size, box_width, spacing)
                + spec_wrapped_lines(font, paragraphs.push(next).drop_first(), size,
                    box_width, spacing));
        assert(spec_wrapped_lines(font, paragraphs.push(next).drop_first(), size,
            box_width, spacing) =~= Seq::<Seq<char>>::empty());
        assert(spec_wrapped_lines(font, paragraphs.push(next), size, box_width, spacing)
            =~= spec_wrapped_lines(font, paragraphs, size, box_width, spacing)
                + spec_pack(font, next, size, box_width, spacing));
    } else {
        assert(paragraphs.push(next).drop_first() =~= paragraphs.drop_first().push(next));
        assert(paragraphs.push(next)[0] == paragraphs[0]);
        lemma_wrapped_lines_push(font, paragraphs.drop_first(), next, size, box_width,
            spacing);
        assert(spec_wrapped_lines(font, paragraphs.push(next), size, box_width, spacing)
            =~= spec_wrapped_lines(font, paragraphs, size, box_width, spacing)
                + spec_pack(font, next, size, box_width, spacing));
    }
}

/// The wrapped line count equals the fitter's line count.
pub proof fn lemma_wrapped_lines_count(
    font: FontMetrics,
    paragraphs: Seq<Seq<Seq<char>>>,
    size: int,
    box_width: int,
    spacing: int,
)
    ensures
        spec_wrapped_lines(font, paragraphs, size, box_width, spacing).len()
            == crate::fit::spec_line_count(font, paragraphs, size, box_width, spacing),
    decreases paragraphs.len(),
{
    if paragraphs.len() > 0 {
        lemma_wrapped_lines_count(font, paragraphs.drop_first(), size, box_width, spacing);
    }
}

/// Whether a line list is the wrap of a text under some faithful
/// segmentation of it.
pub open spec fn spec_wrap_of(
    font: FontMetrics,
    content: Seq<char>,
    size: int,
    box_width: int,
    spacing: int,
    lines: Seq<Seq<char>>,
) -> bool {
    exists|paragraphs: Seq<Seq<Seq<char>>>| is_segmentation(content, paragraphs)
        && lines == #[trigger] spec_wrapped_lines(font, paragraphs, size, box_width, spacing)
}

/// Cuts a text into paragraphs on newlines and each paragraph into
/// word-like chunks by the outside segmenter.  Every chunk is
/// nonempty; each paragraph's chunks concatenate to that paragraph.
pub fn segment_content(content: &Vec<char>) -> (r: Vec<Vec<Vec<char>>>)
    ensures
        is_segmentation(content@, crate::fit::paragraphs_view(r@)),
        r@.len() == spec_split_paragraphs(content@).len(),
        forall|p: int| 0 <= p < r@.len() ==>
            flatten_chars(lines_view((#[trigger] r@[p])@))
                == spec_split_paragraphs(content@)[p],
        forall|p: int| 0 <= p < r@.len() ==>
            forall|i: int| 0 <= i < (#[trigger] r@[p])@.len()
                ==> (#[trigger] r@[p]@[i])@.len() > 0,
{
    let paragraphs = split_paragraphs(content);
    let mut segmented: Vec<Vec<Vec<char>>> = Vec::new();
    let mut p: usize = 0;
    while p < paragraphs.len()
        invariant
            0 <= p <= paragraphs@.len(),
            lines_view(paragraphs@) == spec_split_paragraphs(content@),
            segmented@.len() == p,
            forall|q: int| 0 <= q < p ==>
                flatten_chars(lines_view((#[trigger] segmented@[q])@))
                    == spec_split_paragraphs(content@)[q],
            forall|q: int| 0 <= q < p ==>
                forall|i: int| 0 <= i < (#[trigger] segmented@[q])@.len()
                    ==> (#[trigger] segmented@[q]@[i])@.len() > 0,
        decreases paragraphs@.len() - p,
    {
        let segs = segment_words(&paragraphs[p]);
        proof {
            assert(lines_view(paragraphs@)[p as int] == paragraphs@[p as int]@);
        }
        segmented.push(segs);
        p = p + 1;
    }
    segmented
}

/// The total character count of segmented paragraphs.
pub open spec fn total_chars(paragraphs: Seq<Seq<Seq<char>>>) -> int
    decreases paragraphs.len(),
{
    if paragraphs.len() == 0 {
        0
    } else {
        flatten_chars(paragraphs[0]).len() + total_chars(paragraphs.drop_first())
    }
}

/// With nonempty chunks, the packing budget is bounded by three
/// characters per character plus one line per paragraph.
pub proof fn lemma_budget_by_total(paragraphs: Seq<Seq<Seq<char>>>)
    requires
        forall|p: int| 0 <= p < paragraphs.len() ==>
            forall|i: int| 0 <= i < (#[trigger] paragraphs[p]).len()
                ==> (#[trigger] paragraphs[p][i]).len() > 0,
    ensures
        crate::fit::spec_pack_budget(paragraphs)
            <= 3 * total_chars(paragraphs) + paragraphs.len(),
        total_chars(paragraphs) >= 0,
    decreases paragraphs.len(),
{
    if paragraphs.len() > 0 {
        lemma_nonempty_count(paragraphs[0]);
        assert forall|p: int| 0 <= p < paragraphs.drop_first().len() implies
            forall|i: int| 0 <= i < (#[trigger] paragraphs.drop_first()[p]).len()
                ==> (#[trigger] paragraphs.drop_first()[p][i]).len() > 0 by {
            assert(paragraphs.drop_first()[p] == paragraphs[p + 1]);
        }
        lemma_budget_by_total(paragraphs.drop_first());
    }
}

/// When each segmented paragraph's chunks concatenate to a piece, the
/// total character count equals the pieces' joined length.
pub proof fn lemma_total_chars_matches(paragraphs: Seq<Seq<Seq<char>>>, pieces: Seq<Seq<char>>)
    requires
        paragraphs.len() == pieces.len(),
        forall|p: int| 0 <= p < paragraphs.len() ==>
            flatten_chars(#[trigger] paragraphs[p]) == pieces[p],
    ensures
        total_chars(paragraphs) == flatten_chars(pieces).len(),
    decreases paragraphs.len(),
{
    if paragraphs.len() > 0 {
        assert forall|p: int| 0 <= p < paragraphs.drop_first().len() implies
            flatten_chars(#[trigger] paragraphs.drop_first()[p])
                == pieces.drop_first()[p] by {
            assert(paragraphs.drop_first()[p] == paragraphs[p + 1]);
            assert(pieces.drop_first()[p] == pieces[p + 1]);
        }
        lemma_total_chars_matches(paragraphs.drop_first(), pieces.drop_first());
        assert(flatten_chars(pieces) == pieces[0] + flatten_chars(pieces.drop_first()));
    }
}

/// Each paragraph of a split text is no longer than the text.
pub proof fn lemma_split_member_len(s: Seq<char>, p: int)
    requires
        0 <= p < spec_split_paragraphs(s).len(),
    ensures
        spec_split_paragraphs(s)[p].len() <= s.len(),
{
    lemma_split_paragraphs_chars(s);
    lemma_flatten_member_len(spec_split_paragraphs(s), p);
    broadcast use vstd::seq_lib::group_filter_ensures;
    assert(without_newlines(s).len() <= s.len());
}

} // verus!
