//! Measurement, line breaking, forbidden-character migration and
//! font-size fitting, against a small synthetic font.

use pdforge::fit::{DynamicFontSize, DynamicFontSizeFit, FontSize, JsonFontSize,
    calculate_dynamic_font_size, calculate_constraints};
use pdforge::font::{FontMetrics, FontMap, calculate_character_spacing, sanitize_text_for_font};
use pdforge::kinsoku::{filter_start_jp, filter_end_jp, filter_start_de, filter_end_de,
    filter_start_forbidden_chars, filter_end_forbidden_chars};
use pdforge::wrap::{split_text_to_size, segment_content, pack_segments};
use pdforge::error::Error;

/// A font of one-em square with every listed letter half an em wide.
fn half_em_font() -> FontMetrics {
    let glyphs: Vec<(char, u32)> = "abcdefghijklmnopqrstuvwxyzHW/"
        .chars()
        .map(|c| (c, 500u32))
        .collect();
    FontMetrics::new(1000, 500, glyphs)
}

fn s(text: &str) -> Vec<char> {
    text.chars().collect()
}

fn lines_as_strings(lines: &Vec<Vec<char>>) -> Vec<String> {
    lines.iter().map(|l| l.iter().collect()).collect()
}

#[test]
fn width_follows_the_advance_formula() {
    let font = half_em_font();
    // Five half-em letters at size 2 units: 5 * 500 * 2000 / 1000.
    let w = font.width_of_text_at_size(&s("hello"), 2_000, 0);
    assert_eq!(w, 5_000);
    // Letter spacing adds (count - 1) * spacing.
    let w = font.width_of_text_at_size(&s("hello"), 2_000, 100);
    assert_eq!(w, 5_400);
    // An empty run measures zero.
    let w = font.width_of_text_at_size(&s(""), 2_000, 100);
    assert_eq!(w, 0);
}

#[test]
fn missing_glyphs_measure_as_fallback() {
    let font = half_em_font();
    // A character outside the table takes the fallback advance of 500
    // font units, so measurement never fails.
    let w = font.width_of_text_at_size(&s("§"), 1_000, 0);
    assert_eq!(w, 500);
    // A space takes the configured space width.
    let w = font.width_of_text_at_size(&s(" "), 1_000, 0);
    assert_eq!(w, 500);
}

#[test]
fn wrap_splits_on_word_boundaries() {
    let font = half_em_font();
    // "hello" is 2500 thousandths at size 1000; the box holds 4000.
    let lines = split_text_to_size(&font, &s("hello world"), 1_000, 4_000, 0);
    assert_eq!(lines_as_strings(&lines), vec![String::from("hello "), String::from("world")]);
}

#[test]
fn wrap_width_bound_holds() {
    // The wrap-width law on a concrete run: every produced line
    // measures within the box width.
    let font = half_em_font();
    let text = s("the quick brown fox jumps over the lazy dog");
    let box_width = 6_000;
    let lines = split_text_to_size(&font, &text, 1_000, box_width, 0);
    assert!(lines.len() > 1);
    for line in &lines {
        let w = font.width_of_text_at_size(line, 1_000, 0);
        assert!(w <= box_width || line.len() == 1);
    }
    // No character is lost: the lines concatenate to the input.
    let joined: String = lines.iter().flat_map(|l| l.iter()).collect();
    assert_eq!(joined, "the quick brown fox jumps over the lazy dog");
}

#[test]
fn oversized_chunk_wraps_character_by_character() {
    let font = half_em_font();
    // A single unbreakable run wider than the box still wraps: two
    // half-em characters fit a one-em box at full size.
    let lines = split_text_to_size(&font, &s("aaaaa"), 1_000, 1_000, 0);
    assert_eq!(lines_as_strings(&lines), vec![
        String::from("aa"), String::from("aa"), String::from("a")]);
}

#[test]
fn single_character_may_exceed_the_box() {
    let mut glyphs: Vec<(char, u32)> = Vec::new();
    glyphs.push(('W', 2_000));
    let font = FontMetrics::new(1000, 500, glyphs);
    // One character alone is wider than the box: the unavoidable
    // minimal violation, kept as a single-character line.
    let lines = split_text_to_size(&font, &s("WW"), 1_000, 1_000, 0);
    assert_eq!(lines_as_strings(&lines), vec![String::from("W"), String::from("W")]);
    let w = font.width_of_text_at_size(&s("W"), 1_000, 0);
    assert!(w > 1_000);
}

#[test]
fn newlines_split_paragraphs() {
    let font = half_em_font();
    let lines = split_text_to_size(&font, &s("ab\ncd"), 1_000, 50_000, 0);
    assert_eq!(lines_as_strings(&lines), vec![String::from("ab"), String::from("cd")]);
}

#[test]
fn pack_preserves_characters() {
    let font = half_em_font();
    let segments = vec![s("aa"), s("bb"), s("cc")];
    let lines = pack_segments(&font, &segments, 1_000, 2_000, 0);
    let joined: String = lines.iter().flat_map(|l| l.iter()).collect();
    assert_eq!(joined, "aabbcc");
}

#[test]
fn segmenter_reports_nonempty_chunks() {
    let paragraphs = segment_content(&s("one two\nthree"));
    assert_eq!(paragraphs.len(), 2);
    for paragraph in &paragraphs {
        for chunk in paragraph {
            assert!(!chunk.is_empty());
        }
    }
}

#[test]
fn character_spacing_distributes_residual() {
    // "ab" has three grapheme boundaries (0, 1, 2), so a residual of
    // thirty splits into tens.
    let r = calculate_character_spacing(&s("ab"), 30);
    assert_eq!(r, 10);
}

#[test]
fn kinsoku_start_pulls_forbidden_leader_back() {
    let lines = vec![s("こんにちは"), s("、世界")];
    let filtered = filter_start_jp(lines);
    assert_eq!(lines_as_strings(&filtered), vec![
        String::from("こんにちは、"), String::from("世界")]);
}

#[test]
fn kinsoku_end_pushes_forbidden_trailer_forward() {
    let lines = vec![s("はじめ「"), s("かぎ")];
    let filtered = filter_end_jp(lines);
    assert_eq!(lines_as_strings(&filtered), vec![
        String::from("はじめ"), String::from("「かぎ")]);
}

#[test]
fn kinsoku_carries_pending_past_single_character_line() {
    // A character being migrated travels past a single disallowed
    // character, which is kept as it is, and lands on the next line.
    let forbidden = vec!['.'];
    let filtered = filter_end_forbidden_chars(
        vec![s("a."), s("."), s("b")], &forbidden);
    assert_eq!(lines_as_strings(&filtered), vec![
        String::from("a"), String::from("."), String::from(".b")]);

    let filtered = filter_start_forbidden_chars(
        vec![s("b"), s("."), s(".a")], &forbidden);
    assert_eq!(lines_as_strings(&filtered), vec![
        String::from("b."), String::from("."), String::from("a")]);
}

#[test]
fn kinsoku_keeps_single_forbidden_character_line() {
    let lines = vec![s("あ"), s("。")];
    let filtered = filter_start_jp(lines);
    assert_eq!(lines_as_strings(&filtered), vec![String::from("あ"), String::from("。")]);
}

#[test]
fn kinsoku_idempotence_on_migrated_lines() {
    // The idempotence law on concrete values: the first application's
    // result satisfies the rule here, so a second application returns
    // it unchanged.
    let lines = vec![s("こんにちは"), s("、世界だよ")];
    let once = filter_start_jp(lines);
    let twice = filter_start_jp(once.clone());
    assert_eq!(lines_as_strings(&once), lines_as_strings(&twice));

    let lines = vec![s("はじめ「"), s("かぎかっこ")];
    let once = filter_end_jp(lines);
    let twice = filter_end_jp(once.clone());
    assert_eq!(lines_as_strings(&once), lines_as_strings(&twice));
}

#[test]
fn latin_rule_sets_migrate_too() {
    let lines = vec![s("Wort-"), s("rest")];
    let filtered = filter_end_de(lines);
    assert_eq!(lines_as_strings(&filtered), vec![
        String::from("Wort"), String::from("-rest")]);

    let lines = vec![s("Satz"), s(",ende")];
    let filtered = filter_start_de(lines);
    assert_eq!(lines_as_strings(&filtered), vec![
        String::from("Satz,"), String::from("ende")]);
}

#[test]
fn generic_migration_takes_custom_character_sets() {
    let forbidden = vec!['#'];
    let filtered = filter_start_forbidden_chars(vec![s("one"), s("#two")], &forbidden);
    assert_eq!(lines_as_strings(&filtered), vec![
        String::from("one#"), String::from("two")]);
    let filtered = filter_end_forbidden_chars(vec![s("one#"), s("two")], &forbidden);
    assert_eq!(lines_as_strings(&filtered), vec![
        String::from("one"), String::from("#two")]);
}

#[test]
fn blank_lines_become_empty() {
    let filtered = filter_start_jp(vec![s("  "), s("text")]);
    assert_eq!(lines_as_strings(&filtered), vec![String::from(""), String::from("text")]);
}

#[test]
fn fitter_fills_the_vertical_axis() {
    let font = half_em_font();
    // One chunk of four half-em letters: one line of height equal to
    // the font size.  The box is 100 wide and 30 tall, so the largest
    // fitting size is exactly 30 units.
    let paragraphs = vec![vec![s("aaaa")]];
    let dynamic = DynamicFontSize::new(1_000, 100_000, DynamicFontSizeFit::Vertical);
    let size = calculate_dynamic_font_size(
        &font, &dynamic, &paragraphs, 1_000, 0, 100_000, 30_000);
    assert_eq!(size, 30_000);
}

#[test]
fn fitter_returns_minimum_when_even_minimum_overflows() {
    let font = half_em_font();
    // Even the minimum size overflows the two-unit-tall box.
    let paragraphs = vec![vec![s("aaaa")]];
    let dynamic = DynamicFontSize::new(5_000, 100_000, DynamicFontSizeFit::Vertical);
    let size = calculate_dynamic_font_size(
        &font, &dynamic, &paragraphs, 1_000, 0, 100_000, 2_000);
    assert_eq!(size, 5_000);
}

#[test]
fn fitter_respects_the_maximum() {
    let font = half_em_font();
    let paragraphs = vec![vec![s("aa")]];
    let dynamic = DynamicFontSize::new(1_000, 4_000, DynamicFontSizeFit::Vertical);
    let size = calculate_dynamic_font_size(
        &font, &dynamic, &paragraphs, 1_000, 0, 100_000, 50_000);
    assert_eq!(size, 4_000);
}

#[test]
fn constraints_report_widest_line_and_total_height() {
    let font = half_em_font();
    // Two paragraphs of one chunk each: "aaaa" (2 ems) and "aa" (1 em)
    // at size 1000 with single line height.
    let paragraphs = vec![vec![s("aaaa")], vec![s("aa")]];
    let (w, h) = calculate_constraints(&font, &paragraphs, 1_000, 1_000, 0, 100_000);
    assert_eq!(w, 2_000);
    assert_eq!(h, 2_000);
}

#[test]
fn dynamic_font_size_validation() {
    // A dynamic interval with the maximum below the minimum is a
    // configuration error.
    let bad = FontSize::from_json(JsonFontSize::Dynamic {
        min: 2_000,
        max: 1_000,
        fit: DynamicFontSizeFit::Vertical,
    });
    assert!(matches!(bad, Err(Error::InvalidFontSize)));
    let good = FontSize::from_json(JsonFontSize::Dynamic {
        min: 1_000,
        max: 2_000,
        fit: DynamicFontSizeFit::Vertical,
    });
    assert!(good.is_ok());
    let fixed = FontSize::from_json(JsonFontSize::Fixed(12_000));
    assert!(fixed.is_ok());
}

#[test]
fn grow_and_shrink_predicates() {
    let dynamic = DynamicFontSize::new(1_000, 10_000, DynamicFontSizeFit::Vertical);
    assert!(dynamic.should_font_grow_to_fit(5_000, 100_000, 50_000, 10_000, 20_000));
    assert!(!dynamic.should_font_grow_to_fit(10_000, 100_000, 50_000, 10_000, 20_000));
    assert!(dynamic.should_font_shrink_to_fit(5_000, 100_000, 50_000, 10_000, 60_000));
    assert!(!dynamic.should_font_shrink_to_fit(1_000, 100_000, 50_000, 10_000, 60_000));
    assert!(dynamic.is_fit_vertical());
    assert!(!dynamic.is_fit_horizontal());
    assert_eq!(dynamic.get_min(), 1_000);
}

#[test]
fn font_map_registers_and_replaces() {
    let mut map = FontMap::new();
    assert!(map.find(&String::from("serif")).is_none());
    let first = half_em_font();
    assert!(map.add_font(String::from("serif"), first).is_none());
    assert!(map.find(&String::from("serif")).is_some());
    // Registering the same name again replaces and returns the old
    // metrics.
    let second = FontMetrics::new(2048, 400, Vec::new());
    let replaced = map.add_font(String::from("serif"), second);
    assert!(replaced.is_some());
    assert_eq!(map.find(&String::from("serif")).unwrap().units_per_em, 2048);
    assert!(map.find(&String::from("sans")).is_none());
}

#[test]
fn sanitize_replaces_missing_glyphs() {
    // A font with letters and the classic fallback square: a character
    // without a glyph becomes the square, characters with glyphs stay.
    let mut glyphs: Vec<(char, u32)> = vec![('a', 500), ('\u{25A1}', 500)];
    glyphs.push(('b', 500));
    let font = FontMetrics::new(1000, 500, glyphs);
    let sanitized = sanitize_text_for_font(&s("a!b"), &font);
    let text: String = sanitized.iter().collect();
    assert_eq!(text, "a\u{25A1}b");
}

#[test]
fn lengths_resolve_in_thousandths() {
    assert_eq!(pdforge::LENGTH_SCALE, 1000);
}
