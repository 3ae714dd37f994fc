//! The page buffer, region rendering, the flow across pages, the
//! two-pass render with page-count-dependent footers, and the error
//! taxonomy.

use pdforge::color::{Rgb, parse_color};
use pdforge::dynamic_text::DynamicText;
use pdforge::error::Error;
use pdforge::fit::FontSize;
use pdforge::font::{FontMetrics, FontMap};
use pdforge::geom::{Alignment, VerticalAlignment, Frame, BasePdf};
use pdforge::group::{Group, GroupChild};
use pdforge::line::{Line, DrawLine, draw_line};
use pdforge::ops::{DrawOp, OpBuffer};
use pdforge::qrcode::QrCode;
use pdforge::template::{Schema, render_schemas, render_static_schemas_for_page};
use pdforge::text::Text;

fn test_font_map() -> FontMap {
    let mut map = FontMap::new();
    let glyphs: Vec<(char, u32)> = "abcdefghijklmnopqrstuvwxyz0123456789/"
        .chars()
        .map(|c| (c, 500u32))
        .collect();
    map.add_font(String::from("TestFont"), FontMetrics::new(1000, 500, glyphs));
    map
}

fn page() -> BasePdf {
    // A 200 by 100 unit page with 10-unit top and bottom margins.
    BasePdf::new(200_000, 100_000, Frame::new(10_000, 0, 10_000, 0))
}

fn plain_text(content: &str, font_map: &FontMap) -> Text {
    Text::new(
        10_000, 10_000, 100_000, 20_000,
        String::from("TestFont"), 10_000, s(content),
        Alignment::Left, VerticalAlignment::Top, font_map, None,
    ).unwrap()
}

fn s(text: &str) -> Vec<char> {
    text.chars().collect()
}

fn written_strings(ops: &Vec<DrawOp>) -> Vec<String> {
    let mut found: Vec<String> = Vec::new();
    for op in ops {
        if let DrawOp::WriteText { text, .. } = op {
            found.push(text.iter().collect());
        }
    }
    found
}

#[test]
fn buffer_insert_grows_and_appends() {
    let mut buffer = OpBuffer::with_capacity(4);
    assert_eq!(buffer.page_count(), 0);
    buffer.insert(2, vec![DrawOp::SaveGraphicsState]);
    assert_eq!(buffer.page_count(), 3);
    assert_eq!(buffer.buffer[0].len(), 0);
    assert_eq!(buffer.buffer[1].len(), 0);
    assert_eq!(buffer.buffer[2].len(), 1);
    buffer.insert(0, vec![DrawOp::RestoreGraphicsState]);
    assert_eq!(buffer.page_count(), 3);
    assert_eq!(buffer.buffer[0].len(), 1);
    buffer.clear();
    assert_eq!(buffer.page_count(), 0);
}

#[test]
fn text_render_writes_wrapped_lines() {
    let font_map = test_font_map();
    let text = plain_text("hello world", &font_map);
    let mut buffer = OpBuffer::new();
    text.render(&font_map, 100_000, 0, &mut buffer).unwrap();
    assert_eq!(buffer.page_count(), 1);
    let written = written_strings(&buffer.buffer[0]);
    assert_eq!(written.len(), 1);
    assert_eq!(written[0], "hello world");
}

#[test]
fn text_render_fails_without_the_font() {
    let font_map = test_font_map();
    let text = plain_text("hi", &font_map);
    let empty_map = FontMap::new();
    let mut buffer = OpBuffer::new();
    let result = text.render(&empty_map, 100_000, 0, &mut buffer);
    assert!(matches!(result, Err(Error::FontNotFound)));
    assert_eq!(buffer.page_count(), 0);
}

#[test]
fn missing_font_fails_construction() {
    let font_map = test_font_map();
    let result = Text::new(
        0, 0, 10_000, 10_000, String::from("NoSuchFont"), 10_000,
        s("x"), Alignment::Left, VerticalAlignment::Top, &font_map, None);
    assert!(matches!(result, Err(Error::FontNotFound)));
}

#[test]
fn flowing_text_crosses_pages() {
    let font_map = test_font_map();
    // Twenty one-line paragraphs at a line height of 10 units on a
    // page with 80 units between the margins: the flow must open new
    // physical pages.
    let mut content = String::new();
    for _ in 0..20 {
        content.push_str("a\n");
    }
    let flowing = DynamicText::new(
        10_000, 10_000, 100_000, 80_000, String::from("TestFont"), 10_000,
        s(&content), &font_map,
    ).unwrap();
    let base_pdf = page();
    let mut buffer = OpBuffer::new();
    let (end_page, cursor) = flowing
        .render(&font_map, &base_pdf, 0, None, &mut buffer)
        .unwrap();
    assert!(end_page >= 1);
    assert!(cursor.is_some());
    assert_eq!(buffer.page_count(), end_page + 1);
    // Every page carries at least one line of text.
    for p in 0..buffer.page_count() {
        assert!(written_strings(&buffer.buffer[p]).len() > 0);
    }
    // All twenty lines were drawn, none lost.
    let total: usize = (0..buffer.page_count())
        .map(|p| written_strings(&buffer.buffer[p]).len())
        .sum();
    assert_eq!(total, 20);
}

#[test]
fn page_count_dependent_footers() {
    // The two-pass render: pass one flows the content and fixes the
    // physical page count; pass two stamps a footer, parameterized by
    // the current page and the total count, onto each existing page.
    let font_map = test_font_map();
    let base_pdf = page();
    let mut content = String::new();
    for _ in 0..20 {
        content.push_str("a\n");
    }
    let flowing = DynamicText::new(
        10_000, 10_000, 100_000, 80_000, String::from("TestFont"), 10_000,
        s(&content), &font_map,
    ).unwrap();
    let pages = vec![vec![Schema::DynamicText(flowing)]];
    let mut buffer = OpBuffer::new();
    render_schemas(&font_map, &base_pdf, &pages, &mut buffer).unwrap();

    let total_pages = buffer.page_count();
    assert_eq!(total_pages, 3);

    // Pass two: the substitution engine fills currentPage/totalPages
    // into the static footer before it is parsed; here the filled
    // values arrive as the footer's content.
    for page_index in 0..total_pages {
        let footer_content = format!("{}/{}", page_index + 1, total_pages);
        let footer = Text::new(
            10_000, 90_000, 100_000, 10_000, String::from("TestFont"), 8_000,
            s(&footer_content), Alignment::Left, VerticalAlignment::Top,
            &font_map, None,
        ).unwrap();
        let statics = vec![Schema::Text(footer)];
        render_static_schemas_for_page(&font_map, &base_pdf, &statics, page_index,
            &mut buffer).unwrap();
    }

    // No new page was created, and each page ends with its own footer.
    assert_eq!(buffer.page_count(), 3);
    for page_index in 0..3 {
        let written = written_strings(&buffer.buffer[page_index]);
        let footer = written.last().unwrap();
        assert_eq!(*footer, format!("{}/{}", page_index + 1, 3));
    }
}

#[test]
fn color_parsing_matches_css() {
    assert_eq!(parse_color(&String::from("#ff0000")).unwrap(), Rgb::new(255, 0, 0));
    assert_eq!(parse_color(&String::from("#2980ba")).unwrap(), Rgb::new(41, 128, 186));
    assert_eq!(parse_color(&String::from("white")).unwrap(), Rgb::new(255, 255, 255));
    assert!(matches!(parse_color(&String::from("no-such-color")),
        Err(Error::InvalidColor)));
}

#[test]
fn qr_symbol_carries_its_payload() {
    let qr = QrCode::new(
        String::from("code"), 10_000, 10_000, 30_000, 30_000, s("PAYLOAD"),
    ).unwrap();
    let mut buffer = OpBuffer::new();
    qr.render(100_000, 0, &mut buffer).unwrap();
    let mut found = false;
    for op in &buffer.buffer[0] {
        if let DrawOp::UseEmbedded { source, transform } = op {
            if let pdforge::ops::EmbedSource::CodeSymbol { payload } = source {
                let payload_text: String = payload.iter().collect();
                assert_eq!(payload_text, "PAYLOAD");
                assert_eq!(transform.dpi, 300);
                found = true;
            }
        }
    }
    assert!(found);
}

#[test]
fn line_draw_is_a_stroked_two_point_path() {
    let ops = draw_line(DrawLine {
        x: 10_000,
        y: 20_000,
        width: 60_000,
        rotate: None,
        page_height: 100_000,
        color: Rgb::new(0, 0, 0),
        border_width: 1_000,
    });
    assert_eq!(ops.len(), 6);
    assert!(matches!(ops[4],
        DrawOp::DrawPolygon { ref points, mode: pdforge::ops::PaintMode::Stroke }
            if points.len() == 2));
}

#[test]
fn group_rejects_flowing_children() {
    let font_map = test_font_map();
    let flowing = DynamicText::new(
        0, 0, 10_000, 10_000, String::from("TestFont"), 10_000, s("a"), &font_map,
    ).unwrap();
    let group = Group {
        base: pdforge::geom::BaseSchema::new(String::from("g"), 0, 0, 50_000, 50_000),
        rotate: None,
        schemas: vec![GroupChild::DynamicText(flowing)],
    };
    let mut buffer = OpBuffer::new();
    let result = group.render(&font_map, 100_000, 0, &mut buffer);
    assert!(matches!(result, Err(Error::UnsupportedGroupChild)));
}

#[test]
fn group_renders_supported_children() {
    let font_map = test_font_map();
    let text = plain_text("hi", &font_map);
    let group = Group {
        base: pdforge::geom::BaseSchema::new(String::from("g"), 0, 0, 120_000, 50_000),
        rotate: Some(45_000),
        schemas: vec![GroupChild::Text(text)],
    };
    let mut buffer = OpBuffer::new();
    group.render(&font_map, 100_000, 0, &mut buffer).unwrap();
    let written = written_strings(&buffer.buffer[0]);
    assert_eq!(written, vec![String::from("hi")]);
}

#[test]
fn error_is_send_sync() {
    fn assert_send<T: Send>() {}
    fn assert_sync<T: Sync>() {}
    assert_send::<Error>();
    assert_sync::<Error>();
}

#[test]
fn error_messages_name_their_causes() {
    assert!(Error::InvalidColor.message().contains("color"));
    assert!(Error::FontNotFound.message().contains("font"));
    assert!(Error::InvalidFontSize.message().contains("minimum"));
    assert!(Error::ValueOutOfRange.message().contains("range"));
}

#[test]
fn fixed_font_size_survives_validation() {
    let size = FontSize::from_json(pdforge::fit::JsonFontSize::Fixed(12_000)).unwrap();
    assert!(matches!(size, FontSize::Fixed(12_000)));
}

#[test]
fn justified_text_widens_character_spacing() {
    let font_map = test_font_map();
    let mut text = plain_text("ab", &font_map);
    text.alignment = Alignment::Justify;
    let mut buffer = OpBuffer::new();
    text.render(&font_map, 100_000, 0, &mut buffer).unwrap();
    // The residual of the 100-unit box beyond the 10-unit line spreads
    // over the grapheme boundaries: spacing became positive.
    let mut saw_positive_spacing = false;
    for op in &buffer.buffer[0] {
        if let DrawOp::SetCharacterSpacing { spacing } = op {
            if *spacing > 0 {
                saw_positive_spacing = true;
            }
        }
    }
    assert!(saw_positive_spacing);
}
