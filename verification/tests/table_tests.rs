//! Table construction, the percentage invariant, layout with header
//! repetition and alternation, and the rounded-rectangle path builder.

use pdforge::color::Rgb;
use pdforge::error::Error;
use pdforge::font::{FontMetrics, FontMap};
use pdforge::geom::{Alignment, VerticalAlignment, Frame, JsonPosition, BasePdf};
use pdforge::rect::{DrawRoundedRectangle, draw_rounded_rectangle};
use pdforge::table::{JsonHeadStyles, HeadStyles, JsonBodyStyles, BodyStyles, JsonTableStyles,
    TableStyles, JsonHead, JsonTableSchema, Table};

fn create_test_font_map() -> FontMap {
    let mut map = FontMap::new();
    let glyphs: Vec<(char, u32)> = "abcdefghijklmnopqrstuvwxyzABCDEFGHIJKLMNOPQRSTUVWXYZ0123456789$ "
        .chars()
        .map(|c| (c, 500u32))
        .collect();
    map.add_font(String::from("TestFont"), FontMetrics::new(1000, 500, glyphs));
    map
}

fn create_test_frame() -> Frame {
    Frame::new(5_000, 5_000, 5_000, 5_000)
}

fn create_test_head_styles() -> JsonHeadStyles {
    JsonHeadStyles {
        font_size: 12_000,
        font_name: String::from("TestFont"),
        character_spacing: Some(0),
        alignment: Some(Alignment::Center),
        vertical_alignment: Some(VerticalAlignment::Middle),
        line_height: Some(1_000),
        font_color: String::from("#ffffff"),
        border_color: String::from("#000000"),
        background_color: String::from("#2980ba"),
        border_width: create_test_frame(),
        padding: create_test_frame(),
    }
}

fn create_test_body_styles() -> JsonBodyStyles {
    JsonBodyStyles {
        alignment: Alignment::Left,
        vertical_alignment: VerticalAlignment::Middle,
        character_spacing: Some(0),
        font_size: 10_000,
        font_name: String::from("TestFont"),
        font_color: String::from("#000000"),
        line_height: 1_500,
        border_color: String::from("#888888"),
        background_color: String::from("#ffffff"),
        alternate_background_color: Some(String::from("#f8f8f8")),
        border_width: create_test_frame(),
        padding: create_test_frame(),
    }
}

fn create_test_table_styles() -> JsonTableStyles {
    JsonTableStyles {
        border_width: 300,
        border_color: String::from("#000000"),
    }
}

fn head(content: &str, percent: i64) -> JsonHead {
    JsonHead {
        percent,
        content: String::from(content),
        font_size: Some(12_000),
        font_name: Some(String::from("TestFont")),
        character_spacing: Some(0),
        alignment: Some(Alignment::Center),
        vertical_alignment: Some(VerticalAlignment::Middle),
    }
}

fn string_row(a: &str, b: &str) -> Vec<String> {
    vec![String::from(a), String::from(b)]
}

fn create_test_table_schema() -> JsonTableSchema {
    JsonTableSchema {
        name: String::from("test_table"),
        position: JsonPosition { x: 10_000, y: 50_000 },
        width: 190_000,
        height: 100_000,
        content: String::from("test_content"),
        show_head: true,
        head_styles: create_test_head_styles(),
        head_width_percentages: vec![head("Column 1", 50_000), head("Column 2", 50_000)],
        body_styles: create_test_body_styles(),
        table_styles: create_test_table_styles(),
        columns: vec![],
        fields: vec![
            string_row("Header 1", "Header 2"),
            string_row("Data 1", "Data 2"),
            string_row("Data 3", "Data 4"),
        ],
    }
}

#[test]
fn test_head_styles_from_json() {
    let result = HeadStyles::from_json(create_test_head_styles());
    assert!(result.is_ok());
    let head_styles = result.unwrap();
    assert_eq!(head_styles.font_size, 12_000);
    assert_eq!(head_styles.font_name, "TestFont");
    assert_eq!(head_styles.character_spacing, 0);
    assert_eq!(head_styles.line_height, 1_000);
    assert_eq!(head_styles.font_color, "#ffffff");
    assert_eq!(head_styles.background_color, "#2980ba");
    assert_eq!(head_styles.border_color, "#000000");
}

#[test]
fn test_body_styles_from_json() {
    let result = BodyStyles::from_json(create_test_body_styles());
    assert!(result.is_ok());
    let body_styles = result.unwrap();
    assert_eq!(body_styles.font_size, 10_000);
    assert_eq!(body_styles.font_name, "TestFont");
    assert_eq!(body_styles.character_spacing, 0);
    assert_eq!(body_styles.line_height, 1_500);
    assert!(body_styles.alternate_background_color.is_some());
    assert_eq!(body_styles.font_color, Rgb::new(0, 0, 0));
    assert_eq!(body_styles.background_color, Rgb::new(255, 255, 255));
    assert_eq!(body_styles.alternate_background_color, Some(Rgb::new(248, 248, 248)));
}

#[test]
fn test_body_styles_invalid_color() {
    let mut json = create_test_body_styles();
    json.font_color = String::from("invalid_color");
    let result = BodyStyles::from_json(json);
    assert!(result.is_err());
    assert!(matches!(result, Err(Error::InvalidColor)));
}

#[test]
fn test_table_styles_from_json() {
    let result = TableStyles::from_json(create_test_table_styles());
    assert!(result.is_ok());
    let table_styles = result.unwrap();
    assert_eq!(table_styles.border_width, 300);
    assert_eq!(table_styles.border_color, Rgb::new(0, 0, 0));
}

#[test]
fn test_table_styles_invalid_color() {
    let mut json = create_test_table_styles();
    json.border_color = String::from("invalid_color");
    let result = TableStyles::from_json(json);
    assert!(result.is_err());
}

#[test]
fn test_table_from_json_invalid_column_percentages() {
    let mut json = create_test_table_schema();
    // Shares of forty percent each: eighty in total, not one hundred.
    json.head_width_percentages = vec![head("Column 1", 40_000), head("Column 2", 40_000)];
    let font_map = create_test_font_map();
    let result = Table::from_json(json, &font_map);
    assert!(result.is_err());
    let error_message = result.unwrap_err().message();
    assert!(error_message.contains("total of column width must be 100%"));
}

#[test]
fn test_simple_table_creation_from_json() {
    let json = create_test_table_schema();
    let font_map = create_test_font_map();
    let table = Table::from_json(json, &font_map).unwrap();
    let _base = table.get_base();
}

#[test]
fn test_table_column_width_percentages_validation() {
    let mut json = create_test_table_schema();
    json.head_width_percentages = vec![head("Product", 40_000), head("Price", 40_000)];
    let font_map = FontMap::new();
    let result = Table::from_json(json, &font_map);
    assert!(result.is_err());
    let error_message = result.unwrap_err().message();
    assert!(error_message.contains("total of column width must be 100%"));
}

#[test]
fn test_table_valid_column_width_percentages() {
    let json = create_test_table_schema();
    let font_map = create_test_font_map();
    let result = Table::from_json(json, &font_map);
    assert!(result.is_ok());
}

#[test]
fn percentage_sum_tolerance_is_exact() {
    // A sum of 99.9 percent fails, a sum of 100.1 percent fails, and
    // exactly 100.0 percent succeeds.
    let font_map = create_test_font_map();

    let mut low = create_test_table_schema();
    low.head_width_percentages = vec![head("A", 49_900), head("B", 50_000)];
    assert!(matches!(Table::from_json(low, &font_map),
        Err(Error::InvalidColumnPercentages)));

    let mut high = create_test_table_schema();
    high.head_width_percentages = vec![head("A", 50_100), head("B", 50_000)];
    assert!(matches!(Table::from_json(high, &font_map),
        Err(Error::InvalidColumnPercentages)));

    let exact = create_test_table_schema();
    assert!(Table::from_json(exact, &font_map).is_ok());
}

#[test]
fn cell_widths_split_the_table_width() {
    let mut json = create_test_table_schema();
    json.head_width_percentages = vec![head("A", 70_000), head("B", 30_000)];
    let font_map = create_test_font_map();
    let table = Table::from_json(json, &font_map).unwrap();
    let widths = table.cell_widths();
    assert_eq!(widths, vec![133_000, 57_000]);
}

fn text_column() -> pdforge::table::JsonCellSchema {
    pdforge::table::JsonCellSchema::Text(pdforge::text::JsonTextSchema {
        name: String::from("cell"),
        position: JsonPosition { x: 0, y: 0 },
        width: 10_000,
        height: 10_000,
        content: String::new(),
        font_name: String::from("TestFont"),
        alignment: None,
        vertical_alignment: None,
        character_spacing: None,
        line_height: None,
        font_size: pdforge::fit::JsonFontSize::Fixed(10_000),
        font_color: None,
        background_color: None,
        padding: None,
        rotate: None,
        scale_x: None,
        scale_y: None,
        border_color: None,
        border_width: None,
    })
}

fn two_column_table(fields: Vec<Vec<String>>, font_map: &FontMap) -> Table {
    let mut json = create_test_table_schema();
    json.columns = vec![
        pdforge::table::JsonCellStyle { schema: text_column(), height: None },
        pdforge::table::JsonCellStyle { schema: text_column(), height: None },
    ];
    json.fields = fields;
    json.position = JsonPosition { x: 10_000, y: 20_000 };
    Table::from_json(json, font_map).unwrap()
}

fn small_page() -> BasePdf {
    // A 200 by 100 unit page with 10-unit top and bottom margins.
    BasePdf::new(200_000, 100_000, Frame::new(10_000, 0, 10_000, 0))
}

#[test]
fn test_empty_table_renders_nothing() {
    // A table with zero data rows appends no drawing instruction and
    // reports no cursor advance.
    let font_map = create_test_font_map();
    let table = two_column_table(vec![], &font_map);
    let base_pdf = small_page();
    let mut buffer = pdforge::ops::OpBuffer::new();
    let result = table.render(&font_map, &base_pdf, 0, None, &mut buffer).unwrap();
    assert_eq!(result, (0, None));
    assert_eq!(buffer.page_count(), 0);
}

#[test]
fn row_alternation_continues_across_page_break() {
    // Enough rows to force a second physical page: the odd/even
    // alternation counts positions in the accumulated output, repeated
    // headers included, so the break does not reset it.
    let font_map = create_test_font_map();
    let mut fields: Vec<Vec<String>> = Vec::new();
    for i in 0..12 {
        fields.push(string_row(&format!("r{}", i), "x"));
    }
    let table = two_column_table(fields, &font_map);
    let base_pdf = small_page();
    let rows = table.layout_rows(&font_map, &base_pdf, None).unwrap();
    assert!(rows.len() > 0);
    // The layout spans at least two physical pages.
    let last_page = rows.iter().map(|r| r.page_offset).max().unwrap();
    assert!(last_page >= 1);
    // Alternation by global output position, across all pages.
    for (i, row) in rows.iter().enumerate() {
        assert_eq!(row.alternate, i % 2 == 1);
    }
    // In particular the first row on the second page continues the
    // sequence instead of restarting at the base background.
    let first_on_next = rows.iter().position(|r| r.page_offset == 1).unwrap();
    assert_eq!(rows[first_on_next].alternate, first_on_next % 2 == 1);
    // The header repeats on the later page: at least two more rows
    // than data rows were emitted.
    assert!(rows.len() >= 14);
}

#[test]
fn table_render_emits_shaded_rows() {
    let font_map = create_test_font_map();
    let table = two_column_table(
        vec![string_row("a", "b"), string_row("c", "d")], &font_map);
    let base_pdf = small_page();
    let mut buffer = pdforge::ops::OpBuffer::new();
    let (end_page, cursor) = table.render(&font_map, &base_pdf, 0, None, &mut buffer).unwrap();
    assert_eq!(end_page, 0);
    assert!(cursor.is_some());
    assert!(buffer.page_count() >= 1);
    // Background rectangles carry the body background and the
    // alternate background.
    let mut saw_base = false;
    let mut saw_alternate = false;
    for op in &buffer.buffer[0] {
        if let pdforge::ops::DrawOp::SetFillColor { color } = op {
            if *color == Rgb::new(255, 255, 255) {
                saw_base = true;
            }
            if *color == Rgb::new(248, 248, 248) {
                saw_alternate = true;
            }
        }
    }
    assert!(saw_base);
    assert!(saw_alternate);
}

#[test]
fn process_row_rejects_extra_columns() {
    let font_map = create_test_font_map();
    let table = two_column_table(vec![string_row("a", "b")], &font_map);
    let widths = table.cell_widths();
    let row: Vec<Vec<char>> = vec!["a".chars().collect(), "b".chars().collect(), "c".chars().collect()];
    let result = table.process_row(&font_map, &row, 0, &widths);
    assert!(matches!(result, Err(Error::ColumnCountMismatch)));
}

#[test]
fn rect_test_draw_rounded_rectangle_valid_radius() {
    let props = DrawRoundedRectangle {
        x: 10_000,
        y: 20_000,
        width: 100_000,
        height: 50_000,
        page_height: 297_000,
        color: Some(Rgb::new(255, 0, 0)),
        border_width: Some(1_000),
        border_color: Some(Rgb::new(0, 0, 0)),
        radius: 5_000,
    };
    let ops = draw_rounded_rectangle(props);
    assert!(!ops.is_empty());
    assert_eq!(ops.len(), 4);
}

#[test]
fn rect_test_draw_rounded_rectangle_invalid_radius() {
    let props = DrawRoundedRectangle {
        x: 10_000,
        y: 20_000,
        width: 100_000,
        height: 50_000,
        page_height: 297_000,
        color: Some(Rgb::new(255, 0, 0)),
        border_width: Some(1_000),
        border_color: Some(Rgb::new(0, 0, 0)),
        radius: 60_000,
    };
    let ops = draw_rounded_rectangle(props);
    assert!(ops.is_empty());
}

#[test]
fn table_test_draw_rounded_rectangle_valid_radius() {
    let props = DrawRoundedRectangle {
        x: 10_000,
        y: 20_000,
        width: 100_000,
        height: 50_000,
        page_height: 297_000,
        color: Some(Rgb::new(255, 0, 0)),
        border_width: Some(1_000),
        border_color: Some(Rgb::new(0, 0, 0)),
        radius: 5_000,
    };
    let ops = draw_rounded_rectangle(props);
    assert_eq!(ops.len(), 4);
    assert!(matches!(ops[3],
        pdforge::ops::DrawOp::DrawPolygon { ref points, .. } if points.len() == 16));
}

#[test]
fn table_test_draw_rounded_rectangle_invalid_radius() {
    let props = DrawRoundedRectangle {
        x: 10_000,
        y: 20_000,
        width: 100_000,
        height: 50_000,
        page_height: 297_000,
        color: None,
        border_width: None,
        border_color: None,
        radius: 60_000,
    };
    let ops = draw_rounded_rectangle(props);
    assert!(ops.is_empty());
}
