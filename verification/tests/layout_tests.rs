//! Geometry, alignment and object-fit behavior.

use pdforge::geom::{Alignment, VerticalAlignment, Frame, BaseSchema, effective_box_size,
    calculate_vertical_offset, calculate_horizontal_offset};
use pdforge::image::Image;
use pdforge::ops::FitTransform;
use pdforge::transform::{ObjectFit, calculate_object_fit_transform};

fn test_base(x: i64, y: i64, width: i64, height: i64) -> BaseSchema {
    BaseSchema::new(String::from("test"), x, y, width, height)
}

#[test]
fn test_object_fit_default() {
    assert!(matches!(ObjectFit::default(), ObjectFit::Fill));
}

#[test]
fn test_image_with_object_fit_builder() {
    // A 1x1-pixel image in a 100 by 80 unit box at (10, 20).
    let image = Image::new(
        String::from("test"), 10_000, 20_000, 100_000, 80_000, 1, 1, 0);
    assert!(image.is_ok());
    let image = image.unwrap().with_object_fit(ObjectFit::Cover);
    assert!(matches!(image.object_fit, ObjectFit::Cover));
}

#[test]
fn test_calculate_object_fit_transform_fill() {
    // A 50x40-pixel image stretched into a 100 by 80 unit box.
    let image = Image::new(
        String::from("test"), 0, 0, 100_000, 80_000, 50, 40, 0).unwrap();
    let transform = image.calculate_object_fit_transform(200_000);
    assert_eq!(transform.dpi, 300);
    assert_eq!(transform.scale_x_num, 100_000 * 300);
    assert_eq!(transform.scale_x_den, 50 * 25_400);
    assert_eq!(transform.scale_y_num, 80_000 * 300);
    assert_eq!(transform.translate_x, 0);
    assert_eq!(transform.translate_y, 200_000 - 80_000);
}

#[test]
fn test_calculate_object_fit_transform_contain() {
    // A 200x100-pixel image in a 100 by 80 unit box: wider than the
    // box, so it fits the width with zero horizontal offset and is
    // centered on the vertical axis.
    let image = Image::new(
        String::from("test"), 0, 0, 100_000, 80_000, 200, 100, 0)
        .unwrap()
        .with_object_fit(ObjectFit::Contain);
    let transform = image.calculate_object_fit_transform(200_000);
    assert_eq!(transform.dpi, 300);
    // Zero horizontal offset.
    assert_eq!(transform.translate_x, 0);
    // Scaled height is box_width * px_h / px_w = 50 units; the
    // vertical offset is (80 - 50) / 2 = 15 units.
    assert_eq!(transform.translate_y, 200_000 - 80_000 + 15_000);
    // Uniform scale against the width.
    assert_eq!(transform.scale_x_num, 100_000 * 300);
    assert_eq!(transform.scale_x_den, 200 * 25_400);
    assert_eq!(transform.scale_x_num, transform.scale_y_num);
    assert_eq!(transform.scale_x_den, transform.scale_y_den);
}

#[test]
fn test_calculate_object_fit_transform_cover() {
    // A 50x100-pixel image in a 100 by 80 unit box: taller than the
    // box, so covering scales uniformly to the width with no
    // letterboxing offsets.
    let image = Image::new(
        String::from("test"), 0, 0, 100_000, 80_000, 50, 100, 0)
        .unwrap()
        .with_object_fit(ObjectFit::Cover);
    let transform = image.calculate_object_fit_transform(200_000);
    assert_eq!(transform.dpi, 300);
    assert_eq!(transform.translate_x, 0);
    assert_eq!(transform.translate_y, 200_000 - 80_000);
    assert_eq!(transform.scale_x_num, transform.scale_y_num);
    assert_eq!(transform.scale_x_den, transform.scale_y_den);
    assert_eq!(transform.scale_x_num, 100_000 * 300);
    assert_eq!(transform.scale_x_den, 50 * 25_400);
}

#[test]
fn test_calculate_object_fit_transform_none() {
    // A 50x40-pixel image rendered at natural size, anchored at the
    // box origin.
    let image = Image::new(
        String::from("test"), 0, 0, 100_000, 80_000, 50, 40, 0)
        .unwrap()
        .with_object_fit(ObjectFit::Natural);
    let transform = image.calculate_object_fit_transform(200_000);
    assert_eq!(transform.dpi, 300);
    assert_eq!(transform.scale_x_num, 1);
    assert_eq!(transform.scale_x_den, 1);
    assert_eq!(transform.scale_y_num, 1);
    assert_eq!(transform.scale_y_den, 1);
    assert_eq!(transform.translate_x, 0);
    assert_eq!(transform.translate_y, 200_000 - 80_000);
}

#[test]
fn test_calculate_object_fit_transform_scale_down_no_scaling() {
    // A 20x15-pixel image fits its box naturally, so scaling down
    // behaves exactly like rendering at natural size.
    let image = Image::new(
        String::from("test"), 0, 0, 100_000, 80_000, 20, 15, 0).unwrap();
    let scaled_down = image.clone().with_object_fit(ObjectFit::ScaleDown);
    let natural = image.with_object_fit(ObjectFit::Natural);
    let a: FitTransform = scaled_down.calculate_object_fit_transform(200_000);
    let b: FitTransform = natural.calculate_object_fit_transform(200_000);
    assert_eq!(a, b);
    assert_eq!(a.dpi, 300);
}

#[test]
fn test_calculate_object_fit_transform_scale_down_with_scaling() {
    // A 200x100-pixel image in a 50 by 40 unit box: at the fixed
    // density the image is naturally about 17 by 8.5 units, so it
    // still fits and scaling down renders at natural size.
    let image = Image::new(
        String::from("test"), 0, 0, 50_000, 40_000, 200, 100, 0)
        .unwrap()
        .with_object_fit(ObjectFit::ScaleDown);
    let transform = image.calculate_object_fit_transform(200_000);
    assert!(transform.scale_x_num > 0);
    assert!(transform.scale_y_num > 0);
    assert_eq!(transform.dpi, 300);
    assert_eq!(transform.scale_x_num, 1);
    assert_eq!(transform.scale_x_den, 1);
}

#[test]
fn scale_down_contains_oversized_images() {
    // A 200x100-pixel image is naturally about 17 units wide at the
    // fixed density, so it exceeds a 10 by 8 unit box and scaling down
    // behaves like containment.
    let image = Image::new(
        String::from("test"), 0, 0, 10_000, 8_000, 200, 100, 0).unwrap();
    let scaled_down = image.clone().with_object_fit(ObjectFit::ScaleDown);
    let contained = image.with_object_fit(ObjectFit::Contain);
    let a = scaled_down.calculate_object_fit_transform(200_000);
    let b = contained.calculate_object_fit_transform(200_000);
    assert_eq!(a, b);
    assert_eq!(a.dpi, 300);
}

#[test]
fn object_fit_free_function_matches_method() {
    let base = test_base(5_000, 6_000, 100_000, 80_000);
    let by_fn = calculate_object_fit_transform(&base, 200_000, 200, 100, ObjectFit::Contain);
    let image = Image::new(
        String::from("test"), 5_000, 6_000, 100_000, 80_000, 200, 100, 0)
        .unwrap()
        .with_object_fit(ObjectFit::Contain);
    let by_method = image.calculate_object_fit_transform(200_000);
    assert_eq!(by_fn, by_method);
}

#[test]
fn test_effective_box_size_calculation_no_padding() {
    let (w, h) = effective_box_size(100_000, 50_000, &Frame::zero());
    assert_eq!(w, 100_000);
    assert_eq!(h, 50_000);
}

#[test]
fn test_effective_box_size_calculation_with_padding() {
    let padding = Frame::new(5_000, 10_000, 5_000, 10_000);
    let (w, h) = effective_box_size(100_000, 50_000, &padding);
    assert_eq!(w, 80_000);
    assert_eq!(h, 40_000);
}

#[test]
fn effective_box_size_clamps_at_zero() {
    let padding = Frame::new(40_000, 60_000, 40_000, 60_000);
    let (w, h) = effective_box_size(100_000, 50_000, &padding);
    assert_eq!(w, 0);
    assert_eq!(h, 0);
}

#[test]
fn test_vertical_alignment_calculations() {
    let box_height = 50_000;
    let total_height = 30_000;
    assert_eq!(calculate_vertical_offset(VerticalAlignment::Top, box_height, total_height), 0);
    assert_eq!(
        calculate_vertical_offset(VerticalAlignment::Middle, box_height, total_height),
        10_000);
    assert_eq!(
        calculate_vertical_offset(VerticalAlignment::Bottom, box_height, total_height),
        20_000);
}

#[test]
fn test_horizontal_alignment_calculations() {
    let box_width = 100_000;
    let line_width = 70_000;
    assert_eq!(calculate_horizontal_offset(Alignment::Left, box_width, line_width), 0);
    assert_eq!(calculate_horizontal_offset(Alignment::Center, box_width, line_width), 15_000);
    assert_eq!(calculate_horizontal_offset(Alignment::Right, box_width, line_width), 30_000);
    assert_eq!(calculate_horizontal_offset(Alignment::Justify, box_width, line_width), 0);
}

#[test]
fn test_frame_from_json() {
    let values = vec![10_000i64, 15_000, 20_000, 25_000];
    let frame = Frame::from_list(&values).unwrap();
    assert_eq!(frame.top, 10_000);
    assert_eq!(frame.right, 15_000);
    assert_eq!(frame.bottom, 20_000);
    assert_eq!(frame.left, 25_000);
}

#[test]
fn frame_from_short_list_fails() {
    let values = vec![10_000i64, 15_000];
    assert!(Frame::from_list(&values).is_err());
}
