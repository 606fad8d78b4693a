use iced_color_picker::fixed::UNIT;
use iced_color_picker::geometry::{Point, Rectangle, Size};
use iced_color_picker::spectrums::{Block, Quantization};
use iced_color_picker::{hsv, hsva, Hsv, HsvComponent, Rgba, Spectrum};

const DEGREE: u32 = 1_000_000;

fn bounds(x: i64, y: i64, width: u32, height: u32) -> Rectangle {
    Rectangle { x, y, width, height }
}

fn at(x: i64, y: i64) -> Point {
    Point { x, y }
}

fn size(width: u32, height: u32) -> Size {
    Size { width, height }
}

fn block(x: u32, y: u32, side: u32, r: u32, g: u32, b: u32) -> Block {
    Block { x, y, side, color: Rgba { r, g, b, a: UNIT } }
}

fn every_component() -> [HsvComponent; 3] {
    [HsvComponent::Hue, HsvComponent::Saturation, HsvComponent::Value]
}

fn every_axis() -> [Option<HsvComponent>; 4] {
    [None, Some(HsvComponent::Hue), Some(HsvComponent::Saturation), Some(HsvComponent::Value)]
}

#[test]
fn constructors_assign_the_axes() {
    for comp in every_component() {
        assert_eq!(Spectrum::new_vertical(comp), Spectrum { x_axis: None, y_axis: Some(comp) });
        assert_eq!(Spectrum::new_horizontal(comp), Spectrum { x_axis: Some(comp), y_axis: None });
        for other in every_component() {
            assert_eq!(
                Spectrum::new_matrix(comp, other),
                Spectrum { x_axis: Some(comp), y_axis: Some(other) }
            );
        }
    }
}

#[test]
fn ready_made_spectrums() {
    assert_eq!(
        Spectrum::get_saturation_value(),
        Spectrum::new_matrix(HsvComponent::Saturation, HsvComponent::Value)
    );
    assert_eq!(Spectrum::get_hue_vertical(), Spectrum::new_vertical(HsvComponent::Hue));
    assert_eq!(Spectrum::get_hue_horizontal(), Spectrum::new_horizontal(HsvComponent::Hue));
}

#[test]
fn default_spectrum_is_hue_by_value() {
    assert_eq!(Spectrum::default(), Spectrum::new_matrix(HsvComponent::Hue, HsvComponent::Value));
}

#[test]
fn component_of_a_colour() {
    let color = hsva(1, 2, 3, 4);
    assert_eq!(HsvComponent::Hue.get_hsv_component(color), 1);
    assert_eq!(HsvComponent::Saturation.get_hsv_component(color), 2);
    assert_eq!(HsvComponent::Value.get_hsv_component(color), 3);
}

#[test]
fn each_component_follows_its_axis() {
    let base = hsva(1, 2, 3, 4);
    let quarter = 250_000;
    assert_eq!(
        Spectrum::new_horizontal(HsvComponent::Hue).modify_hsv(quarter, 0, base),
        hsva(90 * DEGREE, 2, 3, 4)
    );
    assert_eq!(
        Spectrum::new_horizontal(HsvComponent::Saturation).modify_hsv(quarter, 0, base),
        hsva(1, 250_000, 3, 4)
    );
    assert_eq!(
        Spectrum::new_horizontal(HsvComponent::Value).modify_hsv(quarter, 0, base),
        hsva(1, 2, 750_000, 4)
    );
    assert_eq!(
        Spectrum::new_vertical(HsvComponent::Hue).modify_hsv(0, quarter, base),
        hsva(90 * DEGREE, 2, 3, 4)
    );
    assert_eq!(
        Spectrum::new_vertical(HsvComponent::Saturation).modify_hsv(0, quarter, base),
        hsva(1, 250_000, 3, 4)
    );
    assert_eq!(
        Spectrum::new_vertical(HsvComponent::Value).modify_hsv(0, quarter, base),
        hsva(1, 2, 750_000, 4)
    );
}

#[test]
fn both_axes_apply() {
    let spectrum = Spectrum::new_matrix(HsvComponent::Hue, HsvComponent::Value);
    assert_eq!(spectrum.modify_hsv(500_000, 100_000, hsva(0, 7, 0, 9)), hsva(180 * DEGREE, 7, 900_000, 9));
}

#[test]
fn the_row_decides_a_component_on_both_axes() {
    let spectrum = Spectrum::new_matrix(HsvComponent::Saturation, HsvComponent::Saturation);
    assert_eq!(spectrum.modify_hsv(100_000, 900_000, hsva(1, 2, 3, 4)), hsva(1, 900_000, 3, 4));
}

#[test]
fn no_axis_no_change() {
    let spectrum = Spectrum { x_axis: None, y_axis: None };
    assert_eq!(spectrum.modify_hsv(100_000, 900_000, hsva(1, 2, 3, 4)), hsva(1, 2, 3, 4));
}

#[test]
fn percentages_are_limited_to_the_whole() {
    let base = hsva(1, 2, 3, 4);
    assert_eq!(
        Spectrum::new_horizontal(HsvComponent::Hue).modify_hsv(u32::MAX, 0, base),
        hsva(360 * DEGREE, 2, 3, 4)
    );
    assert_eq!(
        Spectrum::new_horizontal(HsvComponent::Saturation).modify_hsv(UNIT + 1, 0, base),
        hsva(1, UNIT, 3, 4)
    );
    assert_eq!(
        Spectrum::new_vertical(HsvComponent::Value).modify_hsv(0, 2 * UNIT, base),
        hsva(1, 2, 0, 4)
    );
}

#[test]
fn press_in_the_saturation_value_field() {
    let picked = Spectrum::get_saturation_value().fetch_hsv(
        hsva(120 * DEGREE, 300_000, 300_000, UNIT),
        bounds(0, 0, 100, 100),
        at(50, 0),
    );
    assert_eq!(picked, hsva(120 * DEGREE, 500_000, UNIT, UNIT));
}

#[test]
fn press_in_the_middle_of_a_hue_strip() {
    let picked = Spectrum::get_hue_horizontal().fetch_hsv(
        hsva(10 * DEGREE, 300_000, 400_000, UNIT),
        bounds(0, 0, 360, 20),
        at(180, 5),
    );
    assert_eq!(picked, hsva(180 * DEGREE, 300_000, 400_000, UNIT));
}

#[test]
fn fetch_rounds_the_offset_within_the_bounds() {
    let picked = Spectrum::get_saturation_value().fetch_hsv(
        hsva(120 * DEGREE, 300_000, 300_000, UNIT),
        bounds(10, 20, 3, 7),
        at(11, 22),
    );
    assert_eq!(picked, hsva(120 * DEGREE, 333_333, 714_286, UNIT));
}

#[test]
fn fetch_with_hue_on_both_axes() {
    let spectrum = Spectrum::new_matrix(HsvComponent::Hue, HsvComponent::Hue);
    assert_eq!(
        spectrum.fetch_hsv(hsva(0, 1, 2, 3), bounds(0, 0, 100, 200), at(25, 150)),
        hsva(270 * DEGREE, 1, 2, 3)
    );
}

#[test]
fn a_cursor_far_before_the_corner_counts_as_on_it() {
    let base = hsva(33 * DEGREE, 444_444, 555_555, 666_666);
    let area = bounds(40, -70, 123, 45);
    for x_axis in every_axis() {
        for y_axis in every_axis() {
            let spectrum = Spectrum { x_axis, y_axis };
            assert_eq!(
                spectrum.fetch_hsv(base, area, at(area.x - 1000, area.y - 1000)),
                spectrum.fetch_hsv(base, area, area.position())
            );
        }
    }
}

#[test]
fn a_cursor_beyond_the_far_corner_counts_as_on_it() {
    let spectrum = Spectrum::get_saturation_value();
    let area = bounds(5, 5, 10, 10);
    assert_eq!(spectrum.fetch_hsv(hsva(1, 2, 3, 4), area, at(15, 15)), hsva(1, UNIT, 0, 4));
    assert_eq!(spectrum.fetch_hsv(hsva(1, 2, 3, 4), area, at(i64::MAX, i64::MAX)), hsva(1, UNIT, 0, 4));
    assert_eq!(spectrum.fetch_hsv(hsva(1, 2, 3, 4), area, at(i64::MIN, i64::MIN)), hsva(1, 0, UNIT, 4));
}

#[test]
fn bounds_at_the_ends_of_the_grid() {
    let spectrum = Spectrum::get_saturation_value();
    let area = bounds(i64::MIN, i64::MAX, u32::MAX, u32::MAX);
    assert_eq!(spectrum.fetch_hsv(hsva(1, 2, 3, 4), area, at(i64::MAX, i64::MIN)), hsva(1, UNIT, UNIT, 4));
}

#[test]
fn bounds_without_area_pick_nothing_new() {
    let base = hsva(1, 2, 3, 4);
    let spectrum = Spectrum::get_saturation_value();
    assert_eq!(spectrum.fetch_hsv(base, bounds(0, 0, 0, 10), at(5, 5)), base);
    assert_eq!(spectrum.fetch_hsv(base, bounds(0, 0, 10, 0), at(5, 5)), base);
    assert_eq!(spectrum.fetch_hsv(base, bounds(0, 0, 0, 0), at(0, 0)), base);
}

#[test]
fn marker_positions() {
    assert_eq!(
        Spectrum::get_saturation_value().get_marker_pos(hsv(120 * DEGREE, 500_000, UNIT), size(100, 100)),
        at(50, 0)
    );
    assert_eq!(
        Spectrum::get_hue_vertical().get_marker_pos(hsv(90 * DEGREE, 0, 0), size(33, 200)),
        at(17, 50)
    );
    assert_eq!(
        Spectrum::get_hue_horizontal().get_marker_pos(hsv(123_456_789, 0, 0), size(250, 31)),
        at(86, 16)
    );
    assert_eq!(
        Spectrum::get_saturation_value().get_marker_pos(hsv(0, 333_333, 666_667), size(3, 3)),
        at(1, 1)
    );
}

#[test]
fn marker_of_a_colour_out_of_range() {
    assert_eq!(
        Spectrum::get_saturation_value().get_marker_pos(hsv(0, 2 * UNIT, 3 * UNIT), size(100, 10)),
        at(200, -20)
    );
    let extreme = hsv(u32::MAX, u32::MAX, u32::MAX);
    assert_eq!(
        Spectrum::new_matrix(HsvComponent::Value, HsvComponent::Saturation)
            .get_marker_pos(extreme, size(u32::MAX, u32::MAX)),
        at(-18_442_449_097_825, 18_446_744_065_120)
    );
    assert_eq!(
        Spectrum::get_hue_horizontal().get_marker_pos(extreme, size(u32::MAX, u32::MAX)),
        at(51_240_955_736, 2_147_483_648)
    );
}

#[test]
fn marker_of_an_empty_area() {
    let spectrum = Spectrum::get_saturation_value();
    assert_eq!(spectrum.get_marker_pos(hsv(1, 2, 3), size(0, 0)), at(0, 0));
}

#[test]
fn the_marker_lies_under_the_cursor() {
    let area = bounds(-17, 23, 257, 91);
    let base = hsva(11 * DEGREE, 222_222, 333_333, 444_444);
    for x_axis in every_axis() {
        for y_axis in every_axis() {
            let spectrum = Spectrum { x_axis, y_axis };
            for dx in 0..257 {
                for dy in [0, 1, 45, 89, 90] {
                    let picked = spectrum.fetch_hsv(base, area, at(area.x + dx, area.y + dy));
                    let marker = spectrum.get_marker_pos(picked, area.size());
                    if x_axis.is_some() && x_axis != y_axis {
                        assert_eq!(marker.x, dx);
                    }
                    if y_axis.is_some() {
                        assert_eq!(marker.y, dy);
                    }
                    if x_axis.is_none() {
                        assert_eq!(marker.x, 129);
                    }
                    if y_axis.is_none() {
                        assert_eq!(marker.y, 46);
                    }
                }
            }
        }
    }
}

#[test]
fn beyond_a_million_units_the_marker_may_miss_the_cursor() {
    let spectrum = Spectrum::new_horizontal(HsvComponent::Saturation);
    let area = bounds(0, 0, 2_000_000, 1);
    let picked = spectrum.fetch_hsv(hsv(0, 0, 0), area, at(1, 0));
    assert_eq!(picked, hsv(0, 1, 0));
    assert_eq!(spectrum.get_marker_pos(picked, area.size()).x, 2);
}

#[test]
fn redraw_only_for_components_on_an_axis() {
    let old = hsva(1, 2, 3, 4);
    let hue = hsva(9, 2, 3, 4);
    let saturation = hsva(1, 9, 3, 4);
    let value = hsva(1, 2, 9, 4);
    let alpha = hsva(1, 2, 3, 9);
    let strip = Spectrum::get_hue_horizontal();
    assert!(strip.requires_redraw(&old, &hue));
    assert!(!strip.requires_redraw(&old, &saturation));
    assert!(!strip.requires_redraw(&old, &value));
    assert!(!strip.requires_redraw(&old, &alpha));
    assert!(!strip.requires_redraw(&old, &old));
    let field = Spectrum::get_saturation_value();
    assert!(!field.requires_redraw(&old, &hue));
    assert!(field.requires_redraw(&old, &saturation));
    assert!(field.requires_redraw(&old, &value));
    assert!(!field.requires_redraw(&old, &alpha));
    let none = Spectrum { x_axis: None, y_axis: None };
    assert!(!none.requires_redraw(&old, &hsva(9, 9, 9, 9)));
    let vertical = Spectrum::new_vertical(HsvComponent::Value);
    assert!(vertical.requires_redraw(&old, &value));
    assert!(!vertical.requires_redraw(&old, &hue));
}

#[test]
fn only_a_strip_of_hue_shows_full_intensity() {
    for x_axis in every_axis() {
        for y_axis in every_axis() {
            let (mut s, mut v) = (123, 456);
            Spectrum { x_axis, y_axis }.singular_hue_colour_change(&mut s, &mut v);
            let strip = (x_axis == Some(HsvComponent::Hue) && y_axis.is_none())
                || (x_axis.is_none() && y_axis == Some(HsvComponent::Hue));
            if strip {
                assert_eq!((s, v), (UNIT, UNIT));
            } else {
                assert_eq!((s, v), (123, 456));
            }
        }
    }
}

#[test]
fn quantization_is_never_zero() {
    assert!(Quantization::new(0).is_none());
    assert_eq!(Quantization::new(1).map(|q| q.get()), Some(1));
    assert_eq!(Quantization::new(u32::MAX).map(|q| q.get()), Some(u32::MAX));
    assert_eq!(Quantization::default().get(), 2);
}

#[test]
fn render_a_small_field() {
    let blocks = Spectrum::get_saturation_value().render_spectrum(
        size(4, 4),
        &hsva(120 * DEGREE, 1, 2, 3),
        Quantization::default(),
    );
    assert_eq!(
        blocks,
        vec![
            block(0, 0, 2, UNIT, UNIT, UNIT),
            block(0, 2, 2, 500_000, 500_000, 500_000),
            block(2, 0, 2, 500_000, UNIT, 500_000),
            block(2, 2, 2, 250_000, 500_000, 250_000),
        ]
    );
}

#[test]
fn a_hue_strip_is_rendered_at_full_intensity() {
    let strip = Spectrum::get_hue_horizontal();
    let three = Quantization::new(3).unwrap();
    let dim = strip.render_spectrum(size(6, 3), &hsva(10 * DEGREE, 100_000, 200_000, 5), three);
    assert_eq!(dim, vec![block(0, 0, 3, UNIT, 0, 0), block(3, 0, 3, 0, UNIT, UNIT)]);
    let bright = strip.render_spectrum(size(6, 3), &hsva(200 * DEGREE, UNIT, UNIT, UNIT), three);
    assert_eq!(dim, bright);
}

#[test]
fn other_strips_keep_the_held_components() {
    let blocks = Spectrum::new_vertical(HsvComponent::Saturation).render_spectrum(
        size(5, 5),
        &hsva(240 * DEGREE, 100_000, 600_000, 5),
        Quantization::default(),
    );
    assert_eq!(
        blocks,
        vec![
            block(0, 0, 2, 600_000, 600_000, 600_000),
            block(0, 2, 2, 360_000, 360_000, 600_000),
            block(2, 0, 2, 600_000, 600_000, 600_000),
            block(2, 2, 2, 360_000, 360_000, 600_000),
        ]
    );
}

#[test]
fn only_whole_blocks_are_rendered() {
    let spectrum = Spectrum::default();
    let color = hsv(0, 0, 0);
    assert_eq!(spectrum.render_spectrum(size(251, 33), &color, Quantization::default()).len(), 2000);
    assert_eq!(spectrum.render_spectrum(size(7, 7), &color, Quantization::new(8).unwrap()).len(), 0);
    assert_eq!(spectrum.render_spectrum(size(8, 8), &color, Quantization::new(8).unwrap()).len(), 1);
}

#[test]
fn an_empty_area_renders_nothing() {
    let spectrum = Spectrum::default();
    let color = hsv(0, 0, 0);
    assert!(spectrum.render_spectrum(size(0, 100), &color, Quantization::default()).is_empty());
    assert!(spectrum.render_spectrum(size(100, 0), &color, Quantization::default()).is_empty());
    assert!(spectrum.render_spectrum(size(0, 0), &color, Quantization::default()).is_empty());
}

#[test]
fn every_block_samples_its_top_left_corner() {
    let spectrum = Spectrum::new_matrix(HsvComponent::Hue, HsvComponent::Value);
    let base = hsva(0, 700_000, 0, 1);
    let area = size(30, 20);
    let q = Quantization::new(5).unwrap();
    let blocks = spectrum.render_spectrum(area, &base, q);
    assert_eq!(blocks.len(), 24);
    for (i, b) in blocks.iter().enumerate() {
        let (col, row) = ((i / 4) as u32, (i % 4) as u32);
        assert_eq!((b.x, b.y, b.side), (col * 5, row * 5, 5));
        let sampled = spectrum.fetch_hsv(
            Hsv { a: UNIT, ..base },
            Rectangle { x: 0, y: 0, width: 30, height: 20 },
            at(b.x as i64, b.y as i64),
        );
        assert_eq!(b.color, sampled.to_color());
    }
}
