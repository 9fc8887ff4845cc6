use image_process::engine::codec::{decode, encode};
use image_process::engine::image_error::ErrorCode;
use image_process::engine::image_filters::{
    filter_band_color, filter_gradient, filter_pixel, filter_sobel, FilterPixelType,
    GradientDirection,
};
use image_process::engine::image_processing::{
    blur_grid, brighten_grid, contrast_grid, grayscale_grid, hue_grid, invert_grid,
    ImageParameters, ImageProcess,
};
use image_process::engine::pixel_grid::{ColorRgba, PixelGrid};

fn solid(w: u32, h: u32, c: ColorRgba) -> PixelGrid {
    PixelGrid::filled(w, h, c).unwrap()
}

fn params_none() -> ImageParameters {
    ImageParameters {
        brighten: None,
        hue: None,
        blur: None,
        constrast: None,
        grayscale: None,
        invert: None,
    }
}

#[test]
fn band_fill_with_no_colors_is_identity() {
    let src = solid(10, 4, ColorRgba::new(9, 8, 7, 255));
    let out = filter_band_color(&src, Vec::new(), GradientDirection::VERTICAL).unwrap();
    assert_eq!(out.raw_bytes(), src.raw_bytes());
    assert_eq!(out.width(), 10);
    assert_eq!(out.height(), 4);
}

#[test]
fn band_fill_splits_a_width_100_image_in_two() {
    let c1 = ColorRgba::new(255, 0, 0, 255);
    let c2 = ColorRgba::new(0, 0, 255, 255);
    let src = solid(100, 1, ColorRgba::new(1, 2, 3, 255));
    let out = filter_band_color(&src, vec![c1, c2], GradientDirection::VERTICAL).unwrap();
    assert_eq!(out.get_pixel(0, 0), c1);
    assert_eq!(out.get_pixel(49, 0), c1);
    assert_eq!(out.get_pixel(50, 0), c2);
    assert_eq!(out.get_pixel(99, 0), c2);
}

#[test]
fn band_fill_leaves_the_division_remainder_unpainted() {
    let c1 = ColorRgba::new(255, 0, 0, 255);
    let c2 = ColorRgba::new(0, 255, 0, 255);
    let base = ColorRgba::new(1, 2, 3, 255);
    let src = solid(7, 1, base);
    let out = filter_band_color(&src, vec![c1, c2], GradientDirection::VERTICAL).unwrap();
    assert_eq!(out.get_pixel(0, 0), c1);
    assert_eq!(out.get_pixel(2, 0), c1);
    assert_eq!(out.get_pixel(3, 0), c2);
    assert_eq!(out.get_pixel(5, 0), c2);
    assert_eq!(out.get_pixel(6, 0), base);
}

#[test]
fn band_fill_runs_horizontally_too() {
    let c1 = ColorRgba::new(255, 0, 0, 255);
    let c2 = ColorRgba::new(0, 255, 0, 255);
    let base = ColorRgba::new(1, 2, 3, 255);
    let src = solid(1, 4, base);
    let out = filter_band_color(&src, vec![c1, c2], GradientDirection::HORIZONTAL).unwrap();
    assert_eq!(out.get_pixel(0, 0), c1);
    assert_eq!(out.get_pixel(0, 1), c1);
    assert_eq!(out.get_pixel(0, 2), c2);
    assert_eq!(out.get_pixel(0, 3), c2);
}

#[test]
fn vertical_mask_paints_every_fourth_column() {
    let s = ColorRgba::new(10, 20, 30, 255);
    let c = ColorRgba::new(1, 2, 3, 255);
    let src = solid(8, 1, s);
    let out = filter_pixel(&src, FilterPixelType::VERTICAL, c).unwrap();
    for x in 0..8u32 {
        if x % 4 == 0 {
            assert_eq!(out.get_pixel(x, 0), c);
        } else {
            assert_eq!(out.get_pixel(x, 0), s);
        }
    }
}

#[test]
fn undeclared_mask_variants_are_refused() {
    let src = solid(4, 4, ColorRgba::new(0, 0, 0, 255));
    let c = ColorRgba::new(1, 2, 3, 255);
    for v in [
        FilterPixelType::HORIZONTAL,
        FilterPixelType::DIAGONAL,
        FilterPixelType::CIRCLE,
    ] {
        assert!(matches!(filter_pixel(&src, v, c), Err(ErrorCode::NotImplemented)));
    }
}

#[test]
fn constant_gradient_paints_the_whole_image() {
    let green = ColorRgba::new(0, 255, 0, 255);
    let src = solid(2, 2, ColorRgba::new(50, 50, 50, 255));
    let out = filter_gradient(&src, green, green, GradientDirection::HORIZONTAL).unwrap();
    for x in 0..2u32 {
        for y in 0..2u32 {
            assert_eq!(out.get_pixel(x, y), green);
        }
    }
    let out_v = filter_gradient(&src, green, green, GradientDirection::VERTICAL).unwrap();
    assert_eq!(out_v.get_pixel(1, 1), green);
}

#[test]
fn gradient_on_a_single_column_takes_the_start_color() {
    let red = ColorRgba::new(255, 0, 0, 255);
    let blue = ColorRgba::new(0, 0, 255, 255);
    let src = solid(1, 3, ColorRgba::new(9, 9, 9, 255));
    let out = filter_gradient(&src, red, blue, GradientDirection::HORIZONTAL).unwrap();
    for y in 0..3u32 {
        assert_eq!(out.get_pixel(0, y), red);
    }
    let row = solid(3, 1, ColorRgba::new(9, 9, 9, 255));
    let out_v = filter_gradient(&row, red, blue, GradientDirection::VERTICAL).unwrap();
    for x in 0..3u32 {
        assert_eq!(out_v.get_pixel(x, 0), red);
    }
}

#[test]
fn gradient_endpoints_carry_the_two_colors() {
    let red = ColorRgba::new(255, 0, 0, 255);
    let blue = ColorRgba::new(0, 0, 255, 255);
    let src = solid(5, 2, ColorRgba::new(0, 0, 0, 255));
    let out = filter_gradient(&src, red, blue, GradientDirection::HORIZONTAL).unwrap();
    for y in 0..2u32 {
        assert_eq!(out.get_pixel(0, y), red);
        assert_eq!(out.get_pixel(4, y), blue);
        assert_eq!(out.get_pixel(2, y), out.get_pixel(2, 0));
    }
    let tall = solid(2, 5, ColorRgba::new(0, 0, 0, 255));
    let out_v = filter_gradient(&tall, red, blue, GradientDirection::VERTICAL).unwrap();
    for x in 0..2u32 {
        assert_eq!(out_v.get_pixel(x, 0), red);
        assert_eq!(out_v.get_pixel(x, 4), blue);
    }
}

#[test]
fn hue_rotation_by_zero_is_identity() {
    let src = solid(2, 2, ColorRgba::new(12, 200, 77, 131));
    let out = hue_grid(&src, 0);
    assert_eq!(out.raw_bytes(), src.raw_bytes());
}

#[test]
fn sobel_of_a_uniform_image_is_black() {
    let src = solid(4, 4, ColorRgba::new(128, 128, 128, 255));
    let out = filter_sobel(&src).unwrap();
    assert_eq!(out.width(), 4);
    assert_eq!(out.height(), 4);
    for x in 0..4u32 {
        for y in 0..4u32 {
            assert_eq!(out.get_pixel(x, y), ColorRgba::new(0, 0, 0, 255));
        }
    }
}

#[test]
fn sobel_marks_an_edge() {
    let mut px: Vec<ColorRgba> = Vec::new();
    for y in 0..4u32 {
        for _x in 0..2u32 {
            let v = if y < 2 { 0 } else { 255 };
            px.push(ColorRgba::new(v, v, v, 255));
        }
    }
    let src = PixelGrid::new(2, 4, px).unwrap();
    let out = filter_sobel(&src).unwrap();
    let mid = out.get_pixel(0, 2);
    assert!(mid.red > 0);
}

#[test]
fn brighten_saturates_at_both_ends() {
    let out = brighten_grid(&solid(1, 1, ColorRgba::new(100, 250, 5, 200)), 10);
    assert_eq!(out.get_pixel(0, 0), ColorRgba::new(110, 255, 15, 200));
    let dark = brighten_grid(&solid(1, 1, ColorRgba::new(5, 100, 0, 200)), -10);
    assert_eq!(dark.get_pixel(0, 0), ColorRgba::new(0, 90, 0, 200));
}

#[test]
fn contrast_spreads_values_away_from_the_middle() {
    let out = contrast_grid(&solid(1, 1, ColorRgba::new(200, 100, 128, 255)), 50);
    assert_eq!(out.get_pixel(0, 0), ColorRgba::new(236, 86, 128, 255));
    let neutral = contrast_grid(&solid(1, 1, ColorRgba::new(200, 100, 7, 31)), 0);
    assert_eq!(neutral.get_pixel(0, 0), ColorRgba::new(200, 100, 7, 31));
}

#[test]
fn invert_flips_color_channels_and_keeps_alpha() {
    let out = invert_grid(&solid(1, 1, ColorRgba::new(10, 20, 30, 200)));
    assert_eq!(out.get_pixel(0, 0), ColorRgba::new(245, 235, 225, 200));
}

#[test]
fn grayscale_levels_the_color_channels() {
    let out = grayscale_grid(&solid(2, 1, ColorRgba::new(255, 0, 0, 255)));
    let p = out.get_pixel(0, 0);
    assert_eq!(p.red, p.green);
    assert_eq!(p.green, p.blue);
    assert_eq!(p.alpha, 255);
    assert!(p.red < 255);
    let white = grayscale_grid(&solid(1, 1, ColorRgba::new(255, 255, 255, 255)));
    assert_eq!(white.get_pixel(0, 0), ColorRgba::new(255, 255, 255, 255));
}

#[test]
fn hue_rotation_moves_a_red_pixel() {
    let out = hue_grid(&solid(1, 1, ColorRgba::new(255, 0, 0, 255)), 180);
    let p = out.get_pixel(0, 0);
    assert_ne!((p.red, p.green, p.blue), (255, 0, 0));
    assert_eq!(p.alpha, 255);
}

#[test]
fn blur_with_zero_radius_is_identity() {
    let src = solid(3, 3, ColorRgba::new(40, 50, 60, 255));
    let out = blur_grid(&src, 0);
    assert_eq!(out.raw_bytes(), src.raw_bytes());
}

#[test]
fn blur_smooths_a_lone_bright_pixel() {
    let mut px: Vec<ColorRgba> = Vec::new();
    for i in 0..9u32 {
        let v = if i == 4 { 255 } else { 0 };
        px.push(ColorRgba::new(v, v, v, 255));
    }
    let src = PixelGrid::new(3, 3, px).unwrap();
    let out = blur_grid(&src, 1);
    assert_eq!(out.get_pixel(1, 1), ColorRgba::new(0, 0, 0, 255));
}

#[test]
fn adjustments_run_grayscale_before_contrast() {
    let mut px: Vec<ColorRgba> = Vec::new();
    for i in 0..4u8 {
        px.push(ColorRgba::new(60 * i, 255 - 40 * i, 30 + i, 255));
    }
    let src = PixelGrid::new(2, 2, px).unwrap();
    let mut params = params_none();
    params.grayscale = Some(true);
    params.constrast = Some(50);
    let piped = params.apply_filter(src.duplicate());
    let manual = contrast_grid(&grayscale_grid(&src), 50);
    assert_eq!(piped.raw_bytes(), manual.raw_bytes());
    let other_order = grayscale_grid(&contrast_grid(&src, 50));
    assert_ne!(piped.raw_bytes(), other_order.raw_bytes());
}

#[test]
fn neutral_adjustment_values_change_no_pixel() {
    let src = solid(3, 2, ColorRgba::new(12, 200, 77, 255));
    let out = ImageParameters::new().apply_filter(src.duplicate());
    assert_eq!(out.raw_bytes(), src.raw_bytes());
}

#[test]
fn facade_applies_parameters_end_to_end() {
    let src = solid(2, 2, ColorRgba::new(10, 20, 30, 255));
    let ip = ImageProcess::new(encode(&src)).unwrap();
    let mut params = params_none();
    params.invert = Some(true);
    let res = ip.compute_parameters(params).unwrap();
    let out = decode(&res.to_byte()).unwrap();
    assert_eq!(out.get_pixel(0, 0), ColorRgba::new(245, 235, 225, 255));
}

#[test]
fn facade_band_color_paints_bands() {
    let src = solid(4, 1, ColorRgba::new(0, 0, 0, 255));
    let ip = ImageProcess::new(encode(&src)).unwrap();
    let c1 = ColorRgba::new(255, 0, 0, 255);
    let c2 = ColorRgba::new(0, 255, 0, 255);
    let res = ip
        .compute_filter_band_color(vec![c1, c2], GradientDirection::VERTICAL)
        .unwrap();
    let out = decode(&res.to_byte()).unwrap();
    assert_eq!(out.get_pixel(0, 0), c1);
    assert_eq!(out.get_pixel(1, 0), c1);
    assert_eq!(out.get_pixel(2, 0), c2);
    assert_eq!(out.get_pixel(3, 0), c2);
}

#[test]
fn facade_pixel_filter_refuses_circle() {
    let src = solid(4, 1, ColorRgba::new(0, 0, 0, 255));
    let ip = ImageProcess::new(encode(&src)).unwrap();
    let r = ip.compute_filter_pixel(FilterPixelType::CIRCLE, ColorRgba::new(1, 2, 3, 255));
    assert!(matches!(r, Err(ErrorCode::NotImplemented)));
}

#[test]
fn resize_halves_both_dimensions() {
    let src = solid(100, 50, ColorRgba::new(10, 10, 10, 255));
    let ip = ImageProcess::new(encode(&src)).unwrap();
    let res = ip.resize(50, 25).unwrap();
    let out = decode(&res.to_byte()).unwrap();
    assert_eq!(out.width(), 50);
    assert_eq!(out.height(), 25);
}

#[test]
fn resizer_leaves_a_fitting_image_alone() {
    let src = solid(10, 10, ColorRgba::new(200, 0, 0, 255));
    let bytes = encode(&src);
    let ip = ImageProcess::new(bytes.clone()).unwrap();
    let b64 = ip.to_base64();
    let res = ImageProcess::calc_best_size_ratio(b64, 1_000_000).unwrap();
    assert_eq!(res.to_byte(), bytes);
}

#[test]
fn resizer_shrinks_until_the_budget_fits() {
    let src = solid(200, 200, ColorRgba::new(255, 0, 0, 255));
    let bytes = encode(&src);
    let ip = ImageProcess::new(bytes).unwrap();
    let b64 = ip.to_base64();
    let start = ImageProcess::get_image_weight_byte(b64.clone()).unwrap();
    let budget = start / 2;
    let res = ImageProcess::calc_best_size_ratio(b64, budget).unwrap();
    let final_size = ImageProcess::get_image_weight_byte(res.to_base64()).unwrap();
    assert!(final_size <= budget);
    let out = decode(&res.to_byte()).unwrap();
    assert!(out.width() <= 180);
    assert!(out.height() <= 180);
    assert!(out.width() >= 1 && out.height() >= 1);
}

#[test]
fn resizer_reports_an_unreachable_budget() {
    let src = solid(1, 1, ColorRgba::new(255, 0, 0, 255));
    let ip = ImageProcess::new(encode(&src)).unwrap();
    let b64 = ip.to_base64();
    let r = ImageProcess::calc_best_size_ratio(b64, 0);
    assert!(matches!(r, Err(ErrorCode::BudgetUnreachable)));
}

#[test]
fn resizer_rejects_undecodable_input() {
    let r = ImageProcess::calc_best_size_ratio("AQID".to_string(), 1000);
    assert!(matches!(r, Err(ErrorCode::UnableToDecode)));
}
