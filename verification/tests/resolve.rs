use laya::decimal::Decimal;
use laya::iiif::{NonZeroDimension, Region, Scale, Size};
use laya::image::resolve::{resolve_region, resolve_size, Limits, ParameterError};
use laya::image::AbsoluteRegion;

const NO_LIMITS: Limits = Limits { max_width: None, max_height: None, max_area: None };

fn decimal(text: &str) -> Decimal {
    Decimal::read(text.as_bytes()).unwrap()
}

fn percent(x: &str, y: &str, w: &str, h: &str) -> Region {
    Region::Percentage { x: decimal(x), y: decimal(y), width: decimal(w), height: decimal(h) }
}

fn dim(v: u32) -> NonZeroDimension {
    NonZeroDimension::new(v).unwrap()
}

fn rect(x: u32, y: u32, width: u32, height: u32) -> Result<AbsoluteRegion, ParameterError> {
    Ok(AbsoluteRegion { x, y, width, height })
}

#[test]
fn full_is_the_whole_image() {
    assert_eq!(resolve_region(1024, 768, &Region::Full), rect(0, 0, 1024, 768));
    assert_eq!(resolve_region(0, 768, &Region::Full), Err(ParameterError::EmptyRegion));
    assert_eq!(resolve_region(1024, 0, &Region::Full), Err(ParameterError::EmptyRegion));
}

#[test]
fn square_is_centred() {
    assert_eq!(resolve_region(1024, 768, &Region::Square), rect(128, 0, 768, 768));
    assert_eq!(resolve_region(768, 1024, &Region::Square), rect(0, 128, 768, 768));
    assert_eq!(resolve_region(1025, 768, &Region::Square), rect(128, 0, 768, 768));
    assert_eq!(resolve_region(0, 5, &Region::Square), Err(ParameterError::EmptyRegion));
}

#[test]
fn square_on_a_square_image_is_full() {
    for side in [1u32, 2, 767, 4294967295] {
        assert_eq!(resolve_region(side, side, &Region::Square), resolve_region(side, side, &Region::Full));
    }
}

#[test]
fn pixel_regions_are_taken_as_they_are() {
    let r = |x, y, width, height| Region::Absolute { x, y, width, height };
    assert_eq!(resolve_region(1024, 768, &r(0, 0, 256, 256)), rect(0, 0, 256, 256));
    assert_eq!(resolve_region(1024, 768, &r(768, 512, 256, 256)), rect(768, 512, 256, 256));
    assert_eq!(resolve_region(1024, 768, &r(769, 512, 256, 256)), Err(ParameterError::RegionOutOfBounds));
    assert_eq!(resolve_region(1024, 768, &r(0, 513, 256, 256)), Err(ParameterError::RegionOutOfBounds));
    assert_eq!(resolve_region(1024, 768, &r(4294967295, 0, 4294967295, 1)), Err(ParameterError::RegionOutOfBounds));
    assert_eq!(resolve_region(1024, 768, &r(0, 0, 0, 256)), Err(ParameterError::EmptyRegion));
    assert_eq!(resolve_region(1024, 768, &r(0, 0, 256, 0)), Err(ParameterError::EmptyRegion));
}

#[test]
fn the_whole_in_percent_is_full() {
    for (w, h) in [(1024u32, 768u32), (1, 1), (4294967295, 3), (7, 4294967295)] {
        assert_eq!(resolve_region(w, h, &percent("0", "0", "100", "100")), resolve_region(w, h, &Region::Full));
    }
}

#[test]
fn percent_regions_are_rounded_and_cut_off() {
    assert_eq!(resolve_region(1000, 500, &percent("10", "20", "50", "25")), rect(100, 100, 500, 125));
    // 12.5% of 1001 is 125.125, 0.05% of 1001 is 0.5005: rounded to 125 and 1
    assert_eq!(resolve_region(1001, 1001, &percent("12.5", "0.05", "12.5", "0.05")), rect(125, 1, 125, 1));
    // a half rounds up: 0.5% of 100 is 0.5
    assert_eq!(resolve_region(100, 100, &percent("0", "0", "0.5", "1.5")), rect(0, 0, 1, 2));
    assert_eq!(resolve_region(100, 100, &percent("0", "0", "0.4", "1.4")), Err(ParameterError::EmptyRegion));
    // what reaches beyond the image is cut off
    assert_eq!(resolve_region(1000, 500, &percent("50", "50", "100", "100")), rect(500, 250, 500, 250));
    assert_eq!(resolve_region(1000, 500, &percent("100", "0", "10", "10")), Err(ParameterError::EmptyRegion));
}

#[test]
fn max_keeps_the_region_and_clamps() {
    assert_eq!(resolve_size(&NO_LIMITS, 1024, 768, &Size::new(Scale::Max), true), Ok((1024, 768)));
    let wide = Limits { max_width: Some(4096), max_height: Some(4096), max_area: None };
    assert_eq!(resolve_size(&wide, 100, 50, &Size::new(Scale::Max), true), Ok((100, 50)));
    let narrow = Limits { max_width: Some(512), max_height: None, max_area: None };
    assert_eq!(resolve_size(&narrow, 1024, 768, &Size::new(Scale::Max), true), Ok((512, 384)));
    let low = Limits { max_width: Some(512), max_height: Some(100), max_area: None };
    assert_eq!(resolve_size(&low, 1024, 768, &Size::new(Scale::Max), true), Ok((133, 100)));
}

#[test]
fn upscaled_max_on_a_small_image_upscales() {
    let wide = Limits { max_width: Some(4096), max_height: Some(4096), max_area: None };
    assert_eq!(resolve_size(&wide, 100, 50, &Size::upscaled(Scale::Max), true), Ok((4096, 2048)));
    assert_eq!(resolve_size(&wide, 50, 100, &Size::upscaled(Scale::Max), true), Ok((2048, 4096)));
    assert_eq!(resolve_size(&NO_LIMITS, 100, 50, &Size::upscaled(Scale::Max), true), Ok((100, 50)));
    assert_eq!(
        resolve_size(&wide, 100, 50, &Size::upscaled(Scale::Max), false),
        Err(ParameterError::UpscalingDisabled)
    );
}

#[test]
fn max_within_an_area() {
    let area = Limits { max_width: None, max_height: None, max_area: Some(1_000_000) };
    // 1154 x 866 has 999364 pixels, 1155 x 866 has 1000230
    assert_eq!(resolve_size(&area, 4000, 3000, &Size::new(Scale::Max), true), Ok((1154, 866)));
    assert_eq!(resolve_size(&area, 1000, 1000, &Size::new(Scale::Max), true), Ok((1000, 1000)));
    assert_eq!(resolve_size(&area, 1001, 1000, &Size::new(Scale::Max), true), Ok((1000, 999)));
    let both = Limits { max_width: Some(500), max_height: None, max_area: Some(1_000_000) };
    assert_eq!(resolve_size(&both, 4000, 3000, &Size::new(Scale::Max), true), Ok((500, 375)));
}

#[test]
fn percentages_of_the_region() {
    let pct = |text: &str| Size::new(Scale::Percentage(decimal(text)));
    assert_eq!(resolve_size(&NO_LIMITS, 1024, 768, &pct("50"), true), Ok((512, 384)));
    assert_eq!(resolve_size(&NO_LIMITS, 1024, 768, &pct("100"), true), Ok((1024, 768)));
    assert_eq!(resolve_size(&NO_LIMITS, 3, 5, &pct("50"), true), Ok((2, 3)));
    assert_eq!(resolve_size(&NO_LIMITS, 1024, 768, &pct("0"), true), Err(ParameterError::ZeroDimension));
    assert_eq!(resolve_size(&NO_LIMITS, 1024, 768, &pct("0.04"), true), Err(ParameterError::ZeroDimension));
    let up = Size::upscaled(Scale::Percentage(decimal("150")));
    assert_eq!(resolve_size(&NO_LIMITS, 1024, 768, &up, true), Ok((1536, 1152)));
    let huge = Size::upscaled(Scale::Percentage(decimal("4294967295")));
    assert_eq!(resolve_size(&NO_LIMITS, 1024, 768, &huge, true), Err(ParameterError::TooLarge));
}

#[test]
fn one_side_given() {
    let width = |w: u32| Size::new(Scale::fixed_width(NonZeroDimension::new(w)));
    let height = |h: u32| Size::new(Scale::fixed_height(NonZeroDimension::new(h)));
    assert_eq!(resolve_size(&NO_LIMITS, 256, 256, &width(128), true), Ok((128, 128)));
    assert_eq!(resolve_size(&NO_LIMITS, 1024, 768, &width(100), true), Ok((100, 75)));
    assert_eq!(resolve_size(&NO_LIMITS, 1024, 768, &height(100), true), Ok((133, 100)));
    assert_eq!(resolve_size(&NO_LIMITS, 1024, 3, &width(100), true), Err(ParameterError::ZeroDimension));
    // without leave to upscale the size is cut down to the region's own
    assert_eq!(resolve_size(&NO_LIMITS, 1024, 768, &width(2048), true), Ok((1024, 768)));
    let up = Size::upscaled(Scale::fixed_width(NonZeroDimension::new(2048)));
    assert_eq!(resolve_size(&NO_LIMITS, 1024, 768, &up, true), Ok((2048, 1536)));
}

#[test]
fn both_sides_given() {
    let fixed = Size::new(Scale::Fixed { width: dim(300), height: dim(100) });
    assert_eq!(resolve_size(&NO_LIMITS, 1024, 768, &fixed, true), Ok((300, 100)));
    let within = Size::new(Scale::AspectPreserving { width: dim(300), height: dim(100) });
    assert_eq!(resolve_size(&NO_LIMITS, 1024, 768, &within, true), Ok((133, 100)));
    let within = Size::new(Scale::AspectPreserving { width: dim(100), height: dim(300) });
    assert_eq!(resolve_size(&NO_LIMITS, 1024, 768, &within, true), Ok((100, 75)));
    let large = Size::new(Scale::Fixed { width: dim(3000), height: dim(100) });
    assert_eq!(resolve_size(&NO_LIMITS, 1024, 768, &large, true), Ok((1024, 100)));
    let large = Size::upscaled(Scale::Fixed { width: dim(3000), height: dim(100) });
    assert_eq!(resolve_size(&NO_LIMITS, 1024, 768, &large, true), Ok((3000, 100)));
}

#[test]
fn limits_are_kept() {
    let limits = Limits { max_width: Some(2000), max_height: Some(1000), max_area: Some(1_500_000) };
    let fixed = |w: u32, h: u32| Size::upscaled(Scale::Fixed { width: dim(w), height: dim(h) });
    assert_eq!(resolve_size(&limits, 10, 10, &fixed(2000, 750), true), Ok((2000, 750)));
    assert_eq!(resolve_size(&limits, 10, 10, &fixed(2001, 1), true), Err(ParameterError::TooLarge));
    assert_eq!(resolve_size(&limits, 10, 10, &fixed(1, 1001), true), Err(ParameterError::TooLarge));
    assert_eq!(resolve_size(&limits, 10, 10, &fixed(2000, 751), true), Err(ParameterError::TooLarge));
}

#[test]
fn a_region_without_pixels_has_no_size() {
    assert_eq!(resolve_size(&NO_LIMITS, 0, 768, &Size::new(Scale::Max), true), Err(ParameterError::EmptyRegion));
    assert_eq!(resolve_size(&NO_LIMITS, 1024, 0, &Size::new(Scale::Max), true), Err(ParameterError::EmptyRegion));
}
