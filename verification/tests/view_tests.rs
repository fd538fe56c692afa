use triplanetary::hex;
use triplanetary::hex_view;
use triplanetary::hex::view::round;
use triplanetary::HexOrientation;
use triplanetary::HexView;
use triplanetary::HEX_HEIGHT;
use triplanetary::HEX_WIDTH;

#[test]
fn the_default_view_is_flat_with_tiles_of_32_by_28() {
    let view = hex_view();
    assert_eq!(view.layout, HexOrientation::Flat);
    assert_eq!(view.tile_width, 32);
    assert_eq!(view.tile_height, 28);
    assert_eq!(HEX_WIDTH, 32);
    assert_eq!(HEX_HEIGHT, 28);
    assert_eq!(view, HexView::new(HexOrientation::Flat, 32, 28));
}

#[test]
fn flat_tiles_step_three_quarters_across_and_half_down() {
    let view = hex_view();
    assert_eq!(view.to_pixel(hex(0, 0)), (0, 0));
    assert_eq!(view.to_pixel(hex(1, 0)), (24, 14));
    assert_eq!(view.to_pixel(hex(0, 1)), (0, 28));
    assert_eq!(view.to_pixel(hex(4, 0)), (96, 56));
    assert_eq!(view.to_pixel(hex(-3, 5)), (-72, 98));
    assert_eq!(view.to_pixel(hex(2, -1)), (48, 0));
}

#[test]
fn pointy_tiles_step_half_across_and_three_quarters_down() {
    let view = HexView::new(HexOrientation::Pointy, 32, 28);
    assert_eq!(view.to_pixel(hex(0, 0)), (0, 0));
    assert_eq!(view.to_pixel(hex(1, 0)), (32, 0));
    assert_eq!(view.to_pixel(hex(0, 1)), (16, 21));
    assert_eq!(view.to_pixel(hex(-3, 5)), (-16, 105));
}

#[test]
fn tile_sizes_that_do_not_divide_are_rounded_towards_zero() {
    let view = HexView::new(HexOrientation::Flat, 33, 27);
    assert_eq!(view.to_pixel(hex(1, 0)), (24, 13));
    let negative = HexView::new(HexOrientation::Flat, -33, -27);
    assert_eq!(negative.to_pixel(hex(1, 0)), (-24, -13));
}

#[test]
fn from_pixel_finds_the_cell_under_a_pixel() {
    let view = hex_view();
    assert_eq!(view.from_pixel((0, 0)), hex(0, 0));
    assert_eq!(view.from_pixel((24, 14)), hex(1, 0));
    assert_eq!(view.from_pixel((0, 28)), hex(0, 1));
    assert_eq!(view.from_pixel((5, 5)), hex(0, 0));
    assert_eq!(view.from_pixel((12, 7)), hex(1, 0));
    assert_eq!(view.from_pixel((13, 7)), hex(1, 0));
    assert_eq!(view.from_pixel((-24, -14)), hex(-1, 0));
    assert_eq!(view.from_pixel((100, -37)), hex(4, -3));
    assert_eq!(view.from_pixel((12, 0)), hex(0, 0));
    assert_eq!(view.from_pixel((23, 0)), hex(1, 0));
    assert_eq!(view.from_pixel((-7, 40)), hex(0, 1));
}

#[test]
fn from_pixel_with_pointy_tiles() {
    let view = HexView::new(HexOrientation::Pointy, 32, 28);
    assert_eq!(view.from_pixel((0, 0)), hex(0, 0));
    assert_eq!(view.from_pixel((16, 0)), hex(1, 0));
    assert_eq!(view.from_pixel((8, 21)), hex(0, 1));
    assert_eq!(view.from_pixel((5, 5)), hex(0, 0));
    assert_eq!(view.from_pixel((-30, 11)), hex(-1, 0));
}

#[test]
fn from_pixel_holds_coordinates_at_the_end_of_the_range() {
    let view = HexView::new(HexOrientation::Flat, 1, 1);
    assert_eq!(view.from_pixel((i32::MAX, 0)).q, i32::MAX);
    assert_eq!(view.from_pixel((i32::MIN, 0)).q, i32::MIN);
}

#[test]
fn round_trip_through_pixels_gives_the_cell_back() {
    let flat = hex_view();
    let pointy = HexView::new(HexOrientation::Pointy, 32, 28);
    let small = HexView::new(HexOrientation::Flat, 4, 2);
    let mirrored = HexView::new(HexOrientation::Pointy, -6, 8);
    for q in -30..31 {
        for r in -30..31 {
            let cell = hex(q, r);
            assert_eq!(flat.from_pixel(flat.to_pixel(cell)), cell);
            assert_eq!(pointy.from_pixel(pointy.to_pixel(cell)), cell);
            assert_eq!(small.from_pixel(small.to_pixel(cell)), cell);
            assert_eq!(mirrored.from_pixel(mirrored.to_pixel(cell)), cell);
        }
    }
    let far = hex(80_000_000, -40_000_000);
    assert_eq!(flat.from_pixel(flat.to_pixel(far)), far);
}

#[test]
fn round_trip_fails_where_the_tile_size_does_not_divide() {
    let view = HexView::new(HexOrientation::Flat, 33, 28);
    assert_eq!(view.to_pixel(hex(22, 0)), (528, 308));
    assert_eq!(view.from_pixel(view.to_pixel(hex(21, 0))), hex(21, 0));
    assert_eq!(view.from_pixel(view.to_pixel(hex(22, 0))), hex(21, 0));
}

#[test]
fn round_picks_the_nearest_cell() {
    assert_eq!(round(0, 0, 1), hex(0, 0));
    assert_eq!(round(7, -3, 1), hex(7, -3));
    assert_eq!(round(14, -6, 2), hex(7, -3));
    // (0.6, 0.1): q rounds to 1, r to 0, s = -0.7 to -1; r is furthest off.
    assert_eq!(round(6, 1, 10), hex(1, 0));
    // (0.4, 0.4): s = -0.8 rounds to -1 and q, r to 0; q and r are furthest
    // off, and of an equal pair the second is recomputed.
    assert_eq!(round(4, 4, 10), hex(0, 1));
    // (0.5, 0): q rounds away from zero to 1, s = -0.5 to -1.
    assert_eq!(round(5, 0, 10), hex(1, 0));
    assert_eq!(round(-5, 0, 10), hex(-1, 0));
}
