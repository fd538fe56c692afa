use triplanetary::color::black;
use triplanetary::color::blue;
use triplanetary::color::dark_yellow;
use triplanetary::color::green;
use triplanetary::color::red;
use triplanetary::color::white;
use triplanetary::generation_site;
use triplanetary::hex;
use triplanetary::Color;

#[test]
fn no_object_is_generated_close_to_the_origin() {
    assert_eq!(generation_site(12, hex(0, 0)), None);
    assert_eq!(generation_site(12, hex(3, 0)), None);
    assert_eq!(generation_site(12, hex(-1, 3)), None);
    assert_eq!(generation_site(12, hex(2, 1)), None);
}

#[test]
fn generation_starts_from_a_hashed_seed_and_the_cells_pixel() {
    assert_eq!(generation_site(12, hex(4, 0)), Some((449083085, (96, 56))));
    assert_eq!(generation_site(12, hex(-3, 5)), Some((449083085, (-72, 98))));
    assert_eq!(generation_site(0, hex(2, 2)).map(|site| site.1), Some((48, 84)));
    assert_ne!(generation_site(0, hex(2, 2)).map(|site| site.0), Some(449083085));
}

#[test]
fn no_object_is_generated_where_the_pixel_is_out_of_range() {
    assert_eq!(generation_site(12, hex(100_000_000, 0)), None);
    assert_eq!(generation_site(12, hex(0, 80_000_000)), None);
    assert_eq!(
        generation_site(12, hex(80_000_000, -40_000_000)).map(|site| site.1),
        Some((1_920_000_000, 0))
    );
}

#[test]
fn the_palette() {
    assert_eq!(white(), Color { r: 238, g: 238, b: 236, a: 255 });
    assert_eq!(red(), Color { r: 164, g: 0, b: 0, a: 255 });
    assert_eq!(green(), Color { r: 30, g: 100, b: 40, a: 255 });
    assert_eq!(blue(), Color { r: 48, g: 60, b: 120, a: 255 });
    assert_eq!(black(), Color { r: 0, g: 0, b: 0, a: 255 });
    assert_eq!(dark_yellow(), Color { r: 180, g: 170, b: 60, a: 255 });
}
