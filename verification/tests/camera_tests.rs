use triplanetary::anchor::Horizontal;
use triplanetary::anchor::Vertical;
use triplanetary::anchor_offset;
use triplanetary::hex;
use triplanetary::input_mouse_pan_system;
use triplanetary::Anchor;
use triplanetary::Camera;
use triplanetary::Hex;

#[test]
fn anchors_lie_at_no_half_or_the_full_extent() {
    let columns = [(Horizontal::Left, 0), (Horizontal::Middle, 50), (Horizontal::Right, 101)];
    let rows = [(Vertical::Top, 0), (Vertical::Center, 30), (Vertical::Bottom, 60)];
    for (h, x) in columns.iter() {
        for (v, y) in rows.iter() {
            let anchor = Anchor::new(*h, *v);
            assert_eq!(anchor.offset(101, 60), (*x, *y));
            assert_eq!(anchor_offset(anchor, 101, 60), (*x, *y));
        }
    }
}

#[test]
fn anchors_of_a_mirrored_rectangle() {
    let anchor = Anchor { h: Horizontal::Middle, v: Vertical::Bottom };
    assert_eq!(anchor.offset(-32, -28), (-16, -28));
    assert_eq!(anchor.offset(-33, -27), (-16, -27));
    let center = Anchor { h: Horizontal::Middle, v: Vertical::Center };
    assert_eq!(center.offset(-33, -27), (-16, -13));
    assert_eq!(center.offset(i32::MIN, i32::MAX), (-1073741824, 1073741823));
}

#[test]
fn a_new_camera_shows_the_origin_in_the_middle() {
    let camera = Camera::new();
    assert_eq!(camera.center_hex, hex(0, 0));
    assert_eq!(camera.center_pix, (0, 0));
    assert_eq!(camera.drag, None);
    assert_eq!(camera.to_screen(hex(0, 0)), Some((0, 0)));
    assert_eq!(camera.to_screen(hex(1, 0)), Some((24, 14)));
    assert_eq!(camera.to_world((0, 0)), Some(hex(0, 0)));
    assert_eq!(camera.to_world((24, 14)), Some(hex(1, 0)));
    assert_eq!(camera.to_world((20, 10)), Some(hex(1, 0)));
}

#[test]
fn a_camera_shifts_by_its_center() {
    let camera = Camera { center_hex: hex(2, -1), center_pix: (5, -3), drag: None };
    assert_eq!(camera.to_screen(hex(2, -1)), Some((-5, 3)));
    assert_eq!(camera.to_screen(hex(3, -1)), Some((19, 17)));
    assert_eq!(camera.to_world((-5, 3)), Some(hex(2, -1)));
    assert_eq!(camera.to_world((19, 17)), Some(hex(3, -1)));
    for q in -5..6 {
        for r in -5..6 {
            let screen = camera.to_screen(hex(q, r)).unwrap();
            assert_eq!(camera.to_world(screen), Some(hex(q, r)));
        }
    }
}

#[test]
fn a_camera_reports_what_is_out_of_range() {
    let camera = Camera { center_hex: hex(-10, 0), center_pix: (10, 0), drag: None };
    assert_eq!(camera.to_screen(hex(i32::MAX, 0)), None);
    assert_eq!(camera.to_screen(hex(80_000_000, 0)), Some((1_920_000_230, 1_120_000_140)));
    assert_eq!(camera.to_screen(hex(90_000_000, 0)), None);
    assert_eq!(camera.to_world((i32::MAX, 0)), None);
    let far = Camera { center_hex: hex(i32::MAX, 0), center_pix: (0, 0), drag: None };
    assert_eq!(far.to_world((24, 14)), None);
    assert_eq!(far.to_world((-24, -14)), Some(hex(i32::MAX - 1, 0)));
}

#[test]
fn dragging_moves_the_shift_and_settles_into_cells_on_release() {
    let mut camera = Camera::new();
    input_mouse_pan_system(&mut camera, (100, 100), false, false);
    assert_eq!(camera.drag, None);
    // The drag takes hold of the world at the cursor.
    input_mouse_pan_system(&mut camera, (100, 100), true, false);
    assert_eq!(camera.drag, Some((100, 100)));
    assert_eq!(camera.center_pix, (0, 0));
    // Moving the cursor left by 30 shows what lies 30 to the right.
    input_mouse_pan_system(&mut camera, (70, 100), false, false);
    assert_eq!(camera.center_pix, (30, 0));
    assert_eq!(camera.center_hex, hex(0, 0));
    assert_eq!(camera.drag, Some((100, 100)));
    // Pressing again while dragging changes nothing more.
    input_mouse_pan_system(&mut camera, (50, 86), true, false);
    assert_eq!(camera.center_pix, (50, 14));
    // On release the shift of (50, 14) becomes the cell (2, -1) and a rest.
    input_mouse_pan_system(&mut camera, (50, 86), false, true);
    assert_eq!(camera.center_hex, hex(2, -1));
    assert_eq!(camera.center_pix, (2, 14));
    assert_eq!(camera.drag, None);
    assert_eq!(camera.to_world((0, 0)), Some(hex(2, -1)));
    assert_eq!(camera.to_world((22, 0)), Some(hex(3, -1)));
}

#[test]
fn columns_of_the_grid_are_shoved_down_in_turn() {
    assert_eq!(Hex::from_offset(0, 0), hex(0, 0));
    assert_eq!(Hex::from_offset(1, 0), hex(1, 0));
    assert_eq!(Hex::from_offset(2, 0), hex(2, -1));
    assert_eq!(Hex::from_offset(3, 0), hex(3, -1));
    assert_eq!(Hex::from_offset(3, 5), hex(3, 4));
    assert_eq!(Hex::from_offset(-1, 0), hex(-1, 1));
    assert_eq!(Hex::from_offset(-2, 0), hex(-2, 1));
    assert_eq!(Hex::from_offset(-3, 0), hex(-3, 2));
    assert_eq!(Hex::from_offset(-3, -4), hex(-3, -2));
}
