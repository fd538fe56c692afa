use triplanetary::hex;
use triplanetary::Hex;
use triplanetary::Path;

fn one(q: i32, r: i32) -> Path {
    Path::One(hex(q, r))
}

fn alt(q: i32, r: i32, other_q: i32, other_r: i32) -> Path {
    Path::Alt(hex(q, r), hex(other_q, other_r))
}

#[test]
fn line_along_an_axis_is_single_cells() {
    assert_eq!(hex(0, 0).line(hex(2, 0)), vec![one(0, 0), one(1, 0), one(2, 0)]);
    assert_eq!(
        hex(1, -2).line(hex(-3, 4)),
        vec![one(1, -2), one(0, -1), one(0, 0), one(-1, 1), one(-2, 2), one(-2, 3), one(-3, 4)]
    );
}

#[test]
fn line_to_itself_is_one_step() {
    assert_eq!(hex(0, 0).line(hex(0, 0)), vec![one(0, 0)]);
    assert_eq!(hex(-7, 3).line(hex(-7, 3)), vec![one(-7, 3)]);
}

#[test]
fn line_over_an_edge_reports_both_cells() {
    assert_eq!(hex(0, 0).line(hex(1, 1)), vec![one(0, 0), alt(1, 0, 0, 1), one(1, 1)]);
    assert_eq!(
        hex(0, 0).line(hex(4, -2)),
        vec![one(0, 0), alt(1, -1, 1, 0), one(2, -1), alt(3, -2, 3, -1), one(4, -2)]
    );
    assert_eq!(hex(0, 0).line(hex(1, -2)), vec![one(0, 0), alt(1, -1, 0, -1), one(1, -2)]);
    assert_eq!(hex(0, 0).line(hex(-2, 1)), vec![one(0, 0), alt(-1, 0, -1, 1), one(-2, 1)]);
    assert_eq!(hex(0, 0).line(hex(-1, -1)), vec![one(0, 0), alt(0, -1, -1, 0), one(-1, -1)]);
    assert_eq!(
        hex(0, 0).line(hex(3, 3)),
        vec![
            one(0, 0),
            alt(1, 0, 0, 1),
            one(1, 1),
            alt(2, 1, 1, 2),
            one(2, 2),
            alt(3, 2, 2, 3),
            one(3, 3),
        ]
    );
}

#[test]
fn line_off_axis_rounds_to_the_nearest_cell() {
    assert_eq!(hex(0, 0).line(hex(3, -1)), vec![one(0, 0), one(1, 0), one(2, -1), one(3, -1)]);
    assert_eq!(hex(0, 0).line(hex(2, 1)), vec![one(0, 0), one(1, 0), one(1, 1), one(2, 1)]);
    assert_eq!(hex(2, 1).line(hex(0, 0)), vec![one(2, 1), one(1, 1), one(1, 0), one(0, 0)]);
    assert_eq!(
        hex(0, 0).line(hex(5, -3)),
        vec![one(0, 0), one(1, -1), one(2, -1), one(3, -2), one(4, -2), one(5, -3)]
    );
}

#[test]
fn line_has_one_step_more_than_the_distance_and_exact_ends() {
    for q in -6..7 {
        for r in -6..7 {
            let a = hex(2, -1);
            let b = hex(q, r);
            let path = a.line(b);
            assert_eq!(path.len(), a.distance(b) as usize + 1);
            assert_eq!(path[0], Path::One(a));
            assert_eq!(path[path.len() - 1], Path::One(b));
        }
    }
}

#[test]
fn line_backwards_visits_the_same_samples() {
    for q in -5..6 {
        for r in -5..6 {
            let a = hex(-1, 3);
            let b = hex(q, r);
            let mut forwards = a.line(b);
            forwards.reverse();
            assert_eq!(forwards, b.line(a));
        }
    }
}

#[test]
fn line_at_is_one_sample_of_the_line() {
    let a = hex(0, 0);
    let b = hex(4, -2);
    let path = a.line(b);
    for i in 0..path.len() {
        assert_eq!(a.line_at(b, i as i32), path[i]);
    }
}

#[test]
fn line_between_far_cells() {
    let a = hex(-1_000_000_000, 500_000_000);
    let b = hex(-1_000_000_000 + 3, 500_000_000);
    assert_eq!(
        a.line(b),
        vec![
            Path::One(a),
            Path::One(hex(-999_999_999, 500_000_000)),
            Path::One(hex(-999_999_998, 500_000_000)),
            Path::One(b),
        ]
    );
    assert_eq!(hex(i32::MIN, 0).line_at(hex(-1, 0), 0), Path::One(hex(i32::MIN, 0)));
    assert_eq!(hex(i32::MIN, 0).line_at(hex(-1, 0), i32::MAX), Path::One(hex(-1, 0)));
}

#[test]
fn move_to_the_value_already_held_changes_nothing() {
    for power in 0..5 {
        assert_eq!(hex(1, 1).move_to(hex(1, 1), power), hex(1, 1));
        assert_eq!(hex(0, 0).move_to(hex(0, 0), power), hex(0, 0));
        assert_eq!(hex(-40, 17).move_to(hex(-40, 17), power), hex(-40, 17));
    }
    assert_eq!(hex(-40, 17).move_to(hex(-40, 17), -1), hex(-40, 17));
}

#[test]
fn move_to_goes_at_most_speed_steps() {
    assert_eq!(hex(0, 0).move_to(hex(3, 0), 0), hex(0, 0));
    assert_eq!(hex(0, 0).move_to(hex(3, 0), 1), hex(1, 0));
    assert_eq!(hex(0, 0).move_to(hex(3, 0), 2), hex(2, 0));
    assert_eq!(hex(0, 0).move_to(hex(3, 0), 3), hex(3, 0));
    assert_eq!(hex(0, 0).move_to(hex(4, -2), 2), hex(2, -1));
    assert_eq!(hex(0, 0).move_to(hex(2, -1), 1), hex(1, 0));
}

#[test]
fn move_to_stops_at_the_target() {
    assert_eq!(hex(0, 0).move_to(hex(1, 0), 5), hex(1, 0));
    assert_eq!(hex(0, 0).move_to(hex(3, 0), 4), hex(3, 0));
    assert_eq!(hex(2, 2).move_to(hex(3, 1), 1), hex(3, 1));
    assert_eq!(hex(0, 0).move_to(hex(3, 0), i32::MAX), hex(3, 0));
}

#[test]
fn move_to_with_negative_speed_is_unlimited() {
    assert_eq!(hex(0, 0).move_to(hex(3, 0), -1), hex(3, 0));
    assert_eq!(hex(0, 0).move_to(hex(-8, 5), i32::MIN), hex(-8, 5));
}

#[test]
fn move_to_on_an_edge_takes_the_first_cell_only_if_it_is_longer() {
    assert_eq!(hex(0, 0).move_to(hex(1, 1), 1), hex(0, 1));
    assert_eq!(hex(0, 0).move_to(hex(2, 2), 1), hex(0, 1));
    assert_eq!(hex(0, 0).move_to(hex(-1, 2), 1), hex(-1, 1));
    assert_eq!(hex(0, 0).move_to(hex(1, -2), 1), hex(0, -1));
    assert_eq!(hex(0, 0).move_to(hex(-2, 1), 1), hex(-1, 1));
    assert_eq!(hex(0, 0).move_to(hex(-1, -1), 1), hex(-1, 0));
    assert_eq!(Hex::new(0, 2).line_at(hex(1, 0), 1), Path::Alt(hex(1, 1), hex(0, 1)));
    assert_eq!(hex(0, 2).move_to(hex(1, 0), 1), hex(1, 1));
    assert_eq!(hex(3, 0).move_to(hex(2, 2), 1), hex(3, 1));
    assert_eq!(hex(0, -3).move_to(hex(-2, -2), 1), hex(-1, -3));
    assert_eq!(hex(2, 0).move_to(hex(0, 1), 1), hex(1, 1));
}
