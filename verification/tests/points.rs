use gridwalk::point::Direction;
use gridwalk::point::Point;

#[test]
fn add_is_component_wise() {
    let sum = Point { x: 3, y: -4 } + Point { x: 10, y: 20 };
    assert_eq!(sum, Point { x: 13, y: 16 });
}

#[test]
fn sub_is_component_wise() {
    let difference = Point { x: 3, y: -4 } - Point { x: 10, y: 20 };
    assert_eq!(difference, Point { x: -7, y: -24 });
}

#[test]
fn points_compare_by_both_coordinates() {
    assert_eq!(Point { x: 1, y: 2 }, Point { x: 1, y: 2 });
    assert_ne!(Point { x: 1, y: 2 }, Point { x: 2, y: 1 });
    assert_ne!(Point { x: 1, y: 2 }, Point { x: 1, y: 3 });
}

#[test]
fn direction_deltas_are_the_unit_steps() {
    assert_eq!(Direction::Up.delta(), Point { x: 0, y: -1 });
    assert_eq!(Direction::Down.delta(), Point { x: 0, y: 1 });
    assert_eq!(Direction::Left.delta(), Point { x: -1, y: 0 });
    assert_eq!(Direction::Right.delta(), Point { x: 1, y: 0 });
}

#[test]
fn add_then_sub_returns_the_point_for_each_direction() {
    let starts = vec![
        Point { x: 0, y: 0 },
        Point { x: 7, y: -3 },
        Point { x: -120, y: 45 },
        Point { x: i32::MAX - 1, y: i32::MIN + 1 },
    ];
    let directions = vec![Direction::Left, Direction::Right, Direction::Up, Direction::Down];
    for start in &starts {
        for direction in &directions {
            let delta = direction.delta();
            assert_eq!((*start + delta) - delta, *start);
            assert_eq!((*start - delta) + delta, *start);
        }
    }
}

#[test]
fn add_then_sub_returns_the_point_for_other_deltas() {
    let p = Point { x: 12, y: 34 };
    let delta = Point { x: -500, y: 1000 };
    assert_eq!((p + delta) - delta, p);
}
