use loempia::point::{Absolute, Coordinate, Relative};
use loempia::stroke::{all_steps_fit, steps_fit_in};
use loempia::{Error, Path, Paths, Stroke, Strokes};

fn path_of(points: &[(i32, i32)]) -> Path {
    points.iter().map(|&(x, y)| Coordinate::<Absolute>::new(x, y)).collect()
}

fn deltas_of(steps: &[(i32, i32)]) -> Vec<Coordinate<Relative>> {
    steps.iter().map(|&(x, y)| Coordinate::<Relative>::new(x, y)).collect()
}

#[test]
fn convert_valid_path_to_stroke() {
    let path: Path = path_of(&[(0, 0), (1, 0), (1, 1), (0, 1), (0, 0)]);

    let vectors = Stroke::try_from(&path).unwrap();
    let expected = Stroke {
        start: Coordinate::new(0, 0),
        path: deltas_of(&[(1, 0), (0, 1), (-1, 0), (0, -1)]),
        end: Coordinate::new(0, 0),
    };

    assert_eq!(vectors, expected);
}

#[test]
fn closed_square_sums_to_zero() {
    let path = path_of(&[(0, 0), (1000, 0), (1000, 1000), (0, 1000), (0, 0)]);
    let stroke = Stroke::try_from(&path).unwrap();
    assert_eq!(stroke.path, deltas_of(&[(1000, 0), (0, 1000), (-1000, 0), (0, -1000)]));
    let sum = stroke.path.iter().fold((0i64, 0i64), |acc, d| (acc.0 + d.x as i64, acc.1 + d.y as i64));
    assert_eq!(sum, (0, 0));
    assert_eq!(sum, ((stroke.end.x - stroke.start.x) as i64, (stroke.end.y - stroke.start.y) as i64));
}

#[test]
fn deltas_sum_to_end_minus_start() {
    let path = path_of(&[(-7, 12), (40, -3), (40, 99), (-1000, 5)]);
    let stroke = Stroke::try_from(&path).unwrap();
    assert_eq!(stroke.start, Coordinate::new(-7, 12));
    assert_eq!(stroke.end, Coordinate::new(-1000, 5));
    assert_eq!(stroke.path.len(), path.len() - 1);
    assert_eq!(stroke.path, deltas_of(&[(47, -15), (0, 102), (-1040, -94)]));
    let sum = stroke.path.iter().fold((0, 0), |acc, d| (acc.0 + d.x, acc.1 + d.y));
    assert_eq!(sum, (-1000 - -7, 5 - 12));
}

#[test]
fn two_points_give_one_delta() {
    let stroke = Stroke::try_from(&path_of(&[(3, 4), (1, 9)])).unwrap();
    assert_eq!(stroke.path, deltas_of(&[(-2, 5)]));
}

#[test]
fn empty_path_is_a_conversion_error() {
    match Stroke::try_from(&path_of(&[])) {
        Err(Error::ConversionError(message)) => assert_eq!(
            message,
            "Failed to convert `Path` to `Stroke`. Given `Path` contains 0 `Point`s, but requires at least 2 `Point`s."
        ),
        other => panic!("unexpected {:?}", other),
    }
}

#[test]
fn single_point_is_a_conversion_error() {
    match Stroke::try_from(&path_of(&[(5, 5)])) {
        Err(Error::ConversionError(message)) => assert_eq!(
            message,
            "Failed to convert `Path` to `Stroke`. Given `Path` contains 1 `Point`s, but requires at least 2 `Point`s."
        ),
        other => panic!("unexpected {:?}", other),
    }
}

#[test]
fn strokes_follow_the_paths_in_order() {
    let paths = Paths::new(vec![path_of(&[(0, 0), (2, 2)]), path_of(&[(5, 5), (4, 4), (3, 6)])]).unwrap();
    let strokes = Strokes::try_from(&paths).unwrap();
    assert_eq!(strokes.0.len(), 2);
    assert_eq!(strokes.0[0].path, deltas_of(&[(2, 2)]));
    assert_eq!(strokes.0[1].start, Coordinate::new(5, 5));
    assert_eq!(strokes.0[1].path, deltas_of(&[(-1, -1), (-1, 2)]));
    assert_eq!(strokes.0[1].end, Coordinate::new(3, 6));
}

#[test]
fn strokes_fail_on_the_first_short_path() {
    let paths = Paths { paths: vec![path_of(&[(0, 0), (2, 2)]), path_of(&[(1, 1)]), path_of(&[])] };
    match Strokes::try_from(&paths) {
        Err(Error::ConversionError(message)) => assert!(message.contains("contains 1 `Point`s")),
        other => panic!("unexpected {:?}", other),
    }
}

#[test]
fn steps_that_overflow_are_told_apart() {
    assert!(steps_fit_in(&path_of(&[(0, 0), (i32::MAX, i32::MIN)])));
    assert!(!steps_fit_in(&path_of(&[(-1, 0), (i32::MAX, 0)])));
    assert!(!steps_fit_in(&path_of(&[(0, 0), (0, 1), (0, i32::MIN)])));
    assert!(steps_fit_in(&path_of(&[])));
    let paths = Paths { paths: vec![path_of(&[(0, 0), (1, 1)]), path_of(&[(1, 0), (i32::MIN, 0)])] };
    assert!(!all_steps_fit(&paths));
    let paths = Paths { paths: vec![path_of(&[(0, 0), (1, 1)])] };
    assert!(all_steps_fit(&paths));
}

#[test]
fn strokes_are_read_as_a_list() {
    let strokes = Strokes(vec![
        Stroke::try_from(&path_of(&[(0, 0), (1, 1)])).unwrap(),
        Stroke::try_from(&path_of(&[(2, 2), (3, 3), (9, 9)])).unwrap(),
    ]);
    assert_eq!(strokes.len(), 2);
    assert_eq!(strokes.iter().map(|s| s.path.len()).collect::<Vec<_>>(), vec![1, 2]);
}
