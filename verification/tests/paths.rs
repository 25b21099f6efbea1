use loempia::path::holds_point;
use loempia::point::{Absolute, Coordinate, Relative};
use loempia::{get_boundaries, Error, Path, Paths, Plot};

fn path_from(points: &[(i32, i32)]) -> Path {
    points.iter().map(|&(x, y)| Coordinate::<Absolute>::new(x, y)).collect()
}

#[test]
fn coordinate_keeps_its_values() {
    let c = Coordinate::<Absolute>::new(-3, 9);
    assert_eq!(c.x, -3);
    assert_eq!(c.y, 9);
    let copy = c;
    assert_eq!(copy, c.clone());
}

#[test]
fn degenerate_paths_are_dropped() {
    let paths = Paths::new(vec![path_from(&[(0, 0)]), path_from(&[(0, 0), (1, 0), (1, 1)])]).unwrap();
    assert_eq!(paths.paths, vec![path_from(&[(0, 0), (1, 0), (1, 1)])]);
}

#[test]
fn order_of_kept_paths_is_preserved() {
    let a = path_from(&[(0, 0), (1, 1)]);
    let b = path_from(&[(9, 9), (8, 8), (7, 7)]);
    let paths = Paths::new(vec![path_from(&[]), a.clone(), path_from(&[(4, 4)]), b.clone()]).unwrap();
    assert_eq!(paths.paths, vec![a, b]);
}

#[test]
fn only_degenerate_paths_fail() {
    match Paths::new(vec![path_from(&[(0, 0)]), path_from(&[])]) {
        Err(Error::InvalidPathError(message)) => assert_eq!(
            message,
            "`paths` doesn't contain a single path with lenght of 2 points or more."
        ),
        _ => panic!("expected an error"),
    }
    assert!(matches!(Paths::new(vec![]), Err(Error::InvalidPathError(_))));
}

#[test]
fn boundaries_are_the_extremes() {
    let paths = Paths::new(vec![
        path_from(&[(5, -2), (7, 3)]),
        path_from(&[(-10, 0), (6, 40), (1, 1)]),
    ])
    .unwrap();
    assert_eq!(get_boundaries(&paths), (-10, -2, 7, 40));
}

#[test]
fn boundaries_of_one_point() {
    let paths = Paths { paths: vec![path_from(&[]), path_from(&[(3, 4)])] };
    assert!(holds_point(&paths));
    assert_eq!(get_boundaries(&paths), (3, 4, 3, 4));
    assert!(!holds_point(&Paths { paths: vec![path_from(&[])] }));
    assert!(!holds_point(&Paths { paths: vec![] }));
}

#[test]
fn plot_from_a_single_path() {
    let plot = Plot::from_path(path_from(&[(0, 0), (10, 20)])).unwrap();
    assert_eq!(plot.paths().paths, vec![path_from(&[(0, 0), (10, 20)])]);
    assert!(matches!(Plot::from_path(path_from(&[(1, 1)])), Err(Error::InvalidPathError(_))));
}

#[test]
fn plot_keeps_its_paths() {
    let paths = Paths::new(vec![path_from(&[(0, 0), (1, 1)]), path_from(&[(2, 2), (3, 5)])]).unwrap();
    let plot = Plot::new(paths);
    assert_eq!(plot.paths().paths.len(), 2);
    assert_eq!(plot.dimensions(), (3, 5));
}

#[test]
fn dimensions_do_not_overflow() {
    let plot = Plot::from_path(path_from(&[(i32::MIN, i32::MAX), (i32::MAX, i32::MIN)])).unwrap();
    assert_eq!(plot.dimensions(), (u32::MAX as i64, u32::MAX as i64));
}

#[test]
fn displacement_between_two_positions() {
    let from = Coordinate::<Absolute>::new(10, -4);
    let to = Coordinate::<Absolute>::new(7, 6);
    assert_eq!(from.displacement_to(&to), Coordinate::<Relative>::new(-3, 10));
    assert_eq!(to.displacement_to(&from), Coordinate::<Relative>::new(3, -10));
    assert_eq!(from.displacement_to(&from), Coordinate::<Relative>::new(0, 0));
}

#[test]
fn displacement_from_the_origin() {
    let position = Coordinate::<Absolute>::new(i32::MIN, i32::MAX);
    assert_eq!(position.from_origin(), Coordinate::<Relative>::new(i32::MIN, i32::MAX));
}
