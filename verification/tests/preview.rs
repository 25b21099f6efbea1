use loempia::point::{Absolute, Coordinate, Relative};
use loempia::preview::{frame_outline, stroke_outline, LINE_WIDTH, SHEET_HEIGHT, SHEET_WIDTH};
use loempia::{Path, Paths, Plot, Stroke};
use svg::node::element::path::Data;
use svg::Document;

fn track(list: &[(i32, i32)]) -> Path {
    list.iter().map(|&(x, y)| Coordinate::<Absolute>::new(x, y)).collect()
}

const FRAME: &str = "<path d=\"M0,0 L0,21000 L30300,21000 L30300,0 L0,0\" fill=\"none\" stroke=\"black\" stroke-dasharray=\"100,100\" stroke-width=\"10\"/>";

#[test]
fn preview_of_one_path() {
    let plot = Plot::from_path(track(&[(10, 20), (110, 20), (110, 70)])).unwrap();
    let expected = format!(
        "<svg viewBox=\"10 20 100 50\" xmlns=\"http://www.w3.org/2000/svg\">\n<path d=\"M10,20 l100,0 l0,50\" fill=\"none\" stroke=\"black\" stroke-width=\"10\"/>\n{}\n</svg>",
        FRAME
    );
    assert_eq!(plot.preview().to_string(), expected);
}

#[test]
fn preview_keeps_the_order_of_the_paths() {
    let paths = Paths::new(vec![track(&[(0, 0), (-5, 5)]), track(&[(3, 3), (4, 4), (2, 9)])]).unwrap();
    let expected = format!(
        "<svg viewBox=\"-5 0 9 9\" xmlns=\"http://www.w3.org/2000/svg\">\n<path d=\"M0,0 l-5,5\" fill=\"none\" stroke=\"black\" stroke-width=\"10\"/>\n<path d=\"M3,3 l1,1 l-2,5\" fill=\"none\" stroke=\"black\" stroke-width=\"10\"/>\n{}\n</svg>",
        FRAME
    );
    assert_eq!(Plot::new(paths).preview().to_string(), expected);
}

#[test]
fn preview_is_what_the_calls_build() {
    let plot = Plot::from_path(track(&[(1, 2), (3, 5)])).unwrap();
    let outline = svg::node::element::Path::new()
        .set("fill", "none")
        .set("stroke", "black")
        .set("stroke-width", 10)
        .set("d", Data::new().move_to((1, 2)).line_by((2, 3)));
    let frame = svg::node::element::Path::new()
        .set("fill", "none")
        .set("stroke", "black")
        .set("stroke-dasharray", "100,100")
        .set("stroke-width", 10)
        .set(
            "d",
            Data::new()
                .move_to((0, 0))
                .line_to((0, 21000))
                .line_to((30300, 21000))
                .line_to((30300, 0))
                .line_to((0, 0)),
        );
    let expected = Document::new().set("viewBox", (1, 2, 2, 3)).add(outline).add(frame);
    assert_eq!(plot.preview().to_string(), expected.to_string());
}

#[test]
fn outline_of_a_stroke() {
    let stroke = Stroke {
        start: Coordinate::<Absolute>::new(7, -8),
        path: vec![Coordinate::<Relative>::new(1, 0), Coordinate::<Relative>::new(0, -1)],
        end: Coordinate::<Absolute>::new(8, -9),
    };
    assert_eq!(
        stroke_outline(&stroke).to_string(),
        "<path d=\"M7,-8 l1,0 l0,-1\" fill=\"none\" stroke=\"black\" stroke-width=\"10\"/>"
    );
}

#[test]
fn frame_goes_round_the_sheet() {
    assert_eq!(frame_outline().to_string(), FRAME);
    assert_eq!((SHEET_WIDTH, SHEET_HEIGHT, LINE_WIDTH), (30300, 21000, 10));
}

#[test]
fn preview_needs_drawable_paths_that_fit() {
    assert!(Plot::from_path(track(&[(0, 0), (1, 1)])).unwrap().can_preview());
    assert!(!Plot::new(Paths { paths: vec![] }).can_preview());
    assert!(!Plot::new(Paths { paths: vec![track(&[(0, 0), (1, 1)]), track(&[(2, 2)])] }).can_preview());
    assert!(!Plot::new(Paths { paths: vec![track(&[(-1, 0), (i32::MAX, 0)])] }).can_preview());
    assert!(!Plot::new(Paths { paths: vec![track(&[(-2, 0), (0, 0)]), track(&[(i32::MAX, 0), (i32::MAX - 1, 0)])] }).can_preview());
    assert!(Plot::new(Paths { paths: vec![track(&[(-1, 0), (0, 0)]), track(&[(i32::MAX - 1, 0), (i32::MAX - 2, 0)])] }).can_preview());
}
