//! A preview of a plot: an SVG document with one outline for each stroke and a dashed frame
//! for the sheet.

use crate::drawing::{
    box_text, data_commands, data_line_by, data_line_to, data_move_to, data_new, document_add,
    document_attributes, document_children, document_new, document_set_box, joined,
    line_by_text, line_to_text, move_to_text, no_attributes, path_attributes, path_new,
    path_set_data, path_set_number, path_set_text, Attributes,
};
use crate::path::{get_boundaries, has_point, holds_point, is_bounding_box, Path};
use crate::plot::Plot;
use crate::stroke::{all_drawable, all_steps_fit, deltas_of, steps_fit, Stroke, Strokes};
use crate::text::signed_text;
use svg::node::element::Path as Outline;
use svg::Document;
use vstd::prelude::*;

verus! {

/// Width of the sheet that the frame stands for.
pub const SHEET_WIDTH: i32 = 30_300;

/// Height of the sheet that the frame stands for.
pub const SHEET_HEIGHT: i32 = 21_000;

/// Width of every line of the preview.
pub const LINE_WIDTH: i32 = 10;

/// The commands of one outline: a move to the start, then a line by each displacement.
pub open spec fn trajectory_texts(start: (int, int), deltas: Seq<(int, int)>) -> Seq<Seq<char>> {
    seq![move_to_text(start.0, start.1)] + Seq::new(
        deltas.len(),
        |i: int| line_by_text(deltas[i].0, deltas[i].1),
    )
}

/// The commands of the frame: from the origin round the sheet and back.
pub open spec fn frame_texts() -> Seq<Seq<char>> {
    seq![
        move_to_text(0, 0),
        line_to_text(0, SHEET_HEIGHT as int),
        line_to_text(SHEET_WIDTH as int, SHEET_HEIGHT as int),
        line_to_text(SHEET_WIDTH as int, 0),
        line_to_text(0, 0),
    ]
}

/// The attributes of a black line without filling.
pub open spec fn line_attributes() -> Attributes {
    no_attributes().insert("fill"@, "none"@).insert("stroke"@, "black"@)
}

/// The attributes of the outline that draws `commands`.
pub open spec fn outline_attributes(commands: Seq<Seq<char>>) -> Attributes {
    line_attributes().insert("stroke-width"@, signed_text(LINE_WIDTH as int)).insert(
        "d"@,
        joined(commands),
    )
}

/// The attributes of the frame.
pub open spec fn frame_attributes() -> Attributes {
    line_attributes().insert("stroke-dasharray"@, "100,100"@).insert(
        "stroke-width"@,
        signed_text(LINE_WIDTH as int),
    ).insert("d"@, joined(frame_texts()))
}

/// The attributes of the preview of a drawing with the bounding box `b`: the namespace, and
/// the box as its corner, its width and its height.
pub open spec fn preview_attributes(b: (i32, i32, i32, i32)) -> Attributes {
    no_attributes().insert("xmlns"@, "http://www.w3.org/2000/svg"@).insert(
        "viewBox"@,
        box_text(b.0 as int, b.1 as int, b.2 - b.0, b.3 - b.1),
    )
}

/// The outlines of `paths`, in order.
pub open spec fn outlines(paths: Seq<Path>) -> Seq<Attributes> {
    Seq::new(
        paths.len(),
        |i: int| outline_attributes(trajectory_texts(paths[i]@.first()@, deltas_of(paths[i]@))),
    )
}

/// A preview can be made of `paths`: there is a point, every path has two points or more,
/// and the displacements and the bounding box's width and height fit the coordinate type.
pub open spec fn previewable(paths: Seq<Path>) -> bool {
    &&& has_point(paths)
    &&& all_drawable(paths)
    &&& forall|i: int| 0 <= i < paths.len() ==> steps_fit((#[trigger] paths[i])@)
    &&& forall|b: (i32, i32, i32, i32)|
        is_bounding_box(paths, b) ==> b.2 - b.0 <= i32::MAX && b.3 - b.1 <= i32::MAX
}

/// The outline of one stroke.
pub fn stroke_outline(stroke: &Stroke) -> (outline: Outline)
    ensures
        path_attributes(outline) == outline_attributes(
            trajectory_texts(stroke.start@, stroke.deltas()),
        ),
{
    let mut data = data_move_to(data_new(), stroke.start.x, stroke.start.y);
    let mut i: usize = 0;
    while i < stroke.path.len()
        invariant
            i <= stroke.path.len(),
            data_commands(data) == trajectory_texts(stroke.start@, stroke.deltas().take(i as int)),
        decreases stroke.path.len() - i,
    {
        data = data_line_by(data, stroke.path[i].x, stroke.path[i].y);
        assert(data_commands(data) =~= trajectory_texts(
            stroke.start@,
            stroke.deltas().take(i + 1),
        ));
        i += 1;
    }
    assert(stroke.deltas().take(i as int) == stroke.deltas());
    let outline = path_set_text(path_new(), "fill", "none");
    let outline = path_set_text(outline, "stroke", "black");
    let outline = path_set_number(outline, "stroke-width", LINE_WIDTH);
    path_set_data(outline, "d", data)
}

/// The dashed frame of the sheet.
pub fn frame_outline() -> (outline: Outline)
    ensures
        path_attributes(outline) == frame_attributes(),
{
    let data = data_move_to(data_new(), 0, 0);
    let data = data_line_to(data, 0, SHEET_HEIGHT);
    let data = data_line_to(data, SHEET_WIDTH, SHEET_HEIGHT);
    let data = data_line_to(data, SHEET_WIDTH, 0);
    let data = data_line_to(data, 0, 0);
    assert(data_commands(data) =~= frame_texts());
    let outline = path_set_text(path_new(), "fill", "none");
    let outline = path_set_text(outline, "stroke", "black");
    let outline = path_set_text(outline, "stroke-dasharray", "100,100");
    let outline = path_set_number(outline, "stroke-width", LINE_WIDTH);
    path_set_data(outline, "d", data)
}

impl Plot {
    /// Tells whether a preview can be made of this plot.
    pub fn can_preview(&self) -> (can: bool)
        ensures
            can == previewable(self@.paths@),
    {
        let paths = self.paths();
        if !holds_point(paths) || !all_steps_fit(paths) {
            return false;
        }
        if Strokes::try_from(paths).is_err() {
            return false;
        }
        let (width, height) = self.dimensions();
        width <= 0x7fff_ffff && height <= 0x7fff_ffff
    }

    /// Create a preview of the plot as SVG: the view box is the bounding box of the points,
    /// each stroke is an outline, in the order of the paths, and the frame comes last.
    pub fn preview(&self) -> (document: Document)
        requires
            previewable(self@.paths@),
        ensures
            forall|b: (i32, i32, i32, i32)|
                is_bounding_box(self@.paths@, b) ==> document_attributes(document)
                    == preview_attributes(b),
            document_children(document) == outlines(self@.paths@).push(frame_attributes()),
    {
        let paths = self.paths();
        let (min_x, min_y, max_x, max_y) = get_boundaries(paths);
        let strokes = match Strokes::try_from(paths) {
            Ok(strokes) => strokes,
            Err(_) => {
                proof {
                    assert(false);
                }
                Strokes(Vec::new())
            },
        };
        proof {
            let found = (min_x, min_y, max_x, max_y);
            assert forall|b: (i32, i32, i32, i32)| is_bounding_box(self@.paths@, b) implies b
                == found by {
                crate::path::lemma_bounding_box_unique(self@.paths@, b, found);
            }
            let (i, j) = choose|i: int, j: int|
                0 <= i < paths.paths.len() && 0 <= j < paths.paths[i].len() && (
                #[trigger] paths.paths[i][j]).x == min_x;
            let p = paths.paths[i][j];
            assert(min_x <= p.x <= max_x && min_y <= p.y <= max_y);
        }
        let mut document = document_set_box(
            document_new(),
            "viewBox",
            (min_x, min_y, max_x - min_x, max_y - min_y),
        );
        let mut i: usize = 0;
        while i < strokes.0.len()
            invariant
                i <= strokes.0.len(),
                *paths == self@,
                strokes.follow(paths.paths@),
                document_attributes(document) == preview_attributes(
                    (min_x, min_y, max_x, max_y),
                ),
                document_children(document) == outlines(paths.paths@.take(i as int)),
            decreases strokes.0.len() - i,
        {
            document = document_add(document, stroke_outline(&strokes.0[i]));
            assert(document_children(document) =~= outlines(paths.paths@.take(i + 1)));
            i += 1;
        }
        assert(paths.paths@.take(i as int) == paths.paths@);
        document_add(document, frame_outline())
    }
}

} // verus!
