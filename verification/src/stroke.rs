//! Strokes: a path taken as a start, the displacements between its points, and an end.

use crate::error::Error;
use crate::path::{Path, Paths};
use crate::point::{Absolute, Coordinate, Relative};
use crate::text::{push_unsigned, unsigned_text};
use vstd::prelude::*;
use vstd::string::StringExecFns;

verus! {

/// The displacement from each point of `points` to the next.
pub open spec fn deltas_of(points: Seq<Coordinate<Absolute>>) -> Seq<(int, int)> {
    Seq::new(
        if points.len() > 0 {
            (points.len() - 1) as nat
        } else {
            0
        },
        |i: int| (points[i + 1].x - points[i].x, points[i + 1].y - points[i].y),
    )
}

/// The displacements of `deltas` added up, axis by axis.
pub open spec fn sum(deltas: Seq<(int, int)>) -> (int, int)
    decreases deltas.len(),
{
    if deltas.len() == 0 {
        (0, 0)
    } else {
        let before = sum(deltas.drop_last());
        (before.0 + deltas.last().0, before.1 + deltas.last().1)
    }
}

/// Each displacement between two neighbours of `points` fits the coordinate type.
pub open spec fn steps_fit(points: Seq<Coordinate<Absolute>>) -> bool {
    forall|i: int|
        0 <= i < points.len() - 1 ==> {
            &&& i32::MIN <= (#[trigger] points[i + 1]).x - points[i].x <= i32::MAX
            &&& i32::MIN <= points[i + 1].y - points[i].y <= i32::MAX
        }
}

/// The message of the error for a path of `len` points.
pub open spec fn too_short_message(len: nat) -> Seq<char> {
    "Failed to convert `Path` to `Stroke`. Given `Path` contains "@ + unsigned_text(len)
        + " `Point`s, but requires at least 2 `Point`s."@
}

/// The displacements between the points of a path add up to the way from its first
/// point to its last.
pub proof fn lemma_deltas_sum(points: Seq<Coordinate<Absolute>>)
    requires
        points.len() >= 1,
    ensures
        sum(deltas_of(points)) == (
            points.last().x - points.first().x,
            points.last().y - points.first().y,
        ),
    decreases points.len(),
{
    if points.len() > 1 {
        let shorter = points.drop_last();
        lemma_deltas_sum(shorter);
        assert(deltas_of(points).drop_last() =~= deltas_of(shorter));
    }
}

/// Tells whether each displacement between two neighbours of `path` fits the coordinate type.
pub fn steps_fit_in(path: &Path) -> (fits: bool)
    ensures
        fits == steps_fit(path@),
{
    let mut i: usize = 1;
    while i < path.len()
        invariant
            1 <= i,
            forall|k: int|
                0 <= k < i - 1 && k < path.len() - 1 ==> {
                    &&& i32::MIN <= (#[trigger] path[k + 1]).x - path[k].x <= i32::MAX
                    &&& i32::MIN <= path[k + 1].y - path[k].y <= i32::MAX
                },
        decreases path.len() - i,
    {
        let dx: i64 = path[i].x as i64 - path[i - 1].x as i64;
        let dy: i64 = path[i].y as i64 - path[i - 1].y as i64;
        if dx < -0x8000_0000 || dx > 0x7fff_ffff || dy < -0x8000_0000 || dy > 0x7fff_ffff {
            assert(path@[(i - 1) + 1] == path[i as int]);
            return false;
        }
        i += 1;
    }
    true
}

/// A `Stroke` is one continuous trajectory of the lowered pen.
#[derive(PartialEq, Debug)]
pub struct Stroke {
    pub start: Coordinate<Absolute>,
    pub path: Vec<Coordinate<Relative>>,
    pub end: Coordinate<Absolute>,
}

impl Stroke {
    /// The stroke's displacements as pairs of integers.
    pub open spec fn deltas(&self) -> Seq<(int, int)> {
        Seq::new(self.path.len() as nat, |i: int| self.path[i]@)
    }

    /// The displacements lead from the start to the end.
    pub open spec fn wf(&self) -> bool {
        sum(self.deltas()) == (self.end.x - self.start.x, self.end.y - self.start.y)
    }

    /// This is the stroke along `points`.
    pub open spec fn follows(&self, points: Seq<Coordinate<Absolute>>) -> bool {
        &&& points.len() >= 2
        &&& self.start == points.first()
        &&& self.end == points.last()
        &&& self.deltas() == deltas_of(points)
    }

    /// The stroke along `path`, which needs two points at least.
    pub fn try_from(path: &Path) -> (res: Result<Stroke, Error>)
        requires
            steps_fit(path@),
        ensures
            path.len() < 2 ==> (res matches Err(Error::ConversionError(message)) && message@
                == too_short_message(path.len() as nat)),
            path.len() >= 2 ==> (res matches Ok(stroke) && stroke.follows(path@) && stroke.wf()),
    {
        if path.len() < 2 {
            let mut message = String::from_str(
                "Failed to convert `Path` to `Stroke`. Given `Path` contains ",
            );
            push_unsigned(&mut message, path.len() as u64);
            message.append(" `Point`s, but requires at least 2 `Point`s.");
            return Err(Error::ConversionError(message));
        }
        let mut deltas: Vec<Coordinate<Relative>> = Vec::new();
        let mut i: usize = 1;
        while i < path.len()
            invariant
                1 <= i <= path.len(),
                steps_fit(path@),
                deltas.len() == i - 1,
                forall|k: int|
                    0 <= k < i - 1 ==> (#[trigger] deltas[k])@ == (
                        path[k + 1].x - path[k].x,
                        path[k + 1].y - path[k].y,
                    ),
            decreases path.len() - i,
        {
            let from = path[i - 1];
            let to = path[i];
            assert(path@[(i - 1) + 1] == to);
            deltas.push(from.displacement_to(&to));
            i += 1;
        }
        let stroke = Stroke { start: path[0], path: deltas, end: path[path.len() - 1] };
        proof {
            assert(stroke.deltas() =~= deltas_of(path@));
            lemma_deltas_sum(path@);
        }
        Ok(stroke)
    }
}

/// The strokes of a plot, in the order of its paths.
#[derive(PartialEq, Debug)]
pub struct Strokes(pub Vec<Stroke>);

impl std::ops::Deref for Strokes {
    type Target = Vec<Stroke>;

    fn deref(&self) -> (strokes: &Vec<Stroke>)
        ensures
            *strokes == self.0,
    {
        &self.0
    }
}

/// Every path of `paths` has two points or more.
pub open spec fn all_drawable(paths: Seq<Path>) -> bool {
    forall|i: int| 0 <= i < paths.len() ==> (#[trigger] paths[i]).len() >= 2
}

/// The path at `k` is the first of `paths` with fewer than two points.
pub open spec fn first_short_at(paths: Seq<Path>, k: int) -> bool {
    &&& 0 <= k < paths.len()
    &&& paths[k].len() < 2
    &&& all_drawable(paths.take(k))
}

/// Tells whether the displacements of every path of `paths` fit the coordinate type.
pub fn all_steps_fit(paths: &Paths) -> (fits: bool)
    ensures
        fits == forall|i: int| 0 <= i < paths.paths.len() ==> steps_fit((#[trigger] paths.paths[i])@),
{
    let mut i: usize = 0;
    while i < paths.paths.len()
        invariant
            i <= paths.paths.len(),
            forall|k: int| 0 <= k < i ==> steps_fit((#[trigger] paths.paths[k])@),
        decreases paths.paths.len() - i,
    {
        if !steps_fit_in(&paths.paths[i]) {
            return false;
        }
        i += 1;
    }
    true
}

impl Strokes {
    /// Stroke `i` is the stroke along path `i` of `paths`.
    pub open spec fn follow(&self, paths: Seq<Path>) -> bool {
        &&& self.0.len() == paths.len()
        &&& forall|i: int|
            0 <= i < paths.len() ==> (#[trigger] self.0[i]).follows(paths[i]@) && self.0[i].wf()
    }

    /// One stroke for each path, in order; the error of the first path that is too short.
    pub fn try_from(paths: &Paths) -> (res: Result<Strokes, Error>)
        requires
            forall|i: int| 0 <= i < paths.paths.len() ==> steps_fit((#[trigger] paths.paths[i])@),
        ensures
            res is Ok <==> all_drawable(paths.paths@),
            res matches Ok(strokes) ==> strokes.follow(paths.paths@),
            res matches Err(error) ==> (error matches Error::ConversionError(message)
                && exists|k: int| #[trigger]
                    first_short_at(paths.paths@, k) && message@ == too_short_message(
                        paths.paths[k].len() as nat,
                    )),
    {
        let mut strokes: Vec<Stroke> = Vec::new();
        let mut i: usize = 0;
        while i < paths.paths.len()
            invariant
                i <= paths.paths.len(),
                forall|k: int|
                    0 <= k < paths.paths.len() ==> steps_fit((#[trigger] paths.paths[k])@),
                all_drawable(paths.paths@.take(i as int)),
                strokes.len() == i,
                forall|k: int|
                    0 <= k < i ==> (#[trigger] strokes[k]).follows(paths.paths[k]@)
                        && strokes[k].wf(),
            decreases paths.paths.len() - i,
        {
            match Stroke::try_from(&paths.paths[i]) {
                Ok(stroke) => {
                    strokes.push(stroke);
                },
                Err(error) => {
                    assert(first_short_at(paths.paths@, i as int));
                    return Err(error);
                },
            }
            i += 1;
        }
        assert(paths.paths@.take(i as int) == paths.paths@);
        Ok(Strokes(strokes))
    }
}

/// Only one path is the first that is too short, and with one such path not all can be drawn.
pub proof fn lemma_first_short_unique(paths: Seq<Path>, k: int)
    requires
        first_short_at(paths, k),
    ensures
        !all_drawable(paths),
        forall|j: int| first_short_at(paths, j) ==> j == k,
{
    assert forall|j: int| first_short_at(paths, j) implies j == k by {
        if j < k {
            assert(paths.take(k)[j] == paths[j]);
        } else if k < j {
            assert(paths.take(j)[k] == paths[k]);
        }
    }
}

} // verus!
