//! Paths: what is to be drawn, as absolute points.

use crate::error::Error;
use crate::point::{Absolute, Coordinate};
use vstd::prelude::*;
use vstd::string::StringExecFns;

verus! {

/// A series of connected points form a `Path`.
pub type Path = Vec<Coordinate<Absolute>>;

/// The paths of `all` that can be drawn, in their order: those of two points or more.
pub open spec fn drawable(all: Seq<Path>) -> Seq<Path> {
    all.filter(|path: Path| path.len() > 1)
}

/// Taking one more path into account adds it to the drawable ones, or changes nothing.
pub proof fn lemma_drawable_step(all: Seq<Path>, n: int)
    requires
        0 <= n < all.len(),
    ensures
        drawable(all.take(n + 1)) == if all[n].len() > 1 {
            drawable(all.take(n)).push(all[n])
        } else {
            drawable(all.take(n))
        },
{
    reveal(Seq::filter);
    assert(all.take(n + 1).drop_last() == all.take(n));
}

/// A collection of paths, each of which can be drawn.
pub struct Paths {
    pub paths: Vec<Path>,
}

impl Paths {
    /// There is a path, and every path has two points or more.
    pub open spec fn wf(&self) -> bool {
        &&& self.paths.len() > 0
        &&& forall|i: int| 0 <= i < self.paths.len() ==> (#[trigger] self.paths[i]).len() > 1
    }

    /// Create new `Paths` from the paths of two points or more. Returns `Err` when there is
    /// none.
    pub fn new(paths: Vec<Path>) -> (res: Result<Self, Error>)
        ensures
            drawable(paths@).len() == 0 ==> (res matches Err(Error::InvalidPathError(message))
                && message@
                == "`paths` doesn't contain a single path with lenght of 2 points or more."@),
            drawable(paths@).len() > 0 ==> (res matches Ok(made) && made.paths@ == drawable(
                paths@,
            ) && made.wf()),
    {
        let ghost all = paths@;
        let mut kept: Vec<Path> = Vec::new();
        for path in it: paths
            invariant
                it.seq() == all,
                kept@ == drawable(all.take(it.index() as int)),
                forall|i: int| 0 <= i < kept.len() ==> (#[trigger] kept[i]).len() > 1,
        {
            proof {
                lemma_drawable_step(all, it.index() as int);
            }
            if path.len() > 1 {
                kept.push(path);
            }
        }
        assert(all.take(all.len() as int) == all);
        if kept.is_empty() {
            return Err(
                Error::InvalidPathError(
                    String::from_str(
                        "`paths` doesn't contain a single path with lenght of 2 points or more.",
                    ),
                ),
            );
        }
        Ok(Self { paths: kept })
    }
}

/// Every point of `paths` lies within `b`, given as `(min_x, min_y, max_x, max_y)`.
pub open spec fn bounds_cover(paths: Seq<Path>, b: (i32, i32, i32, i32)) -> bool {
    forall|i: int, j: int|
        0 <= i < paths.len() && 0 <= j < paths[i].len() ==> {
            &&& b.0 <= (#[trigger] paths[i][j]).x <= b.2
            &&& b.1 <= paths[i][j].y <= b.3
        }
}

/// Some point of `paths` has the horizontal position `x`.
pub open spec fn x_occurs(paths: Seq<Path>, x: i32) -> bool {
    exists|i: int, j: int|
        0 <= i < paths.len() && 0 <= j < paths[i].len() && (#[trigger] paths[i][j]).x == x
}

/// Some point of `paths` has the vertical position `y`.
pub open spec fn y_occurs(paths: Seq<Path>, y: i32) -> bool {
    exists|i: int, j: int|
        0 <= i < paths.len() && 0 <= j < paths[i].len() && (#[trigger] paths[i][j]).y == y
}

/// `b` is the smallest box that holds every point of `paths`.
pub open spec fn is_bounding_box(paths: Seq<Path>, b: (i32, i32, i32, i32)) -> bool {
    &&& bounds_cover(paths, b)
    &&& x_occurs(paths, b.0)
    &&& y_occurs(paths, b.1)
    &&& x_occurs(paths, b.2)
    &&& y_occurs(paths, b.3)
}

/// There is at least one point in `paths`.
pub open spec fn has_point(paths: Seq<Path>) -> bool {
    exists|i: int| 0 <= i < paths.len() && (#[trigger] paths[i]).len() > 0
}

/// A series of paths has one bounding box only.
pub proof fn lemma_bounding_box_unique(
    paths: Seq<Path>,
    a: (i32, i32, i32, i32),
    b: (i32, i32, i32, i32),
)
    requires
        is_bounding_box(paths, a),
        is_bounding_box(paths, b),
    ensures
        a == b,
{
    lemma_within(paths, a, b);
    lemma_within(paths, b, a);
}

/// A bounding box lies within every box that covers the points.
proof fn lemma_within(paths: Seq<Path>, a: (i32, i32, i32, i32), b: (i32, i32, i32, i32))
    requires
        is_bounding_box(paths, a),
        bounds_cover(paths, b),
    ensures
        b.0 <= a.0,
        b.1 <= a.1,
        a.2 <= b.2,
        a.3 <= b.3,
{
    let (i, j) = choose|i: int, j: int|
        0 <= i < paths.len() && 0 <= j < paths[i].len() && (#[trigger] paths[i][j]).x == a.0;
    assert(b.0 <= paths[i][j].x);
    let (i, j) = choose|i: int, j: int|
        0 <= i < paths.len() && 0 <= j < paths[i].len() && (#[trigger] paths[i][j]).y == a.1;
    assert(b.1 <= paths[i][j].y);
    let (i, j) = choose|i: int, j: int|
        0 <= i < paths.len() && 0 <= j < paths[i].len() && (#[trigger] paths[i][j]).x == a.2;
    assert(paths[i][j].x <= b.2);
    let (i, j) = choose|i: int, j: int|
        0 <= i < paths.len() && 0 <= j < paths[i].len() && (#[trigger] paths[i][j]).y == a.3;
    assert(paths[i][j].y <= b.3);
}

/// Tells whether there is at least one point in `paths`.
pub fn holds_point(paths: &Paths) -> (found: bool)
    ensures
        found == has_point(paths.paths@),
{
    let mut i: usize = 0;
    while i < paths.paths.len()
        invariant
            i <= paths.paths.len(),
            forall|k: int| 0 <= k < i ==> (#[trigger] paths.paths[k]).len() == 0,
        decreases paths.paths.len() - i,
    {
        if paths.paths[i].len() > 0 {
            return true;
        }
        i += 1;
    }
    false
}

/// Get the boundaries of a series of paths, as `(min_x, min_y, max_x, max_y)`.
pub fn get_boundaries(paths: &Paths) -> (b: (i32, i32, i32, i32))
    requires
        has_point(paths.paths@),
    ensures
        is_bounding_box(paths.paths@, b),
{
    let ghost all = paths.paths@;
    let mut found: Option<(i32, i32, i32, i32)> = None;
    let ghost mut at_min_x: (int, int) = (0, 0);
    let ghost mut at_min_y: (int, int) = (0, 0);
    let ghost mut at_max_x: (int, int) = (0, 0);
    let ghost mut at_max_y: (int, int) = (0, 0);
    let mut i: usize = 0;
    while i < paths.paths.len()
        invariant
            all == paths.paths@,
            i <= all.len(),
            found is None ==> forall|k: int| 0 <= k < i ==> (#[trigger] all[k]).len() == 0,
            found matches Some(b) ==> {
                &&& bounds_cover(all.take(i as int), b)
                &&& 0 <= at_min_x.0 < i && 0 <= at_min_x.1 < all[at_min_x.0].len()
                &&& all[at_min_x.0][at_min_x.1].x == b.0
                &&& 0 <= at_min_y.0 < i && 0 <= at_min_y.1 < all[at_min_y.0].len()
                &&& all[at_min_y.0][at_min_y.1].y == b.1
                &&& 0 <= at_max_x.0 < i && 0 <= at_max_x.1 < all[at_max_x.0].len()
                &&& all[at_max_x.0][at_max_x.1].x == b.2
                &&& 0 <= at_max_y.0 < i && 0 <= at_max_y.1 < all[at_max_y.0].len()
                &&& all[at_max_y.0][at_max_y.1].y == b.3
            },
        decreases all.len() - i,
    {
        let path = &paths.paths[i];
        let mut j: usize = 0;
        while j < path.len()
            invariant
                all == paths.paths@,
                i < all.len(),
                path == all[i as int],
                j <= path.len(),
                found is None ==> j == 0 && forall|k: int|
                    0 <= k < i ==> (#[trigger] all[k]).len() == 0,
                found matches Some(b) ==> {
                    &&& bounds_cover(all.take(i as int), b)
                    &&& forall|k: int|
                        0 <= k < j ==> {
                            &&& b.0 <= (#[trigger] path[k]).x <= b.2
                            &&& b.1 <= path[k].y <= b.3
                        }
                    &&& 0 <= at_min_x.0 <= i && 0 <= at_min_x.1 < all[at_min_x.0].len()
                    &&& all[at_min_x.0][at_min_x.1].x == b.0
                    &&& 0 <= at_min_y.0 <= i && 0 <= at_min_y.1 < all[at_min_y.0].len()
                    &&& all[at_min_y.0][at_min_y.1].y == b.1
                    &&& 0 <= at_max_x.0 <= i && 0 <= at_max_x.1 < all[at_max_x.0].len()
                    &&& all[at_max_x.0][at_max_x.1].x == b.2
                    &&& 0 <= at_max_y.0 <= i && 0 <= at_max_y.1 < all[at_max_y.0].len()
                    &&& all[at_max_y.0][at_max_y.1].y == b.3
                },
            decreases path.len() - j,
        {
            let x: i32 = path[j].x;
            let y: i32 = path[j].y;
            let here = Ghost((i as int, j as int));
            let (mut min_x, mut min_y, mut max_x, mut max_y) = match found {
                Some(b) => b,
                None => {
                    proof {
                        at_min_x = here@;
                        at_min_y = here@;
                        at_max_x = here@;
                        at_max_y = here@;
                    }
                    (x, y, x, y)
                },
            };
            if x < min_x {
                min_x = x;
                proof {
                    at_min_x = here@;
                }
            }
            if x > max_x {
                max_x = x;
                proof {
                    at_max_x = here@;
                }
            }
            if y < min_y {
                min_y = y;
                proof {
                    at_min_y = here@;
                }
            }
            if y > max_y {
                max_y = y;
                proof {
                    at_max_y = here@;
                }
            }
            found = Some((min_x, min_y, max_x, max_y));
            j += 1;
        }
        i += 1;
    }
    match found {
        Some(b) => {
            assert(all.take(all.len() as int) == all);
            b
        },
        None => {
            proof {
                assert(false);
            }
            (0, 0, 0, 0)
        },
    }
}

} // verus!
