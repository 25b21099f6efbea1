//! A plot: the unit of work handed to a device.

use crate::error::Error;
use crate::path::{
    drawable, get_boundaries, has_point, is_bounding_box, lemma_bounding_box_unique,
    lemma_drawable_step, Path, Paths,
};
use vstd::prelude::*;

verus! {

/// The paths of one drawing, owned for the plot's lifetime.
pub struct Plot {
    paths: Paths,
}

impl View for Plot {
    type V = Paths;

    closed spec fn view(&self) -> Paths {
        self.paths
    }
}

impl Plot {
    /// Create a new `Plot`.
    pub fn new(paths: Paths) -> (plot: Self)
        ensures
            plot@ == paths,
    {
        Plot { paths }
    }

    /// Create a new `Plot` using a single `Path`, which needs two points or more.
    pub fn from_path(path: Path) -> (res: Result<Self, Error>)
        ensures
            path.len() > 1 ==> (res matches Ok(plot) && plot@.paths@ == seq![path] && plot@.wf()),
            path.len() <= 1 ==> (res matches Err(Error::InvalidPathError(message)) && message@
                == "`paths` doesn't contain a single path with lenght of 2 points or more."@),
    {
        let mut single: Vec<Path> = Vec::new();
        single.push(path);
        proof {
            reveal(Seq::filter);
            assert(single@.take(0) =~= Seq::<Path>::empty());
            assert(single@.take(1) =~= single@);
            lemma_drawable_step(single@, 0);
            assert(single@ =~= seq![path]);
            assert(drawable(Seq::<Path>::empty()) =~= Seq::<Path>::empty());
        }
        match Paths::new(single) {
            Ok(paths) => Ok(Plot::new(paths)),
            Err(error) => Err(error),
        }
    }

    /// The width and the height of the smallest box that holds every point of the plot.
    pub fn dimensions(&self) -> (d: (i64, i64))
        requires
            has_point(self@.paths@),
        ensures
            exists|b: (i32, i32, i32, i32)| is_bounding_box(self@.paths@, b),
            forall|b: (i32, i32, i32, i32)|
                is_bounding_box(self@.paths@, b) ==> d.0 == b.2 - b.0 && d.1 == b.3 - b.1,
            0 <= d.0 <= u32::MAX,
            0 <= d.1 <= u32::MAX,
    {
        let (min_x, min_y, max_x, max_y) = get_boundaries(&self.paths);
        proof {
            let found = (min_x, min_y, max_x, max_y);
            assert forall|b: (i32, i32, i32, i32)| is_bounding_box(self@.paths@, b) implies b
                == found by {
                lemma_bounding_box_unique(self@.paths@, b, found);
            }
            let (i, j) = choose|i: int, j: int|
                0 <= i < self.paths.paths.len() && 0 <= j < self.paths.paths[i].len() && (
                #[trigger] self.paths.paths[i][j]).x == min_x;
            let p = self.paths.paths[i][j];
            assert(min_x <= p.x <= max_x && min_y <= p.y <= max_y);
        }
        (max_x as i64 - min_x as i64, max_y as i64 - min_y as i64)
    }

    /// The paths of this plot.
    pub fn paths(&self) -> (paths: &Paths)
        ensures
            *paths == self@,
    {
        &self.paths
    }
}

} // verus!
