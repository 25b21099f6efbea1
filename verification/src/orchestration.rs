//! The commands that draw a plot on the stepper device, stroke by stroke.

use crate::command::{encodable, move_of, moves_fit, moves_of, stroke_moves, views, Command, CommandView};
use crate::error::Error;
use crate::path::Path;
use crate::plot::Plot;
use crate::point::{Absolute, Coordinate};
use crate::stroke::{
    all_drawable, deltas_of, first_short_at, steps_fit, too_short_message, Stroke, Strokes,
};
use vstd::prelude::*;
use vstd::string::StringExecFns;

verus! {

/// The signal sent before travelling: `SP,0`.
pub open spec fn pen_signal_0() -> CommandView {
    CommandView::Any("SP,0"@)
}

/// The signal sent before drawing: `SP,1`.
pub open spec fn pen_signal_1() -> CommandView {
    CommandView::Any("SP,1"@)
}

/// The commands for the trajectory from `start` along `deltas` to `end`: the first signal, the
/// travel from home to the start, the second signal, one move for each displacement, the
/// first signal again, the travel back home, and the second signal.
pub open spec fn trajectory_script(
    start: (int, int),
    deltas: Seq<(int, int)>,
    end: (int, int),
) -> Seq<CommandView> {
    seq![pen_signal_0(), move_of(start.0, start.1), pen_signal_1()] + moves_of(deltas)
        + seq![pen_signal_0(), move_of(-end.0, -end.1), pen_signal_1()]
}

/// The commands for one stroke.
pub open spec fn stroke_script(stroke: Stroke) -> Seq<CommandView> {
    trajectory_script(stroke.start@, stroke.deltas(), stroke.end@)
}

/// The commands for one path of two points or more.
pub open spec fn path_script(points: Seq<Coordinate<Absolute>>) -> Seq<CommandView> {
    trajectory_script(points.first()@, deltas_of(points), points.last()@)
}

/// The commands for `paths`: those of each path, in the order of the paths.
pub open spec fn plot_script(paths: Seq<Path>) -> Seq<CommandView>
    decreases paths.len(),
{
    if paths.len() == 0 {
        Seq::empty()
    } else {
        plot_script(paths.drop_last()) + path_script(paths.last()@)
    }
}

/// Every move of the stroke fits the device's step type: the travel to its start, its
/// displacements, and the travel home from its end.
pub open spec fn stroke_fits(stroke: Stroke) -> bool {
    &&& encodable(stroke.start.x as int, stroke.start.y as int)
    &&& moves_fit(stroke.deltas())
    &&& encodable(-stroke.end.x, -stroke.end.y)
}

/// Every move that the path asks for fits the device's step type.
pub open spec fn path_fits(points: Seq<Coordinate<Absolute>>) -> bool {
    &&& steps_fit(points)
    &&& moves_fit(deltas_of(points))
    &&& points.len() > 0 ==> encodable(points.first().x as int, points.first().y as int)
        && encodable(-points.last().x, -points.last().y)
}

/// Every path of `paths` fits the device.
pub open spec fn plot_fits(paths: Seq<Path>) -> bool {
    forall|i: int| 0 <= i < paths.len() ==> path_fits((#[trigger] paths[i])@)
}

/// The commands that draw one stroke, in the order in which they are sent.
pub fn stroke_commands(stroke: &Stroke) -> (commands: Vec<Command>)
    requires
        stroke_fits(*stroke),
    ensures
        views(commands@) == stroke_script(*stroke),
{
    let mut commands: Vec<Command> = Vec::new();
    commands.push(Command::Any(String::from_str("SP,0")));
    commands.push(Command::from(&stroke.start.from_origin()));
    commands.push(Command::Any(String::from_str("SP,1")));
    let mut moves = stroke_moves(stroke);
    let ghost drawn = moves@;
    commands.append(&mut moves);
    commands.push(Command::Any(String::from_str("SP,0")));
    commands.push(Command::move_by(-(stroke.end.x as i64), -(stroke.end.y as i64)));
    commands.push(Command::Any(String::from_str("SP,1")));
    proof {
        assert(views(drawn) == moves_of(stroke.deltas()));
        assert(views(commands@) =~= stroke_script(*stroke)) by {
            assert forall|i: int| 0 <= i < commands.len() implies views(commands@)[i]
                == stroke_script(*stroke)[i] by {
                if 3 <= i < 3 + drawn.len() {
                    assert(commands[i] == drawn[i - 3]);
                    assert(views(drawn)[i - 3] == drawn[i - 3]@);
                }
            }
        }
    }
    commands
}

/// A stroke along a path that fits the device fits it too, and asks for the same commands.
pub proof fn lemma_stroke_of_path(stroke: Stroke, points: Seq<Coordinate<Absolute>>)
    requires
        stroke.follows(points),
    ensures
        stroke_script(stroke) == path_script(points),
        path_fits(points) ==> stroke_fits(stroke),
{
}

/// The commands that draw `plot`, in the order in which they are sent: those of each
/// stroke, in the order of the paths. A path that is too short fails the whole plot,
/// before anything is sent.
pub fn plot_commands(plot: &Plot) -> (res: Result<Vec<Command>, Error>)
    requires
        plot_fits(plot@.paths@),
    ensures
        res is Ok <==> all_drawable(plot@.paths@),
        res matches Ok(commands) ==> views(commands@) == plot_script(plot@.paths@),
        res matches Err(error) ==> (error matches Error::ConversionError(message)
            && exists|k: int| #[trigger]
                first_short_at(plot@.paths@, k) && message@ == too_short_message(
                    plot@.paths[k].len() as nat,
                )),
{
    let paths = plot.paths();
    let strokes = match Strokes::try_from(paths) {
        Ok(strokes) => strokes,
        Err(error) => {
            return Err(error);
        },
    };
    let ghost all = paths.paths@;
    let mut commands: Vec<Command> = Vec::new();
    let mut i: usize = 0;
    while i < strokes.0.len()
        invariant
            i <= strokes.0.len(),
            all == paths.paths@,
            plot_fits(all),
            strokes.follow(all),
            views(commands@) == plot_script(all.take(i as int)),
        decreases strokes.0.len() - i,
    {
        proof {
            lemma_stroke_of_path(strokes.0[i as int], all[i as int]@);
            assert(all.take(i + 1).drop_last() == all.take(i as int));
        }
        let ghost before = commands@;
        let mut next = stroke_commands(&strokes.0[i]);
        let ghost added = next@;
        commands.append(&mut next);
        assert(views(commands@) =~= views(before) + views(added));
        i += 1;
    }
    assert(all.take(i as int) == all);
    Ok(commands)
}

/// Tells whether both axis amounts of `(dx, dy)` fit the device's step type.
pub fn is_encodable(dx: i64, dy: i64) -> (fits: bool)
    ensures
        fits == encodable(dx as int, dy as int),
{
    if dx < -0x8000_0000 || dx > 0x8000_0000 || dy < -0x8000_0000 || dy > 0x8000_0000 {
        return false;
    }
    let first: i64 = dx - dy;
    let second: i64 = -dx - dy;
    -0x8000_0000 <= first && first <= 0x7fff_ffff && -0x8000_0000 <= second && second
        <= 0x7fff_ffff
}

/// Tells whether every move that `path` asks for fits the device's step type.
pub fn path_fits_device(path: &Path) -> (fits: bool)
    ensures
        fits == path_fits(path@),
{
    if path.len() == 0 {
        return true;
    }
    let first = path[0];
    let last = path[path.len() - 1];
    if !is_encodable(first.x as i64, first.y as i64) || !is_encodable(
        -(last.x as i64),
        -(last.y as i64),
    ) {
        return false;
    }
    let mut i: usize = 1;
    while i < path.len()
        invariant
            1 <= i <= path.len(),
            steps_fit(path@.take(i as int)),
            moves_fit(deltas_of(path@.take(i as int))),
        decreases path.len() - i,
    {
        let dx: i64 = path[i].x as i64 - path[i - 1].x as i64;
        let dy: i64 = path[i].y as i64 - path[i - 1].y as i64;
        let representable = -0x8000_0000 <= dx && dx <= 0x7fff_ffff && -0x8000_0000 <= dy && dy
            <= 0x7fff_ffff;
        if !representable || !is_encodable(dx, dy) {
            proof {
                let k = i - 1;
                assert(path@[k + 1] == path[i as int]);
                if steps_fit(path@) && moves_fit(deltas_of(path@)) {
                    assert(encodable(deltas_of(path@)[k].0, deltas_of(path@)[k].1));
                }
            }
            return false;
        }
        proof {
            let shorter = path@.take(i as int);
            let longer = path@.take(i + 1);
            assert forall|k: int| 0 <= k < longer.len() - 1 implies {
                &&& i32::MIN <= (#[trigger] longer[k + 1]).x - longer[k].x <= i32::MAX
                &&& i32::MIN <= longer[k + 1].y - longer[k].y <= i32::MAX
            } by {
                if k < i - 1 {
                    assert(shorter[k + 1] == longer[k + 1]);
                }
            }
            assert forall|k: int| 0 <= k < deltas_of(longer).len() implies encodable(
                (#[trigger] deltas_of(longer)[k]).0,
                deltas_of(longer)[k].1,
            ) by {
                if k < i - 1 {
                    assert(deltas_of(shorter)[k] == deltas_of(longer)[k]);
                }
            }
        }
        i += 1;
    }
    assert(path@.take(i as int) == path@);
    true
}

/// Tells whether every move that `plot` asks for fits the device's step type.
pub fn plot_fits_device(plot: &Plot) -> (fits: bool)
    ensures
        fits == plot_fits(plot@.paths@),
{
    let paths = plot.paths();
    let mut i: usize = 0;
    while i < paths.paths.len()
        invariant
            i <= paths.paths.len(),
            *paths == plot@,
            plot_fits(paths.paths@.take(i as int)),
        decreases paths.paths.len() - i,
    {
        if !path_fits_device(&paths.paths[i]) {
            return false;
        }
        assert forall|k: int| 0 <= k < i + 1 implies path_fits(
            (#[trigger] paths.paths@.take(i + 1)[k])@,
        ) by {
            if k < i {
                assert(paths.paths@.take(i as int)[k] == paths.paths@.take(i + 1)[k]);
            }
        }
        i += 1;
    }
    assert(paths.paths@.take(i as int) == paths.paths@);
    true
}

} // verus!
