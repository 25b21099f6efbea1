//! The vector plotter family: its command language, and the program that draws a plot.
//!
//! Every command is written as its two-letter mnemonic, its numeric arguments with a comma
//! before each, and a closing `;`.

use crate::error::Error;
use crate::path::{has_point, is_bounding_box, Path};
use crate::plot::Plot;
use crate::point::{Absolute, Coordinate, Relative};
use crate::stroke::{
    all_drawable, first_short_at, steps_fit, too_short_message, Stroke, Strokes,
};
use crate::text::{push_signed, push_unsigned, signed_text, unsigned_text};
use vstd::prelude::*;
use vstd::string::{StrSliceExecFns, StringExecFns};
use vstd::utf8::encode_utf8;

verus! {

/// A command of the plotter's language.
#[derive(Debug, PartialEq)]
pub enum Command {
    /// Scale: user units for the plot area, as `x_min, x_max, y_min, y_max`.
    SC(i32, i32, i32, i32),
    /// Draw the edge of a rectangle up to the given corner.
    EA(usize, usize),
    /// Plotter is changed into initial state.
    IN,
    /// Input window: the plot area's corners in device units.
    IP(usize, usize, usize, usize),
    /// Plot absolute.
    PA(Option<Coordinate<Absolute>>),
    /// Lower the pen and move to given absolute coordinate.
    PD(Option<Coordinate<Absolute>>),
    /// Plot relative.
    PR(Option<Coordinate<Relative>>),
    /// Raise the pen and move to given absolute coordinate.
    PU(Option<Coordinate<Absolute>>),
    /// Select the pen from the given slot.
    SP(u8),
}

/// The text of a command: the mnemonic, each argument after a comma, and `;`.
pub open spec fn command_text(mnemonic: Seq<char>, arguments: Seq<int>) -> Seq<char> {
    mnemonic + arguments_text(arguments) + ";"@
}

/// Each argument in decimal, after a comma.
pub open spec fn arguments_text(arguments: Seq<int>) -> Seq<char>
    decreases arguments.len(),
{
    if arguments.len() == 0 {
        Seq::empty()
    } else {
        arguments_text(arguments.drop_last()) + ","@ + signed_text(arguments.last())
    }
}

/// The arguments of a move: none, or the two of a coordinate.
pub open spec fn point_arguments<T>(point: Option<Coordinate<T>>) -> Seq<int> {
    match point {
        Some(c) => seq![c.x as int, c.y as int],
        None => Seq::empty(),
    }
}

impl Command {
    /// The command's two letters.
    pub open spec fn mnemonic(&self) -> Seq<char> {
        match *self {
            Command::SC(..) => "SC"@,
            Command::EA(..) => "EA"@,
            Command::IN => "IN"@,
            Command::IP(..) => "IP"@,
            Command::PA(_) => "PA"@,
            Command::PD(_) => "PD"@,
            Command::PR(_) => "PR"@,
            Command::PU(_) => "PU"@,
            Command::SP(_) => "SP"@,
        }
    }

    /// The command's numeric arguments, in the order in which they are written.
    pub open spec fn arguments(&self) -> Seq<int> {
        match *self {
            Command::SC(x_min, x_max, y_min, y_max) => seq![
                x_min as int,
                x_max as int,
                y_min as int,
                y_max as int,
            ],
            Command::EA(x, y) => seq![x as int, y as int],
            Command::IN => Seq::empty(),
            Command::IP(x_min, y_min, x_max, y_max) => seq![
                x_min as int,
                y_min as int,
                x_max as int,
                y_max as int,
            ],
            Command::PA(point) => point_arguments(point),
            Command::PD(point) => point_arguments(point),
            Command::PR(point) => point_arguments(point),
            Command::PU(point) => point_arguments(point),
            Command::SP(slot) => seq![slot as int],
        }
    }

    /// The text that the plotter reads for this command.
    pub open spec fn text(&self) -> Seq<char> {
        command_text(self.mnemonic(), self.arguments())
    }
}

/// The arguments' text, written out for up to four of them.
pub proof fn lemma_arguments_text(arguments: Seq<int>)
    ensures
        arguments.len() == 0 ==> arguments_text(arguments) == Seq::<char>::empty(),
        arguments.len() == 1 ==> arguments_text(arguments) == ","@ + signed_text(arguments[0]),
        arguments.len() == 2 ==> arguments_text(arguments) == ","@ + signed_text(arguments[0])
            + ","@ + signed_text(arguments[1]),
        arguments.len() == 4 ==> arguments_text(arguments) == ","@ + signed_text(arguments[0])
            + ","@ + signed_text(arguments[1]) + ","@ + signed_text(arguments[2]) + ","@
            + signed_text(arguments[3]),
{
    reveal_with_fuel(arguments_text, 5);
    if arguments.len() == 1 {
        assert(arguments_text(arguments) =~= ","@ + signed_text(arguments[0]));
    } else if arguments.len() == 2 {
        assert(arguments.drop_last().drop_last().len() == 0);
        assert(arguments_text(arguments) =~= ","@ + signed_text(arguments[0]) + ","@
            + signed_text(arguments[1]));
    } else if arguments.len() == 4 {
        let three = arguments.drop_last();
        let two = three.drop_last();
        let one = two.drop_last();
        assert(one.drop_last().len() == 0);
        assert(arguments_text(one) =~= ","@ + signed_text(arguments[0]));
        assert(arguments_text(arguments) =~= ","@ + signed_text(arguments[0]) + ","@
            + signed_text(arguments[1]) + ","@ + signed_text(arguments[2]) + ","@ + signed_text(
            arguments[3],
        ));
    }
}

/// Appends a comma and the decimal text of `value` to `out`.
fn push_argument(out: &mut String, value: i64)
    ensures
        final(out)@ == old(out)@ + ","@ + signed_text(value as int),
{
    out.append(",");
    push_signed(out, value);
}

/// Appends a comma and the decimal text of `value` to `out`.
fn push_size(out: &mut String, value: usize)
    ensures
        final(out)@ == old(out)@ + ","@ + signed_text(value as int),
{
    out.append(",");
    push_unsigned(out, value as u64);
}

/// The text of a move with the mnemonic `mnemonic`.
fn move_text<T>(mnemonic: &str, point: &Option<Coordinate<T>>) -> (out: String)
    ensures
        out@ == command_text(mnemonic@, point_arguments(*point)),
{
    let mut out = String::from_str(mnemonic);
    proof {
        lemma_arguments_text(point_arguments(*point));
    }
    if let Some(c) = point {
        push_argument(&mut out, c.x as i64);
        push_argument(&mut out, c.y as i64);
    }
    out.append(";");
    out
}

impl Command {
    /// The command's text.
    pub fn to_string(&self) -> (out: String)
        ensures
            out@ == self.text(),
    {
        proof {
            lemma_arguments_text(self.arguments());
        }
        match self {
            Command::SC(x_min, x_max, y_min, y_max) => {
                let mut out = String::from_str("SC");
                push_argument(&mut out, *x_min as i64);
                push_argument(&mut out, *x_max as i64);
                push_argument(&mut out, *y_min as i64);
                push_argument(&mut out, *y_max as i64);
                out.append(";");
                out
            },
            Command::EA(x, y) => {
                let mut out = String::from_str("EA");
                push_size(&mut out, *x);
                push_size(&mut out, *y);
                out.append(";");
                out
            },
            Command::IN => {
                let mut out = String::from_str("IN");
                out.append(";");
                out
            },
            Command::IP(x_min, y_min, x_max, y_max) => {
                let mut out = String::from_str("IP");
                push_size(&mut out, *x_min);
                push_size(&mut out, *y_min);
                push_size(&mut out, *x_max);
                push_size(&mut out, *y_max);
                out.append(";");
                out
            },
            Command::PA(point) => move_text("PA", point),
            Command::PD(point) => move_text("PD", point),
            Command::PR(point) => move_text("PR", point),
            Command::PU(point) => move_text("PU", point),
            Command::SP(slot) => {
                let mut out = String::from_str("SP");
                push_argument(&mut out, *slot as i64);
                out.append(";");
                out
            },
        }
    }
}

/// The commands that draw one trajectory: raise the pen, go to the start, lower the pen, and
/// one relative move for each displacement.
pub open spec fn trajectory_program(
    start: Coordinate<Absolute>,
    steps: Seq<Coordinate<Relative>>,
) -> Seq<Command> {
    seq![Command::PU(None), Command::PA(Some(start)), Command::PD(None)] + Seq::new(
        steps.len(),
        |i: int| Command::PR(Some(steps[i])),
    )
}

/// The commands that draw one stroke.
pub open spec fn stroke_program(stroke: Stroke) -> Seq<Command> {
    trajectory_program(stroke.start, stroke.path@)
}

/// The commands that draw `strokes`, one stroke after the other.
pub open spec fn strokes_program(strokes: Seq<Stroke>) -> Seq<Command>
    decreases strokes.len(),
{
    if strokes.len() == 0 {
        Seq::empty()
    } else {
        strokes_program(strokes.drop_last()) + stroke_program(strokes.last())
    }
}

/// The whole drawing: select the pen of slot 1, draw the strokes, then raise the pen, go to
/// the origin and put the pen back.
pub open spec fn program(strokes: Seq<Stroke>) -> Seq<Command> {
    seq![Command::SP(1)] + strokes_program(strokes) + seq![
        Command::PU(Some(Coordinate::at(0, 0))),
        Command::SP(0),
    ]
}

/// The texts of `commands`, one after the other.
pub open spec fn program_text(commands: Seq<Command>) -> Seq<char>
    decreases commands.len(),
{
    if commands.len() == 0 {
        Seq::empty()
    } else {
        program_text(commands.drop_last()) + commands.last().text()
    }
}

/// Appends the commands that draw `stroke` to `commands`.
fn push_stroke(commands: &mut Vec<Command>, stroke: &Stroke)
    ensures
        final(commands)@ == old(commands)@ + stroke_program(*stroke),
{
    let ghost before = commands@;
    commands.push(Command::PU(None));
    commands.push(Command::PA(Some(stroke.start)));
    commands.push(Command::PD(None));
    let mut i: usize = 0;
    while i < stroke.path.len()
        invariant
            i <= stroke.path.len(),
            commands.len() == before.len() + 3 + i,
            commands@.take(before.len() as int) == before,
            forall|k: int| 0 <= k < 3 ==> commands[before.len() + k] == stroke_program(*stroke)[k],
            forall|k: int|
                0 <= k < i ==> commands[before.len() + 3 + k] == Command::PR(
                    Some(stroke.path[k]),
                ),
        decreases stroke.path.len() - i,
    {
        let ghost so_far = commands@;
        commands.push(Command::PR(Some(stroke.path[i])));
        assert(commands@.take(before.len() as int) =~= so_far.take(before.len() as int));
        i += 1;
    }
    assert(commands@ =~= before + stroke_program(*stroke)) by {
        assert(commands@.take(before.len() as int) == before);
        assert forall|k: int| 0 <= k < commands.len() implies commands[k] == (before
            + stroke_program(*stroke))[k] by {
            if k < before.len() {
                assert(commands@.take(before.len() as int)[k] == commands[k]);
            } else if k < before.len() + 3 {
                assert(commands[before.len() + (k - before.len())] == stroke_program(*stroke)[k
                    - before.len()]);
            } else {
                assert(commands[before.len() + 3 + (k - before.len() - 3)] == Command::PR(
                    Some(stroke.path[k - before.len() - 3]),
                ));
            }
        }
    }
}

/// The commands that draw `strokes`, in the order in which the plotter reads them.
pub fn program_commands(strokes: &Strokes) -> (commands: Vec<Command>)
    ensures
        commands@ == program(strokes.0@),
{
    let mut commands: Vec<Command> = Vec::new();
    commands.push(Command::SP(1));
    let mut i: usize = 0;
    while i < strokes.0.len()
        invariant
            i <= strokes.0.len(),
            commands@ == seq![Command::SP(1)] + strokes_program(strokes.0@.take(i as int)),
        decreases strokes.0.len() - i,
    {
        assert(strokes.0@.take(i + 1).drop_last() == strokes.0@.take(i as int));
        push_stroke(&mut commands, &strokes.0[i]);
        assert(commands@ =~= seq![Command::SP(1)] + strokes_program(strokes.0@.take(i + 1)));
        i += 1;
    }
    assert(strokes.0@.take(i as int) == strokes.0@);
    commands.push(Command::PU(Some(Coordinate::new(0, 0))));
    commands.push(Command::SP(0));
    assert(commands@ =~= program(strokes.0@));
    commands
}

/// The text of `commands`, as the plotter reads it.
pub fn write_program(commands: &Vec<Command>) -> (out: String)
    ensures
        out@ == program_text(commands@),
{
    let mut out = String::new();
    let mut i: usize = 0;
    while i < commands.len()
        invariant
            i <= commands.len(),
            out@ == program_text(commands@.take(i as int)),
        decreases commands.len() - i,
    {
        assert(commands@.take(i + 1).drop_last() == commands@.take(i as int));
        let text = commands[i].to_string();
        out.append(text.as_str());
        i += 1;
    }
    assert(commands@.take(i as int) == commands@);
    out
}

/// The bytes that draw `strokes` on the plotter.
pub fn to_hp_gl(strokes: &Strokes) -> (bytes: Vec<u8>)
    ensures
        bytes@ == encode_utf8(program_text(program(strokes.0@))),
{
    let commands = program_commands(strokes);
    let text = write_program(&commands);
    text.as_str().as_bytes_vec()
}

/// Width of the plotter's working area, in device units.
pub const AREA_WIDTH: usize = 10_000;

/// Height of the plotter's working area, in device units.
pub const AREA_HEIGHT: usize = 7_000;

/// The working area is smaller, relative to the drawing, along x than along y: the ratio of
/// `AREA_WIDTH` to `length` is less than that of `AREA_HEIGHT` to `height`.
pub open spec fn x_binds(length: int, height: int) -> bool {
    AREA_WIDTH * height < AREA_HEIGHT * length
}

/// An extent enlarged by the working area's aspect ratio, rounded down.
pub open spec fn stretched(extent: int) -> int {
    extent * AREA_WIDTH / (AREA_HEIGHT as int)
}

/// `v` as a scale argument, which holds no more than the largest `i32`.
pub open spec fn clamped(v: int) -> i32 {
    if v > i32::MAX {
        i32::MAX
    } else {
        v as i32
    }
}

/// The scale command for a drawing `length` wide and `height` high: the axis with the smaller
/// ratio keeps its extent, the other is stretched, so that the drawing keeps its aspect.
pub open spec fn scale_of(length: int, height: int) -> Command {
    if x_binds(length, height) {
        Command::SC(0, clamped(length), 0, clamped(stretched(height)))
    } else {
        Command::SC(0, clamped(stretched(length)), 0, clamped(height))
    }
}

/// What is sent once before a drawing `length` wide and `height` high: initialise, set the
/// working area, set the scale.
pub open spec fn preamble_of(length: int, height: int) -> Seq<Command> {
    seq![Command::IN, Command::IP(0, 0, AREA_WIDTH, AREA_HEIGHT), scale_of(length, height)]
}

/// `v`, or the largest `i32` if `v` is larger.
fn clamp(v: i64) -> (c: i32)
    requires
        0 <= v,
    ensures
        c == clamped(v as int),
{
    if v > 0x7fff_ffff {
        0x7fff_ffff
    } else {
        v as i32
    }
}

/// The scale command for a drawing `length` wide and `height` high.
pub fn scale_command(length: i64, height: i64) -> (command: Command)
    requires
        0 <= length <= u32::MAX,
        0 <= height <= u32::MAX,
    ensures
        command == scale_of(length as int, height as int),
{
    if 10_000 * height < 7_000 * length {
        Command::SC(0, clamp(length), 0, clamp(height * 10_000 / 7_000))
    } else {
        Command::SC(0, clamp(length * 10_000 / 7_000), 0, clamp(height))
    }
}

/// The commands sent once before a drawing `length` wide and `height` high.
pub fn preamble(length: i64, height: i64) -> (commands: Vec<Command>)
    requires
        0 <= length <= u32::MAX,
        0 <= height <= u32::MAX,
    ensures
        commands@ == preamble_of(length as int, height as int),
{
    let mut commands: Vec<Command> = Vec::new();
    commands.push(Command::IN);
    commands.push(Command::IP(0, 0, AREA_WIDTH, AREA_HEIGHT));
    commands.push(scale_command(length, height));
    assert(commands@ =~= preamble_of(length as int, height as int));
    commands
}

/// The displacement from each point of `points` to the next, in the relative frame.
pub open spec fn steps_of(points: Seq<Coordinate<Absolute>>) -> Seq<Coordinate<Relative>> {
    Seq::new(
        if points.len() > 0 {
            (points.len() - 1) as nat
        } else {
            0
        },
        |i: int|
            Coordinate::at(
                (points[i + 1].x - points[i].x) as i32,
                (points[i + 1].y - points[i].y) as i32,
            ),
    )
}

/// The commands that draw `paths`, one path after the other.
pub open spec fn paths_program(paths: Seq<Path>) -> Seq<Command>
    decreases paths.len(),
{
    if paths.len() == 0 {
        Seq::empty()
    } else {
        paths_program(paths.drop_last()) + trajectory_program(
            paths.last()@.first(),
            steps_of(paths.last()@),
        )
    }
}

/// Everything that the plotter reads for `paths`, whose bounding box is `length` wide and
/// `height` high: the preamble, the pen of slot 1, the paths, and the way home.
pub open spec fn plot_program(paths: Seq<Path>, length: int, height: int) -> Seq<Command> {
    preamble_of(length, height) + seq![Command::SP(1)] + paths_program(paths) + seq![
        Command::PU(Some(Coordinate::at(0, 0))),
        Command::SP(0),
    ]
}

/// The strokes along `paths` are drawn by the commands that draw `paths`.
pub proof fn lemma_strokes_program(strokes: Strokes, paths: Seq<Path>)
    requires
        strokes.follow(paths),
        forall|i: int| 0 <= i < paths.len() ==> steps_fit((#[trigger] paths[i])@),
    ensures
        strokes_program(strokes.0@) == paths_program(paths),
{
    lemma_strokes_program_upto(strokes, paths, paths.len() as int);
    assert(strokes.0@.take(paths.len() as int) == strokes.0@);
    assert(paths.take(paths.len() as int) == paths);
}

/// The first `n` strokes along `paths` are drawn by the commands that draw its first `n` paths.
proof fn lemma_strokes_program_upto(strokes: Strokes, paths: Seq<Path>, n: int)
    requires
        strokes.follow(paths),
        forall|i: int| 0 <= i < paths.len() ==> steps_fit((#[trigger] paths[i])@),
        0 <= n <= paths.len(),
    ensures
        strokes_program(strokes.0@.take(n)) == paths_program(paths.take(n)),
    decreases n,
{
    if n > 0 {
        lemma_strokes_program_upto(strokes, paths, n - 1);
        assert(strokes.0@.take(n).drop_last() == strokes.0@.take(n - 1));
        assert(paths.take(n).drop_last() == paths.take(n - 1));
        let stroke = strokes.0[n - 1];
        let points = paths[n - 1]@;
        assert(stroke.follows(points));
        assert(steps_fit(points));
        assert(stroke.path@ =~= steps_of(points)) by {
            assert forall|k: int| 0 <= k < stroke.path.len() implies stroke.path[k] == steps_of(
                points,
            )[k] by {
                assert(stroke.deltas()[k] == stroke.path[k]@);
                assert(points[k + 1].x - points[k].x == stroke.path[k].x);
            }
        }
    }
}

/// Everything that the plotter reads to draw `plot`, in order. A path that is too short
/// fails the whole plot, before anything is sent.
pub fn plot_commands(plot: &Plot) -> (res: Result<Vec<Command>, Error>)
    requires
        has_point(plot@.paths@),
        forall|i: int| 0 <= i < plot@.paths.len() ==> steps_fit((#[trigger] plot@.paths[i])@),
    ensures
        res is Ok <==> all_drawable(plot@.paths@),
        res matches Ok(commands) ==> forall|b: (i32, i32, i32, i32)|
            is_bounding_box(plot@.paths@, b) ==> commands@ == plot_program(
                plot@.paths@,
                b.2 - b.0,
                b.3 - b.1,
            ),
        res matches Err(error) ==> (error matches Error::ConversionError(message)
            && exists|k: int| #[trigger]
                first_short_at(plot@.paths@, k) && message@ == too_short_message(
                    plot@.paths[k].len() as nat,
                )),
{
    let strokes = match Strokes::try_from(plot.paths()) {
        Ok(strokes) => strokes,
        Err(error) => {
            return Err(error);
        },
    };
    let (length, height) = plot.dimensions();
    let mut commands = preamble(length, height);
    let mut drawing = program_commands(&strokes);
    proof {
        lemma_strokes_program(strokes, plot@.paths@);
    }
    commands.append(&mut drawing);
    assert(commands@ =~= plot_program(plot@.paths@, length as int, height as int));
    Ok(commands)
}

} // verus!
