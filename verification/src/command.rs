//! The stepper device's commands, their text, and the kinematic transform.

use crate::point::{Coordinate, Relative};
use crate::stroke::{Stroke, Strokes};
use crate::text::{push_signed, push_unsigned, signed_text, unsigned_text};
use vstd::prelude::*;
use vstd::string::StringExecFns;

verus! {

/// Duration, in device ticks, of every move derived from a displacement.
pub const MOVE_DURATION: u32 = 1000;

/// Command supported by the device.
#[derive(Debug, PartialEq)]
#[allow(inconsistent_fields)]
pub enum Command {
    /// Analog value get - Read all analog (ADC) input values.
    A,
    /// Analog Configure - Configure an analog input channel.
    AC { channel: u8, enable: bool },
    /// A command given by its text.
    Any(String),
    /// Enable Motors.
    EM { enable_1: u8, enable_2: u8 },
    /// Home Move.
    HM { step_frequency: u16, position_1: Option<u32>, position_2: Option<u32> },
    /// Query Current.
    QC,
    /// Query EBB nickname tag.
    QT,
    /// Query Step position.
    QS,
    /// Reset.
    R,
    /// Set EBB nickname tag - This command sets the EBB's "nickname".
    ST { name: String },
    /// Stepper Move.
    SM { duration: u32, axis_step_1: i32, axis_step_2: Option<i32> },
    /// Toggle Pen - This command toggles the state of the pen (up->down and down->up).
    TP { duration: Option<u16> },
    /// Version query.
    V,
}

/// What a [`Command`] holds, with each string as the sequence of its characters.
#[allow(inconsistent_fields)]
pub ghost enum CommandView {
    A,
    AC { channel: u8, enable: bool },
    Any(Seq<char>),
    EM { enable_1: u8, enable_2: u8 },
    HM { step_frequency: u16, position_1: Option<u32>, position_2: Option<u32> },
    QC,
    QT,
    QS,
    R,
    ST { name: Seq<char> },
    SM { duration: u32, axis_step_1: i32, axis_step_2: Option<i32> },
    TP { duration: Option<u16> },
    V,
}

impl View for Command {
    type V = CommandView;

    open spec fn view(&self) -> CommandView {
        match *self {
            Command::A => CommandView::A,
            Command::AC { channel, enable } => CommandView::AC { channel, enable },
            Command::Any(text) => CommandView::Any(text@),
            Command::EM { enable_1, enable_2 } => CommandView::EM { enable_1, enable_2 },
            Command::HM { step_frequency, position_1, position_2 } => CommandView::HM {
                step_frequency,
                position_1,
                position_2,
            },
            Command::QC => CommandView::QC,
            Command::QT => CommandView::QT,
            Command::QS => CommandView::QS,
            Command::R => CommandView::R,
            Command::ST { name } => CommandView::ST { name: name@ },
            Command::SM { duration, axis_step_1, axis_step_2 } => CommandView::SM {
                duration,
                axis_step_1,
                axis_step_2,
            },
            Command::TP { duration } => CommandView::TP { duration },
            Command::V => CommandView::V,
        }
    }
}

impl CommandView {
    /// The text that the device reads for this command, without its terminator:
    /// a mnemonic followed by comma-separated arguments.
    pub open spec fn text(self) -> Seq<char> {
        match self {
            CommandView::A => "A"@,
            CommandView::AC { channel, enable } => "AC,"@ + unsigned_text(channel as nat) + ","@
                + unsigned_text(if enable { 1nat } else { 0nat }),
            CommandView::Any(text) => text,
            CommandView::EM { enable_1, enable_2 } => "EM,"@ + unsigned_text(enable_1 as nat)
                + ","@ + unsigned_text(enable_2 as nat),
            CommandView::HM { step_frequency, .. } => "HM,"@ + unsigned_text(
                step_frequency as nat,
            ),
            CommandView::QC => "QC"@,
            CommandView::QT => "QT"@,
            CommandView::QS => "QS"@,
            CommandView::R => "R"@,
            CommandView::ST { name } => "ST,"@ + name,
            CommandView::SM { duration, axis_step_1, axis_step_2 } => {
                let head = "SM,"@ + unsigned_text(duration as nat) + ","@ + signed_text(
                    axis_step_1 as int,
                );
                match axis_step_2 {
                    Some(second) => head + ","@ + signed_text(second as int),
                    None => head,
                }
            },
            CommandView::TP { duration } => match duration {
                Some(ticks) => "TP,"@ + unsigned_text(ticks as nat),
                None => "TP"@,
            },
            CommandView::V => "V"@,
        }
    }
}

/// Steps of the first axis for the page displacement `(dx, dy)`.
pub open spec fn axis_1(dx: int, dy: int) -> int {
    dx + (-dy)
}

/// Steps of the second axis for the page displacement `(dx, dy)`.
pub open spec fn axis_2(dx: int, dy: int) -> int {
    (-dx) + (-dy)
}

/// Both axis amounts of `(dx, dy)` fit the device's step type.
pub open spec fn encodable(dx: int, dy: int) -> bool {
    &&& i32::MIN <= axis_1(dx, dy) <= i32::MAX
    &&& i32::MIN <= axis_2(dx, dy) <= i32::MAX
}

/// The horizontal displacement that the axis amounts `(a1, a2)` produce.
pub open spec fn decoded_x(a1: int, a2: int) -> int {
    (a1 - a2) / 2
}

/// The vertical displacement that the axis amounts `(a1, a2)` produce.
pub open spec fn decoded_y(a1: int, a2: int) -> int {
    -(a1 + a2) / 2
}

/// The move that draws the displacement `(dx, dy)`.
pub open spec fn move_of(dx: int, dy: int) -> CommandView {
    CommandView::SM {
        duration: MOVE_DURATION,
        axis_step_1: axis_1(dx, dy) as i32,
        axis_step_2: Some(axis_2(dx, dy) as i32),
    }
}

/// The kinematic transform loses nothing: the displacement is recovered exactly
/// from its two axis amounts, whatever the integers.
pub proof fn lemma_encoding_invertible(dx: int, dy: int)
    ensures
        decoded_x(axis_1(dx, dy), axis_2(dx, dy)) == dx,
        decoded_y(axis_1(dx, dy), axis_2(dx, dy)) == dy,
{
}

impl Command {
    /// The move command for the displacement `(dx, dy)`.
    pub fn move_by(dx: i64, dy: i64) -> (cmd: Command)
        requires
            encodable(dx as int, dy as int),
        ensures
            cmd@ == move_of(dx as int, dy as int),
            cmd matches Command::SM { axis_step_1, axis_step_2: Some(second), .. }
                && decoded_x(axis_step_1 as int, second as int) == dx
                && decoded_y(axis_step_1 as int, second as int) == dy,
    {
        let first: i64 = dx - dy;
        let second: i64 = -dx - dy;
        Command::SM {
            duration: MOVE_DURATION,
            axis_step_1: first as i32,
            axis_step_2: Some(second as i32),
        }
    }

    /// The move command for one relative displacement.
    pub fn from(value: &Coordinate<Relative>) -> (cmd: Command)
        requires
            encodable(value.x as int, value.y as int),
        ensures
            cmd@ == move_of(value.x as int, value.y as int),
            cmd matches Command::SM { axis_step_1, axis_step_2: Some(second), .. }
                && decoded_x(axis_step_1 as int, second as int) == value.x
                && decoded_y(axis_step_1 as int, second as int) == value.y,
    {
        Command::move_by(value.x as i64, value.y as i64)
    }

    /// The command's text, without its terminator.
    pub fn to_string(&self) -> (out: String)
        ensures
            out@ == self@.text(),
    {
        match self {
            Command::A => String::from_str("A"),
            Command::AC { channel, enable } => {
                let mut out = String::from_str("AC,");
                push_unsigned(&mut out, *channel as u64);
                out.append(",");
                push_unsigned(&mut out, if *enable { 1 } else { 0 });
                out
            },
            Command::Any(text) => text.clone(),
            Command::EM { enable_1, enable_2 } => {
                let mut out = String::from_str("EM,");
                push_unsigned(&mut out, *enable_1 as u64);
                out.append(",");
                push_unsigned(&mut out, *enable_2 as u64);
                out
            },
            Command::HM { step_frequency, .. } => {
                let mut out = String::from_str("HM,");
                push_unsigned(&mut out, *step_frequency as u64);
                out
            },
            Command::QC => String::from_str("QC"),
            Command::QT => String::from_str("QT"),
            Command::QS => String::from_str("QS"),
            Command::R => String::from_str("R"),
            Command::ST { name } => {
                let mut out = String::from_str("ST,");
                out.append(name.as_str());
                out
            },
            Command::SM { duration, axis_step_1, axis_step_2 } => {
                let mut out = String::from_str("SM,");
                push_unsigned(&mut out, *duration as u64);
                out.append(",");
                push_signed(&mut out, *axis_step_1 as i64);
                if let Some(second) = axis_step_2 {
                    out.append(",");
                    push_signed(&mut out, *second as i64);
                }
                out
            },
            Command::TP { duration } => match duration {
                None => String::from_str("TP"),
                Some(ticks) => {
                    let mut out = String::from_str("TP,");
                    push_unsigned(&mut out, *ticks as u64);
                    out
                },
            },
            Command::V => String::from_str("V"),
        }
    }
}

/// What each command of `commands` holds.
pub open spec fn views(commands: Seq<Command>) -> Seq<CommandView> {
    Seq::new(commands.len(), |i: int| commands[i]@)
}

/// One move for each displacement of `deltas`, in their order.
pub open spec fn moves_of(deltas: Seq<(int, int)>) -> Seq<CommandView> {
    Seq::new(deltas.len(), |i: int| move_of(deltas[i].0, deltas[i].1))
}

/// Both axis amounts of every displacement of `deltas` fit the device's step type.
pub open spec fn moves_fit(deltas: Seq<(int, int)>) -> bool {
    forall|i: int| 0 <= i < deltas.len() ==> encodable((#[trigger] deltas[i]).0, deltas[i].1)
}

/// The moves that draw one stroke: one for each of its displacements, none merged.
pub fn stroke_moves(stroke: &Stroke) -> (moves: Vec<Command>)
    requires
        moves_fit(stroke.deltas()),
    ensures
        views(moves@) == moves_of(stroke.deltas()),
{
    let mut moves: Vec<Command> = Vec::new();
    let mut i: usize = 0;
    while i < stroke.path.len()
        invariant
            i <= stroke.path.len(),
            moves_fit(stroke.deltas()),
            moves.len() == i,
            forall|k: int|
                0 <= k < i ==> (#[trigger] moves[k])@ == move_of(
                    stroke.path[k].x as int,
                    stroke.path[k].y as int,
                ),
        decreases stroke.path.len() - i,
    {
        assert(stroke.deltas()[i as int] == stroke.path[i as int]@);
        moves.push(Command::from(&stroke.path[i]));
        i += 1;
    }
    assert(views(moves@) =~= moves_of(stroke.deltas()));
    moves
}

/// For each stroke, in order, the moves that draw it.
pub fn convert_to_series_of_commands(strokes: Strokes) -> (series: Vec<Vec<Command>>)
    requires
        forall|s: int| 0 <= s < strokes.0.len() ==> moves_fit((#[trigger] strokes.0[s]).deltas()),
    ensures
        series.len() == strokes.0.len(),
        forall|s: int|
            0 <= s < series.len() ==> views((#[trigger] series[s])@) == moves_of(
                strokes.0[s].deltas(),
            ),
{
    let mut series: Vec<Vec<Command>> = Vec::new();
    let mut s: usize = 0;
    while s < strokes.0.len()
        invariant
            s <= strokes.0.len(),
            forall|k: int|
                0 <= k < strokes.0.len() ==> moves_fit((#[trigger] strokes.0[k]).deltas()),
            series.len() == s,
            forall|k: int|
                0 <= k < s ==> views((#[trigger] series[k])@) == moves_of(strokes.0[k].deltas()),
        decreases strokes.0.len() - s,
    {
        series.push(stroke_moves(&strokes.0[s]));
        s += 1;
    }
    series
}

} // verus!
