//! Playback of a recorded plan: which frame, replan, gate and action are shown.

use crate::cli::{read_line, scan, take_text, CliError, FlagSpec, Reading, Token, ValueKind};
use crate::text::{decimal, format_decimal};
use vstd::prelude::*;

verus! {

/// Why the viewer does not start.
#[derive(Clone, Copy, PartialEq, Eq, Structural, Debug)]
pub enum ArgsError {
    Line(CliError),
    /// No replay is named.
    NoReplay,
}

/// The only flag of the viewer.
pub open spec fn flag_table() -> Seq<FlagSpec> {
    seq![FlagSpec { name: "--replay", kind: ValueKind::Text }]
}

/// The settings of the viewer.
#[derive(Debug)]
pub struct Args {
    pub replay: String,
}

impl Args {
    /// Reads the command line.
    pub fn parse(tokens: &Vec<Token>) -> (result: Result<Args, ArgsError>)
        ensures
            match read_line(flag_table(), false, tokens@) {
                Reading::Help => false,
                Reading::Failed(error) => result matches Err(ArgsError::Line(found)) && found
                    == error,
                Reading::Values(values) => match values[0] {
                    Some(place) => place < tokens@.len() && (result matches Ok(args)
                        && args.replay@ == tokens@[place as int].text@),
                    None => result matches Err(ArgsError::NoReplay),
                },
            },
    {
        let mut table: Vec<FlagSpec> = Vec::new();
        table.push(FlagSpec { name: "--replay", kind: ValueKind::Text });
        assert(table@ =~= flag_table());
        proof {
            lemma_no_help(flag_table(), tokens@, 0, crate::cli::no_values(1));
        }
        match scan(&table, false, tokens) {
            Err(error) => Err(ArgsError::Line(error)),
            Ok(None) => Err(ArgsError::NoReplay),
            Ok(Some(values)) => match values[0] {
                Some(place) => Ok(Args { replay: take_text(tokens, Some(place), "") }),
                None => Err(ArgsError::NoReplay),
            },
        }
    }
}

proof fn lemma_no_help(
    flags: Seq<FlagSpec>,
    tokens: Seq<Token>,
    next: int,
    values: Seq<Option<usize>>,
)
    ensures
        !(crate::cli::reading(flags, false, tokens, next, values) is Help),
    decreases tokens.len() - next,
{
    if 0 <= next < tokens.len() {
        if let Some(flag) = crate::cli::flag_named(flags, tokens[next].text@, 0) {
            if flags[flag].kind == ValueKind::Switch {
                lemma_no_help(flags, tokens, next + 1, values.update(flag, Some(next as usize)));
            } else if let Ok(value) = crate::cli::value_behind(tokens, next, flags[flag].kind) {
                lemma_no_help(flags, tokens, next + 2, values.update(flag, Some(value)));
            }
        }
    }
}

/// The keys that steer the playback.
#[derive(Clone, Copy, PartialEq, Eq, Structural, Debug)]
pub struct PlaybackKeys {
    pub toggle: bool,
    pub forward: bool,
    pub back: bool,
}

/// The state of the playback.
#[derive(Clone, Copy, PartialEq, Eq, Structural, Debug)]
pub struct Playback {
    pub frames: usize,
    pub frame: usize,
    pub playing: bool,
}

/// The frame shown after a key for the next frame.
pub open spec fn stepped_forward(frame: int, frames: int) -> int {
    if frame + 1 < frames {
        frame + 1
    } else if frames > 0 {
        frames - 1
    } else {
        0
    }
}

/// The frame that the keys lead to.
pub open spec fn frame_after(keys: PlaybackKeys, frame: int, frames: int) -> int {
    let moved = if keys.forward {
        stepped_forward(frame, frames)
    } else {
        frame
    };
    if keys.back && moved > 0 {
        moved - 1
    } else {
        moved
    }
}

/// The keys lead one frame forward or back, never out of the replay, and nowhere where neither is
/// pressed.
pub proof fn law_keys_lead_to_the_neighbouring_frame(keys: PlaybackKeys, frame: int, frames: int)
    requires
        0 <= frame < frames,
    ensures
        0 <= frame_after(keys, frame, frames) < frames,
        !keys.forward && !keys.back ==> frame_after(keys, frame, frames) == frame,
        keys.forward && !keys.back && frame + 1 < frames ==> frame_after(keys, frame, frames)
            == frame + 1,
        keys.forward && !keys.back && frame + 1 == frames ==> frame_after(keys, frame, frames)
            == frame,
        keys.back && !keys.forward && frame > 0 ==> frame_after(keys, frame, frames) == frame - 1,
        keys.back && !keys.forward && frame == 0 ==> frame_after(keys, frame, frames) == 0,
{
}

impl Playback {
    /// The shown frame is one of the replay; the first one where there is none.
    pub open spec fn well_formed(self) -> bool {
        self.frame < self.frames || (self.frames == 0 && self.frame == 0)
    }

    /// A playback that runs from the first frame.
    pub fn new(frames: usize) -> (playback: Playback)
        ensures
            playback == (Playback { frames, frame: 0, playing: true }),
            playback.well_formed(),
    {
        Playback { frames, frame: 0, playing: true }
    }

    /// Takes in the keys: the playback stops or goes on, and the shown frame moves by one, not
    /// beyond the first and the last.
    pub fn controls(&mut self, keys: PlaybackKeys)
        requires
            old(self).well_formed(),
        ensures
            final(self).frame == frame_after(keys, old(self).frame as int, old(self).frames as int),
            final(self).well_formed(),
            final(self).frames == old(self).frames,
            final(self).playing == (old(self).playing != keys.toggle),
            final(self).frame == ({
                let moved = if keys.forward {
                    stepped_forward(old(self).frame as int, old(self).frames as int)
                } else {
                    old(self).frame as int
                };
                if keys.back && moved > 0 {
                    moved - 1
                } else {
                    moved
                }
            }),
    {
        if keys.toggle {
            self.playing = !self.playing;
        }
        if keys.forward && self.frames > 0 && self.frame < self.frames - 1 {
            self.frame = self.frame + 1;
        }
        if keys.back && self.frame > 0 {
            self.frame = self.frame - 1;
        }
    }

    /// Shows the next frame, and the first one behind the last.
    pub fn advance(&mut self)
        requires
            old(self).well_formed(),
        ensures
            final(self).well_formed(),
            final(self).frames == old(self).frames,
            final(self).playing == old(self).playing,
            final(self).frame == advanced(old(self).frame as int, old(self).frames as int, 1),
    {
        if self.frames > 0 && self.frame < self.frames - 1 {
            self.frame = self.frame + 1;
        } else {
            self.frame = 0;
        }
        proof {
            if old(self).frames > 0 {
                if old(self).frame + 1 == old(self).frames {
                    vstd::arithmetic::div_mod::lemma_mod_self_0(old(self).frames as int);
                } else {
                    vstd::arithmetic::div_mod::lemma_small_mod(
                        (old(self).frame + 1) as nat,
                        old(self).frames as nat,
                    );
                }
            }
        }
    }
}

/// The frame shown after `steps` advances.
pub open spec fn advanced(frame: int, frames: int, steps: int) -> int {
    if frames > 0 {
        (frame + steps) % frames
    } else {
        0
    }
}

/// Advances add up, and as many as there are frames lead back to where they began.
pub proof fn law_playback_goes_round(frame: int, frames: int, steps: int)
    requires
        0 <= frame < frames,
        steps >= 0,
    ensures
        advanced(advanced(frame, frames, steps), frames, 1) == advanced(frame, frames, steps + 1),
        advanced(frame, frames, frames) == frame,
{
    vstd::arithmetic::div_mod::lemma_add_mod_noop(frame + steps, 1, frames);
    vstd::arithmetic::div_mod::lemma_add_mod_noop((frame + steps) % frames, 1, frames);
    vstd::arithmetic::div_mod::lemma_mod_twice(frame + steps, frames);
    vstd::arithmetic::div_mod::lemma_mod_add_multiples_vanish(frame, frames);
    vstd::arithmetic::div_mod::lemma_small_mod(frame as nat, frames as nat);
}

/// The first replan from `from` on whose executed steps reach a frame, else the last one.
pub open spec fn replan_reaching(executed: Seq<usize>, frame: int, from: int) -> Option<int>
    decreases (if from < executed.len() { executed.len() - from } else { 0 }),
{
    if from < 0 || from >= executed.len() {
        if executed.len() > 0 {
            Some(executed.len() - 1)
        } else {
            None
        }
    } else if frame <= executed[from] {
        Some(from)
    } else {
        replan_reaching(executed, frame, from + 1)
    }
}

/// Finds the replan in force at a frame, given the executed steps of each.
pub fn active_replan(executed: &Vec<usize>, frame: usize) -> (replan: Option<usize>)
    ensures
        match replan {
            Some(index) => index < executed@.len() && replan_reaching(
                executed@,
                frame as int,
                0,
            ) == Some(index as int),
            None => executed@.len() == 0,
        },
{
    let count: usize = executed.len();
    let mut next: usize = 0;
    while next < count
        invariant
            next <= count == executed@.len(),
            replan_reaching(executed@, frame as int, 0) == replan_reaching(
                executed@,
                frame as int,
                next as int,
            ),
        decreases count - next,
    {
        if frame <= executed[next] {
            return Some(next);
        }
        next = next + 1;
    }
    if count > 0 {
        Some(count - 1)
    } else {
        None
    }
}

/// Which gate is shown for that of the replan in force.
pub open spec fn gate_shown(gates: usize, replan_gate: Option<usize>) -> Option<usize> {
    match replan_gate {
        Some(index) if index < gates => Some(index),
        _ => if gates > 0 {
            Some(0usize)
        } else {
            None
        },
    }
}

/// A gate is shown wherever there is one: that of the replan, or the first.
pub proof fn law_some_gate_is_shown(gates: usize, index: usize)
    ensures
        index < gates ==> gate_shown(gates, Some(index)) == Some(index),
        index >= gates > 0 ==> gate_shown(gates, Some(index)) == Some(0usize),
        gates > 0 ==> gate_shown(gates, None) == Some(0usize),
        gates == 0 ==> gate_shown(gates, Some(index)) is None && gate_shown(gates, None) is None,
{
}

/// Finds which gate is flown to: that of the replan in force, else the first one.
pub fn active_gate(gates: usize, replan_gate: Option<usize>) -> (gate: Option<usize>)
    ensures
        gate == gate_shown(gates, replan_gate),
        gate == match replan_gate {
            Some(index) if index < gates => Some(index),
            _ => if gates > 0 {
                Some(0usize)
            } else {
                None
            },
        },
{
    if let Some(index) = replan_gate {
        if index < gates {
            return Some(index);
        }
    }
    if gates > 0 {
        Some(0)
    } else {
        None
    }
}

/// The item of that number among `count` items, or the last one.
pub open spec fn item_or_last(number: usize, count: usize) -> Option<usize> {
    if count == 0 {
        None
    } else if number < count {
        Some(number)
    } else {
        Some((count - 1) as usize)
    }
}

/// Finds the action of a frame: its own, or the last one.
pub fn action_at_frame(actions: usize, frame: usize) -> (action: Option<usize>)
    ensures
        action == item_or_last(frame, actions),
{
    if actions == 0 {
        None
    } else if frame < actions {
        Some(frame)
    } else {
        Some(actions - 1)
    }
}

/// Finds the action that is shown at a frame: the one that led to it, that of the frame before;
/// the first frame shows its own.
pub fn shown_action(actions: usize, frame: usize) -> (action: Option<usize>)
    ensures
        action == item_or_last(
            if frame == 0 {
                0
            } else {
                (frame - 1) as usize
            },
            actions,
        ),
{
    action_at_frame(actions, frame.saturating_sub(1))
}

/// Finds the frame at which a replan is marked: the one its executed steps lead to, or the last.
pub fn marker_frame(executed_steps: usize, frames: usize) -> (frame: Option<usize>)
    ensures
        frame == item_or_last(executed_steps, frames),
{
    action_at_frame(frames, executed_steps)
}

/// What a gate is called: by its name, or by its number where it has none.
pub fn gate_label(name: &str, index: usize) -> (label: String)
    ensures
        label@ == if name@.len() == 0 {
            "T"@ + decimal(index as nat)
        } else {
            name@
        },
{
    if name.unicode_len() == 0 {
        "T".to_owned().concat(format_decimal(index as u64).as_str())
    } else {
        name.to_owned()
    }
}

/// The lines that show the way through the gates.
#[derive(Clone, Copy, PartialEq, Eq, Structural, Debug)]
pub struct ReferenceLines {
    /// From the first frame, where there is one, through the gates.
    pub strip: bool,
    /// Round the gates.
    pub closed: bool,
}

/// Decides which lines show the way: a strip of at least two points, a ring of at least three gates.
pub fn reference_lines(gates: usize, has_frames: bool) -> (lines: ReferenceLines)
    ensures
        lines == (ReferenceLines {
            strip: gates > 0 && (gates > 1 || has_frames),
            closed: gates > 2,
        }),
{
    ReferenceLines { strip: gates > 0 && (gates > 1 || has_frames), closed: gates > 2 }
}

/// Every fifth line of the grid is a stronger one.
pub fn is_major_line(index: usize) -> (answer: bool)
    ensures
        answer == (index % 5 == 0),
{
    index % 5 == 0
}

/// A vector of the drone's world in the view's world, whose second axis points up.
pub open spec fn swapped<T>(value: Seq<T>) -> Seq<T> {
    seq![value[0], value[2], value[1]]
}

/// Turns a vector of the drone's world into one of the view's world.
pub fn to_view<T: Copy>(value: [T; 3]) -> (view: [T; 3])
    ensures
        view@ == swapped(value@),
{
    let view = [value[0], value[2], value[1]];
    assert(view@ =~= swapped(value@));
    view
}

/// Turning a vector twice gives it back.
pub proof fn law_view_turns_back<T>(value: Seq<T>)
    requires
        value.len() == 3,
    ensures
        swapped(swapped(value)) == value,
{
    assert(swapped(swapped(value)) =~= value);
}

/// Column `index` of a rotation that is given row by row.
pub open spec fn column<T>(rotation: Seq<T>, index: int) -> Seq<T> {
    seq![rotation[index], rotation[index + 3], rotation[index + 6]]
}

/// The columns of the view's rotation of a drone whose rotation is given row by row: forward, up and
/// sideways.
pub fn view_columns<T: Copy>(rotation: [T; 9]) -> (columns: ([T; 3], [T; 3], [T; 3]))
    ensures
        columns.0@ == swapped(column(rotation@, 0)),
        columns.1@ == swapped(column(rotation@, 2)),
        columns.2@ == swapped(column(rotation@, 1)),
{
    let first = [rotation[0], rotation[3], rotation[6]];
    let second = [rotation[2], rotation[5], rotation[8]];
    let third = [rotation[1], rotation[4], rotation[7]];
    assert(first@ =~= column(rotation@, 0));
    assert(second@ =~= column(rotation@, 2));
    assert(third@ =~= column(rotation@, 1));
    (to_view(first), to_view(second), to_view(third))
}

/// A step forward leads to the next frame, and no further than the last.
pub proof fn law_forward_stops_at_the_last_frame(frame: int, frames: int)
    requires
        0 <= frame < frames,
    ensures
        frame + 1 < frames ==> stepped_forward(frame, frames) == frame + 1,
        frame + 1 == frames ==> stepped_forward(frame, frames) == frame,
{
}

/// Playing shows the next frame, and the first one behind the last.
pub proof fn law_playing_begins_again_behind_the_last_frame(frame: int, frames: int)
    requires
        0 <= frame < frames,
    ensures
        frame + 1 < frames ==> advanced(frame, frames, 1) == frame + 1,
        frame + 1 == frames ==> advanced(frame, frames, 1) == 0,
{
    if frame + 1 < frames {
        vstd::arithmetic::div_mod::lemma_fundamental_div_mod_converse(
            frame + 1,
            frames,
            0,
            frame + 1,
        );
    } else {
        vstd::arithmetic::div_mod::lemma_fundamental_div_mod_converse(frame + 1, frames, 1, 0);
    }
}

/// The replan in force is the first that was executed up to the frame or beyond it, and the last one
/// where none was.
pub proof fn law_the_first_replan_that_reaches_counts(executed: Seq<usize>, frame: int, from: int)
    requires
        0 <= from <= executed.len(),
        executed.len() > 0,
    ensures
        replan_reaching(executed, frame, from) matches Some(replan) && 0 <= replan < executed.len()
            && (forall|i: int| from <= i < replan ==> #[trigger] executed[i] < frame) && (
        executed[replan] >= frame || replan + 1 == executed.len()),
    decreases executed.len() - from,
{
    if from < executed.len() && frame > executed[from] {
        law_the_first_replan_that_reaches_counts(executed, frame, from + 1);
    }
}

/// An item is shown by its number, the last one where the number lies beyond, and none where there is
/// none.
pub proof fn law_numbers_beyond_show_the_last(number: usize, count: usize)
    ensures
        count == 0 <==> item_or_last(number, count) is None,
        number < count ==> item_or_last(number, count) == Some(number),
        number >= count > 0 ==> item_or_last(number, count) == Some((count - 1) as usize),
{
}

/// Upwards in the data is upwards in the view: the last two axes change places.
pub proof fn law_views_exchange_the_last_two_axes<T>(value: Seq<T>, rotation: Seq<T>, index: int)
    requires
        value.len() == 3,
        rotation.len() == 9,
        0 <= index < 3,
    ensures
        swapped(value).len() == 3,
        swapped(value)[0] == value[0],
        swapped(value)[1] == value[2],
        swapped(value)[2] == value[1],
        column(rotation, index).len() == 3,
        forall|row: int|
            0 <= row < 3 ==> #[trigger] column(rotation, index)[row] == rotation[3 * row + index],
{
}

/// The viewer takes one flag, the replay.
pub proof fn law_the_replay_is_the_only_flag()
    ensures
        flag_table().len() == 1,
        flag_table()[0].name@ == "--replay"@,
        flag_table()[0].kind == ValueKind::Text,
{
}

} // verus!
