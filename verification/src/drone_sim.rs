//! Interactive simulation of the drone's dynamics: its command line, controls and observation.

use crate::cli::{fraction_or, read_line, scan, size_or, take_fraction, take_size, CliError, FlagSpec,
    Reading, Token, ValueKind};
use crate::order::{Score, ONE_KEY};
use crate::text::number_up_to;
use vstd::prelude::*;

verus! {

/// The key of the default simulation rate, 1000 as a 32-bit float has it.
pub const SIM_HZ_KEY: i64 = 0x408f_4000_0000_0000;

/// The key of the default time scale, 1 as a 32-bit float has it.
pub const TIME_SCALE_KEY: i64 = 0x3ff0_0000_0000_0000;

/// The key of the default mass, 1.3 as a 32-bit float has it.
pub const MASS_KEY: i64 = 0x3ff4_cccc_c000_0000;

/// The key of the default gravity, 9.81 as a 32-bit float has it.
pub const GRAVITY_KEY: i64 = 0x4023_9eb8_6000_0000;

/// The key of the default hovering throttle, 0.5 as a 32-bit float has it.
pub const HOVER_THROTTLE_KEY: i64 = 0x3fe0_0000_0000_0000;

/// The key of the default ratio of thrust to weight, 2.2 as a 32-bit float has it.
pub const MAX_THRUST_WEIGHT_KEY: i64 = 0x4001_9999_a000_0000;

/// The key of the default roll rate, 8 as a 32-bit float has it.
pub const MAX_ROLL_RATE_KEY: i64 = 0x4020_0000_0000_0000;

/// The key of the default pitch rate, 8 as a 32-bit float has it.
pub const MAX_PITCH_RATE_KEY: i64 = 0x4020_0000_0000_0000;

/// The key of the default yaw rate, 5 as a 32-bit float has it.
pub const MAX_YAW_RATE_KEY: i64 = 0x4014_0000_0000_0000;

/// The key of the default rate gain, 22 as a 32-bit float has it.
pub const RATE_KP_KEY: i64 = 0x4036_0000_0000_0000;

/// The key of the default rate damping, 2.5 as a 32-bit float has it.
pub const RATE_DAMPING_KEY: i64 = 0x4004_0000_0000_0000;

/// The key of the default linear drag, 0.18 as a 32-bit float has it.
pub const LINEAR_DRAG_KEY: i64 = 0x3fc7_0a3d_8000_0000;

/// The key of the default quadratic drag, 0.03 as a 32-bit float has it.
pub const QUADRATIC_DRAG_KEY: i64 = 0x3f9e_b851_e000_0000;

/// The key of the default camera distance, 7 as a 32-bit float has it.
pub const CAMERA_DISTANCE_KEY: i64 = 0x401c_0000_0000_0000;

/// The key of the default camera height, 2.2 as a 32-bit float has it.
pub const CAMERA_HEIGHT_KEY: i64 = 0x4001_9999_a000_0000;

/// The key of the default camera spring, 8 as a 32-bit float has it.
pub const CAMERA_SPRING_KEY: i64 = 0x4020_0000_0000_0000;

/// The key of the throttle that hovering must exceed, 0.01 as a 32-bit float has it.
pub const LEAST_HOVER_KEY: i64 = 0x3f84_7ae1_4000_0000;

/// The key of the distance that the camera must exceed, 0.25.
pub const LEAST_DISTANCE_KEY: i64 = 0x3fd0_0000_0000_0000;

/// The settings of the simulator.
#[derive(Clone, Copy, PartialEq, Eq, Structural, Debug)]
pub struct Args {
    pub sim_hz: Score,
    pub time_scale: Score,
    pub max_frame_steps: usize,
    pub mass: Score,
    pub gravity: Score,
    pub hover_throttle: Score,
    pub max_thrust_weight: Score,
    pub max_roll_rate: Score,
    pub max_pitch_rate: Score,
    pub max_yaw_rate: Score,
    pub rate_kp: Score,
    pub rate_damping: Score,
    pub linear_drag: Score,
    pub quadratic_drag: Score,
    pub max_trail: usize,
    pub camera_distance: Score,
    pub camera_height: Score,
    pub camera_spring: Score,
}

/// What the command line asks for.
#[derive(Clone, Copy, PartialEq, Eq, Structural, Debug)]
pub enum Request {
    Help,
    Run(Args),
}

/// Why the simulator does not start.
#[derive(Clone, Copy, PartialEq, Eq, Structural, Debug)]
pub enum ArgsError {
    Line(CliError),
    SimHz,
    MaxFrameSteps,
    TimeScale,
    Mass,
    Gravity,
    HoverThrottle,
    MaxThrustWeight,
    MaxTrail,
    CameraDistance,
    CameraHeight,
    CameraSpring,
}

/// The flags of the simulator.
pub open spec fn flag_table() -> Seq<FlagSpec> {
    seq![
        FlagSpec { name: "--sim-hz", kind: ValueKind::Fraction },
        FlagSpec { name: "--time-scale", kind: ValueKind::Fraction },
        FlagSpec { name: "--max-frame-steps", kind: ValueKind::Size },
        FlagSpec { name: "--mass", kind: ValueKind::Fraction },
        FlagSpec { name: "--gravity", kind: ValueKind::Fraction },
        FlagSpec { name: "--hover-throttle", kind: ValueKind::Fraction },
        FlagSpec { name: "--max-thrust-weight", kind: ValueKind::Fraction },
        FlagSpec { name: "--max-roll-rate", kind: ValueKind::Fraction },
        FlagSpec { name: "--max-pitch-rate", kind: ValueKind::Fraction },
        FlagSpec { name: "--max-yaw-rate", kind: ValueKind::Fraction },
        FlagSpec { name: "--rate-kp", kind: ValueKind::Fraction },
        FlagSpec { name: "--rate-damping", kind: ValueKind::Fraction },
        FlagSpec { name: "--linear-drag", kind: ValueKind::Fraction },
        FlagSpec { name: "--quadratic-drag", kind: ValueKind::Fraction },
        FlagSpec { name: "--max-trail", kind: ValueKind::Size },
        FlagSpec { name: "--camera-distance", kind: ValueKind::Fraction },
        FlagSpec { name: "--camera-height", kind: ValueKind::Fraction },
        FlagSpec { name: "--camera-spring", kind: ValueKind::Fraction },
    ]
}

fn flags() -> (table: Vec<FlagSpec>)
    ensures
        table@ == flag_table(),
{
    let mut table: Vec<FlagSpec> = Vec::new();
    table.push(FlagSpec { name: "--sim-hz", kind: ValueKind::Fraction });
    table.push(FlagSpec { name: "--time-scale", kind: ValueKind::Fraction });
    table.push(FlagSpec { name: "--max-frame-steps", kind: ValueKind::Size });
    table.push(FlagSpec { name: "--mass", kind: ValueKind::Fraction });
    table.push(FlagSpec { name: "--gravity", kind: ValueKind::Fraction });
    table.push(FlagSpec { name: "--hover-throttle", kind: ValueKind::Fraction });
    table.push(FlagSpec { name: "--max-thrust-weight", kind: ValueKind::Fraction });
    table.push(FlagSpec { name: "--max-roll-rate", kind: ValueKind::Fraction });
    table.push(FlagSpec { name: "--max-pitch-rate", kind: ValueKind::Fraction });
    table.push(FlagSpec { name: "--max-yaw-rate", kind: ValueKind::Fraction });
    table.push(FlagSpec { name: "--rate-kp", kind: ValueKind::Fraction });
    table.push(FlagSpec { name: "--rate-damping", kind: ValueKind::Fraction });
    table.push(FlagSpec { name: "--linear-drag", kind: ValueKind::Fraction });
    table.push(FlagSpec { name: "--quadratic-drag", kind: ValueKind::Fraction });
    table.push(FlagSpec { name: "--max-trail", kind: ValueKind::Size });
    table.push(FlagSpec { name: "--camera-distance", kind: ValueKind::Fraction });
    table.push(FlagSpec { name: "--camera-height", kind: ValueKind::Fraction });
    table.push(FlagSpec { name: "--camera-spring", kind: ValueKind::Fraction });
    assert(table@ =~= flag_table());
    table
}

/// The settings that a command line whose values stand at `values` gives.
pub open spec fn settings_of(tokens: Seq<Token>, values: Seq<Option<usize>>) -> Args {
    Args {
        sim_hz: fraction_or(tokens, values[0], Score::Key(SIM_HZ_KEY)),
        time_scale: fraction_or(tokens, values[1], Score::Key(TIME_SCALE_KEY)),
        max_frame_steps: size_or(tokens, values[2], 20) as usize,
        mass: fraction_or(tokens, values[3], Score::Key(MASS_KEY)),
        gravity: fraction_or(tokens, values[4], Score::Key(GRAVITY_KEY)),
        hover_throttle: fraction_or(tokens, values[5], Score::Key(HOVER_THROTTLE_KEY)),
        max_thrust_weight: fraction_or(tokens, values[6], Score::Key(MAX_THRUST_WEIGHT_KEY)),
        max_roll_rate: fraction_or(tokens, values[7], Score::Key(MAX_ROLL_RATE_KEY)),
        max_pitch_rate: fraction_or(tokens, values[8], Score::Key(MAX_PITCH_RATE_KEY)),
        max_yaw_rate: fraction_or(tokens, values[9], Score::Key(MAX_YAW_RATE_KEY)),
        rate_kp: fraction_or(tokens, values[10], Score::Key(RATE_KP_KEY)),
        rate_damping: fraction_or(tokens, values[11], Score::Key(RATE_DAMPING_KEY)),
        linear_drag: fraction_or(tokens, values[12], Score::Key(LINEAR_DRAG_KEY)),
        quadratic_drag: fraction_or(tokens, values[13], Score::Key(QUADRATIC_DRAG_KEY)),
        max_trail: size_or(tokens, values[14], 2400) as usize,
        camera_distance: fraction_or(tokens, values[15], Score::Key(CAMERA_DISTANCE_KEY)),
        camera_height: fraction_or(tokens, values[16], Score::Key(CAMERA_HEIGHT_KEY)),
        camera_spring: fraction_or(tokens, values[17], Score::Key(CAMERA_SPRING_KEY)),
    }
}

impl Args {
    /// The first setting that is out of range.
    pub open spec fn refusal(self) -> Option<ArgsError> {
        if !self.sim_hz.over_key(0) {
            Some(ArgsError::SimHz)
        } else if self.max_frame_steps == 0 {
            Some(ArgsError::MaxFrameSteps)
        } else if !self.time_scale.over_key(0) {
            Some(ArgsError::TimeScale)
        } else if !self.mass.over_key(0) {
            Some(ArgsError::Mass)
        } else if !self.gravity.over_key(0) {
            Some(ArgsError::Gravity)
        } else if !(self.hover_throttle.over_key(LEAST_HOVER_KEY) && self.hover_throttle.at_most(
            Score::Key(ONE_KEY),
        )) {
            Some(ArgsError::HoverThrottle)
        } else if !self.max_thrust_weight.from_key(ONE_KEY) {
            Some(ArgsError::MaxThrustWeight)
        } else if self.max_trail <= 1 {
            Some(ArgsError::MaxTrail)
        } else if !self.camera_distance.over_key(LEAST_DISTANCE_KEY) {
            Some(ArgsError::CameraDistance)
        } else if !self.camera_height.from_key(0) {
            Some(ArgsError::CameraHeight)
        } else if !self.camera_spring.over_key(0) {
            Some(ArgsError::CameraSpring)
        } else {
            None
        }
    }

    /// Checks the settings, in order.
    pub fn validate(&self) -> (result: Result<(), ArgsError>)
        ensures
            match result {
                Ok(()) => self.refusal() is None,
                Err(error) => self.refusal() == Some(error),
            },
    {
        if !self.sim_hz.is_over_key(0) {
            return Err(ArgsError::SimHz);
        }
        if self.max_frame_steps == 0 {
            return Err(ArgsError::MaxFrameSteps);
        }
        if !self.time_scale.is_over_key(0) {
            return Err(ArgsError::TimeScale);
        }
        if !self.mass.is_over_key(0) {
            return Err(ArgsError::Mass);
        }
        if !self.gravity.is_over_key(0) {
            return Err(ArgsError::Gravity);
        }
        if !(self.hover_throttle.is_over_key(LEAST_HOVER_KEY) && self.hover_throttle.is_at_most(
            Score::Key(ONE_KEY),
        )) {
            return Err(ArgsError::HoverThrottle);
        }
        if !self.max_thrust_weight.is_from_key(ONE_KEY) {
            return Err(ArgsError::MaxThrustWeight);
        }
        if self.max_trail <= 1 {
            return Err(ArgsError::MaxTrail);
        }
        if !self.camera_distance.is_over_key(LEAST_DISTANCE_KEY) {
            return Err(ArgsError::CameraDistance);
        }
        if !self.camera_height.is_from_key(0) {
            return Err(ArgsError::CameraHeight);
        }
        if !self.camera_spring.is_over_key(0) {
            return Err(ArgsError::CameraSpring);
        }
        Ok(())
    }

    /// Reads and checks the command line.
    pub fn parse(tokens: &Vec<Token>) -> (result: Result<Request, ArgsError>)
        ensures
            match read_line(flag_table(), true, tokens@) {
                Reading::Help => result == Ok::<Request, ArgsError>(Request::Help),
                Reading::Failed(error) => result == Err::<Request, ArgsError>(
                    ArgsError::Line(error),
                ),
                Reading::Values(values) => match settings_of(tokens@, values).refusal() {
                    Some(error) => result == Err::<Request, ArgsError>(error),
                    None => result == Ok::<Request, ArgsError>(
                        Request::Run(settings_of(tokens@, values)),
                    ),
                },
            },
    {
        let table = flags();
        let values = match scan(&table, true, tokens) {
            Err(error) => {
                return Err(ArgsError::Line(error));
            },
            Ok(None) => {
                return Ok(Request::Help);
            },
            Ok(Some(values)) => values,
        };
        let args = Args {
            sim_hz: take_fraction(tokens, values[0], Score::Key(SIM_HZ_KEY)),
            time_scale: take_fraction(tokens, values[1], Score::Key(TIME_SCALE_KEY)),
            max_frame_steps: take_size(tokens, values[2], 20),
            mass: take_fraction(tokens, values[3], Score::Key(MASS_KEY)),
            gravity: take_fraction(tokens, values[4], Score::Key(GRAVITY_KEY)),
            hover_throttle: take_fraction(tokens, values[5], Score::Key(HOVER_THROTTLE_KEY)),
            max_thrust_weight: take_fraction(tokens, values[6], Score::Key(MAX_THRUST_WEIGHT_KEY)),
            max_roll_rate: take_fraction(tokens, values[7], Score::Key(MAX_ROLL_RATE_KEY)),
            max_pitch_rate: take_fraction(tokens, values[8], Score::Key(MAX_PITCH_RATE_KEY)),
            max_yaw_rate: take_fraction(tokens, values[9], Score::Key(MAX_YAW_RATE_KEY)),
            rate_kp: take_fraction(tokens, values[10], Score::Key(RATE_KP_KEY)),
            rate_damping: take_fraction(tokens, values[11], Score::Key(RATE_DAMPING_KEY)),
            linear_drag: take_fraction(tokens, values[12], Score::Key(LINEAR_DRAG_KEY)),
            quadratic_drag: take_fraction(tokens, values[13], Score::Key(QUADRATIC_DRAG_KEY)),
            max_trail: take_size(tokens, values[14], 2400),
            camera_distance: take_fraction(tokens, values[15], Score::Key(CAMERA_DISTANCE_KEY)),
            camera_height: take_fraction(tokens, values[16], Score::Key(CAMERA_HEIGHT_KEY)),
            camera_spring: take_fraction(tokens, values[17], Score::Key(CAMERA_SPRING_KEY)),
        };
        match args.validate() {
            Ok(()) => Ok(Request::Run(args)),
            Err(error) => Err(error),
        }
    }
}

/// Whether the plant takes another step in the present frame, behind `taken` steps: where one is due
/// and the frame's bound on steps is not reached.
pub fn takes_step(taken: usize, max_frame_steps: usize, due: bool) -> (answer: bool)
    ensures
        answer == (due && taken < max_frame_steps),
{
    due && taken < max_frame_steps
}

/// The sign that two opposite keys give: none where neither or both are held.
pub fn axis(negative: bool, positive: bool) -> (sign: i8)
    ensures
        sign == if negative == positive {
            0i8
        } else if negative {
            -1i8
        } else {
            1i8
        },
{
    if negative == positive {
        0
    } else if negative {
        -1
    } else {
        1
    }
}

/// The keys that set an action at once.
#[derive(Clone, Copy, PartialEq, Eq, Structural, Debug)]
pub struct ActionKeys {
    /// Back to hovering.
    pub reset: bool,
    /// Roll, pitch and yaw to zero.
    pub level: bool,
    /// The throttle to that of hovering.
    pub hover: bool,
}

/// Component `index` of the action after the keys.
pub open spec fn keyed<T>(
    keys: ActionKeys,
    action: Seq<T>,
    hover_action: Seq<T>,
    zero: T,
    index: int,
) -> T {
    if index != 2 && keys.level {
        zero
    } else if keys.reset || (index == 2 && keys.hover) {
        hover_action[index]
    } else {
        action[index]
    }
}

/// Sets an action by the keys.
pub fn press<T: Copy>(keys: ActionKeys, action: [T; 4], hover_action: [T; 4], zero: T) -> (after: [T;
    4])
    ensures
        after@ == seq![
            keyed(keys, action@, hover_action@, zero, 0),
            keyed(keys, action@, hover_action@, zero, 1),
            keyed(keys, action@, hover_action@, zero, 2),
            keyed(keys, action@, hover_action@, zero, 3),
        ],
{
    let mut roll = action[0];
    let mut pitch = action[1];
    let mut throttle = action[2];
    let mut yaw = action[3];
    if keys.reset {
        roll = hover_action[0];
        pitch = hover_action[1];
        throttle = hover_action[2];
        yaw = hover_action[3];
    }
    if keys.level {
        roll = zero;
        pitch = zero;
        yaw = zero;
    }
    if keys.hover {
        throttle = hover_action[2];
    }
    let after = [roll, pitch, throttle, yaw];
    assert(after@ =~= seq![roll, pitch, throttle, yaw]);
    after
}

/// The observation of the drone: its position, its rotation and the action before.
pub fn obs16<T: Copy>(position: [T; 3], rotation: [T; 9], previous_action: [T; 4]) -> (values: Vec<
    T,
>)
    ensures
        values@ == position@ + rotation@ + previous_action@,
        values@.len() == 16,
{
    let mut values: Vec<T> = Vec::new();
    crate::eval_drone::append(&mut values, position.as_slice());
    crate::eval_drone::append(&mut values, rotation.as_slice());
    crate::eval_drone::append(&mut values, previous_action.as_slice());
    values
}

/// Each flag sets its own setting, and what is not set is as it is by default.
#[verifier::spinoff_prover]
pub proof fn law_flags_set_their_settings(
    tokens: Seq<Token>,
    values: Seq<Option<usize>>,
    place: usize,
)
    ensures
        flag_table().len() == 18,
        flag_table()[0].name@ == "--sim-hz"@,
        values[0] == Some(place) && tokens[place as int].fraction is Some ==> settings_of(
            tokens,
            values,
        ).sim_hz == tokens[place as int].fraction->0,
        values[0] is None ==> settings_of(tokens, values).sim_hz == Score::Key(0x408f_4000_0000_0000),
        flag_table()[1].name@ == "--time-scale"@,
        values[1] == Some(place) && tokens[place as int].fraction is Some ==> settings_of(
            tokens,
            values,
        ).time_scale == tokens[place as int].fraction->0,
        values[1] is None ==> settings_of(tokens, values).time_scale == Score::Key(0x3ff0_0000_0000_0000),
        flag_table()[3].name@ == "--mass"@,
        values[3] == Some(place) && tokens[place as int].fraction is Some ==> settings_of(
            tokens,
            values,
        ).mass == tokens[place as int].fraction->0,
        values[3] is None ==> settings_of(tokens, values).mass == Score::Key(0x3ff4_cccc_c000_0000),
        flag_table()[4].name@ == "--gravity"@,
        values[4] == Some(place) && tokens[place as int].fraction is Some ==> settings_of(
            tokens,
            values,
        ).gravity == tokens[place as int].fraction->0,
        values[4] is None ==> settings_of(tokens, values).gravity == Score::Key(0x4023_9eb8_6000_0000),
        flag_table()[5].name@ == "--hover-throttle"@,
        values[5] == Some(place) && tokens[place as int].fraction is Some ==> settings_of(
            tokens,
            values,
        ).hover_throttle == tokens[place as int].fraction->0,
        values[5] is None ==> settings_of(tokens, values).hover_throttle == Score::Key(0x3fe0_0000_0000_0000),
        flag_table()[6].name@ == "--max-thrust-weight"@,
        values[6] == Some(place) && tokens[place as int].fraction is Some ==> settings_of(
            tokens,
            values,
        ).max_thrust_weight == tokens[place as int].fraction->0,
        values[6] is None ==> settings_of(tokens, values).max_thrust_weight == Score::Key(0x4001_9999_a000_0000),
        flag_table()[7].name@ == "--max-roll-rate"@,
        values[7] == Some(place) && tokens[place as int].fraction is Some ==> settings_of(
            tokens,
            values,
        ).max_roll_rate == tokens[place as int].fraction->0,
        values[7] is None ==> settings_of(tokens, values).max_roll_rate == Score::Key(0x4020_0000_0000_0000),
        flag_table()[8].name@ == "--max-pitch-rate"@,
        values[8] == Some(place) && tokens[place as int].fraction is Some ==> settings_of(
            tokens,
            values,
        ).max_pitch_rate == tokens[place as int].fraction->0,
        values[8] is None ==> settings_of(tokens, values).max_pitch_rate == Score::Key(0x4020_0000_0000_0000),
        flag_table()[9].name@ == "--max-yaw-rate"@,
        values[9] == Some(place) && tokens[place as int].fraction is Some ==> settings_of(
            tokens,
            values,
        ).max_yaw_rate == tokens[place as int].fraction->0,
        values[9] is None ==> settings_of(tokens, values).max_yaw_rate == Score::Key(0x4014_0000_0000_0000),
        flag_table()[10].name@ == "--rate-kp"@,
        values[10] == Some(place) && tokens[place as int].fraction is Some ==> settings_of(
            tokens,
            values,
        ).rate_kp == tokens[place as int].fraction->0,
        values[10] is None ==> settings_of(tokens, values).rate_kp == Score::Key(0x4036_0000_0000_0000),
        flag_table()[11].name@ == "--rate-damping"@,
        values[11] == Some(place) && tokens[place as int].fraction is Some ==> settings_of(
            tokens,
            values,
        ).rate_damping == tokens[place as int].fraction->0,
        values[11] is None ==> settings_of(tokens, values).rate_damping == Score::Key(0x4004_0000_0000_0000),
        flag_table()[12].name@ == "--linear-drag"@,
        values[12] == Some(place) && tokens[place as int].fraction is Some ==> settings_of(
            tokens,
            values,
        ).linear_drag == tokens[place as int].fraction->0,
        values[12] is None ==> settings_of(tokens, values).linear_drag == Score::Key(0x3fc7_0a3d_8000_0000),
        flag_table()[13].name@ == "--quadratic-drag"@,
        values[13] == Some(place) && tokens[place as int].fraction is Some ==> settings_of(
            tokens,
            values,
        ).quadratic_drag == tokens[place as int].fraction->0,
        values[13] is None ==> settings_of(tokens, values).quadratic_drag == Score::Key(0x3f9e_b851_e000_0000),
        flag_table()[15].name@ == "--camera-distance"@,
        values[15] == Some(place) && tokens[place as int].fraction is Some ==> settings_of(
            tokens,
            values,
        ).camera_distance == tokens[place as int].fraction->0,
        values[15] is None ==> settings_of(tokens, values).camera_distance == Score::Key(0x401c_0000_0000_0000),
        flag_table()[16].name@ == "--camera-height"@,
        values[16] == Some(place) && tokens[place as int].fraction is Some ==> settings_of(
            tokens,
            values,
        ).camera_height == tokens[place as int].fraction->0,
        values[16] is None ==> settings_of(tokens, values).camera_height == Score::Key(0x4001_9999_a000_0000),
        flag_table()[17].name@ == "--camera-spring"@,
        values[17] == Some(place) && tokens[place as int].fraction is Some ==> settings_of(
            tokens,
            values,
        ).camera_spring == tokens[place as int].fraction->0,
        values[17] is None ==> settings_of(tokens, values).camera_spring == Score::Key(0x4020_0000_0000_0000),
        flag_table()[2].name@ == "--max-frame-steps"@,
        values[2] == Some(place) && number_up_to(
            tokens[place as int].text@,
            usize::MAX as nat,
        ) is Some ==> settings_of(tokens, values).max_frame_steps == number_up_to(
            tokens[place as int].text@,
            usize::MAX as nat,
        )->0,
        values[2] is None ==> settings_of(tokens, values).max_frame_steps == 20,
        flag_table()[14].name@ == "--max-trail"@,
        values[14] == Some(place) && number_up_to(
            tokens[place as int].text@,
            usize::MAX as nat,
        ) is Some ==> settings_of(tokens, values).max_trail == number_up_to(
            tokens[place as int].text@,
            usize::MAX as nat,
        )->0,
        values[14] is None ==> settings_of(tokens, values).max_trail == 2400,
{
}

/// Settings are accepted exactly where each of them is in its range.
pub proof fn law_accepted_settings_are_in_range(args: Args)
    ensures
        args.refusal() is None <==> {
            &&& Score::Key(0).below(args.sim_hz)
            &&& args.max_frame_steps > 0
            &&& Score::Key(0).below(args.time_scale)
            &&& Score::Key(0).below(args.mass)
            &&& Score::Key(0).below(args.gravity)
            &&& Score::Key(0x3f84_7ae1_4000_0000).below(args.hover_throttle)
            &&& args.hover_throttle.at_most(Score::Key(0x3ff0_0000_0000_0000))
            &&& Score::Key(0x3ff0_0000_0000_0000).at_most(args.max_thrust_weight)
            &&& args.max_trail > 1
            &&& Score::Key(0x3fd0_0000_0000_0000).below(args.camera_distance)
            &&& Score::Key(0).at_most(args.camera_height)
            &&& Score::Key(0).below(args.camera_spring)
        },
{
}

/// Resetting gives the hovering action, levelling takes roll, pitch and yaw to zero, and hovering sets
/// the throttle alone; what no key concerns stays as it is.
pub proof fn law_keys_set_what_they_concern<T>(
    keys: ActionKeys,
    action: Seq<T>,
    hover_action: Seq<T>,
    zero: T,
    index: int,
)
    requires
        0 <= index < 4,
    ensures
        keys.level && index != 2 ==> keyed(keys, action, hover_action, zero, index) == zero,
        keys.reset && !keys.level ==> keyed(keys, action, hover_action, zero, index)
            == hover_action[index],
        (keys.reset || keys.hover) && index == 2 ==> keyed(keys, action, hover_action, zero, index)
            == hover_action[2],
        !keys.reset && !keys.hover && index == 2 ==> keyed(keys, action, hover_action, zero, index)
            == action[2],
        !keys.reset && !keys.level && index != 2 ==> keyed(keys, action, hover_action, zero, index)
            == action[index],
{
}

} // verus!
