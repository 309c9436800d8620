//! Statistics of the recorded drone dynamics: which pairs of frames are evaluated.

use crate::cli::{fraction_or, read_line, scan, take_fraction, take_text, text_or, CliError,
    FlagSpec, Reading, Token, ValueKind};
use crate::drone_fit_plant::{default_dir, SHORT_STEP_KEY};
use crate::order::Score;
use crate::paths::stored_dir;
use vstd::prelude::*;

verus! {

/// Frames `row` and `row + 1` belong to one episode and lie a usable time apart; `time_steps`
/// holds for each frame the longer of its own time step and that of the next frame.
pub open spec fn consecutive(episodes: Seq<i64>, time_steps: Seq<Score>, row: int) -> bool {
    &&& episodes[row] == episodes[row + 1]
    &&& time_steps[row].finite()
    &&& time_steps[row].over_key(SHORT_STEP_KEY)
}

/// The rows below `end` that are evaluated together with the row behind them.
pub open spec fn consecutive_rows(
    episodes: Seq<i64>,
    time_steps: Seq<Score>,
    end: int,
) -> Seq<usize>
    decreases end,
{
    if end <= 0 {
        Seq::empty()
    } else {
        let before = consecutive_rows(episodes, time_steps, end - 1);
        if consecutive(episodes, time_steps, end - 1) {
            before.push((end - 1) as usize)
        } else {
            before
        }
    }
}

/// Lists the rows that are evaluated together with the row behind them. Data without any is
/// refused.
pub fn sample_rows(episodes: &Vec<i64>, time_steps: &Vec<Score>) -> (result: Result<
    Vec<usize>,
    &'static str,
>)
    requires
        time_steps@.len() + 1 >= episodes@.len(),
    ensures
        ({
            let all = consecutive_rows(episodes@, time_steps@, episodes@.len() - 1);
            match result {
                Ok(rows) => rows@ == all && all.len() > 0,
                Err(message) => all.len() == 0 && message@
                    == "dataset produced zero consecutive samples"@,
            }
        }),
{
    let mut rows: Vec<usize> = Vec::new();
    let mut row: usize = 0;
    let last: usize = episodes.len().saturating_sub(1);
    while row < last
        invariant
            row <= last,
            last == (if episodes@.len() == 0 {
                0
            } else {
                episodes@.len() - 1
            }),
            time_steps@.len() + 1 >= episodes@.len(),
            rows@ == consecutive_rows(episodes@, time_steps@, row as int),
        decreases last - row,
    {
        let time_step: Score = time_steps[row];
        if episodes[row] == episodes[row + 1] && time_step.is_finite() && time_step.is_over_key(
            SHORT_STEP_KEY,
        ) {
            rows.push(row);
        }
        row = row + 1;
    }
    if rows.len() == 0 {
        return Err("dataset produced zero consecutive samples");
    }
    Ok(rows)
}

/// The settings of the tool.
#[derive(Debug)]
pub struct Args {
    pub dataset_dir: String,
    pub gravity: Score,
}

/// The key of the default gravity, 9.81 as a 32-bit float has it.
pub const DEFAULT_GRAVITY_KEY: i64 = 0x4023_9eb8_6000_0000;

/// What the command line asks for.
#[derive(Debug)]
pub enum Request {
    Help,
    Run(Args),
}

/// Why the tool does not run.
#[derive(Clone, Copy, PartialEq, Eq, Structural, Debug)]
pub enum ArgsError {
    Line(CliError),
    Gravity,
}

/// The flags of the tool.
pub open spec fn flag_table() -> Seq<FlagSpec> {
    seq![
        FlagSpec { name: "--dataset-dir", kind: ValueKind::Text },
        FlagSpec { name: "--gravity", kind: ValueKind::Fraction },
    ]
}

fn flags() -> (table: Vec<FlagSpec>)
    ensures
        table@ == flag_table(),
{
    let mut table: Vec<FlagSpec> = Vec::new();
    table.push(FlagSpec { name: "--dataset-dir", kind: ValueKind::Text });
    table.push(FlagSpec { name: "--gravity", kind: ValueKind::Fraction });
    assert(table@ =~= flag_table());
    table
}

impl Args {
    /// Reads and checks the command line.
    pub fn parse(tokens: &Vec<Token>, home: Option<&str>) -> (result: Result<Request, ArgsError>)
        ensures
            match read_line(flag_table(), true, tokens@) {
                Reading::Help => result matches Ok(Request::Help),
                Reading::Failed(error) => result matches Err(ArgsError::Line(found)) && found
                    == error,
                Reading::Values(values) => ({
                    let gravity = fraction_or(tokens@, values[1], Score::Key(DEFAULT_GRAVITY_KEY));
                    match result {
                        Ok(Request::Run(args)) => {
                            &&& gravity.over_key(0)
                            &&& args.gravity == gravity
                            &&& args.dataset_dir@ == text_or(
                                tokens@,
                                values[0],
                                default_dir(home),
                            )
                        },
                        Ok(Request::Help) => false,
                        Err(error) => error == ArgsError::Gravity && !gravity.over_key(0),
                    }
                }),
            },
    {
        let table = flags();
        let values = match scan(&table, true, tokens) {
            Err(error) => {
                return Err(ArgsError::Line(error));
            },
            Ok(None) => {
                return Ok(Request::Help);
            },
            Ok(Some(values)) => values,
        };
        let args = Args {
            dataset_dir: take_text(tokens, values[0], default_dataset_dir(home).as_str()),
            gravity: take_fraction(tokens, values[1], Score::Key(DEFAULT_GRAVITY_KEY)),
        };
        if !args.gravity.is_over_key(0) {
            return Err(ArgsError::Gravity);
        }
        Ok(Request::Run(args))
    }
}

/// Names the data set that is evaluated by default.
pub fn default_dataset_dir(home: Option<&str>) -> (path: String)
    ensures
        path@ == default_dir(home),
{
    stored_dir(home, "le-wm-nv-data", "drone-racing-autonomous-100hz-pose16")
}

/// Two frames are evaluated where they belong to one episode and the time step between them is finite
/// and longer than a hundred-thousandth of a second.
pub proof fn law_pairs_stay_in_their_episode(
    episodes: Seq<i64>,
    time_steps: Seq<Score>,
    row: int,
)
    ensures
        consecutive(episodes, time_steps, row) <==> episodes[row + 1] == episodes[row]
            && time_steps[row].finite() && Score::Key(0x3ee4_f8b5_8000_0000).below(time_steps[row]),
{
}

/// The rows that are evaluated are exactly the first ones of such pairs, in ascending order.
#[verifier::spinoff_prover]
pub proof fn law_every_pair_is_evaluated(episodes: Seq<i64>, time_steps: Seq<Score>, end: int)
    requires
        0 <= end <= usize::MAX,
    ensures
        forall|row: usize| #[trigger]
            consecutive_rows(episodes, time_steps, end).contains(row) <==> row < end
                && consecutive(episodes, time_steps, row as int),
        forall|i: int, j: int|
            0 <= i < j < consecutive_rows(episodes, time_steps, end).len() ==> (
            #[trigger] consecutive_rows(episodes, time_steps, end)[i]) < (
            #[trigger] consecutive_rows(episodes, time_steps, end)[j]),
    decreases end,
{
    if end > 0 {
        law_every_pair_is_evaluated(episodes, time_steps, end - 1);
        let before = consecutive_rows(episodes, time_steps, end - 1);
        let all = consecutive_rows(episodes, time_steps, end);
        assert forall|row: usize| #[trigger] all.contains(row) <==> row < end && consecutive(
            episodes,
            time_steps,
            row as int,
        ) by {
            assert(before.contains(row) <==> row < end - 1 && consecutive(
                episodes,
                time_steps,
                row as int,
            ));
            if before.contains(row) {
                let place = choose|i: int| 0 <= i < before.len() && before[i] == row;
                assert(all[place] == row);
            }
            if all.contains(row) && !before.contains(row) {
                let place = choose|i: int| 0 <= i < all.len() && all[i] == row;
                assert(place < before.len() ==> before[place] == row);
            }
            if row == end - 1 && consecutive(episodes, time_steps, end - 1) {
                assert(all[all.len() - 1] == row);
            }
        }
        assert forall|i: int, j: int| 0 <= i < j < all.len() implies #[trigger] all[i]
            < #[trigger] all[j] by {
            if j == before.len() {
                assert(before.contains(before[i]));
            }
        }
    }
}

/// The two flags of the tool, and the gravity that is taken by default.
pub proof fn law_flags_have_their_names()
    ensures
        flag_table().len() == 2,
        flag_table()[0].name@ == "--dataset-dir"@,
        flag_table()[0].kind == ValueKind::Text,
        flag_table()[1].name@ == "--gravity"@,
        flag_table()[1].kind == ValueKind::Fraction,
        DEFAULT_GRAVITY_KEY == 0x4023_9eb8_6000_0000,
{
}

} // verus!
