//! Training of the state world model on recorded drone flights.

use crate::epochs::{ensure_eq, ensure_same_optional_path, ensure_same_path, Setting};
use crate::order::Score;
use crate::paths::{same_optional_path, same_path, stored, stored_dir};
use crate::train_pusht::{equal_numbers, ModelSizes};
use vstd::prelude::*;

verus! {

/// Counts the frames of a training window: the history, the horizon and the frame between them.
pub fn sequence_steps(history_steps: usize, horizon_steps: usize) -> (result: Result<
    usize,
    &'static str,
>)
    ensures
        match result {
            Ok(steps) => steps == history_steps + horizon_steps + 1,
            Err(message) => history_steps + horizon_steps + 1 > usize::MAX && message@
                == "history_steps + horizon_steps + 1 overflowed"@,
        },
{
    match history_steps.checked_add(horizon_steps) {
        Some(sum) => match sum.checked_add(1) {
            Some(steps) => Ok(steps),
            None => Err("history_steps + horizon_steps + 1 overflowed"),
        },
        None => Err("history_steps + horizon_steps + 1 overflowed"),
    }
}

/// The rows that a run trains on, by the name that it reports.
pub fn row_source(train_all_data: bool) -> (name: &'static str)
    ensures
        name@ == if train_all_data {
            "all_valid_rows"@
        } else {
            "metadata_train_episodes"@
        },
{
    if train_all_data {
        "all_valid_rows"
    } else {
        "metadata_train_episodes"
    }
}

/// What of the data is normalised.
#[derive(Clone, Copy, PartialEq, Eq, Structural, Debug)]
pub struct NormalizationFlags {
    pub observations: bool,
    pub actions: bool,
    pub targets: bool,
}

impl Setting for NormalizationFlags {
    open spec fn agrees(&self, other: &Self) -> bool {
        *self == *other
    }

    fn is_same(&self, other: &Self) -> (answer: bool) {
        self.observations == other.observations && self.actions == other.actions && self.targets
            == other.targets
    }
}

/// The weights of the parts of the loss.
#[derive(Clone, Copy, PartialEq, Eq, Structural, Debug)]
pub struct LossWeights {
    pub state_prediction: Score,
    pub temporal_alignment: Score,
    pub std: Score,
    pub std_t: Score,
    pub covariance: Score,
    pub covariance_t: Score,
    pub temporal_straightening: Score,
}

/// The settings of the command line.
#[derive(Debug)]
pub struct CheckedArgs {
    pub config: Option<String>,
    pub init_safetensors: Option<String>,
    pub resume_dir: Option<String>,
    pub device: String,
    pub dtype: String,
    pub epochs: usize,
    pub max_steps: Option<usize>,
    pub train_all_data: bool,
    pub batch_size: usize,
    pub history_steps: usize,
    pub horizon_steps: usize,
    pub seed: u64,
    pub no_observation_normalize: bool,
    pub no_action_normalize: bool,
    pub no_target_normalize: bool,
    pub lr: Score,
    pub weight_decay: Score,
    pub log_every: usize,
    pub save_every: usize,
    pub weights: LossWeights,
}

impl CheckedArgs {
    /// The message of the first check that fails.
    pub open spec fn refusal(self) -> Option<Seq<char>> {
        if self.epochs == 0 {
            Some("--epochs must be greater than zero"@)
        } else if self.batch_size == 0 {
            Some("--batch-size must be greater than zero"@)
        } else if self.history_steps == 0 {
            Some("--history-steps must be greater than zero"@)
        } else if self.horizon_steps == 0 {
            Some("--horizon-steps must be greater than zero"@)
        } else if self.log_every == 0 {
            Some("--log-every must be greater than zero"@)
        } else if self.max_steps == Some(0usize) {
            Some("--max-steps must be greater than zero"@)
        } else if self.resume_dir is Some && self.init_safetensors is Some {
            Some("--resume-dir and --init-safetensors are mutually exclusive"@)
        } else if !self.lr.positive() {
            Some("--lr must be finite and greater than zero"@)
        } else if !self.weight_decay.non_negative() {
            Some("--weight-decay must be finite and non-negative"@)
        } else {
            None
        }
    }
}

/// Checks the settings of the command line, in order.
pub fn validate_args(args: &CheckedArgs) -> (result: Result<(), &'static str>)
    ensures
        match result {
            Ok(()) => args.refusal() is None,
            Err(message) => args.refusal() == Some(message@),
        },
{
    if args.epochs == 0 {
        return Err("--epochs must be greater than zero");
    }
    if args.batch_size == 0 {
        return Err("--batch-size must be greater than zero");
    }
    if args.history_steps == 0 {
        return Err("--history-steps must be greater than zero");
    }
    if args.horizon_steps == 0 {
        return Err("--horizon-steps must be greater than zero");
    }
    if args.log_every == 0 {
        return Err("--log-every must be greater than zero");
    }
    if let Some(max_steps) = args.max_steps {
        if max_steps == 0 {
            return Err("--max-steps must be greater than zero");
        }
    }
    if args.resume_dir.is_some() && args.init_safetensors.is_some() {
        return Err("--resume-dir and --init-safetensors are mutually exclusive");
    }
    if !args.lr.is_positive() {
        return Err("--lr must be finite and greater than zero");
    }
    if !args.weight_decay.is_non_negative() {
        return Err("--weight-decay must be finite and non-negative");
    }
    Ok(())
}

/// The settings that a run saves beside its weights.
#[derive(Debug)]
pub struct RunSettings {
    pub dataset_dir: String,
    pub output_dir: String,
    pub config: Option<String>,
    pub init_safetensors: Option<String>,
    pub device: String,
    pub dtype: String,
    pub epochs: usize,
    pub max_steps: Option<usize>,
    pub train_all_data: bool,
    pub batch_size: usize,
    pub history_steps: usize,
    pub horizon_steps: usize,
    pub sequence_steps: usize,
    pub seed: u64,
    pub normalization: NormalizationFlags,
    pub lr: Score,
    pub weight_decay: Score,
    pub log_every: usize,
    pub save_every: usize,
    pub loss_weights: LossWeights,
}

impl RunSettings {
    /// The settings are those that the command line asks for.
    pub open spec fn requested_by(self, args: CheckedArgs, dataset_dir: Seq<char>) -> bool {
        &&& self.dataset_dir@ == dataset_dir
        &&& self.config == args.config
        &&& self.device == args.device
        &&& self.dtype == args.dtype
        &&& self.epochs == args.epochs
        &&& self.max_steps == args.max_steps
        &&& self.train_all_data == args.train_all_data
        &&& self.batch_size == args.batch_size
        &&& self.history_steps == args.history_steps
        &&& self.horizon_steps == args.horizon_steps
        &&& self.seed == args.seed
        &&& self.normalization.observations != args.no_observation_normalize
        &&& self.normalization.actions != args.no_action_normalize
        &&& self.normalization.targets != args.no_target_normalize
        &&& self.lr == args.lr
        &&& self.weight_decay == args.weight_decay
        &&& self.loss_weights == args.weights
    }

    /// The settings that the command line and the two directories give.
    pub fn from_args(
        args: CheckedArgs,
        dataset_dir: String,
        output_dir: String,
        sequence_steps: usize,
    ) -> (run: RunSettings)
        ensures
            run.requested_by(args, dataset_dir@),
            run == (RunSettings {
                dataset_dir,
                output_dir,
                config: args.config,
                init_safetensors: args.init_safetensors,
                device: args.device,
                dtype: args.dtype,
                epochs: args.epochs,
                max_steps: args.max_steps,
                train_all_data: args.train_all_data,
                batch_size: args.batch_size,
                history_steps: args.history_steps,
                horizon_steps: args.horizon_steps,
                sequence_steps,
                seed: args.seed,
                normalization: NormalizationFlags {
                    observations: !args.no_observation_normalize,
                    actions: !args.no_action_normalize,
                    targets: !args.no_target_normalize,
                },
                lr: args.lr,
                weight_decay: args.weight_decay,
                log_every: args.log_every,
                save_every: args.save_every,
                loss_weights: args.weights,
            }),
    {
        RunSettings {
            dataset_dir,
            output_dir,
            config: args.config,
            init_safetensors: args.init_safetensors,
            device: args.device,
            dtype: args.dtype,
            epochs: args.epochs,
            max_steps: args.max_steps,
            train_all_data: args.train_all_data,
            batch_size: args.batch_size,
            history_steps: args.history_steps,
            horizon_steps: args.horizon_steps,
            sequence_steps,
            seed: args.seed,
            normalization: NormalizationFlags {
                observations: !args.no_observation_normalize,
                actions: !args.no_action_normalize,
                targets: !args.no_target_normalize,
            },
            lr: args.lr,
            weight_decay: args.weight_decay,
            log_every: args.log_every,
            save_every: args.save_every,
            loss_weights: args.weights,
        }
    }

    /// The name of the first setting on which two runs disagree.
    pub open spec fn conflict(self, saved: RunSettings) -> Option<Seq<char>> {
        if !same_path(self.dataset_dir@, saved.dataset_dir@) {
            Some("dataset_dir"@)
        } else if !same_optional_path(self.config, saved.config) {
            Some("config"@)
        } else if !self.device.agrees(&saved.device) {
            Some("device"@)
        } else if !self.dtype.agrees(&saved.dtype) {
            Some("dtype"@)
        } else if self.batch_size != saved.batch_size {
            Some("batch_size"@)
        } else if self.train_all_data != saved.train_all_data {
            Some("train_all_data"@)
        } else if self.history_steps != saved.history_steps {
            Some("history_steps"@)
        } else if self.horizon_steps != saved.horizon_steps {
            Some("horizon_steps"@)
        } else if self.sequence_steps != saved.sequence_steps {
            Some("sequence_steps"@)
        } else if self.seed != saved.seed {
            Some("seed"@)
        } else if self.normalization != saved.normalization {
            Some("normalization"@)
        } else if !self.lr.agrees(&saved.lr) {
            Some("lr"@)
        } else if !self.weight_decay.agrees(&saved.weight_decay) {
            Some("weight_decay"@)
        } else {
            None
        }
    }
}

/// Checks that a saved run can be taken up with the current settings.
pub fn ensure_resume_compatible(current: &RunSettings, saved: &RunSettings) -> (result: Result<
    (),
    &'static str,
>)
    ensures
        match result {
            Ok(()) => current.conflict(*saved) is None,
            Err(name) => current.conflict(*saved) == Some(name@),
        },
{
    ensure_same_path("dataset_dir", current.dataset_dir.as_str(), saved.dataset_dir.as_str())?;
    ensure_same_optional_path("config", &current.config, &saved.config)?;
    ensure_eq("device", &current.device, &saved.device)?;
    ensure_eq("dtype", &current.dtype, &saved.dtype)?;
    ensure_eq("batch_size", &current.batch_size, &saved.batch_size)?;
    ensure_eq("train_all_data", &current.train_all_data, &saved.train_all_data)?;
    ensure_eq("history_steps", &current.history_steps, &saved.history_steps)?;
    ensure_eq("horizon_steps", &current.horizon_steps, &saved.horizon_steps)?;
    ensure_eq("sequence_steps", &current.sequence_steps, &saved.sequence_steps)?;
    ensure_eq("seed", &current.seed, &saved.seed)?;
    ensure_eq("normalization", &current.normalization, &saved.normalization)?;
    ensure_eq("lr", &current.lr, &saved.lr)?;
    ensure_eq("weight_decay", &current.weight_decay, &saved.weight_decay)?;
    Ok(())
}

/// A run of checked settings can be taken up with the same settings, also where it is given
/// another output directory, other epochs, another limit, other intervals of logging and saving, or
/// other weights of the loss, or where the same paths are written otherwise.
pub proof fn law_runs_can_be_extended(
    args: CheckedArgs,
    later: RunSettings,
    saved: RunSettings,
    current: RunSettings,
)
    requires
        args.refusal() is None,
        saved.lr == args.lr,
        saved.weight_decay == args.weight_decay,
        same_path(later.dataset_dir@, saved.dataset_dir@),
        same_optional_path(later.config, saved.config),
        current == (RunSettings {
            dataset_dir: later.dataset_dir,
            config: later.config,
            output_dir: later.output_dir,
            init_safetensors: later.init_safetensors,
            epochs: later.epochs,
            max_steps: later.max_steps,
            log_every: later.log_every,
            save_every: later.save_every,
            loss_weights: later.loss_weights,
            ..saved
        }),
    ensures
        current.conflict(saved) is None,
{
}

/// The sizes of the model that is trained: those of its configuration, but for the history and the
/// frames, which are those of the data.
pub fn trained_sizes(config: &ModelSizes, history_steps: usize, sequence_steps: usize) -> (sizes:
    ModelSizes)
    ensures
        sizes == (ModelSizes {
            action_dim: config.action_dim,
            history_size: history_steps,
            num_frames: sequence_steps,
            image_size: config.image_size,
        }),
{
    ModelSizes {
        action_dim: config.action_dim,
        history_size: history_steps,
        num_frames: sequence_steps,
        image_size: config.image_size,
    }
}

/// The data set that is trained on by default.
pub fn default_dataset_dir(home: Option<&str>) -> (path: String)
    ensures
        path@ == stored(home, "le-wm-nv-data"@, "drone-racing-autonomous-100hz"@),
{
    stored_dir(home, "le-wm-nv-data", "drone-racing-autonomous-100hz")
}

/// The directory that a run is written to by default.
pub fn default_output_dir(home: Option<&str>) -> (path: String)
    ensures
        path@ == stored(home, "le-wm-nv-runs"@, "drone-state-lewm-autonomous-100hz"@),
{
    stored_dir(home, "le-wm-nv-runs", "drone-state-lewm-autonomous-100hz")
}

/// Settings are accepted exactly where each of them is in its range and a run is not both resumed and
/// begun from weights.
pub proof fn law_accepted_settings_are_in_range(args: CheckedArgs)
    ensures
        args.refusal() is None <==> {
            &&& args.epochs > 0
            &&& args.batch_size > 0
            &&& args.history_steps > 0
            &&& args.horizon_steps > 0
            &&& args.log_every > 0
            &&& args.max_steps matches Some(limit) ==> limit > 0
            &&& args.resume_dir is None || args.init_safetensors is None
            &&& args.lr.positive()
            &&& args.weight_decay.non_negative()
        },
{
}

/// A run is resumed only with the data, the configuration and the numbers that it was begun with.
pub proof fn law_resumed_runs_keep_their_settings(current: RunSettings, saved: RunSettings)
    ensures
        current.conflict(saved) is None <==> {
            &&& same_path(current.dataset_dir@, saved.dataset_dir@)
            &&& same_optional_path(current.config, saved.config)
            &&& current.device@ == saved.device@
            &&& current.dtype@ == saved.dtype@
            &&& current.batch_size == saved.batch_size
            &&& current.train_all_data == saved.train_all_data
            &&& current.history_steps == saved.history_steps
            &&& current.horizon_steps == saved.horizon_steps
            &&& current.sequence_steps == saved.sequence_steps
            &&& current.seed == saved.seed
            &&& current.normalization.observations == saved.normalization.observations
            &&& current.normalization.actions == saved.normalization.actions
            &&& current.normalization.targets == saved.normalization.targets
            &&& equal_numbers(current.lr, saved.lr)
            &&& equal_numbers(current.weight_decay, saved.weight_decay)
        },
{
}

/// A run that is asked for again by the same command line, on the same data and with the same windows,
/// goes on with what was saved; one with another normalization, seed or rate does not.
pub proof fn law_the_same_command_line_resumes_a_run(
    args: CheckedArgs,
    other: CheckedArgs,
    dataset_dir: Seq<char>,
    current: RunSettings,
    saved: RunSettings,
)
    requires
        args.refusal() is None,
        current.requested_by(args, dataset_dir),
        saved.requested_by(other, dataset_dir),
        current.sequence_steps == saved.sequence_steps,
    ensures
        args == other ==> current.conflict(saved) is None,
        args.seed != other.seed ==> current.conflict(saved) is Some,
        args.no_observation_normalize != other.no_observation_normalize ==> current.conflict(saved)
            is Some,
        args.no_action_normalize != other.no_action_normalize ==> current.conflict(saved) is Some,
        args.no_target_normalize != other.no_target_normalize ==> current.conflict(saved) is Some,
        args.lr != other.lr ==> current.conflict(saved) is Some,
{
}

} // verus!
