//! Training of the image world model on the PushT data.

use crate::epochs::{ensure_eq, ensure_same_optional_path, ensure_same_path, Setting};
use crate::order::Score;
use crate::paths::{home, home_dir, join, joined, same_optional_path, same_path};
use crate::rng::GOLDEN_GAMMA;
use vstd::prelude::*;

verus! {

/// The weights of the parts of the loss.
#[derive(Clone, Copy, PartialEq, Eq, Structural, Debug)]
pub struct LossWeights {
    pub prediction: Score,
    pub temporal_alignment: Score,
    pub std: Score,
    pub std_t: Score,
    pub covariance: Score,
    pub covariance_t: Score,
    pub temporal_straightening: Score,
}

impl Setting for LossWeights {
    open spec fn agrees(&self, other: &Self) -> bool {
        &&& self.prediction.agrees(&other.prediction)
        &&& self.temporal_alignment.agrees(&other.temporal_alignment)
        &&& self.std.agrees(&other.std)
        &&& self.std_t.agrees(&other.std_t)
        &&& self.covariance.agrees(&other.covariance)
        &&& self.covariance_t.agrees(&other.covariance_t)
        &&& self.temporal_straightening.agrees(&other.temporal_straightening)
    }

    fn is_same(&self, other: &Self) -> (answer: bool) {
        self.prediction.is_same(&other.prediction) && self.temporal_alignment.is_same(
            &other.temporal_alignment,
        ) && self.std.is_same(&other.std) && self.std_t.is_same(&other.std_t)
            && self.covariance.is_same(&other.covariance) && self.covariance_t.is_same(
            &other.covariance_t,
        ) && self.temporal_straightening.is_same(&other.temporal_straightening)
    }
}

/// The settings of the command line.
#[derive(Debug)]
pub struct CheckedArgs {
    pub config: Option<String>,
    pub init_safetensors: Option<String>,
    pub resume_dir: Option<String>,
    pub device: String,
    pub dtype: String,
    pub epochs: usize,
    pub max_steps: Option<usize>,
    pub batch_size: usize,
    pub history_size: usize,
    pub action_block: usize,
    pub image_size: usize,
    pub seed: u64,
    pub no_action_normalize: bool,
    pub blosc_threads: u8,
    pub lr: Score,
    pub weight_decay: Score,
    pub log_every: usize,
    pub save_every: usize,
    pub weights: LossWeights,
}

impl CheckedArgs {
    /// The message of the first check that fails.
    pub open spec fn refusal(self) -> Option<Seq<char>> {
        if self.epochs == 0 {
            Some("--epochs must be greater than zero"@)
        } else if self.batch_size == 0 {
            Some("--batch-size must be greater than zero"@)
        } else if self.history_size == 0 {
            Some("--history-size must be greater than zero"@)
        } else if self.action_block == 0 {
            Some("--action-block must be greater than zero"@)
        } else if self.image_size == 0 {
            Some("--image-size must be greater than zero"@)
        } else if self.log_every == 0 {
            Some("--log-every must be greater than zero"@)
        } else if self.max_steps == Some(0usize) {
            Some("--max-steps must be greater than zero"@)
        } else if self.resume_dir is Some && self.init_safetensors is Some {
            Some("--resume-dir and --init-safetensors are mutually exclusive"@)
        } else if !self.lr.positive() {
            Some("--lr must be finite and greater than zero"@)
        } else if !self.weight_decay.non_negative() {
            Some("--weight-decay must be finite and non-negative"@)
        } else if !self.weights.prediction.non_negative() {
            Some("--prediction-weight must be finite and non-negative"@)
        } else if !self.weights.temporal_alignment.non_negative() {
            Some("--temporal-alignment-weight must be finite and non-negative"@)
        } else if !self.weights.std.non_negative() {
            Some("--std-weight must be finite and non-negative"@)
        } else if !self.weights.std_t.non_negative() {
            Some("--std-t-weight must be finite and non-negative"@)
        } else if !self.weights.covariance.non_negative() {
            Some("--covariance-weight must be finite and non-negative"@)
        } else if !self.weights.covariance_t.non_negative() {
            Some("--covariance-t-weight must be finite and non-negative"@)
        } else if !self.weights.temporal_straightening.non_negative() {
            Some("--temporal-straightening-weight must be finite and non-negative"@)
        } else {
            None
        }
    }
}

/// Checks the settings of the command line, in order.
pub fn validate_args(args: &CheckedArgs) -> (result: Result<(), &'static str>)
    ensures
        match result {
            Ok(()) => args.refusal() is None,
            Err(message) => args.refusal() == Some(message@),
        },
{
    if args.epochs == 0 {
        return Err("--epochs must be greater than zero");
    }
    if args.batch_size == 0 {
        return Err("--batch-size must be greater than zero");
    }
    if args.history_size == 0 {
        return Err("--history-size must be greater than zero");
    }
    if args.action_block == 0 {
        return Err("--action-block must be greater than zero");
    }
    if args.image_size == 0 {
        return Err("--image-size must be greater than zero");
    }
    if args.log_every == 0 {
        return Err("--log-every must be greater than zero");
    }
    if let Some(max_steps) = args.max_steps {
        if max_steps == 0 {
            return Err("--max-steps must be greater than zero");
        }
    }
    if args.resume_dir.is_some() && args.init_safetensors.is_some() {
        return Err("--resume-dir and --init-safetensors are mutually exclusive");
    }
    if !args.lr.is_positive() {
        return Err("--lr must be finite and greater than zero");
    }
    if !args.weight_decay.is_non_negative() {
        return Err("--weight-decay must be finite and non-negative");
    }
    if !args.weights.prediction.is_non_negative() {
        return Err("--prediction-weight must be finite and non-negative");
    }
    if !args.weights.temporal_alignment.is_non_negative() {
        return Err("--temporal-alignment-weight must be finite and non-negative");
    }
    if !args.weights.std.is_non_negative() {
        return Err("--std-weight must be finite and non-negative");
    }
    if !args.weights.std_t.is_non_negative() {
        return Err("--std-t-weight must be finite and non-negative");
    }
    if !args.weights.covariance.is_non_negative() {
        return Err("--covariance-weight must be finite and non-negative");
    }
    if !args.weights.covariance_t.is_non_negative() {
        return Err("--covariance-t-weight must be finite and non-negative");
    }
    if !args.weights.temporal_straightening.is_non_negative() {
        return Err("--temporal-straightening-weight must be finite and non-negative");
    }
    Ok(())
}

/// The settings that a run saves beside its weights.
#[derive(Debug)]
pub struct RunSettings {
    pub dataset_h5: String,
    pub config: Option<String>,
    pub init_safetensors: Option<String>,
    pub device: String,
    pub dtype: String,
    pub epochs: usize,
    pub max_steps: Option<usize>,
    pub batch_size: usize,
    pub history_size: usize,
    pub action_block: usize,
    pub image_size: usize,
    pub seed: u64,
    pub normalize_actions: bool,
    pub blosc_threads: u8,
    pub lr: Score,
    pub weight_decay: Score,
    pub log_every: usize,
    pub save_every: usize,
    pub loss_weights: LossWeights,
}

impl RunSettings {
    /// The settings are those that the command line asks for.
    pub open spec fn requested_by(self, args: CheckedArgs, dataset_h5: Seq<char>) -> bool {
        &&& self.dataset_h5@ == dataset_h5
        &&& self.config == args.config
        &&& self.device == args.device
        &&& self.dtype == args.dtype
        &&& self.epochs == args.epochs
        &&& self.max_steps == args.max_steps
        &&& self.batch_size == args.batch_size
        &&& self.history_size == args.history_size
        &&& self.action_block == args.action_block
        &&& self.image_size == args.image_size
        &&& self.seed == args.seed
        &&& self.normalize_actions != args.no_action_normalize
        &&& self.lr == args.lr
        &&& self.weight_decay == args.weight_decay
        &&& self.loss_weights == args.weights
    }

    /// The settings that the command line and the data file give.
    pub fn from_args(args: CheckedArgs, dataset_h5: String) -> (run: RunSettings)
        ensures
            run.requested_by(args, dataset_h5@),
            run == (RunSettings {
                dataset_h5,
                config: args.config,
                init_safetensors: args.init_safetensors,
                device: args.device,
                dtype: args.dtype,
                epochs: args.epochs,
                max_steps: args.max_steps,
                batch_size: args.batch_size,
                history_size: args.history_size,
                action_block: args.action_block,
                image_size: args.image_size,
                seed: args.seed,
                normalize_actions: !args.no_action_normalize,
                blosc_threads: args.blosc_threads,
                lr: args.lr,
                weight_decay: args.weight_decay,
                log_every: args.log_every,
                save_every: args.save_every,
                loss_weights: args.weights,
            }),
    {
        RunSettings {
            dataset_h5,
            config: args.config,
            init_safetensors: args.init_safetensors,
            device: args.device,
            dtype: args.dtype,
            epochs: args.epochs,
            max_steps: args.max_steps,
            batch_size: args.batch_size,
            history_size: args.history_size,
            action_block: args.action_block,
            image_size: args.image_size,
            seed: args.seed,
            normalize_actions: !args.no_action_normalize,
            blosc_threads: args.blosc_threads,
            lr: args.lr,
            weight_decay: args.weight_decay,
            log_every: args.log_every,
            save_every: args.save_every,
            loss_weights: args.weights,
        }
    }

    /// The name of the first setting on which two runs disagree.
    pub open spec fn conflict(self, saved: RunSettings) -> Option<Seq<char>> {
        if !same_path(self.dataset_h5@, saved.dataset_h5@) {
            Some("dataset_h5"@)
        } else if !same_optional_path(self.config, saved.config) {
            Some("config"@)
        } else if !self.device.agrees(&saved.device) {
            Some("device"@)
        } else if !self.dtype.agrees(&saved.dtype) {
            Some("dtype"@)
        } else if self.batch_size != saved.batch_size {
            Some("batch_size"@)
        } else if self.history_size != saved.history_size {
            Some("history_size"@)
        } else if self.action_block != saved.action_block {
            Some("action_block"@)
        } else if self.image_size != saved.image_size {
            Some("image_size"@)
        } else if self.seed != saved.seed {
            Some("seed"@)
        } else if self.normalize_actions != saved.normalize_actions {
            Some("normalize_actions"@)
        } else if !self.lr.agrees(&saved.lr) {
            Some("lr"@)
        } else if !self.weight_decay.agrees(&saved.weight_decay) {
            Some("weight_decay"@)
        } else if !self.loss_weights.agrees(&saved.loss_weights) {
            Some("loss_weights"@)
        } else {
            None
        }
    }
}

/// Checks that a saved run can be taken up with the current settings.
pub fn ensure_resume_compatible(current: &RunSettings, saved: &RunSettings) -> (result: Result<
    (),
    &'static str,
>)
    ensures
        match result {
            Ok(()) => current.conflict(*saved) is None,
            Err(name) => current.conflict(*saved) == Some(name@),
        },
{
    ensure_same_path("dataset_h5", current.dataset_h5.as_str(), saved.dataset_h5.as_str())?;
    ensure_same_optional_path("config", &current.config, &saved.config)?;
    ensure_eq("device", &current.device, &saved.device)?;
    ensure_eq("dtype", &current.dtype, &saved.dtype)?;
    ensure_eq("batch_size", &current.batch_size, &saved.batch_size)?;
    ensure_eq("history_size", &current.history_size, &saved.history_size)?;
    ensure_eq("action_block", &current.action_block, &saved.action_block)?;
    ensure_eq("image_size", &current.image_size, &saved.image_size)?;
    ensure_eq("seed", &current.seed, &saved.seed)?;
    ensure_eq("normalize_actions", &current.normalize_actions, &saved.normalize_actions)?;
    ensure_eq("lr", &current.lr, &saved.lr)?;
    ensure_eq("weight_decay", &current.weight_decay, &saved.weight_decay)?;
    ensure_eq("loss_weights", &current.loss_weights, &saved.loss_weights)?;
    Ok(())
}

/// A run of checked settings can be taken up with the same settings, also where it is given other
/// epochs, another limit, or other intervals of logging and saving, or where the same paths are
/// written otherwise.
pub proof fn law_runs_can_be_extended(
    args: CheckedArgs,
    later: RunSettings,
    saved: RunSettings,
    current: RunSettings,
)
    requires
        args.refusal() is None,
        saved.lr == args.lr,
        saved.weight_decay == args.weight_decay,
        saved.loss_weights == args.weights,
        same_path(later.dataset_h5@, saved.dataset_h5@),
        same_optional_path(later.config, saved.config),
        current == (RunSettings {
            dataset_h5: later.dataset_h5,
            config: later.config,
            init_safetensors: later.init_safetensors,
            epochs: later.epochs,
            max_steps: later.max_steps,
            blosc_threads: later.blosc_threads,
            log_every: later.log_every,
            save_every: later.save_every,
            ..saved
        }),
    ensures
        current.conflict(saved) is None,
{
}

/// The seed of an epoch's order.
pub open spec fn epoch_seed_of(seed: u64, epoch: u64) -> u64 {
    seed.wrapping_add(epoch.wrapping_mul(GOLDEN_GAMMA))
}

/// Derives the seed of an epoch's order.
pub fn epoch_seed(seed: u64, epoch: usize) -> (derived: u64)
    ensures
        derived == epoch_seed_of(seed, epoch as u64),
{
    seed.wrapping_add((epoch as u64).wrapping_mul(GOLDEN_GAMMA))
}

/// Different epochs get different seeds.
pub proof fn law_epoch_seeds_differ(seed: u64, first: u64, second: u64)
    requires
        first != second,
    ensures
        epoch_seed_of(seed, first) != epoch_seed_of(seed, second),
{
    crate::rng::lemma_spread_differs(first, second);
}

/// The sizes that a model's configuration and the data must agree on.
#[derive(Clone, Copy, PartialEq, Eq, Structural, Debug)]
pub struct ModelSizes {
    pub action_dim: usize,
    pub history_size: usize,
    pub num_frames: usize,
    pub image_size: usize,
}

/// Where a configuration does not fit the data.
#[derive(Clone, Copy, PartialEq, Eq, Structural, Debug)]
pub enum ModelError {
    ActionDim,
    HistorySize,
    NumFrames,
    ImageSize,
}

/// The sizes of the configuration that is taken where none is given.
pub fn default_sizes(action_dim: usize, history_size: usize, image_size: usize) -> (sizes:
    ModelSizes)
    ensures
        sizes == (ModelSizes { action_dim, history_size, num_frames: history_size, image_size }),
{
    ModelSizes { action_dim, history_size, num_frames: history_size, image_size }
}

/// Checks that a configuration fits the data.
pub fn validate_model_config(
    config: &ModelSizes,
    action_dim: usize,
    history_size: usize,
    image_size: usize,
) -> (result: Result<(), ModelError>)
    ensures
        match result {
            Ok(()) => *config == (ModelSizes {
                action_dim,
                history_size,
                num_frames: history_size,
                image_size,
            }),
            Err(ModelError::ActionDim) => config.action_dim != action_dim,
            Err(ModelError::HistorySize) => config.action_dim == action_dim && config.history_size
                != history_size,
            Err(ModelError::NumFrames) => config.action_dim == action_dim && config.history_size
                == history_size && config.num_frames != history_size,
            Err(ModelError::ImageSize) => config.action_dim == action_dim && config.history_size
                == history_size && config.num_frames == history_size && config.image_size
                != image_size,
        },
{
    if config.action_dim != action_dim {
        return Err(ModelError::ActionDim);
    }
    if config.history_size != history_size {
        return Err(ModelError::HistorySize);
    }
    if config.num_frames != history_size {
        return Err(ModelError::NumFrames);
    }
    if config.image_size != image_size {
        return Err(ModelError::ImageSize);
    }
    Ok(())
}

/// The data file that is trained on by default.
pub fn default_pusht_dataset_path(home_value: Option<&str>) -> (path: String)
    ensures
        path@ == joined(
            joined(home(home_value), ".stable_worldmodel"@),
            "pusht_expert_train.h5"@,
        ),
{
    join(
        join(home_dir(home_value).as_str(), ".stable_worldmodel").as_str(),
        "pusht_expert_train.h5",
    )
}

/// Settings are accepted exactly where each of them is in its range and a run is not both resumed and
/// begun from weights.
pub proof fn law_accepted_settings_are_in_range(args: CheckedArgs)
    ensures
        args.refusal() is None <==> {
            &&& args.epochs > 0
            &&& args.batch_size > 0
            &&& args.history_size > 0
            &&& args.action_block > 0
            &&& args.image_size > 0
            &&& args.log_every > 0
            &&& args.max_steps matches Some(limit) ==> limit > 0
            &&& args.resume_dir is None || args.init_safetensors is None
            &&& args.lr.positive()
            &&& args.weight_decay.non_negative()
            &&& args.weights.prediction.non_negative()
            &&& args.weights.temporal_alignment.non_negative()
            &&& args.weights.std.non_negative()
            &&& args.weights.std_t.non_negative()
            &&& args.weights.covariance.non_negative()
            &&& args.weights.covariance_t.non_negative()
            &&& args.weights.temporal_straightening.non_negative()
        },
{
}

/// The two numbers are equal.
pub open spec fn equal_numbers(first: Score, second: Score) -> bool {
    first is Key && first == second
}

/// A run is resumed only with the data, the configuration and the numbers that it was begun with.
pub proof fn law_resumed_runs_keep_their_settings(current: RunSettings, saved: RunSettings)
    ensures
        current.conflict(saved) is None <==> {
            &&& same_path(current.dataset_h5@, saved.dataset_h5@)
            &&& same_optional_path(current.config, saved.config)
            &&& current.device@ == saved.device@
            &&& current.dtype@ == saved.dtype@
            &&& current.batch_size == saved.batch_size
            &&& current.history_size == saved.history_size
            &&& current.action_block == saved.action_block
            &&& current.image_size == saved.image_size
            &&& current.seed == saved.seed
            &&& current.normalize_actions == saved.normalize_actions
            &&& equal_numbers(current.lr, saved.lr)
            &&& equal_numbers(current.weight_decay, saved.weight_decay)
            &&& equal_numbers(current.loss_weights.prediction, saved.loss_weights.prediction)
            &&& equal_numbers(
                current.loss_weights.temporal_alignment,
                saved.loss_weights.temporal_alignment,
            )
            &&& equal_numbers(current.loss_weights.std, saved.loss_weights.std)
            &&& equal_numbers(current.loss_weights.std_t, saved.loss_weights.std_t)
            &&& equal_numbers(current.loss_weights.covariance, saved.loss_weights.covariance)
            &&& equal_numbers(current.loss_weights.covariance_t, saved.loss_weights.covariance_t)
            &&& equal_numbers(
                current.loss_weights.temporal_straightening,
                saved.loss_weights.temporal_straightening,
            )
        },
{
}

/// The first epoch has the run's own seed.
pub proof fn law_first_epoch_has_the_seed_of_the_run(seed: u64)
    ensures
        epoch_seed_of(seed, 0) == seed,
{
    assert(0u64.wrapping_mul(GOLDEN_GAMMA) == 0);
}

/// A run that is asked for again by the same command line, on the same data, goes on with what was
/// saved; one with other actions, another seed or another rate does not.
pub proof fn law_the_same_command_line_resumes_a_run(
    args: CheckedArgs,
    other: CheckedArgs,
    dataset_h5: Seq<char>,
    current: RunSettings,
    saved: RunSettings,
)
    requires
        args.refusal() is None,
        current.requested_by(args, dataset_h5),
        saved.requested_by(other, dataset_h5),
    ensures
        args == other ==> current.conflict(saved) is None,
        args.seed != other.seed ==> current.conflict(saved) is Some,
        args.no_action_normalize != other.no_action_normalize ==> current.conflict(saved) is Some,
        args.batch_size != other.batch_size ==> current.conflict(saved) is Some,
        args.lr != other.lr ==> current.conflict(saved) is Some,
{
}

} // verus!
