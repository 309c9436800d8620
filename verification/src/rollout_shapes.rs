//! Shapes of the tensors that enter a rollout of candidate actions.

use vstd::prelude::*;

verus! {

/// The width of an action: roll, pitch, throttle and yaw.
pub const ACTION_DIM: usize = 4;

/// The width of a change of state.
pub const STATE_DELTA_DIM: usize = 13;

/// Why the actions of a history cannot lead a rollout.
#[derive(Clone, Copy, PartialEq, Eq, Structural, Debug)]
pub enum PrefixError {
    ShortHistory,
    Batch,
    Time { time: usize, expected: usize },
    ActionDim { action_dim: usize },
}

/// A history of such actions can be cut to the prefix of a rollout.
pub open spec fn can_be_cut(batch: usize, time: usize, action_dim: usize, history_steps: usize) -> bool {
    history_steps >= 2 && batch == 1 && time >= history_steps && action_dim == ACTION_DIM
}

/// A history is cut where it is that of one batch, has two steps or more and as many as are asked for,
/// and its actions have four channels.
pub proof fn law_histories_are_cut_where_they_suffice(
    batch: usize,
    time: usize,
    action_dim: usize,
    history_steps: usize,
)
    ensures
        can_be_cut(batch, time, action_dim, history_steps) <==> batch == 1 && 2 <= history_steps
            <= time && action_dim == 4,
{
}

/// Finds how many actions of a history lead a rollout: all but the last.
pub fn history_action_prefix(
    batch: usize,
    time: usize,
    action_dim: usize,
    history_steps: usize,
) -> (result: Result<usize, PrefixError>)
    ensures
        result is Ok <==> can_be_cut(batch, time, action_dim, history_steps),
        result == if history_steps < 2 {
            Err::<usize, PrefixError>(PrefixError::ShortHistory)
        } else if batch != 1 {
            Err::<usize, PrefixError>(PrefixError::Batch)
        } else if time < history_steps {
            Err::<usize, PrefixError>(PrefixError::Time { time, expected: history_steps })
        } else if action_dim != ACTION_DIM {
            Err::<usize, PrefixError>(PrefixError::ActionDim { action_dim })
        } else {
            Ok::<usize, PrefixError>((history_steps - 1) as usize)
        },
{
    if history_steps < 2 {
        return Err(PrefixError::ShortHistory);
    }
    if batch != 1 {
        return Err(PrefixError::Batch);
    }
    if time < history_steps {
        return Err(PrefixError::Time { time, expected: history_steps });
    }
    if action_dim != ACTION_DIM {
        return Err(PrefixError::ActionDim { action_dim });
    }
    Ok(history_steps - 1)
}

/// A prefix of actions fits a history of embeddings: it is one shorter, and its actions have the
/// expected width.
pub open spec fn fits(prefix_len: int, prefix_dim: int, history: int) -> bool {
    prefix_len + 1 == history && prefix_dim == ACTION_DIM
}

/// Whether a prefix of actions fits a history of embeddings.
pub fn prefix_fits(prefix_len: usize, prefix_dim: usize, history: usize) -> (answer: bool)
    ensures
        answer == fits(prefix_len as int, prefix_dim as int, history as int),
{
    history > 0 && prefix_len == history - 1 && prefix_dim == ACTION_DIM
}

/// The prefix that is cut from a history fits the embeddings of that history.
pub proof fn law_cut_prefix_fits(history_steps: int)
    requires
        history_steps >= 2,
    ensures
        fits(history_steps - 1, ACTION_DIM as int, history_steps),
{
}

/// The steps of a rollout that lie in the future: from the first one behind the history on.
pub fn future_steps(history: usize, horizon: usize) -> (range: (usize, usize))
    requires
        history + horizon <= usize::MAX,
    ensures
        range.0 == history,
        range.1 == history + horizon,
{
    (history, history + horizon)
}

/// Checks that the mean of the actions has the width of an action; the error gives its width.
pub fn check_action_mean(width: usize) -> (result: Result<(), usize>)
    ensures
        result == if width == ACTION_DIM {
            Ok::<(), usize>(())
        } else {
            Err::<(), usize>(width)
        },
{
    if width == ACTION_DIM {
        Ok(())
    } else {
        Err(width)
    }
}

/// The lower bound of a component of an action is zero: that of the throttle. All other lower
/// bounds are minus one, and all upper ones are one.
pub fn bounded_below_by_zero(dim: usize) -> (answer: bool)
    ensures
        answer == (dim == 2),
{
    dim == 2
}

/// A prefix fits a history of one step more and holds four channels.
pub proof fn law_prefixes_are_one_shorter_than_the_history(
    prefix_len: int,
    prefix_dim: int,
    history: int,
)
    ensures
        fits(prefix_len, prefix_dim, history) <==> prefix_len == history - 1 && prefix_dim == 4,
        STATE_DELTA_DIM == 13,
{
}

} // verus!
