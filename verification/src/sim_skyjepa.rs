//! Closed-loop simulation of the SkyJEPA controller on the rotor plant.

use crate::bench_skyjepa::{is_on_ground, touches_ground};
use crate::order::Score;
use crate::paths::{stored, stored_dir};
use vstd::prelude::*;

verus! {

/// The rate of the model, in steps a second.
pub const MODEL_RATE_HZ: usize = 20;

/// The settings of the command line.
#[derive(Clone, Copy, PartialEq, Eq, Structural, Debug)]
pub struct CheckedArgs {
    pub control_steps: usize,
    pub samples: usize,
    pub horizon: usize,
    pub simulation_rate_hz: usize,
    pub radius_m: Score,
    pub period_seconds: Score,
}

/// A simulation rate is a multiple of the model's rate, and not zero.
pub open spec fn fits_model_rate(rate: int) -> bool {
    rate >= MODEL_RATE_HZ && rate % (MODEL_RATE_HZ as int) == 0
}

impl CheckedArgs {
    /// The message of the first check that fails.
    pub open spec fn refusal(self) -> Option<Seq<char>> {
        if self.control_steps == 0 {
            Some("control_steps must be positive"@)
        } else if self.samples == 0 {
            Some("samples must be positive"@)
        } else if self.horizon == 0 {
            Some("horizon must be positive"@)
        } else if !fits_model_rate(self.simulation_rate_hz as int) {
            Some("simulation_rate_hz must be a positive multiple of the 20 Hz model rate"@)
        } else if !self.radius_m.positive() {
            Some("radius_m must be positive"@)
        } else if !self.period_seconds.positive() {
            Some("period_seconds must be positive"@)
        } else {
            None
        }
    }
}

/// Checks the settings of the command line, in order.
pub fn validate_args(args: &CheckedArgs) -> (result: Result<(), &'static str>)
    ensures
        match result {
            Ok(()) => args.refusal() is None,
            Err(message) => args.refusal() == Some(message@),
        },
{
    if args.control_steps == 0 {
        return Err("control_steps must be positive");
    }
    if args.samples == 0 {
        return Err("samples must be positive");
    }
    if args.horizon == 0 {
        return Err("horizon must be positive");
    }
    if args.simulation_rate_hz < MODEL_RATE_HZ || args.simulation_rate_hz % MODEL_RATE_HZ != 0 {
        return Err("simulation_rate_hz must be a positive multiple of the 20 Hz model rate");
    }
    if !args.radius_m.is_positive() {
        return Err("radius_m must be positive");
    }
    if !args.period_seconds.is_positive() {
        return Err("period_seconds must be positive");
    }
    Ok(())
}

/// A control step of the simulation.
#[derive(Clone, Copy, PartialEq, Eq, Structural, Debug)]
pub struct ControlStep {
    pub step: usize,
    /// The step's plan is asked for with the states that it predicts: only the first one's is.
    pub with_prediction: bool,
}

/// A simulation on its way.
#[derive(Clone, Copy, PartialEq, Eq, Structural, Debug)]
pub struct SimulationRun {
    pub control_steps: usize,
    pub steps_done: usize,
    pub ground_contact: bool,
    pub finite: bool,
}

impl SimulationRun {
    /// What holds between the calls of a run.
    pub open spec fn well_formed(self) -> bool {
        self.steps_done <= self.control_steps
    }

    /// A simulation that has not begun.
    pub fn new(control_steps: usize) -> (run: SimulationRun)
        ensures
            run == (SimulationRun {
                control_steps,
                steps_done: 0,
                ground_contact: false,
                finite: true,
            }),
            run.well_formed(),
    {
        SimulationRun { control_steps, steps_done: 0, ground_contact: false, finite: true }
    }

    /// The control step that is due.
    pub open spec fn step_due(self) -> Option<ControlStep> {
        if self.finite && self.steps_done < self.control_steps {
            Some(ControlStep { step: self.steps_done, with_prediction: self.steps_done == 0 })
        } else {
            None
        }
    }

    /// The run behind a control step.
    pub open spec fn after_step(self, touched: bool, finite: bool) -> SimulationRun {
        SimulationRun {
            control_steps: self.control_steps,
            steps_done: (self.steps_done + 1) as usize,
            ground_contact: self.ground_contact || touched,
            finite,
        }
    }

    /// The next control step, or nothing where the run has ended.
    pub fn next(&self) -> (step: Option<ControlStep>)
        requires
            self.well_formed(),
        ensures
            step == self.step_due(),
            step == if self.finite && self.steps_done < self.control_steps {
                Some(
                    ControlStep { step: self.steps_done, with_prediction: self.steps_done == 0 },
                )
            } else {
                None
            },
    {
        if self.finite && self.steps_done < self.control_steps {
            Some(ControlStep { step: self.steps_done, with_prediction: self.steps_done == 0 })
        } else {
            None
        }
    }

    /// Takes in what a control step did: the heights that the plant passed through, and whether
    /// state and action stayed finite. A step that did not stay finite ends the run; it is the
    /// error.
    pub fn stepped(&mut self, heights: &Vec<Score>, finite: bool) -> (result: Result<(), usize>)
        requires
            old(self).well_formed(),
            old(self).finite,
            old(self).steps_done < old(self).control_steps,
        ensures
            final(self).well_formed(),
            *final(self) == old(self).after_step(touches_ground(heights@), finite),
            *final(self) == (SimulationRun {
                control_steps: old(self).control_steps,
                steps_done: (old(self).steps_done + 1) as usize,
                ground_contact: old(self).ground_contact || touches_ground(heights@),
                finite,
            }),
            result == if finite {
                Ok::<(), usize>(())
            } else {
                Err::<(), usize>(old(self).steps_done)
            },
    {
        let step: usize = self.steps_done;
        self.steps_done = step + 1;
        self.ground_contact = is_on_ground(heights) || self.ground_contact;
        self.finite = finite;
        if finite {
            Ok(())
        } else {
            Err(step)
        }
    }
}

/// The planning times that give the steady mean: all but the first, or all where there is no other.
pub fn steady_from(times: usize) -> (first: usize)
    ensures
        first == if times > 1 {
            1usize
        } else {
            0usize
        },
{
    if times > 1 {
        1
    } else {
        0
    }
}

/// The checkpoint that is simulated by default.
pub fn default_checkpoint_dir(home: Option<&str>) -> (path: String)
    ensures
        path@ == stored(home, "le-wm-nv-runs"@, "skyjepa-drone-state18-20hz"@),
{
    stored_dir(home, "le-wm-nv-runs", "skyjepa-drone-state18-20hz")
}

/// The plant runs at a whole multiple of the twenty steps that the model takes in a second.
pub proof fn law_rates_are_multiples_of_the_model_rate(rate: int, substeps: int)
    requires
        rate >= 0,
    ensures
        rate == substeps * 20 && substeps > 0 ==> fits_model_rate(rate),
        fits_model_rate(rate) ==> rate / 20 > 0 && (rate / 20) * 20 == rate,
{
}

/// Settings are accepted exactly where each of them is in its range.
pub proof fn law_accepted_settings_are_in_range(args: CheckedArgs)
    ensures
        args.refusal() is None <==> {
            &&& args.control_steps > 0
            &&& args.samples > 0
            &&& args.horizon > 0
            &&& args.simulation_rate_hz >= 20
            &&& args.simulation_rate_hz % 20 == 0
            &&& args.radius_m.positive()
            &&& args.period_seconds.positive()
        },
{
}

/// A run takes its control steps one by one until all are taken or one is not finite, and plans the
/// first with its prediction. A contact with the ground is never forgotten.
pub proof fn law_runs_take_their_steps_in_order(run: SimulationRun, touched: bool, finite: bool)
    requires
        run.well_formed(),
    ensures
        run.step_due() is None <==> !run.finite || run.steps_done == run.control_steps,
        run.step_due() matches Some(due) ==> {
            let after = run.after_step(touched, finite);
            &&& due.step == run.steps_done
            &&& due.with_prediction <==> due.step == 0
            &&& after.control_steps == run.control_steps
            &&& after.steps_done == due.step + 1
            &&& after.finite == finite
            &&& run.ground_contact || touched ==> after.ground_contact
            &&& after.ground_contact ==> run.ground_contact || touched
        },
{
}

} // verus!
