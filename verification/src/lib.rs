//! Verified logic of the world-model command line tools.

pub mod audit_skyjepa;
pub mod batching;
pub mod bench_drone_closed_loop;
pub mod bench_drone_rollout;
pub mod bench_skyjepa;
pub mod cli;
pub mod counting;
pub mod drone_dynamics_stats;
pub mod drone_fit_plant;
pub mod drone_import;
pub mod drone_oracle_eval;
pub mod drone_planner_eval;
pub mod drone_rollout_eval;
pub mod drone_sim;
pub mod epochs;
pub mod eval_drone;
pub mod eval_drone_checkpoints;
pub mod eval_skyjepa;
pub mod find_drone_rows;
pub mod generate_skyjepa;
pub mod json;
pub mod order;
pub mod paths;
pub mod plan_drone_gates;
pub mod probe_drone_actions;
pub mod ranking;
pub mod recent;
pub mod rng;
pub mod rollout_shapes;
pub mod sim_skyjepa;
pub mod skyjepa_drone_sim;
pub mod text;
pub mod train_drone;
pub mod train_pusht;
pub mod train_skyjepa;
pub mod viewer;
