# lewm_tools

The rules behind a set of command-line tools that train, evaluate and fly latent world models of
drones: the LeWM world model and the SkyJEPA rotor-force model. What the tools decide is written
and proved in Verus; what they compute in floating point, and their input and output, is not.

- `src/` is the verified library. Shared pieces come first: `text` and `paths` (numbers and names
  in strings), `rng` (the seeded generators), `order` and `ranking` (comparing and sorting by the
  keys of floating-point numbers), `batching`, `counting`, `epochs` and `recent` (walks over rows),
  `cli` and `json` (command lines and records), `rollout_shapes`. The other modules are named after
  the tools that they serve: which rows a tool evaluates, in which order a training run moves,
  when it validates, saves and stops, what a run may resume from, how candidates are ranked, which
  arguments are refused and with which message.
- `tests/` runs the library on concrete values.
- `app/` holds eight of the programs around it, with their argument parsing, files, tensors and
  models: `train-skyjepa`, `generate-skyjepa`, `bench-skyjepa`, `plan-drone-gates`, `drone-import`,
  `drone-planner-eval`, `bench-drone-closed-loop` and `find-drone-rows`. The other tools have their
  rules in `src/` only.

Floating-point settings reach the library as `order::Score`: either not a number, or a signed key
that orders as the number does. Every contract that speaks of a threshold speaks of such keys.
