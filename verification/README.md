# rl_arena

A Rocket League reinforcement-learning arena whose decision logic is
verified with Verus.

- `src/` is the verified library: the discrete action table and its masks
  (`action`), the canonical boost pads and their matching to an arena
  (`env::consts`, `env::state`), bump, goal, shot, pass and save detection
  (`env::events`), episode end conditions (`episode`), the layout of
  observations (`obs`), the integer cores of the rewards (`reward`) and the
  split of the packed collision meshes (`maps`). Every public function has a
  contract; the properties that span functions are proof functions next to
  them.
- `app/` drives the RocketSim simulation: it turns simulated cars and the
  ball into the library's plain values, computes the floating-point
  observations and rewards, keeps the shot cooldown in seconds and runs the
  environment loop (`Env::reset`, `Env::step`).
- `tests/` runs the library on concrete values.

The collision meshes are read at start-up from `maps/soccar.bin`.
