//! Decision logic of a Rocket League reinforcement-learning arena: the
//! discrete action table and its masks, the canonical boost-pad layout,
//! per-tick game events (shots, saves, goals, bumps), episode end
//! conditions, observation layout and the integer cores of the rewards.

pub mod action;
pub mod env;
pub mod episode;
pub mod maps;
pub mod obs;
pub mod reward;
