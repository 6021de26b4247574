use vstd::prelude::*;

use crate::env::state::{PlayerEvents, Team};

verus! {

/// The per-player value of an event reward: 1 when the event happened
/// (-1 for a penalty), else 0.
pub open spec fn event_value(happened: bool, negative: bool) -> i8 {
    if !happened {
        0
    } else if negative {
        -1i8
    } else {
        1
    }
}

pub open spec fn flag(b: bool) -> u8 {
    if b {
        1
    } else {
        0
    }
}

/// Rewards the player credited with a goal: the last toucher of the scoring team.
pub struct PlayerGoalReward;

impl PlayerGoalReward {
    pub fn new() -> (res: Self)
        ensures
            res == PlayerGoalReward,
    {
        PlayerGoalReward
    }

    pub fn player_value(&self, events: &PlayerEvents) -> (res: i8)
        ensures
            res == event_value(events.goal, false),
    {
        if events.goal {
            1
        } else {
            0
        }
    }
}

impl Default for PlayerGoalReward {
    fn default() -> (res: Self)
        ensures
            res == PlayerGoalReward,
    {
        Self::new()
    }
}

/// Rewards the player credited with an assist.
pub struct AssistReward;

impl AssistReward {
    pub fn new() -> (res: Self)
        ensures
            res == AssistReward,
    {
        AssistReward
    }

    pub fn player_value(&self, events: &PlayerEvents) -> (res: i8)
        ensures
            res == event_value(events.assist, false),
    {
        if events.assist {
            1
        } else {
            0
        }
    }
}

impl Default for AssistReward {
    fn default() -> (res: Self)
        ensures
            res == AssistReward,
    {
        Self::new()
    }
}

/// Rewards the player credited with a shot.
pub struct ShotReward;

impl ShotReward {
    pub fn new() -> (res: Self)
        ensures
            res == ShotReward,
    {
        ShotReward
    }

    pub fn player_value(&self, events: &PlayerEvents) -> (res: i8)
        ensures
            res == event_value(events.shot, false),
    {
        if events.shot {
            1
        } else {
            0
        }
    }
}

impl Default for ShotReward {
    fn default() -> (res: Self)
        ensures
            res == ShotReward,
    {
        Self::new()
    }
}

/// Rewards the player who passed to the shooter.
pub struct ShotPassReward;

impl ShotPassReward {
    pub fn new() -> (res: Self)
        ensures
            res == ShotPassReward,
    {
        ShotPassReward
    }

    pub fn player_value(&self, events: &PlayerEvents) -> (res: i8)
        ensures
            res == event_value(events.shot_pass, false),
    {
        if events.shot_pass {
            1
        } else {
            0
        }
    }
}

impl Default for ShotPassReward {
    fn default() -> (res: Self)
        ensures
            res == ShotPassReward,
    {
        Self::new()
    }
}

/// Rewards the player credited with a save.
pub struct SaveReward;

impl SaveReward {
    pub fn new() -> (res: Self)
        ensures
            res == SaveReward,
    {
        SaveReward
    }

    pub fn player_value(&self, events: &PlayerEvents) -> (res: i8)
        ensures
            res == event_value(events.save, false),
    {
        if events.save {
            1
        } else {
            0
        }
    }
}

impl Default for SaveReward {
    fn default() -> (res: Self)
        ensures
            res == SaveReward,
    {
        Self::new()
    }
}

/// Rewards bumping an opponent.
pub struct BumpReward;

impl BumpReward {
    pub fn new() -> (res: Self)
        ensures
            res == BumpReward,
    {
        BumpReward
    }

    pub fn player_value(&self, events: &PlayerEvents) -> (res: i8)
        ensures
            res == event_value(events.bump, false),
    {
        if events.bump {
            1
        } else {
            0
        }
    }
}

impl Default for BumpReward {
    fn default() -> (res: Self)
        ensures
            res == BumpReward,
    {
        Self::new()
    }
}

/// Penalizes being bumped by an opponent.
pub struct BumpedPenalty;

impl BumpedPenalty {
    pub fn new() -> (res: Self)
        ensures
            res == BumpedPenalty,
    {
        BumpedPenalty
    }

    pub fn player_value(&self, events: &PlayerEvents) -> (res: i8)
        ensures
            res == event_value(events.bumped, true),
    {
        if events.bumped {
            -1
        } else {
            0
        }
    }
}

impl Default for BumpedPenalty {
    fn default() -> (res: Self)
        ensures
            res == BumpedPenalty,
    {
        Self::new()
    }
}

/// Rewards demolishing an opponent.
pub struct DemoReward;

impl DemoReward {
    pub fn new() -> (res: Self)
        ensures
            res == DemoReward,
    {
        DemoReward
    }

    pub fn player_value(&self, events: &PlayerEvents) -> (res: i8)
        ensures
            res == event_value(events.demo, false),
    {
        if events.demo {
            1
        } else {
            0
        }
    }
}

impl Default for DemoReward {
    fn default() -> (res: Self)
        ensures
            res == DemoReward,
    {
        Self::new()
    }
}

/// Penalizes being demolished.
pub struct DemoedPenalty;

impl DemoedPenalty {
    pub fn new() -> (res: Self)
        ensures
            res == DemoedPenalty,
    {
        DemoedPenalty
    }

    pub fn player_value(&self, events: &PlayerEvents) -> (res: i8)
        ensures
            res == event_value(events.demoed, true),
    {
        if events.demoed {
            -1
        } else {
            0
        }
    }
}

impl Default for DemoedPenalty {
    fn default() -> (res: Self)
        ensures
            res == DemoedPenalty,
    {
        Self::new()
    }
}

/// Rewards moving towards the ball, in units of the car's top speed.
pub struct VelocityPlayerToBallReward;

impl VelocityPlayerToBallReward {
    pub fn new() -> (res: Self)
        ensures
            res == VelocityPlayerToBallReward,
    {
        VelocityPlayerToBallReward
    }
}

impl Default for VelocityPlayerToBallReward {
    fn default() -> (res: Self)
        ensures
            res == VelocityPlayerToBallReward,
    {
        Self::new()
    }
}

/// Rewards facing the ball.
pub struct FaceBallReward;

impl FaceBallReward {
    pub fn new() -> (res: Self)
        ensures
            res == FaceBallReward,
    {
        FaceBallReward
    }
}

impl Default for FaceBallReward {
    fn default() -> (res: Self)
        ensures
            res == FaceBallReward,
    {
        Self::new()
    }
}

/// Rewards touching the ball during a step.
pub struct TouchBallReward;

impl TouchBallReward {
    pub fn new() -> (res: Self)
        ensures
            res == TouchBallReward,
    {
        TouchBallReward
    }

    /// 1 when the player touched the ball during the step, else 0.
    pub fn player_value(&self, ball_touched: bool) -> (res: u8)
        ensures
            res == flag(ball_touched),
    {
        if ball_touched {
            1
        } else {
            0
        }
    }
}

impl Default for TouchBallReward {
    fn default() -> (res: Self)
        ensures
            res == TouchBallReward,
    {
        Self::new()
    }
}

/// Rewards landing from a flip.
pub struct WavedashReward;

impl WavedashReward {
    pub fn new() -> (res: Self)
        ensures
            res == WavedashReward,
    {
        WavedashReward
    }

    /// 1 when the player is on the ground and was flipping in the air in
    /// the previous state, else 0 (also without a previous state).
    pub fn player_value(&self, is_on_ground: bool, previous: Option<AirState>) -> (res: u8)
        ensures
            res == flag(
                previous matches Some(before) && is_on_ground && before.is_flipping && !before.is_on_ground,
            ),
    {
        match previous {
            Some(before) => if is_on_ground && before.is_flipping && !before.is_on_ground {
                1
            } else {
                0
            },
            None => 0,
        }
    }
}

impl Default for WavedashReward {
    fn default() -> (res: Self)
        ensures
            res == WavedashReward,
    {
        Self::new()
    }
}

/// Rewards collecting boost.
pub struct PickupBoostReward;

impl PickupBoostReward {
    pub fn new() -> (res: Self)
        ensures
            res == PickupBoostReward,
    {
        PickupBoostReward
    }
}

impl Default for PickupBoostReward {
    fn default() -> (res: Self)
        ensures
            res == PickupBoostReward,
    {
        Self::new()
    }
}

/// Rewards being in the air.
pub struct AirReward;

impl AirReward {
    pub fn new() -> (res: Self)
        ensures
            res == AirReward,
    {
        AirReward
    }

    /// 1 while the player is off the ground, else 0.
    pub fn player_value(&self, is_on_ground: bool) -> (res: u8)
        ensures
            res == flag(!is_on_ground),
    {
        if is_on_ground {
            0
        } else {
            1
        }
    }
}

impl Default for AirReward {
    fn default() -> (res: Self)
        ensures
            res == AirReward,
    {
        Self::new()
    }
}

/// Rewards speeding the ball up with a touch, 1 in total up to the rewarded speed.
pub struct TouchAccelReward;

impl TouchAccelReward {
    pub fn new() -> (res: Self)
        ensures
            res == TouchAccelReward,
    {
        TouchAccelReward
    }
}

impl Default for TouchAccelReward {
    fn default() -> (res: Self)
        ensures
            res == TouchAccelReward,
    {
        Self::new()
    }
}

/// What the wavedash reward reads of a player in the previous state.
#[derive(Clone, Copy, Debug, PartialEq, Eq, Structural)]
pub struct AirState {
    pub is_on_ground: bool,
    pub is_flipping: bool,
}

/// Rewards moving the ball towards the opponents' goal (or, with
/// `own_goal`, towards the player's own goal).
pub struct VelocityBallToGoalReward {
    pub own_goal: bool,
}

/// Blue players aim at the orange goal and orange players at the blue one;
/// `own_goal` swaps the targets.
pub open spec fn aims_at_orange_goal(own_goal: bool, team: Team) -> bool {
    (team == Team::Blue) != own_goal
}

impl VelocityBallToGoalReward {
    pub fn new() -> (res: Self)
        ensures
            !res.own_goal,
    {
        VelocityBallToGoalReward { own_goal: false }
    }

    pub fn with_own_goal(own_goal: bool) -> (res: Self)
        ensures
            res.own_goal == own_goal,
    {
        VelocityBallToGoalReward { own_goal }
    }

    /// Whether the target of a player of `team` is the orange goal.
    pub fn targets_orange_goal(&self, team: Team) -> (res: bool)
        ensures
            res == aims_at_orange_goal(self.own_goal, team),
    {
        let mut target_orange = team == Team::Blue;
        if self.own_goal {
            target_orange = !target_orange;
        }
        target_orange
    }
}

impl Default for VelocityBallToGoalReward {
    fn default() -> (res: Self)
        ensures
            !res.own_goal,
    {
        Self::new()
    }
}

/// Index of a team in per-team tables: blue 0, orange 1.
pub fn team_index(team: Team) -> (res: usize)
    ensures
        res == (if team == Team::Blue {
            0usize
        } else {
            1usize
        }),
{
    match team {
        Team::Blue => 0,
        Team::Orange => 1,
    }
}

/// Without an own-goal flip, the two teams always aim at different goals.
pub proof fn lemma_teams_aim_at_opposite_goals(own_goal: bool)
    ensures
        aims_at_orange_goal(own_goal, Team::Blue) != aims_at_orange_goal(own_goal, Team::Orange),
{
}

} // verus!
