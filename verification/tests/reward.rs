use rl_arena::env::state::{PlayerEvents, Team};
use rl_arena::reward::{
    team_index, AirReward, AirState, AssistReward, BumpReward, BumpedPenalty, DemoReward,
    DemoedPenalty, PlayerGoalReward, SaveReward, ShotPassReward, ShotReward, TouchBallReward,
    VelocityBallToGoalReward, WavedashReward,
};

#[test]
fn event_rewards_match_ggl_flags() {
    let events = PlayerEvents {
        goal: true,
        assist: true,
        shot: true,
        shot_pass: true,
        save: true,
        bump: true,
        bumped: true,
        demo: true,
        demoed: true,
    };

    assert_eq!(PlayerGoalReward::new().player_value(&events), 1);
    assert_eq!(AssistReward::new().player_value(&events), 1);
    assert_eq!(ShotReward::new().player_value(&events), 1);
    assert_eq!(ShotPassReward::new().player_value(&events), 1);
    assert_eq!(SaveReward::new().player_value(&events), 1);
    assert_eq!(BumpReward::new().player_value(&events), 1);
    assert_eq!(BumpedPenalty::new().player_value(&events), -1);
    assert_eq!(DemoReward::new().player_value(&events), 1);
    assert_eq!(DemoedPenalty::new().player_value(&events), -1);
}

#[test]
fn event_rewards_are_zero_without_events() {
    let events = PlayerEvents::default();

    assert_eq!(PlayerGoalReward::new().player_value(&events), 0);
    assert_eq!(BumpedPenalty::new().player_value(&events), 0);
    assert_eq!(DemoedPenalty::new().player_value(&events), 0);
}

#[test]
fn touch_reward_is_binary_per_step() {
    assert_eq!(TouchBallReward::new().player_value(true), 1);
    assert_eq!(TouchBallReward::new().player_value(false), 0);
}

#[test]
fn previous_state_rewards_match_ggl() {
    let previous = AirState { is_on_ground: false, is_flipping: true };

    assert_eq!(WavedashReward::new().player_value(true, Some(previous)), 1);
    assert_eq!(AirReward::new().player_value(true), 0);
}

#[test]
fn wavedash_needs_a_previous_flip_in_the_air() {
    let reward = WavedashReward::new();

    assert_eq!(reward.player_value(true, None), 0);
    assert_eq!(reward.player_value(false, Some(AirState { is_on_ground: false, is_flipping: true })), 0);
    assert_eq!(reward.player_value(true, Some(AirState { is_on_ground: true, is_flipping: true })), 0);
    assert_eq!(reward.player_value(true, Some(AirState { is_on_ground: false, is_flipping: false })), 0);
    assert_eq!(AirReward::new().player_value(false), 1);
}

#[test]
fn velocity_ball_to_goal_targets() {
    let normal = VelocityBallToGoalReward::new();
    let own = VelocityBallToGoalReward::with_own_goal(true);

    assert!(normal.targets_orange_goal(Team::Blue));
    assert!(!normal.targets_orange_goal(Team::Orange));
    assert!(!own.targets_orange_goal(Team::Blue));
    assert!(own.targets_orange_goal(Team::Orange));
}

#[test]
fn team_indices() {
    assert_eq!(team_index(Team::Blue), 0);
    assert_eq!(team_index(Team::Orange), 1);
}
