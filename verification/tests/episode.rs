use rl_arena::episode::{GoalCondition, TimeoutCondition};

#[test]
fn goal_uses_state_result() {
    let condition = GoalCondition::new();

    assert!(!condition.is_done(false));
    assert!(condition.is_done(true));
}

#[test]
fn timeout_uses_ticks_since_reset() {
    let mut condition = TimeoutCondition::new(60);
    condition.reset(100);

    assert!(!condition.is_done(159));
    assert!(condition.is_done(160));

    condition.reset(500);

    assert!(!condition.is_done(559));
    assert!(condition.is_done(560));
}

#[test]
fn timeout_counts_from_zero_before_reset() {
    let condition = TimeoutCondition::new(8);

    assert!(!condition.is_done(7));
    assert!(condition.is_done(8));
}
