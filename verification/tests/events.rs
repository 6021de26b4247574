use rl_arena::env::events::{
    find_shooter_passer, opposite_team, set_event, BumpTracker, CooldownUpdate, EventKind,
    GameEventTracker, StepInfo,
};
use rl_arena::env::state::{BallHit, Player, Team};

// 120 ticks per second
const GOAL_TOUCH_WINDOW: u64 = 480;
const PASS_TOUCH_WINDOW: u64 = 240;
const MIN_TOUCH_DELAY: u64 = 36;

fn player(id: u32, team: Team, hit_tick: Option<u64>) -> Player {
    let ball_hit = match hit_tick {
        Some(tick) => BallHit { is_valid: true, tick_count_when_hit: tick },
        None => BallHit { is_valid: false, tick_count_when_hit: 0 },
    };
    Player::new(id, team, ball_hit)
}

fn step(tick_count: u64, delta_ticks: u64) -> StepInfo {
    StepInfo {
        tick_count,
        delta_ticks,
        goal_scored: false,
        scoring_team: Team::Blue,
        ball_fast: false,
        ball_going_in: false,
        ball_heading_team: Team::Blue,
        cooling_down: false,
        goal_touch_window: GOAL_TOUCH_WINDOW,
        pass_touch_window: PASS_TOUCH_WINDOW,
        min_touch_delay: MIN_TOUCH_DELAY,
    }
}

fn find(players: &[Player], id: u32) -> &Player {
    players.iter().find(|player| player.id == id).unwrap()
}

#[test]
fn bump_events_match_ggl_flags() {
    let (blue, teammate, orange) = (0, 1, 2);
    let mut tracker = BumpTracker::new();

    tracker.record(blue, Team::Blue, teammate, Team::Blue, true);
    tracker.record(blue, Team::Blue, orange, Team::Orange, true);

    let mut players = vec![
        player(blue, Team::Blue, None),
        player(teammate, Team::Blue, None),
        player(orange, Team::Orange, None),
    ];
    tracker.apply(&mut players);

    assert!(find(&players, blue).events.bump);
    assert!(find(&players, blue).events.demo);
    assert!(!find(&players, teammate).events.demoed);
    assert!(find(&players, orange).events.bumped);
    assert!(find(&players, orange).events.demoed);
}

#[test]
fn goal_assigns_scorer_and_assist() {
    // the previous state was at tick 92, the ball sits in the orange half
    let mut players = vec![player(1, Team::Blue, Some(60)), player(2, Team::Blue, Some(50))];
    let mut tracker = GameEventTracker::new();
    let mut current = step(100, 8);
    current.goal_scored = true;
    current.scoring_team = Team::Blue;

    let cooldown = tracker.update(&mut players, &current);

    assert_eq!(cooldown, CooldownUpdate::Unchanged);
    assert!(find(&players, 1).events.goal);
    assert!(find(&players, 2).events.assist);
}

#[test]
fn equal_touch_ticks_keep_first_player() {
    let players = vec![player(1, Team::Blue, Some(60)), player(2, Team::Blue, Some(60))];

    let (shooter, passer) = find_shooter_passer(&players, 100, Team::Blue, true, 480, 240);

    assert_eq!(shooter, Some(1));
    assert_eq!(passer, Some(2));
}

#[test]
fn shot_pass_and_save_follow_ggl_windows() {
    let mut players = vec![
        player(1, Team::Blue, Some(60)),
        player(2, Team::Blue, Some(50)),
        player(3, Team::Orange, None),
    ];
    let mut tracker = GameEventTracker::new();
    // ball moving towards the orange goal at 2000 units per second
    let mut shot = step(100, 8);
    shot.ball_fast = true;
    shot.ball_going_in = true;
    shot.ball_heading_team = Team::Orange;

    let cooldown = tracker.update(&mut players, &shot);

    assert_eq!(cooldown, CooldownUpdate::Restart);
    assert!(find(&players, 1).events.shot);
    assert!(find(&players, 2).events.shot_pass);

    let mut players = vec![
        player(1, Team::Blue, Some(60)),
        player(2, Team::Blue, Some(50)),
        player(3, Team::Orange, Some(104)),
    ];
    let save = step(108, 8);

    tracker.update(&mut players, &save);

    assert!(find(&players, 3).events.save);
    assert!(!tracker.ball_shot);
}

#[test]
fn recent_touch_is_not_yet_a_shot() {
    let mut players = vec![player(1, Team::Blue, Some(90))];
    let mut tracker = GameEventTracker::new();
    let mut shot = step(100, 8);
    shot.ball_fast = true;
    shot.ball_going_in = true;
    shot.ball_heading_team = Team::Orange;

    let cooldown = tracker.update(&mut players, &shot);

    assert_eq!(cooldown, CooldownUpdate::Unchanged);
    assert!(!players[0].events.shot);
    assert!(!tracker.ball_shot);
}

#[test]
fn cooldown_elapses_before_new_shots() {
    let mut players = vec![player(1, Team::Blue, Some(60))];
    let mut tracker = GameEventTracker::new();
    let mut shot = step(100, 8);
    shot.ball_fast = true;
    shot.ball_going_in = true;
    shot.ball_heading_team = Team::Orange;
    shot.cooling_down = true;

    assert_eq!(tracker.update(&mut players, &shot), CooldownUpdate::Elapse);
    assert!(!players[0].events.shot);
}

#[test]
fn goal_is_credited_once() {
    let mut players = vec![player(1, Team::Orange, Some(95))];
    let mut tracker = GameEventTracker::new();
    let mut scored = step(100, 8);
    scored.goal_scored = true;
    scored.scoring_team = Team::Orange;

    tracker.update(&mut players, &scored);
    assert!(players[0].events.goal);

    let mut players = vec![player(1, Team::Orange, Some(95))];
    let mut still_scored = step(108, 8);
    still_scored.goal_scored = true;
    still_scored.scoring_team = Team::Orange;
    tracker.update(&mut players, &still_scored);
    assert!(!players[0].events.goal);

    tracker.reset();
    assert!(!tracker.ball_scored_last);
}

#[test]
fn set_event_marks_first_player_with_id() {
    let mut players = vec![player(4, Team::Blue, None), player(4, Team::Orange, None)];

    set_event(&mut players, 4, EventKind::Save);
    set_event(&mut players, 9, EventKind::Goal);

    assert!(players[0].events.save);
    assert!(!players[1].events.save);
    assert!(!players[0].events.goal && !players[1].events.goal);
}

#[test]
fn opposite_team_swaps() {
    assert_eq!(opposite_team(Team::Blue), Team::Orange);
    assert_eq!(opposite_team(Team::Orange), Team::Blue);
}

#[test]
fn cleared_bumps_are_not_applied() {
    let mut tracker = BumpTracker::new();
    tracker.record(0, Team::Blue, 1, Team::Orange, false);
    tracker.clear();

    let mut players = vec![player(0, Team::Blue, None), player(1, Team::Orange, None)];
    tracker.apply(&mut players);

    assert!(!players[0].events.bump);
    assert!(!players[1].events.bumped);
}

#[test]
fn no_save_without_a_shot_in_flight() {
    let mut players = vec![player(3, Team::Orange, Some(104))];
    let mut tracker = GameEventTracker::new();

    tracker.update(&mut players, &step(108, 8));

    assert!(!players[0].events.save);
}

#[test]
fn prediction_is_read_only_when_needed() {
    let tracker = GameEventTracker::new();

    assert!(!tracker.reads_prediction(false, false, false));
    assert!(!tracker.reads_prediction(false, true, true));
    assert!(tracker.reads_prediction(false, false, true));
    assert!(!tracker.reads_prediction(true, false, true));

    let in_flight = GameEventTracker { ball_shot: true, ball_shot_goal_team: Team::Blue, ball_scored_last: false };
    assert!(in_flight.reads_prediction(false, true, false));
}
