use rl_arena::env::consts::{NUM_PADS, PADS};
use rl_arena::env::state::{
    boost_pad_indices, find_player, update_ball_touches, BallHit, PadIndexError, Player,
    PlayerEvents, Team,
};

#[test]
fn per_step_touch_uses_previous_tick_boundary() {
    for (valid, hit_tick, expected) in [(true, 100, true), (true, 99, false), (false, 100, false)] {
        let mut players = vec![Player::new(
            1,
            Team::Blue,
            BallHit { is_valid: valid, tick_count_when_hit: hit_tick },
        )];

        update_ball_touches(&mut players, 100);

        assert_eq!(players[0].ball_touched, expected);
    }
}

#[test]
fn new_players_have_no_events() {
    let player = Player::new(3, Team::Orange, BallHit { is_valid: true, tick_count_when_hit: 5 });

    assert!(!player.ball_touched);
    assert_eq!(player.events, PlayerEvents::default());
}

#[test]
fn find_player_returns_first_match() {
    let hit = BallHit { is_valid: false, tick_count_when_hit: 0 };
    let players = vec![
        Player::new(0, Team::Blue, hit),
        Player::new(5, Team::Orange, hit),
        Player::new(5, Team::Blue, hit),
    ];

    assert_eq!(find_player(&players, 5), Some(1));
    assert_eq!(find_player(&players, 0), Some(0));
    assert_eq!(find_player(&players, u32::MAX), None);
}

fn canonical_positions() -> Vec<Option<(i32, i32, i32)>> {
    PADS.iter().map(|pad| Some(*pad)).collect()
}

#[test]
fn boost_pad_indices_match_reordered_arena() {
    // an arena that lists its pads in reverse
    let mut pads = canonical_positions();
    pads.reverse();

    let indices = boost_pad_indices(&pads).unwrap();
    let mut seen = [false; NUM_PADS];

    for (canonical_index, &arena_index) in indices.iter().enumerate() {
        assert!(!seen[arena_index]);
        seen[arena_index] = true;
        assert_eq!(pads[arena_index], Some(PADS[canonical_index]));
    }

    assert!(seen.into_iter().all(|was_seen| was_seen));
    assert!(indices
        .iter()
        .enumerate()
        .any(|(canonical_index, &arena_index)| canonical_index != arena_index));
}

#[test]
fn boost_pad_indices_report_errors() {
    let mut short = canonical_positions();
    short.pop();
    assert_eq!(boost_pad_indices(&short), Err(PadIndexError::WrongCount(NUM_PADS - 1)));

    let mut missing = canonical_positions();
    missing[7] = None;
    assert_eq!(boost_pad_indices(&missing), Err(PadIndexError::Missing(7)));

    let mut duplicate = canonical_positions();
    duplicate[20] = Some(PADS[2]);
    assert_eq!(boost_pad_indices(&duplicate), Err(PadIndexError::Duplicate(2)));
}

#[test]
fn players_are_sorted_by_id() {
    // the simulation lists its cars in no particular order
    let ids = vec![7, 2, 5];
    let order = rl_arena::env::state::id_order(&ids);
    let player_ids: Vec<u32> = order.iter().map(|&index| ids[index]).collect();

    assert_eq!(player_ids, [2, 5, 7]);

    let hit = BallHit { is_valid: false, tick_count_when_hit: 0 };
    let players: Vec<Player> = player_ids
        .iter()
        .map(|&id| Player::new(id, Team::Blue, hit))
        .collect();
    assert_eq!(players[find_player(&players, 5).unwrap()].id, 5);
    assert!(find_player(&players, u32::MAX).is_none());
}

#[test]
fn id_order_of_no_players_is_empty() {
    assert!(rl_arena::env::state::id_order(&Vec::new()).is_empty());
}
