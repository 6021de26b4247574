use rl_arena::env::state::Team;
use rl_arena::obs::{player_order, AdvancedObs, BASE_OBS_SIZE, PLAYER_OBS_SIZE};

#[test]
fn players_are_grouped_as_self_teammates_opponents() {
    // ids 1..=4 at indices 0..=3
    let teams = vec![Team::Blue, Team::Orange, Team::Blue, Team::Orange];

    assert_eq!(AdvancedObs::new().obs_size(teams.len()), 167);
    // player 4: itself, teammate 2, opponents 1 and 3
    assert_eq!(player_order(&teams, 3), vec![3, 1, 0, 2]);
    // player 3: itself, teammate 1, opponents 2 and 4
    assert_eq!(player_order(&teams, 2), vec![2, 0, 1, 3]);
}

#[test]
fn one_v_one_observation_size() {
    assert_eq!(BASE_OBS_SIZE, 51);
    assert_eq!(PLAYER_OBS_SIZE, 29);
    assert_eq!(AdvancedObs::default().obs_size(2), 109);
}

#[test]
fn lone_player_sees_only_itself() {
    assert_eq!(player_order(&vec![Team::Orange], 0), vec![0]);
}

#[test]
fn order_names_every_player_once() {
    let teams = vec![Team::Orange, Team::Blue, Team::Orange, Team::Orange, Team::Blue];

    for me in 0..teams.len() {
        let mut order = player_order(&teams, me);
        assert_eq!(order[0], me);
        order.sort_unstable();
        assert_eq!(order, (0..teams.len()).collect::<Vec<_>>());
    }
}
