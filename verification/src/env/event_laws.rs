use vstd::prelude::*;

use crate::env::events::{
    after_bumps, event_step, latest_touch, lemma_latest_touch, looks_for_shot, shooter_passer,
    touch_candidate, BumpEvent, CooldownUpdate, GameEventTracker, StepInfo,
};
use crate::env::state::{is_first_with_id, Player, Team};

verus! {

/// A shot in flight ends in the first step without a new goal in which the
/// ball is no longer predicted to go in, whether or not a defender touched
/// the ball; that step leaves the cooldown alone and the next step looks
/// for new shots again.
pub proof fn lemma_missed_shot_ends(tracker: GameEventTracker, players: Seq<Player>, step: StepInfo)
    requires
        tracker.ball_shot,
        !(step.goal_scored && !tracker.ball_scored_last),
        !step.ball_going_in,
    ensures
        !event_step(tracker, players, step).0.ball_shot,
        event_step(tracker, players, step).0.ball_scored_last == step.goal_scored,
        event_step(tracker, players, step).2 == CooldownUpdate::Unchanged,
        forall|next: StepInfo|
            !(next.goal_scored && !step.goal_scored) && !next.cooling_down && next.ball_fast
                && next.ball_going_in ==> #[trigger] looks_for_shot(event_step(tracker, players, step).0, next),
{
}

/// The shooter is a player of `team` whose valid touch lies at most
/// `max_shooter_ticks` before `tick_count`, with no such touch later than
/// its own. The passer is a teammate other than the shooter whose valid
/// touch lies at most `max_passer_ticks` before the shooter's touch (not
/// before `tick_count`), again the latest such; there is none only when no
/// teammate touched within that window.
pub proof fn lemma_shooter_and_passer_windows(
    players: Seq<Player>,
    tick_count: u64,
    team: Team,
    max_shooter_ticks: u64,
    max_passer_ticks: u64,
) -> (found: (int, int))
    ensures
        match shooter_passer(players, tick_count, team, true, max_shooter_ticks, max_passer_ticks) {
            (Some(shooter_id), passer) => {
                let s = found.0;
                &&& 0 <= s < players.len()
                &&& players[s].id == shooter_id
                &&& players[s].team == team
                &&& players[s].ball_hit.is_valid
                &&& players[s].ball_hit.tick_count_when_hit + max_shooter_ticks >= tick_count
                &&& forall|q: int|
                    0 <= q < players.len() && (#[trigger] players[q]).team == team && players[q].ball_hit.is_valid
                        && players[q].ball_hit.tick_count_when_hit + max_shooter_ticks >= tick_count
                        ==> players[q].ball_hit.tick_count_when_hit <= players[s].ball_hit.tick_count_when_hit
                &&& match passer {
                    Some(passer_id) => {
                        let p = found.1;
                        &&& 0 <= p < players.len()
                        &&& players[p].id == passer_id
                        &&& passer_id != shooter_id
                        &&& players[p].team == team
                        &&& players[p].ball_hit.is_valid
                        &&& players[p].ball_hit.tick_count_when_hit + max_passer_ticks
                            >= players[s].ball_hit.tick_count_when_hit
                        &&& forall|q: int|
                            0 <= q < players.len() && (#[trigger] players[q]).team == team && players[q].id
                                != shooter_id && players[q].ball_hit.is_valid
                                && players[q].ball_hit.tick_count_when_hit + max_passer_ticks
                                >= players[s].ball_hit.tick_count_when_hit
                                ==> players[q].ball_hit.tick_count_when_hit
                                <= players[p].ball_hit.tick_count_when_hit
                    },
                    None => forall|q: int|
                        0 <= q < players.len() && (#[trigger] players[q]).team == team && players[q].id
                            != shooter_id && players[q].ball_hit.is_valid ==> players[q].ball_hit.tick_count_when_hit
                            + max_passer_ticks < players[s].ball_hit.tick_count_when_hit,
                }
            },
            (None, passer) => passer is None && forall|q: int|
                0 <= q < players.len() && (#[trigger] players[q]).team == team && players[q].ball_hit.is_valid
                    ==> players[q].ball_hit.tick_count_when_hit + max_shooter_ticks < tick_count,
        },
{
    lemma_latest_touch(players, team, None, max_shooter_ticks, tick_count);
    match latest_touch(players, team, None, max_shooter_ticks, tick_count) {
        Some(s) => {
            let reference = players[s].ball_hit.tick_count_when_hit;
            let excluded = Some(players[s].id);
            lemma_latest_touch(players, team, excluded, max_passer_ticks, reference);
            assert forall|q: int|
                0 <= q < players.len() && (#[trigger] players[q]).team == team && players[q].ball_hit.is_valid
                    && players[q].ball_hit.tick_count_when_hit + max_shooter_ticks >= tick_count implies players[q].ball_hit.tick_count_when_hit
                <= reference by {
                assert(touch_candidate(players[q], team, None, max_shooter_ticks, tick_count));
            }
            match latest_touch(players, team, excluded, max_passer_ticks, reference) {
                Some(p) => {
                    assert forall|q: int|
                        0 <= q < players.len() && (#[trigger] players[q]).team == team && players[q].id
                            != players[s].id && players[q].ball_hit.is_valid
                            && players[q].ball_hit.tick_count_when_hit + max_passer_ticks >= reference implies players[q].ball_hit.tick_count_when_hit
                        <= players[p].ball_hit.tick_count_when_hit by {
                        assert(touch_candidate(players[q], team, excluded, max_passer_ticks, reference));
                    }
                    (s, p)
                },
                None => {
                    assert forall|q: int|
                        0 <= q < players.len() && (#[trigger] players[q]).team == team && players[q].id
                            != players[s].id && players[q].ball_hit.is_valid implies players[q].ball_hit.tick_count_when_hit
                        + max_passer_ticks < reference by {
                        assert(!touch_candidate(players[q], team, excluded, max_passer_ticks, reference));
                    }
                    (s, 0)
                },
            }
        },
        None => {
            assert forall|q: int|
                0 <= q < players.len() && (#[trigger] players[q]).team == team && players[q].ball_hit.is_valid implies players[q].ball_hit.tick_count_when_hit
                + max_shooter_ticks < tick_count by {
                assert(!touch_candidate(players[q], team, None, max_shooter_ticks, tick_count));
            }
            (0, 0)
        },
    }
}

/// Bumps set only what they are about: a player's `bump` (`bumped`) flag is
/// newly set only when some recorded bump has the player's id as bumper
/// (victim), and its `demo` (`demoed`) flag only when such a bump is a
/// demolition. Conversely, the first player with a bumper's (victim's) id is
/// credited, and with a demolition also gets `demo` (`demoed`). Without
/// demolitions the demolition flags stay as they were.
pub proof fn lemma_bumps_credit_only_their_players(players: Seq<Player>, events: Seq<BumpEvent>, k: int)
    requires
        0 <= k < players.len(),
    ensures
        after_bumps(players, events).len() == players.len(),
        after_bumps(players, events)[k].id == players[k].id,
        after_bumps(players, events)[k].events.bump ==> players[k].events.bump || exists|e: int|
            0 <= e < events.len() && #[trigger] events[e].bumper == players[k].id,
        after_bumps(players, events)[k].events.demo ==> players[k].events.demo || exists|e: int|
            0 <= e < events.len() && #[trigger] events[e].bumper == players[k].id && events[e].is_demo,
        after_bumps(players, events)[k].events.bumped ==> players[k].events.bumped || exists|e: int|
            0 <= e < events.len() && #[trigger] events[e].victim == players[k].id,
        after_bumps(players, events)[k].events.demoed ==> players[k].events.demoed || exists|e: int|
            0 <= e < events.len() && #[trigger] events[e].victim == players[k].id && events[e].is_demo,
        (forall|e: int| 0 <= e < events.len() ==> !(#[trigger] events[e]).is_demo) ==> after_bumps(
            players,
            events,
        )[k].events.demo == players[k].events.demo && after_bumps(players, events)[k].events.demoed
            == players[k].events.demoed,
        forall|e: int|
            0 <= e < events.len() && #[trigger] events[e].bumper == players[k].id && (forall|j: int|
                0 <= j < k ==> players[j].id != players[k].id) ==> after_bumps(players, events)[k].events.bump
                && (events[e].is_demo ==> after_bumps(players, events)[k].events.demo),
        forall|e: int|
            0 <= e < events.len() && #[trigger] events[e].victim == players[k].id && (forall|j: int|
                0 <= j < k ==> players[j].id != players[k].id) ==> after_bumps(players, events)[k].events.bumped
                && (events[e].is_demo ==> after_bumps(players, events)[k].events.demoed),
{
    assert forall|e: int|
        0 <= e < events.len() && #[trigger] events[e].bumper == players[k].id && (forall|j: int|
            0 <= j < k ==> players[j].id != players[k].id) implies after_bumps(players, events)[k].events.bump
        && (events[e].is_demo ==> after_bumps(players, events)[k].events.demo) by {
        assert(is_first_with_id(players, k, events[e].bumper));
    }
    assert forall|e: int|
        0 <= e < events.len() && #[trigger] events[e].victim == players[k].id && (forall|j: int|
            0 <= j < k ==> players[j].id != players[k].id) implies after_bumps(players, events)[k].events.bumped
        && (events[e].is_demo ==> after_bumps(players, events)[k].events.demoed) by {
        assert(is_first_with_id(players, k, events[e].victim));
    }
}

} // verus!
