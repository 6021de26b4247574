use vstd::prelude::*;

use crate::env::state::{
    find_player, is_first_with_id, lemma_same_ids_first, same_ids, Player, PlayerEvents, Team,
};

verus! {

/// A bump between two cars as the arena reports it.
#[derive(Clone, Copy, Debug, PartialEq, Eq, Structural)]
pub struct BumpEvent {
    pub bumper: u32,
    pub victim: u32,
    pub is_demo: bool,
}

pub open spec fn opposite(team: Team) -> Team {
    match team {
        Team::Blue => Team::Orange,
        Team::Orange => Team::Blue,
    }
}

/// The other team.
pub fn opposite_team(team: Team) -> (res: Team)
    ensures
        res == opposite(team),
        res != team,
{
    match team {
        Team::Blue => Team::Orange,
        Team::Orange => Team::Blue,
    }
}

/// Player `k` is the first player with the id of some event's bumper.
pub open spec fn bumped_someone(players: Seq<Player>, events: Seq<BumpEvent>, k: int, demo_only: bool) -> bool {
    exists|e: int|
        0 <= e < events.len() && is_first_with_id(players, k, #[trigger] events[e].bumper) && (!demo_only
            || events[e].is_demo)
}

/// Player `k` is the first player with the id of some event's victim.
pub open spec fn was_bumped(players: Seq<Player>, events: Seq<BumpEvent>, k: int, demo_only: bool) -> bool {
    exists|e: int|
        0 <= e < events.len() && is_first_with_id(players, k, #[trigger] events[e].victim) && (!demo_only
            || events[e].is_demo)
}

/// The players after crediting every bump: the first player with the
/// bumper's id gets `bump` (and `demo` for a demolition), the first player
/// with the victim's id gets `bumped` (and `demoed`).
pub open spec fn after_bumps(players: Seq<Player>, events: Seq<BumpEvent>) -> Seq<Player> {
    Seq::new(
        players.len(),
        |k: int|
            Player {
                events: PlayerEvents {
                    bump: players[k].events.bump || bumped_someone(players, events, k, false),
                    demo: players[k].events.demo || bumped_someone(players, events, k, true),
                    bumped: players[k].events.bumped || was_bumped(players, events, k, false),
                    demoed: players[k].events.demoed || was_bumped(players, events, k, true),
                    ..players[k].events
                },
                ..players[k]
            },
    )
}

/// Collects the bumps of one step between cars of different teams.
pub struct BumpTracker {
    events: Vec<BumpEvent>,
}

impl BumpTracker {
    /// The bumps recorded since the last `clear` or `apply`.
    pub closed spec fn pending(self) -> Seq<BumpEvent> {
        self.events@
    }

    pub fn new() -> (res: Self)
        ensures
            res.pending() == Seq::<BumpEvent>::empty(),
    {
        BumpTracker { events: Vec::new() }
    }

    pub fn clear(&mut self)
        ensures
            final(self).pending() == Seq::<BumpEvent>::empty(),
    {
        self.events.clear();
    }

    /// Records a bump; bumps between teammates are ignored.
    pub fn record(&mut self, bumper: u32, bumper_team: Team, victim: u32, victim_team: Team, is_demo: bool)
        ensures
            final(self).pending() == if bumper_team == victim_team {
                old(self).pending()
            } else {
                old(self).pending().push(BumpEvent { bumper, victim, is_demo })
            },
    {
        if bumper_team == victim_team {
            return ;
        }
        self.events.push(BumpEvent { bumper, victim, is_demo });
    }

    /// Credits every recorded bump to the players and forgets the bumps.
    pub fn apply(&mut self, players: &mut Vec<Player>)
        ensures
            final(self).pending() == Seq::<BumpEvent>::empty(),
            final(players)@ == after_bumps(old(players)@, old(self).pending()),
    {
        let mut events: Vec<BumpEvent> = Vec::new();
        std::mem::swap(&mut events, &mut self.events);
        let ghost original = players@;
        let n = events.len();
        let mut index: usize = 0;
        assert(players@ =~= after_bumps(original, events@.take(0)));
        while index < n
            invariant
                n == events@.len(),
                events@ == old(self).pending(),
                original == old(players)@,
                index <= n,
                players@ == after_bumps(original, events@.take(index as int)),
            decreases n - index,
        {
            let event = events[index];
            proof {
                lemma_after_bumps_step(original, events@, index as int);
            }
            credit_bump(players, event);
            index = index + 1;
        }
        assert(events@.take(n as int) =~= events@);
    }
}

/// The players after crediting one bump.
pub open spec fn credit(players: Seq<Player>, event: BumpEvent) -> Seq<Player> {
    Seq::new(
        players.len(),
        |k: int|
            {
                let bumped = if is_first_with_id(players, k, event.bumper) {
                    as_bumper(players[k], event.is_demo)
                } else {
                    players[k]
                };
                if is_first_with_id(players, k, event.victim) {
                    as_victim(bumped, event.is_demo)
                } else {
                    bumped
                }
            },
    )
}

pub open spec fn as_bumper(player: Player, is_demo: bool) -> Player {
    Player {
        events: PlayerEvents { bump: true, demo: player.events.demo || is_demo, ..player.events },
        ..player
    }
}

pub open spec fn as_victim(player: Player, is_demo: bool) -> Player {
    Player {
        events: PlayerEvents { bumped: true, demoed: player.events.demoed || is_demo, ..player.events },
        ..player
    }
}

fn mark_bumper(players: &mut Vec<Player>, id: u32, is_demo: bool)
    ensures
        final(players)@.len() == old(players)@.len(),
        forall|k: int|
            0 <= k < old(players)@.len() ==> #[trigger] final(players)@[k] == if is_first_with_id(
                old(players)@,
                k,
                id,
            ) {
                as_bumper(old(players)@[k], is_demo)
            } else {
                old(players)@[k]
            },
{
    match find_player(players, id) {
        Some(k) => {
            let mut player = players[k];
            player.events.bump = true;
            player.events.demo = player.events.demo || is_demo;
            players.set(k, player);
        },
        None => {},
    }
}

fn mark_victim(players: &mut Vec<Player>, id: u32, is_demo: bool)
    ensures
        final(players)@.len() == old(players)@.len(),
        forall|k: int|
            0 <= k < old(players)@.len() ==> #[trigger] final(players)@[k] == if is_first_with_id(
                old(players)@,
                k,
                id,
            ) {
                as_victim(old(players)@[k], is_demo)
            } else {
                old(players)@[k]
            },
{
    match find_player(players, id) {
        Some(k) => {
            let mut player = players[k];
            player.events.bumped = true;
            player.events.demoed = player.events.demoed || is_demo;
            players.set(k, player);
        },
        None => {},
    }
}

#[verifier::spinoff_prover]
#[verifier::rlimit(30)]
fn credit_bump(players: &mut Vec<Player>, event: BumpEvent)
    ensures
        final(players)@ == credit(old(players)@, event),
{
    let ghost before = players@;
    mark_bumper(players, event.bumper, event.is_demo);
    let ghost middle = players@;
    assert(same_ids(middle, before));
    mark_victim(players, event.victim, event.is_demo);
    assert forall|k: int| 0 <= k < before.len() implies #[trigger] players@[k] == credit(before, event)[k] by {
        lemma_same_ids_first(middle, before, k, event.victim);
    }
    assert(players@ =~= credit(before, event));
}

#[verifier::spinoff_prover]
#[verifier::rlimit(40)]
proof fn lemma_after_bumps_step(original: Seq<Player>, events: Seq<BumpEvent>, i: int)
    requires
        0 <= i < events.len(),
    ensures
        credit(after_bumps(original, events.take(i)), events[i]) == after_bumps(original, events.take(i + 1)),
{
    let done = events.take(i);
    let next = events.take(i + 1);
    let before = after_bumps(original, done);
    let event = events[i];
    assert(same_ids(before, original));
    assert(next[i] == event);
    assert forall|k: int| 0 <= k < original.len() implies #[trigger] credit(before, event)[k] == after_bumps(
        original,
        next,
    )[k] by {
        lemma_same_ids_first(before, original, k, event.victim);
        lemma_same_ids_first(before, original, k, event.bumper);
        if is_first_with_id(original, k, event.bumper) {
            assert(bumped_someone(original, next, k, false));
            if event.is_demo {
                assert(bumped_someone(original, next, k, true));
            }
        }
        if is_first_with_id(original, k, event.victim) {
            assert(was_bumped(original, next, k, false));
            if event.is_demo {
                assert(was_bumped(original, next, k, true));
            }
        }
        lemma_exists_step(original, done, next, k);
    }
    assert(credit(before, event) =~= after_bumps(original, next));
}

#[verifier::spinoff_prover]
proof fn lemma_exists_step(original: Seq<Player>, done: Seq<BumpEvent>, next: Seq<BumpEvent>, k: int)
    requires
        next.len() == done.len() + 1,
        forall|e: int| 0 <= e < done.len() ==> next[e] == done[e],
    ensures
        bumped_someone(original, done, k, false) ==> bumped_someone(original, next, k, false),
        bumped_someone(original, done, k, true) ==> bumped_someone(original, next, k, true),
        was_bumped(original, done, k, false) ==> was_bumped(original, next, k, false),
        was_bumped(original, done, k, true) ==> was_bumped(original, next, k, true),
        bumped_someone(original, next, k, false) ==> bumped_someone(original, done, k, false)
            || is_first_with_id(original, k, next[done.len() as int].bumper),
        bumped_someone(original, next, k, true) ==> bumped_someone(original, done, k, true) || (
        is_first_with_id(original, k, next[done.len() as int].bumper) && next[done.len() as int].is_demo),
        was_bumped(original, next, k, false) ==> was_bumped(original, done, k, false) || is_first_with_id(
            original,
            k,
            next[done.len() as int].victim,
        ),
        was_bumped(original, next, k, true) ==> was_bumped(original, done, k, true) || (is_first_with_id(
            original,
            k,
            next[done.len() as int].victim,
        ) && next[done.len() as int].is_demo),
{
    let last = done.len() as int;
    if bumped_someone(original, done, k, false) {
        let e = choose|e: int| 0 <= e < done.len() && is_first_with_id(original, k, #[trigger] done[e].bumper);
        assert(next[e] == done[e]);
    }
    if bumped_someone(original, done, k, true) {
        let e = choose|e: int|
            0 <= e < done.len() && is_first_with_id(original, k, #[trigger] done[e].bumper) && done[e].is_demo;
        assert(next[e] == done[e]);
    }
    if was_bumped(original, done, k, false) {
        let e = choose|e: int| 0 <= e < done.len() && is_first_with_id(original, k, #[trigger] done[e].victim);
        assert(next[e] == done[e]);
    }
    if was_bumped(original, done, k, true) {
        let e = choose|e: int|
            0 <= e < done.len() && is_first_with_id(original, k, #[trigger] done[e].victim) && done[e].is_demo;
        assert(next[e] == done[e]);
    }
    if bumped_someone(original, next, k, false) && !is_first_with_id(original, k, next[last].bumper) {
        let e = choose|e: int| 0 <= e < next.len() && is_first_with_id(original, k, #[trigger] next[e].bumper);
        assert(e != last);
        assert(done[e] == next[e]);
    }
    if bumped_someone(original, next, k, true) && !(is_first_with_id(original, k, next[last].bumper)
        && next[last].is_demo) {
        let e = choose|e: int|
            0 <= e < next.len() && is_first_with_id(original, k, #[trigger] next[e].bumper) && next[e].is_demo;
        assert(e != last);
        assert(done[e] == next[e]);
    }
    if was_bumped(original, next, k, false) && !is_first_with_id(original, k, next[last].victim) {
        let e = choose|e: int| 0 <= e < next.len() && is_first_with_id(original, k, #[trigger] next[e].victim);
        assert(e != last);
        assert(done[e] == next[e]);
    }
    if was_bumped(original, next, k, true) && !(is_first_with_id(original, k, next[last].victim)
        && next[last].is_demo) {
        let e = choose|e: int|
            0 <= e < next.len() && is_first_with_id(original, k, #[trigger] next[e].victim) && next[e].is_demo;
        assert(e != last);
        assert(done[e] == next[e]);
    }
}

/// A player whose touch may count: on `team`, not the player `excluded`,
/// with a touch at most `window` ticks before tick `reference`.
pub open spec fn touch_candidate(player: Player, team: Team, excluded: Option<u32>, window: u64, reference: u64) -> bool {
    &&& player.team == team
    &&& (excluded matches Some(id) ==> player.id != id)
    &&& player.ball_hit.is_valid
    &&& player.ball_hit.tick_count_when_hit + window >= reference
}

/// Walking the players in order, the candidate with the latest touch; a
/// later candidate only replaces the current one with a strictly later touch.
pub open spec fn latest_touch(
    players: Seq<Player>,
    team: Team,
    excluded: Option<u32>,
    window: u64,
    reference: u64,
) -> Option<int>
    decreases players.len(),
{
    if players.len() == 0 {
        None
    } else {
        let last = players.len() - 1;
        let earlier = latest_touch(players.drop_last(), team, excluded, window, reference);
        if touch_candidate(players[last], team, excluded, window, reference) {
            match earlier {
                Some(k) => if players[last].ball_hit.tick_count_when_hit
                    > players[k].ball_hit.tick_count_when_hit {
                    Some(last)
                } else {
                    Some(k)
                },
                None => Some(last),
            }
        } else {
            earlier
        }
    }
}

/// The latest touch is the first candidate whose touch is not earlier than
/// any other candidate's; there is none exactly when no player is a candidate.
pub proof fn lemma_latest_touch(
    players: Seq<Player>,
    team: Team,
    excluded: Option<u32>,
    window: u64,
    reference: u64,
)
    ensures
        match latest_touch(players, team, excluded, window, reference) {
            Some(k) => {
                &&& 0 <= k < players.len()
                &&& touch_candidate(players[k], team, excluded, window, reference)
                &&& forall|j: int|
                    0 <= j < players.len() && touch_candidate(#[trigger] players[j], team, excluded, window, reference)
                        ==> players[j].ball_hit.tick_count_when_hit <= players[k].ball_hit.tick_count_when_hit
                        && (j < k ==> players[j].ball_hit.tick_count_when_hit
                        < players[k].ball_hit.tick_count_when_hit)
            },
            None => forall|j: int|
                0 <= j < players.len() ==> !touch_candidate(#[trigger] players[j], team, excluded, window, reference),
        },
    decreases players.len(),
{
    if players.len() > 0 {
        let prefix = players.drop_last();
        let last = players.len() - 1;
        lemma_latest_touch(prefix, team, excluded, window, reference);
        assert forall|j: int| 0 <= j < prefix.len() implies #[trigger] prefix[j] == players[j] by {}
        match latest_touch(prefix, team, excluded, window, reference) {
            Some(k) => {
                assert forall|j: int|
                    0 <= j < last && touch_candidate(#[trigger] players[j], team, excluded, window, reference)
                        implies players[j].ball_hit.tick_count_when_hit <= players[k].ball_hit.tick_count_when_hit
                        && (j < k ==> players[j].ball_hit.tick_count_when_hit
                        < players[k].ball_hit.tick_count_when_hit) by {
                    assert(prefix[j] == players[j]);
                }
            },
            None => {
                assert forall|j: int| 0 <= j < last implies !touch_candidate(
                    #[trigger] players[j],
                    team,
                    excluded,
                    window,
                    reference,
                ) by {
                    assert(prefix[j] == players[j]);
                }
            },
        }
    }
}

fn latest_toucher(players: &Vec<Player>, team: Team, excluded: Option<u32>, window: u64, reference: u64) -> (res:
    Option<usize>)
    ensures
        match res {
            Some(k) => k < players@.len() && latest_touch(players@, team, excluded, window, reference) == Some(
                k as int,
            ),
            None => latest_touch(players@, team, excluded, window, reference) == None::<int>,
        },
{
    let n = players.len();
    let mut latest: Option<usize> = None;
    let mut index: usize = 0;
    while index < n
        invariant
            n == players@.len(),
            index <= n,
            match latest {
                Some(k) => k < index && latest_touch(players@.take(index as int), team, excluded, window, reference)
                    == Some(k as int),
                None => latest_touch(players@.take(index as int), team, excluded, window, reference) == None::<int>,
            },
        decreases n - index,
    {
        let player = players[index];
        let not_excluded = match excluded {
            Some(id) => player.id != id,
            None => true,
        };
        let hit = player.ball_hit;
        let is_candidate = player.team == team && not_excluded && hit.is_valid
            && hit.tick_count_when_hit.saturating_add(window) >= reference;
        if is_candidate {
            latest = match latest {
                Some(k) => if hit.tick_count_when_hit > players[k].ball_hit.tick_count_when_hit {
                    Some(index)
                } else {
                    Some(k)
                },
                None => Some(index),
            };
        }
        proof {
            let next = players@.take(index + 1);
            assert(next.drop_last() =~= players@.take(index as int));
            assert(next[index as int] == player);
        }
        index = index + 1;
    }
    assert(players@.take(n as int) =~= players@);
    latest
}

/// The shooter (latest recent toucher of `team`) and, when asked, the passer
/// (the teammate with the latest touch at most `max_passer_ticks` before the
/// shooter's).
pub open spec fn shooter_passer(
    players: Seq<Player>,
    tick_count: u64,
    team: Team,
    find_passer: bool,
    max_shooter_ticks: u64,
    max_passer_ticks: u64,
) -> (Option<u32>, Option<u32>) {
    match latest_touch(players, team, None, max_shooter_ticks, tick_count) {
        None => (None, None),
        Some(s) => (
            Some(players[s].id),
            if find_passer {
                match latest_touch(
                    players,
                    team,
                    Some(players[s].id),
                    max_passer_ticks,
                    players[s].ball_hit.tick_count_when_hit,
                ) {
                    Some(p) => Some(players[p].id),
                    None => None,
                }
            } else {
                None
            },
        ),
    }
}

/// The ids of the shooter and the passer of `team` at tick `tick_count`.
pub fn find_shooter_passer(
    players: &Vec<Player>,
    tick_count: u64,
    team: Team,
    find_passer: bool,
    max_shooter_ticks: u64,
    max_passer_ticks: u64,
) -> (res: (Option<u32>, Option<u32>))
    ensures
        res == shooter_passer(players@, tick_count, team, find_passer, max_shooter_ticks, max_passer_ticks),
{
    let shooter = match latest_toucher(players, team, None, max_shooter_ticks, tick_count) {
        Some(s) => players[s],
        None => {
            return (None, None);
        },
    };
    if !find_passer {
        return (Some(shooter.id), None);
    }
    let passer = match latest_toucher(
        players,
        team,
        Some(shooter.id),
        max_passer_ticks,
        shooter.ball_hit.tick_count_when_hit,
    ) {
        Some(p) => Some(players[p].id),
        None => None,
    };
    (Some(shooter.id), passer)
}

/// An event credited by the game event tracker.
#[derive(Clone, Copy, Debug, PartialEq, Eq, Structural)]
pub enum EventKind {
    Goal,
    Assist,
    Shot,
    ShotPass,
    Save,
}

pub open spec fn with_event(events: PlayerEvents, kind: EventKind) -> PlayerEvents {
    match kind {
        EventKind::Goal => PlayerEvents { goal: true, ..events },
        EventKind::Assist => PlayerEvents { assist: true, ..events },
        EventKind::Shot => PlayerEvents { shot: true, ..events },
        EventKind::ShotPass => PlayerEvents { shot_pass: true, ..events },
        EventKind::Save => PlayerEvents { save: true, ..events },
    }
}

/// The players after crediting `kind` to the first player with the id, if any.
pub open spec fn award(players: Seq<Player>, id: Option<u32>, kind: EventKind) -> Seq<Player> {
    match id {
        None => players,
        Some(id) => Seq::new(
            players.len(),
            |k: int|
                if is_first_with_id(players, k, id) {
                    Player { events: with_event(players[k].events, kind), ..players[k] }
                } else {
                    players[k]
                },
        ),
    }
}

/// Credits `kind` to the first player with the id.
pub fn set_event(players: &mut Vec<Player>, player_id: u32, kind: EventKind)
    ensures
        final(players)@ == award(old(players)@, Some(player_id), kind),
{
    match find_player(players, player_id) {
        Some(k) => {
            let mut player = players[k];
            match kind {
                EventKind::Goal => player.events.goal = true,
                EventKind::Assist => player.events.assist = true,
                EventKind::Shot => player.events.shot = true,
                EventKind::ShotPass => player.events.shot_pass = true,
                EventKind::Save => player.events.save = true,
            }
            players.set(k, player);
            proof {
                assert forall|j: int| 0 <= j < players@.len() && j != k implies !is_first_with_id(
                    old(players)@,
                    j,
                    player_id,
                ) by {}
            }
        },
        None => {},
    }
    assert(players@ =~= award(old(players)@, Some(player_id), kind));
}

fn award_option(players: &mut Vec<Player>, player_id: Option<u32>, kind: EventKind)
    ensures
        final(players)@ == award(old(players)@, player_id, kind),
{
    if let Some(id) = player_id {
        set_event(players, id, kind);
    }
}

/// The touch tick of the first player with the id.
pub open spec fn hit_tick_of(players: Seq<Player>, id: u32) -> u64 {
    players[choose|k: int| is_first_with_id(players, k, id)].ball_hit.tick_count_when_hit
}

/// What the tracker learns of one step, computed from the simulation.
#[derive(Clone, Copy, Debug, PartialEq, Eq, Structural)]
pub struct StepInfo {
    pub tick_count: u64,
    /// Ticks since the previous state (0 without a previous state).
    pub delta_ticks: u64,
    pub goal_scored: bool,
    /// The team the ball's position credits with a goal.
    pub scoring_team: Team,
    /// The ball is at least as fast as a shot must be.
    pub ball_fast: bool,
    /// The ball is predicted to go in soon.
    pub ball_going_in: bool,
    /// The team whose goal the ball is moving towards.
    pub ball_heading_team: Team,
    /// The shot cooldown has not run out.
    pub cooling_down: bool,
    /// Ticks a goal touch may lie back.
    pub goal_touch_window: u64,
    /// Ticks a pass may lie before the shot touch.
    pub pass_touch_window: u64,
    /// Ticks that must pass after the shot touch before it counts.
    pub min_touch_delay: u64,
}

/// What happens to the shot cooldown, which is kept in seconds by the caller.
#[derive(Clone, Copy, Debug, PartialEq, Eq, Structural)]
pub enum CooldownUpdate {
    Unchanged,
    /// Let the step's time elapse.
    Elapse,
    /// Start the cooldown anew.
    Restart,
}

/// Detects goals (with assists), shots (with passes) and saves.
#[derive(Clone, Copy, Debug, PartialEq, Eq, Structural)]
pub struct GameEventTracker {
    pub ball_shot: bool,
    pub ball_shot_goal_team: Team,
    pub ball_scored_last: bool,
}

/// The tracker looks for a new shot in this step.
pub open spec fn looks_for_shot(tracker: GameEventTracker, step: StepInfo) -> bool {
    &&& !(step.goal_scored && !tracker.ball_scored_last)
    &&& !tracker.ball_shot
    &&& !step.cooling_down
    &&& step.ball_fast
    &&& step.ball_going_in
}

/// One step of the tracker: the next tracker, the players with their new
/// events, and what to do with the shot cooldown.
pub open spec fn event_step(tracker: GameEventTracker, players: Seq<Player>, step: StepInfo) -> (
    GameEventTracker,
    Seq<Player>,
    CooldownUpdate,
) {
    let scored = step.goal_scored;
    let unchanged = GameEventTracker { ball_scored_last: scored, ..tracker };
    if scored && !tracker.ball_scored_last {
        let (scorer, passer) = shooter_passer(
            players,
            step.tick_count,
            step.scoring_team,
            true,
            step.goal_touch_window,
            step.pass_touch_window,
        );
        (
            unchanged,
            award(award(players, scorer, EventKind::Goal), passer, EventKind::Assist),
            CooldownUpdate::Unchanged,
        )
    } else if !tracker.ball_shot {
        if step.cooling_down {
            (unchanged, players, CooldownUpdate::Elapse)
        } else if step.ball_fast && step.ball_going_in {
            let goal_team = step.ball_heading_team;
            let (shooter, passer) = shooter_passer(
                players,
                step.tick_count,
                opposite(goal_team),
                true,
                (step.delta_ticks + step.min_touch_delay) as u64,
                step.pass_touch_window,
            );
            match shooter {
                Some(id) => if step.tick_count - hit_tick_of(players, id) >= step.min_touch_delay {
                    (
                        GameEventTracker { ball_shot: true, ball_shot_goal_team: goal_team, ball_scored_last: scored },
                        award(award(players, shooter, EventKind::Shot), passer, EventKind::ShotPass),
                        CooldownUpdate::Restart,
                    )
                } else {
                    (unchanged, players, CooldownUpdate::Unchanged)
                },
                None => (unchanged, players, CooldownUpdate::Unchanged),
            }
        } else {
            (unchanged, players, CooldownUpdate::Unchanged)
        }
    } else if !step.ball_going_in {
        let (saver, _) = shooter_passer(
            players,
            step.tick_count,
            tracker.ball_shot_goal_team,
            false,
            step.delta_ticks,
            0,
        );
        (
            GameEventTracker { ball_shot: false, ..unchanged },
            award(players, saver, EventKind::Save),
            CooldownUpdate::Unchanged,
        )
    } else {
        (unchanged, players, CooldownUpdate::Unchanged)
    }
}

/// The step's outcome depends on the goal prediction: no new goal, and
/// either a shot is in flight or the tracker is ready to look for one.
pub open spec fn needs_prediction(tracker: GameEventTracker, goal_scored: bool, cooling_down: bool, ball_fast: bool) -> bool {
    &&& !(goal_scored && !tracker.ball_scored_last)
    &&& tracker.ball_shot || (!cooling_down && ball_fast)
}

/// The goal prediction is only consulted when the outcome depends on it:
/// otherwise any prediction gives the same step.
pub proof fn lemma_prediction_only_read_when_needed(
    tracker: GameEventTracker,
    players: Seq<Player>,
    step: StepInfo,
    ball_going_in: bool,
)
    requires
        !needs_prediction(tracker, step.goal_scored, step.cooling_down, step.ball_fast),
    ensures
        event_step(tracker, players, StepInfo { ball_going_in, ..step }) == event_step(tracker, players, step),
{
}

/// Crediting one kind of event leaves every other kind of every player as
/// it was.
pub proof fn lemma_award_only_sets_kind(players: Seq<Player>, id: Option<u32>, kind: EventKind, k: int)
    requires
        0 <= k < players.len(),
    ensures
        award(players, id, kind).len() == players.len(),
        kind != EventKind::Goal ==> award(players, id, kind)[k].events.goal == players[k].events.goal,
        kind != EventKind::Save ==> award(players, id, kind)[k].events.save == players[k].events.save,
        kind != EventKind::Shot ==> award(players, id, kind)[k].events.shot == players[k].events.shot,
{
}

/// A goal is credited only in the step in which it is scored: while the
/// goal flag stays set, no further goal event is given.
pub proof fn lemma_goal_credited_once(tracker: GameEventTracker, players: Seq<Player>, step: StepInfo, k: int)
    requires
        tracker.ball_scored_last,
        0 <= k < players.len(),
    ensures
        event_step(tracker, players, step).1.len() == players.len(),
        event_step(tracker, players, step).1[k].events.goal == players[k].events.goal,
{
    let (shooter, passer) = shooter_passer(
        players,
        step.tick_count,
        opposite(step.ball_heading_team),
        true,
        (step.delta_ticks + step.min_touch_delay) as u64,
        step.pass_touch_window,
    );
    lemma_award_only_sets_kind(players, shooter, EventKind::Shot, k);
    lemma_award_only_sets_kind(award(players, shooter, EventKind::Shot), passer, EventKind::ShotPass, k);
    let (saver, _) = shooter_passer(players, step.tick_count, tracker.ball_shot_goal_team, false, step.delta_ticks, 0);
    lemma_award_only_sets_kind(players, saver, EventKind::Save, k);
}

/// A save is only credited while a shot is in flight, and a new shot only
/// when none is.
pub proof fn lemma_save_needs_shot(tracker: GameEventTracker, players: Seq<Player>, step: StepInfo, k: int)
    requires
        0 <= k < players.len(),
    ensures
        event_step(tracker, players, step).1.len() == players.len(),
        !tracker.ball_shot ==> event_step(tracker, players, step).1[k].events.save == players[k].events.save,
        tracker.ball_shot ==> event_step(tracker, players, step).1[k].events.shot == players[k].events.shot,
{
    let (scorer, scoring_passer) = shooter_passer(
        players,
        step.tick_count,
        step.scoring_team,
        true,
        step.goal_touch_window,
        step.pass_touch_window,
    );
    lemma_award_only_sets_kind(players, scorer, EventKind::Goal, k);
    lemma_award_only_sets_kind(award(players, scorer, EventKind::Goal), scoring_passer, EventKind::Assist, k);
    let (shooter, passer) = shooter_passer(
        players,
        step.tick_count,
        opposite(step.ball_heading_team),
        true,
        (step.delta_ticks + step.min_touch_delay) as u64,
        step.pass_touch_window,
    );
    lemma_award_only_sets_kind(players, shooter, EventKind::Shot, k);
    lemma_award_only_sets_kind(award(players, shooter, EventKind::Shot), passer, EventKind::ShotPass, k);
    let (saver, _) = shooter_passer(players, step.tick_count, tracker.ball_shot_goal_team, false, step.delta_ticks, 0);
    lemma_award_only_sets_kind(players, saver, EventKind::Save, k);
}

proof fn lemma_first_with_id_unique(players: Seq<Player>, a: int, b: int, id: u32)
    requires
        is_first_with_id(players, a, id),
        is_first_with_id(players, b, id),
    ensures
        a == b,
{
}

impl GameEventTracker {
    pub fn new() -> (res: Self)
        ensures
            res == (GameEventTracker { ball_shot: false, ball_shot_goal_team: Team::Blue, ball_scored_last: false }),
    {
        GameEventTracker { ball_shot: false, ball_shot_goal_team: Team::Blue, ball_scored_last: false }
    }

    /// Forgets the shot in flight and the last goal; the caller also clears
    /// the shot cooldown.
    pub fn reset(&mut self)
        ensures
            *final(self) == (GameEventTracker {
                ball_shot: false,
                ball_scored_last: false,
                ..*old(self)
            }),
    {
        self.ball_shot = false;
        self.ball_scored_last = false;
    }

    /// Whether the coming step reads the goal prediction.
    pub fn reads_prediction(&self, goal_scored: bool, cooling_down: bool, ball_fast: bool) -> (res: bool)
        ensures
            res == needs_prediction(*self, goal_scored, cooling_down, ball_fast),
    {
        !(goal_scored && !self.ball_scored_last) && (self.ball_shot || (!cooling_down && ball_fast))
    }

    /// Whether the step looks for a new shot.
    pub fn checks_for_shot(&self, step: &StepInfo) -> (res: bool)
        ensures
            res == looks_for_shot(*self, *step),
    {
        !(step.goal_scored && !self.ball_scored_last) && !self.ball_shot && !step.cooling_down && step.ball_fast
            && step.ball_going_in
    }

    /// Credits the step's goal, assist, shot, pass or save to the players.
    pub fn update(&mut self, players: &mut Vec<Player>, step: &StepInfo) -> (res: CooldownUpdate)
        requires
            looks_for_shot(*old(self), *step) ==> step.delta_ticks + step.min_touch_delay <= u64::MAX,
            looks_for_shot(*old(self), *step) ==> (shooter_passer(
                old(players)@,
                step.tick_count,
                opposite(step.ball_heading_team),
                true,
                (step.delta_ticks + step.min_touch_delay) as u64,
                step.pass_touch_window,
            ).0 matches Some(id) ==> hit_tick_of(old(players)@, id) <= step.tick_count),
        ensures
            (*final(self), final(players)@, res) == event_step(*old(self), old(players)@, *step),
    {
        let scored = step.goal_scored;
        let mut result = CooldownUpdate::Unchanged;
        if scored && !self.ball_scored_last {
            let (scorer, passer) = find_shooter_passer(
                players,
                step.tick_count,
                step.scoring_team,
                true,
                step.goal_touch_window,
                step.pass_touch_window,
            );
            award_option(players, scorer, EventKind::Goal);
            award_option(players, passer, EventKind::Assist);
        } else if !self.ball_shot {
            if step.cooling_down {
                result = CooldownUpdate::Elapse;
            } else if step.ball_fast && step.ball_going_in {
                let goal_team = step.ball_heading_team;
                let shooter_team = opposite_team(goal_team);
                let min_touch_delay = step.min_touch_delay;
                let (shooter, passer) = find_shooter_passer(
                    players,
                    step.tick_count,
                    shooter_team,
                    true,
                    step.delta_ticks + min_touch_delay,
                    step.pass_touch_window,
                );
                if let Some(shooter_id) = shooter {
                    let ghost before = players@;
                    let index = find_player(players, shooter_id);
                    proof {
                        lemma_latest_touch(before, shooter_team, None, (step.delta_ticks + min_touch_delay) as u64, step.tick_count);
                        let s = latest_touch(before, shooter_team, None, (step.delta_ticks + min_touch_delay) as u64, step.tick_count).unwrap();
                        assert(before[s].id == shooter_id);
                    }
                    let index = index.unwrap();
                    proof {
                        let k = choose|k: int| is_first_with_id(before, k, shooter_id);
                        lemma_first_with_id_unique(before, k, index as int, shooter_id);
                    }
                    let hit_tick = players[index].ball_hit.tick_count_when_hit;
                    if step.tick_count - hit_tick >= min_touch_delay {
                        self.ball_shot = true;
                        self.ball_shot_goal_team = goal_team;
                        result = CooldownUpdate::Restart;
                        award_option(players, shooter, EventKind::Shot);
                        award_option(players, passer, EventKind::ShotPass);
                    }
                }
            }
        } else if !step.ball_going_in {
            let (saver, _) = find_shooter_passer(
                players,
                step.tick_count,
                self.ball_shot_goal_team,
                false,
                step.delta_ticks,
                0,
            );
            award_option(players, saver, EventKind::Save);
            self.ball_shot = false;
        }
        self.ball_scored_last = scored;
        result
    }
}

} // verus!

