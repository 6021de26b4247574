use vstd::prelude::*;

use crate::env::consts::{NUM_PADS, PADS};

verus! {

#[derive(Clone, Copy, Debug, PartialEq, Eq, Structural)]
pub enum Team {
    Blue,
    Orange,
}

/// Game events credited to a player during the last step.
#[derive(Clone, Copy, Debug, PartialEq, Eq, Structural)]
pub struct PlayerEvents {
    pub goal: bool,
    pub assist: bool,
    pub shot: bool,
    pub shot_pass: bool,
    pub save: bool,
    pub bump: bool,
    pub bumped: bool,
    pub demo: bool,
    pub demoed: bool,
}

pub open spec fn no_events() -> PlayerEvents {
    PlayerEvents {
        goal: false,
        assist: false,
        shot: false,
        shot_pass: false,
        save: false,
        bump: false,
        bumped: false,
        demo: false,
        demoed: false,
    }
}

impl Default for PlayerEvents {
    fn default() -> (res: Self)
        ensures
            res == no_events(),
    {
        PlayerEvents {
            goal: false,
            assist: false,
            shot: false,
            shot_pass: false,
            save: false,
            bump: false,
            bumped: false,
            demo: false,
            demoed: false,
        }
    }
}

/// The last ball touch the simulation recorded for a car.
#[derive(Clone, Copy, Debug, PartialEq, Eq, Structural)]
pub struct BallHit {
    /// The car has touched the ball at least once.
    pub is_valid: bool,
    pub tick_count_when_hit: u64,
}

/// What the game logic reads and writes of a player.
#[derive(Clone, Copy, Debug, PartialEq, Eq, Structural)]
pub struct Player {
    pub id: u32,
    pub team: Team,
    pub ball_hit: BallHit,
    /// The player touched the ball during the last step.
    pub ball_touched: bool,
    pub events: PlayerEvents,
}

impl Player {
    /// A player as the simulation reports it: no touch and no events yet.
    pub fn new(id: u32, team: Team, ball_hit: BallHit) -> (res: Self)
        ensures
            res == (Player { id, team, ball_hit, ball_touched: false, events: no_events() }),
    {
        Player { id, team, ball_hit, ball_touched: false, events: PlayerEvents::default() }
    }
}

/// A touch belongs to the step that started at tick `previous_tick`.
pub open spec fn touched_since(hit: BallHit, previous_tick: u64) -> bool {
    hit.is_valid && hit.tick_count_when_hit >= previous_tick
}

/// Marks the players who touched the ball since the previous state, which
/// was taken at tick `previous_tick`.
pub fn update_ball_touches(players: &mut Vec<Player>, previous_tick: u64)
    ensures
        final(players)@.len() == old(players)@.len(),
        forall|i: int|
            0 <= i < old(players)@.len() ==> #[trigger] final(players)@[i] == (Player {
                ball_touched: touched_since(old(players)@[i].ball_hit, previous_tick),
                ..old(players)@[i]
            }),
{
    let n = players.len();
    let mut index: usize = 0;
    while index < n
        invariant
            n == old(players)@.len(),
            players@.len() == n,
            index <= n,
            forall|i: int|
                0 <= i < index ==> #[trigger] players@[i] == (Player {
                    ball_touched: touched_since(old(players)@[i].ball_hit, previous_tick),
                    ..old(players)@[i]
                }),
            forall|i: int| index <= i < n ==> #[trigger] players@[i] == old(players)@[i],
        decreases n - index,
    {
        let mut player = players[index];
        let hit = player.ball_hit;
        player.ball_touched = hit.is_valid && hit.tick_count_when_hit >= previous_tick;
        players.set(index, player);
        index = index + 1;
    }
}

/// `index` is the first position of a player with the given id.
pub open spec fn is_first_with_id(players: Seq<Player>, index: int, id: u32) -> bool {
    &&& 0 <= index < players.len()
    &&& players[index].id == id
    &&& forall|j: int| 0 <= j < index ==> players[j].id != id
}

/// Two player lists with the same ids at the same positions.
pub open spec fn same_ids(a: Seq<Player>, b: Seq<Player>) -> bool {
    a.len() == b.len() && forall|j: int| 0 <= j < a.len() ==> #[trigger] a[j].id == b[j].id
}

pub proof fn lemma_same_ids_first(a: Seq<Player>, b: Seq<Player>, index: int, id: u32)
    requires
        same_ids(a, b),
    ensures
        is_first_with_id(a, index, id) == is_first_with_id(b, index, id),
{
    if is_first_with_id(a, index, id) {
        assert forall|j: int| 0 <= j < index implies b[j].id != id by {
            assert(a[j].id == b[j].id);
        }
    }
    if is_first_with_id(b, index, id) {
        assert forall|j: int| 0 <= j < index implies a[j].id != id by {
            assert(a[j].id == b[j].id);
        }
    }
}

pub open spec fn has_id(players: Seq<Player>, id: u32) -> bool {
    exists|i: int| 0 <= i < players.len() && players[i].id == id
}

/// The position of the first player with the given id.
pub fn find_player(players: &Vec<Player>, id: u32) -> (res: Option<usize>)
    ensures
        match res {
            Some(index) => is_first_with_id(players@, index as int, id),
            None => !has_id(players@, id),
        },
{
    let mut index: usize = 0;
    while index < players.len()
        invariant
            index <= players@.len(),
            forall|j: int| 0 <= j < index ==> players@[j].id != id,
        decreases players@.len() - index,
    {
        if players[index].id == id {
            return Some(index);
        }
        index = index + 1;
    }
    None
}

/// The order of `ids` sorted by value: `res[k]` is the position of the
/// `k`-th smallest id.
pub open spec fn sorted_by_id(ids: Seq<u32>, order: Seq<usize>) -> bool {
    forall|a: int, b: int|
        0 <= a <= b < order.len() ==> ids[#[trigger] order[a] as int] <= ids[#[trigger] order[b] as int]
}

/// The positions of the players in increasing id order (the simulation
/// lists its cars in no particular order).
pub fn id_order(ids: &Vec<u32>) -> (res: Vec<usize>)
    ensures
        res@.len() == ids@.len(),
        forall|k: int| 0 <= k < res@.len() ==> #[trigger] res@[k] < ids@.len(),
        forall|j: usize| j < ids@.len() ==> #[trigger] res@.contains(j),
        sorted_by_id(ids@, res@),
{
    let n = ids.len();
    let mut order: Vec<usize> = Vec::with_capacity(n);
    let mut index: usize = 0;
    while index < n
        invariant
            n == ids@.len(),
            index <= n,
            order@.len() == index,
            forall|k: int| 0 <= k < order@.len() ==> #[trigger] order@[k] < index,
            forall|j: usize| j < index ==> #[trigger] order@.contains(j),
            sorted_by_id(ids@, order@),
        decreases n - index,
    {
        let id = ids[index];
        let mut position: usize = 0;
        while position < order.len() && ids[order[position]] <= id
            invariant
                n == ids@.len(),
                index < n,
                id == ids@[index as int],
                position <= order@.len(),
                forall|k: int| 0 <= k < order@.len() ==> #[trigger] order@[k] < index,
                forall|k: int| 0 <= k < position ==> ids@[#[trigger] order@[k] as int] <= id,
            decreases order@.len() - position,
        {
            position = position + 1;
        }
        let ghost before = order@;
        order.insert(position, index);
        proof {
            before.insert_ensures(position as int, index);
            assert forall|a: int, b: int| 0 <= a <= b < order@.len() implies ids@[#[trigger] order@[a] as int]
                <= ids@[#[trigger] order@[b] as int] by {
                if position < before.len() {
                    assert(ids@[before[position as int] as int] > id);
                }
                if a < position && b > position {
                    assert(ids@[before[a] as int] <= id);
                    assert(ids@[before[position as int] as int] <= ids@[before[b - 1] as int]);
                } else if a < position && b < position {
                } else if a == position && b > position {
                    assert(ids@[before[position as int] as int] <= ids@[before[b - 1] as int]);
                } else if a == position && b == position {
                } else if a < position && b == position {
                    assert(ids@[before[a] as int] <= id);
                } else {
                    assert(ids@[before[a - 1] as int] <= ids@[before[b - 1] as int]);
                }
            }
            assert forall|j: usize| j < index + 1 implies #[trigger] order@.contains(j) by {
                if j == index {
                    assert(order@[position as int] == j);
                } else {
                    assert(before.contains(j));
                    let k = choose|k: int| 0 <= k < before.len() && before[k] == j;
                    if k < position {
                        assert(order@[k] == j);
                    } else {
                        assert(order@[k + 1] == j);
                    }
                }
            }
        }
        index = index + 1;
    }
    order
}

/// Why the boost pads of an arena could not be matched to the canonical pads.
#[derive(Clone, Copy, Debug, PartialEq, Eq, Structural)]
pub enum PadIndexError {
    /// The arena has this many pads instead of `NUM_PADS`.
    WrongCount(usize),
    /// No arena pad stands at the canonical pad with this index.
    Missing(usize),
    /// Several arena pads stand at the canonical pad with this index.
    Duplicate(usize),
}

/// An arena pad position with whole coordinates, or `None` for a position
/// off the whole-unit grid (where no canonical pad stands).
pub type PadPosition = Option<(i32, i32, i32)>;

pub open spec fn pad_matches(pads: Seq<PadPosition>, index: int, canonical: int) -> bool {
    pads[index] == Some(PADS@[canonical])
}

pub open spec fn pad_found(pads: Seq<PadPosition>, canonical: int) -> bool {
    exists|i: int| 0 <= i < pads.len() && pad_matches(pads, i, canonical)
}

pub open spec fn pad_unique(pads: Seq<PadPosition>, canonical: int) -> bool {
    forall|i: int, j: int|
        0 <= i < pads.len() && 0 <= j < pads.len() && pad_matches(pads, i, canonical)
            && pad_matches(pads, j, canonical) ==> i == j
}

/// The canonical pad stands exactly once among the arena pads.
pub open spec fn pad_matched_once(pads: Seq<PadPosition>, canonical: int) -> bool {
    pad_found(pads, canonical) && pad_unique(pads, canonical)
}

fn stands_at(pad: PadPosition, expected: (i32, i32, i32)) -> (res: bool)
    ensures
        res == (pad == Some(expected)),
{
    match pad {
        Some(position) => position.0 == expected.0 && position.1 == expected.1 && position.2 == expected.2,
        None => false,
    }
}

/// For every canonical pad, the index of the arena pad at its position.
#[verifier::loop_isolation(false)]
pub fn boost_pad_indices(pads: &Vec<PadPosition>) -> (res: Result<Vec<usize>, PadIndexError>)
    ensures
        pads@.len() != NUM_PADS ==> res == Err::<Vec<usize>, PadIndexError>(
            PadIndexError::WrongCount(pads@.len() as usize),
        ),
        pads@.len() == NUM_PADS ==> !(res matches Err(PadIndexError::WrongCount(_))),
        res matches Ok(indices) ==> {
            &&& indices@.len() == NUM_PADS
            &&& forall|c: int| 0 <= c < NUM_PADS ==> #[trigger] pad_matched_once(pads@, c)
            &&& forall|c: int|
                0 <= c < NUM_PADS ==> 0 <= #[trigger] indices@[c] < NUM_PADS && pad_matches(
                    pads@,
                    indices@[c] as int,
                    c,
                )
        },
        res matches Err(PadIndexError::Missing(c)) ==> {
            &&& c < NUM_PADS
            &&& forall|d: int| 0 <= d < c ==> #[trigger] pad_matched_once(pads@, d)
            &&& !pad_found(pads@, c as int)
        },
        res matches Err(PadIndexError::Duplicate(c)) ==> {
            &&& c < NUM_PADS
            &&& forall|d: int| 0 <= d < c ==> #[trigger] pad_matched_once(pads@, d)
            &&& pad_found(pads@, c as int)
            &&& !pad_unique(pads@, c as int)
        },
{
    let n = pads.len();
    if n != NUM_PADS {
        return Err(PadIndexError::WrongCount(n));
    }
    let mut indices: Vec<usize> = Vec::with_capacity(NUM_PADS);
    let mut canonical: usize = 0;
    while canonical < NUM_PADS
        invariant
            n == pads@.len(),
            n == NUM_PADS,
            canonical <= NUM_PADS,
            indices@.len() == canonical,
            forall|c: int| 0 <= c < canonical ==> #[trigger] pad_matched_once(pads@, c),
            forall|c: int|
                0 <= c < canonical ==> 0 <= #[trigger] indices@[c] < NUM_PADS && pad_matches(
                    pads@,
                    indices@[c] as int,
                    c,
                ),
        decreases NUM_PADS - canonical,
    {
        let expected = PADS[canonical];
        let mut first: usize = 0;
        while first < n && !stands_at(pads[first], expected)
            invariant
                n == pads@.len(),
                first <= n,
                expected == PADS@[canonical as int],
                forall|i: int| 0 <= i < first ==> !pad_matches(pads@, i, canonical as int),
            decreases n - first,
        {
            first = first + 1;
        }
        if first == n {
            return Err(PadIndexError::Missing(canonical));
        }
        let mut second: usize = first + 1;
        while second < n && !stands_at(pads[second], expected)
            invariant
                n == pads@.len(),
                first < second <= n,
                expected == PADS@[canonical as int],
                pad_matches(pads@, first as int, canonical as int),
                forall|i: int| 0 <= i < first ==> !pad_matches(pads@, i, canonical as int),
                forall|i: int| first < i < second ==> !pad_matches(pads@, i, canonical as int),
            decreases n - second,
        {
            second = second + 1;
        }
        if second < n {
            proof {
                assert(pad_matches(pads@, first as int, canonical as int));
                assert(pad_matches(pads@, second as int, canonical as int));
                assert(pad_found(pads@, canonical as int));
            }
            return Err(PadIndexError::Duplicate(canonical));
        }
        proof {
            assert(pad_matches(pads@, first as int, canonical as int));
            assert(pad_found(pads@, canonical as int));
            assert(pad_unique(pads@, canonical as int));
        }
        indices.push(first);
        canonical = canonical + 1;
    }
    Ok(indices)
}

/// No two canonical pads share a position.
pub proof fn lemma_pads_distinct(c1: int, c2: int)
    requires
        0 <= c1 < NUM_PADS,
        0 <= c2 < NUM_PADS,
        c1 != c2,
    ensures
        PADS@[c1] != PADS@[c2],
{
}

/// Matched pads form a permutation of the arena's pads: no arena pad is
/// matched to two canonical pads.
pub proof fn lemma_pad_indices_injective(pads: Seq<PadPosition>, indices: Seq<usize>, c1: int, c2: int)
    requires
        0 <= c1 < NUM_PADS,
        0 <= c2 < NUM_PADS,
        c1 != c2,
        pad_matches(pads, indices[c1] as int, c1),
        pad_matches(pads, indices[c2] as int, c2),
    ensures
        indices[c1] != indices[c2],
{
    lemma_pads_distinct(c1, c2);
}

} // verus!
