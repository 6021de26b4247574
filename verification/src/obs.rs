use vstd::prelude::*;

use crate::env::consts::NUM_PADS;
use crate::env::state::Team;

verus! {

/// Ball position, velocity and angular velocity.
pub const BALL_OBS_SIZE: usize = 9;

/// The player's last controls.
pub const ACTION_SIZE: usize = 8;

/// The observation block of one player.
pub const PLAYER_OBS_SIZE: usize = 29;

/// Ball, last controls and one value per boost pad.
pub const BASE_OBS_SIZE: usize = BALL_OBS_SIZE + ACTION_SIZE + NUM_PADS;

/// The observation of a player: the ball, its last controls, the boost
/// pads, then one block per player: its own, its teammates', then its
/// opponents'. Orange players see the field mirrored.
pub struct AdvancedObs;

pub open spec fn positions(n: nat) -> Seq<usize> {
    Seq::new(n, |i: int| i as usize)
}

pub open spec fn is_teammate(teams: Seq<Team>, me: int) -> spec_fn(usize) -> bool {
    |i: usize| i != me && teams[i as int] == teams[me]
}

pub open spec fn is_opponent(teams: Seq<Team>, me: int) -> spec_fn(usize) -> bool {
    |i: usize| teams[i as int] != teams[me]
}

/// The order of the player blocks in the observation of player `me`: the
/// player itself, its teammates, then its opponents, each group in player
/// order.
pub open spec fn block_order(teams: Seq<Team>, me: int) -> Seq<usize> {
    seq![me as usize] + positions(teams.len()).filter(is_teammate(teams, me)) + positions(
        teams.len(),
    ).filter(is_opponent(teams, me))
}

impl AdvancedObs {
    pub fn new() -> (res: Self)
        ensures
            res == AdvancedObs,
    {
        AdvancedObs
    }

    /// The length of every observation with `player_count` players.
    pub fn obs_size(&self, player_count: usize) -> (res: usize)
        requires
            BASE_OBS_SIZE + PLAYER_OBS_SIZE * player_count <= usize::MAX,
        ensures
            res == BASE_OBS_SIZE + PLAYER_OBS_SIZE * player_count,
    {
        BASE_OBS_SIZE + PLAYER_OBS_SIZE * player_count
    }
}

impl Default for AdvancedObs {
    fn default() -> (res: Self)
        ensures
            res == AdvancedObs,
    {
        Self::new()
    }
}

proof fn lemma_filter_step(n: nat, pred: spec_fn(usize) -> bool)
    ensures
        positions(n + 1).filter(pred) == if pred(n as usize) {
            positions(n).filter(pred).push(n as usize)
        } else {
            positions(n).filter(pred)
        },
{
    reveal_with_fuel(Seq::<usize>::filter, 1);
    assert(positions(n + 1).drop_last() =~= positions(n));
}

/// The indices of the player blocks in the observation of the player at
/// `player_index`.
pub fn player_order(teams: &Vec<Team>, player_index: usize) -> (res: Vec<usize>)
    requires
        player_index < teams@.len(),
    ensures
        res@ == block_order(teams@, player_index as int),
{
    let n = teams.len();
    let ghost me = player_index as int;
    let mut order: Vec<usize> = Vec::new();
    order.push(player_index);
    let mut index: usize = 0;
    while index < n
        invariant
            n == teams@.len(),
            me == player_index,
            player_index < n,
            index <= n,
            order@ == seq![player_index] + positions(index as nat).filter(is_teammate(teams@, me)),
        decreases n - index,
    {
        proof {
            lemma_filter_step(index as nat, is_teammate(teams@, me));
        }
        if index != player_index && teams[index] == teams[player_index] {
            order.push(index);
        }
        index = index + 1;
    }
    let ghost teammates = order@;
    let mut index: usize = 0;
    assert(positions(0).filter(is_opponent(teams@, me)) =~= Seq::<usize>::empty()) by {
        reveal_with_fuel(Seq::<usize>::filter, 1);
    }
    assert(teammates =~= teammates + positions(0).filter(is_opponent(teams@, me)));
    while index < n
        invariant
            n == teams@.len(),
            me == player_index,
            player_index < n,
            index <= n,
            order@ == teammates + positions(index as nat).filter(is_opponent(teams@, me)),
        decreases n - index,
    {
        proof {
            lemma_filter_step(index as nat, is_opponent(teams@, me));
        }
        if teams[index] != teams[player_index] {
            order.push(index);
        }
        index = index + 1;
    }
    order
}

proof fn lemma_partition_len(teams: Seq<Team>, me: int, n: nat)
    requires
        0 <= me < teams.len(),
        n <= teams.len() <= usize::MAX,
    ensures
        positions(n).filter(is_teammate(teams, me)).len() + positions(n).filter(is_opponent(teams, me)).len()
            == if me < n {
            n - 1
        } else {
            n as int
        },
    decreases n,
{
    if n > 0 {
        let m = (n - 1) as nat;
        lemma_partition_len(teams, me, m);
        assert((m as usize) as int == m);
        lemma_filter_step(m, is_teammate(teams, me));
        lemma_filter_step(m, is_opponent(teams, me));
    } else {
        reveal_with_fuel(Seq::<usize>::filter, 1);
    }
}

/// Every player's block appears exactly once in every observation: the
/// order has one entry per player and names every player.
pub proof fn lemma_block_order_is_permutation(teams: Seq<Team>, me: int)
    requires
        0 <= me < teams.len() <= usize::MAX,
    ensures
        block_order(teams, me).len() == teams.len(),
        forall|j: usize| j < teams.len() ==> #[trigger] block_order(teams, me).contains(j),
        forall|k: int| 0 <= k < teams.len() ==> (#[trigger] block_order(teams, me)[k]) < teams.len(),
{
    let n = teams.len();
    let all = positions(n);
    let mates = all.filter(is_teammate(teams, me));
    let others = all.filter(is_opponent(teams, me));
    let order = block_order(teams, me);
    lemma_partition_len(teams, me, n);
    assert forall|j: usize| j < n implies #[trigger] order.contains(j) by {
        let i = j as int;
        assert(all[i] == j);
        if i == me {
            assert(order[0] == j);
        } else if teams[i] == teams[me] {
            all.lemma_filter_contains(is_teammate(teams, me), i);
            let k = choose|k: int| 0 <= k < mates.len() && mates[k] == all[i];
            assert(order[1 + k] == j);
        } else {
            all.lemma_filter_contains(is_opponent(teams, me), i);
            let k = choose|k: int| 0 <= k < others.len() && others[k] == all[i];
            assert(order[1 + mates.len() + k] == j);
        }
    }
    assert forall|k: int| 0 <= k < n implies (#[trigger] order[k]) < n by {
        if k == 0 {
        } else if k < 1 + mates.len() {
            lemma_filter_in_range_bound(all, is_teammate(teams, me), k - 1, n);
        } else {
            lemma_filter_in_range_bound(all, is_opponent(teams, me), k - 1 - mates.len(), n);
        }
    }
}

proof fn lemma_filter_in_range_bound(all: Seq<usize>, pred: spec_fn(usize) -> bool, k: int, bound: nat)
    requires
        forall|i: int| 0 <= i < all.len() ==> #[trigger] all[i] < bound,
        0 <= k < all.filter(pred).len(),
    ensures
        all.filter(pred)[k] < bound,
    decreases all.len(),
{
    reveal_with_fuel(Seq::<usize>::filter, 1);
    let prefix = all.drop_last();
    if k < prefix.filter(pred).len() {
        assert forall|i: int| 0 <= i < prefix.len() implies #[trigger] prefix[i] < bound by {
            assert(prefix[i] == all[i]);
        }
        lemma_filter_in_range_bound(prefix, pred, k, bound);
    }
}

} // verus!
