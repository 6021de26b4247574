use vstd::prelude::*;

verus! {

/// One discrete car input. The analog axes (`throttle`, `steer`, `pitch`,
/// `yaw`, `roll`) only ever take the values -1, 0 and 1.
#[derive(Clone, Copy, Debug, PartialEq, Eq, Structural)]
pub struct Controls {
    pub throttle: i8,
    pub steer: i8,
    pub pitch: i8,
    pub yaw: i8,
    pub roll: i8,
    pub jump: bool,
    pub boost: bool,
    pub handbrake: bool,
}

/// What the action mask reads of a car.
#[derive(Clone, Copy, Debug, PartialEq, Eq, Structural)]
pub struct CarFlags {
    pub is_on_ground: bool,
    /// The boost tank is not empty.
    pub has_boost: bool,
    /// The car still has its flip or jump.
    pub has_flip_or_jump: bool,
    /// The car touches the world.
    pub has_world_contact: bool,
    /// The world contact normal points (almost) straight up.
    pub contact_normal_up: bool,
}

/// Number of entries of the lookup table.
pub const NUM_ACTIONS: usize = 90;

/// Number of ground entries, which come first in the lookup table.
pub const NUM_GROUND_ACTIONS: usize = 24;

pub open spec fn ground_controls(throttle: i8, steer: i8, boost: bool, handbrake: bool) -> Controls {
    Controls { throttle, steer, pitch: 0, yaw: steer, roll: 0, jump: false, boost, handbrake }
}

/// Ground entries for one throttle, steer and boost: both handbrake values,
/// none when boosting without full throttle.
pub open spec fn ground_cell(throttle: i8, steer: i8, boost: bool) -> Seq<Controls> {
    if boost && throttle != 1 {
        Seq::empty()
    } else {
        seq![
            ground_controls(throttle, steer, boost, false),
            ground_controls(throttle, steer, boost, true),
        ]
    }
}

pub open spec fn ground_row(throttle: i8, steer: i8) -> Seq<Controls> {
    ground_cell(throttle, steer, false) + ground_cell(throttle, steer, true)
}

pub open spec fn ground_block(throttle: i8) -> Seq<Controls> {
    ground_row(throttle, -1i8) + ground_row(throttle, 0i8) + ground_row(throttle, 1i8)
}

/// Throttle, steer, boost and handbrake, in that nesting order, each value
/// in increasing order (`false` before `true`), without illegal entries.
pub open spec fn ground_table() -> Seq<Controls> {
    ground_block(-1i8) + ground_block(0i8) + ground_block(1i8)
}

pub open spec fn air_controls(pitch: i8, yaw: i8, roll: i8, jump: bool, boost: bool) -> Controls {
    Controls {
        throttle: if boost { 1 } else { 0 },
        steer: yaw,
        pitch,
        yaw,
        roll,
        jump,
        boost,
        handbrake: jump && (pitch != 0 || yaw != 0 || roll != 0),
    }
}

/// Aerial entries for one pitch, yaw, roll and jump: both boost values,
/// none for a jump with yaw, none for a neutral pitch and roll without jump.
pub open spec fn air_cell(pitch: i8, yaw: i8, roll: i8, jump: bool) -> Seq<Controls> {
    if (jump && yaw != 0) || (pitch == 0 && roll == 0 && !jump) {
        Seq::empty()
    } else {
        seq![air_controls(pitch, yaw, roll, jump, false), air_controls(pitch, yaw, roll, jump, true)]
    }
}

pub open spec fn air_roll(pitch: i8, yaw: i8, roll: i8) -> Seq<Controls> {
    air_cell(pitch, yaw, roll, false) + air_cell(pitch, yaw, roll, true)
}

pub open spec fn air_yaw(pitch: i8, yaw: i8) -> Seq<Controls> {
    air_roll(pitch, yaw, -1i8) + air_roll(pitch, yaw, 0i8) + air_roll(pitch, yaw, 1i8)
}

pub open spec fn air_pitch(pitch: i8) -> Seq<Controls> {
    air_yaw(pitch, -1i8) + air_yaw(pitch, 0i8) + air_yaw(pitch, 1i8)
}

/// Pitch, yaw, roll, jump and boost, in that nesting order, each value in
/// increasing order, without illegal entries.
pub open spec fn air_table() -> Seq<Controls> {
    air_pitch(-1i8) + air_pitch(0i8) + air_pitch(1i8)
}

/// The full table: ground entries, then aerial entries.
pub open spec fn lookup_table() -> Seq<Controls> {
    ground_table() + air_table()
}

pub open spec fn bit(b: bool) -> u8 {
    if b {
        1
    } else {
        0
    }
}

/// Whether the entry at `index` may be used in the air without a jump:
/// every aerial entry without jump, and the ground entries whose throttle
/// equals their boost and whose handbrake is on exactly when they yaw.
pub open spec fn air_allowed(index: int, action: Controls) -> bool {
    if index < NUM_GROUND_ACTIONS {
        action.throttle == (if action.boost { 1i8 } else { 0i8 }) && (action.yaw != 0) == action.handbrake
    } else {
        !action.jump
    }
}

/// Whether the entry at `index` is allowed for a car in the given situation.
pub open spec fn mask_allows(
    index: int,
    action: Controls,
    is_on_ground: bool,
    has_boost: bool,
    can_jump: bool,
) -> bool {
    &&& has_boost || !action.boost
    &&& (if is_on_ground {
        index < NUM_GROUND_ACTIONS
    } else {
        air_allowed(index, action)
    }) || (can_jump && action.jump)
}

pub open spec fn ground_mask_spec() -> Seq<u8> {
    Seq::new(NUM_ACTIONS as nat, |i: int| bit(i < NUM_GROUND_ACTIONS))
}

pub open spec fn air_mask_spec() -> Seq<u8> {
    Seq::new(NUM_ACTIONS as nat, |i: int| bit(air_allowed(i, lookup_table()[i])))
}

pub open spec fn jump_mask_spec() -> Seq<u8> {
    Seq::new(NUM_ACTIONS as nat, |i: int| bit(lookup_table()[i].jump))
}

pub open spec fn boost_mask_spec() -> Seq<u8> {
    Seq::new(NUM_ACTIONS as nat, |i: int| bit(lookup_table()[i].boost))
}

pub open spec fn mask_spec(is_on_ground: bool, has_boost: bool, can_jump: bool) -> Seq<u8> {
    Seq::new(
        NUM_ACTIONS as nat,
        |i: int| bit(mask_allows(i, lookup_table()[i], is_on_ground, has_boost, can_jump)),
    )
}

/// The table has 24 ground entries and 66 aerial entries.
pub proof fn lemma_table_len()
    ensures
        ground_table().len() == NUM_GROUND_ACTIONS,
        air_table().len() == NUM_ACTIONS - NUM_GROUND_ACTIONS,
        lookup_table().len() == NUM_ACTIONS,
{
}

/// Ground entries never pitch, roll or jump, yaw with their steer, and only
/// boost at full throttle.
pub proof fn lemma_ground_entries_shape(i: int)
    requires
        0 <= i < NUM_GROUND_ACTIONS,
    ensures
        lookup_table()[i].pitch == 0,
        lookup_table()[i].roll == 0,
        lookup_table()[i].yaw == lookup_table()[i].steer,
        !lookup_table()[i].jump,
        !lookup_table()[i].boost || lookup_table()[i].throttle == 1,
{
    lemma_table_len();
    let t = lookup_table();
    assert(t[i] == ground_table()[i]);
}

/// Aerial entries steer with their yaw, throttle exactly when they boost,
/// never jump while yawing, and handbrake exactly for a jump with rotation.
pub proof fn lemma_air_entries_shape(i: int)
    requires
        NUM_GROUND_ACTIONS <= i < NUM_ACTIONS,
    ensures
        lookup_table()[i].steer == lookup_table()[i].yaw,
        lookup_table()[i].throttle == (if lookup_table()[i].boost { 1i8 } else { 0i8 }),
        !lookup_table()[i].jump || lookup_table()[i].yaw == 0,
        lookup_table()[i].handbrake == (lookup_table()[i].jump && (lookup_table()[i].pitch != 0
            || lookup_table()[i].yaw != 0 || lookup_table()[i].roll != 0)),
{
    lemma_table_len();
    let t = lookup_table();
    assert(t[i] == air_table()[i - NUM_GROUND_ACTIONS]);
}

/// A discrete action space: a fixed table of controls with a mask of the
/// entries a car may use in its current situation.
pub struct LookupTableAction {
    actions: Vec<Controls>,
    ground_mask: Vec<u8>,
    air_mask: Vec<u8>,
    jump_mask: Vec<u8>,
    boost_mask: Vec<u8>,
}

fn push_ground_cell(actions: &mut Vec<Controls>, throttle: i8, steer: i8, boost: bool)
    ensures
        final(actions)@ == old(actions)@ + ground_cell(throttle, steer, boost),
{
    if boost && throttle != 1 {
        assert(old(actions)@ + ground_cell(throttle, steer, boost) =~= old(actions)@);
        return ;
    }
    actions.push(Controls { throttle, steer, pitch: 0, yaw: steer, roll: 0, jump: false, boost, handbrake: false });
    actions.push(Controls { throttle, steer, pitch: 0, yaw: steer, roll: 0, jump: false, boost, handbrake: true });
    assert(final(actions)@ =~= old(actions)@ + ground_cell(throttle, steer, boost));
}

fn push_ground_row(actions: &mut Vec<Controls>, throttle: i8, steer: i8)
    ensures
        final(actions)@ == old(actions)@ + ground_row(throttle, steer),
{
    push_ground_cell(actions, throttle, steer, false);
    push_ground_cell(actions, throttle, steer, true);
    assert(final(actions)@ =~= old(actions)@ + ground_row(throttle, steer));
}

fn push_ground_block(actions: &mut Vec<Controls>, throttle: i8)
    ensures
        final(actions)@ == old(actions)@ + ground_block(throttle),
{
    push_ground_row(actions, throttle, -1);
    push_ground_row(actions, throttle, 0);
    push_ground_row(actions, throttle, 1);
    assert(final(actions)@ =~= old(actions)@ + ground_block(throttle));
}

fn push_air_cell(actions: &mut Vec<Controls>, pitch: i8, yaw: i8, roll: i8, jump: bool)
    ensures
        final(actions)@ == old(actions)@ + air_cell(pitch, yaw, roll, jump),
{
    if (jump && yaw != 0) || (pitch == 0 && roll == 0 && !jump) {
        assert(old(actions)@ + air_cell(pitch, yaw, roll, jump) =~= old(actions)@);
        return ;
    }
    let handbrake = jump && (pitch != 0 || yaw != 0 || roll != 0);
    actions.push(Controls { throttle: 0, steer: yaw, pitch, yaw, roll, jump, boost: false, handbrake });
    actions.push(Controls { throttle: 1, steer: yaw, pitch, yaw, roll, jump, boost: true, handbrake });
    assert(final(actions)@ =~= old(actions)@ + air_cell(pitch, yaw, roll, jump));
}

fn push_air_roll(actions: &mut Vec<Controls>, pitch: i8, yaw: i8, roll: i8)
    ensures
        final(actions)@ == old(actions)@ + air_roll(pitch, yaw, roll),
{
    push_air_cell(actions, pitch, yaw, roll, false);
    push_air_cell(actions, pitch, yaw, roll, true);
    assert(final(actions)@ =~= old(actions)@ + air_roll(pitch, yaw, roll));
}

fn push_air_yaw(actions: &mut Vec<Controls>, pitch: i8, yaw: i8)
    ensures
        final(actions)@ == old(actions)@ + air_yaw(pitch, yaw),
{
    push_air_roll(actions, pitch, yaw, -1);
    push_air_roll(actions, pitch, yaw, 0);
    push_air_roll(actions, pitch, yaw, 1);
    assert(final(actions)@ =~= old(actions)@ + air_yaw(pitch, yaw));
}

fn push_air_pitch(actions: &mut Vec<Controls>, pitch: i8)
    ensures
        final(actions)@ == old(actions)@ + air_pitch(pitch),
{
    push_air_yaw(actions, pitch, -1);
    push_air_yaw(actions, pitch, 0);
    push_air_yaw(actions, pitch, 1);
    assert(final(actions)@ =~= old(actions)@ + air_pitch(pitch));
}

impl LookupTableAction {
    #[verifier::type_invariant]
    spec fn well_formed(self) -> bool {
        &&& self.actions@ == lookup_table()
        &&& self.ground_mask@ == ground_mask_spec()
        &&& self.air_mask@ == air_mask_spec()
        &&& self.jump_mask@ == jump_mask_spec()
        &&& self.boost_mask@ == boost_mask_spec()
    }

    /// Builds the table and the number of ground entries at its start.
    fn make_lookup_table() -> (res: (Vec<Controls>, usize))
        ensures
            res.0@ == lookup_table(),
            res.1 == NUM_GROUND_ACTIONS,
    {
        let mut actions: Vec<Controls> = Vec::with_capacity(90);
        push_ground_block(&mut actions, -1);
        push_ground_block(&mut actions, 0);
        push_ground_block(&mut actions, 1);
        assert(actions@ =~= ground_table());
        proof {
            lemma_table_len();
        }
        let num_ground_actions = actions.len();
        push_air_pitch(&mut actions, -1);
        push_air_pitch(&mut actions, 0);
        push_air_pitch(&mut actions, 1);
        assert(actions@ =~= lookup_table());
        (actions, num_ground_actions)
    }

    pub fn new() -> (res: Self)
        ensures
            res.table() == lookup_table(),
    {
        let (actions, num_ground_actions) = Self::make_lookup_table();
        proof {
            lemma_table_len();
        }
        let n = actions.len();
        let mut ground_mask: Vec<u8> = Vec::with_capacity(n);
        let mut air_mask: Vec<u8> = Vec::with_capacity(n);
        let mut jump_mask: Vec<u8> = Vec::with_capacity(n);
        let mut boost_mask: Vec<u8> = Vec::with_capacity(n);
        let mut index: usize = 0;
        while index < n
            invariant
                n == NUM_ACTIONS,
                num_ground_actions == NUM_GROUND_ACTIONS,
                actions@ == lookup_table(),
                index <= n,
                ground_mask@ == ground_mask_spec().take(index as int),
                air_mask@ == air_mask_spec().take(index as int),
                jump_mask@ == jump_mask_spec().take(index as int),
                boost_mask@ == boost_mask_spec().take(index as int),
            decreases n - index,
        {
            let action = actions[index];
            jump_mask.push(if action.jump { 1 } else { 0 });
            boost_mask.push(if action.boost { 1 } else { 0 });
            ground_mask.push(if index < num_ground_actions { 1 } else { 0 });
            // every aerial entry without a jump, the first one included
            let mut air: u8 = if index >= num_ground_actions && !action.jump { 1 } else { 0 };
            if index < num_ground_actions {
                let boost: i8 = if action.boost { 1 } else { 0 };
                if action.throttle == boost && (action.yaw != 0) == action.handbrake {
                    air = 1;
                }
            }
            air_mask.push(air);
            index = index + 1;
            assert(ground_mask@ =~= ground_mask_spec().take(index as int));
            assert(air_mask@ =~= air_mask_spec().take(index as int));
            assert(jump_mask@ =~= jump_mask_spec().take(index as int));
            assert(boost_mask@ =~= boost_mask_spec().take(index as int));
        }
        assert(ground_mask@ =~= ground_mask_spec());
        assert(air_mask@ =~= air_mask_spec());
        assert(jump_mask@ =~= jump_mask_spec());
        assert(boost_mask@ =~= boost_mask_spec());
        Self { actions, ground_mask, air_mask, jump_mask, boost_mask }
    }

    /// The controls of every entry, in table order.
    pub closed spec fn table(self) -> Seq<Controls> {
        self.actions@
    }

    pub fn actions(&self) -> (res: &Vec<Controls>)
        ensures
            res@ == lookup_table(),
    {
        proof {
            use_type_invariant(self);
        }
        &self.actions
    }

    /// 1 for the ground entries, 0 for the rest.
    pub fn ground_mask(&self) -> (res: &Vec<u8>)
        ensures
            res@ == ground_mask_spec(),
    {
        proof {
            use_type_invariant(self);
        }
        &self.ground_mask
    }

    /// 1 for the entries a car in the air may use without a jump.
    pub fn air_mask(&self) -> (res: &Vec<u8>)
        ensures
            res@ == air_mask_spec(),
    {
        proof {
            use_type_invariant(self);
        }
        &self.air_mask
    }

    /// 1 for the entries that jump.
    pub fn jump_mask(&self) -> (res: &Vec<u8>)
        ensures
            res@ == jump_mask_spec(),
    {
        proof {
            use_type_invariant(self);
        }
        &self.jump_mask
    }

    /// 1 for the entries that boost.
    pub fn boost_mask(&self) -> (res: &Vec<u8>)
        ensures
            res@ == boost_mask_spec(),
    {
        proof {
            use_type_invariant(self);
        }
        &self.boost_mask
    }

    /// The mask of allowed entries: the ground or air mask, with every jump
    /// entry added when the car can jump, and every boost entry removed when
    /// its tank is empty.
    pub fn build_mask(&self, is_on_ground: bool, has_boost: bool, can_jump: bool) -> (res: Vec<u8>)
        ensures
            res@ == mask_spec(is_on_ground, has_boost, can_jump),
    {
        proof {
            use_type_invariant(self);
            lemma_table_len();
        }
        let n = self.actions.len();
        let mut result: Vec<u8> = Vec::with_capacity(n);
        let mut index: usize = 0;
        while index < n
            invariant
                n == NUM_ACTIONS,
                self.actions@ == lookup_table(),
                self.ground_mask@ == ground_mask_spec(),
                self.air_mask@ == air_mask_spec(),
                self.jump_mask@ == jump_mask_spec(),
                self.boost_mask@ == boost_mask_spec(),
                index <= n,
                result@ == mask_spec(is_on_ground, has_boost, can_jump).take(index as int),
            decreases n - index,
        {
            let mut allowed: u8 = if is_on_ground {
                self.ground_mask[index]
            } else {
                self.air_mask[index]
            };
            if can_jump {
                let jump = self.jump_mask[index];
                assert(allowed <= 1 && jump <= 1 ==> (allowed | jump) == (if allowed == 1 || jump == 1 {
                    1u8
                } else {
                    0u8
                })) by (bit_vector);
                allowed = allowed | jump;
            }
            // an empty tank removes boosting entries, jump entries included
            if !has_boost && self.boost_mask[index] != 0 {
                allowed = 0;
            }
            result.push(allowed);
            index = index + 1;
            assert(result@ =~= mask_spec(is_on_ground, has_boost, can_jump).take(index as int));
        }
        assert(result@ =~= mask_spec(is_on_ground, has_boost, can_jump));
        result
    }

    /// The controls of the entry at `index`.
    pub fn parse_action(&self, index: usize) -> (res: Controls)
        requires
            index < NUM_ACTIONS,
        ensures
            res == lookup_table()[index as int],
    {
        proof {
            use_type_invariant(self);
            lemma_table_len();
        }
        self.actions[index]
    }

    pub fn action_count(&self) -> (res: usize)
        ensures
            res == NUM_ACTIONS,
    {
        proof {
            use_type_invariant(self);
            lemma_table_len();
        }
        self.actions.len()
    }

    /// The mask for a car: it can jump when it still has its flip or jump,
    /// or when it lies on its roof (touching the world with the contact
    /// normal pointing up).
    pub fn action_mask(&self, car: &CarFlags) -> (res: Vec<u8>)
        ensures
            res@ == mask_spec(
                car.is_on_ground,
                car.has_boost,
                car.has_flip_or_jump || (car.has_world_contact && car.contact_normal_up),
            ),
    {
        let is_turtled = car.has_world_contact && car.contact_normal_up;
        self.build_mask(car.is_on_ground, car.has_boost, car.has_flip_or_jump || is_turtled)
    }
}

impl Default for LookupTableAction {
    fn default() -> (res: Self)
        ensures
            res.table() == lookup_table(),
    {
        Self::new()
    }
}

/// With an empty tank no boosting entry is ever allowed.
pub proof fn lemma_empty_tank_blocks_boost(i: int, is_on_ground: bool, can_jump: bool)
    requires
        0 <= i < NUM_ACTIONS,
        lookup_table()[i].boost,
    ensures
        mask_spec(is_on_ground, false, can_jump)[i] == 0,
{
}

/// A car that can jump and has boost may use every jumping entry.
pub proof fn lemma_jump_entries_allowed(i: int, is_on_ground: bool)
    requires
        0 <= i < NUM_ACTIONS,
        lookup_table()[i].jump,
    ensures
        mask_spec(is_on_ground, true, true)[i] == 1,
{
}

/// Every situation leaves at least one entry to choose: the first ground
/// entry on the ground, the first aerial entry in the air.
pub proof fn lemma_mask_never_empty(is_on_ground: bool, has_boost: bool, can_jump: bool)
    ensures
        exists|i: int| 0 <= i < NUM_ACTIONS && #[trigger] mask_spec(is_on_ground, has_boost, can_jump)[i] == 1,
{
    lemma_table_len();
    let witness: int = if is_on_ground {
        0
    } else {
        NUM_GROUND_ACTIONS as int
    };
    assert(lookup_table()[0] == ground_table()[0]);
    assert(lookup_table()[NUM_GROUND_ACTIONS as int] == air_table()[0]);
    assert(mask_spec(is_on_ground, has_boost, can_jump)[witness] == 1);
}

/// On the ground, with boost and without a jump, exactly the ground entries
/// are allowed.
pub proof fn lemma_ground_mask_is_ground_entries(i: int)
    requires
        0 <= i < NUM_ACTIONS,
    ensures
        mask_spec(true, true, false)[i] == bit(i < NUM_GROUND_ACTIONS),
{
}

/// In the air without a jump, a ground entry may be used exactly when its
/// throttle equals its boost (0 or 1) and its handbrake is on exactly when
/// it yaws, which are the ground entries 7, 8, 11, 15, 18 and 23; an aerial
/// entry may be used exactly when it does not jump. A car in the air with
/// boost and no jump gets this mask.
pub proof fn lemma_air_mask_entries(i: int)
    requires
        0 <= i < NUM_ACTIONS,
    ensures
        air_mask_spec()[i] == 1 <==> (if i < NUM_GROUND_ACTIONS {
            &&& lookup_table()[i].throttle == (if lookup_table()[i].boost { 1i8 } else { 0i8 })
            &&& (lookup_table()[i].yaw != 0) == lookup_table()[i].handbrake
        } else {
            !lookup_table()[i].jump
        }),
        i < NUM_GROUND_ACTIONS ==> (air_mask_spec()[i] == 1 <==> (i == 7 || i == 8 || i == 11 || i == 15
            || i == 18 || i == 23)),
        mask_spec(false, true, false)[i] == air_mask_spec()[i],
        air_mask_spec()[i] == 0 || air_mask_spec()[i] == 1,
{
    lemma_table_len();
    if i < NUM_GROUND_ACTIONS {
        assert(lookup_table()[i] == ground_table()[i]);
    } else {
        assert(lookup_table()[i] == air_table()[i - NUM_GROUND_ACTIONS]);
    }
}

/// The position a ground entry takes in the table, read off its controls:
/// blocks of throttle -1, 0 and 1, then steer, boost and handbrake.
spec fn ground_position(action: Controls) -> int {
    let steer = action.steer + 1;
    let handbrake: int = if action.handbrake { 1 } else { 0 };
    if action.throttle == -1 {
        steer * 2 + handbrake
    } else if action.throttle == 0 {
        6 + steer * 2 + handbrake
    } else {
        12 + steer * 4 + (if action.boost { 2int } else { 0int }) + handbrake
    }
}

/// Every ground throttle, steer and boost comes as two consecutive entries,
/// without and then with the handbrake, equal in everything else; no two
/// ground entries are the same.
pub proof fn lemma_ground_entries_distinct(i: int, j: int)
    requires
        0 <= i < NUM_GROUND_ACTIONS,
        0 <= j < NUM_GROUND_ACTIONS,
    ensures
        lookup_table()[i].handbrake == (i % 2 == 1),
        i % 2 == 0 ==> lookup_table()[i + 1] == (Controls { handbrake: true, ..lookup_table()[i] }),
        i != j ==> lookup_table()[i] != lookup_table()[j],
{
    lemma_table_len();
    assert(lookup_table()[i] == ground_table()[i]);
    assert(lookup_table()[j] == ground_table()[j]);
    if i % 2 == 0 {
        assert(lookup_table()[i + 1] == ground_table()[i + 1]);
    }
    assert(ground_position(ground_table()[i]) == i);
    assert(ground_position(ground_table()[j]) == j);
}

/// Consecutive pairs: an entry without boost followed by the same entry
/// with boost and full throttle.
spec fn boost_pairs(s: Seq<Controls>) -> bool {
    &&& s.len() % 2 == 0
    &&& forall|k: int|
        0 <= k < s.len() && k % 2 == 0 ==> !(#[trigger] s[k]).boost && s[k + 1] == (Controls {
            boost: true,
            throttle: 1,
            ..s[k]
        })
}

proof fn lemma_boost_pairs_concat(a: Seq<Controls>, b: Seq<Controls>)
    requires
        boost_pairs(a),
        boost_pairs(b),
    ensures
        boost_pairs(a + b),
{
    let c = a + b;
    assert forall|k: int| 0 <= k < c.len() && k % 2 == 0 implies !(#[trigger] c[k]).boost && c[k + 1] == (
    Controls { boost: true, throttle: 1, ..c[k] }) by {
        if k < a.len() {
            assert(c[k] == a[k]);
            assert(c[k + 1] == a[k + 1]);
        } else {
            assert(c[k] == b[k - a.len()]);
            assert(c[k + 1] == b[k + 1 - a.len()]);
        }
    }
}

proof fn lemma_air_cell_pairs(pitch: i8, yaw: i8, roll: i8, jump: bool)
    ensures
        boost_pairs(air_cell(pitch, yaw, roll, jump)),
{
}

proof fn lemma_air_roll_pairs(pitch: i8, yaw: i8, roll: i8)
    ensures
        boost_pairs(air_roll(pitch, yaw, roll)),
{
    lemma_air_cell_pairs(pitch, yaw, roll, false);
    lemma_air_cell_pairs(pitch, yaw, roll, true);
    lemma_boost_pairs_concat(air_cell(pitch, yaw, roll, false), air_cell(pitch, yaw, roll, true));
}

proof fn lemma_air_yaw_pairs(pitch: i8, yaw: i8)
    ensures
        boost_pairs(air_yaw(pitch, yaw)),
{
    lemma_air_roll_pairs(pitch, yaw, -1i8);
    lemma_air_roll_pairs(pitch, yaw, 0i8);
    lemma_air_roll_pairs(pitch, yaw, 1i8);
    lemma_boost_pairs_concat(air_roll(pitch, yaw, -1i8), air_roll(pitch, yaw, 0i8));
    lemma_boost_pairs_concat(air_roll(pitch, yaw, -1i8) + air_roll(pitch, yaw, 0i8), air_roll(pitch, yaw, 1i8));
}

proof fn lemma_air_pitch_pairs(pitch: i8)
    ensures
        boost_pairs(air_pitch(pitch)),
{
    lemma_air_yaw_pairs(pitch, -1i8);
    lemma_air_yaw_pairs(pitch, 0i8);
    lemma_air_yaw_pairs(pitch, 1i8);
    lemma_boost_pairs_concat(air_yaw(pitch, -1i8), air_yaw(pitch, 0i8));
    lemma_boost_pairs_concat(air_yaw(pitch, -1i8) + air_yaw(pitch, 0i8), air_yaw(pitch, 1i8));
}

/// Every aerial pitch, yaw, roll and jump comes as two consecutive entries,
/// without and then with boost (and full throttle), equal in everything else.
pub proof fn lemma_air_entries_pair_boost(i: int)
    requires
        NUM_GROUND_ACTIONS <= i < NUM_ACTIONS,
    ensures
        lookup_table()[i].boost == (i % 2 == 1),
        i % 2 == 0 ==> lookup_table()[i + 1] == (Controls {
            boost: true,
            throttle: 1,
            ..lookup_table()[i]
        }),
{
    lemma_table_len();
    lemma_air_pitch_pairs(-1i8);
    lemma_air_pitch_pairs(0i8);
    lemma_air_pitch_pairs(1i8);
    lemma_boost_pairs_concat(air_pitch(-1i8), air_pitch(0i8));
    lemma_boost_pairs_concat(air_pitch(-1i8) + air_pitch(0i8), air_pitch(1i8));
    let air = air_table();
    let k = i - NUM_GROUND_ACTIONS;
    assert(lookup_table()[i] == air[k]);
    if k % 2 == 0 {
        assert(lookup_table()[i + 1] == air[k + 1]);
    } else {
        assert(!air[k - 1].boost && air[k] == (Controls { boost: true, throttle: 1, ..air[k - 1] }));
    }
}

} // verus!
