use vstd::prelude::*;

verus! {

/// Ends an episode when a goal is scored.
pub struct GoalCondition;

impl GoalCondition {
    pub fn new() -> (res: Self)
        ensures
            res == GoalCondition,
    {
        GoalCondition
    }

    /// Done exactly when the state's goal flag is set.
    pub fn is_done(&self, goal_scored: bool) -> (res: bool)
        ensures
            res == goal_scored,
    {
        goal_scored
    }
}

impl Default for GoalCondition {
    fn default() -> (res: Self)
        ensures
            res == GoalCondition,
    {
        Self::new()
    }
}

/// Ends an episode once a number of ticks has passed since the last reset.
pub struct TimeoutCondition {
    start_tick: u64,
    max_ticks: u64,
}

impl TimeoutCondition {
    /// The tick of the state the condition was last reset with.
    pub closed spec fn start_tick(self) -> u64 {
        self.start_tick
    }

    pub closed spec fn max_ticks(self) -> u64 {
        self.max_ticks
    }

    pub fn new(max_ticks: u64) -> (res: Self)
        ensures
            res.start_tick() == 0,
            res.max_ticks() == max_ticks,
    {
        TimeoutCondition { start_tick: 0, max_ticks }
    }

    /// The tick the condition counts from.
    pub fn started_at(&self) -> (res: u64)
        ensures
            res == self.start_tick(),
    {
        self.start_tick
    }

    /// Starts counting at the tick of the episode's initial state.
    pub fn reset(&mut self, initial_tick: u64)
        ensures
            final(self).start_tick() == initial_tick,
            final(self).max_ticks() == old(self).max_ticks(),
    {
        self.start_tick = initial_tick;
    }

    /// Done once at least `max_ticks` ticks have passed since the reset.
    pub fn is_done(&self, tick_count: u64) -> (res: bool)
        requires
            tick_count >= self.start_tick(),
        ensures
            res == (tick_count - self.start_tick() >= self.max_ticks()),
    {
        tick_count - self.start_tick >= self.max_ticks
    }
}

/// Once a timeout is reached it stays reached for every later tick.
pub proof fn lemma_timeout_stays_done(condition: TimeoutCondition, tick: u64, later: u64)
    requires
        condition.start_tick() <= tick <= later,
        tick - condition.start_tick() >= condition.max_ticks(),
    ensures
        later - condition.start_tick() >= condition.max_ticks(),
{
}

} // verus!
