//! The start condition and the trigger that blocks the pipeline until it holds.
//!
//! TriggerGate is a busy-poll state machine: each tick feeds it one observation
//! (the chain height, or the wall-clock time, depending on the configured
//! variant), and it moves from `Waiting` to `Reached` when the observation
//! meets or exceeds the target. `Reached` is terminal: a TriggerGate never re-enters
//! `Waiting`, whatever is observed afterwards.
use vstd::prelude::*;

verus! {

/// The configured start condition: a target chain height or a target UNIX
/// timestamp, each reached when the observed value meets or exceeds it.
#[derive(Clone, Copy, Debug, PartialEq, Eq, Structural)]
pub enum StartCondition {
    BlockHeight(u64),
    Timestamp(u64),
}

impl StartCondition {
    /// Has an observation met the target?
    pub open spec fn spec_is_reached(self, observation: u64) -> bool {
        match self {
            StartCondition::BlockHeight(target) => observation >= target,
            StartCondition::Timestamp(target) => observation >= target,
        }
    }

    pub fn is_reached(&self, observation: u64) -> (r: bool)
        ensures
            r == self.spec_is_reached(observation),
    {
        match self {
            StartCondition::BlockHeight(target) => observation >= *target,
            StartCondition::Timestamp(target) => observation >= *target,
        }
    }
}

#[derive(Clone, Copy, Debug, PartialEq, Eq, Structural)]
pub enum GateState {
    Waiting,
    Reached,
}

/// Holds the pipeline back until the start condition is met.
#[derive(Clone, Copy, Debug)]
pub struct TriggerGate {
    pub condition: StartCondition,
    pub state: GateState,
}

/// The TriggerGate one tick later: `Reached` as soon as the condition holds of the
/// observation, and forever after.
pub open spec fn spec_gate_step(g: TriggerGate, observation: u64) -> TriggerGate {
    TriggerGate {
        condition: g.condition,
        state: if g.state is Reached || g.condition.spec_is_reached(observation) {
            GateState::Reached
        } else {
            GateState::Waiting
        },
    }
}

/// The TriggerGate after a whole run of observations, first one first.
pub open spec fn spec_gate_run(g: TriggerGate, observations: Seq<u64>) -> TriggerGate
    decreases observations.len(),
{
    if observations.len() == 0 {
        g
    } else {
        spec_gate_run(spec_gate_step(g, observations[0]), observations.drop_first())
    }
}

impl TriggerGate {
    pub open spec fn spec_reached(self) -> bool {
        self.state is Reached
    }

    /// A fresh gate waits.
    pub fn new(condition: StartCondition) -> (g: TriggerGate)
        ensures
            g.condition == condition,
            g.state == GateState::Waiting,
    {
        TriggerGate { condition, state: GateState::Waiting }
    }

    pub fn has_reached(&self) -> (r: bool)
        ensures
            r == self.spec_reached(),
    {
        match self.state {
            GateState::Reached => true,
            GateState::Waiting => false,
        }
    }

    /// One tick: transition to `Reached` exactly when the observation meets
    /// the target, and never leave `Reached` again.
    pub fn observe(&mut self, observation: u64) -> (r: bool)
        ensures
            *final(self) == spec_gate_step(*old(self), observation),
            r == final(self).spec_reached(),
    {
        if self.condition.is_reached(observation) {
            self.state = GateState::Reached;
        }
        self.has_reached()
    }
}

/// Law: once a TriggerGate has reached its condition it never reverts, whatever the
/// remaining observations are.
pub proof fn lemma_gate_never_reverts(g: TriggerGate, observations: Seq<u64>)
    requires
        g.spec_reached(),
    ensures
        spec_gate_run(g, observations).spec_reached(),
    decreases observations.len(),
{
    if observations.len() > 0 {
        lemma_gate_never_reverts(spec_gate_step(g, observations[0]), observations.drop_first());
    }
}

/// Law: the condition a gate was configured with never changes while it runs.
pub proof fn lemma_gate_condition_stable(g: TriggerGate, observations: Seq<u64>)
    ensures
        spec_gate_run(g, observations).condition == g.condition,
    decreases observations.len(),
{
    if observations.len() > 0 {
        lemma_gate_condition_stable(spec_gate_step(g, observations[0]), observations.drop_first());
    }
}

/// Law: a run of observations ends in `Reached` exactly when it began there,
/// or some observation of the run met the target. Together with
/// `lemma_gate_never_reverts` this pins the whole behaviour: the state flips
/// at the first observation that meets the target and stays flipped.
pub proof fn lemma_gate_reached_iff(g: TriggerGate, observations: Seq<u64>)
    ensures
        spec_gate_run(g, observations).spec_reached() <==> (g.spec_reached() || exists|k: int|
            0 <= k < observations.len() && g.condition.spec_is_reached(observations[k])),
    decreases observations.len(),
{
    if observations.len() > 0 {
        let g1 = spec_gate_step(g, observations[0]);
        let rest = observations.drop_first();
        lemma_gate_reached_iff(g1, rest);
        assert(g1.condition == g.condition);
        if spec_gate_run(g, observations).spec_reached() {
            if !g.spec_reached() {
                if g.condition.spec_is_reached(observations[0]) {
                    assert(g.condition.spec_is_reached(observations[0]));
                } else {
                    let k = choose|k: int|
                        0 <= k < rest.len() && g.condition.spec_is_reached(rest[k]);
                    assert(observations[k + 1] == rest[k]);
                }
            }
        }
        if g.spec_reached() || exists|k: int|
            0 <= k < observations.len() && g.condition.spec_is_reached(observations[k]) {
            if !g1.spec_reached() {
                let k = choose|k: int|
                    0 <= k < observations.len() && g.condition.spec_is_reached(observations[k]);
                assert(k > 0);
                assert(rest[k - 1] == observations[k]);
            }
        }
    }
}

} // verus!
