//! The neuron's dynamics: the update rule, its delivery queue and the actor's
//! decisions on stimuli and timeouts.
use crate::network::SynapseEdge;
use crate::observer::Modulation;
use vstd::prelude::*;

verus! {

/// Microseconds in one second: rates are given per second, time in microseconds.
pub const MICROS_PER_SECOND: u64 = 1_000_000;

/// The constants of the leaky integrate-and-fire model.
#[derive(Clone, Copy, Debug, PartialEq, Eq)]
pub struct Dynamics {
    /// Potential at or above which the neuron fires.
    pub threshold: i64,
    /// Potential the neuron is set to when it fires (an undershoot below rest).
    pub refractory_potential: i64,
    /// Decay of a positive potential, in potential units per second.
    pub decay_rate: u64,
    /// Recovery of a negative potential, in potential units per second.
    pub recovery_rate: u64,
    /// Length of the hard refractory window, in microseconds.
    pub hard_refractory: u64,
}

/// How far a rate moves the potential in `dt` microseconds.
pub open spec fn decay_amount(dt: int, rate: int) -> int {
    dt * rate / (MICROS_PER_SECOND as int)
}

pub open spec fn min_int(a: int, b: int) -> int {
    if a <= b { a } else { b }
}

/// The potential after `dt` microseconds of linear decay toward zero.
pub open spec fn decayed(p: int, dt: int, d: Dynamics) -> int {
    if p > 0 {
        p - min_int(decay_amount(dt, d.decay_rate as int), p)
    } else if p < 0 {
        p + min_int(decay_amount(dt, d.recovery_rate as int), -p)
    } else {
        0
    }
}

/// `x` held to the range of an `i64`.
pub open spec fn saturate(x: int) -> int {
    if x > i64::MAX {
        i64::MAX as int
    } else if x < i64::MIN {
        i64::MIN as int
    } else {
        x
    }
}

/// A pending delivery: at `arrival` the spike reaches the target of the
/// neuron's outgoing edge number `target_idx`.
#[derive(Clone, Copy, Debug, PartialEq, Eq)]
pub struct ActionPotential {
    pub arrival: u64,
    pub target_idx: usize,
}

/// The state of one neuron.
pub struct NeuronState {
    pub idx: usize,
    pub firing: bool,
    pub membrane_potential: i64,
    /// Time of the last update that was not skipped; while `firing` holds, the
    /// instant of that firing.
    pub last_update: u64,
    /// Deliveries scheduled by this neuron, ascending by arrival.
    pub pending_action_potentials: Vec<ActionPotential>,
}

/// Whether an update at `now` falls in the hard refractory window.
pub open spec fn in_refractory(s: NeuronState, d: Dynamics, now: u64) -> bool {
    s.firing && now - s.last_update < d.hard_refractory
}

/// The state after an update at `now` with an optional incoming stimulus,
/// and whether that update fired.
pub open spec fn update_rule(s: NeuronState, d: Dynamics, now: u64, incoming: Option<i64>) -> (
    NeuronState,
    bool,
) {
    if in_refractory(s, d, now) {
        (s, false)
    } else {
        let q = decayed(s.membrane_potential as int, now - s.last_update, d);
        let r = match incoming {
            Some(w) => saturate(q + w),
            None => q,
        };
        let fires = incoming is Some && r >= d.threshold;
        (
            NeuronState {
                idx: s.idx,
                firing: fires,
                membrane_potential: if fires {
                    d.refractory_potential
                } else {
                    r as i64
                },
                last_update: now,
                pending_action_potentials: s.pending_action_potentials,
            },
            fires,
        )
    }
}

proof fn lemma_decay_bounds(p: int, dt: int, d: Dynamics)
    requires
        dt >= 0,
    ensures
        p >= 0 ==> 0 <= decayed(p, dt, d) <= p,
        p <= 0 ==> p <= decayed(p, dt, d) <= 0,
        dt == 0 ==> decayed(p, dt, d) == p,
{
    assert(decay_amount(dt, d.decay_rate as int) >= 0) by (nonlinear_arith)
        requires
            dt >= 0,
            d.decay_rate >= 0,
    ;
    assert(decay_amount(dt, d.recovery_rate as int) >= 0) by (nonlinear_arith)
        requires
            dt >= 0,
            d.recovery_rate >= 0,
    ;
    if dt == 0 {
        assert(dt * (d.decay_rate as int) == 0) by (nonlinear_arith)
            requires
                dt == 0,
        ;
        assert(dt * (d.recovery_rate as int) == 0) by (nonlinear_arith)
            requires
                dt == 0,
        ;
    }
}

/// `rate` applied for `dt` microseconds, capped at `limit`.
fn capped_decay(dt: u64, rate: u64, limit: u128) -> (r: u128)
    ensures
        r == min_int(decay_amount(dt as int, rate as int), limit as int),
{
    assert((dt as int) * (rate as int) <= (u64::MAX as int) * (u64::MAX as int)) by (nonlinear_arith)
        requires
            dt <= u64::MAX,
            rate <= u64::MAX,
    ;
    let amount: u128 = (dt as u128) * (rate as u128) / (MICROS_PER_SECOND as u128);
    if amount <= limit {
        amount
    } else {
        limit
    }
}

/// Runs the update rule at `now`: unless the neuron is in its hard refractory
/// window, the firing flag is cleared, the potential decays toward zero, the
/// stimulus is added and the neuron fires if the threshold is reached.
/// Returns whether this update fired.
pub fn update_neuron(
    state: &mut NeuronState,
    dynamics: &Dynamics,
    now: u64,
    incoming: Option<i64>,
) -> (fired: bool)
    requires
        old(state).last_update <= now,
    ensures
        (*final(state), fired) == update_rule(*old(state), *dynamics, now, incoming),
{
    let dt: u64 = now - state.last_update;
    if state.firing && dt < dynamics.hard_refractory {
        return false;
    }
    let p: i64 = state.membrane_potential;
    proof {
        lemma_decay_bounds(p as int, dt as int, *dynamics);
    }
    let q: i64 = if p > 0 {
        let amount: u128 = capped_decay(dt, dynamics.decay_rate, p as u128);
        (p as i128 - amount as i128) as i64
    } else if p < 0 {
        let amount: u128 = capped_decay(dt, dynamics.recovery_rate, (0 - (p as i128)) as u128);
        (p as i128 + amount as i128) as i64
    } else {
        0
    };
    state.firing = false;
    state.last_update = now;
    match incoming {
        None => {
            state.membrane_potential = q;
            false
        },
        Some(w) => {
            let sum: i128 = q as i128 + w as i128;
            let r: i64 = if sum > i64::MAX as i128 {
                i64::MAX
            } else if sum < i64::MIN as i128 {
                i64::MIN
            } else {
                sum as i64
            };
            if r >= dynamics.threshold {
                state.firing = true;
                state.membrane_potential = dynamics.refractory_potential;
                true
            } else {
                state.membrane_potential = r;
                false
            }
        },
    }
}

/// The arrival time of a spike sent at `now` over a synapse of `delay`,
/// held at the largest timestamp.
pub open spec fn arrival_time(now: u64, delay: u64) -> u64 {
    if now + delay > u64::MAX {
        u64::MAX
    } else {
        (now + delay) as u64
    }
}

/// Ascending by arrival.
pub open spec fn sorted_by_arrival(q: Seq<ActionPotential>) -> bool {
    forall|a: int, b: int| 0 <= a <= b < q.len() ==> q[a].arrival <= q[b].arrival
}

/// Where a delivery arriving at `t` goes: after every delivery arriving no
/// later, so that deliveries with equal arrival keep their order.
pub open spec fn insertion_point(q: Seq<ActionPotential>, t: u64) -> int
    decreases q.len(),
{
    if q.len() == 0 || q[0].arrival > t {
        0
    } else {
        1 + insertion_point(q.drop_first(), t)
    }
}

pub open spec fn insert_sorted(q: Seq<ActionPotential>, ap: ActionPotential) -> Seq<
    ActionPotential,
> {
    q.insert(insertion_point(q, ap.arrival), ap)
}

/// The queue after scheduling, in order, one delivery over each of the first
/// `n` synapses, each sent at `now`.
pub open spec fn schedule_all(
    q: Seq<ActionPotential>,
    axons: Seq<SynapseEdge>,
    now: u64,
    n: nat,
) -> Seq<ActionPotential>
    decreases n,
{
    if n == 0 {
        q
    } else {
        insert_sorted(
            schedule_all(q, axons, now, (n - 1) as nat),
            ActionPotential {
                arrival: arrival_time(now, axons[n - 1].delay),
                target_idx: (n - 1) as usize,
            },
        )
    }
}

proof fn lemma_insertion_point(q: Seq<ActionPotential>, t: u64)
    requires
        sorted_by_arrival(q),
    ensures
        0 <= insertion_point(q, t) <= q.len(),
        forall|k: int| 0 <= k < insertion_point(q, t) ==> q[k].arrival <= t,
        forall|k: int| insertion_point(q, t) <= k < q.len() ==> q[k].arrival > t,
    decreases q.len(),
{
    if q.len() > 0 && q[0].arrival <= t {
        let rest = q.drop_first();
        lemma_insertion_point(rest, t);
        assert forall|k: int| 0 <= k < insertion_point(q, t) implies q[k].arrival <= t by {
            if k > 0 {
                assert(q[k] == rest[k - 1]);
            }
        }
        assert forall|k: int| insertion_point(q, t) <= k < q.len() implies q[k].arrival > t by {
            assert(q[k] == rest[k - 1]);
        }
    }
}

proof fn lemma_insert_sorted(q: Seq<ActionPotential>, ap: ActionPotential)
    requires
        sorted_by_arrival(q),
    ensures
        sorted_by_arrival(insert_sorted(q, ap)),
        insert_sorted(q, ap).len() == q.len() + 1,
        forall|k: int|
            0 <= k < insert_sorted(q, ap).len() ==> #[trigger] insert_sorted(q, ap)[k] == ap
                || q.contains(insert_sorted(q, ap)[k]),
{
    lemma_insertion_point(q, ap.arrival);
    let p = insertion_point(q, ap.arrival);
    let r = insert_sorted(q, ap);
    assert forall|k: int| 0 <= k < r.len() implies #[trigger] r[k] == ap || q.contains(r[k]) by {
        if k < p {
            assert(r[k] == q[k]);
        } else if k > p {
            assert(r[k] == q[k - 1]);
        }
    }
}

/// Inserts `ap` at its place in an ascending queue.
fn enqueue(q: &mut Vec<ActionPotential>, ap: ActionPotential)
    requires
        sorted_by_arrival(old(q)@),
    ensures
        final(q)@ == insert_sorted(old(q)@, ap),
{
    proof {
        lemma_insertion_point(q@, ap.arrival);
    }
    let mut p: usize = 0;
    while p < q.len() && q[p].arrival <= ap.arrival
        invariant
            sorted_by_arrival(q@),
            p <= q.len(),
            forall|k: int| 0 <= k < p ==> q[k].arrival <= ap.arrival,
            0 <= insertion_point(q@, ap.arrival) <= q.len(),
            forall|k: int| 0 <= k < insertion_point(q@, ap.arrival) ==> q[k].arrival <= ap.arrival,
            forall|k: int|
                insertion_point(q@, ap.arrival) <= k < q.len() ==> q[k].arrival > ap.arrival,
        decreases q.len() - p,
    {
        p += 1;
    }
    proof {
        let ip = insertion_point(q@, ap.arrival);
        if ip < p {
            assert(q[ip].arrival <= ap.arrival);
        } else if p < ip {
            assert(q[p as int].arrival <= ap.arrival);
        }
    }
    q.insert(p, ap);
}

/// A message to a neuron's inbox.
#[derive(Clone, Copy, Debug, PartialEq, Eq)]
pub enum Signal {
    /// A spike from neuron `from` over a synapse of weight `weight`.
    Spike { from: usize, weight: i64 },
    /// An external stimulus of maximal strength, which fires the neuron
    /// whenever it is outside its hard refractory window.
    ForceFire,
}

/// The state after a stimulus of maximal strength at `now`: outside the hard
/// refractory window the neuron fires, whatever its potential; inside it
/// nothing changes.
pub open spec fn force_rule(s: NeuronState, d: Dynamics, now: u64) -> (NeuronState, bool) {
    if in_refractory(s, d, now) {
        (s, false)
    } else {
        (
            NeuronState {
                idx: s.idx,
                firing: true,
                membrane_potential: d.refractory_potential,
                last_update: now,
                pending_action_potentials: s.pending_action_potentials,
            },
            true,
        )
    }
}

/// The state after handling `signal` at `now`: a spike is a stimulus of its
/// synapse's weight, a forced firing one of maximal strength.
pub open spec fn signal_rule(s: NeuronState, d: Dynamics, now: u64, signal: Signal) -> (
    NeuronState,
    bool,
) {
    match signal {
        Signal::Spike { weight, .. } => update_rule(s, d, now, Some(weight)),
        Signal::ForceFire => force_rule(s, d, now),
    }
}

/// Applies a stimulus of maximal strength at `now`. Returns whether the
/// neuron fired, that is whether it was outside its hard refractory window.
pub fn force_fire(state: &mut NeuronState, dynamics: &Dynamics, now: u64) -> (fired: bool)
    requires
        old(state).last_update <= now,
    ensures
        (*final(state), fired) == force_rule(*old(state), *dynamics, now),
{
    if state.firing && now - state.last_update < dynamics.hard_refractory {
        return false;
    }
    state.firing = true;
    state.membrane_potential = dynamics.refractory_potential;
    state.last_update = now;
    true
}

/// A spike leaving for neuron `target`.
#[derive(Clone, Copy, Debug, PartialEq, Eq)]
pub struct Delivery {
    pub target: usize,
    pub signal: Signal,
}

/// What a neuron publishes after each message it handles.
#[derive(Clone, Copy, Debug, PartialEq, Eq)]
pub struct Observation {
    pub idx: usize,
    pub firing: bool,
    pub membrane_potential: i64,
    pub timestamp: u64,
}

/// One neuron's actor: its dynamics, its outgoing synapses and its state.
/// The loop that waits on the inbox and the clock drives it through
/// `next_arrival`, `receive` and `deliver_due`.
pub struct Neuron {
    pub idx: usize,
    pub axons: Vec<SynapseEdge>,
    pub dynamics: Dynamics,
    pub state: NeuronState,
    /// The latest background-stimulus parameters broadcast to the population.
    pub bias: Modulation,
}

impl Neuron {
    /// The queue is ascending and each delivery names one of the synapses.
    pub open spec fn wf(&self) -> bool {
        &&& self.state.idx == self.idx
        &&& sorted_by_arrival(self.state.pending_action_potentials@)
        &&& forall|k: int|
            0 <= k < self.state.pending_action_potentials.len()
                ==> #[trigger] self.state.pending_action_potentials[k].target_idx
                < self.axons.len()
    }

    /// A neuron at rest, last updated at `now`, with nothing pending.
    pub fn new(idx: usize, axons: Vec<SynapseEdge>, dynamics: Dynamics, now: u64) -> (r: Neuron)
        ensures
            r.wf(),
            r.idx == idx,
            r.axons == axons,
            r.dynamics == dynamics,
            r.bias == (Modulation { mean: 0, std: 0 }),
            !r.state.firing,
            r.state.membrane_potential == 0,
            r.state.last_update == now,
            r.state.pending_action_potentials@ == Seq::<ActionPotential>::empty(),
    {
        Neuron {
            idx,
            axons,
            dynamics,
            state: NeuronState {
                idx,
                firing: false,
                membrane_potential: 0,
                last_update: now,
                pending_action_potentials: Vec::new(),
            },
            bias: Modulation { mean: 0, std: 0 },
        }
    }

    /// Takes a broadcast of the background-stimulus parameters.
    pub fn set_bias(&mut self, bias: Modulation)
        ensures
            final(self).bias == bias,
            final(self).idx == old(self).idx,
            final(self).axons == old(self).axons,
            final(self).dynamics == old(self).dynamics,
            final(self).state == old(self).state,
    {
        self.bias = bias;
    }

    /// When the earliest pending delivery arrives; `None` with nothing pending.
    pub fn next_arrival(&self) -> (r: Option<u64>)
        ensures
            r == (if self.state.pending_action_potentials.len() == 0 {
                None
            } else {
                Some(self.state.pending_action_potentials[0].arrival)
            }),
    {
        if self.state.pending_action_potentials.len() == 0 {
            None
        } else {
            Some(self.state.pending_action_potentials[0].arrival)
        }
    }

    /// Handles a message at `now`: runs the update rule with the spike's
    /// weight, or fires on a forced firing, and, if the neuron fired,
    /// schedules one delivery per synapse, arriving after its delay. Inside
    /// the hard refractory window nothing changes. Returns whether the neuron
    /// fired.
    pub fn receive(&mut self, now: u64, signal: Signal) -> (fired: bool)
        requires
            old(self).wf(),
            old(self).state.last_update <= now,
        ensures
            final(self).wf(),
            final(self).idx == old(self).idx,
            final(self).axons == old(self).axons,
            final(self).dynamics == old(self).dynamics,
            final(self).bias == old(self).bias,
            signal == Signal::ForceFire && !in_refractory(old(self).state, old(self).dynamics, now)
                ==> fired,
            in_refractory(old(self).state, old(self).dynamics, now) ==> {
                &&& !fired
                &&& final(self).state == old(self).state
            },
            ({
                let (s, f) = signal_rule(old(self).state, old(self).dynamics, now, signal);
                &&& fired == f
                &&& final(self).state.firing == s.firing
                &&& final(self).state.membrane_potential == s.membrane_potential
                &&& final(self).state.last_update == s.last_update
                &&& final(self).state.pending_action_potentials@ == if f {
                    schedule_all(
                        old(self).state.pending_action_potentials@,
                        old(self).axons@,
                        now,
                        old(self).axons.len() as nat,
                    )
                } else {
                    old(self).state.pending_action_potentials@
                }
            }),
    {
        let fired = match signal {
            Signal::Spike { weight, .. } => update_neuron(
                &mut self.state,
                &self.dynamics,
                now,
                Some(weight),
            ),
            Signal::ForceFire => force_fire(&mut self.state, &self.dynamics, now),
        };
        if fired {
            let ghost q0 = self.state.pending_action_potentials@;
            let ghost s1 = self.state;
            let mut i: usize = 0;
            while i < self.axons.len()
                invariant
                    self.idx == old(self).idx,
                    self.bias == old(self).bias,
                    self.axons == old(self).axons,
                    self.dynamics == old(self).dynamics,
                    self.state.idx == self.idx,
                    self.state.firing == s1.firing,
                    self.state.membrane_potential == s1.membrane_potential,
                    self.state.last_update == s1.last_update,
                    i <= self.axons.len(),
                    sorted_by_arrival(self.state.pending_action_potentials@),
                    forall|k: int|
                        0 <= k < self.state.pending_action_potentials.len()
                            ==> #[trigger] self.state.pending_action_potentials[k].target_idx
                            < self.axons.len(),
                    self.state.pending_action_potentials@ == schedule_all(
                        q0,
                        self.axons@,
                        now,
                        i as nat,
                    ),
                decreases self.axons.len() - i,
            {
                let ap = ActionPotential {
                    arrival: now.saturating_add(self.axons[i].delay),
                    target_idx: i,
                };
                proof {
                    lemma_insert_sorted(self.state.pending_action_potentials@, ap);
                    let q = self.state.pending_action_potentials@;
                    assert forall|k: int| 0 <= k < insert_sorted(q, ap).len()
                        implies #[trigger] insert_sorted(q, ap)[k].target_idx < self.axons.len() by {
                        if insert_sorted(q, ap)[k] != ap {
                            let j = choose|j: int| 0 <= j < q.len() && q[j] == insert_sorted(q, ap)[k];
                            assert(q[j].target_idx < self.axons.len());
                        }
                    }
                }
                enqueue(&mut self.state.pending_action_potentials, ap);
                i += 1;
            }
        }
        fired
    }

    /// Takes the earliest pending delivery if it has arrived by `now`, and
    /// returns the spike it carries: this neuron's index and the synapse's
    /// weight, bound for the synapse's target.
    pub fn deliver_due(&mut self, now: u64) -> (r: Option<Delivery>)
        requires
            old(self).wf(),
        ensures
            final(self).wf(),
            final(self).idx == old(self).idx,
            final(self).axons == old(self).axons,
            final(self).dynamics == old(self).dynamics,
            final(self).bias == old(self).bias,
            final(self).state.firing == old(self).state.firing,
            final(self).state.membrane_potential == old(self).state.membrane_potential,
            final(self).state.last_update == old(self).state.last_update,
            ({
                let q = old(self).state.pending_action_potentials@;
                if q.len() > 0 && q[0].arrival <= now {
                    let e = old(self).axons[q[0].target_idx as int];
                    &&& r == Some(
                        Delivery {
                            target: e.target,
                            signal: Signal::Spike { from: old(self).idx, weight: e.weight },
                        },
                    )
                    &&& final(self).state.pending_action_potentials@ == q.drop_first()
                } else {
                    &&& r is None
                    &&& final(self).state.pending_action_potentials@ == q
                }
            }),
    {
        if self.state.pending_action_potentials.len() == 0
            || self.state.pending_action_potentials[0].arrival > now {
            return None;
        }
        let ap = self.state.pending_action_potentials.remove(0);
        let e = self.axons[ap.target_idx];
        proof {
            let q = old(self).state.pending_action_potentials@;
            assert forall|k: int| 0 <= k < q.len() - 1 implies q.drop_first()[k] == q[k + 1] by {}
        }
        Some(Delivery { target: e.target, signal: Signal::Spike { from: self.idx, weight: e.weight } })
    }

    /// The record published after a message is handled.
    pub fn observe(&self) -> (r: Observation)
        ensures
            r == (Observation {
                idx: self.idx,
                firing: self.state.firing,
                membrane_potential: self.state.membrane_potential,
                timestamp: self.state.last_update,
            }),
    {
        Observation {
            idx: self.idx,
            firing: self.state.firing,
            membrane_potential: self.state.membrane_potential,
            timestamp: self.state.last_update,
        }
    }
}

/// The state after a sequence of updates, each at a time with an optional
/// stimulus, and whether any of them fired.
pub open spec fn run_updates(s: NeuronState, d: Dynamics, events: Seq<(u64, Option<i64>)>) -> (
    NeuronState,
    bool,
)
    decreases events.len(),
{
    if events.len() == 0 {
        (s, false)
    } else {
        let (s1, f1) = update_rule(s, d, events[0].0, events[0].1);
        let (s2, f2) = run_updates(s1, d, events.drop_first());
        (s2, f1 || f2)
    }
}

/// Decay moves the potential toward zero and never across it: a positive
/// potential stays in `[0, p]`, a negative one in `[p, 0]`, a decay of at
/// least one unit strictly shrinks a nonzero potential, and a positive
/// potential is at rest once `p / decay_rate` seconds have passed.
pub proof fn lemma_decay_toward_rest(p: int, dt: int, d: Dynamics)
    requires
        dt >= 0,
    ensures
        p > 0 ==> 0 <= decayed(p, dt, d) <= p,
        p < 0 ==> p <= decayed(p, dt, d) <= 0,
        p == 0 ==> decayed(p, dt, d) == 0,
        p > 0 && decay_amount(dt, d.decay_rate as int) > 0 ==> decayed(p, dt, d) < p,
        p < 0 && decay_amount(dt, d.recovery_rate as int) > 0 ==> decayed(p, dt, d) > p,
        p > 0 && dt * d.decay_rate >= p * MICROS_PER_SECOND ==> decayed(p, dt, d) == 0,
{
    lemma_decay_bounds(p, dt, d);
    if p > 0 && dt * d.decay_rate >= p * MICROS_PER_SECOND {
        assert(decay_amount(dt, d.decay_rate as int) >= p) by (nonlinear_arith)
            requires
                dt * d.decay_rate >= p * 1_000_000,
                p > 0,
        ;
    }
}

/// Once a neuron has fired, every update within the hard refractory window
/// after that firing, with or without a stimulus, leaves its state as it is
/// and does not fire.
pub proof fn lemma_refractory_ignores_stimuli(
    s: NeuronState,
    d: Dynamics,
    events: Seq<(u64, Option<i64>)>,
)
    requires
        s.firing,
        forall|k: int|
            0 <= k < events.len() ==> s.last_update <= (#[trigger] events[k]).0 && events[k].0
                < s.last_update + d.hard_refractory,
    ensures
        run_updates(s, d, events) == (s, false),
    decreases events.len(),
{
    if events.len() > 0 {
        let rest = events.drop_first();
        assert forall|k: int| 0 <= k < rest.len() implies s.last_update <= (
        #[trigger] rest[k]).0 && rest[k].0 < s.last_update + d.hard_refractory by {
            assert(rest[k] == events[k + 1]);
        }
        lemma_refractory_ignores_stimuli(s, d, rest);
    }
}

/// An update with no elapsed time and no stimulus keeps the potential, and a
/// second update at the same instant without a stimulus changes nothing.
pub proof fn lemma_update_idempotent(s: NeuronState, d: Dynamics, now: u64)
    requires
        s.last_update <= now,
    ensures
        update_rule(s, d, s.last_update, None).0.membrane_potential == s.membrane_potential,
        update_rule(update_rule(s, d, now, None).0, d, now, None) == (
            update_rule(s, d, now, None).0,
            false,
        ),
{
    let s1 = update_rule(s, d, now, None).0;
    lemma_decay_bounds(s1.membrane_potential as int, 0, d);
    lemma_decay_bounds(s.membrane_potential as int, 0, d);
    lemma_decay_bounds(s.membrane_potential as int, now - s.last_update, d);
}

/// Once the hard refractory window has passed (or the neuron is not
/// firing), an update takes effect at `now` and fires exactly when the
/// decayed potential plus the stimulus reaches the threshold.
pub proof fn lemma_update_outside_window(
    s: NeuronState,
    d: Dynamics,
    now: u64,
    incoming: Option<i64>,
)
    requires
        s.last_update <= now,
        !in_refractory(s, d, now),
        d.threshold > i64::MIN,
    ensures
        ({
            let (s1, f) = update_rule(s, d, now, incoming);
            let q = decayed(s.membrane_potential as int, now - s.last_update, d);
            &&& s1.last_update == now
            &&& s1.firing == f
            &&& f == (incoming matches Some(x) && q + x >= d.threshold)
        }),
{
    lemma_decay_bounds(s.membrane_potential as int, now - s.last_update, d);
}

/// A stimulus that leaves the decayed potential below the threshold does not
/// fire: the potential becomes the decayed potential plus the stimulus.
pub proof fn lemma_subthreshold_stimulus(s: NeuronState, d: Dynamics, now: u64, x: i64)
    requires
        s.last_update <= now,
        !in_refractory(s, d, now),
        decayed(s.membrane_potential as int, now - s.last_update, d) + x < d.threshold,
        decayed(s.membrane_potential as int, now - s.last_update, d) + x >= i64::MIN,
    ensures
        ({
            let (s1, f) = update_rule(s, d, now, Some(x));
            &&& !f
            &&& !s1.firing
            &&& s1.membrane_potential == decayed(s.membrane_potential as int, now - s.last_update, d)
                + x
            &&& s1.last_update == now
        }),
{
    lemma_decay_bounds(s.membrane_potential as int, now - s.last_update, d);
}

/// With a nonempty refractory window, an update with no elapsed time and no
/// stimulus changes nothing.
pub proof fn lemma_zero_time_update(s: NeuronState, d: Dynamics)
    requires
        d.hard_refractory > 0,
    ensures
        update_rule(s, d, s.last_update, None) == (s, false),
{
    lemma_decay_bounds(s.membrane_potential as int, 0, d);
}

/// Scheduling over the first `n` synapses keeps the queue ascending, keeps
/// every delivery already pending, and adds exactly one delivery per
/// synapse, arriving the synapse's delay after `now`.
pub proof fn lemma_scheduled_deliveries(
    q: Seq<ActionPotential>,
    axons: Seq<SynapseEdge>,
    now: u64,
    n: nat,
)
    requires
        sorted_by_arrival(q),
        n <= axons.len() <= usize::MAX,
    ensures
        sorted_by_arrival(schedule_all(q, axons, now, n)),
        schedule_all(q, axons, now, n).len() == q.len() + n,
        forall|k: int| 0 <= k < q.len() ==> schedule_all(q, axons, now, n).contains(q[k]),
        forall|t: int|
            0 <= t < n ==> schedule_all(q, axons, now, n).contains(
                ActionPotential { arrival: arrival_time(now, axons[t].delay), target_idx: t as usize },
            ),
        forall|k: int|
            0 <= k < schedule_all(q, axons, now, n).len() ==> {
                let ap = #[trigger] schedule_all(q, axons, now, n)[k];
                q.contains(ap) || (ap.target_idx < n && ap.arrival == arrival_time(
                    now,
                    axons[ap.target_idx as int].delay,
                ))
            },
    decreases n,
{
    if n > 0 {
        let m = (n - 1) as nat;
        lemma_scheduled_deliveries(q, axons, now, m);
        let prev = schedule_all(q, axons, now, m);
        let ap = ActionPotential {
            arrival: arrival_time(now, axons[m as int].delay),
            target_idx: m as usize,
        };
        lemma_insert_sorted(prev, ap);
        lemma_insertion_point(prev, ap.arrival);
        let p = insertion_point(prev, ap.arrival);
        let next = insert_sorted(prev, ap);
        assert(next[p] == ap);
        assert forall|x: ActionPotential| prev.contains(x) implies next.contains(x) by {
            let k = choose|k: int| 0 <= k < prev.len() && prev[k] == x;
            if k < p {
                assert(next[k] == x);
            } else {
                assert(next[k + 1] == x);
            }
        }
        assert forall|k: int| 0 <= k < q.len() implies next.contains(q[k]) by {
            assert(prev.contains(q[k]));
        }
        assert forall|t: int| 0 <= t < n implies next.contains(
            ActionPotential { arrival: arrival_time(now, axons[t].delay), target_idx: t as usize },
        ) by {
            if t < m {
                assert(prev.contains(
                    ActionPotential {
                        arrival: arrival_time(now, axons[t].delay),
                        target_idx: t as usize,
                    },
                ));
            }
        }
        assert forall|k: int| 0 <= k < next.len() implies {
            let x = #[trigger] next[k];
            q.contains(x) || (x.target_idx < n && x.arrival == arrival_time(
                now,
                axons[x.target_idx as int].delay,
            ))
        } by {
            let x = next[k];
            if x != ap {
                let j = choose|j: int| 0 <= j < prev.len() && prev[j] == x;
                assert(prev[j] == x);
            }
        }
    }
}

} // verus!
