//! The consumer side of the observation stream: the latest record of each
//! neuron, and a controller that holds population activity inside a band.
use crate::neuron::{saturate, update_neuron, update_rule, Dynamics, NeuronState, Observation};
use vstd::prelude::*;

verus! {

/// A state that a record stands for: its queue is not recorded and does not
/// take part in the update rule.
pub open spec fn state_of(o: Observation) -> NeuronState {
    NeuronState {
        idx: o.idx,
        firing: o.firing,
        membrane_potential: o.membrane_potential,
        last_update: o.timestamp,
        pending_action_potentials: arbitrary(),
    }
}

/// A record brought forward to `now` by the update rule without a stimulus;
/// a record from later than `now` is kept as it is.
pub open spec fn settled(o: Observation, d: Dynamics, now: u64) -> Observation {
    if o.timestamp <= now {
        let s = update_rule(state_of(o), d, now, None).0;
        Observation {
            idx: o.idx,
            firing: s.firing,
            membrane_potential: s.membrane_potential,
            timestamp: s.last_update,
        }
    } else {
        o
    }
}

/// How many of the records say the neuron is firing.
pub open spec fn count_firing(s: Seq<Option<Observation>>) -> nat
    decreases s.len(),
{
    if s.len() == 0 {
        0
    } else {
        count_firing(s.drop_last()) + match s.last() {
            Some(o) => if o.firing {
                1nat
            } else {
                0nat
            },
            None => 0nat,
        }
    }
}

/// The latest record received from each neuron, by index.
pub struct Observer {
    pub latest: Vec<Option<Observation>>,
}

impl Observer {
    /// An observer of `n` neurons that has heard from none.
    pub fn new(n: usize) -> (r: Observer)
        ensures
            r.latest@ == Seq::new(n as nat, |i: int| None::<Observation>),
    {
        let mut latest: Vec<Option<Observation>> = Vec::new();
        let mut i: usize = 0;
        while i < n
            invariant
                i <= n,
                latest@ == Seq::new(i as nat, |k: int| None::<Observation>),
            decreases n - i,
        {
            latest.push(None);
            i += 1;
        }
        Observer { latest }
    }

    /// Keeps `o` as the latest record of its neuron; a record of an unknown
    /// neuron is dropped. Returns whether it was kept.
    pub fn record(&mut self, o: Observation) -> (kept: bool)
        ensures
            kept == (o.idx < old(self).latest.len()),
            final(self).latest@ == if kept {
                old(self).latest@.update(o.idx as int, Some(o))
            } else {
                old(self).latest@
            },
    {
        if o.idx < self.latest.len() {
            self.latest.set(o.idx, Some(o));
            true
        } else {
            false
        }
    }

    /// Brings every record forward to `now`.
    pub fn refresh(&mut self, dynamics: &Dynamics, now: u64)
        ensures
            final(self).latest.len() == old(self).latest.len(),
            forall|i: int|
                0 <= i < old(self).latest.len() ==> #[trigger] final(self).latest[i] == match old(
                    self,
                ).latest[i] {
                    Some(o) => Some(settled(o, *dynamics, now)),
                    None => None,
                },
    {
        let mut i: usize = 0;
        while i < self.latest.len()
            invariant
                i <= self.latest.len(),
                self.latest.len() == old(self).latest.len(),
                forall|k: int|
                    0 <= k < i ==> #[trigger] self.latest[k] == match old(self).latest[k] {
                        Some(o) => Some(settled(o, *dynamics, now)),
                        None => None,
                    },
                forall|k: int| i <= k < self.latest.len() ==> #[trigger] self.latest[k] == old(
                    self,
                ).latest[k],
            decreases self.latest.len() - i,
        {
            match self.latest[i] {
                Some(o) => {
                    if o.timestamp <= now {
                        let mut s = NeuronState {
                            idx: o.idx,
                            firing: o.firing,
                            membrane_potential: o.membrane_potential,
                            last_update: o.timestamp,
                            pending_action_potentials: Vec::new(),
                        };
                        update_neuron(&mut s, dynamics, now, None);
                        self.latest.set(
                            i,
                            Some(
                                Observation {
                                    idx: o.idx,
                                    firing: s.firing,
                                    membrane_potential: s.membrane_potential,
                                    timestamp: s.last_update,
                                },
                            ),
                        );
                    }
                },
                None => {},
            }
            i += 1;
        }
    }

    /// How many neurons are firing by their latest records.
    pub fn firing_count(&self) -> (r: usize)
        ensures
            r == count_firing(self.latest@),
    {
        let mut r: usize = 0;
        let mut i: usize = 0;
        while i < self.latest.len()
            invariant
                i <= self.latest.len(),
                r == count_firing(self.latest@.take(i as int)),
                r <= i,
            decreases self.latest.len() - i,
        {
            assert(self.latest@.take(i + 1).drop_last() =~= self.latest@.take(i as int));
            match self.latest[i] {
                Some(o) => {
                    if o.firing {
                        r += 1;
                    }
                },
                None => {},
            }
            i += 1;
        }
        assert(self.latest@.take(i as int) =~= self.latest@);
        r
    }
}

/// The band that the population's activity is held in, and the step by which
/// the background bias moves when activity leaves it.
#[derive(Clone, Copy, Debug, PartialEq, Eq)]
pub struct ActivityBand {
    pub min_active: usize,
    pub max_active: usize,
    pub step: i64,
}

/// The background stimulus broadcast to every neuron: mean and spread, in
/// potential units.
#[derive(Clone, Copy, Debug, PartialEq, Eq)]
pub struct Modulation {
    pub mean: i64,
    pub std: i64,
}

/// The mean after one step of the controller: lowered when more than
/// `max_active` fire, raised when fewer than `min_active` do, held to the
/// range of an `i64`.
pub open spec fn balanced_mean(mean: i64, n_firing: int, band: ActivityBand) -> int {
    if n_firing > band.max_active {
        saturate(mean - band.step)
    } else if n_firing < band.min_active {
        saturate(mean + band.step)
    } else {
        mean as int
    }
}

impl Modulation {
    /// One step of the activity controller. Returns whether activity was
    /// outside the band, that is whether the mean was stepped and should be
    /// broadcast again.
    pub fn balance(&mut self, n_firing: usize, band: &ActivityBand) -> (changed: bool)
        ensures
            changed == (n_firing > band.max_active || n_firing < band.min_active),
            final(self).mean == balanced_mean(old(self).mean, n_firing as int, *band),
            final(self).std == old(self).std,
    {
        if n_firing > band.max_active {
            self.mean = clamp_i64(self.mean as i128 - band.step as i128);
            true
        } else if n_firing < band.min_active {
            self.mean = clamp_i64(self.mean as i128 + band.step as i128);
            true
        } else {
            false
        }
    }
}

fn clamp_i64(x: i128) -> (r: i64)
    ensures
        r == saturate(x as int),
{
    if x > i64::MAX as i128 {
        i64::MAX
    } else if x < i64::MIN as i128 {
        i64::MIN
    } else {
        x as i64
    }
}

} // verus!
