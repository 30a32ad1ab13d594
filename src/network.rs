//! Topology construction: random positions in the layout rectangle and, for
//! each neuron, a set of outgoing synapses drawn with probability falling off
//! with distance.
use crate::geometry::{
    delay_for, delay_of, lemma_delay_positive_monotone, lemma_separation_positive,
    lemma_separation_within, separation,
    separation_of, Position,
};
use crate::neuron::{Dynamics, Neuron};
use crate::observer::Modulation;
use crate::params::{param_error, params_valid, ParamError, Params, MAX_NEURONS};
use crate::random::{
    draw_between, draw_index, index_weights, lemma_total_weight, seeded_rng, weighted_index,
    NeighborSampler,
};
use rand::rngs::StdRng;
use vstd::prelude::*;

verus! {

/// Sampling weight of a neighbour one unit away; a neighbour `d` units away
/// weighs `PROXIMITY_SCALE / d`.
pub const PROXIMITY_SCALE: u64 = 0x100_0000_0000;

/// A directed synapse, owned by its source for delivery.
#[derive(Clone, Copy, Debug, PartialEq, Eq)]
pub struct SynapseEdge {
    pub source: usize,
    pub target: usize,
    /// Potential added at the target on delivery.
    pub weight: i64,
    /// Travel time from source to target, in microseconds.
    pub delay: u64,
}

/// Why a network could not be built.
#[derive(Clone, Copy, Debug, PartialEq, Eq)]
pub enum BuildError {
    InvalidParams(ParamError),
    /// No other neuron lies within the connection distance of this one.
    Isolated(usize),
}

/// Positions and the outgoing synapses of every neuron, by index.
pub struct Network {
    pub positions: Vec<Position>,
    pub connections: Vec<Vec<SynapseEdge>>,
}

/// The positions are one per neuron, inside the layout rectangle.
pub open spec fn in_layout(p: Params, ps: Seq<Position>) -> bool {
    &&& ps.len() == p.neuron_count
    &&& forall|i: int| 0 <= i < ps.len() ==> ps[i].x < p.width && ps[i].y < p.height
}

/// Entry `j` of neuron `i`'s distance row: the separation, or the largest
/// value for the neuron itself.
pub open spec fn row_entry(ps: Seq<Position>, i: int, j: int) -> int {
    if i == j {
        u64::MAX as int
    } else {
        separation(ps[i], ps[j])
    }
}

/// Sampling weight of a neighbour at distance `dist`.
pub open spec fn proximity(dist: int, reach: int) -> int {
    if dist <= reach {
        PROXIMITY_SCALE as int / dist
    } else {
        0
    }
}

/// Neuron `j` is another neuron within `reach` of neuron `i`.
pub open spec fn reachable(ps: Seq<Position>, i: int, j: int, reach: int) -> bool {
    &&& 0 <= j < ps.len()
    &&& j != i
    &&& separation(ps[i], ps[j]) <= reach
}

pub open spec fn has_candidate(ps: Seq<Position>, i: int, reach: int) -> bool {
    exists|j: int| reachable(ps, i, j, reach)
}

/// A synapse that neuron `i` may own.
pub open spec fn edge_ok(p: Params, ps: Seq<Position>, i: int, e: SynapseEdge) -> bool {
    &&& e.source == i
    &&& reachable(ps, i, e.target as int, p.max_connection_distance as int)
    &&& p.min_weight <= e.weight <= p.max_weight
    &&& e.delay == delay_of(separation(ps[i], ps[e.target as int]), p.conduction_speed as int)
}

/// Neuron `i`'s outgoing synapses: between one and `out_degree` of them,
/// each to a different neuron.
pub open spec fn axons_ok(p: Params, ps: Seq<Position>, i: int, edges: Seq<SynapseEdge>) -> bool {
    &&& 1 <= edges.len() <= p.out_degree
    &&& forall|k: int| 0 <= k < edges.len() ==> edge_ok(p, ps, i, #[trigger] edges[k])
    &&& forall|a: int, b: int|
        0 <= a < edges.len() && 0 <= b < edges.len() && a != b ==> edges[a].target
            != edges[b].target
}

pub open spec fn connections_ok(p: Params, ps: Seq<Position>, c: Seq<Vec<SynapseEdge>>) -> bool {
    &&& c.len() == ps.len()
    &&& forall|i: int| 0 <= i < c.len() ==> axons_ok(p, ps, i, #[trigger] c[i]@)
}

/// Draws one position per neuron, uniformly over the rectangle's unit grid.
pub fn sample_positions(params: &Params, rng: &mut StdRng) -> (ps: Vec<Position>)
    requires
        params_valid(*params),
    ensures
        in_layout(*params, ps@),
{
    let mut ps: Vec<Position> = Vec::new();
    let mut i: usize = 0;
    while i < params.neuron_count
        invariant
            params_valid(*params),
            i <= params.neuron_count,
            ps.len() == i,
            forall|k: int| 0 <= k < i ==> ps[k].x < params.width && ps[k].y < params.height,
        decreases params.neuron_count - i,
    {
        let x: i64 = draw_between(rng, 0, (params.width - 1) as i64);
        let y: i64 = draw_between(rng, 0, (params.height - 1) as i64);
        ps.push(Position { x: x as u64, y: y as u64 });
        i += 1;
    }
    ps
}

/// Neuron `i`'s distances to every neuron.
fn distance_row(params: &Params, ps: &Vec<Position>, i: usize) -> (row: Vec<u64>)
    requires
        params_valid(*params),
        in_layout(*params, ps@),
        i < ps.len(),
    ensures
        row.len() == ps.len(),
        forall|j: int| 0 <= j < ps.len() ==> row[j] == row_entry(ps@, i as int, j),
        forall|j: int| 0 <= j < ps.len() && j != i ==> 1 <= #[trigger] row[j] < 0x1_0000_0000,
{
    let mut row: Vec<u64> = Vec::new();
    let mut j: usize = 0;
    while j < ps.len()
        invariant
            params_valid(*params),
            in_layout(*params, ps@),
            i < ps.len(),
            j <= ps.len(),
            row.len() == j,
            forall|k: int| 0 <= k < j ==> row[k] == row_entry(ps@, i as int, k),
            forall|k: int| 0 <= k < j && k != i ==> 1 <= #[trigger] row[k] < 0x1_0000_0000,
        decreases ps.len() - j,
    {
        if j == i {
            row.push(u64::MAX);
        } else {
            row.push(separation_of(ps[i], ps[j]));
        }
        j += 1;
    }
    row
}

/// The sampling weight of each entry of a distance row.
fn proximity_weights(row: &Vec<u64>, reach: u64) -> (w: Vec<u64>)
    requires
        forall|j: int| 0 <= j < row.len() ==> #[trigger] row[j] >= 1,
    ensures
        w.len() == row.len(),
        forall|j: int| 0 <= j < row.len() ==> w[j] == proximity(row[j] as int, reach as int),
        forall|j: int| 0 <= j < row.len() ==> #[trigger] w[j] <= PROXIMITY_SCALE,
{
    let mut w: Vec<u64> = Vec::new();
    let mut j: usize = 0;
    while j < row.len()
        invariant
            forall|k: int| 0 <= k < row.len() ==> #[trigger] row[k] >= 1,
            j <= row.len(),
            w.len() == j,
            forall|k: int| 0 <= k < j ==> w[k] == proximity(row[k] as int, reach as int),
            forall|k: int| 0 <= k < j ==> #[trigger] w[k] <= PROXIMITY_SCALE,
        decreases row.len() - j,
    {
        if row[j] <= reach {
            w.push(PROXIMITY_SCALE / row[j]);
        } else {
            w.push(0);
        }
        j += 1;
    }
    w
}

fn contains(v: &Vec<usize>, x: usize) -> (r: bool)
    ensures
        r == v@.contains(x),
{
    let mut k: usize = 0;
    while k < v.len()
        invariant
            k <= v.len(),
            forall|a: int| 0 <= a < k ==> v[a] != x,
        decreases v.len() - k,
    {
        if v[k] == x {
            return true;
        }
        k += 1;
    }
    false
}

/// The search for a neuron's targets: distinct draws are collected until
/// `out_degree` of them are in hand or `retry_budget` draws in a row bring
/// nothing new.
pub struct TargetSearch {
    pub idx: usize,
    pub out_degree: usize,
    pub retry_budget: usize,
    pub targets: Vec<usize>,
    /// Unproductive draws since the last productive one.
    pub misses: usize,
}

impl TargetSearch {
    pub open spec fn finished(&self) -> bool {
        self.targets.len() >= self.out_degree || self.misses >= self.retry_budget
    }

    /// A search for neuron `idx` that has drawn nothing yet.
    pub fn new(idx: usize, out_degree: usize, retry_budget: usize) -> (r: TargetSearch)
        ensures
            r.idx == idx,
            r.out_degree == out_degree,
            r.retry_budget == retry_budget,
            r.targets@ == Seq::<usize>::empty(),
            r.misses == 0,
    {
        TargetSearch { idx, out_degree, retry_budget, targets: Vec::new(), misses: 0 }
    }

    /// Whether the search is over.
    pub fn is_finished(&self) -> (r: bool)
        ensures
            r == self.finished(),
    {
        self.targets.len() >= self.out_degree || self.misses >= self.retry_budget
    }

    /// Takes one draw: a new target other than the neuron itself is kept and
    /// resets the count of misses; anything else is a miss. Returns whether
    /// the draw was kept.
    pub fn offer(&mut self, t: usize) -> (kept: bool)
        requires
            !old(self).finished(),
        ensures
            kept == (t != old(self).idx && !old(self).targets@.contains(t)),
            final(self).idx == old(self).idx,
            final(self).out_degree == old(self).out_degree,
            final(self).retry_budget == old(self).retry_budget,
            kept ==> final(self).targets@ == old(self).targets@.push(t) && final(self).misses == 0,
            !kept ==> final(self).targets@ == old(self).targets@ && final(self).misses == old(
                self,
            ).misses + 1,
    {
        if t == self.idx || contains(&self.targets, t) {
            self.misses = self.misses + 1;
            false
        } else {
            self.targets.push(t);
            self.misses = 0;
            true
        }
    }
}

/// Draws targets for neuron `idx` until `out_degree` distinct ones are
/// collected or `retry_budget` draws in a row bring nothing new, and returns
/// the finished search.
pub fn choose_targets(
    idx: usize,
    weights: &Vec<u64>,
    sampler: &NeighborSampler,
    rng: &mut StdRng,
    out_degree: usize,
    retry_budget: usize,
) -> (r: TargetSearch)
    requires
        index_weights(*sampler) == weights@,
        idx < weights.len(),
        weights[idx as int] == 0,
        out_degree >= 1,
        retry_budget >= 1,
    ensures
        r.idx == idx,
        r.out_degree == out_degree,
        r.retry_budget == retry_budget,
        r.finished(),
        r.targets.len() < out_degree ==> r.misses == retry_budget,
        1 <= r.targets.len() <= out_degree,
        forall|k: int|
            0 <= k < r.targets.len() ==> #[trigger] r.targets[k] < weights.len()
                && weights[r.targets[k] as int] > 0,
        forall|a: int, b: int|
            0 <= a < r.targets.len() && 0 <= b < r.targets.len() && a != b ==> r.targets[a]
                != r.targets[b],
{
    let mut search = TargetSearch::new(idx, out_degree, retry_budget);
    while !search.is_finished()
        invariant
            index_weights(*sampler) == weights@,
            idx < weights.len(),
            weights[idx as int] == 0,
            search.idx == idx,
            search.out_degree == out_degree,
            search.retry_budget == retry_budget,
            out_degree >= 1,
            retry_budget >= 1,
            search.targets.len() <= out_degree,
            search.misses <= retry_budget,
            search.targets.len() > 0 || search.misses == 0,
            forall|k: int|
                0 <= k < search.targets.len() ==> #[trigger] search.targets[k] < weights.len()
                    && weights[search.targets[k] as int] > 0,
            forall|a: int, b: int|
                0 <= a < search.targets.len() && 0 <= b < search.targets.len() && a != b
                    ==> search.targets[a] != search.targets[b],
        decreases out_degree - search.targets.len(), retry_budget - search.misses,
    {
        let t: usize = draw_index(sampler, rng);
        let ghost before = search.targets@;
        let kept = search.offer(t);
        proof {
            if kept {
                assert forall|a: int| 0 <= a < before.len() implies before[a] != t by {
                    if before[a] == t {
                        assert(before.contains(t));
                    }
                }
                assert(search.targets@[before.len() as int] == t);
            }
        }
    }
    search
}

proof fn lemma_weight_positive(dist: int, reach: int)
    requires
        1 <= dist < 0x1_0000_0000,
    ensures
        proximity(dist, reach) > 0 <==> dist <= reach,
        proximity(dist, reach) <= PROXIMITY_SCALE,
{
    if dist <= reach {
        assert(PROXIMITY_SCALE as int / dist >= 1) by (nonlinear_arith)
            requires
                1 <= dist < 0x1_0000_0000,
        ;
    }
    assert(PROXIMITY_SCALE as int / dist <= PROXIMITY_SCALE) by (nonlinear_arith)
        requires
            1 <= dist,
    ;
}

/// Neuron `i`'s outgoing synapses, or `Isolated(i)` when no other neuron lies
/// within the connection distance.
pub fn connect_neuron(params: &Params, ps: &Vec<Position>, i: usize, rng: &mut StdRng) -> (r:
    Result<Vec<SynapseEdge>, BuildError>)
    requires
        params_valid(*params),
        in_layout(*params, ps@),
        i < ps.len(),
    ensures
        r is Err <==> !has_candidate(ps@, i as int, params.max_connection_distance as int),
        r matches Err(e) ==> e == BuildError::Isolated(i),
        r matches Ok(edges) ==> axons_ok(*params, ps@, i as int, edges@),
{
    let reach: u64 = params.max_connection_distance;
    let row: Vec<u64> = distance_row(params, ps, i);
    let weights: Vec<u64> = proximity_weights(&row, reach);
    proof {
        assert forall|j: int| 0 <= j < ps.len() && j != i implies (weights[j] > 0 <==> reachable(
            ps@,
            i as int,
            j,
            reach as int,
        )) by {
            assert(1 <= row[j] < 0x1_0000_0000);
            lemma_weight_positive(row[j] as int, reach as int);
        }
        assert(weights[i as int] == 0) by {
            assert(PROXIMITY_SCALE as int / (u64::MAX as int) == 0);
        }
        lemma_total_weight(weights@, PROXIMITY_SCALE as int);
        assert(weights.len() * PROXIMITY_SCALE <= u64::MAX) by (nonlinear_arith)
            requires
                weights.len() <= MAX_NEURONS,
        ;
    }
    let sampler = match weighted_index(&weights) {
        Err(_) => {
            proof {
                if has_candidate(ps@, i as int, reach as int) {
                    let j = choose|j: int| reachable(ps@, i as int, j, reach as int);
                    assert(weights[j] > 0);
                }
            }
            return Err(BuildError::Isolated(i));
        },
        Ok(sampler) => sampler,
    };
    proof {
        let k = choose|k: int| 0 <= k < weights.len() && weights[k] > 0;
        assert(reachable(ps@, i as int, k, reach as int));
    }
    let targets: Vec<usize> = choose_targets(
        i,
        &weights,
        &sampler,
        rng,
        params.out_degree,
        params.retry_budget,
    ).targets;
    let mut edges: Vec<SynapseEdge> = Vec::new();
    let mut k: usize = 0;
    while k < targets.len()
        invariant
            params_valid(*params),
            in_layout(*params, ps@),
            i < ps.len(),
            reach == params.max_connection_distance,
            row.len() == ps.len(),
            weights.len() == ps.len(),
            forall|j: int| 0 <= j < ps.len() ==> row[j] == row_entry(ps@, i as int, j),
            forall|j: int| 0 <= j < ps.len() && j != i ==> 1 <= #[trigger] row[j] < 0x1_0000_0000,
            forall|j: int|
                0 <= j < ps.len() && j != i ==> (weights[j] > 0 <==> reachable(
                    ps@,
                    i as int,
                    j,
                    reach as int,
                )),
            weights[i as int] == 0,
            1 <= targets.len() <= params.out_degree,
            forall|a: int|
                0 <= a < targets.len() ==> #[trigger] targets[a] < weights.len()
                    && weights[targets[a] as int] > 0,
            forall|a: int, b: int|
                0 <= a < targets.len() && 0 <= b < targets.len() && a != b ==> targets[a]
                    != targets[b],
            k <= targets.len(),
            edges.len() == k,
            forall|a: int| 0 <= a < k ==> edge_ok(*params, ps@, i as int, #[trigger] edges[a]),
            forall|a: int| 0 <= a < k ==> #[trigger] edges[a].target == targets[a],
        decreases targets.len() - k,
    {
        let t: usize = targets[k];
        assert(t != i);
        assert(reachable(ps@, i as int, t as int, reach as int));
        let weight: i64 = draw_between(rng, params.min_weight, params.max_weight);
        let delay: u64 = delay_for(row[t], params.conduction_speed);
        edges.push(SynapseEdge { source: i, target: t, weight, delay });
        k += 1;
    }
    Ok(edges)
}

impl Network {
    /// Connects every neuron in index order; the first neuron with no
    /// neighbour in reach ends construction with `Isolated`.
    pub fn connect(params: &Params, ps: &Vec<Position>, rng: &mut StdRng) -> (r: Result<
        Vec<Vec<SynapseEdge>>,
        BuildError,
    >)
        requires
            params_valid(*params),
            in_layout(*params, ps@),
        ensures
            r is Ok <==> forall|i: int|
                0 <= i < ps.len() ==> has_candidate(
                    ps@,
                    i,
                    params.max_connection_distance as int,
                ),
            r matches Ok(c) ==> connections_ok(*params, ps@, c@),
            r matches Err(e) ==> exists|i: int|
                {
                    &&& 0 <= i < ps.len()
                    &&& e == BuildError::Isolated(i as usize)
                    &&& !has_candidate(ps@, i, params.max_connection_distance as int)
                    &&& forall|k: int|
                        0 <= k < i ==> has_candidate(
                            ps@,
                            k,
                            params.max_connection_distance as int,
                        )
                },
    {
        let mut c: Vec<Vec<SynapseEdge>> = Vec::new();
        let mut i: usize = 0;
        while i < ps.len()
            invariant
                params_valid(*params),
                in_layout(*params, ps@),
                i <= ps.len(),
                c.len() == i,
                forall|k: int| 0 <= k < i ==> axons_ok(*params, ps@, k, #[trigger] c[k]@),
                forall|k: int|
                    0 <= k < i ==> has_candidate(ps@, k, params.max_connection_distance as int),
            decreases ps.len() - i,
        {
            match connect_neuron(params, ps, i, rng) {
                Err(e) => {
                    assert(0 <= i < ps.len() && e == BuildError::Isolated(i as usize));
                    return Err(e);
                },
                Ok(edges) => {
                    c.push(edges);
                },
            }
            i += 1;
        }
        Ok(c)
    }

    /// Builds a network from a seed: validates the parameters, draws the
    /// positions, then the synapses.
    pub fn new(params: &Params, seed: u64) -> (r: Result<Network, BuildError>)
        ensures
            param_error(*params) matches Some(e) ==> r == Err::<Network, BuildError>(
                BuildError::InvalidParams(e),
            ),
            params_valid(*params) ==> (r matches Err(e) ==> e is Isolated),
            r matches Err(BuildError::Isolated(i)) ==> i < params.neuron_count,
            params_valid(*params) && params.neuron_count >= 2 && params.max_connection_distance
                >= params.width + params.height ==> r is Ok,
            r matches Ok(net) ==> {
                &&& in_layout(*params, net.positions@)
                &&& connections_ok(*params, net.positions@, net.connections@)
            },
    {
        match params.validate() {
            Err(e) => Err(BuildError::InvalidParams(e)),
            Ok(()) => {
                let mut rng = seeded_rng(seed);
                let positions = sample_positions(params, &mut rng);
                let connected = Network::connect(params, &positions, &mut rng);
                proof {
                    let reach = params.max_connection_distance as int;
                    if params.neuron_count >= 2 && reach >= params.width + params.height {
                        assert forall|i: int| 0 <= i < positions.len() implies has_candidate(
                            positions@,
                            i,
                            reach,
                        ) by {
                            let j: int = if i == 0 {
                                1
                            } else {
                                0
                            };
                            lemma_separation_within(
                                positions@[i],
                                positions@[j],
                                params.width as int,
                                params.height as int,
                            );
                            assert(reachable(positions@, i, j, reach));
                        }
                    }
                }
                match connected {
                    Err(e) => Err(e),
                    Ok(connections) => Ok(Network { positions, connections }),
                }
            },
        }
    }
}

/// Every synapse of a built network has a positive delay, and of two
/// synapses the longer one never has the shorter delay.
pub proof fn lemma_edge_delays(
    p: Params,
    ps: Seq<Position>,
    c: Seq<Vec<SynapseEdge>>,
    i1: int,
    k1: int,
    i2: int,
    k2: int,
)
    requires
        params_valid(p),
        connections_ok(p, ps, c),
        0 <= i1 < c.len(),
        0 <= k1 < c[i1].len(),
        0 <= i2 < c.len(),
        0 <= k2 < c[i2].len(),
    ensures
        c[i1][k1].delay > 0,
        separation(ps[i1], ps[c[i1][k1].target as int]) <= separation(
            ps[i2],
            ps[c[i2][k2].target as int],
        ) ==> c[i1][k1].delay <= c[i2][k2].delay,
{
    let e1 = c[i1][k1];
    let e2 = c[i2][k2];
    assert(axons_ok(p, ps, i1, c[i1]@));
    assert(axons_ok(p, ps, i2, c[i2]@));
    assert(edge_ok(p, ps, i1, c[i1]@[k1]));
    assert(edge_ok(p, ps, i2, c[i2]@[k2]));
    let s1 = separation(ps[i1], ps[e1.target as int]);
    let s2 = separation(ps[i2], ps[e2.target as int]);
    lemma_separation_positive(ps[i1], ps[e1.target as int]);
    lemma_separation_positive(ps[i2], ps[e2.target as int]);
    lemma_delay_positive_monotone(s1, s1, p.conduction_speed as int);
    if s1 <= s2 {
        lemma_delay_positive_monotone(s1, s2, p.conduction_speed as int);
    }
}

impl Network {
    /// One actor per neuron, at rest at `now`, each owning its synapses.
    pub fn into_neurons(self, dynamics: Dynamics, now: u64) -> (r: Vec<Neuron>)
        ensures
            r.len() == self.connections.len(),
            forall|i: int|
                0 <= i < r.len() ==> {
                    &&& (#[trigger] r[i]).wf()
                    &&& r[i].idx == i
                    &&& r[i].axons == self.connections[i]
                    &&& r[i].dynamics == dynamics
                    &&& r[i].bias == (Modulation { mean: 0, std: 0 })
                    &&& !r[i].state.firing
                    &&& r[i].state.membrane_potential == 0
                    &&& r[i].state.last_update == now
                    &&& r[i].state.pending_action_potentials.len() == 0
                },
    {
        let ghost original = self.connections;
        let mut connections = self.connections;
        let mut rev: Vec<Neuron> = Vec::new();
        while connections.len() > 0
            invariant
                connections.len() + rev.len() == original.len(),
                forall|i: int| 0 <= i < connections.len() ==> connections[i] == original[i],
                forall|j: int|
                    0 <= j < rev.len() ==> {
                        let i = original.len() - 1 - j;
                        &&& (#[trigger] rev[j]).wf()
                        &&& rev[j].idx == i
                        &&& rev[j].axons == original[i]
                        &&& rev[j].dynamics == dynamics
                        &&& rev[j].bias == (Modulation { mean: 0, std: 0 })
                        &&& !rev[j].state.firing
                        &&& rev[j].state.membrane_potential == 0
                        &&& rev[j].state.last_update == now
                        &&& rev[j].state.pending_action_potentials.len() == 0
                    },
            decreases connections.len(),
        {
            let axons = connections.pop().unwrap();
            let idx: usize = connections.len();
            rev.push(Neuron::new(idx, axons, dynamics, now));
        }
        let mut r: Vec<Neuron> = Vec::new();
        while rev.len() > 0
            invariant
                r.len() + rev.len() == original.len(),
                forall|j: int|
                    0 <= j < rev.len() ==> {
                        let i = original.len() - 1 - j;
                        &&& (#[trigger] rev[j]).wf()
                        &&& rev[j].idx == i
                        &&& rev[j].axons == original[i]
                        &&& rev[j].dynamics == dynamics
                        &&& rev[j].bias == (Modulation { mean: 0, std: 0 })
                        &&& !rev[j].state.firing
                        &&& rev[j].state.membrane_potential == 0
                        &&& rev[j].state.last_update == now
                        &&& rev[j].state.pending_action_potentials.len() == 0
                    },
                forall|i: int|
                    0 <= i < r.len() ==> {
                        &&& (#[trigger] r[i]).wf()
                        &&& r[i].idx == i
                        &&& r[i].axons == original[i]
                        &&& r[i].dynamics == dynamics
                        &&& r[i].bias == (Modulation { mean: 0, std: 0 })
                        &&& !r[i].state.firing
                        &&& r[i].state.membrane_potential == 0
                        &&& r[i].state.last_update == now
                        &&& r[i].state.pending_action_potentials.len() == 0
                    },
            decreases rev.len(),
        {
            let n = rev.pop().unwrap();
            r.push(n);
        }
        r
    }
}

} // verus!
