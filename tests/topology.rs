use spiking_net::geometry::{delay_for, isqrt, separation_of, Position};
use spiking_net::network::{sample_positions, BuildError, Network, SynapseEdge, TargetSearch};
use spiking_net::params::{ParamError, Params};
use rand::rngs::StdRng;
use rand::SeedableRng;

fn seeded_rng(seed: u64) -> StdRng {
    StdRng::seed_from_u64(seed)
}

fn pos(x: u64, y: u64) -> Position {
    Position { x, y }
}

fn small_params(n: usize, reach: u64) -> Params {
    let mut p = Params::standard();
    p.neuron_count = n;
    p.max_connection_distance = reach;
    p
}

#[test]
fn standard_params_are_valid() {
    assert_eq!(Params::standard().validate(), Ok(()));
}

#[test]
fn each_param_error_is_reported() {
    let base = Params::standard();
    let mut p = base;
    p.neuron_count = 0;
    assert_eq!(p.validate(), Err(ParamError::NeuronCount));
    let mut p = base;
    p.width = 0;
    assert_eq!(p.validate(), Err(ParamError::Extent));
    let mut p = base;
    p.height = 2_000_000_000;
    assert_eq!(p.validate(), Err(ParamError::Extent));
    let mut p = base;
    p.out_degree = 0;
    assert_eq!(p.validate(), Err(ParamError::OutDegree));
    let mut p = base;
    p.max_connection_distance = 0;
    assert_eq!(p.validate(), Err(ParamError::ConnectionDistance));
    let mut p = base;
    p.min_weight = 5;
    p.max_weight = 4;
    assert_eq!(p.validate(), Err(ParamError::WeightRange));
    let mut p = base;
    p.retry_budget = 0;
    assert_eq!(p.validate(), Err(ParamError::RetryBudget));
    let mut p = base;
    p.conduction_speed = 0;
    assert_eq!(p.validate(), Err(ParamError::ConductionSpeed));
    let mut p = base;
    p.dynamics.threshold = 0;
    assert_eq!(p.validate(), Err(ParamError::Threshold));
    let mut p = base;
    p.dynamics.refractory_potential = 0;
    assert_eq!(p.validate(), Err(ParamError::RefractoryPotential));
    let mut p = base;
    p.dynamics.decay_rate = 0;
    assert_eq!(p.validate(), Err(ParamError::DecayRate));
    let mut p = base;
    p.dynamics.recovery_rate = 0;
    assert_eq!(p.validate(), Err(ParamError::RecoveryRate));
    let mut p = base;
    p.dynamics.hard_refractory = 0;
    assert_eq!(p.validate(), Err(ParamError::HardRefractory));
}

#[test]
fn first_failing_param_is_named() {
    let mut p = Params::standard();
    p.out_degree = 0;
    p.retry_budget = 0;
    assert_eq!(p.validate(), Err(ParamError::OutDegree));
}

#[test]
fn invalid_params_stop_construction() {
    let mut p = Params::standard();
    p.conduction_speed = 0;
    assert!(matches!(
        Network::new(&p, 1),
        Err(BuildError::InvalidParams(ParamError::ConductionSpeed))
    ));
}

#[test]
fn integer_square_roots() {
    assert_eq!(isqrt(0), 0);
    assert_eq!(isqrt(1), 1);
    assert_eq!(isqrt(15), 3);
    assert_eq!(isqrt(16), 4);
    assert_eq!(isqrt(17), 4);
    assert_eq!(isqrt(u64::MAX), 4_294_967_295);
}

#[test]
fn separations() {
    assert_eq!(separation_of(pos(0, 0), pos(3, 4)), 5);
    assert_eq!(separation_of(pos(3, 4), pos(0, 0)), 5);
    assert_eq!(separation_of(pos(10, 10), pos(13, 15)), 5);
    assert_eq!(separation_of(pos(7, 7), pos(7, 7)), 1);
    assert_eq!(separation_of(pos(0, 0), pos(1_000_000, 0)), 1_000_000);
}

#[test]
fn delays_round_up() {
    assert_eq!(delay_for(5, 250_000), 20);
    assert_eq!(delay_for(7, 3), 2_333_334);
    assert_eq!(delay_for(100_000, 250_000), 400_000);
    assert_eq!(delay_for(1, 2_000_000), 1);
}

#[test]
fn delays_positive_and_monotone() {
    let speed = 250_000;
    let mut last = 0;
    for d in 1..2_000u64 {
        let delay = delay_for(d, speed);
        assert!(delay > 0);
        assert!(delay >= last);
        last = delay;
    }
}

#[test]
fn isolated_neuron_fails_construction() {
    let p = small_params(3, 100);
    let ps = vec![pos(0, 0), pos(10, 0), pos(1_000, 1_000)];
    let mut rng = seeded_rng(3);
    assert_eq!(Network::connect(&p, &ps, &mut rng), Err(BuildError::Isolated(2)));
}

#[test]
fn first_isolated_neuron_is_named() {
    let p = small_params(4, 100);
    let ps = vec![pos(0, 0), pos(5_000, 5_000), pos(10, 0), pos(9_000, 0)];
    let mut rng = seeded_rng(11);
    assert_eq!(Network::connect(&p, &ps, &mut rng), Err(BuildError::Isolated(1)));
}

#[test]
fn reach_below_nearest_neighbour_fails() {
    let p = small_params(2, 4);
    let ps = vec![pos(0, 0), pos(3, 4)];
    let mut rng = seeded_rng(0);
    assert_eq!(Network::connect(&p, &ps, &mut rng), Err(BuildError::Isolated(0)));
}

#[test]
fn pair_connects_with_shortfall() {
    let p = small_params(2, 5);
    let ps = vec![pos(0, 0), pos(3, 4)];
    let mut rng = seeded_rng(5);
    let c = Network::connect(&p, &ps, &mut rng).unwrap();
    assert_eq!(c.len(), 2);
    for (i, edges) in c.iter().enumerate() {
        assert_eq!(edges.len(), 1);
        let e: SynapseEdge = edges[0];
        assert_eq!(e.source, i);
        assert_eq!(e.target, 1 - i);
        assert_eq!(e.delay, 20);
        assert!(p.min_weight <= e.weight && e.weight <= p.max_weight);
    }
}

#[test]
fn targets_stay_within_reach() {
    let p = small_params(5, 50);
    let ps = vec![pos(0, 0), pos(30, 0), pos(0, 40), pos(5_000, 0), pos(5_020, 0)];
    let mut rng = seeded_rng(9);
    let c = Network::connect(&p, &ps, &mut rng).unwrap();
    let mut t0: Vec<usize> = c[0].iter().map(|e| e.target).collect();
    t0.sort();
    assert_eq!(t0, vec![1, 2]);
    assert_eq!(c[3].len(), 1);
    assert_eq!(c[3][0].target, 4);
    assert_eq!(c[4][0].target, 3);
}

#[test]
fn positions_fall_inside_the_rectangle() {
    let mut p = small_params(200, 100_000);
    p.width = 3;
    p.height = 2;
    let mut rng = seeded_rng(21);
    let ps = sample_positions(&p, &mut rng);
    assert_eq!(ps.len(), 200);
    assert!(ps.iter().all(|q| q.x < 3 && q.y < 2));
    assert!(ps.iter().any(|q| q.x == 2));
    assert!(ps.iter().any(|q| q.y == 1));
}

#[test]
fn same_seed_same_topology() {
    let p = Params::standard();
    let a = Network::new(&p, 42).unwrap();
    let b = Network::new(&p, 42).unwrap();
    assert_eq!(a.positions, b.positions);
    assert_eq!(a.connections, b.connections);
    let c = Network::new(&p, 43).unwrap();
    assert_ne!(a.positions, c.positions);
}

#[test]
fn standard_network_is_well_formed() {
    let p = Params::standard();
    let net = Network::new(&p, 7).unwrap();
    assert_eq!(net.positions.len(), 800);
    assert_eq!(net.connections.len(), 800);
    for (i, edges) in net.connections.iter().enumerate() {
        assert!(!edges.is_empty() && edges.len() <= p.out_degree);
        for (k, e) in edges.iter().enumerate() {
            assert_eq!(e.source, i);
            assert_ne!(e.target, i);
            assert!(edges[..k].iter().all(|f| f.target != e.target));
            assert!(p.min_weight <= e.weight && e.weight <= p.max_weight);
            let d = separation_of(net.positions[i], net.positions[e.target]);
            assert!(d <= p.max_connection_distance);
            assert_eq!(e.delay, delay_for(d, p.conduction_speed));
            assert!(e.delay > 0);
        }
    }
}

#[test]
fn network_becomes_resting_neurons() {
    let p = small_params(2, 5);
    let net = Network {
        positions: vec![pos(0, 0), pos(3, 4)],
        connections: Network::connect(&p, &vec![pos(0, 0), pos(3, 4)], &mut seeded_rng(1))
            .unwrap(),
    };
    let neurons = net.into_neurons(p.dynamics, 77);
    assert_eq!(neurons.len(), 2);
    for (i, n) in neurons.iter().enumerate() {
        assert_eq!(n.idx, i);
        assert_eq!(n.state.idx, i);
        assert_eq!(n.axons.len(), 1);
        assert_eq!(n.state.last_update, 77);
        assert_eq!(n.state.membrane_potential, 0);
        assert!(!n.state.firing);
        assert!(n.state.pending_action_potentials.is_empty());
    }
}

#[test]
fn search_keeps_new_targets_and_counts_misses() {
    let mut s = TargetSearch::new(2, 3, 2);
    assert!(!s.offer(2));
    assert_eq!(s.misses, 1);
    assert!(s.offer(5));
    assert_eq!(s.misses, 0);
    assert!(!s.offer(5));
    assert!(s.offer(7));
    assert_eq!(s.targets, vec![5, 7]);
    assert!(!s.is_finished());
    assert!(s.offer(0));
    assert!(s.is_finished());
    assert_eq!(s.targets, vec![5, 7, 0]);
}

#[test]
fn search_ends_after_misses_in_a_row() {
    let mut s = TargetSearch::new(0, 4, 3);
    assert!(s.offer(1));
    assert!(!s.offer(1));
    assert!(!s.offer(0));
    assert!(!s.is_finished());
    assert!(!s.offer(1));
    assert!(s.is_finished());
    assert_eq!(s.targets, vec![1]);
    assert_eq!(s.misses, 3);
}

#[test]
fn misses_reset_on_a_new_target() {
    let mut s = TargetSearch::new(0, 4, 2);
    assert!(!s.offer(0));
    assert!(s.offer(3));
    assert!(!s.offer(3));
    assert!(!s.is_finished());
    assert!(s.offer(4));
    assert!(!s.offer(4));
    assert!(!s.is_finished());
}

#[test]
fn reach_covering_the_rectangle_always_connects() {
    let mut p = small_params(6, 2_000);
    p.width = 1_200;
    p.height = 800;
    for seed in 0..20u64 {
        let net = Network::new(&p, seed).unwrap();
        assert_eq!(net.connections.len(), 6);
        assert!(net.connections.iter().all(|c| c.len() == 4));
    }
}
