use spiking_net::network::SynapseEdge;
use spiking_net::neuron::{
    force_fire, update_neuron, ActionPotential, Delivery, Dynamics, Neuron, NeuronState, Observation, Signal,
};
use spiking_net::observer::{ActivityBand, Modulation, Observer};
use spiking_net::params::Params;

fn dynamics() -> Dynamics {
    Params::standard().dynamics
}

fn state(potential: i64, last_update: u64, firing: bool) -> NeuronState {
    NeuronState {
        idx: 0,
        firing,
        membrane_potential: potential,
        last_update,
        pending_action_potentials: Vec::new(),
    }
}

fn edge(source: usize, target: usize, weight: i64, delay: u64) -> SynapseEdge {
    SynapseEdge { source, target, weight, delay }
}

#[test]
fn positive_potential_decays_linearly() {
    let d = dynamics();
    let mut s = state(600_000, 0, false);
    assert!(!update_neuron(&mut s, &d, 1_000_000, None));
    assert_eq!(s.membrane_potential, 300_000);
    assert_eq!(s.last_update, 1_000_000);
}

#[test]
fn decay_stops_at_zero() {
    let d = dynamics();
    let mut s = state(600_000, 0, false);
    update_neuron(&mut s, &d, 3_000_000, None);
    assert_eq!(s.membrane_potential, 0);
    let mut s = state(-700_000, 0, false);
    update_neuron(&mut s, &d, 9_000_000, None);
    assert_eq!(s.membrane_potential, 0);
}

#[test]
fn negative_potential_recovers() {
    let d = dynamics();
    let mut s = state(-700_000, 0, false);
    update_neuron(&mut s, &d, 1_000_000, None);
    assert_eq!(s.membrane_potential, -200_000);
}

#[test]
fn decay_never_changes_sign() {
    let d = dynamics();
    for p in [-700_000i64, -1, 1, 5, 999_999] {
        for dt in [0u64, 1, 3, 1_000, 2_000_000, 50_000_000] {
            let mut s = state(p, 10, false);
            update_neuron(&mut s, &d, 10 + dt, None);
            let q = s.membrane_potential;
            if p > 0 {
                assert!(0 <= q && q <= p);
            } else {
                assert!(p <= q && q <= 0);
            }
        }
    }
}

#[test]
fn small_step_decays_by_whole_units() {
    let d = dynamics();
    let mut s = state(10, 0, false);
    update_neuron(&mut s, &d, 3, None);
    assert_eq!(s.membrane_potential, 10);
    update_neuron(&mut s, &d, 7, None);
    assert_eq!(s.membrane_potential, 9);
}

#[test]
fn stimulus_at_threshold_fires() {
    let d = dynamics();
    let mut s = state(0, 0, false);
    assert!(update_neuron(&mut s, &d, 0, Some(1_000_000)));
    assert!(s.firing);
    assert_eq!(s.membrane_potential, -700_000);
    assert_eq!(s.last_update, 0);
}

#[test]
fn below_threshold_decays_to_rest() {
    let d = dynamics();
    let mut s = state(0, 0, false);
    assert!(!update_neuron(&mut s, &d, 0, Some(500_000)));
    assert!(!s.firing);
    assert_eq!(s.membrane_potential, 500_000);
    // 500_000 units at 300_000 per second: rest after 1_666_667 microseconds.
    update_neuron(&mut s, &d, 1_000_000, None);
    assert_eq!(s.membrane_potential, 200_000);
    assert!(!s.firing);
    update_neuron(&mut s, &d, 1_666_667, None);
    assert_eq!(s.membrane_potential, 0);
    assert!(!s.firing);
}

#[test]
fn update_twice_at_same_instant_is_stable() {
    let d = dynamics();
    let mut s = state(450_000, 100, false);
    update_neuron(&mut s, &d, 100, None);
    assert_eq!(s.membrane_potential, 450_000);
    update_neuron(&mut s, &d, 600_100, None);
    let after_first = (s.firing, s.membrane_potential, s.last_update);
    assert!(!update_neuron(&mut s, &d, 600_100, None));
    assert_eq!((s.firing, s.membrane_potential, s.last_update), after_first);
}

#[test]
fn stimulus_saturates() {
    let d = dynamics();
    let mut s = state(-5, 0, false);
    update_neuron(&mut s, &d, 0, Some(i64::MIN));
    assert_eq!(s.membrane_potential, i64::MIN);
    update_neuron(&mut s, &d, 1_000_000, None);
    assert_eq!(s.membrane_potential, i64::MIN + 500_000);
}

#[test]
fn refractory_window_freezes_state() {
    let d = dynamics();
    let mut s = state(0, 0, false);
    assert!(update_neuron(&mut s, &d, 1_000, Some(2_000_000)));
    for t in [1_000u64, 50_000, 250_999] {
        assert!(!update_neuron(&mut s, &d, t, Some(5_000_000)));
        assert!(s.firing);
        assert_eq!(s.membrane_potential, -700_000);
        assert_eq!(s.last_update, 1_000);
    }
    // The window has passed: the flag clears and decay resumes.
    assert!(!update_neuron(&mut s, &d, 201_000 + 50_000, None));
    assert!(!s.firing);
    assert_eq!(s.membrane_potential, -575_000);
}

#[test]
fn refires_after_window() {
    let d = dynamics();
    let mut s = state(0, 0, false);
    assert!(update_neuron(&mut s, &d, 0, Some(1_000_000)));
    assert!(update_neuron(&mut s, &d, 250_000, Some(2_000_000)));
    assert_eq!(s.last_update, 250_000);
}

#[test]
fn force_fire_fires_outside_window() {
    let d = dynamics();
    let mut n = Neuron::new(0, vec![edge(0, 1, 300, 40)], d, 0);
    assert!(n.receive(0, Signal::ForceFire));
    assert_eq!(n.next_arrival(), Some(40));
    // Inside the window a forced firing is dropped.
    assert!(!n.receive(100_000, Signal::ForceFire));
    assert_eq!(n.state.last_update, 0);
    assert_eq!(n.state.pending_action_potentials.len(), 1);
    // Outside it the neuron fires, though still below rest.
    assert!(n.receive(1_000_000, Signal::ForceFire));
    assert!(n.state.firing);
    assert_eq!(n.state.membrane_potential, -700_000);
    assert_eq!(n.state.last_update, 1_000_000);
    assert_eq!(n.state.pending_action_potentials.len(), 2);
}

#[test]
fn force_fire_from_deep_undershoot() {
    let d = dynamics();
    let mut s = state(i64::MIN, 0, false);
    assert!(force_fire(&mut s, &d, 10));
    assert!(s.firing);
    assert_eq!(s.membrane_potential, -700_000);
    assert_eq!(s.last_update, 10);
}

#[test]
fn bias_broadcast_is_kept() {
    let d = dynamics();
    let mut n = Neuron::new(2, vec![], d, 0);
    assert_eq!(n.bias, Modulation { mean: 0, std: 0 });
    n.set_bias(Modulation { mean: -5_000, std: 1_000_000 });
    assert_eq!(n.bias, Modulation { mean: -5_000, std: 1_000_000 });
    assert!(n.receive(3, Signal::ForceFire));
    assert_eq!(n.bias, Modulation { mean: -5_000, std: 1_000_000 });
}

#[test]
fn second_stimulus_in_window_is_dropped() {
    let d = dynamics();
    let mut n = Neuron::new(3, vec![edge(3, 0, 100, 1_000), edge(3, 1, 200, 2_000)], d, 0);
    assert!(n.receive(10, Signal::Spike { from: 0, weight: 1_200_000 }));
    let before: Vec<ActionPotential> = n.state.pending_action_potentials.clone();
    assert_eq!(before.len(), 2);
    assert!(!n.receive(100_010, Signal::Spike { from: 1, weight: 1_200_000 }));
    assert!(n.state.firing);
    assert_eq!(n.state.membrane_potential, -700_000);
    assert_eq!(n.state.last_update, 10);
    assert_eq!(n.state.pending_action_potentials, before);
}

#[test]
fn deliveries_leave_in_arrival_order() {
    let d = dynamics();
    let axons = vec![
        edge(0, 5, 11, 30),
        edge(0, 6, 22, 10),
        edge(0, 7, 33, 20),
        edge(0, 8, 44, 10),
    ];
    let mut n = Neuron::new(0, axons, d, 100);
    assert!(n.receive(100, Signal::ForceFire));
    let order: Vec<usize> =
        n.state.pending_action_potentials.iter().map(|ap| ap.target_idx).collect();
    assert_eq!(order, vec![1, 3, 2, 0]);
    assert_eq!(n.next_arrival(), Some(110));
    assert_eq!(n.deliver_due(109), None);
    assert_eq!(
        n.deliver_due(110),
        Some(Delivery { target: 6, signal: Signal::Spike { from: 0, weight: 22 } })
    );
    assert_eq!(
        n.deliver_due(200),
        Some(Delivery { target: 8, signal: Signal::Spike { from: 0, weight: 44 } })
    );
    assert_eq!(n.deliver_due(200).map(|x| x.target), Some(7));
    assert_eq!(n.deliver_due(200).map(|x| x.target), Some(5));
    assert_eq!(n.deliver_due(200), None);
    assert_eq!(n.next_arrival(), None);
}

#[test]
fn arrival_saturates_at_latest_time() {
    let d = dynamics();
    let mut n = Neuron::new(0, vec![edge(0, 1, 1, 10)], d, u64::MAX - 3);
    assert!(n.receive(u64::MAX - 3, Signal::ForceFire));
    assert_eq!(n.next_arrival(), Some(u64::MAX));
}

#[test]
fn observation_reports_state() {
    let d = dynamics();
    let mut n = Neuron::new(4, vec![], d, 0);
    n.receive(5, Signal::Spike { from: 1, weight: 400_000 });
    assert_eq!(
        n.observe(),
        Observation { idx: 4, firing: false, membrane_potential: 400_000, timestamp: 5 }
    );
}

/// Drives neurons on a simulated clock: the earliest due delivery goes
/// first, and each firing is recorded as (time, neuron).
fn run_until(neurons: &mut [Neuron], end: u64) -> Vec<(u64, usize)> {
    let mut fired = Vec::new();
    loop {
        let next = neurons
            .iter()
            .enumerate()
            .filter_map(|(i, n)| n.next_arrival().map(|t| (t, i)))
            .min();
        let Some((t, i)) = next else { break };
        if t > end {
            break;
        }
        let delivery = neurons[i].deliver_due(t).unwrap();
        if neurons[delivery.target].receive(t, delivery.signal) {
            fired.push((t, delivery.target));
        }
    }
    fired
}

#[test]
fn ring_fires_once_per_neuron_per_round() {
    let d = dynamics();
    let mut ring = vec![
        Neuron::new(0, vec![edge(0, 1, 2_000_000, 100_000)], d, 0),
        Neuron::new(1, vec![edge(1, 2, 2_000_000, 100_000)], d, 0),
        Neuron::new(2, vec![edge(2, 0, 2_000_000, 100_000)], d, 0),
    ];
    assert!(ring[0].receive(0, Signal::ForceFire));
    let fired = run_until(&mut ring, 600_000);
    assert_eq!(
        fired,
        vec![(100_000, 1), (200_000, 2), (300_000, 0), (400_000, 1), (500_000, 2), (600_000, 0)]
    );
}

#[test]
fn observer_keeps_latest_record() {
    let mut o = Observer::new(3);
    let a = Observation { idx: 1, firing: true, membrane_potential: -700_000, timestamp: 10 };
    let b = Observation { idx: 1, firing: false, membrane_potential: 5, timestamp: 20 };
    assert!(o.record(a));
    assert_eq!(o.firing_count(), 1);
    assert!(o.record(b));
    assert_eq!(o.latest[1], Some(b));
    assert_eq!(o.firing_count(), 0);
    assert!(!o.record(Observation { idx: 3, ..b }));
    assert_eq!(o.latest, vec![None, Some(b), None]);
}

#[test]
fn observer_refresh_clears_finished_firing() {
    let d = dynamics();
    let mut o = Observer::new(2);
    o.record(Observation { idx: 0, firing: true, membrane_potential: -700_000, timestamp: 0 });
    o.record(Observation { idx: 1, firing: true, membrane_potential: -700_000, timestamp: 900_000 });
    o.refresh(&d, 400_000);
    assert_eq!(
        o.latest[0],
        Some(Observation { idx: 0, firing: false, membrane_potential: -500_000, timestamp: 400_000 })
    );
    assert_eq!(o.latest[1].unwrap().timestamp, 900_000);
    assert_eq!(o.firing_count(), 1);
}

#[test]
fn activity_controller_steps_the_mean() {
    let band = ActivityBand { min_active: 50, max_active: 200, step: 5_000 };
    let mut m = Modulation { mean: 0, std: 1_000_000 };
    assert!(m.balance(201, &band));
    assert_eq!(m.mean, -5_000);
    assert!(m.balance(49, &band));
    assert!(m.balance(0, &band));
    assert_eq!(m.mean, 5_000);
    assert!(!m.balance(50, &band));
    assert!(!m.balance(200, &band));
    assert_eq!(m, Modulation { mean: 5_000, std: 1_000_000 });
    let mut low = Modulation { mean: i64::MIN + 1, std: 0 };
    assert!(low.balance(500, &band));
    assert_eq!(low.mean, i64::MIN);
}
