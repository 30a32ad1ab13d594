//! Construction parameters and their range checks.
use crate::neuron::Dynamics;
use vstd::prelude::*;

verus! {

/// The largest population that can be built.
pub const MAX_NEURONS: usize = 1_000_000;

/// The largest side of the layout rectangle, in space units.
pub const MAX_EXTENT: u64 = 1_000_000_000;

/// Everything that network construction and the neurons' dynamics depend on.
#[derive(Clone, Copy, Debug, PartialEq, Eq)]
pub struct Params {
    pub neuron_count: usize,
    /// Width of the layout rectangle, in space units.
    pub width: u64,
    /// Height of the layout rectangle, in space units.
    pub height: u64,
    /// How many outgoing connections each neuron aims for.
    pub out_degree: usize,
    /// Farthest separation at which two neurons may connect.
    pub max_connection_distance: u64,
    /// Smallest synaptic weight drawn.
    pub min_weight: i64,
    /// Largest synaptic weight drawn.
    pub max_weight: i64,
    /// How many unproductive draws in a row end the search for targets.
    pub retry_budget: usize,
    /// Space units a spike travels per second.
    pub conduction_speed: u64,
    pub dynamics: Dynamics,
}

/// The parameter that is out of range.
#[derive(Clone, Copy, Debug, PartialEq, Eq)]
pub enum ParamError {
    NeuronCount,
    Extent,
    OutDegree,
    ConnectionDistance,
    WeightRange,
    RetryBudget,
    ConductionSpeed,
    Threshold,
    RefractoryPotential,
    DecayRate,
    RecoveryRate,
    HardRefractory,
}

/// The first parameter, in the order of `ParamError`, that is out of range.
pub open spec fn param_error(p: Params) -> Option<ParamError> {
    if !(1 <= p.neuron_count <= MAX_NEURONS) {
        Some(ParamError::NeuronCount)
    } else if !(1 <= p.width <= MAX_EXTENT && 1 <= p.height <= MAX_EXTENT) {
        Some(ParamError::Extent)
    } else if p.out_degree < 1 {
        Some(ParamError::OutDegree)
    } else if p.max_connection_distance < 1 {
        Some(ParamError::ConnectionDistance)
    } else if p.min_weight > p.max_weight {
        Some(ParamError::WeightRange)
    } else if p.retry_budget < 1 {
        Some(ParamError::RetryBudget)
    } else if p.conduction_speed < 1 {
        Some(ParamError::ConductionSpeed)
    } else if p.dynamics.threshold <= 0 {
        Some(ParamError::Threshold)
    } else if p.dynamics.refractory_potential >= 0 {
        Some(ParamError::RefractoryPotential)
    } else if p.dynamics.decay_rate < 1 {
        Some(ParamError::DecayRate)
    } else if p.dynamics.recovery_rate < 1 {
        Some(ParamError::RecoveryRate)
    } else if p.dynamics.hard_refractory < 1 {
        Some(ParamError::HardRefractory)
    } else {
        None
    }
}

pub open spec fn params_valid(p: Params) -> bool {
    param_error(p) is None
}

impl Params {
    /// A population of 800 neurons in a 3:2 rectangle, four connections each.
    pub fn standard() -> (r: Params)
        ensures
            params_valid(r),
            r == (Params {
                neuron_count: 800,
                width: 1_500_000,
                height: 1_000_000,
                out_degree: 4,
                max_connection_distance: 100_000,
                min_weight: -300_000i64,
                max_weight: 1_200_000,
                retry_budget: 50,
                conduction_speed: 250_000,
                dynamics: Dynamics {
                    threshold: 1_000_000,
                    refractory_potential: -700_000i64,
                    decay_rate: 300_000,
                    recovery_rate: 500_000,
                    hard_refractory: 250_000,
                },
            }),
    {
        Params {
            neuron_count: 800,
            width: 1_500_000,
            height: 1_000_000,
            out_degree: 4,
            max_connection_distance: 100_000,
            min_weight: -300_000,
            max_weight: 1_200_000,
            retry_budget: 50,
            conduction_speed: 250_000,
            dynamics: Dynamics {
                threshold: 1_000_000,
                refractory_potential: -700_000,
                decay_rate: 300_000,
                recovery_rate: 500_000,
                hard_refractory: 250_000,
            },
        }
    }

    /// Checks every parameter's range; the error names the first one out of range.
    pub fn validate(&self) -> (r: Result<(), ParamError>)
        ensures
            r == (match param_error(*self) {
                None => Ok(()),
                Some(e) => Err(e),
            }),
    {
        if !(1 <= self.neuron_count && self.neuron_count <= MAX_NEURONS) {
            Err(ParamError::NeuronCount)
        } else if !(1 <= self.width && self.width <= MAX_EXTENT && 1 <= self.height
            && self.height <= MAX_EXTENT) {
            Err(ParamError::Extent)
        } else if self.out_degree < 1 {
            Err(ParamError::OutDegree)
        } else if self.max_connection_distance < 1 {
            Err(ParamError::ConnectionDistance)
        } else if self.min_weight > self.max_weight {
            Err(ParamError::WeightRange)
        } else if self.retry_budget < 1 {
            Err(ParamError::RetryBudget)
        } else if self.conduction_speed < 1 {
            Err(ParamError::ConductionSpeed)
        } else if self.dynamics.threshold <= 0 {
            Err(ParamError::Threshold)
        } else if self.dynamics.refractory_potential >= 0 {
            Err(ParamError::RefractoryPotential)
        } else if self.dynamics.decay_rate < 1 {
            Err(ParamError::DecayRate)
        } else if self.dynamics.recovery_rate < 1 {
            Err(ParamError::RecoveryRate)
        } else if self.dynamics.hard_refractory < 1 {
            Err(ParamError::HardRefractory)
        } else {
            Ok(())
        }
    }
}

} // verus!
