//! Folding a sequence of telemetry samples through the battery.

use vstd::prelude::*;
use crate::battery::{Battery, BatteryError, BatteryFault, BatteryState, BatteryView, StateView};
use crate::types::{TelemetryPoint, TelemetryView};

verus! {

/// Why a simulation stopped: the failure of a step, and the index, counted
/// from zero, of the telemetry sample it was taken for.
#[derive(Debug)]
pub enum SimulationError {
    ErrorSimulatingLoadFollowing(BatteryError, usize),
}

impl View for SimulationError {
    type V = (BatteryFault, int);

    open spec fn view(&self) -> (BatteryFault, int) {
        match *self {
            SimulationError::ErrorSimulatingLoadFollowing(e, step) => (e@, step as int),
        }
    }
}

/// The views of a sequence of states.
pub open spec fn spec_states(states: Seq<BatteryState>) -> Seq<StateView> {
    states.map_values(|s: BatteryState| s@)
}

/// The views of a sequence of telemetry samples.
pub open spec fn spec_points(points: Seq<TelemetryPoint>) -> Seq<TelemetryView> {
    points.map_values(|p: TelemetryPoint| p@)
}

/// The trajectory of a battery through a sequence of samples: the initial
/// state followed by the state after each sample in turn; or the first step
/// that fails, with the index of its sample.
pub open spec fn spec_simulate(
    battery: BatteryView,
    points: Seq<TelemetryView>,
    initial: StateView,
) -> Result<Seq<StateView>, (BatteryFault, int)>
    decreases points.len(),
{
    if points.len() == 0 {
        Ok(seq![initial])
    } else {
        match spec_simulate(battery, points.drop_last(), initial) {
            Err(e) => Err(e),
            Ok(states) => match battery.load_follow_step(states.last(), points.last()) {
                Ok(next) => Ok(states.push(next)),
                Err(fault) => Err((fault, points.len() - 1)),
            },
        }
    }
}

/// A trajectory holds one state more than there are samples, and starts
/// with the initial state.
pub proof fn lemma_trajectory_length(
    battery: BatteryView,
    points: Seq<TelemetryView>,
    initial: StateView,
)
    ensures
        spec_simulate(battery, points, initial) matches Ok(states) ==> states.len() == points.len()
            + 1 && states[0] == initial,
    decreases points.len(),
{
    if points.len() > 0 {
        lemma_trajectory_length(battery, points.drop_last(), initial);
    }
}

/// From an initial state that respects the limits of the battery, every
/// step is served: the trajectory exists, and every state of it respects
/// the limits.
pub proof fn lemma_trajectory_within_limits(
    battery: BatteryView,
    points: Seq<TelemetryView>,
    initial: StateView,
)
    requires
        battery.wf(),
        battery.admits(initial),
        forall|i: int| 0 <= i < points.len() ==> (#[trigger] points[i]).duration > 0,
    ensures
        spec_simulate(battery, points, initial) matches Ok(states) && forall|i: int|
            0 <= i < states.len() ==> battery.admits(#[trigger] states[i]),
    decreases points.len(),
{
    if points.len() > 0 {
        let earlier = points.drop_last();
        assert forall|i: int| 0 <= i < earlier.len() implies (#[trigger] earlier[i]).duration
            > 0 by {
            assert(earlier[i] == points[i]);
        }
        lemma_trajectory_within_limits(battery, earlier, initial);
        lemma_trajectory_length(battery, earlier, initial);
        let states = spec_simulate(battery, earlier, initial)->Ok_0;
        let point = points.last();
        battery.lemma_requests_served(states.last(), point.excess_pv(), point.duration);
        battery.lemma_limits_preserved(states.last(), point.excess_pv(), point.duration, point);
    }
}

/// Simulates load following: starting from the initial state, each sample in
/// turn advances the battery by one step. Returns the whole trajectory, the
/// initial state first.
pub fn simulate_load_following(
    telemetry_points: Vec<TelemetryPoint>,
    battery: Battery,
    initial_state: BatteryState,
) -> (r: Result<Vec<BatteryState>, SimulationError>)
    requires
        battery@.admits(initial_state@),
    ensures
        match spec_simulate(battery@, spec_points(telemetry_points@), initial_state@) {
            Ok(states) => r matches Ok(v) && spec_states(v@) == states,
            Err(e) => r matches Err(f) && f@ == e,
        },
        r matches Ok(v) && v.len() == telemetry_points.len() + 1 && forall|i: int|
            0 <= i < v.len() ==> battery@.admits(#[trigger] v[i]@),
{
    let ghost points = spec_points(telemetry_points@);
    let mut states: Vec<BatteryState> = Vec::new();
    states.push(initial_state);
    assert(points.take(0).len() == 0);
    assert(spec_states(states@) =~= seq![initial_state@]);
    let mut i: usize = 0;
    while i < telemetry_points.len()
        invariant
            0 <= i <= telemetry_points.len(),
            points == spec_points(telemetry_points@),
            states.len() == i + 1,
            spec_simulate(battery@, points.take(i as int), initial_state@) == Ok::<
                Seq<StateView>,
                (BatteryFault, int),
            >(spec_states(states@)),
            forall|k: int| 0 <= k < states.len() ==> battery@.admits(#[trigger] states[k]@),
        decreases telemetry_points.len() - i,
    {
        let ghost before = spec_states(states@);
        proof {
            assert(points.take(i + 1).drop_last() =~= points.take(i as int));
            assert(points.take(i + 1).last() == telemetry_points[i as int]@);
            assert(before.last() == states[i as int]@);
        }
        match battery.load_follow_step(&states[i], &telemetry_points[i]) {
            Ok(new_state) => {
                states.push(new_state);
                proof {
                    assert(spec_states(states@) =~= before.push(new_state@));
                }
            },
            Err(e) => {
                return Err(SimulationError::ErrorSimulatingLoadFollowing(e, i));
            },
        }
        i += 1;
    }
    proof {
        assert(points.take(i as int) =~= points);
    }
    Ok(states)
}

} // verus!
