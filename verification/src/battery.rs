//! The battery and its state-transition engine: charge, discharge, step and
//! load following.
//!
//! The engine computes on the counts of its quantities rather than with
//! their operators: the power that fills a battery within a very short
//! duration may lie far beyond the magnitude bound of a power, and only the
//! smaller of it and the maximum power has to be one.

use vstd::prelude::*;
use crate::fixed::{MAX_VALUE, SCALE, spec_times, spec_over, scale};
use crate::scalar::Scalar;
use std::ops::Neg;
use crate::types::{Energy, Power, Duration, Efficiency, TelemetryPoint, TelemetryView,
    spec_is_fraction, spec_root};

verus! {

/// The smaller of two integers.
pub open spec fn spec_lesser(a: int, b: int) -> int {
    if a <= b {
        a
    } else {
        b
    }
}

/// The larger of two integers.
pub open spec fn spec_greater(a: int, b: int) -> int {
    if a >= b {
        a
    } else {
        b
    }
}

/// What a battery state holds, in counts of `10^-12`.
pub ghost struct StateView {
    pub state_of_charge: int,
    pub power: int,
}

/// What a battery is configured with, in counts of `10^-12`.
pub ghost struct BatteryView {
    pub capacity: int,
    pub max_power: int,
    pub round_trip_efficiency: int,
}

/// Why a state is inconsistent with a battery, in counts of `10^-12`.
pub ghost enum StateFault {
    NegativeStateOfCharge,
    StateOfChargeGreaterThanCapacity(int, int),
    PowerGreaterThanMax,
}

/// Why a battery operation failed, in counts of `10^-12`.
pub ghost enum BatteryFault {
    NonPositiveCapacity,
    NonPositiveMaxPower,
    ErrorCharging(StateFault),
    ErrorDischarging(StateFault),
}

/// A point-in-time snapshot of a battery: the energy it stores and the power
/// it is taking (positive) or giving (negative).
#[derive(Debug, Clone, Copy)]
pub struct BatteryState {
    state_of_charge: Energy,
    power: Power,
}

impl View for BatteryState {
    type V = StateView;

    closed spec fn view(&self) -> StateView {
        StateView { state_of_charge: self.state_of_charge@, power: self.power@ }
    }
}

impl BatteryState {
    fn new(state_of_charge: Energy, power: Power) -> (r: BatteryState)
        ensures
            r@ == (StateView { state_of_charge: state_of_charge@, power: power@ }),
    {
        BatteryState { state_of_charge, power }
    }

    /// The stored energy as a count of `10^-12` kWh.
    pub fn state_of_charge_kwh(&self) -> (r: i64)
        ensures
            r == self@.state_of_charge,
    {
        self.state_of_charge.as_kwh()
    }

    /// The power as a count of `10^-12` kW.
    pub fn power_kw(&self) -> (r: i64)
        ensures
            r == self@.power,
    {
        self.power.as_kw()
    }

    /// The power the battery is taking or giving.
    pub fn power(&self) -> (r: Power)
        ensures
            r@ == self@.power,
    {
        self.power
    }

    /// The energy the battery stores.
    pub fn state_of_charge(&self) -> (r: Energy)
        ensures
            r@ == self@.state_of_charge,
    {
        self.state_of_charge
    }
}

/// The fixed physical limits of a battery.
#[derive(Debug, Clone, Copy)]
pub struct Battery {
    capacity: Energy,
    max_power: Power,
    round_trip_efficiency: Efficiency,
}

/// Why a battery could not be built or an operation on it failed.
#[derive(Debug)]
pub enum BatteryError {
    /// The capacity is not above zero.
    NonPositiveCapacity,
    /// The maximum power is not above zero.
    NonPositiveMaxPower,
    /// The state reached by charging is inconsistent with the battery.
    ErrorCharging(BatteryStateError),
    /// The state reached by discharging is inconsistent with the battery.
    ErrorDischarging(BatteryStateError),
}

/// Why a state is inconsistent with a battery.
#[derive(Debug)]
pub enum BatteryStateError {
    /// The state of charge is below zero.
    NegativeStateOfCharge,
    /// The state of charge, given first, is above the capacity, given second.
    StateOfChargeGreaterThanCapacity(Energy, Energy),
    /// The magnitude of the power is above the maximum power.
    PowerGreaterThanMax,
}

impl View for BatteryStateError {
    type V = StateFault;

    open spec fn view(&self) -> StateFault {
        match *self {
            BatteryStateError::NegativeStateOfCharge => StateFault::NegativeStateOfCharge,
            BatteryStateError::StateOfChargeGreaterThanCapacity(soc, capacity) =>
                StateFault::StateOfChargeGreaterThanCapacity(soc@, capacity@),
            BatteryStateError::PowerGreaterThanMax => StateFault::PowerGreaterThanMax,
        }
    }
}

impl View for BatteryError {
    type V = BatteryFault;

    open spec fn view(&self) -> BatteryFault {
        match *self {
            BatteryError::NonPositiveCapacity => BatteryFault::NonPositiveCapacity,
            BatteryError::NonPositiveMaxPower => BatteryFault::NonPositiveMaxPower,
            BatteryError::ErrorCharging(e) => BatteryFault::ErrorCharging(e@),
            BatteryError::ErrorDischarging(e) => BatteryFault::ErrorDischarging(e@),
        }
    }
}

/// The view of the outcome of building a state.
pub open spec fn spec_state_outcome(r: Result<BatteryState, BatteryStateError>) -> Result<
    StateView,
    StateFault,
> {
    match r {
        Ok(s) => Ok(s@),
        Err(e) => Err(e@),
    }
}

/// The view of the outcome of a battery operation.
pub open spec fn spec_outcome(r: Result<BatteryState, BatteryError>) -> Result<
    StateView,
    BatteryFault,
> {
    match r {
        Ok(s) => Ok(s@),
        Err(e) => Err(e@),
    }
}

impl BatteryView {
    /// The configuration with the given limits, or why no battery has it.
    pub open spec fn new(capacity: int, max_power: int, round_trip_efficiency: int) -> Result<
        BatteryView,
        BatteryFault,
    > {
        if capacity <= 0 {
            Err(BatteryFault::NonPositiveCapacity)
        } else if max_power <= 0 {
            Err(BatteryFault::NonPositiveMaxPower)
        } else {
            Ok(BatteryView { capacity, max_power, round_trip_efficiency })
        }
    }

    /// Whether the configuration is one a battery can have.
    pub open spec fn wf(self) -> bool {
        &&& 0 < self.capacity <= MAX_VALUE
        &&& 0 < self.max_power <= MAX_VALUE
        &&& spec_is_fraction(self.round_trip_efficiency)
    }

    /// The one-way efficiency: the square root of the round-trip efficiency.
    pub open spec fn efficiency(self) -> int {
        spec_root(self.round_trip_efficiency)
    }

    /// Whether a state respects the limits of this battery.
    pub open spec fn admits(self, state: StateView) -> bool {
        &&& 0 <= state.state_of_charge <= self.capacity
        &&& -self.max_power <= state.power <= self.max_power
    }

    /// The state with the given contents, or why this battery has no such state.
    pub open spec fn init_state(self, state_of_charge: int, power: int) -> Result<
        StateView,
        StateFault,
    > {
        if state_of_charge < 0 {
            Err(StateFault::NegativeStateOfCharge)
        } else if state_of_charge > self.capacity {
            Err(StateFault::StateOfChargeGreaterThanCapacity(state_of_charge, self.capacity))
        } else if power > self.max_power || -power > self.max_power {
            Err(StateFault::PowerGreaterThanMax)
        } else {
            Ok(StateView { state_of_charge, power })
        }
    }

    /// The power that would exactly fill the remaining capacity within the
    /// duration, counting charging losses.
    pub open spec fn power_to_fill(self, state: StateView, duration: int) -> int {
        spec_over(spec_over(self.capacity - state.state_of_charge, duration), self.efficiency())
    }

    /// The power that would exactly empty the stored energy within the
    /// duration, counting discharging losses.
    pub open spec fn power_to_empty(self, state: StateView, duration: int) -> int {
        spec_times(spec_over(state.state_of_charge, duration), self.efficiency())
    }

    /// The largest power at which the battery can charge over the duration.
    pub open spec fn max_achievable_charge_power(self, state: StateView, duration: int) -> int {
        spec_lesser(self.max_power, self.power_to_fill(state, duration))
    }

    /// The largest power at which the battery can discharge over the duration.
    pub open spec fn max_achievable_discharge_power(self, state: StateView, duration: int) -> int {
        spec_lesser(self.max_power, self.power_to_empty(state, duration))
    }

    /// The energy that enters storage when charging at a power for a duration.
    pub open spec fn energy_stored(self, power: int, duration: int) -> int {
        spec_times(spec_times(power, duration), self.efficiency())
    }

    /// The energy that leaves storage when discharging at a power for a duration.
    pub open spec fn energy_drawn(self, power: int, duration: int) -> int {
        spec_over(spec_times(power, duration), self.efficiency())
    }

    /// The power at which a charge request is served.
    pub open spec fn charge_power(self, state: StateView, power: int, duration: int) -> int {
        spec_lesser(power, self.max_achievable_charge_power(state, duration))
    }

    /// The power at which a discharge request is served.
    pub open spec fn discharge_power(self, state: StateView, power: int, duration: int) -> int {
        spec_lesser(power, self.max_achievable_discharge_power(state, duration))
    }

    /// The state of charge after a charge request, before it is validated.
    pub open spec fn charged_level(self, state: StateView, power: int, duration: int) -> int {
        spec_lesser(
            self.capacity,
            state.state_of_charge + self.energy_stored(
                self.charge_power(state, power, duration),
                duration,
            ),
        )
    }

    /// The state of charge after a discharge request, before it is validated.
    pub open spec fn discharged_level(self, state: StateView, power: int, duration: int) -> int {
        spec_greater(
            0,
            state.state_of_charge - self.energy_drawn(
                self.discharge_power(state, power, duration),
                duration,
            ),
        )
    }

    /// The outcome of charging at the requested power for the duration.
    pub open spec fn charge(self, state: StateView, power: int, duration: int) -> Result<
        StateView,
        BatteryFault,
    > {
        match self.init_state(
            self.charged_level(state, power, duration),
            self.charge_power(state, power, duration),
        ) {
            Ok(next) => Ok(next),
            Err(fault) => Err(BatteryFault::ErrorCharging(fault)),
        }
    }

    /// The outcome of discharging at the requested power for the duration.
    pub open spec fn discharge(self, state: StateView, power: int, duration: int) -> Result<
        StateView,
        BatteryFault,
    > {
        match self.init_state(
            self.discharged_level(state, power, duration),
            self.discharge_power(state, power, duration),
        ) {
            Ok(next) => Ok(next),
            Err(fault) => Err(BatteryFault::ErrorDischarging(fault)),
        }
    }

    /// The outcome of one step at a signed power: negative power discharges
    /// at its magnitude, positive power charges, and zero power keeps the
    /// state of charge and moves no power.
    pub open spec fn step(self, state: StateView, power: int, duration: int) -> Result<
        StateView,
        BatteryFault,
    > {
        if power < 0 {
            self.discharge(state, -power, duration)
        } else if power > 0 {
            self.charge(state, power, duration)
        } else {
            Ok(StateView { state_of_charge: state.state_of_charge, power: 0 })
        }
    }

    /// The outcome of one step that follows the excess generation of a sample.
    pub open spec fn load_follow_step(self, state: StateView, point: TelemetryView) -> Result<
        StateView,
        BatteryFault,
    > {
        self.step(state, point.excess_pv(), point.duration)
    }
}

impl View for Battery {
    type V = BatteryView;

    closed spec fn view(&self) -> BatteryView {
        BatteryView {
            capacity: self.capacity@,
            max_power: self.max_power@,
            round_trip_efficiency: self.round_trip_efficiency@,
        }
    }
}

impl Battery {
    #[verifier::type_invariant]
    spec fn positive(self) -> bool {
        self.capacity@ > 0 && self.max_power@ > 0
    }

    /// A battery with the given limits; the capacity and the maximum power
    /// must both be above zero.
    pub fn new(capacity: Energy, max_power: Power, round_trip_efficiency: Efficiency) -> (r: Result<
        Battery,
        BatteryError,
    >)
        ensures
            match BatteryView::new(capacity@, max_power@, round_trip_efficiency@) {
                Ok(limits) => r matches Ok(b) && b@ == limits && limits.wf(),
                Err(fault) => r matches Err(e) && e@ == fault,
            },
    {
        if capacity.as_kwh() <= 0 {
            return Err(BatteryError::NonPositiveCapacity);
        }
        if max_power.as_kw() <= 0 {
            return Err(BatteryError::NonPositiveMaxPower);
        }
        let _: i64 = round_trip_efficiency.as_fraction();
        Ok(Battery { capacity, max_power, round_trip_efficiency })
    }

    /// The capacity and the maximum power, as counts of `10^-12`.
    fn limits(&self) -> (r: (i64, i64))
        ensures
            self@.wf(),
            r.0 == self@.capacity,
            r.1 == self@.max_power,
    {
        proof {
            use_type_invariant(self);
        }
        let _: i64 = self.round_trip_efficiency.as_fraction();
        (self.capacity.as_kwh(), self.max_power.as_kw())
    }

    /// Builds the state with the given contents, if it respects the limits of
    /// this battery.
    pub fn init_state(&self, state_of_charge: Energy, power: Power) -> (r: Result<
        BatteryState,
        BatteryStateError,
    >)
        ensures
            spec_state_outcome(r) == self@.init_state(state_of_charge@, power@),
            r matches Ok(s) ==> self@.admits(s@),
            self@.wf(),
    {
        let (_, _) = self.limits();
        if state_of_charge.as_kwh() < 0 {
            Err(BatteryStateError::NegativeStateOfCharge)
        } else if state_of_charge.as_kwh() > self.capacity.as_kwh() {
            Err(BatteryStateError::StateOfChargeGreaterThanCapacity(state_of_charge, self.capacity))
        } else if power.abs().as_kw() > self.max_power.as_kw() {
            Err(BatteryStateError::PowerGreaterThanMax)
        } else {
            Ok(BatteryState::new(state_of_charge, power))
        }
    }

    /// Whether the state respects the limits of this battery, as every state
    /// does that this battery has built or produced.
    pub fn admits(&self, battery_state: &BatteryState) -> (r: bool)
        ensures
            r == self@.admits(battery_state@),
    {
        let level: i64 = battery_state.state_of_charge_kwh();
        let power: i64 = battery_state.power_kw();
        0 <= level && level <= self.capacity.as_kwh() && -self.max_power.as_kw() <= power && power
            <= self.max_power.as_kw()
    }

    /// The one-way efficiency: the square root of the round-trip efficiency.
    pub fn efficiency(&self) -> (r: Efficiency)
        ensures
            r@ == self@.efficiency(),
            spec_is_fraction(r@),
            crate::fixed::spec_is_ceil_sqrt(self@.round_trip_efficiency * SCALE, r@),
            self@.wf(),
    {
        let (_, _) = self.limits();
        let _: i64 = self.round_trip_efficiency.as_fraction();
        proof {
            crate::types::lemma_root_is_fraction(self.round_trip_efficiency@);
        }
        self.round_trip_efficiency.sqrt()
    }
}

impl Battery {
    /// The largest power at which the battery can charge from the state over
    /// the duration: the maximum power, or the power that fills the remaining
    /// capacity if that is smaller.
    pub fn max_achievable_charge_power(&self, battery_state: &BatteryState, duration: Duration) -> (r:
        Power)
        requires
            self@.admits(battery_state@),
        ensures
            r@ == self@.max_achievable_charge_power(battery_state@, duration@),
            0 <= r@ <= self@.max_power,
    {
        let (capacity, max_power) = self.limits();
        let level: i64 = battery_state.state_of_charge_kwh();
        let hours: i64 = duration.as_hour();
        let efficiency: i64 = self.efficiency().as_fraction();
        let available: i64 = capacity - level;
        proof {
            lemma_counts_product(available as int, SCALE as int, MAX_VALUE as int, SCALE as int);
            crate::fixed::lemma_scale_sign(available as int, SCALE as int, hours as int);
        }
        let spread: i128 = scale(available as i128, SCALE, hours as u64);
        proof {
            crate::fixed::lemma_scale_grows(spread as int, SCALE as int, efficiency as int);
            crate::fixed::lemma_scale_sign(spread as int, SCALE as int, efficiency as int);
        }
        if spread >= max_power as i128 {
            return self.max_power;
        }
        proof {
            lemma_counts_product(spread as int, SCALE as int, MAX_VALUE as int, SCALE as int);
        }
        let fill: i128 = scale(spread, SCALE, efficiency as u64);
        if fill >= max_power as i128 {
            self.max_power
        } else {
            Power::from_kw_const(Scalar::Finite(fill as i64))
        }
    }

    /// The largest power at which the battery can discharge from the state
    /// over the duration: the maximum power, or the power that empties the
    /// stored energy if that is smaller.
    pub fn max_achievable_discharge_power(
        &self,
        battery_state: &BatteryState,
        duration: Duration,
    ) -> (r: Power)
        requires
            self@.admits(battery_state@),
        ensures
            r@ == self@.max_achievable_discharge_power(battery_state@, duration@),
            0 <= r@ <= self@.max_power,
    {
        let (capacity, max_power) = self.limits();
        let level: i64 = battery_state.state_of_charge_kwh();
        let hours: i64 = duration.as_hour();
        let efficiency: i64 = self.efficiency().as_fraction();
        proof {
            crate::types::lemma_root_is_fraction(self@.round_trip_efficiency);
            lemma_counts_product(level as int, SCALE as int, MAX_VALUE as int, SCALE as int);
            crate::fixed::lemma_scale_sign(level as int, SCALE as int, hours as int);
        }
        let spread: i128 = scale(level as i128, SCALE, hours as u64);
        proof {
            crate::fixed::lemma_scale_sign(spread as int, efficiency as int, SCALE as int);
        }
        if spread >= 100_000_000_000_000_000_000_000 {
            proof {
                let product = spread * efficiency;
                assert(product >= MAX_VALUE * SCALE) by (nonlinear_arith)
                    requires
                        product == spread * efficiency,
                        spread >= 100_000_000_000_000_000_000_000,
                        efficiency > 10_000_000,
                ;
                crate::fixed::lemma_ceil_div_bounds(product, SCALE as int);
                let q = crate::fixed::spec_ceil_div(product, SCALE as int);
                assert(q >= MAX_VALUE) by (nonlinear_arith)
                    requires
                        q * SCALE >= product,
                        product >= MAX_VALUE * SCALE,
                        SCALE > 0,
                {
                    if q < MAX_VALUE {
                        assert(q * SCALE <= (MAX_VALUE - 1) * SCALE);
                    }
                }
            }
            return self.max_power;
        }
        proof {
            lemma_counts_product(
                spread as int,
                efficiency as int,
                100_000_000_000_000_000_000_000,
                SCALE as int,
            );
        }
        let empty: i128 = scale(spread, efficiency as u64, SCALE);
        if empty >= max_power as i128 {
            self.max_power
        } else {
            Power::from_kw_const(Scalar::Finite(empty as i64))
        }
    }
}

impl Battery {
    /// The energy moved through the battery's terminals at a power over a
    /// duration, as a count of `10^-12` kWh.
    fn energy_moved(power: Power, duration: Duration) -> (r: i128)
        ensures
            r == spec_times(power@, duration@),
            -1_000_000_000_000_000_000_000_000 <= r <= 1_000_000_000_000_000_000_000_000,
            power@ >= 0 ==> r >= 0,
    {
        let kw: i64 = power.as_kw();
        let hours: i64 = duration.as_hour();
        proof {
            lemma_counts_product(kw as int, hours as int, MAX_VALUE as int, MAX_VALUE as int);
            crate::fixed::lemma_scale_bound(
                kw as int,
                hours as int,
                SCALE as int,
                1_000_000_000_000_000_000_000_000,
            );
        }
        scale(kw as i128, hours as u64, SCALE)
    }

    /// Charges from the state at the requested power for the duration. The
    /// request is served at no more than the achievable charge power, and
    /// the state of charge rises by what is left of the energy after
    /// charging losses, up to the capacity.
    pub fn charge(&self, battery_state: &BatteryState, power: Power, duration: Duration) -> (r:
        Result<BatteryState, BatteryError>)
        requires
            self@.admits(battery_state@),
        ensures
            spec_outcome(r) == self@.charge(battery_state@, power@, duration@),
            r matches Ok(s) ==> self@.admits(s@),
            power@ >= 0 ==> r is Ok,
    {
        let (capacity, _) = self.limits();
        let limit: Power = self.max_achievable_charge_power(battery_state, duration);
        let actual_power: Power = power.min(limit);
        let efficiency: i64 = self.efficiency().as_fraction();
        let moved: i128 = Self::energy_moved(actual_power, duration);
        proof {
            lemma_counts_product(
                moved as int,
                efficiency as int,
                1_000_000_000_000_000_000_000_000,
                SCALE as int,
            );
            crate::fixed::lemma_scale_shrinks(moved as int, efficiency as int, SCALE as int);
        }
        let stored: i128 = scale(moved, efficiency as u64, SCALE);
        let raised: i128 = battery_state.state_of_charge_kwh() as i128 + stored;
        let level: i128 = if raised > capacity as i128 {
            capacity as i128
        } else {
            raised
        };
        if level < 0 {
            return Err(BatteryError::ErrorCharging(BatteryStateError::NegativeStateOfCharge));
        }
        let state_of_charge: Energy = Energy::from_kwh_const(Scalar::Finite(level as i64));
        match self.init_state(state_of_charge, actual_power) {
            Ok(state) => Ok(state),
            Err(e) => Err(BatteryError::ErrorCharging(e)),
        }
    }

    /// Discharges from the state at the requested power for the duration.
    /// The request is served at no more than the achievable discharge power,
    /// and the state of charge falls by the energy delivered plus the
    /// discharging losses, down to zero. A negative request must leave a
    /// state of charge within the magnitude bound of an energy.
    pub fn discharge(&self, battery_state: &BatteryState, power: Power, duration: Duration) -> (r:
        Result<BatteryState, BatteryError>)
        requires
            self@.admits(battery_state@),
            power@ >= 0 || self@.discharged_level(battery_state@, power@, duration@) <= MAX_VALUE,
        ensures
            spec_outcome(r) == self@.discharge(battery_state@, power@, duration@),
            r matches Ok(s) ==> self@.admits(s@),
            power@ >= 0 ==> r is Ok,
    {
        let (capacity, _) = self.limits();
        let limit: Power = self.max_achievable_discharge_power(battery_state, duration);
        let actual_power: Power = power.min(limit);
        let efficiency: i64 = self.efficiency().as_fraction();
        let moved: i128 = Self::energy_moved(actual_power, duration);
        proof {
            lemma_counts_product(
                moved as int,
                SCALE as int,
                1_000_000_000_000_000_000_000_000,
                SCALE as int,
            );
        }
        let drawn: i128 = scale(moved, SCALE, efficiency as u64);
        let lowered: i128 = battery_state.state_of_charge_kwh() as i128 - drawn;
        let level: i128 = if lowered < 0 {
            0
        } else {
            lowered
        };
        let state_of_charge: Energy = Energy::from_kwh_const(Scalar::Finite(level as i64));
        match self.init_state(state_of_charge, actual_power) {
            Ok(state) => Ok(state),
            Err(e) => Err(BatteryError::ErrorDischarging(e)),
        }
    }

    /// Advances the state by one step at a signed power: negative power
    /// discharges at its magnitude, positive power charges, and zero power
    /// keeps the state of charge and moves no power.
    pub fn step(&self, battery_state: &BatteryState, power: Power, duration: Duration) -> (r:
        Result<BatteryState, BatteryError>)
        requires
            self@.admits(battery_state@),
        ensures
            spec_outcome(r) == self@.step(battery_state@, power@, duration@),
            r matches Ok(s) && self@.admits(s@),
            power@ == 0 ==> spec_outcome(r) == Ok::<StateView, BatteryFault>(
                StateView { state_of_charge: battery_state@.state_of_charge, power: 0 },
            ),
    {
        let (_, _) = self.limits();
        if power.as_kw() < 0 {
            match self.discharge(battery_state, power.neg(), duration) {
                Ok(state) => Ok(state),
                Err(e) => Err(e),
            }
        } else if power.as_kw() > 0 {
            match self.charge(battery_state, power, duration) {
                Ok(state) => Ok(state),
                Err(e) => Err(e),
            }
        } else {
            Ok(BatteryState::new(battery_state.state_of_charge(), Power::zero()))
        }
    }

    /// Advances the state by one step that follows the sample: the battery
    /// is asked to take the excess of generation over consumption for the
    /// duration of the sample.
    pub fn load_follow_step(&self, battery_state: &BatteryState, telemetry_point: &TelemetryPoint) -> (r:
        Result<BatteryState, BatteryError>)
        requires
            self@.admits(battery_state@),
        ensures
            spec_outcome(r) == self@.load_follow_step(battery_state@, telemetry_point@),
            r matches Ok(s) && self@.admits(s@),
    {
        let (_, _) = self.limits();
        let excess: i64 = telemetry_point.solar_power().as_kw() - telemetry_point.load_power().as_kw();
        let bounded: i64 = if excess > MAX_VALUE {
            MAX_VALUE
        } else if excess < -MAX_VALUE {
            -MAX_VALUE
        } else {
            excess
        };
        let desired_power: Power = Power::from_kw_const(Scalar::Finite(bounded));
        let duration: Duration = telemetry_point.duration();
        let _: i64 = duration.as_hour();
        proof {
            self@.lemma_step_saturates(battery_state@, excess as int, duration@);
        }
        self.step(battery_state, desired_power, duration)
    }
}

impl BatteryView {
    /// The limits of a valid state: the achievable powers of a valid state
    /// lie between zero and the maximum power.
    pub proof fn lemma_achievable_bounds(self, state: StateView, duration: int)
        requires
            self.wf(),
            self.admits(state),
            duration > 0,
        ensures
            0 <= self.max_achievable_charge_power(state, duration) <= self.max_power,
            0 <= self.max_achievable_discharge_power(state, duration) <= self.max_power,
    {
        crate::types::lemma_root_is_fraction(self.round_trip_efficiency);
        let e = self.efficiency();
        crate::fixed::lemma_scale_sign(self.capacity - state.state_of_charge, SCALE as int, duration);
        crate::fixed::lemma_scale_sign(
            spec_over(self.capacity - state.state_of_charge, duration),
            SCALE as int,
            e,
        );
        crate::fixed::lemma_scale_sign(state.state_of_charge, SCALE as int, duration);
        crate::fixed::lemma_scale_sign(spec_over(state.state_of_charge, duration), e, SCALE as int);
    }

    /// Squaring the one-way efficiency gives back the round-trip efficiency,
    /// to within the rounding of the square root: the one-way efficiency is
    /// the least fraction whose square is at least the round-trip efficiency.
    pub proof fn lemma_efficiency_squared(self)
        requires
            self.wf(),
        ensures
            spec_is_fraction(self.efficiency()),
            self.efficiency() * self.efficiency() >= self.round_trip_efficiency * SCALE,
            (self.efficiency() - 1) * (self.efficiency() - 1) < self.round_trip_efficiency * SCALE,
    {
        crate::types::lemma_root_is_fraction(self.round_trip_efficiency);
    }

    /// Every state that an operation produces respects the limits of the
    /// battery: its state of charge lies between zero and the capacity, and
    /// the magnitude of its power is at most the maximum power.
    pub proof fn lemma_limits_preserved(
        self,
        state: StateView,
        power: int,
        duration: int,
        point: TelemetryView,
    )
        ensures
            self.init_state(state.state_of_charge, state.power) matches Ok(next) ==> self.admits(
                next,
            ),
            self.charge(state, power, duration) matches Ok(next) ==> self.admits(next),
            self.discharge(state, power, duration) matches Ok(next) ==> self.admits(next),
            self.admits(state) ==> (self.step(state, power, duration) matches Ok(next)
                ==> self.admits(next)),
            self.admits(state) ==> (self.load_follow_step(state, point) matches Ok(next)
                ==> self.admits(next)),
    {
    }

    /// From a state that respects the limits, a request that is not negative
    /// is always served, and so is every step.
    pub proof fn lemma_requests_served(self, state: StateView, power: int, duration: int)
        requires
            self.wf(),
            self.admits(state),
            duration > 0,
        ensures
            power >= 0 ==> self.charge(state, power, duration) is Ok,
            power >= 0 ==> self.discharge(state, power, duration) is Ok,
            self.step(state, power, duration) is Ok,
            power >= 0 ==> state.state_of_charge <= self.charged_level(state, power, duration),
            power >= 0 ==> self.discharged_level(state, power, duration) <= state.state_of_charge,
    {
        crate::types::lemma_root_is_fraction(self.round_trip_efficiency);
        self.lemma_achievable_bounds(state, duration);
        let e = self.efficiency();
        let magnitude = if power >= 0 { power } else { -power };
        let charging = self.charge_power(state, magnitude, duration);
        crate::fixed::lemma_scale_sign(charging, duration, SCALE as int);
        crate::fixed::lemma_scale_sign(spec_times(charging, duration), e, SCALE as int);
        let discharging = self.discharge_power(state, magnitude, duration);
        crate::fixed::lemma_scale_sign(discharging, duration, SCALE as int);
        crate::fixed::lemma_scale_sign(spec_times(discharging, duration), SCALE as int, e);
    }

    /// A step at zero power keeps the state of charge and moves no power.
    pub proof fn lemma_zero_step(self, state: StateView, duration: int)
        ensures
            self.step(state, 0, duration) == Ok::<StateView, BatteryFault>(
                StateView { state_of_charge: state.state_of_charge, power: 0 },
            ),
            self.admits(state) && self.max_power >= 0 ==> self.admits(
                StateView { state_of_charge: state.state_of_charge, power: 0 },
            ),
    {
    }

    /// A request above the maximum power is never served as requested: from
    /// a state that respects the limits, the power of the result is the
    /// achievable power, which is at most the maximum power, and is the
    /// maximum power itself wherever the power that fills the remaining
    /// capacity, or empties the stored energy, is no smaller.
    pub proof fn lemma_power_clamped(self, state: StateView, power: int, duration: int)
        requires
            self.wf(),
            self.admits(state),
            duration > 0,
            power > self.max_power,
        ensures
            self.charge(state, power, duration) matches Ok(next) && next.power
                == self.max_achievable_charge_power(state, duration) && next.power
                <= self.max_power && next.power != power,
            self.power_to_fill(state, duration) >= self.max_power
                ==> self.max_achievable_charge_power(state, duration) == self.max_power,
            self.discharge(state, power, duration) matches Ok(next) && next.power
                == self.max_achievable_discharge_power(state, duration) && next.power
                <= self.max_power && next.power != power,
            self.power_to_empty(state, duration) >= self.max_power
                ==> self.max_achievable_discharge_power(state, duration) == self.max_power,
            self.step(state, power, duration) == self.charge(state, power, duration),
            self.step(state, -power, duration) == self.discharge(state, power, duration),
    {
        self.lemma_requests_served(state, power, duration);
    }

    /// A charge that would reach or pass the capacity leaves the state of
    /// charge at the capacity exactly.
    pub proof fn lemma_charge_stops_at_capacity(self, state: StateView, power: int, duration: int)
        requires
            self.wf(),
            self.admits(state),
            duration > 0,
            power >= 0,
            state.state_of_charge + self.energy_stored(
                spec_lesser(power, self.max_power),
                duration,
            ) >= self.capacity,
        ensures
            self.charge(state, power, duration) matches Ok(next) && next.state_of_charge
                == self.capacity,
    {
        self.lemma_requests_served(state, power, duration);
        crate::types::lemma_root_is_fraction(self.round_trip_efficiency);
        crate::fixed::lemma_fill_covers(
            self.capacity - state.state_of_charge,
            duration,
            self.efficiency(),
        );
    }

    /// A discharge that would reach or pass zero leaves the state of charge
    /// at zero exactly, never below.
    pub proof fn lemma_discharge_stops_at_zero(self, state: StateView, power: int, duration: int)
        requires
            self.wf(),
            self.admits(state),
            duration > 0,
            power >= 0,
            state.state_of_charge - self.energy_drawn(spec_lesser(power, self.max_power), duration)
                <= 0,
        ensures
            self.discharge(state, power, duration) matches Ok(next) && next.state_of_charge == 0,
    {
        self.lemma_requests_served(state, power, duration);
        crate::types::lemma_root_is_fraction(self.round_trip_efficiency);
        crate::fixed::lemma_empty_covers(state.state_of_charge, duration, self.efficiency());
    }

    /// A request beyond the magnitude bound is served exactly as the bound
    /// itself would be: the step depends on the request only up to the
    /// maximum power.
    pub proof fn lemma_step_saturates(self, state: StateView, power: int, duration: int)
        requires
            self.wf(),
            self.admits(state),
            duration > 0,
        ensures
            power > MAX_VALUE ==> self.step(state, power, duration) == self.step(
                state,
                MAX_VALUE as int,
                duration,
            ),
            power < -MAX_VALUE ==> self.step(state, power, duration) == self.step(
                state,
                -MAX_VALUE as int,
                duration,
            ),
    {
        self.lemma_achievable_bounds(state, duration);
    }
}

/// The product of a count within a bound and a non-negative factor within a
/// bound is within the product of the bounds.
proof fn lemma_counts_product(a: int, b: int, a_bound: int, b_bound: int)
    requires
        -a_bound <= a <= a_bound,
        0 <= b <= b_bound,
    ensures
        -(a_bound * b_bound) <= a * b <= a_bound * b_bound,
{
    assert(-(a_bound * b_bound) <= a * b <= a_bound * b_bound) by (nonlinear_arith)
        requires
            -a_bound <= a <= a_bound,
            0 <= b <= b_bound,
    ;
}

} // verus!
