use battery_sim::battery::{Battery, BatteryError, BatteryState, BatteryStateError};
use battery_sim::control::LoadFollowing;
use battery_sim::data::{read_telemetry_csv, telemetry_point_from_row, CsvParseError, CsvRow};
use battery_sim::scalar::Scalar;
use battery_sim::simulation::simulate_load_following;
use battery_sim::types::{Duration, Efficiency, Energy, Power, TelemetryPoint};

const ONE: i64 = 1_000_000_000_000;

fn kwh(units: i64) -> Energy {
    Energy::from_kwh(Scalar::Finite(units)).expect("valid energy")
}

fn kw(units: i64) -> Power {
    Power::from_kw(Scalar::Finite(units)).expect("valid power")
}

fn hour(units: i64) -> Duration {
    Duration::from_hour(Scalar::Finite(units)).expect("valid duration")
}

fn battery() -> Battery {
    let efficiency = Efficiency::from_fraction(Scalar::Finite(810_000_000_000)).unwrap();
    Battery::new(kwh(100 * ONE), kw(50 * ONE), efficiency).expect("valid battery")
}

fn state(battery: &Battery, soc: i64) -> BatteryState {
    battery.init_state(kwh(soc), Power::zero()).expect("valid state")
}

fn within_limits(s: &BatteryState) -> bool {
    0 <= s.state_of_charge_kwh()
        && s.state_of_charge_kwh() <= 100 * ONE
        && -50 * ONE <= s.power_kw()
        && s.power_kw() <= 50 * ONE
}

#[test]
fn test_one_way_efficiency_squares_to_round_trip() {
    for round_trip in [101i64, 500_000_000_000, 810_000_000_000, 900_000_000_000, ONE] {
        let efficiency = Efficiency::from_fraction(Scalar::Finite(round_trip)).unwrap();
        let b = Battery::new(kwh(ONE), kw(ONE), efficiency).unwrap();
        let one_way = b.efficiency().as_fraction() as i128;
        let target = round_trip as i128 * ONE as i128;
        assert!(one_way * one_way >= target);
        assert!((one_way - 1) * (one_way - 1) < target);
        assert!(one_way <= ONE as i128);
    }
    assert_eq!(battery().efficiency().as_fraction(), 900_000_000_000);
}

#[test]
fn test_successive_charges_follow_the_expected_levels() {
    let b = battery();
    let s0 = state(&b, 0);
    let s1 = b.charge(&s0, kw(10 * ONE), hour(ONE)).unwrap();
    let s2 = b.charge(&s1, kw(10 * ONE), hour(ONE)).unwrap();
    let s3 = b.charge(&s2, kw(10 * ONE), hour(ONE)).unwrap();
    assert_eq!(s1.state_of_charge_kwh(), 9 * ONE);
    assert_eq!(s2.state_of_charge_kwh(), 18 * ONE);
    assert_eq!(s3.state_of_charge_kwh(), 27 * ONE);
    assert_eq!(s3.power_kw(), 10 * ONE);
}

#[test]
fn test_successive_discharges_follow_the_expected_levels() {
    let b = battery();
    let s0 = state(&b, 100 * ONE);
    let s1 = b.discharge(&s0, kw(9 * ONE), hour(ONE)).unwrap();
    let s2 = b.discharge(&s1, kw(9 * ONE), hour(ONE)).unwrap();
    let s3 = b.discharge(&s2, kw(9 * ONE), hour(ONE)).unwrap();
    assert_eq!(s1.state_of_charge_kwh(), 90 * ONE);
    assert_eq!(s2.state_of_charge_kwh(), 80 * ONE);
    assert_eq!(s3.state_of_charge_kwh(), 70 * ONE);
    assert_eq!(s3.power_kw(), 9 * ONE);
}

#[test]
fn test_charge_then_discharge_loses_the_round_trip() {
    let b = battery();
    let s0 = state(&b, 50 * ONE);
    let s1 = b.charge(&s0, kw(10 * ONE), hour(ONE)).unwrap();
    assert_eq!(s1.state_of_charge_kwh(), 59 * ONE);
    let s2 = b.discharge(&s1, kw(9 * ONE), hour(ONE)).unwrap();
    assert_eq!(s2.state_of_charge_kwh(), 49 * ONE);
}

#[test]
fn test_zero_step_keeps_level_and_moves_no_power() {
    let b = battery();
    let s0 = b.init_state(kwh(50 * ONE), kw(-10 * ONE)).unwrap();
    for duration in [101i64, ONE, 1_000_000 * ONE] {
        let s1 = b.step(&s0, Power::zero(), hour(duration)).unwrap();
        assert_eq!(s1.state_of_charge_kwh(), 50 * ONE);
        assert_eq!(s1.power_kw(), 0);
    }
}

#[test]
fn test_request_above_max_power_is_served_at_max_power() {
    let b = battery();
    let s0 = state(&b, 50 * ONE);
    let up = b.step(&s0, kw(100 * ONE), hour(ONE / 10)).unwrap();
    assert_eq!(up.power_kw(), 50 * ONE);
    assert_eq!(up.state_of_charge_kwh(), 54_500_000_000_000);
    let down = b.step(&s0, kw(-100 * ONE), hour(ONE / 10)).unwrap();
    assert_eq!(down.power_kw(), 50 * ONE);
    assert_eq!(down.state_of_charge_kwh(), 50 * ONE - 5_555_555_555_556);
}

#[test]
fn test_request_above_max_power_near_full_is_served_at_fill_power() {
    let b = battery();
    let s0 = state(&b, 95 * ONE);
    let limit = b.max_achievable_charge_power(&s0, hour(ONE));
    assert_eq!(limit.as_kw(), 5_555_555_555_556);
    let s1 = b.charge(&s0, kw(100 * ONE), hour(ONE)).unwrap();
    assert_eq!(s1.power_kw(), 5_555_555_555_556);
    assert_eq!(s1.state_of_charge_kwh(), 100 * ONE);
}

#[test]
fn test_charge_past_capacity_stops_at_capacity_exactly() {
    let b = battery();
    for soc in [0i64, 33_333_333_333_333, 90 * ONE, 100 * ONE - 1, 100 * ONE] {
        for duration in [7 * ONE, 100 * ONE, 1_000_000 * ONE] {
            let s1 = b.charge(&state(&b, soc), kw(50 * ONE), hour(duration)).unwrap();
            assert_eq!(s1.state_of_charge_kwh(), 100 * ONE);
            assert!(within_limits(&s1));
        }
    }
}

#[test]
fn test_discharge_past_empty_stops_at_zero_exactly() {
    let b = battery();
    for soc in [0i64, 1, 33_333_333_333_333, 5 * ONE, 100 * ONE] {
        for duration in [7 * ONE, 100 * ONE, 1_000_000 * ONE] {
            let s1 = b.discharge(&state(&b, soc), kw(50 * ONE), hour(duration)).unwrap();
            assert_eq!(s1.state_of_charge_kwh(), 0);
            assert!(within_limits(&s1));
        }
    }
}

#[test]
fn test_achievable_power_with_short_durations() {
    let b = battery();
    let s0 = state(&b, 50 * ONE);
    assert_eq!(b.max_achievable_charge_power(&s0, hour(101)).as_kw(), 50 * ONE);
    assert_eq!(b.max_achievable_discharge_power(&s0, hour(101)).as_kw(), 50 * ONE);
    let empty = state(&b, 0);
    assert_eq!(b.max_achievable_discharge_power(&empty, hour(ONE)).as_kw(), 0);
    let full = state(&b, 100 * ONE);
    assert_eq!(b.max_achievable_charge_power(&full, hour(ONE)).as_kw(), 0);
    let low = state(&b, 5 * ONE);
    assert_eq!(b.max_achievable_discharge_power(&low, hour(ONE)).as_kw(), 4_500_000_000_000);
}

#[test]
fn test_discharge_rounds_the_energy_drawn_up() {
    let b = battery();
    let s1 = b.discharge(&state(&b, 50 * ONE), kw(10 * ONE), hour(ONE)).unwrap();
    assert_eq!(s1.state_of_charge_kwh(), 50 * ONE - 11_111_111_111_112);
    assert_eq!(s1.power_kw(), 10 * ONE);
}

#[test]
fn test_negative_charge_request_is_validated() {
    let b = battery();
    let drained = b.charge(&state(&b, ONE), kw(-10 * ONE), hour(ONE));
    assert!(matches!(
        drained,
        Err(BatteryError::ErrorCharging(BatteryStateError::NegativeStateOfCharge))
    ));
    let too_fast = b.charge(&state(&b, 50 * ONE), kw(-60 * ONE), hour(ONE / 1000));
    assert!(matches!(
        too_fast,
        Err(BatteryError::ErrorCharging(BatteryStateError::PowerGreaterThanMax))
    ));
    let served = b.charge(&state(&b, 50 * ONE), kw(-10 * ONE), hour(ONE)).unwrap();
    assert_eq!(served.state_of_charge_kwh(), 41 * ONE);
    assert_eq!(served.power_kw(), -10 * ONE);
}

#[test]
fn test_negative_discharge_request_is_validated() {
    let b = battery();
    let overfull = b.discharge(&state(&b, 95 * ONE), kw(-9 * ONE), hour(ONE));
    match overfull {
        Err(BatteryError::ErrorDischarging(
            BatteryStateError::StateOfChargeGreaterThanCapacity(level, capacity),
        )) => {
            assert_eq!(level.as_kwh(), 105 * ONE);
            assert_eq!(capacity.as_kwh(), 100 * ONE);
        }
        other => panic!("unexpected outcome {:?}", other),
    }
    let too_fast = b.discharge(&state(&b, 50 * ONE), kw(-60 * ONE), hour(ONE / 1000));
    assert!(matches!(
        too_fast,
        Err(BatteryError::ErrorDischarging(BatteryStateError::PowerGreaterThanMax))
    ));
}

#[test]
fn test_init_state_reports_the_first_violation() {
    let b = battery();
    assert!(matches!(
        b.init_state(kwh(-1), kw(60 * ONE)),
        Err(BatteryStateError::NegativeStateOfCharge)
    ));
    match b.init_state(kwh(100 * ONE + 1), kw(60 * ONE)) {
        Err(BatteryStateError::StateOfChargeGreaterThanCapacity(level, capacity)) => {
            assert_eq!(level.as_kwh(), 100 * ONE + 1);
            assert_eq!(capacity.as_kwh(), 100 * ONE);
        }
        other => panic!("unexpected outcome {:?}", other),
    }
    assert!(matches!(
        b.init_state(kwh(100 * ONE), kw(50 * ONE + 1)),
        Err(BatteryStateError::PowerGreaterThanMax)
    ));
    let s = b.init_state(kwh(100 * ONE), kw(-50 * ONE)).unwrap();
    assert_eq!(s.state_of_charge().as_kwh(), 100 * ONE);
    assert_eq!(s.power().as_kw(), -50 * ONE);
}

#[test]
fn test_battery_new_checks_capacity_before_power() {
    let efficiency = Efficiency::from_fraction(Scalar::Finite(ONE)).unwrap();
    assert!(matches!(
        Battery::new(kwh(0), kw(0), efficiency),
        Err(BatteryError::NonPositiveCapacity)
    ));
    assert!(matches!(
        Battery::new(kwh(1), kw(0), efficiency),
        Err(BatteryError::NonPositiveMaxPower)
    ));
    assert!(Battery::new(kwh(1), kw(1), efficiency).is_ok());
}

#[test]
fn test_load_follow_step_takes_the_excess() {
    let b = battery();
    let s0 = state(&b, 50 * ONE);
    let point = TelemetryPoint::new(hour(ONE), kw(10 * ONE), kw(3 * ONE));
    let s1 = b.load_follow_step(&s0, &point).unwrap();
    assert_eq!(s1.state_of_charge_kwh(), 56_300_000_000_000);
    assert_eq!(s1.power_kw(), 7 * ONE);
    let same = b.step(&s0, point.excess_pv(), point.duration()).unwrap();
    assert_eq!(same.state_of_charge_kwh(), s1.state_of_charge_kwh());
    assert_eq!(same.power_kw(), s1.power_kw());
}

#[test]
fn test_load_follow_step_with_excess_beyond_the_magnitude_bound() {
    let b = battery();
    let s0 = state(&b, 50 * ONE);
    let surplus = TelemetryPoint::new(hour(ONE / 10), kw(1_000_000 * ONE), kw(-1_000_000 * ONE));
    let s1 = b.load_follow_step(&s0, &surplus).unwrap();
    assert_eq!(s1.power_kw(), 50 * ONE);
    assert_eq!(s1.state_of_charge_kwh(), 54_500_000_000_000);
    let deficit = TelemetryPoint::new(hour(ONE / 10), kw(-1_000_000 * ONE), kw(1_000_000 * ONE));
    let s2 = b.load_follow_step(&s0, &deficit).unwrap();
    assert_eq!(s2.power_kw(), 50 * ONE);
    assert_eq!(s2.state_of_charge_kwh(), 50 * ONE - 5_555_555_555_556);
}

#[test]
fn test_trajectory_has_one_state_more_than_samples() {
    let b = battery();
    for n in [0usize, 1, 2, 17] {
        let mut points = Vec::new();
        for i in 0..n {
            let solar = kw((i as i64 % 5) * 20 * ONE);
            let load = kw(((i as i64 + 2) % 3) * 30 * ONE);
            points.push(TelemetryPoint::new(hour(ONE + i as i64), solar, load));
        }
        let states = simulate_load_following(points, b, state(&b, 50 * ONE)).unwrap();
        assert_eq!(states.len(), n + 1);
        assert_eq!(states[0].state_of_charge_kwh(), 50 * ONE);
        assert!(states.iter().all(within_limits));
    }
}

#[test]
fn test_trajectory_chains_the_steps() {
    let b = battery();
    let points = vec![
        TelemetryPoint::new(hour(ONE), kw(10 * ONE), kw(3 * ONE)),
        TelemetryPoint::new(hour(ONE), kw(5 * ONE), kw(5 * ONE)),
        TelemetryPoint::new(hour(ONE), kw(2 * ONE), kw(9 * ONE)),
    ];
    let states = simulate_load_following(points, b, state(&b, 50 * ONE)).unwrap();
    assert_eq!(states[1].state_of_charge_kwh(), 56_300_000_000_000);
    assert_eq!(states[1].power_kw(), 7 * ONE);
    assert_eq!(states[2].state_of_charge_kwh(), 56_300_000_000_000);
    assert_eq!(states[2].power_kw(), 0);
    assert_eq!(states[3].state_of_charge_kwh(), 56_300_000_000_000 - 7_777_777_777_778);
    assert_eq!(states[3].power_kw(), 7 * ONE);
}

#[test]
fn test_load_following_decides_the_difference() {
    let policy = LoadFollowing::new();
    assert_eq!(policy, LoadFollowing());
    assert_eq!(policy.decide(kw(5 * ONE), kw(3 * ONE)).as_kw(), 2 * ONE);
    assert_eq!(policy.decide(kw(3 * ONE), kw(5 * ONE)).as_kw(), -2 * ONE);
}

#[test]
fn test_row_becomes_telemetry_point() {
    let point = telemetry_point_from_row(
        0,
        Scalar::Finite(ONE / 2),
        Scalar::Finite(5 * ONE),
        Scalar::Finite(ONE),
    )
    .unwrap();
    assert_eq!(point.duration().as_hour(), ONE / 2);
    assert_eq!(point.solar_power().as_kw(), 5 * ONE);
    assert_eq!(point.load_power().as_kw(), ONE);
}

#[test]
fn test_row_errors_name_field_row_and_value() {
    let nan = Scalar::Nan;
    let big = Scalar::Finite(2_000_000 * ONE);
    let ok = Scalar::Finite(ONE);
    assert_eq!(
        telemetry_point_from_row(0, Scalar::Finite(0), big, nan).unwrap_err(),
        CsvParseError::InvalidDuration { row: 2, value: Scalar::Finite(0) }
    );
    assert_eq!(
        telemetry_point_from_row(3, ok, big, nan).unwrap_err(),
        CsvParseError::InvalidLoadPower { row: 5, value: nan }
    );
    assert_eq!(
        telemetry_point_from_row(41, ok, big, ok).unwrap_err(),
        CsvParseError::InvalidSolarPower { row: 43, value: big }
    );
}

fn row(duration_hour: i64, solar_power_kw: i64, load_power_kw: i64) -> CsvRow {
    CsvRow {
        duration_hour: Scalar::Finite(duration_hour),
        solar_power_kw: Scalar::Finite(solar_power_kw),
        load_power_kw: Scalar::Finite(load_power_kw),
    }
}

#[test]
fn test_read_telemetry_csv() {
    let rows = vec![
        row(ONE / 2, 5 * ONE, ONE),
        row(ONE / 2, 4 * ONE, 2 * ONE),
        row(ONE / 2, 3 * ONE, 3 * ONE),
        row(ONE / 2, ONE, 4 * ONE),
        row(ONE / 2, 0, 9 * ONE / 2),
    ];
    let telemetry = read_telemetry_csv(&rows).expect("Should read telemetry");
    assert_eq!(telemetry.len(), 5);
    assert_eq!(telemetry[0].solar_power(), kw(5 * ONE));
    assert_eq!(telemetry[0].duration(), hour(ONE / 2));
    assert_eq!(telemetry[0].load_power(), kw(ONE));
    assert_eq!(telemetry[4].solar_power(), kw(0));
    assert_eq!(telemetry[4].duration(), hour(ONE / 2));
    assert_eq!(telemetry[4].load_power(), kw(9 * ONE / 2));
}

#[test]
fn test_read_stops_at_the_first_bad_row() {
    let mut rows = vec![row(ONE, ONE, ONE), row(ONE, ONE, ONE), row(ONE, ONE, ONE)];
    rows[1].solar_power_kw = Scalar::Infinite { negative: false };
    rows[2].duration_hour = Scalar::Finite(-ONE);
    assert_eq!(
        read_telemetry_csv(&rows).unwrap_err(),
        CsvParseError::InvalidSolarPower { row: 3, value: Scalar::Infinite { negative: false } }
    );
    rows[1].solar_power_kw = Scalar::Finite(ONE);
    assert_eq!(
        read_telemetry_csv(&rows).unwrap_err(),
        CsvParseError::InvalidDuration { row: 4, value: Scalar::Finite(-ONE) }
    );
    assert_eq!(read_telemetry_csv(&Vec::new()).unwrap().len(), 0);
}

#[test]
fn test_try_from_validates_like_the_constructors() {
    assert_eq!(Power::try_from(Scalar::Finite(7)).unwrap().as_kw(), 7);
    assert_eq!(Power::try_from(Scalar::Nan), Err(Scalar::Nan));
    assert_eq!(Duration::try_from(Scalar::Finite(101)).unwrap().as_hour(), 101);
    assert_eq!(Duration::try_from(Scalar::Finite(0)), Err(Scalar::Finite(0)));
}

#[test]
fn test_admits_tells_states_of_other_batteries() {
    let b = battery();
    let efficiency = Efficiency::from_fraction(Scalar::Finite(ONE)).unwrap();
    let small = Battery::new(kwh(10 * ONE), kw(5 * ONE), efficiency).unwrap();
    let s = b.init_state(kwh(50 * ONE), kw(-20 * ONE)).unwrap();
    assert!(b.admits(&s));
    assert!(!small.admits(&s));
    assert!(small.admits(&small.init_state(kwh(10 * ONE), kw(5 * ONE)).unwrap()));
}
