use twine_components::controller::thermostat::{HeatingThermostat, SwitchState, ThermostatInput};
use uom::si::{
    f64::{TemperatureInterval, ThermodynamicTemperature},
    temperature_interval,
    thermodynamic_temperature::degree_celsius,
};

/// Setpoint (°C) for all tests.
const SETPOINT: f64 = 21.0;

/// Deadband (°C) for all tests.
const DEADBAND: f64 = 2.0;

fn test_input(
    state: SwitchState,
    temp_c: f64,
) -> ThermostatInput<ThermodynamicTemperature, TemperatureInterval> {
    ThermostatInput {
        state,
        temperature: ThermodynamicTemperature::new::<degree_celsius>(temp_c),
        setpoint: ThermodynamicTemperature::new::<degree_celsius>(SETPOINT),
        deadband: TemperatureInterval::new::<temperature_interval::degree_celsius>(DEADBAND),
    }
}

#[test]
fn turns_on_below_on_threshold() {
    let on_threshold = SETPOINT - DEADBAND;
    let input = test_input(SwitchState::Off, on_threshold - 0.1);
    let output = HeatingThermostat.call(input).unwrap();
    assert_eq!(output, SwitchState::On);
}

#[test]
fn stays_on_below_setpoint() {
    let input = test_input(SwitchState::On, SETPOINT - 0.1);
    let output = HeatingThermostat.call(input).unwrap();
    assert_eq!(output, SwitchState::On);
}

#[test]
fn turns_off_at_setpoint() {
    let input = test_input(SwitchState::On, SETPOINT);
    let output = HeatingThermostat.call(input).unwrap();
    assert_eq!(output, SwitchState::Off);
}

#[test]
fn turns_off_above_setpoint() {
    let input = test_input(SwitchState::On, SETPOINT + 1.0);
    let output = HeatingThermostat.call(input).unwrap();
    assert_eq!(output, SwitchState::Off);
}

#[test]
fn stays_off_above_on_threshold() {
    let on_threshold = SETPOINT - DEADBAND;
    let input = test_input(SwitchState::Off, on_threshold + 0.1);
    let output = HeatingThermostat.call(input).unwrap();
    assert_eq!(output, SwitchState::Off);
}

#[test]
fn stays_off_at_on_threshold() {
    let on_threshold = SETPOINT - DEADBAND;
    let input = test_input(SwitchState::Off, on_threshold);
    let output = HeatingThermostat.call(input).unwrap();
    assert_eq!(output, SwitchState::Off);
}

#[test]
fn integer_thermostat_holds_state_inside_deadband() {
    let input = ThermostatInput {
        state: SwitchState::On,
        temperature: 200i64,
        setpoint: 210,
        deadband: 20,
    };
    assert_eq!(HeatingThermostat.call(input), Ok(SwitchState::On));
    assert_eq!(
        HeatingThermostat.call(input.with_state(SwitchState::Off)),
        Ok(SwitchState::Off)
    );
    assert_eq!(
        HeatingThermostat.call(input.with_state(SwitchState::Off).with_temperature(189)),
        Ok(SwitchState::On)
    );
    assert_eq!(
        HeatingThermostat.call(input.with_temperature(210)),
        Ok(SwitchState::Off)
    );
}

#[test]
fn builders_replace_one_field() {
    let input = ThermostatInput {
        state: SwitchState::Off,
        temperature: 1i32,
        setpoint: 2,
        deadband: 3,
    };
    let changed = input
        .with_state(SwitchState::On)
        .with_temperature(4)
        .with_setpoint(5)
        .with_deadband(6);
    assert_eq!(
        changed,
        ThermostatInput {
            state: SwitchState::On,
            temperature: 4,
            setpoint: 5,
            deadband: 6
        }
    );
    assert_eq!(input.with_setpoint(9).temperature, 1);
}
