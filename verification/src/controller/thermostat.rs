//! Thermostat controllers with hysteresis.
//!
//! The controllers are generic over the temperature type `T` and the deadband
//! type `D` (for example `uom` thermodynamic temperatures and temperature
//! intervals, or integer temperatures in a fixed unit). For types whose
//! comparison and subtraction follow their standard specification, such as
//! the integer types, the decision is exactly the one stated here.

use std::convert::Infallible;
use std::ops::Sub;
use vstd::prelude::*;
use vstd::std_specs::cmp::{PartialOrdIs, PartialOrdSpec};
use vstd::std_specs::ops::SubSpec;

verus! {

/// The state of an on/off device.
#[derive(Debug, Clone, Copy, PartialEq, Eq)]
pub enum SwitchState {
    On,
    Off,
}

/// Input to a thermostat controller: the device's current state, the
/// measured temperature, the setpoint and the deadband.
#[derive(Debug, Clone, Copy, PartialEq)]
pub struct ThermostatInput<T, D> {
    pub state: SwitchState,
    pub temperature: T,
    pub setpoint: T,
    pub deadband: D,
}

impl<T, D> ThermostatInput<T, D> {
    /// Returns `self` with the given state, keeping other fields unchanged.
    pub fn with_state(self, state: SwitchState) -> (r: Self)
        ensures
            r == (ThermostatInput { state, ..self }),
    {
        Self { state, ..self }
    }

    /// Returns `self` with the given temperature, keeping other fields unchanged.
    pub fn with_temperature(self, temperature: T) -> (r: Self)
        ensures
            r == (ThermostatInput { temperature, ..self }),
    {
        Self { temperature, ..self }
    }

    /// Returns `self` with the given setpoint, keeping other fields unchanged.
    pub fn with_setpoint(self, setpoint: T) -> (r: Self)
        ensures
            r == (ThermostatInput { setpoint, ..self }),
    {
        Self { setpoint, ..self }
    }

    /// Returns `self` with the given deadband, keeping other fields unchanged.
    pub fn with_deadband(self, deadband: D) -> (r: Self)
        ensures
            r == (ThermostatInput { deadband, ..self }),
    {
        Self { deadband, ..self }
    }
}

/// The next state of a heating thermostat: a device that is on switches off
/// once the temperature reaches the setpoint; a device that is off switches
/// on once the temperature falls below `setpoint - deadband`.
pub open spec fn heating_next<T, D>(input: ThermostatInput<T, D>) -> SwitchState where
    T: PartialOrd + Sub<D, Output = T>,
 {
    match input.state {
        SwitchState::On => if input.temperature.is_ge(&input.setpoint) {
            SwitchState::Off
        } else {
            SwitchState::On
        },
        SwitchState::Off => if input.temperature.is_lt(&input.setpoint.sub_spec(input.deadband)) {
            SwitchState::On
        } else {
            SwitchState::Off
        },
    }
}

/// Subtracting a `D` from a `T` follows its standard specification.
pub open spec fn subtraction_is_standard<T, D>() -> bool where T: Sub<D, Output = T> {
    <T as SubSpec<D>>::obeys_sub_spec()
}

/// A heating thermostat with hysteresis.
pub struct HeatingThermostat;

impl HeatingThermostat {
    /// Decides the device's next state; this never fails.
    ///
    /// `setpoint - deadband` is computed only while the device is off.
    pub fn call<T, D>(&self, input: ThermostatInput<T, D>) -> (r: Result<SwitchState, Infallible>) where
        T: PartialOrd + Sub<D, Output = T> + Copy,
        D: Copy,

        requires
            input.state == SwitchState::Off ==> input.setpoint.sub_req(input.deadband),
        ensures
            r is Ok,
            T::obeys_partial_cmp_spec() && subtraction_is_standard::<T, D>() ==> r == Ok::<
                SwitchState,
                Infallible,
            >(heating_next(input)),
    {
        let ThermostatInput { state, temperature, setpoint, deadband } = input;
        match state {
            SwitchState::On => {
                if temperature >= setpoint {
                    Ok(SwitchState::Off)
                } else {
                    Ok(SwitchState::On)
                }
            },
            SwitchState::Off => {
                if temperature < setpoint - deadband {
                    Ok(SwitchState::On)
                } else {
                    Ok(SwitchState::Off)
                }
            },
        }
    }
}

/// With integer temperatures and a non-negative deadband, a heating
/// thermostat leaves the device on only while the temperature is below the
/// setpoint.
pub proof fn lemma_heating_on_only_below_setpoint(input: ThermostatInput<i64, i64>)
    requires
        input.deadband >= 0,
        i64::MIN <= input.setpoint - input.deadband,
    ensures
        heating_next(input) == SwitchState::On ==> input.temperature < input.setpoint,
{
}

/// With integer temperatures, the switching rules of a heating thermostat:
/// a device that is on switches off exactly when the temperature is at or
/// above the setpoint, and a device that is off switches on exactly when the
/// temperature is strictly below `setpoint - deadband`.
pub proof fn lemma_heating_switching_rules(input: ThermostatInput<i64, i64>)
    requires
        i64::MIN <= input.setpoint - input.deadband <= i64::MAX,
    ensures
        input.state == SwitchState::On && input.temperature >= input.setpoint ==> heating_next(
            input,
        ) == SwitchState::Off,
        input.state == SwitchState::On && input.temperature < input.setpoint ==> heating_next(
            input,
        ) == SwitchState::On,
        input.state == SwitchState::Off && input.temperature < input.setpoint - input.deadband
            ==> heating_next(input) == SwitchState::On,
        input.state == SwitchState::Off && input.temperature >= input.setpoint - input.deadband
            ==> heating_next(input) == SwitchState::Off,
{
}

/// With integer temperatures, a heating thermostat keeps the device's state
/// while the temperature lies in the band `[setpoint - deadband, setpoint)`.
pub proof fn lemma_heating_holds_state_in_band(input: ThermostatInput<i64, i64>)
    requires
        i64::MIN <= input.setpoint - input.deadband,
        input.setpoint - input.deadband <= input.temperature < input.setpoint,
    ensures
        heating_next(input) == input.state,
{
}

} // verus!
