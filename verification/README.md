# twine-components

Components for thermal-system and scheduling models.

- `src/` is the verified library (Verus). It holds the logic that works on
  integers and structure: the step schedule (validation, stable sorting by
  start time, overlap detection, lookup by scan or bisection) with its laws,
  the generic adder and multiplier components, shell-and-tube pass-count
  validation, and the configuration types of the heat exchangers, tanks,
  integrators and interpolators.
- `app/` is ordinary Rust around the library: the components that compute on
  `f64` physical quantities (`uom`), the `twine_core::Component` impls, the
  `ninterp` interpolators, and copies of the schedule types that carry
  `serde` and `thiserror` derives.
- `tests/` exercises the library.

Schedule times are `i64` ticks; the tests map `jiff` times of day onto
nanoseconds since midnight.
