[package]
name = "twine-components"
version = "0.1.0"
edition = "2021"
publish = false

[dependencies]
uom = "=0.37.0"
twine-core = "=0.2.0"
twine-thermo = "=0.4.2"
twine-solve = "=0.4.2"
thiserror = "=2.0.21"
serde = { version = "=1.0.229", features = ["derive"] }
ninterp = "=0.11.2"
ndarray = "=0.17.2"
ode_solvers = "=0.6.2"

[dev-dependencies]
jiff = "=0.2.39"
