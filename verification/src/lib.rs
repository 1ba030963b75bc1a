//! Fan control for a laptop cooling fan: temperature curves, smoothing,
//! the daemon's runtime state and its command protocol.
//!
//! All quantities are fixed-point integers. Temperatures are thousandths of a
//! degree Celsius, duties are thousandths of a percent, and intervals are
//! milliseconds, so that every computation is exact and carries a proof.
//!
//! The library performs no input or output. A daemon built on it samples the
//! sensors, commands the fan and serves its sockets, and asks the library
//! what each reading, command and change of status means:
//!
//! - [`curve`] maps a temperature to a duty along a speed curve;
//! - [`smoothing`] and [`fan_control`] turn raw duties into the duty to
//!   command, by a trimmed moving average;
//! - [`sensors`] reads the report of a thermal query;
//! - [`protocol`] reads a client's command, and [`state`] says what the
//!   command does to the runtime state and what is answered;
//! - [`control`] is one step of the control loop, and [`notify`] decides when
//!   subscribers hear of a change;
//! - [`fan_config`] holds strategies and the built-in configuration, and
//!   [`status`] writes the status as JSON and as plain text.

pub mod control;
pub mod curve;
pub mod fan_config;
pub mod fan_control;
pub mod notify;
pub mod protocol;
pub mod sensors;
pub mod smoothing;
pub mod state;
pub mod status;
pub mod text;

pub use control::ControlLoop;
pub use curve::duty_for;
pub use fan_config::default::default_fan_config;
pub use fan_config::{load_or_create_config, FanConfig, SpeedPoint, Strategy, StrategyTable};
pub use fan_control::FanController;
pub use notify::Notifier;
pub use protocol::{parse_command, Command, PrintFormat};
pub use sensors::{parse_temp, TempParsed};
pub use state::{Effect, Outcome, Reply, RuntimeState, StartupError, TickPlan};
pub use status::Status;
