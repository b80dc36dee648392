//! Decision engine for a temperature-driven fan controller.
//!
//! Once per monitoring cycle the engine decides, for every configured fan,
//! what PWM duty cycle it should run at: a piecewise-linear interpolation
//! over named curves of (temperature, duty) breakpoints, a threshold-based
//! selector among curves, and a per-fan policy resolver that chooses between
//! a fixed duty, a named curve, a threshold-selected curve, or the default
//! curve. Reading sensors, parsing the configuration file and driving the
//! hardware are left to the surrounding program.

pub mod config;
pub mod cycle;
pub mod interp;
pub mod resolve;
pub mod select;
