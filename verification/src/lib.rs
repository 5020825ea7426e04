//! A discrete-event simulation kernel in the DEVS style.
//!
//! A system is modelled as atomic models — state machines with the four
//! DEVS functions (time advance, internal transition, external transition,
//! output) — composed into a network by a coupling table that routes values
//! from output ports to input ports. A coordinator drives the network
//! through virtual time: it advances the global clock to the earliest
//! next-event instant, fires the output functions of the imminent models,
//! routes every produced value through the table, and then applies the due
//! transitions under the internal-first confluent rule.
//!
//! Modules:
//! - [`timing`]: instants and delays, with `Never` as the passive "no
//!   internal event" time advance;
//! - [`ports`]: the per-cycle port buffers and their mathematical contents;
//! - [`network`]: interfaces, couplings, and the construction-time check of
//!   the coupling table;
//! - [`model`]: the atomic-model contract;
//! - [`routing`]: the coupling table applied to one instant's outputs, with
//!   the completeness proof;
//! - [`coordinator`]: the execution engine, its step and run contracts, and
//!   the proved properties of whole runs (determinism, time monotonicity,
//!   local-clock consistency, idle stability);
//! - [`samples`]: a small generator/collector pair the scenario tests and
//!   an application can drive.

pub mod coordinator;
pub mod model;
pub mod network;
pub mod ports;
pub mod routing;
pub mod samples;
pub mod timing;
