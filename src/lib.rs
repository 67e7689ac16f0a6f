//! Exclusive, schedule-driven execution of a network speed probe.
//!
//! The library holds the decisions of the service: the exclusivity gate
//! that admits one probe at a time, the runner built on it, the cron-driven
//! scheduling of trigger instants, the probe's command line and the
//! pagination of stored results.
use vstd::prelude::*;

pub mod gate;
pub mod results;
pub mod runner;
pub mod schedule;
pub mod speedtest;
pub mod trace;

verus! {

} // verus!
