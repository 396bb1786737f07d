//! A conformance harness for system calls: declarative scenarios are
//! dispatched by test type and target, their parameters are extracted and
//! checked, and each outcome is compared with what the scenario expects.
//!
//! The library decides everything but the call itself: [`scenario::run_all`]
//! takes the function that performs an `open` and reports success or the
//! native error number.
pub mod errno;
pub mod flags;
pub mod params;
pub mod scenario;
