//! Supervision of a bundled backend server: readiness probing, output relay,
//! escalating termination and the single-owner process slot, together with the
//! sentence language classifier used by the front end.

pub mod prober;
pub mod relay;
pub mod termination;
pub mod supervisor;
pub mod launch;
pub mod lang;
