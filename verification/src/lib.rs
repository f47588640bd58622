//! A deterministic, seed-controlled test-execution harness.
//!
//! A single annotated test declaration is expanded into a harness that runs
//! the test body once per seed, retries a failing seed a configured number of
//! times, and reports the first seed whose attempts are all exhausted.  The
//! pipeline is: parse the attribute's options into a [`options::TestConfig`],
//! classify the body's signature into a [`signature::ExecutionShape`], derive
//! the ordered seed sequence, and assemble a [`harness::HarnessPlan`] whose
//! retry-within-iteration state machine drives the body.

pub mod expand;
pub mod harness;
pub mod options;
pub mod seeds;
pub mod signature;
