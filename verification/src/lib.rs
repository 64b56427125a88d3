//! A conformance-test harness for EVM-like state machines.
//!
//! A fixture document describes test cases: an initial account state, a
//! sequence of blocks and transactions, and an expected final account state.
//! The harness decodes the fixture into a canonical model, drives an
//! externally supplied execution engine through the case via the
//! [`protocol::TestEvmState`] interface, and scores the engine's resulting
//! state against the expectation.

use vstd::prelude::*;

pub mod codec;
pub mod debugger;
pub mod model;
pub mod protocol;
pub mod runner;

verus! {

/// Entry point for exercising the harness with the built-in debugging
/// engine: runs a minimal fixture through the whole pipeline.
pub fn general_state_tests_debug() {
    crate::debugger::EvmUnitTestDebugger::debug_test();
}

} // verus!
