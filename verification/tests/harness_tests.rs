use vstd::seq::Seq;
use evm_conformance::debugger::EvmUnitTestDebugger;
use evm_conformance::general_state_tests_debug;
use evm_conformance::model::{
    RawAccountState, RawBlockHeader, RawFixture, RawTestCase,
};
use evm_conformance::protocol::{ApplyError, TestEvmState, ValidationError};
use evm_conformance::model::{AccountState, BlockHeader, CallTransaction, NetworkType, H160};
use evm_conformance::runner::run_single_test;

/// An engine that accepts everything and validates every account as
/// matching, like the one the original harness is exercised with.
struct EvmState;

impl TestEvmState for EvmState {
    // The ghost log exists only for verification; it is never evaluated
    // at run time.
    fn ops(&self) -> Seq<evm_conformance::protocol::Op> {
        panic!()
    }

    fn init_state() -> Self {
        Self
    }

    fn try_apply_network_type(self, _: NetworkType) -> Result<Self, ApplyError> {
        Ok(self)
    }

    fn try_apply_accounts(self, _: &Vec<(H160, AccountState)>) -> Result<Self, ApplyError> {
        Ok(self)
    }

    fn try_apply_block_header(self, _: &BlockHeader) -> Result<Self, ApplyError> {
        Ok(self)
    }

    fn try_apply_transaction(self, _: CallTransaction) -> Result<Self, ApplyError> {
        Ok(self)
    }

    fn validate_account(
        &self,
        address: H160,
        coinbase: H160,
        skip_coinbase: bool,
        _: &AccountState,
    ) -> Result<(), ValidationError> {
        if skip_coinbase && address == coinbase {
            Err(ValidationError::Skip)
        } else {
            Ok(())
        }
    }
}

fn raw_header(coinbase: &str) -> RawBlockHeader {
    RawBlockHeader {
        coinbase: coinbase.to_string(),
        difficulty: "0x20000".to_string(),
        gas_limit: "0x2fefd8".to_string(),
        hash: format!("0x{}", "00".repeat(32)),
        number: "1".to_string(),
        timestamp: "1000".to_string(),
    }
}

fn empty_account() -> RawAccountState {
    RawAccountState {
        balance: "0".to_string(),
        code: "0x".to_string(),
        nonce: "0".to_string(),
        storage: Vec::new(),
    }
}

fn zero_address_hex() -> String {
    format!("0x{}", "00".repeat(20))
}

fn small_fixture(case_name: &str) -> RawFixture {
    let case = RawTestCase {
        pre: vec![(zero_address_hex(), empty_account())],
        network: "Istanbul".to_string(),
        genesis_block_header: raw_header(&format!("0x{}", "aa".repeat(20))),
        blocks: Vec::new(),
        post_state: vec![(zero_address_hex(), empty_account())],
    };
    RawFixture {
        cases: vec![(case_name.to_string(), case)],
    }
}

#[test]
fn run_examples() {
    let fixtures = vec![small_fixture("add_d0g0v0_Istanbul"), small_fixture("sub_d0g0v0_Berlin")];
    let (num, diags) = evm_conformance::runner::run_tests::<EvmState>(&fixtures, true).unwrap();
    assert_eq!(num.total, 2);
    assert_eq!(num.failed, 0);
    assert_eq!(num.skipped, 0);
    assert_eq!(num.success(), 2);
    assert_eq!(diags.len(), 0);
}

#[test]
fn run_example() {
    let fixture = small_fixture("add_d0g0v0_Istanbul");
    let (num, _) = run_single_test::<EvmState>(&fixture, "", true).unwrap();
    assert_eq!(num.total, 1);
    assert_eq!(num.failed, 0);
    assert_eq!(num.skipped, 0);
}

#[test]
fn run_tests() {
    EvmUnitTestDebugger::debug_test();
}

#[test]
fn general_state_tests() {
    general_state_tests_debug();
}
