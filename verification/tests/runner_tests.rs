use vstd::seq::Seq;
use evm_conformance::model::{
    AccountState, Block, BlockHeader, CallTransaction, NetworkType, RawAccountState,
    RawBlockHeader, RawFixture, RawTestCase, H160, H256, U256,
};
use evm_conformance::protocol::{ApplyError, TestEvmState, ValidationError};
use evm_conformance::runner::run_single_test;

/// An engine that accepts everything and validates every account as
/// matching, except for the mandatory coinbase skip.
struct OkEngine;

impl TestEvmState for OkEngine {
    // The ghost log exists only for verification; it is never evaluated
    // at run time.
    fn ops(&self) -> Seq<evm_conformance::protocol::Op> {
        panic!()
    }

    fn init_state() -> Self {
        Self
    }

    fn try_apply_network_type(self, _: NetworkType) -> Result<Self, ApplyError> {
        Ok(self)
    }

    fn try_apply_accounts(self, _: &Vec<(H160, AccountState)>) -> Result<Self, ApplyError> {
        Ok(self)
    }

    fn try_apply_block_header(self, _: &BlockHeader) -> Result<Self, ApplyError> {
        Ok(self)
    }

    fn try_apply_transaction(self, _: CallTransaction) -> Result<Self, ApplyError> {
        Ok(self)
    }

    fn validate_account(
        &self,
        address: H160,
        coinbase: H160,
        skip_coinbase: bool,
        _: &AccountState,
    ) -> Result<(), ValidationError> {
        if skip_coinbase && address == coinbase {
            Err(ValidationError::Skip)
        } else {
            Ok(())
        }
    }
}

/// An engine that refuses every block header and panics if a transaction
/// ever reaches it: applying a block whose header fails must abort before
/// any transaction.
struct HeaderRefusingEngine;

impl TestEvmState for HeaderRefusingEngine {
    // The ghost log exists only for verification; it is never evaluated
    // at run time.
    fn ops(&self) -> Seq<evm_conformance::protocol::Op> {
        panic!()
    }

    fn init_state() -> Self {
        Self
    }

    fn try_apply_network_type(self, _: NetworkType) -> Result<Self, ApplyError> {
        Ok(self)
    }

    fn try_apply_accounts(self, _: &Vec<(H160, AccountState)>) -> Result<Self, ApplyError> {
        Ok(self)
    }

    fn try_apply_block_header(self, _: &BlockHeader) -> Result<Self, ApplyError> {
        Err(ApplyError {
            message: "header refused".to_string(),
        })
    }

    fn try_apply_transaction(self, _: CallTransaction) -> Result<Self, ApplyError> {
        panic!("a transaction must never be applied after a failed header");
    }

    fn validate_account(
        &self,
        address: H160,
        coinbase: H160,
        skip_coinbase: bool,
        _: &AccountState,
    ) -> Result<(), ValidationError> {
        if skip_coinbase && address == coinbase {
            Err(ValidationError::Skip)
        } else {
            Ok(())
        }
    }
}

/// An engine whose comparison always reports a mismatch, to show that the
/// scorer records every failure and keeps going.
struct MismatchEngine;

impl TestEvmState for MismatchEngine {
    // The ghost log exists only for verification; it is never evaluated
    // at run time.
    fn ops(&self) -> Seq<evm_conformance::protocol::Op> {
        panic!()
    }

    fn init_state() -> Self {
        Self
    }

    fn try_apply_network_type(self, _: NetworkType) -> Result<Self, ApplyError> {
        Ok(self)
    }

    fn try_apply_accounts(self, _: &Vec<(H160, AccountState)>) -> Result<Self, ApplyError> {
        Ok(self)
    }

    fn try_apply_block_header(self, _: &BlockHeader) -> Result<Self, ApplyError> {
        Ok(self)
    }

    fn try_apply_transaction(self, _: CallTransaction) -> Result<Self, ApplyError> {
        Ok(self)
    }

    fn validate_account(
        &self,
        address: H160,
        coinbase: H160,
        skip_coinbase: bool,
        _: &AccountState,
    ) -> Result<(), ValidationError> {
        if skip_coinbase && address == coinbase {
            Err(ValidationError::Skip)
        } else {
            Err(ValidationError::Mismatch("account differs".to_string()))
        }
    }
}

/// An engine that accepts exactly one block header and refuses the next:
/// the orchestrator primes the first block's header and then applies it
/// again inside the block loop, so any case with a block must fail here.
struct OneHeaderEngine {
    headers: usize,
}

impl TestEvmState for OneHeaderEngine {
    // The ghost log exists only for verification; it is never evaluated
    // at run time.
    fn ops(&self) -> Seq<evm_conformance::protocol::Op> {
        panic!()
    }

    fn init_state() -> Self {
        Self { headers: 0 }
    }

    fn try_apply_network_type(self, _: NetworkType) -> Result<Self, ApplyError> {
        Ok(self)
    }

    fn try_apply_accounts(self, _: &Vec<(H160, AccountState)>) -> Result<Self, ApplyError> {
        Ok(self)
    }

    fn try_apply_block_header(self, _: &BlockHeader) -> Result<Self, ApplyError> {
        if self.headers >= 1 {
            Err(ApplyError {
                message: "second header".to_string(),
            })
        } else {
            Ok(Self { headers: 1 })
        }
    }

    fn try_apply_transaction(self, _: CallTransaction) -> Result<Self, ApplyError> {
        Ok(self)
    }

    fn validate_account(
        &self,
        _: H160,
        _: H160,
        _: bool,
        _: &AccountState,
    ) -> Result<(), ValidationError> {
        Ok(())
    }
}

fn coinbase_hex() -> String {
    format!("0x{}", "aa".repeat(20))
}

fn other_address_hex() -> String {
    format!("0x{}", "bb".repeat(20))
}

fn raw_header() -> RawBlockHeader {
    RawBlockHeader {
        coinbase: coinbase_hex(),
        difficulty: "0x20000".to_string(),
        gas_limit: "0x2fefd8".to_string(),
        hash: format!("0x{}", "00".repeat(32)),
        number: "1".to_string(),
        timestamp: "1000".to_string(),
    }
}

fn empty_account() -> RawAccountState {
    RawAccountState {
        balance: "0".to_string(),
        code: "0x".to_string(),
        nonce: "0".to_string(),
        storage: Vec::new(),
    }
}

fn fixture_with(cases: Vec<(String, RawTestCase)>) -> RawFixture {
    RawFixture { cases }
}

fn case_with_post(post: Vec<(String, RawAccountState)>) -> RawTestCase {
    RawTestCase {
        pre: Vec::new(),
        network: "Istanbul".to_string(),
        genesis_block_header: raw_header(),
        blocks: Vec::new(),
        post_state: post,
    }
}

#[test]
fn empty_case_counts_nothing() {
    let fixture = fixture_with(vec![("t".to_string(), case_with_post(Vec::new()))]);
    let (num, diags) = run_single_test::<OkEngine>(&fixture, "", false).unwrap();
    assert_eq!(num.total, 0);
    assert_eq!(num.failed, 0);
    assert_eq!(num.skipped, 0);
    assert!(diags.is_empty());
}

#[test]
fn coinbase_only_post_state_is_skipped() {
    let fixture = fixture_with(vec![(
        "t".to_string(),
        case_with_post(vec![(coinbase_hex(), empty_account())]),
    )]);
    let (num, _) = run_single_test::<OkEngine>(&fixture, "", true).unwrap();
    assert_eq!(num.total, 1);
    assert_eq!(num.failed, 0);
    assert_eq!(num.skipped, 1);
}

#[test]
fn coinbase_compared_when_not_skipping() {
    let fixture = fixture_with(vec![(
        "t".to_string(),
        case_with_post(vec![(coinbase_hex(), empty_account())]),
    )]);
    let (num, _) = run_single_test::<OkEngine>(&fixture, "", false).unwrap();
    assert_eq!(num.total, 1);
    assert_eq!(num.skipped, 0);
    assert_eq!(num.failed, 0);
}

#[test]
fn deny_listed_case_contributes_nothing() {
    let denied = "dup_d8g0v0_London";
    let fixture = fixture_with(vec![(
        denied.to_string(),
        case_with_post(vec![(other_address_hex(), empty_account())]),
    )]);
    let (num, _) = run_single_test::<OkEngine>(&fixture, "", false).unwrap();
    assert_eq!(num.total, 0);
    assert_eq!(num.failed, 0);
    assert_eq!(num.skipped, 0);
    let (num_filtered, _) = run_single_test::<OkEngine>(&fixture, denied, false).unwrap();
    assert_eq!(num_filtered.total, 0);
    assert_eq!(num_filtered.failed, 0);
    assert_eq!(num_filtered.skipped, 0);
}

#[test]
fn filter_not_present_runs_nothing() {
    let fixture = fixture_with(vec![(
        "present".to_string(),
        case_with_post(vec![(other_address_hex(), empty_account())]),
    )]);
    let (num, _) = run_single_test::<OkEngine>(&fixture, "absent", false).unwrap();
    assert_eq!(num.total, 0);
    assert_eq!(num.failed, 0);
    assert_eq!(num.skipped, 0);
}

#[test]
fn filter_selects_only_the_named_case() {
    let fixture = fixture_with(vec![
        ("first".to_string(), case_with_post(vec![(other_address_hex(), empty_account())])),
        (
            "second".to_string(),
            case_with_post(vec![
                (other_address_hex(), empty_account()),
                (coinbase_hex(), empty_account()),
            ]),
        ),
    ]);
    let (num, _) = run_single_test::<OkEngine>(&fixture, "second", true).unwrap();
    assert_eq!(num.total, 2);
    assert_eq!(num.skipped, 1);
    assert_eq!(num.failed, 0);
}

#[test]
fn failed_header_application_aborts_before_transactions() {
    let zero32 = H256([0u8; 32]);
    let zero = U256([0u64; 4]);
    let header = BlockHeader {
        coinbase: H160([0xaau8; 20]),
        difficulty: zero,
        gas_limit: zero,
        hash: zero32,
        number: zero,
        timestamp: zero,
    };
    let tx = CallTransaction {
        data: Vec::new(),
        gas_limit: zero,
        gas_price: zero,
        nonce: zero,
        sender: H160([0xbbu8; 20]),
        to: H160([0xccu8; 20]),
        value: zero,
        r: vec![0u8; 32],
        s: vec![0u8; 32],
        v: vec![0u8],
    };
    let block = Block {
        block_header: header,
        transactions: vec![tx],
    };
    let engine = HeaderRefusingEngine::init_state();
    let outcome = engine.try_apply_block(block);
    match outcome {
        Err(e) => assert_eq!(e.message, "header refused"),
        Ok(_) => panic!("applying the block must fail with the header"),
    }
}

#[test]
fn mismatches_are_all_recorded_and_do_not_halt() {
    let fixture = fixture_with(vec![(
        "t".to_string(),
        case_with_post(vec![
            (other_address_hex(), empty_account()),
            (format!("0x{}", "cc".repeat(20)), empty_account()),
            (coinbase_hex(), empty_account()),
        ]),
    )]);
    let (num, diags) = run_single_test::<MismatchEngine>(&fixture, "", true).unwrap();
    assert_eq!(num.total, 3);
    assert_eq!(num.failed, 2);
    assert_eq!(num.skipped, 1);
    assert_eq!(num.success(), 0);
    assert_eq!(diags.len(), 2);
    assert_eq!(diags[0], "account differs");
}

#[test]
fn decode_failure_is_fatal_to_the_document() {
    let mut case = case_with_post(Vec::new());
    case.network = "Homestead".to_string();
    let fixture = fixture_with(vec![("t".to_string(), case)]);
    let out = run_single_test::<OkEngine>(&fixture, "", false);
    assert!(out.is_err());
}

#[test]
fn in_memory_account_conversion_is_usable() {
    let mut key = [0u8; 32];
    key[31] = 1;
    let acct = AccountState {
        balance: U256([5u64, 0, 0, 0]),
        code: vec![0x60u8, 0x01],
        nonce: U256([2u64, 0, 0, 0]),
        storage: vec![(H256(key), H256([0x11u8; 32]))],
    };
    let mem = acct.to_in_memory_account();
    assert_eq!(mem.balance, evm::interpreter::uint::U256::from(5u64));
    assert_eq!(mem.code, vec![0x60u8, 0x01]);
    assert_eq!(mem.nonce, evm::interpreter::uint::U256::from(2u64));
    assert_eq!(mem.storage.len(), 1);
    assert!(mem.transient_storage.is_empty());
}

#[test]
fn first_block_header_is_primed_and_reapplied() {
    // Without blocks there is nothing to prime and the engine sees no
    // header at all.
    let no_blocks = fixture_with(vec![("t".to_string(), case_with_post(Vec::new()))]);
    assert!(run_single_test::<OneHeaderEngine>(&no_blocks, "", false).is_ok());
    // With one empty block the header reaches the engine twice — once as
    // the priming step, once inside the block loop — so an engine that
    // accepts a single header refuses the case.
    let mut case = case_with_post(Vec::new());
    case.blocks = vec![evm_conformance::model::RawBlock {
        block_header: raw_header(),
        transactions: Vec::new(),
    }];
    let one_block = fixture_with(vec![("t".to_string(), case)]);
    match run_single_test::<OneHeaderEngine>(&one_block, "", false) {
        Err(evm_conformance::runner::RunError::Apply(e)) => {
            assert_eq!(e.message, "second header");
        }
        other => panic!("expected the second header application to fail, got {:?}", other),
    }
}

#[test]
fn duplicate_post_state_address_is_counted_once() {
    // The same address spelled twice decodes to one expected account; the
    // later entry wins and the scorer counts it once.
    let fixture = fixture_with(vec![(
        "t".to_string(),
        case_with_post(vec![
            (format!("0x{}", "BB".repeat(20)), empty_account()),
            (other_address_hex(), empty_account()),
        ]),
    )]);
    let (num, _) = run_single_test::<OkEngine>(&fixture, "", false).unwrap();
    assert_eq!(num.total, 1);
    assert_eq!(num.failed, 0);
    assert_eq!(num.skipped, 0);
}
