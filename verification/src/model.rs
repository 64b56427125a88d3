//! The canonical in-memory model of a fixture: accounts, headers,
//! transactions and test cases, together with their mathematical views.
//!
//! All entities are immutable value objects, materialized once by the codec
//! and consumed read-only by the orchestrator.

use vstd::prelude::*;

verus! {

use vstd::utf8::encode_utf8;

/// An unsigned 256-bit integer, stored as four 64-bit limbs, least
/// significant limb first. Its view is the mathematical value.
#[derive(Debug, Clone, Copy, PartialEq, Eq)]
pub struct U256(pub [u64; 4]);

impl View for U256 {
    type V = nat;

    open spec fn view(&self) -> nat {
        (self.0@[0] as nat) + (self.0@[1] as nat) * 0x1_0000_0000_0000_0000
            + (self.0@[2] as nat) * 0x1_0000_0000_0000_0000_0000_0000_0000_0000
            + (self.0@[3] as nat)
                * 0x1_0000_0000_0000_0000_0000_0000_0000_0000_0000_0000_0000_0000
    }
}

/// A 32-byte value: a hash, or a storage key or word. Its view is the
/// sequence of its bytes, big endian.
#[derive(Debug, Clone, Copy, PartialEq, Eq)]
pub struct H256(pub [u8; 32]);

impl View for H256 {
    type V = Seq<u8>;

    open spec fn view(&self) -> Seq<u8> {
        self.0@
    }
}

/// A 20-byte account address. Its view is the sequence of its bytes.
#[derive(Debug, Clone, Copy, PartialEq, Eq)]
pub struct H160(pub [u8; 20]);

impl View for H160 {
    type V = Seq<u8>;

    open spec fn view(&self) -> Seq<u8> {
        self.0@
    }
}

/// Whether two 32-byte values hold the same bytes.
pub fn h256_eq(a: &H256, b: &H256) -> (r: bool)
    ensures
        r == (a@ == b@),
{
    let mut i: usize = 0;
    while i < 32
        invariant
            i <= 32,
            a@.len() == 32 && b@.len() == 32,
            forall|j: int| 0 <= j < i ==> a@[j] == b@[j],
        decreases 32 - i,
    {
        if a.0[i] != b.0[i] {
            return false;
        }
        i += 1;
    }
    proof {
        assert(a@ =~= b@);
    }
    true
}

/// Whether two addresses hold the same bytes.
pub fn h160_eq(a: &H160, b: &H160) -> (r: bool)
    ensures
        r == (a@ == b@),
{
    let mut i: usize = 0;
    while i < 20
        invariant
            i <= 20,
            a@.len() == 20 && b@.len() == 20,
            forall|j: int| 0 <= j < i ==> a@[j] == b@[j],
        decreases 20 - i,
    {
        if a.0[i] != b.0[i] {
            return false;
        }
        i += 1;
    }
    proof {
        assert(a@ =~= b@);
    }
    true
}

/// The closed set of fork identifiers a fixture may name.
#[derive(Debug, Clone, Copy, PartialEq, Eq)]
pub enum NetworkType {
    Istanbul,
    Berlin,
    London,
    Merge,
}

/// One account: balance, code, nonce and storage. Each storage key and
/// value is exactly 32 bytes; keys are unique, in first-appearance order —
/// a later fixture entry for the same padded key overwrites the earlier.
#[derive(Debug, Clone, PartialEq, Eq)]
pub struct AccountState {
    pub balance: U256,
    pub code: Vec<u8>,
    pub nonce: U256,
    pub storage: Vec<(H256, H256)>,
}

/// The mathematical view of an account.
pub struct AccountStateV {
    pub balance: nat,
    pub code: Seq<u8>,
    pub nonce: nat,
    pub storage: Seq<(Seq<u8>, Seq<u8>)>,
}

impl View for AccountState {
    type V = AccountStateV;

    open spec fn view(&self) -> AccountStateV {
        AccountStateV {
            balance: self.balance@,
            code: self.code@,
            nonce: self.nonce@,
            storage: self.storage@.map_values(|p: (H256, H256)| (p.0@, p.1@)),
        }
    }
}

/// One transaction of a block, with its three-part signature.
#[derive(Debug, Clone, PartialEq, Eq)]
pub struct CallTransaction {
    pub data: Vec<u8>,
    pub gas_limit: U256,
    pub gas_price: U256,
    pub nonce: U256,
    pub sender: H160,
    pub to: H160,
    pub value: U256,
    pub r: Vec<u8>,
    pub s: Vec<u8>,
    pub v: Vec<u8>,
}

/// The mathematical view of a transaction.
pub struct CallTransactionV {
    pub data: Seq<u8>,
    pub gas_limit: nat,
    pub gas_price: nat,
    pub nonce: nat,
    pub sender: Seq<u8>,
    pub to: Seq<u8>,
    pub value: nat,
    pub r: Seq<u8>,
    pub s: Seq<u8>,
    pub v: Seq<u8>,
}

impl View for CallTransaction {
    type V = CallTransactionV;

    open spec fn view(&self) -> CallTransactionV {
        CallTransactionV {
            data: self.data@,
            gas_limit: self.gas_limit@,
            gas_price: self.gas_price@,
            nonce: self.nonce@,
            sender: self.sender@,
            to: self.to@,
            value: self.value@,
            r: self.r@,
            s: self.s@,
            v: self.v@,
        }
    }
}

/// One block header.
#[derive(Debug, Clone, Copy, PartialEq, Eq)]
pub struct BlockHeader {
    pub coinbase: H160,
    pub difficulty: U256,
    pub gas_limit: U256,
    pub hash: H256,
    pub number: U256,
    pub timestamp: U256,
}

/// The mathematical view of a block header.
pub struct BlockHeaderV {
    pub coinbase: Seq<u8>,
    pub difficulty: nat,
    pub gas_limit: nat,
    pub hash: Seq<u8>,
    pub number: nat,
    pub timestamp: nat,
}

impl View for BlockHeader {
    type V = BlockHeaderV;

    open spec fn view(&self) -> BlockHeaderV {
        BlockHeaderV {
            coinbase: self.coinbase@,
            difficulty: self.difficulty@,
            gas_limit: self.gas_limit@,
            hash: self.hash@,
            number: self.number@,
            timestamp: self.timestamp@,
        }
    }
}

/// One block: a header plus its transactions in execution order.
#[derive(Debug, Clone, PartialEq, Eq)]
pub struct Block {
    pub block_header: BlockHeader,
    pub transactions: Vec<CallTransaction>,
}

/// The mathematical view of a block.
pub struct BlockV {
    pub block_header: BlockHeaderV,
    pub transactions: Seq<CallTransactionV>,
}

impl View for Block {
    type V = BlockV;

    open spec fn view(&self) -> BlockV {
        BlockV {
            block_header: self.block_header@,
            transactions: self.transactions@.map_values(|t: CallTransaction| t@),
        }
    }
}

/// One decoded test case: pre-state, fork, genesis header, blocks, and the
/// expected post-state. Account maps hold one entry per distinct decoded
/// address, in first-appearance order; a later fixture entry for the same
/// address overwrites the earlier (last wins).
#[derive(Debug, Clone, PartialEq, Eq)]
pub struct TestCase {
    pub pre: Vec<(H160, AccountState)>,
    pub network: NetworkType,
    pub genesis_block_header: BlockHeader,
    pub blocks: Vec<Block>,
    pub post_state: Vec<(H160, AccountState)>,
}

/// The mathematical view of a test case.
pub struct TestCaseV {
    pub pre: Seq<(Seq<u8>, AccountStateV)>,
    pub network: NetworkType,
    pub genesis_block_header: BlockHeaderV,
    pub blocks: Seq<BlockV>,
    pub post_state: Seq<(Seq<u8>, AccountStateV)>,
}

impl View for TestCase {
    type V = TestCaseV;

    open spec fn view(&self) -> TestCaseV {
        TestCaseV {
            pre: self.pre@.map_values(|p: (H160, AccountState)| (p.0@, p.1@)),
            network: self.network,
            genesis_block_header: self.genesis_block_header@,
            blocks: self.blocks@.map_values(|b: Block| b@),
            post_state: self.post_state@.map_values(|p: (H160, AccountState)| (p.0@, p.1@)),
        }
    }
}

/// Pass/fail/skip counters for one run.
#[derive(Debug, Clone, Copy, PartialEq, Eq)]
pub struct TestNum {
    pub total: usize,
    pub failed: usize,
    pub skipped: usize,
}

impl TestNum {
    /// Counters are consistent: failures and skips never exceed the total.
    pub open spec fn wf(&self) -> bool {
        self.failed + self.skipped <= self.total
    }

    /// A fresh, all-zero accumulator.
    pub fn new() -> (r: TestNum)
        ensures
            r.total == 0 && r.failed == 0 && r.skipped == 0,
    {
        TestNum { total: 0, failed: 0, skipped: 0 }
    }

    /// The number of successful validations, derived and never stored:
    /// everything counted that neither failed nor was skipped.
    pub fn success(&self) -> (r: usize)
        requires
            self.wf(),
        ensures
            r == self.total - self.failed - self.skipped,
    {
        self.total - self.failed - self.skipped
    }
}

/// An account state as it stands in the fixture text: every field still a
/// string, storage as a list of key/value string pairs in document order.
#[derive(Debug, Clone, PartialEq, Eq)]
pub struct RawAccountState {
    pub balance: String,
    pub code: String,
    pub nonce: String,
    pub storage: Vec<(String, String)>,
}

/// A block header as it stands in the fixture text.
#[derive(Debug, Clone, PartialEq, Eq)]
pub struct RawBlockHeader {
    pub coinbase: String,
    pub difficulty: String,
    pub gas_limit: String,
    pub hash: String,
    pub number: String,
    pub timestamp: String,
}

/// A transaction as it stands in the fixture text.
#[derive(Debug, Clone, PartialEq, Eq)]
pub struct RawTransaction {
    pub data: String,
    pub gas_limit: String,
    pub gas_price: String,
    pub nonce: String,
    pub sender: String,
    pub to: String,
    pub value: String,
    pub r: String,
    pub s: String,
    pub v: String,
}

/// A block as it stands in the fixture text.
#[derive(Debug, Clone, PartialEq, Eq)]
pub struct RawBlock {
    pub block_header: RawBlockHeader,
    pub transactions: Vec<RawTransaction>,
}

/// A test case as it stands in the fixture text.
#[derive(Debug, Clone, PartialEq, Eq)]
pub struct RawTestCase {
    pub pre: Vec<(String, RawAccountState)>,
    pub network: String,
    pub genesis_block_header: RawBlockHeader,
    pub blocks: Vec<RawBlock>,
    pub post_state: Vec<(String, RawAccountState)>,
}

/// A whole fixture document: named test cases in document order.
#[derive(Debug, Clone, PartialEq, Eq)]
pub struct RawFixture {
    pub cases: Vec<(String, RawTestCase)>,
}

/// The mathematical view of a raw account state.
pub struct RawAccountStateV {
    pub balance: Seq<char>,
    pub code: Seq<char>,
    pub nonce: Seq<char>,
    pub storage: Seq<(Seq<char>, Seq<char>)>,
}

impl View for RawAccountState {
    type V = RawAccountStateV;

    open spec fn view(&self) -> RawAccountStateV {
        RawAccountStateV {
            balance: self.balance@,
            code: self.code@,
            nonce: self.nonce@,
            storage: self.storage@.map_values(|p: (String, String)| (p.0@, p.1@)),
        }
    }
}

/// The mathematical view of a raw block header.
pub struct RawBlockHeaderV {
    pub coinbase: Seq<char>,
    pub difficulty: Seq<char>,
    pub gas_limit: Seq<char>,
    pub hash: Seq<char>,
    pub number: Seq<char>,
    pub timestamp: Seq<char>,
}

impl View for RawBlockHeader {
    type V = RawBlockHeaderV;

    open spec fn view(&self) -> RawBlockHeaderV {
        RawBlockHeaderV {
            coinbase: self.coinbase@,
            difficulty: self.difficulty@,
            gas_limit: self.gas_limit@,
            hash: self.hash@,
            number: self.number@,
            timestamp: self.timestamp@,
        }
    }
}

/// The mathematical view of a raw transaction.
pub struct RawTransactionV {
    pub data: Seq<char>,
    pub gas_limit: Seq<char>,
    pub gas_price: Seq<char>,
    pub nonce: Seq<char>,
    pub sender: Seq<char>,
    pub to: Seq<char>,
    pub value: Seq<char>,
    pub r: Seq<char>,
    pub s: Seq<char>,
    pub v: Seq<char>,
}

impl View for RawTransaction {
    type V = RawTransactionV;

    open spec fn view(&self) -> RawTransactionV {
        RawTransactionV {
            data: self.data@,
            gas_limit: self.gas_limit@,
            gas_price: self.gas_price@,
            nonce: self.nonce@,
            sender: self.sender@,
            to: self.to@,
            value: self.value@,
            r: self.r@,
            s: self.s@,
            v: self.v@,
        }
    }
}

/// The mathematical view of a raw block.
pub struct RawBlockV {
    pub block_header: RawBlockHeaderV,
    pub transactions: Seq<RawTransactionV>,
}

impl View for RawBlock {
    type V = RawBlockV;

    open spec fn view(&self) -> RawBlockV {
        RawBlockV {
            block_header: self.block_header@,
            transactions: self.transactions@.map_values(|t: RawTransaction| t@),
        }
    }
}

/// The mathematical view of a raw test case.
pub struct RawTestCaseV {
    pub pre: Seq<(Seq<char>, RawAccountStateV)>,
    pub network: Seq<char>,
    pub genesis_block_header: RawBlockHeaderV,
    pub blocks: Seq<RawBlockV>,
    pub post_state: Seq<(Seq<char>, RawAccountStateV)>,
}

impl View for RawTestCase {
    type V = RawTestCaseV;

    open spec fn view(&self) -> RawTestCaseV {
        RawTestCaseV {
            pre: self.pre@.map_values(|p: (String, RawAccountState)| (p.0@, p.1@)),
            network: self.network@,
            genesis_block_header: self.genesis_block_header@,
            blocks: self.blocks@.map_values(|b: RawBlock| b@),
            post_state: self.post_state@.map_values(|p: (String, RawAccountState)| (p.0@, p.1@)),
        }
    }
}

impl View for RawFixture {
    type V = Seq<(Seq<char>, RawTestCaseV)>;

    open spec fn view(&self) -> Seq<(Seq<char>, RawTestCaseV)> {
        self.cases@.map_values(|p: (String, RawTestCase)| (p.0@, p.1@))
    }
}

/// The UTF-8 bytes of a string value, the form the codec's contracts are
/// stated over.
pub open spec fn str_bytes(s: Seq<char>) -> Seq<u8> {
    encode_utf8(s)
}

/// Declares evm's in-memory backend account type so that it may appear in
/// a signature; its values stay opaque to verification.
#[verifier::external_type_specification]
#[verifier::external_body]
pub struct ExInMemoryAccount(evm::backend::InMemoryAccount);

impl AccountState {
    /// Relies on evm's in-memory backend account: the wrapper only carries
    /// this account's fields over — limbs, code bytes and storage pairs one
    /// for one, transient storage empty. The value is opaque here; engines
    /// built on the evm crate consume it.
    #[verifier::external_body]
    pub fn to_in_memory_account(&self) -> evm::backend::InMemoryAccount {
        evm::backend::InMemoryAccount {
            balance: evm::interpreter::uint::U256(self.balance.0),
            code: self.code.clone(),
            nonce: evm::interpreter::uint::U256(self.nonce.0),
            storage: self.storage.iter().map(
                |p| (evm::interpreter::uint::H256(p.0.0), evm::interpreter::uint::H256(p.1.0)),
            ).collect(),
            transient_storage: std::collections::BTreeMap::new(),
        }
    }
}

} // verus!
