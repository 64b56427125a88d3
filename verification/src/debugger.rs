//! A minimal engine implementing the state protocol: it accepts every
//! operation and validates every account as matching. It exists to exercise
//! the harness end to end — orchestration, selection and scoring — without
//! a real execution engine behind it.

use vstd::prelude::*;

verus! {

use crate::codec::cases_v;
use crate::model::{h160_eq, AccountState, BlockHeader, CallTransaction, NetworkType, TestCase,
    H160, H256, U256};
use crate::protocol::{batch_v, ApplyError, Op, TestEvmState, ValidationError};
use crate::runner;

/// The debugging engine: no state of its own beyond the ghost log of what
/// was applied.
pub struct EvmUnitTestDebugger {
    pub log: Ghost<Seq<Op>>,
}

impl TestEvmState for EvmUnitTestDebugger {
    open spec fn ops(&self) -> Seq<Op> {
        self.log@
    }

    fn init_state() -> (r: Self) {
        EvmUnitTestDebugger { log: Ghost(Seq::empty()) }
    }

    fn try_apply_network_type(self, net_type: NetworkType) -> (r: Result<Self, ApplyError>)
        ensures
            r matches Ok(_),
    {
        Ok(EvmUnitTestDebugger { log: Ghost(self.log@.push(Op::Net(net_type))) })
    }

    fn try_apply_accounts(self, accounts: &Vec<(H160, AccountState)>) -> (r: Result<
        Self,
        ApplyError,
    >)
        ensures
            r matches Ok(_),
    {
        Ok(EvmUnitTestDebugger { log: Ghost(self.log@.push(Op::Accounts(batch_v(accounts@)))) })
    }

    fn try_apply_block_header(self, block_header: &BlockHeader) -> (r: Result<Self, ApplyError>)
        ensures
            r matches Ok(_),
    {
        Ok(EvmUnitTestDebugger { log: Ghost(self.log@.push(Op::Header(block_header@))) })
    }

    fn try_apply_transaction(self, tx: CallTransaction) -> (r: Result<Self, ApplyError>)
        ensures
            r matches Ok(_),
    {
        Ok(EvmUnitTestDebugger { log: Ghost(self.log@.push(Op::Tx(tx@))) })
    }

    fn validate_account(
        &self,
        address: H160,
        coinbase: H160,
        skip_coinbase: bool,
        account: &AccountState,
    ) -> (r: Result<(), ValidationError>) {
        if skip_coinbase && h160_eq(&address, &coinbase) {
            Err(ValidationError::Skip)
        } else {
            Ok(())
        }
    }
}

/// The all-zero block header: zero coinbase, hash and numbers.
fn zero_header() -> BlockHeader {
    BlockHeader {
        coinbase: H160([0u8; 20]),
        difficulty: U256([0u64; 4]),
        gas_limit: U256([0u64; 4]),
        hash: H256([0u8; 32]),
        number: U256([0u64; 4]),
        timestamp: U256([0u64; 4]),
    }
}

impl EvmUnitTestDebugger {
    /// Drives a minimal one-case fixture — empty pre-state, no blocks,
    /// empty post-state — through orchestration and scoring with the
    /// debugging engine.
    pub fn debug_test() {
        let case = TestCase {
            pre: Vec::new(),
            network: NetworkType::Istanbul,
            genesis_block_header: zero_header(),
            blocks: Vec::new(),
            post_state: Vec::new(),
        };
        let mut cases: Vec<(String, TestCase)> = Vec::new();
        cases.push(("debug".to_owned(), case));
        let filter = "";
        proof {
            reveal_strlit("");
            let cv = cases_v(cases@);
            assert(cv.len() == 1);
            assert(cv.drop_last() =~= Seq::<(Seq<char>, crate::model::TestCaseV)>::empty());
            assert(runner::fixture_total(cv.drop_last(), filter@) == 0);
            assert(cv.last().1 == cases@[0].1@);
            assert(cases@[0].1.post_state@.len() == 0);
            assert(cv.last().1.post_state.len() == 0);
            assert(runner::fixture_total(cv, filter@) == 0);
        }
        let _ = runner::run_cases::<EvmUnitTestDebugger>(cases, filter, true);
    }
}

} // verus!
