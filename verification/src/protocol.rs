//! The state protocol: the abstract capability interface an execution
//! engine under test must implement, plus the composite operations with
//! their fixed sequencing.
//!
//! An engine's internal semantics are its own; the interface pins down only
//! what the harness relies on. Each engine value carries a ghost log of the
//! operations applied to it, so the contracts of the composite operations
//! state the exact order in which a block's header and transactions reach
//! the engine.

use vstd::prelude::*;

verus! {

use crate::model::{
    AccountState, AccountStateV, Block, BlockHeader, BlockHeaderV, CallTransaction,
    CallTransactionV, NetworkType, TestNum, H160,
};

/// A failure while applying fixture data to an engine: fatal to the current
/// test case only.
#[derive(Debug, Clone, PartialEq, Eq)]
pub struct ApplyError {
    pub message: String,
}

/// The outcome of validating one account against an expectation. `Skip` is
/// an expected, non-failing outcome; `Mismatch` is a recorded failure,
/// carrying a diagnostic.
#[derive(Debug, Clone, PartialEq, Eq)]
pub enum ValidationError {
    Skip,
    Mismatch(String),
}

/// One operation applied to an engine, as recorded in its ghost log.
pub enum Op {
    Net(NetworkType),
    Accounts(Seq<(Seq<u8>, AccountStateV)>),
    Header(BlockHeaderV),
    Tx(CallTransactionV),
}

/// The view of an account batch, as it appears in the ghost log.
pub open spec fn batch_v(v: Seq<(H160, AccountState)>) -> Seq<(Seq<u8>, AccountStateV)> {
    v.map_values(|p: (H160, AccountState)| (p.0@, p.1@))
}

/// The log entries one block contributes: its header, then its
/// transactions in listed order.
pub open spec fn block_ops(b: Block) -> Seq<Op> {
    seq![Op::Header(b.block_header@)] + b.transactions@.map_values(
        |t: CallTransaction| Op::Tx(t@),
    )
}

/// The log entries a block sequence contributes.
pub open spec fn blocks_ops(bs: Seq<Block>) -> Seq<Op>
    decreases bs.len(),
{
    if bs.len() == 0 {
        Seq::empty()
    } else {
        block_ops(bs[0]) + blocks_ops(bs.drop_first())
    }
}

/// How many of the given expected accounts the scorer must skip: with
/// `skip_coinbase` set, those at the coinbase address; otherwise none.
pub open spec fn count_skips(
    accounts: Seq<(Seq<u8>, AccountStateV)>,
    coinbase: Seq<u8>,
    skip_coinbase: bool,
) -> nat
    decreases accounts.len(),
{
    if accounts.len() == 0 {
        0
    } else {
        count_skips(accounts.drop_last(), coinbase, skip_coinbase) + (if skip_coinbase
            && accounts.last().0 == coinbase {
            1nat
        } else {
            0nat
        })
    }
}

/// The capability set an execution engine under test must provide. The
/// engine owns its internal state; `ops` is its ghost log of everything the
/// harness has applied, which the primitive operations extend one entry at
/// a time.
pub trait TestEvmState: Sized {
    /// The ghost log of operations applied to this engine value.
    spec fn ops(&self) -> Seq<Op>;

    /// A fresh, empty engine; nothing applied yet.
    fn init_state() -> (r: Self)
        ensures
            r.ops() == Seq::<Op>::empty(),
    ;

    /// Records the active fork. An engine that does not support the fork
    /// may fail.
    fn try_apply_network_type(self, net_type: NetworkType) -> (r: Result<Self, ApplyError>)
        ensures
            r matches Ok(s2) ==> s2.ops() == self.ops().push(Op::Net(net_type)),
    ;

    /// Seeds the pre-state accounts, as one batch.
    fn try_apply_accounts(self, accounts: &Vec<(H160, AccountState)>) -> (r: Result<
        Self,
        ApplyError,
    >)
        ensures
            r matches Ok(s2) ==> s2.ops() == self.ops().push(Op::Accounts(batch_v(accounts@))),
    ;

    /// Advances to a new block context.
    fn try_apply_block_header(self, block_header: &BlockHeader) -> (r: Result<Self, ApplyError>)
        ensures
            r matches Ok(s2) ==> s2.ops() == self.ops().push(Op::Header(block_header@)),
    ;

    /// Executes one transaction against the current state.
    fn try_apply_transaction(self, tx: CallTransaction) -> (r: Result<Self, ApplyError>)
        ensures
            r matches Ok(s2) ==> s2.ops() == self.ops().push(Op::Tx(tx@)),
    ;

    /// Compares the engine's account at `address` against `account`. With
    /// `skip_coinbase` set and `address` equal to `coinbase`, the engine
    /// must report `Skip` instead of comparing — and only then.
    fn validate_account(
        &self,
        address: H160,
        coinbase: H160,
        skip_coinbase: bool,
        account: &AccountState,
    ) -> (r: Result<(), ValidationError>)
        ensures
            skip_coinbase && address@ == coinbase@ ==> r == Err::<(), ValidationError>(
                ValidationError::Skip,
            ),
            !(skip_coinbase && address@ == coinbase@) ==> !(r matches Err(ValidationError::Skip)),
    ;

    /// Applies one block: its header first, then each transaction in the
    /// block's listed order. The first failure aborts the block; a
    /// transaction is never applied after a failed header, and no
    /// transaction after a failed one.
    fn try_apply_block(self, block: Block) -> (r: Result<Self, ApplyError>)
        ensures
            r matches Ok(s2) ==> s2.ops() == self.ops() + block_ops(block),
    {
        let ghost b = block;
        let mut state = match self.try_apply_block_header(&block.block_header) {
            Ok(s) => s,
            Err(e) => {
                return Err(e);
            },
        };
        let mut txs = block.transactions;
        let ghost done: int = 0;
        while txs.len() > 0
            invariant
                0 <= done <= b.transactions@.len(),
                txs@ == b.transactions@.skip(done),
                state.ops() == self.ops() + seq![Op::Header(b.block_header@)]
                    + b.transactions@.take(done).map_values(|t: CallTransaction| Op::Tx(t@)),
            decreases txs@.len(),
        {
            let tx = txs.remove(0);
            assert(tx == b.transactions@[done]);
            state = match state.try_apply_transaction(tx) {
                Ok(s) => s,
                Err(e) => {
                    return Err(e);
                },
            };
            proof {
                done = done + 1;
                assert(txs@ =~= b.transactions@.skip(done));
                assert(b.transactions@.take(done).map_values(|t: CallTransaction| Op::Tx(t@)) =~= b
                    .transactions@.take(done - 1).map_values(|t: CallTransaction| Op::Tx(t@)).push(
                    Op::Tx(b.transactions@[done - 1]@),
                ));
            }
        }
        proof {
            assert(b.transactions@.take(done) =~= b.transactions@);
            assert(state.ops() =~= self.ops() + block_ops(b));
        }
        Ok(state)
    }

    /// Applies each block in listed order; the first failure aborts the
    /// remaining sequence.
    fn try_apply_blocks(self, blocks: Vec<Block>) -> (r: Result<Self, ApplyError>)
        ensures
            r matches Ok(s2) ==> s2.ops() == self.ops() + blocks_ops(blocks@),
    {
        let ghost bs = blocks@;
        let mut rest = blocks;
        let mut state = self;
        let ghost start = state.ops();
        let ghost done: int = 0;
        while rest.len() > 0
            invariant
                0 <= done <= bs.len(),
                rest@ == bs.skip(done),
                state.ops() == start + blocks_ops(bs.take(done)),
            decreases rest@.len(),
        {
            let b = rest.remove(0);
            assert(b == bs[done]);
            state = match state.try_apply_block(b) {
                Ok(s) => s,
                Err(e) => {
                    return Err(e);
                },
            };
            proof {
                done = done + 1;
                assert(rest@ =~= bs.skip(done));
                lemma_blocks_ops_take_step(bs, done);
                assert(state.ops() =~= start + blocks_ops(bs.take(done)));
            }
        }
        proof {
            assert(bs.take(done) =~= bs);
        }
        Ok(state)
    }

    /// Scores every expected account: the total counts each one, a `Skip`
    /// outcome counts as skipped, a `Mismatch` as failed with its
    /// diagnostic collected. Every account is scored; a mismatch never
    /// stops the remaining ones.
    fn validate_accounts(
        &self,
        accounts: &Vec<(H160, AccountState)>,
        coinbase: H160,
        skip_coinbase: bool,
    ) -> (r: (TestNum, Vec<String>))
        ensures
            r.0.total == accounts@.len(),
            r.0.skipped == count_skips(batch_v(accounts@), coinbase@, skip_coinbase),
            r.0.failed == r.1@.len(),
            r.0.wf(),
    {
        let mut num = TestNum::new();
        let mut diags: Vec<String> = Vec::new();
        let mut i: usize = 0;
        while i < accounts.len()
            invariant
                i <= accounts@.len(),
                num.total == i,
                num.skipped == count_skips(
                    batch_v(accounts@.take(i as int)),
                    coinbase@,
                    skip_coinbase,
                ),
                num.failed == diags@.len(),
                num.failed + num.skipped <= num.total,
            decreases accounts@.len() - i,
        {
            let address = accounts[i].0;
            proof {
                assert(batch_v(accounts@.take(i + 1)).drop_last() =~= batch_v(
                    accounts@.take(i as int),
                ));
                assert(batch_v(accounts@.take(i + 1)).last() == (
                    accounts@[i as int].0@,
                    accounts@[i as int].1@,
                ));
            }
            match self.validate_account(address, coinbase, skip_coinbase, &accounts[i].1) {
                Ok(()) => {},
                Err(ValidationError::Skip) => {
                    num.skipped += 1;
                },
                Err(ValidationError::Mismatch(d)) => {
                    num.failed += 1;
                    diags.push(d);
                },
            }
            num.total += 1;
            i += 1;
        }
        proof {
            assert(accounts@.take(i as int) =~= accounts@);
        }
        (num, diags)
    }
}

/// Unfolds one step of `blocks_ops` over a growing prefix.
proof fn lemma_blocks_ops_take_step(bs: Seq<Block>, done: int)
    requires
        1 <= done <= bs.len(),
    ensures
        blocks_ops(bs.take(done)) == blocks_ops(bs.take(done - 1)) + block_ops(bs[done - 1]),
    decreases done,
{
    if done == 1 {
        assert(bs.take(1).drop_first() =~= Seq::<Block>::empty());
        assert(bs.take(0) =~= Seq::<Block>::empty());
        assert(bs.take(1)[0] == bs[0]);
        assert(blocks_ops(Seq::<Block>::empty()) == Seq::<Op>::empty());
        assert(blocks_ops(bs.take(1)) =~= blocks_ops(bs.take(0)) + block_ops(bs[0]));
    } else {
        lemma_blocks_ops_take_step(bs.drop_first(), done - 1);
        assert(bs.take(done).drop_first() =~= bs.drop_first().take(done - 1));
        assert(bs.take(done - 1).drop_first() =~= bs.drop_first().take(done - 2));
        assert(bs.take(done)[0] == bs[0]);
        assert(bs.take(done - 1)[0] == bs[0]);
        assert(bs.drop_first()[done - 2] == bs[done - 1]);
        assert(blocks_ops(bs.take(done)) == block_ops(bs[0]) + blocks_ops(
            bs.drop_first().take(done - 1),
        ));
        assert(blocks_ops(bs.take(done - 1)) == block_ops(bs[0]) + blocks_ops(
            bs.drop_first().take(done - 2),
        ));
        assert(blocks_ops(bs.take(done)) =~= blocks_ops(bs.take(done - 1)) + block_ops(
            bs[done - 1],
        ));
    }
}

} // verus!
