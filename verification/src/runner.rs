//! The orchestrator and scorer: selects test cases by deny-list and filter,
//! drives each selected case through the state protocol in the fixed
//! sequence, and aggregates pass/fail/skip counts across cases and across
//! fixture documents.

use vstd::prelude::*;

verus! {

use crate::codec::{bytes_eq, cases_v, decode_fixture, err_v, s_fixture, DecodeError, DecodeErrorV};
use crate::model::{str_bytes, Block, NetworkType, RawFixture, TestCase, TestCaseV, TestNum, H160, AccountState};
use crate::protocol::{batch_v, blocks_ops, count_skips, ApplyError, Op, TestEvmState};

/// A failure of a whole run: the fixture document could not be decoded, or
/// an engine refused part of a case, which is fatal to the run — no partial
/// scoring for a case that fails to apply.
#[derive(Debug, Clone, PartialEq, Eq)]
pub enum RunError {
    Decode(DecodeError),
    Apply(ApplyError),
}

/// Whether a case name stands on the static deny-list of known-malformed
/// fixtures: cases whose transaction signature parts are shorter than the
/// canonical width. A deny-listed case is never executed and contributes
/// nothing to any counter.
pub open spec fn denied(name: Seq<u8>) -> bool {
    ||| name == str_bytes("calldatasize_d4g0v0_Istanbul"@)
    ||| name == str_bytes("calldatasize_d4g0v0_Berlin"@)
    ||| name == str_bytes("calldatasize_d4g0v0_London"@)
    ||| name == str_bytes("calldatasize_d4g0v0_Merge"@)
    ||| name == str_bytes("dup_d8g0v0_Berlin"@)
    ||| name == str_bytes("dup_d8g0v0_Istanbul"@)
    ||| name == str_bytes("dup_d8g0v0_London"@)
    ||| name == str_bytes("dup_d8g0v0_Merge"@)
    ||| name == str_bytes("push_d8g0v0_Berlin"@)
    ||| name == str_bytes("push_d8g0v0_Istanbul"@)
    ||| name == str_bytes("push_d8g0v0_London"@)
    ||| name == str_bytes("push_d8g0v0_Merge"@)
    ||| name == str_bytes("sha3_d8g0v0_Berlin"@)
    ||| name == str_bytes("sha3_d8g0v0_Istanbul"@)
    ||| name == str_bytes("sha3_d8g0v0_London"@)
    ||| name == str_bytes("sha3_d8g0v0_Merge"@)
    ||| name == str_bytes("swap_d8g0v0_Berlin"@)
    ||| name == str_bytes("swap_d8g0v0_Istanbul"@)
    ||| name == str_bytes("swap_d8g0v0_London"@)
    ||| name == str_bytes("swap_d8g0v0_Merge"@)
}

/// Checks a case name against the static deny-list.
pub fn is_denied(name: &str) -> (r: bool)
    ensures
        r == denied(str_bytes(name@)),
{
    let b = name.as_bytes();
    bytes_eq(b, "calldatasize_d4g0v0_Istanbul".as_bytes()) || bytes_eq(
        b,
        "calldatasize_d4g0v0_Berlin".as_bytes(),
    ) || bytes_eq(b, "calldatasize_d4g0v0_London".as_bytes()) || bytes_eq(
        b,
        "calldatasize_d4g0v0_Merge".as_bytes(),
    ) || bytes_eq(b, "dup_d8g0v0_Berlin".as_bytes()) || bytes_eq(
        b,
        "dup_d8g0v0_Istanbul".as_bytes(),
    ) || bytes_eq(b, "dup_d8g0v0_London".as_bytes()) || bytes_eq(b, "dup_d8g0v0_Merge".as_bytes())
        || bytes_eq(b, "push_d8g0v0_Berlin".as_bytes()) || bytes_eq(
        b,
        "push_d8g0v0_Istanbul".as_bytes(),
    ) || bytes_eq(b, "push_d8g0v0_London".as_bytes()) || bytes_eq(b, "push_d8g0v0_Merge".as_bytes())
        || bytes_eq(b, "sha3_d8g0v0_Berlin".as_bytes()) || bytes_eq(
        b,
        "sha3_d8g0v0_Istanbul".as_bytes(),
    ) || bytes_eq(b, "sha3_d8g0v0_London".as_bytes()) || bytes_eq(b, "sha3_d8g0v0_Merge".as_bytes())
        || bytes_eq(b, "swap_d8g0v0_Berlin".as_bytes()) || bytes_eq(
        b,
        "swap_d8g0v0_Istanbul".as_bytes(),
    ) || bytes_eq(b, "swap_d8g0v0_London".as_bytes()) || bytes_eq(b, "swap_d8g0v0_Merge".as_bytes())
}

/// Whether a case is executed: it must not be deny-listed, and with a
/// non-empty filter its name must equal the filter.
pub open spec fn selected(name: Seq<char>, filter: Seq<char>) -> bool {
    !denied(str_bytes(name)) && (filter.len() == 0 || str_bytes(name) == str_bytes(filter))
}

/// Whether the deny-list and filter together select no case at all: on
/// such a fixture nothing executes, so no engine method is ever invoked.
pub open spec fn none_selected(cs: Seq<(Seq<char>, TestCaseV)>, filter: Seq<char>) -> bool {
    forall|i: int| 0 <= i < cs.len() ==> !selected(cs[i].0, filter)
}

/// The number of expected accounts the selected cases of a fixture hold:
/// what `total` must come to.
pub open spec fn fixture_total(cs: Seq<(Seq<char>, TestCaseV)>, filter: Seq<char>) -> nat
    decreases cs.len(),
{
    if cs.len() == 0 {
        0
    } else {
        fixture_total(cs.drop_last(), filter) + (if selected(cs.last().0, filter) {
            cs.last().1.post_state.len()
        } else {
            0
        })
    }
}

/// The number of skips the selected cases of a fixture must produce: per
/// case, its expected accounts at its own coinbase, when `skip_coinbase`
/// is set.
pub open spec fn fixture_skips(
    cs: Seq<(Seq<char>, TestCaseV)>,
    filter: Seq<char>,
    skip_coinbase: bool,
) -> nat
    decreases cs.len(),
{
    if cs.len() == 0 {
        0
    } else {
        fixture_skips(cs.drop_last(), filter, skip_coinbase) + (if selected(cs.last().0, filter) {
            count_skips(
                cs.last().1.post_state,
                cs.last().1.genesis_block_header.coinbase,
                skip_coinbase,
            )
        } else {
            0
        })
    }
}

/// A skip count never exceeds the number of accounts counted.
proof fn lemma_count_skips_le(accounts: Seq<(Seq<u8>, crate::model::AccountStateV)>, coinbase: Seq<u8>, skip_coinbase: bool)
    ensures
        count_skips(accounts, coinbase, skip_coinbase) <= accounts.len(),
    decreases accounts.len(),
{
    if accounts.len() > 0 {
        lemma_count_skips_le(accounts.drop_last(), coinbase, skip_coinbase);
    }
}

/// A fixture's skip count never exceeds its total.
proof fn lemma_fixture_skips_le_total(
    cs: Seq<(Seq<char>, TestCaseV)>,
    filter: Seq<char>,
    skip_coinbase: bool,
)
    ensures
        fixture_skips(cs, filter, skip_coinbase) <= fixture_total(cs, filter),
    decreases cs.len(),
{
    if cs.len() > 0 {
        lemma_fixture_skips_le_total(cs.drop_last(), filter, skip_coinbase);
        lemma_count_skips_le(
            cs.last().1.post_state,
            cs.last().1.genesis_block_header.coinbase,
            skip_coinbase,
        );
    }
}

/// A prefix of a fixture never counts more than the whole fixture.
proof fn lemma_fixture_total_prefix(cs: Seq<(Seq<char>, TestCaseV)>, filter: Seq<char>, k: int)
    requires
        0 <= k <= cs.len(),
    ensures
        fixture_total(cs.take(k), filter) <= fixture_total(cs, filter),
    decreases cs.len() - k,
{
    if k == cs.len() {
        assert(cs.take(k) =~= cs);
    } else {
        lemma_fixture_total_prefix(cs.drop_last(), filter, k);
        assert(cs.drop_last().take(k) =~= cs.take(k));
    }
}

/// Deny-listed case names are never executed, whatever the filter says, and
/// contribute nothing to any counter: inserting such a case anywhere in a
/// fixture leaves every count as it was.
pub proof fn lemma_denied_contributes_nothing(
    cs: Seq<(Seq<char>, TestCaseV)>,
    name: Seq<char>,
    c: TestCaseV,
    filter: Seq<char>,
    skip_coinbase: bool,
    i: int,
)
    requires
        denied(str_bytes(name)),
        0 <= i <= cs.len(),
    ensures
        !selected(name, filter),
        fixture_total(cs.insert(i, (name, c)), filter) == fixture_total(cs, filter),
        fixture_skips(cs.insert(i, (name, c)), filter, skip_coinbase) == fixture_skips(
            cs,
            filter,
            skip_coinbase,
        ),
    decreases cs.len(),
{
    let cs2 = cs.insert(i, (name, c));
    if i == cs.len() {
        assert(cs2.drop_last() =~= cs);
        assert(cs2.last() == (name, c));
    } else {
        assert(cs2.last() == cs.last());
        assert(cs2.drop_last() =~= cs.drop_last().insert(i, (name, c)));
        lemma_denied_contributes_nothing(cs.drop_last(), name, c, filter, skip_coinbase, i);
    }
}

/// A fixture in which the deny-list and filter select nothing counts zero
/// everywhere: nothing executes, nothing is scored.
pub proof fn lemma_none_selected_counts_zero(
    cs: Seq<(Seq<char>, TestCaseV)>,
    filter: Seq<char>,
    skip_coinbase: bool,
)
    requires
        none_selected(cs, filter),
    ensures
        fixture_total(cs, filter) == 0,
        fixture_skips(cs, filter, skip_coinbase) == 0,
    decreases cs.len(),
{
    if cs.len() > 0 {
        assert(!selected(cs[cs.len() - 1].0, filter));
        assert forall|i: int| 0 <= i < cs.drop_last().len() implies !selected(
            cs.drop_last()[i].0,
            filter,
        ) by {
            assert(cs.drop_last()[i] == cs[i]);
        }
        lemma_none_selected_counts_zero(cs.drop_last(), filter, skip_coinbase);
    }
}

/// A non-empty filter that matches no case name selects nothing: the whole
/// fixture counts zero.
pub proof fn lemma_filter_unmatched_runs_nothing(
    cs: Seq<(Seq<char>, TestCaseV)>,
    filter: Seq<char>,
    skip_coinbase: bool,
)
    requires
        filter.len() != 0,
        forall|i: int| 0 <= i < cs.len() ==> str_bytes(cs[i].0) != str_bytes(filter),
    ensures
        fixture_total(cs, filter) == 0,
        fixture_skips(cs, filter, skip_coinbase) == 0,
    decreases cs.len(),
{
    if cs.len() > 0 {
        assert(cs.last() == cs[cs.len() - 1]);
        lemma_filter_unmatched_runs_nothing(cs.drop_last(), filter, skip_coinbase);
    }
}

/// The ghost log a fully applied case leaves on the engine: the fork, the
/// pre-state batch, a priming application of the first block's header, then
/// every block (header first, then its transactions, in order).
///
/// The priming step deliberately repeats the first block's header: the
/// protocol applies it once on its own and then again as part of applying
/// the blocks in sequence. The repetition is kept as the harness's fixed,
/// documented sequencing; with no blocks there is nothing to prime.
pub open spec fn drive_ops(
    network: NetworkType,
    pre: Seq<(Seq<u8>, crate::model::AccountStateV)>,
    blocks: Seq<Block>,
) -> Seq<Op> {
    seq![Op::Net(network), Op::Accounts(pre)] + (if blocks.len() > 0 {
        seq![Op::Header(blocks[0].block_header@)]
    } else {
        Seq::empty()
    }) + blocks_ops(blocks)
}

/// Drives one case's data into a fresh engine, in the fixed order; the
/// first failure aborts the case.
fn drive_case<State: TestEvmState>(
    network: NetworkType,
    pre: &Vec<(H160, AccountState)>,
    blocks: Vec<Block>,
) -> (r: Result<State, ApplyError>)
    ensures
        r matches Ok(st) ==> st.ops() == drive_ops(network, batch_v(pre@), blocks@),
{
    let state = State::init_state();
    let state = match state.try_apply_network_type(network) {
        Ok(s) => s,
        Err(e) => {
            return Err(e);
        },
    };
    let state = match state.try_apply_accounts(pre) {
        Ok(s) => s,
        Err(e) => {
            return Err(e);
        },
    };
    let state = if blocks.len() > 0 {
        match state.try_apply_block_header(&blocks[0].block_header) {
            Ok(s) => s,
            Err(e) => {
                return Err(e);
            },
        }
    } else {
        state
    };
    let ghost before = state.ops();
    let state = match state.try_apply_blocks(blocks) {
        Ok(s) => s,
        Err(e) => {
            return Err(e);
        },
    };
    proof {
        assert(state.ops() =~= drive_ops(network, batch_v(pre@), blocks@));
    }
    Ok(state)
}

/// Runs one decoded case: drives it through a fresh engine and scores every
/// expected account. An `ApplyError` is fatal: no partial scoring.
fn run_case<State: TestEvmState>(case: TestCase, skip_coinbase: bool) -> (r: Result<
    (TestNum, Vec<String>),
    ApplyError,
>)
    ensures
        r matches Ok(p) ==> p.0.total == case@.post_state.len() && p.0.skipped == count_skips(
            case@.post_state,
            case@.genesis_block_header.coinbase,
            skip_coinbase,
        ) && p.0.failed == p.1@.len() && p.0.wf(),
{
    let TestCase { pre, network, genesis_block_header, blocks, post_state } = case;
    let coinbase = genesis_block_header.coinbase;
    let state: State = match drive_case(network, &pre, blocks) {
        Ok(s) => s,
        Err(e) => {
            return Err(e);
        },
    };
    let (num, diags) = state.validate_accounts(&post_state, coinbase, skip_coinbase);
    proof {
        assert(batch_v(post_state@) =~= case@.post_state);
    }
    Ok((num, diags))
}

/// Runs the decoded cases of one fixture in document order, selecting by
/// deny-list and filter, and aggregates their counters and diagnostics.
#[verifier::rlimit(100)]
pub fn run_cases<State: TestEvmState>(
    cases: Vec<(String, TestCase)>,
    single_case: &str,
    skip_coinbase: bool,
) -> (r: Result<(TestNum, Vec<String>), ApplyError>)
    requires
        fixture_total(cases_v(cases@), single_case@) <= usize::MAX,
    ensures
        r matches Ok(p) ==> p.0.total == fixture_total(cases_v(cases@), single_case@)
            && p.0.skipped == fixture_skips(cases_v(cases@), single_case@, skip_coinbase)
            && p.0.failed == p.1@.len() && p.0.wf(),
        none_selected(cases_v(cases@), single_case@) ==> r matches Ok(_),
{
    let ghost all = cases_v(cases@);
    let mut rest = cases;
    let mut num = TestNum::new();
    let mut diags: Vec<String> = Vec::new();
    let ghost done: int = 0;
    while rest.len() > 0
        invariant
            all == cases_v(cases@),
            0 <= done <= all.len(),
            cases_v(rest@) =~= all.skip(done),
            fixture_total(all, single_case@) <= usize::MAX,
            num.total == fixture_total(all.take(done), single_case@),
            num.skipped == fixture_skips(all.take(done), single_case@, skip_coinbase),
            num.failed == diags@.len(),
            num.failed + num.skipped <= num.total,
        decreases rest@.len(),
    {
        assert(cases_v(rest@).len() == rest@.len());
        let ghost prev = rest@;
        let (name, case) = rest.remove(0);
        proof {
            assert(rest@ =~= prev.drop_first());
            assert(cases_v(prev)[0] == all.skip(done)[0]);
            assert((name@, case@) == all[done]);
            assert forall|j: int| 0 <= j < cases_v(rest@).len() implies cases_v(rest@)[j] == all[
                done + 1 + j
            ] by {
                assert(rest@[j] == prev[j + 1]);
                assert(cases_v(prev)[j + 1] == all.skip(done)[j + 1]);
            }
            assert(cases_v(rest@) =~= all.skip(done + 1));
            assert(all.take(done + 1).drop_last() =~= all.take(done));
            assert(all.take(done + 1).last() == all[done]);
            lemma_fixture_total_prefix(all, single_case@, done + 1);
            lemma_fixture_skips_le_total(all.take(done + 1), single_case@, skip_coinbase);
        }
        let chosen = !is_denied(name.as_str()) && (single_case.is_empty() || bytes_eq(
            name.as_str().as_bytes(),
            single_case.as_bytes(),
        ));
        assert(chosen == selected(name@, single_case@));
        if chosen {
            proof {
                assert(selected(all[done].0, single_case@));
                assert(!none_selected(all, single_case@));
            }
            let (n, mut d) = match run_case::<State>(case, skip_coinbase) {
                Ok(p) => p,
                Err(e) => {
                    return Err(e);
                },
            };
            num.total += n.total;
            num.skipped += n.skipped;
            num.failed += n.failed;
            diags.append(&mut d);
        }
        proof {
            done = done + 1;
        }
    }
    proof {
        assert(all.take(done) =~= all);
    }
    Ok((num, diags))
}

/// Runs one fixture document: decodes it whole, then runs its cases. A
/// decode failure is fatal to the document; an engine failure is fatal to
/// the run.
pub fn run_evm_test<State: TestEvmState>(
    fixture: &RawFixture,
    single_case: &str,
    skip_coinbase: bool,
) -> (r: Result<(TestNum, Vec<String>), RunError>)
    requires
        s_fixture(fixture@) matches Ok(cs) ==> fixture_total(cs, single_case@) <= usize::MAX,
    ensures
        s_fixture(fixture@) matches Err(e) ==> r matches Err(re) && re matches RunError::Decode(de)
            && err_v(de) == e,
        s_fixture(fixture@) matches Ok(cs) ==> (r matches Ok(p) ==> p.0.total == fixture_total(
            cs,
            single_case@,
        ) && p.0.skipped == fixture_skips(cs, single_case@, skip_coinbase) && p.0.failed
            == p.1@.len() && p.0.wf()) && (r matches Err(re) ==> re matches RunError::Apply(_)),
        s_fixture(fixture@) matches Ok(cs) && none_selected(cs, single_case@) ==> r matches Ok(_),
{
    let cases = match decode_fixture(fixture) {
        Ok(cs) => cs,
        Err(e) => {
            return Err(RunError::Decode(e));
        },
    };
    match run_cases::<State>(cases, single_case, skip_coinbase) {
        Ok(p) => Ok(p),
        Err(e) => Err(RunError::Apply(e)),
    }
}

/// Runs a single fixture document, optionally restricted to one named
/// case, and reports its counters and collected diagnostics.
pub fn run_single_test<State: TestEvmState>(
    fixture: &RawFixture,
    single_case: &str,
    skip_coinbase: bool,
) -> (r: Result<(TestNum, Vec<String>), RunError>)
    requires
        s_fixture(fixture@) matches Ok(cs) ==> fixture_total(cs, single_case@) <= usize::MAX,
    ensures
        s_fixture(fixture@) matches Err(e) ==> r matches Err(re) && re matches RunError::Decode(de)
            && err_v(de) == e,
        s_fixture(fixture@) matches Ok(cs) ==> (r matches Ok(p) ==> p.0.total == fixture_total(
            cs,
            single_case@,
        ) && p.0.skipped == fixture_skips(cs, single_case@, skip_coinbase) && p.0.failed
            == p.1@.len() && p.0.wf()) && (r matches Err(re) ==> re matches RunError::Apply(_)),
        s_fixture(fixture@) matches Ok(cs) && none_selected(cs, single_case@) ==> r matches Ok(_),
{
    run_evm_test::<State>(fixture, single_case, skip_coinbase)
}

/// What one fixture of a bundle contributes to the grand total: its
/// fixture total when it decodes, nothing when it does not (the run stops
/// there instead).
pub open spec fn bundle_total(fs: Seq<RawFixture>) -> nat
    decreases fs.len(),
{
    if fs.len() == 0 {
        0
    } else {
        bundle_total(fs.drop_last()) + (match s_fixture(fs.last().view()) {
            Ok(cs) => fixture_total(cs, Seq::<char>::empty()),
            Err(_) => 0,
        })
    }
}

/// What one fixture of a bundle contributes to the grand skip count.
pub open spec fn bundle_skips(fs: Seq<RawFixture>, skip_coinbase: bool) -> nat
    decreases fs.len(),
{
    if fs.len() == 0 {
        0
    } else {
        bundle_skips(fs.drop_last(), skip_coinbase) + (match s_fixture(fs.last().view()) {
            Ok(cs) => fixture_skips(cs, Seq::<char>::empty(), skip_coinbase),
            Err(_) => 0,
        })
    }
}

/// A prefix of a bundle never counts more than the whole bundle.
proof fn lemma_bundle_total_prefix(fs: Seq<RawFixture>, k: int)
    requires
        0 <= k <= fs.len(),
    ensures
        bundle_total(fs.take(k)) <= bundle_total(fs),
    decreases fs.len() - k,
{
    if k == fs.len() {
        assert(fs.take(k) =~= fs);
    } else {
        lemma_bundle_total_prefix(fs.drop_last(), k);
        assert(fs.drop_last().take(k) =~= fs.take(k));
    }
}

/// A bundle's skip count never exceeds its total.
proof fn lemma_bundle_skips_le_total(fs: Seq<RawFixture>, skip_coinbase: bool)
    ensures
        bundle_skips(fs, skip_coinbase) <= bundle_total(fs),
    decreases fs.len(),
{
    if fs.len() > 0 {
        lemma_bundle_skips_le_total(fs.drop_last(), skip_coinbase);
        match s_fixture(fs.last().view()) {
            Ok(cs) => {
                lemma_fixture_skips_le_total(cs, Seq::<char>::empty(), skip_coinbase);
            },
            Err(_) => {},
        }
    }
}

/// Runs a bundle of fixture documents with no name filter, aggregating
/// counters and diagnostics across all of them; the first decode or engine
/// failure aborts the bundle.
pub fn run_tests<State: TestEvmState>(fixtures: &Vec<RawFixture>, skip_coinbase: bool) -> (r:
    Result<(TestNum, Vec<String>), RunError>)
    requires
        bundle_total(fixtures@) <= usize::MAX,
    ensures
        r matches Ok(p) ==> p.0.total == bundle_total(fixtures@) && p.0.skipped == bundle_skips(
            fixtures@,
            skip_coinbase,
        ) && p.0.failed == p.1@.len() && p.0.wf(),
        (forall|j: int|
            #![trigger fixtures@[j]]
            0 <= j < fixtures@.len() ==> (s_fixture(fixtures@[j]@) matches Ok(cs)
                && none_selected(cs, Seq::<char>::empty()))) ==> r matches Ok(_),
{
    let mut num = TestNum::new();
    let mut diags: Vec<String> = Vec::new();
    let mut i: usize = 0;
    let empty_filter = "";
    proof {
        reveal_strlit("");
    }
    while i < fixtures.len()
        invariant
            i <= fixtures@.len(),
            empty_filter@ == Seq::<char>::empty(),
            bundle_total(fixtures@) <= usize::MAX,
            num.total == bundle_total(fixtures@.take(i as int)),
            num.skipped == bundle_skips(fixtures@.take(i as int), skip_coinbase),
            num.failed == diags@.len(),
            num.failed + num.skipped <= num.total,
        decreases fixtures@.len() - i,
    {
        proof {
            assert(fixtures@.take(i + 1).drop_last() =~= fixtures@.take(i as int));
            assert(fixtures@.take(i + 1).last() == fixtures@[i as int]);
            lemma_bundle_total_prefix(fixtures@, i + 1);
            lemma_bundle_skips_le_total(fixtures@.take(i + 1), skip_coinbase);
            match s_fixture(fixtures@[i as int]@) {
                Ok(cs) => {
                    lemma_fixture_total_prefix(cs, Seq::<char>::empty(), cs.len() as int);
                },
                Err(_) => {},
            }
        }
        let (n, mut d) = match run_evm_test::<State>(&fixtures[i], empty_filter, skip_coinbase) {
            Ok(p) => p,
            Err(e) => {
                proof {
                    if forall|j: int|
                        #![trigger fixtures@[j]]
                        0 <= j < fixtures@.len() ==> (s_fixture(fixtures@[j]@) matches Ok(cs)
                            && none_selected(cs, Seq::<char>::empty())) {
                        assert(s_fixture(fixtures@[i as int]@) matches Ok(cs) && none_selected(
                            cs,
                            Seq::<char>::empty(),
                        ));
                        assert(false);
                    }
                }
                return Err(e);
            },
        };
        num.total += n.total;
        num.skipped += n.skipped;
        num.failed += n.failed;
        diags.append(&mut d);
        i += 1;
    }
    proof {
        assert(fixtures@.take(i as int) =~= fixtures@);
    }
    Ok((num, diags))
}

} // verus!
