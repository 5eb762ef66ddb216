use vstd::prelude::*;
use crate::ledger::{
    balance_of, lemma_slot, lemma_with_balance, members_unique, mint_result, total_of,
};
use crate::model::{
    after, c_prop_next, execute_next, fresh_state, init_next, quorum_met, run_instrs, state_wf,
    vote_next, with_ledger, x_shares_next, DaoState,
};
use crate::types::{Address, Bytes32, Error, Holding, Proposal, ProposalInstr, ProposalVote};

verus! {

/// The members ever credited, in the order they were first credited.
pub open spec fn members_of(h: Seq<Holding>) -> Seq<Address> {
    h.map_values(|x: Holding| x.member)
}

/// The sum of the balances of the members `ms`.
pub open spec fn sum_balances(h: Seq<Holding>, ms: Seq<Address>) -> int
    decreases ms.len(),
{
    if ms.len() == 0 {
        0
    } else {
        sum_balances(h, ms.drop_last()) + balance_of(h, ms.last())
    }
}

proof fn lemma_sum_prefix(h: Seq<Holding>, k: int)
    requires
        members_unique(h),
        0 <= k <= h.len(),
    ensures
        sum_balances(h, members_of(h).take(k)) == total_of(h.take(k)),
    decreases k,
{
    if k > 0 {
        lemma_sum_prefix(h, k - 1);
        assert(members_of(h).take(k).drop_last() =~= members_of(h).take(k - 1));
        assert(h.take(k).drop_last() =~= h.take(k - 1));
        lemma_slot(h, h[k - 1].member, k - 1);
    }
}

/// In a well-formed state the total supply is the sum of the balances of all
/// members ever credited.
pub proof fn lemma_supply_is_sum_of_balances(s: DaoState)
    requires
        state_wf(s),
    ensures
        s.total == sum_balances(s.holdings, members_of(s.holdings)),
{
    lemma_sum_prefix(s.holdings, s.holdings.len() as int);
    assert(members_of(s.holdings).take(s.holdings.len() as int) =~= members_of(s.holdings));
    assert(s.holdings.take(s.holdings.len() as int) =~= s.holdings);
}

proof fn lemma_mint_wf(h: Seq<Holding>, t: int, amount: int, to: Address)
    requires
        members_unique(h),
        t == total_of(h),
    ensures
        match mint_result(h, t, amount, to) {
            Ok((h2, t2)) => members_unique(h2) && t2 == total_of(h2),
            Err(_) => true,
        },
{
    let b = balance_of(h, to) + amount;
    if i32::MIN <= b <= i32::MAX {
        lemma_with_balance(h, to, b as i32);
    }
}

proof fn lemma_run_wf(h: Seq<Holding>, t: int, instrs: Seq<ProposalInstr>, self_id: Bytes32)
    requires
        members_unique(h),
        t == total_of(h),
    ensures
        match run_instrs(h, t, instrs, self_id) {
            Ok((h2, t2)) => members_unique(h2) && t2 == total_of(h2),
            Err(_) => true,
        },
    decreases instrs.len(),
{
    if instrs.len() > 0 {
        lemma_run_wf(h, t, instrs.drop_last(), self_id);
        match run_instrs(h, t, instrs.drop_last(), self_id) {
            Ok((h1, t1)) => {
                let ins = instrs.last();
                if ins.c_id == self_id && ins.args@.len() == 2 {
                    match (ins.args@[0], ins.args@[1]) {
                        (crate::types::Val::I32(a), crate::types::Val::Address(to)) => {
                            lemma_mint_wf(h1, t1, a as int, to);
                        },
                        _ => {},
                    }
                }
            },
            Err(_) => {},
        }
    }
}

/// The total supply equals the sum of all balances in every reachable state:
/// it holds of the initial state, and every operation, whether it succeeds
/// or fails, keeps it.
pub proof fn lemma_operations_keep_supply(
    s: DaoState,
    caller: Address,
    now: u64,
    amount: i32,
    to: Address,
    p: Proposal,
    id: u32,
    self_id: Bytes32,
)
    requires
        state_wf(s),
    ensures
        state_wf(fresh_state()),
        state_wf(after(s, init_next(s, caller, now))),
        state_wf(after(s, x_shares_next(s, caller, now, amount, to))),
        state_wf(after(s, c_prop_next(s, p))),
        state_wf(after(s, vote_next(s, caller, now, id))),
        state_wf(after(s, execute_next(s, now, self_id, id))),
{
    lemma_mint_wf(s.holdings, s.total, 1, caller);
    lemma_mint_wf(s.holdings, s.total, amount as int, to);
    if id < s.proposals.len() {
        lemma_run_wf(s.holdings, s.total, s.proposals[id as int].instr@, self_id);
    }
}

/// Only the administrator may mint during bootstrap, and nobody once the
/// window has closed: another caller is refused as unauthorized, the
/// administrator as too late.
pub proof fn lemma_bootstrap_gate(s: DaoState, caller: Address, now: u64, amount: i32, to: Address)
    ensures
        s.admin != Some(caller) ==> x_shares_next(s, caller, now, amount, to) == Err::<
            DaoState,
            Error,
        >(Error::Unauthorized),
        s.admin == Some(caller) && now >= s.bootstrap_end ==> x_shares_next(
            s,
            caller,
            now,
            amount,
            to,
        ) == Err::<DaoState, Error>(Error::BootstrapExpired),
        now >= s.bootstrap_end ==> x_shares_next(s, caller, now, amount, to).is_err(),
{
}

/// Once initialization has succeeded, any later initialization, by any caller
/// at any time, changes nothing: administrator, balances and bootstrap
/// deadline stay as the first call set them.
pub proof fn lemma_init_idempotent(
    s: DaoState,
    caller1: Address,
    now1: u64,
    caller2: Address,
    now2: u64,
)
    requires
        init_next(s, caller1, now1).is_ok(),
    ensures
        init_next(init_next(s, caller1, now1).unwrap(), caller2, now2) == init_next(
            s,
            caller1,
            now1,
        ),
{
}

/// Execution needs a strict majority: a tally of exactly half the total
/// supply is refused, one more than half passes the quorum gate.
pub proof fn lemma_quorum_boundary(s: DaoState, now: u64, self_id: Bytes32, id: u32)
    requires
        id < s.proposals.len(),
        now < s.proposals[id as int].end_time,
    ensures
        2 * s.proposals[id as int].tot_votes == s.total ==> execute_next(s, now, self_id, id)
            == Err::<DaoState, Error>(Error::QuorumNotMet),
        s.proposals[id as int].tot_votes == s.total / 2 + 1 ==> execute_next(s, now, self_id, id)
            == match run_instrs(s.holdings, s.total, s.proposals[id as int].instr@, self_id) {
            Ok((h, t)) => Ok(with_ledger(s, h, t)),
            Err(e) => Err(e),
        },
{
}

/// A proposal expires at its end time itself: voting and execution are
/// refused when the time equals it, and execution of a proposal with a
/// majority passes the deadline gate one second earlier.
pub proof fn lemma_expiry_boundary(s: DaoState, caller: Address, self_id: Bytes32, id: u32)
    requires
        id < s.proposals.len(),
    ensures
        vote_next(s, caller, s.proposals[id as int].end_time, id) == Err::<DaoState, Error>(
            Error::ProposalExpired,
        ),
        execute_next(s, s.proposals[id as int].end_time, self_id, id) == Err::<DaoState, Error>(
            Error::ProposalExpired,
        ),
        s.proposals[id as int].end_time > 0 && quorum_met(
            s.proposals[id as int].tot_votes as int,
            s.total,
        ) ==> execute_next(s, (s.proposals[id as int].end_time - 1) as u64, self_id, id)
            == match run_instrs(s.holdings, s.total, s.proposals[id as int].instr@, self_id) {
            Ok((h, t)) => Ok(with_ledger(s, h, t)),
            Err(e) => Err(e),
        },
{
}

/// A member's weight counts once per proposal: after a successful vote,
/// another vote by the same member on the same proposal is refused, as a
/// duplicate while the proposal is unexpired.
pub proof fn lemma_vote_counts_once(s: DaoState, caller: Address, now1: u64, now2: u64, id: u32)
    requires
        vote_next(s, caller, now1, id).is_ok(),
    ensures
        vote_next(vote_next(s, caller, now1, id).unwrap(), caller, now2, id).is_err(),
        now2 < s.proposals[id as int].end_time ==> vote_next(
            vote_next(s, caller, now1, id).unwrap(),
            caller,
            now2,
            id,
        ) == Err::<DaoState, Error>(Error::DuplicateVote),
{
    let s1 = vote_next(s, caller, now1, id).unwrap();
    assert(s1.voted.last() == (ProposalVote { voter: caller, prop_id: id }));
    assert(s1.proposals[id as int].end_time == s.proposals[id as int].end_time);
}

} // verus!
