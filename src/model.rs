use vstd::prelude::*;
use crate::ledger::{balance_of, fits_i32, members_unique, mint_result, total_of};
use crate::types::{Address, Bytes32, Error, Holding, Proposal, ProposalInstr, ProposalVote, Val};

verus! {

/// Length of the bootstrap window in seconds: seven days.
pub const BOOTSTRAP_SECS: u64 = 3600 * 24 * 7;

/// The whole store of the engine, as mathematical values.
pub struct DaoState {
    /// The administrator, once initialized.
    pub admin: Option<Address>,
    /// One holding per member ever credited.
    pub holdings: Seq<Holding>,
    /// The total supply.
    pub total: int,
    /// The end of the bootstrap window (exclusive).
    pub bootstrap_end: u64,
    /// The proposals; a proposal's identifier is its position.
    pub proposals: Seq<Proposal>,
    /// The vote records, in the order they were written.
    pub voted: Seq<ProposalVote>,
}

/// Members are unique and the total supply is the sum of all balances.
pub open spec fn state_wf(s: DaoState) -> bool {
    &&& members_unique(s.holdings)
    &&& s.total == total_of(s.holdings)
}

/// The state before any operation.
pub open spec fn fresh_state() -> DaoState {
    DaoState {
        admin: None,
        holdings: Seq::empty(),
        total: 0,
        bootstrap_end: 0,
        proposals: Seq::empty(),
        voted: Seq::empty(),
    }
}

/// `s` with the ledger replaced.
pub open spec fn with_ledger(s: DaoState, h: Seq<Holding>, t: int) -> DaoState {
    DaoState { holdings: h, total: t, ..s }
}

/// Initialization: the first call makes the caller administrator, mints one
/// share to it and opens the bootstrap window; later calls change nothing.
pub open spec fn init_next(s: DaoState, caller: Address, now: u64) -> Result<DaoState, Error> {
    if s.admin.is_some() {
        Ok(s)
    } else if now + BOOTSTRAP_SECS > u64::MAX {
        Err(Error::Overflow)
    } else {
        match mint_result(s.holdings, s.total, 1, caller) {
            Ok((h, t)) => Ok(
                DaoState {
                    admin: Some(caller),
                    bootstrap_end: (now + BOOTSTRAP_SECS) as u64,
                    ..with_ledger(s, h, t)
                },
            ),
            Err(e) => Err(e),
        }
    }
}

/// Minting by the administrator while the bootstrap window is open.
pub open spec fn x_shares_next(
    s: DaoState,
    caller: Address,
    now: u64,
    amount: i32,
    to: Address,
) -> Result<DaoState, Error> {
    if s.admin != Some(caller) {
        Err(Error::Unauthorized)
    } else if now >= s.bootstrap_end {
        Err(Error::BootstrapExpired)
    } else {
        match mint_result(s.holdings, s.total, amount as int, to) {
            Ok((h, t)) => Ok(with_ledger(s, h, t)),
            Err(e) => Err(e),
        }
    }
}

/// Submission: a proposal without votes is stored under the next identifier.
pub open spec fn c_prop_next(s: DaoState, p: Proposal) -> Result<DaoState, Error> {
    if p.tot_votes != 0 {
        Err(Error::InvalidProposal)
    } else if s.proposals.len() > u32::MAX {
        Err(Error::Overflow)
    } else {
        Ok(DaoState { proposals: s.proposals.push(p), ..s })
    }
}

/// Whether `voter` has voted on proposal `id`.
pub open spec fn has_voted(s: DaoState, voter: Address, id: u32) -> bool {
    s.voted.contains(ProposalVote { voter, prop_id: id })
}

/// `p` with its tally set to `w`.
pub open spec fn with_votes(p: Proposal, w: i32) -> Proposal {
    Proposal { tot_votes: w, end_time: p.end_time, instr: p.instr }
}

/// A vote: the caller's current balance is added to the tally of an
/// unexpired proposal it has not voted on, and the vote is recorded.
pub open spec fn vote_next(s: DaoState, caller: Address, now: u64, id: u32) -> Result<
    DaoState,
    Error,
> {
    if id >= s.proposals.len() {
        Err(Error::ProposalNotFound)
    } else if now >= s.proposals[id as int].end_time {
        Err(Error::ProposalExpired)
    } else if has_voted(s, caller, id) {
        Err(Error::DuplicateVote)
    } else {
        let p = s.proposals[id as int];
        let w = p.tot_votes + balance_of(s.holdings, caller);
        if !fits_i32(w) {
            Err(Error::Overflow)
        } else {
            Ok(
                DaoState {
                    proposals: s.proposals.update(id as int, with_votes(p, w as i32)),
                    voted: s.voted.push(ProposalVote { voter: caller, prop_id: id }),
                    ..s
                },
            )
        }
    }
}

/// A strict majority of the total supply.
pub open spec fn quorum_met(votes: int, total: int) -> bool {
    2 * votes > total
}

/// The name of the one local operation.
pub open spec fn add_shares_name() -> Seq<char> {
    "add_shares"@
}

/// The effect of one instruction on the ledger. An instruction for another
/// component leaves it as it is; a local one must be `add_shares` with an
/// `i32` amount and an address.
pub open spec fn instr_result(
    h: Seq<Holding>,
    t: int,
    ins: ProposalInstr,
    self_id: Bytes32,
) -> Result<(Seq<Holding>, int), Error> {
    if ins.c_id != self_id {
        Ok((h, t))
    } else if ins.fun_name@ != add_shares_name() {
        Err(Error::UnknownInstruction)
    } else if ins.args@.len() != 2 {
        Err(Error::InvalidArgument)
    } else {
        match (ins.args@[0], ins.args@[1]) {
            (Val::I32(a), Val::Address(to)) => mint_result(h, t, a as int, to),
            _ => Err(Error::InvalidArgument),
        }
    }
}

/// The effect of a sequence of instructions, in order; the first failure
/// ends the run.
pub open spec fn run_instrs(
    h: Seq<Holding>,
    t: int,
    instrs: Seq<ProposalInstr>,
    self_id: Bytes32,
) -> Result<(Seq<Holding>, int), Error>
    decreases instrs.len(),
{
    if instrs.len() == 0 {
        Ok((h, t))
    } else {
        match run_instrs(h, t, instrs.drop_last(), self_id) {
            Ok((h1, t1)) => instr_result(h1, t1, instrs.last(), self_id),
            Err(e) => Err(e),
        }
    }
}

/// The positions of the instructions addressed to other components.
pub open spec fn forwarded(instrs: Seq<ProposalInstr>, self_id: Bytes32) -> Seq<usize>
    decreases instrs.len(),
{
    if instrs.len() == 0 {
        Seq::empty()
    } else {
        let r = forwarded(instrs.drop_last(), self_id);
        if instrs.last().c_id != self_id {
            r.push((instrs.len() - 1) as usize)
        } else {
            r
        }
    }
}

/// Execution: an existing, unexpired proposal with a strict majority runs its
/// local instructions against the ledger, all of them or none.
pub open spec fn execute_next(s: DaoState, now: u64, self_id: Bytes32, id: u32) -> Result<
    DaoState,
    Error,
> {
    if id >= s.proposals.len() {
        Err(Error::ProposalNotFound)
    } else if now >= s.proposals[id as int].end_time {
        Err(Error::ProposalExpired)
    } else if !quorum_met(s.proposals[id as int].tot_votes as int, s.total) {
        Err(Error::QuorumNotMet)
    } else {
        match run_instrs(s.holdings, s.total, s.proposals[id as int].instr@, self_id) {
            Ok((h, t)) => Ok(with_ledger(s, h, t)),
            Err(e) => Err(e),
        }
    }
}

/// The state after an operation whose outcome is `next`: the new state on
/// success, the old one on failure.
pub open spec fn after(s: DaoState, next: Result<DaoState, Error>) -> DaoState {
    match next {
        Ok(s2) => s2,
        Err(_) => s,
    }
}

/// What an operation that returns nothing reports for the outcome `next`.
pub open spec fn unit_result(next: Result<DaoState, Error>) -> Result<(), Error> {
    match next {
        Ok(_) => Ok(()),
        Err(e) => Err(e),
    }
}

} // verus!
