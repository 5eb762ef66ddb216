use vstd::prelude::*;
use crate::ledger::{Ledger, balance_of, members_unique, total_of};
use crate::model::{
    add_shares_name, after, c_prop_next, execute_next, forwarded, fresh_state, has_voted, init_next, quorum_met,
    run_instrs, state_wf, unit_result, vote_next, x_shares_next, DaoState, BOOTSTRAP_SECS,
};
use crate::types::{Address, Bytes32, Error, Holding, Proposal, ProposalInstr, ProposalVote, Val};

verus! {

/// The governance engine: shares, proposals and vote records.
///
/// Each operation is one transaction: it either applies all of its effects or,
/// when it returns an error, leaves the engine exactly as it was.
pub struct DaoContract {
    admin: Option<Address>,
    ledger: Ledger,
    bootstrap_end: u64,
    proposals: Vec<Proposal>,
    voted: Vec<ProposalVote>,
}

impl View for DaoContract {
    type V = DaoState;

    closed spec fn view(&self) -> DaoState {
        DaoState {
            admin: self.admin,
            holdings: self.ledger.holdings(),
            total: self.ledger.total(),
            bootstrap_end: self.bootstrap_end,
            proposals: self.proposals@,
            voted: self.voted@,
        }
    }
}

proof fn lemma_run_err(
    h: Seq<Holding>,
    t: int,
    instrs: Seq<ProposalInstr>,
    self_id: Bytes32,
    k: int,
    e: Error,
)
    requires
        0 <= k <= instrs.len(),
        run_instrs(h, t, instrs.take(k), self_id) == Err::<(Seq<Holding>, int), Error>(e),
    ensures
        run_instrs(h, t, instrs, self_id) == Err::<(Seq<Holding>, int), Error>(e),
    decreases instrs.len() - k,
{
    if k < instrs.len() {
        assert(instrs.take(k + 1).drop_last() =~= instrs.take(k));
        lemma_run_err(h, t, instrs, self_id, k + 1, e);
    } else {
        assert(instrs.take(k) =~= instrs);
    }
}

impl DaoContract {
    /// Members are unique and the total supply is the sum of all balances.
    pub open spec fn wf(&self) -> bool {
        state_wf(self@)
    }

    /// An engine with no administrator, no members and no proposals.
    pub fn new() -> (r: DaoContract)
        ensures
            r.wf(),
            r@ == fresh_state(),
    {
        let r = DaoContract {
            admin: None,
            ledger: Ledger::new(),
            bootstrap_end: 0,
            proposals: Vec::new(),
            voted: Vec::new(),
        };
        assert(r@.proposals =~= Seq::<Proposal>::empty());
        assert(r@.voted =~= Seq::<ProposalVote>::empty());
        r
    }

    /// The engine holding the given store, when members are unique and
    /// `total` is the sum of the holdings.
    pub fn from_parts(
        admin: Option<Address>,
        holdings: Vec<Holding>,
        total: i32,
        bootstrap_end: u64,
        proposals: Vec<Proposal>,
        voted: Vec<ProposalVote>,
    ) -> (r: Option<DaoContract>)
        ensures
            match r {
                Some(d) => d.wf() && d@ == (DaoState {
                    admin,
                    holdings: holdings@,
                    total: total as int,
                    bootstrap_end,
                    proposals: proposals@,
                    voted: voted@,
                }),
                None => !(members_unique(holdings@) && total == total_of(holdings@)),
            },
    {
        match Ledger::from_holdings(holdings, total) {
            Some(ledger) => Some(DaoContract { admin, ledger, bootstrap_end, proposals, voted }),
            None => None,
        }
    }

    /// The store of this engine: administrator, holdings, total supply,
    /// bootstrap deadline, proposals and vote records.
    pub fn into_parts(self) -> (r: (
        Option<Address>,
        Vec<Holding>,
        i32,
        u64,
        Vec<Proposal>,
        Vec<ProposalVote>,
    ))
        ensures
            r.0 == self@.admin,
            r.1@ == self@.holdings,
            r.2 == self@.total,
            r.3 == self@.bootstrap_end,
            r.4@ == self@.proposals,
            r.5@ == self@.voted,
    {
        let total = self.ledger.total_supply();
        (self.admin, self.ledger.into_holdings(), total, self.bootstrap_end, self.proposals, self.voted)
    }

    /// Makes `caller` the administrator with one share and opens the bootstrap
    /// window until `now` plus seven days; does nothing once an administrator
    /// is set.
    pub fn init(&mut self, caller: Address, now: u64) -> (r: Result<(), Error>)
        requires
            old(self).wf(),
        ensures
            final(self).wf(),
            final(self)@ == after(old(self)@, init_next(old(self)@, caller, now)),
            r == unit_result(init_next(old(self)@, caller, now)),
    {
        if self.admin.is_some() {
            return Ok(());
        }
        if now > u64::MAX - BOOTSTRAP_SECS {
            return Err(Error::Overflow);
        }
        match self.ledger.mint(1, caller) {
            Ok(()) => {
                self.admin = Some(caller);
                self.bootstrap_end = now + BOOTSTRAP_SECS;
                Ok(())
            },
            Err(e) => Err(e),
        }
    }

    /// Mints `amount` shares (negative to burn) to `to`; only the
    /// administrator may, and only before the bootstrap window closes.
    pub fn x_shares(&mut self, caller: Address, now: u64, amount: i32, to: Address) -> (r: Result<
        (),
        Error,
    >)
        requires
            old(self).wf(),
        ensures
            final(self).wf(),
            final(self)@ == after(old(self)@, x_shares_next(old(self)@, caller, now, amount, to)),
            r == unit_result(x_shares_next(old(self)@, caller, now, amount, to)),
    {
        if self.admin != Some(caller) {
            return Err(Error::Unauthorized);
        }
        if now >= self.bootstrap_end {
            return Err(Error::BootstrapExpired);
        }
        self.ledger.mint(amount, to)
    }

    /// Stores a proposal that carries no votes and returns its identifier,
    /// the number of proposals stored before it.
    pub fn c_prop(&mut self, proposal: Proposal) -> (r: Result<u32, Error>)
        requires
            old(self).wf(),
        ensures
            final(self).wf(),
            final(self)@ == after(old(self)@, c_prop_next(old(self)@, proposal)),
            match c_prop_next(old(self)@, proposal) {
                Ok(_) => r == Ok::<u32, Error>(old(self)@.proposals.len() as u32),
                Err(e) => r == Err::<u32, Error>(e),
            },
    {
        if proposal.tot_votes != 0 {
            return Err(Error::InvalidProposal);
        }
        if self.proposals.len() > u32::MAX as usize {
            return Err(Error::Overflow);
        }
        let id = self.proposals.len() as u32;
        self.proposals.push(proposal);
        Ok(id)
    }

    /// Whether `voter` has voted on proposal `prop_id`.
    pub fn find_vote(&self, voter: Address, prop_id: u32) -> (r: bool)
        ensures
            r == has_voted(self@, voter, prop_id),
    {
        let target = ProposalVote { voter, prop_id };
        let mut i: usize = 0;
        while i < self.voted.len()
            invariant
                target == (ProposalVote { voter, prop_id }),
                i <= self.voted@.len(),
                forall|j: int| 0 <= j < i ==> self.voted@[j] != target,
            decreases self.voted@.len() - i,
        {
            if self.voted[i] == target {
                assert(self@.voted[i as int] == target);
                return true;
            }
            i = i + 1;
        }
        assert(!self@.voted.contains(target));
        false
    }

    /// Adds the caller's current balance to the tally of proposal `prop_id`
    /// and records the vote; refused for a missing or expired proposal and
    /// for a second vote by the same caller.
    ///
    /// The weight is the balance at the time of the vote. The vote records are
    /// consulted, so a member cannot add its weight twice to one proposal.
    pub fn vote(&mut self, caller: Address, now: u64, prop_id: u32) -> (r: Result<(), Error>)
        requires
            old(self).wf(),
        ensures
            final(self).wf(),
            final(self)@ == after(old(self)@, vote_next(old(self)@, caller, now, prop_id)),
            r == unit_result(vote_next(old(self)@, caller, now, prop_id)),
    {
        let i = prop_id as usize;
        if i >= self.proposals.len() {
            return Err(Error::ProposalNotFound);
        }
        if now >= self.proposals[i].end_time {
            return Err(Error::ProposalExpired);
        }
        if self.find_vote(caller, prop_id) {
            return Err(Error::DuplicateVote);
        }
        let weight = self.ledger.balance(caller);
        match self.proposals[i].tot_votes.checked_add(weight) {
            Some(w) => {
                self.proposals[i].tot_votes = w;
                self.voted.push(ProposalVote { voter: caller, prop_id });
                Ok(())
            },
            None => Err(Error::Overflow),
        }
    }

    /// Runs proposal `prop_id` when it exists, `now` is before its expiry and
    /// its tally is a strict majority of the total supply.
    ///
    /// Local instructions (those addressed to `self_id`) are applied to the
    /// ledger in order, all of them or none. The others are not run here: the
    /// result lists their positions, in order, and the host forwards each one
    /// within the same transaction, which aborts if any of them fails.
    /// Nothing marks a proposal as run, so it may run again while it is valid.
    pub fn execute(&mut self, now: u64, self_id: Bytes32, prop_id: u32) -> (r: Result<
        Vec<usize>,
        Error,
    >)
        requires
            old(self).wf(),
        ensures
            final(self).wf(),
            final(self)@ == after(old(self)@, execute_next(old(self)@, now, self_id, prop_id)),
            match execute_next(old(self)@, now, self_id, prop_id) {
                Ok(_) => r.is_ok() && r.unwrap()@ == forwarded(
                    old(self)@.proposals[prop_id as int].instr@,
                    self_id,
                ),
                Err(e) => r == Err::<Vec<usize>, Error>(e),
            },
    {
        let i = prop_id as usize;
        if i >= self.proposals.len() {
            return Err(Error::ProposalNotFound);
        }
        if now >= self.proposals[i].end_time {
            return Err(Error::ProposalExpired);
        }
        let votes = self.proposals[i].tot_votes as i64;
        let total = self.ledger.total_supply() as i64;
        if !(2 * votes > total) {
            return Err(Error::QuorumNotMet);
        }
        let name = "add_shares".to_owned();
        proof {
            reveal_strlit("add_shares");
        }
        let ghost instrs = self.proposals@[i as int].instr@;
        let mut work = self.ledger.copy();
        let mut fwd: Vec<usize> = Vec::new();
        let n = self.proposals[i].instr.len();
        let mut k: usize = 0;
        while k < n
            invariant
                *self == *old(self),
                i == prop_id as usize,
                i < self.proposals@.len(),
                now < self.proposals@[i as int].end_time,
                quorum_met(self.proposals@[i as int].tot_votes as int, self.ledger.total()),
                instrs == self.proposals@[i as int].instr@,
                n == instrs.len(),
                k <= n,
                name@ == add_shares_name(),
                self.ledger.wf(),
                work.wf(),
                run_instrs(self.ledger.holdings(), self.ledger.total(), instrs.take(k as int), self_id)
                    == Ok::<(Seq<Holding>, int), Error>((work.holdings(), work.total())),
                fwd@ == forwarded(instrs.take(k as int), self_id),
            decreases n - k,
        {
            proof {
                assert(instrs.take(k + 1).drop_last() =~= instrs.take(k as int));
                assert(instrs.take(k + 1).last() == instrs[k as int]);
            }
            let ins = &self.proposals[i].instr[k];
            if ins.c_id == self_id {
                if ins.fun_name != name {
                    proof {
                        lemma_run_err(self.ledger.holdings(), self.ledger.total(), instrs, self_id, k + 1, Error::UnknownInstruction);
                    }
                    return Err(Error::UnknownInstruction);
                }
                if ins.args.len() != 2 {
                    proof {
                        lemma_run_err(self.ledger.holdings(), self.ledger.total(), instrs, self_id, k + 1, Error::InvalidArgument);
                    }
                    return Err(Error::InvalidArgument);
                }
                match (&ins.args[0], &ins.args[1]) {
                    (Val::I32(a), Val::Address(to)) => {
                        match work.mint(*a, *to) {
                            Ok(()) => {},
                            Err(e) => {
                                proof {
                                    lemma_run_err(self.ledger.holdings(), self.ledger.total(), instrs, self_id, k + 1, e);
                                }
                                return Err(e);
                            },
                        }
                    },
                    _ => {
                        proof {
                            lemma_run_err(self.ledger.holdings(), self.ledger.total(), instrs, self_id, k + 1, Error::InvalidArgument);
                        }
                        return Err(Error::InvalidArgument);
                    },
                }
            } else {
                fwd.push(k);
            }
            k = k + 1;
        }
        proof {
            assert(instrs.take(n as int) =~= instrs);
        }
        self.ledger = work;
        Ok(fwd)
    }

    /// The share balance of `of`, 0 for a member never credited.
    pub fn shares(&self, of: Address) -> (r: i32)
        requires
            self.wf(),
        ensures
            r == balance_of(self@.holdings, of),
    {
        self.ledger.balance(of)
    }

    /// The total supply.
    pub fn tot_shares(&self) -> (r: i32)
        ensures
            r == self@.total,
    {
        self.ledger.total_supply()
    }

    /// The administrator, once initialized.
    pub fn admin(&self) -> (r: Option<Address>)
        ensures
            r == self@.admin,
    {
        self.admin
    }

    /// The end of the bootstrap window (0 before initialization).
    pub fn bootstrap_deadline(&self) -> (r: u64)
        ensures
            r == self@.bootstrap_end,
    {
        self.bootstrap_end
    }

    /// The number of proposals stored.
    pub fn proposal_count(&self) -> (r: usize)
        ensures
            r == self@.proposals.len(),
    {
        self.proposals.len()
    }

    /// The proposal with identifier `prop_id`, if any.
    pub fn proposal(&self, prop_id: u32) -> (r: Option<&Proposal>)
        ensures
            match r {
                Some(p) => prop_id < self@.proposals.len() && *p == self@.proposals[prop_id as int],
                None => prop_id >= self@.proposals.len(),
            },
    {
        let i = prop_id as usize;
        if i < self.proposals.len() {
            Some(&self.proposals[i])
        } else {
            None
        }
    }
}

} // verus!
