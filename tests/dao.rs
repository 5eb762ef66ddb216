use dao::{Address, Bytes32, DaoContract, Error, Holding, Proposal, ProposalInstr, Val};

fn id(n: u64) -> Bytes32 {
    Bytes32 { w0: n, w1: 0, w2: 0, w3: 0 }
}

fn account(n: u64) -> Address {
    Address::Account(id(n))
}

const DAO: u64 = 900;
const TOKEN: u64 = 901;

fn add_shares(amount: i32, to: Address) -> ProposalInstr {
    ProposalInstr {
        c_id: id(DAO),
        fun_name: "add_shares".to_string(),
        args: vec![Val::I32(amount), Val::Address(to)],
    }
}

fn forward(target: u64, name: &str) -> ProposalInstr {
    ProposalInstr { c_id: id(target), fun_name: name.to_string(), args: vec![Val::U64(9)] }
}

fn proposal(end_time: u64, instr: Vec<ProposalInstr>) -> Proposal {
    Proposal { tot_votes: 0, end_time, instr }
}

/// An engine initialized by `account(1)` at time 0.
fn started() -> DaoContract {
    let mut d = DaoContract::new();
    assert_eq!(d.init(account(1), 0), Ok(()));
    d
}

#[test]
fn test() {
    let user_1 = account(1);
    let mut d = DaoContract::new();
    assert_eq!(d.init(user_1, 0), Ok(()));
    assert_eq!(d.init(user_1, 0), Ok(()));
    assert_eq!(1, d.shares(user_1));

    let now = 1;
    assert_eq!(d.x_shares(user_1, now, 100, user_1), Ok(()));
    assert_eq!(101, d.shares(user_1));

    let prop = proposal(now + 1, vec![add_shares(10, user_1)]);
    let prop_id = d.c_prop(prop).unwrap();
    assert_eq!(d.vote(user_1, now, prop_id), Ok(()));
    assert_eq!(d.execute(now, id(DAO), prop_id), Ok(vec![]));
    assert_eq!(111, d.shares(user_1));

    let prop = Proposal {
        tot_votes: 0,
        instr: vec![ProposalInstr {
            c_id: id(TOKEN),
            fun_name: "xfer".to_string(),
            args: vec![Val::I64(0), Val::Address(user_1), Val::U64(9)],
        }],
        end_time: now + 1,
    };
    let prop_id = d.c_prop(prop).unwrap();
    assert_eq!(d.vote(user_1, now, prop_id), Ok(()));
    assert_eq!(d.execute(now, id(DAO), prop_id), Ok(vec![0]));
    assert_eq!(111, d.shares(user_1));
    assert_eq!(111, d.tot_shares());
}

#[test]
fn bootstrap_grant_to_admin() {
    let mut d = started();
    assert_eq!(d.shares(account(1)), 1);
    assert_eq!(d.x_shares(account(1), 5, 100, account(1)), Ok(()));
    assert_eq!(d.shares(account(1)), 101);
    assert_eq!(d.tot_shares(), 101);
}

#[test]
fn proposal_mints_through_vote_and_execute() {
    let mut d = started();
    d.x_shares(account(1), 5, 100, account(1)).unwrap();
    let pid = d.c_prop(proposal(6, vec![add_shares(10, account(1))])).unwrap();
    d.vote(account(1), 5, pid).unwrap();
    assert_eq!(d.proposal(pid).unwrap().tot_votes, 101);
    assert_eq!(d.execute(5, id(DAO), pid), Ok(vec![]));
    assert_eq!(d.shares(account(1)), 111);
    assert_eq!(d.tot_shares(), 111);
}

#[test]
fn expired_proposal_refuses_vote_and_execute() {
    let mut d = started();
    let now = 10;
    let pid = d.c_prop(proposal(now - 1, vec![add_shares(10, account(1))])).unwrap();
    assert_eq!(d.vote(account(1), now, pid), Err(Error::ProposalExpired));
    assert_eq!(d.execute(now, id(DAO), pid), Err(Error::ProposalExpired));
    assert_eq!(d.shares(account(1)), 1);
}

#[test]
fn zero_share_member_adds_nothing() {
    let mut d = started();
    let pid = d.c_prop(proposal(10, vec![add_shares(10, account(2))])).unwrap();
    assert_eq!(d.vote(account(2), 1, pid), Ok(()));
    assert_eq!(d.proposal(pid).unwrap().tot_votes, 0);
    assert_eq!(d.execute(1, id(DAO), pid), Err(Error::QuorumNotMet));
    assert_eq!(d.vote(account(1), 1, pid), Ok(()));
    assert_eq!(d.execute(1, id(DAO), pid), Ok(vec![]));
    assert_eq!(d.shares(account(2)), 10);
}

#[test]
fn second_vote_is_refused() {
    let mut d = started();
    let pid = d.c_prop(proposal(10, vec![])).unwrap();
    assert!(!d.find_vote(account(1), pid));
    assert_eq!(d.vote(account(1), 1, pid), Ok(()));
    assert!(d.find_vote(account(1), pid));
    assert_eq!(d.vote(account(1), 1, pid), Err(Error::DuplicateVote));
    assert_eq!(d.proposal(pid).unwrap().tot_votes, 1);
}

#[test]
fn only_admin_mints_during_bootstrap() {
    let mut d = DaoContract::new();
    assert_eq!(d.x_shares(account(1), 0, 5, account(1)), Err(Error::Unauthorized));
    d.init(account(1), 0).unwrap();
    assert_eq!(d.bootstrap_deadline(), 604800);
    assert_eq!(d.x_shares(account(2), 1, 5, account(2)), Err(Error::Unauthorized));
    assert_eq!(d.x_shares(account(1), 604799, 5, account(2)), Ok(()));
    assert_eq!(d.x_shares(account(1), 604800, 5, account(2)), Err(Error::BootstrapExpired));
    assert_eq!(d.x_shares(account(2), 604800, 5, account(2)), Err(Error::Unauthorized));
    assert_eq!(d.shares(account(2)), 5);
    assert_eq!(d.tot_shares(), 6);
}

#[test]
fn second_init_changes_nothing() {
    let mut d = started();
    d.x_shares(account(1), 1, 4, account(3)).unwrap();
    assert_eq!(d.init(account(2), 50), Ok(()));
    assert_eq!(d.admin(), Some(account(1)));
    assert_eq!(d.bootstrap_deadline(), 604800);
    assert_eq!(d.shares(account(1)), 1);
    assert_eq!(d.shares(account(2)), 0);
    assert_eq!(d.shares(account(3)), 4);
    assert_eq!(d.tot_shares(), 5);
}

#[test]
fn exactly_half_is_no_quorum() {
    let mut d = started();
    d.x_shares(account(1), 1, 49, account(1)).unwrap();
    d.x_shares(account(1), 1, 50, account(2)).unwrap();
    assert_eq!(d.tot_shares(), 100);
    let pid = d.c_prop(proposal(10, vec![])).unwrap();
    d.vote(account(1), 1, pid).unwrap();
    assert_eq!(d.execute(1, id(DAO), pid), Err(Error::QuorumNotMet));
}

#[test]
fn one_over_half_is_quorum() {
    let mut d = started();
    d.x_shares(account(1), 1, 50, account(1)).unwrap();
    d.x_shares(account(1), 1, 50, account(2)).unwrap();
    assert_eq!(d.tot_shares(), 101);
    let pid = d.c_prop(proposal(10, vec![])).unwrap();
    d.vote(account(1), 1, pid).unwrap();
    assert_eq!(d.execute(1, id(DAO), pid), Ok(vec![]));
}

#[test]
fn expiry_is_exclusive() {
    let mut d = started();
    let pid = d.c_prop(proposal(10, vec![add_shares(2, account(1))])).unwrap();
    d.vote(account(1), 9, pid).unwrap();
    assert_eq!(d.execute(10, id(DAO), pid), Err(Error::ProposalExpired));
    assert_eq!(d.shares(account(1)), 1);
    assert_eq!(d.execute(9, id(DAO), pid), Ok(vec![]));
    assert_eq!(d.shares(account(1)), 3);
}

#[test]
fn proposal_with_votes_is_invalid() {
    let mut d = started();
    let p = Proposal { tot_votes: 5, end_time: 10, instr: vec![] };
    assert_eq!(d.c_prop(p), Err(Error::InvalidProposal));
    assert_eq!(d.proposal_count(), 0);
}

#[test]
fn identifiers_count_up_from_zero() {
    let mut d = started();
    assert_eq!(d.c_prop(proposal(10, vec![])), Ok(0));
    assert_eq!(d.c_prop(proposal(10, vec![])), Ok(1));
    assert_eq!(d.c_prop(proposal(10, vec![])), Ok(2));
    assert_eq!(d.proposal_count(), 3);
    assert!(d.proposal(2).is_some());
    assert!(d.proposal(3).is_none());
}

#[test]
fn missing_proposal_is_reported() {
    let mut d = started();
    assert_eq!(d.vote(account(1), 1, 7), Err(Error::ProposalNotFound));
    assert_eq!(d.execute(1, id(DAO), 7), Err(Error::ProposalNotFound));
}

#[test]
fn overflow_is_refused() {
    let mut d = started();
    assert_eq!(d.x_shares(account(1), 1, i32::MAX, account(2)), Err(Error::Overflow));
    assert_eq!(d.shares(account(2)), 0);
    assert_eq!(d.tot_shares(), 1);
    assert_eq!(d.x_shares(account(1), 1, i32::MAX - 1, account(2)), Ok(()));
    assert_eq!(d.tot_shares(), i32::MAX);
    let mut fresh = DaoContract::new();
    assert_eq!(fresh.init(account(1), u64::MAX), Err(Error::Overflow));
    assert_eq!(fresh.admin(), None);
}

#[test]
fn shares_can_be_burned() {
    let mut d = started();
    d.x_shares(account(1), 1, 10, account(2)).unwrap();
    d.x_shares(account(1), 1, -4, account(2)).unwrap();
    assert_eq!(d.shares(account(2)), 6);
    assert_eq!(d.tot_shares(), 7);
}

#[test]
fn unknown_local_operation_is_refused() {
    let mut d = started();
    let bad = ProposalInstr { c_id: id(DAO), fun_name: "burn".to_string(), args: vec![] };
    let pid = d.c_prop(proposal(10, vec![add_shares(5, account(1)), bad])).unwrap();
    d.vote(account(1), 1, pid).unwrap();
    assert_eq!(d.execute(1, id(DAO), pid), Err(Error::UnknownInstruction));
    assert_eq!(d.shares(account(1)), 1);
    assert_eq!(d.tot_shares(), 1);
}

#[test]
fn mistyped_arguments_are_refused() {
    let mut d = started();
    let bad = ProposalInstr {
        c_id: id(DAO),
        fun_name: "add_shares".to_string(),
        args: vec![Val::U32(5), Val::Address(account(1))],
    };
    let pid = d.c_prop(proposal(10, vec![add_shares(5, account(1)), bad])).unwrap();
    d.vote(account(1), 1, pid).unwrap();
    assert_eq!(d.execute(1, id(DAO), pid), Err(Error::InvalidArgument));
    assert_eq!(d.shares(account(1)), 1);
    let short = ProposalInstr {
        c_id: id(DAO),
        fun_name: "add_shares".to_string(),
        args: vec![Val::I32(5)],
    };
    let pid = d.c_prop(proposal(10, vec![short])).unwrap();
    d.vote(account(1), 1, pid).unwrap();
    assert_eq!(d.execute(1, id(DAO), pid), Err(Error::InvalidArgument));
}

#[test]
fn forwarded_positions_are_listed_in_order() {
    let mut d = started();
    let instrs = vec![
        add_shares(1, account(2)),
        forward(TOKEN, "xfer"),
        add_shares(2, account(2)),
        forward(TOKEN + 1, "ping"),
    ];
    let pid = d.c_prop(proposal(10, instrs)).unwrap();
    d.vote(account(1), 1, pid).unwrap();
    assert_eq!(d.execute(1, id(DAO), pid), Ok(vec![1, 3]));
    assert_eq!(d.shares(account(2)), 3);
    assert_eq!(d.tot_shares(), 4);
}

#[test]
fn execution_can_repeat_while_valid() {
    let mut d = started();
    let pid = d.c_prop(proposal(10, vec![add_shares(0, account(1)), forward(TOKEN, "xfer")])).unwrap();
    d.vote(account(1), 1, pid).unwrap();
    assert_eq!(d.execute(1, id(DAO), pid), Ok(vec![1]));
    assert_eq!(d.execute(2, id(DAO), pid), Ok(vec![1]));
    assert_eq!(d.shares(account(1)), 1);
}

#[test]
fn total_is_sum_of_balances_after_mixed_operations() {
    let mut d = started();
    d.x_shares(account(1), 1, 7, account(2)).unwrap();
    d.x_shares(account(1), 1, 3, account(3)).unwrap();
    let pid = d.c_prop(proposal(10, vec![add_shares(-2, account(3)), add_shares(5, account(4))])).unwrap();
    d.vote(account(2), 1, pid).unwrap();
    d.execute(1, id(DAO), pid).unwrap();
    let sum: i32 = (1..=4).map(|n| d.shares(account(n))).sum();
    assert_eq!(sum, d.tot_shares());
    assert_eq!(d.tot_shares(), 14);
}

#[test]
fn store_round_trip_and_checks() {
    let mut d = started();
    d.x_shares(account(1), 1, 4, account(2)).unwrap();
    let pid = d.c_prop(proposal(10, vec![])).unwrap();
    d.vote(account(2), 1, pid).unwrap();
    let (admin, holdings, total, end, proposals, voted) = d.into_parts();
    assert_eq!(holdings.len(), 2);
    assert_eq!(total, 5);
    let back = DaoContract::from_parts(admin, holdings.clone(), total, end, proposals.clone(), voted.clone()).unwrap();
    assert_eq!(back.shares(account(2)), 4);
    assert_eq!(back.tot_shares(), 5);
    assert!(back.find_vote(account(2), pid));
    assert!(DaoContract::from_parts(admin, holdings.clone(), 6, end, vec![], vec![]).is_none());
    let mut dup = holdings.clone();
    dup.push(Holding { member: account(2), shares: 0 });
    assert!(DaoContract::from_parts(admin, dup, total, end, vec![], vec![]).is_none());
}
