use vstd::prelude::*;

verus! {

/// A 32-byte identifier, held as four big-endian 64-bit words.
#[derive(Clone, Copy, Debug, PartialEq, Eq, Structural)]
pub struct Bytes32 {
    pub w0: u64,
    pub w1: u64,
    pub w2: u64,
    pub w3: u64,
}

/// The identity of a member or of a component.
#[derive(Clone, Copy, Debug, PartialEq, Eq, Structural)]
pub enum Address {
    Account(Bytes32),
    Contract(Bytes32),
}

/// A typed argument of an instruction.
#[derive(Clone, Debug)]
pub enum Val {
    I32(i32),
    U32(u32),
    I64(i64),
    U64(u64),
    Bool(bool),
    Address(Address),
    Bytes(Vec<u8>),
    Symbol(String),
}

/// One step of a proposal: a call of `fun_name` on component `c_id`.
#[derive(Clone, Debug)]
pub struct ProposalInstr {
    pub c_id: Bytes32,
    pub fun_name: String,
    pub args: Vec<Val>,
}

/// A proposal: its tally, the time before which it may run, and its
/// instructions, which run in order.
#[derive(Clone, Debug)]
pub struct Proposal {
    pub tot_votes: i32,
    pub end_time: u64,
    pub instr: Vec<ProposalInstr>,
}

/// The record that `voter` has voted on proposal `prop_id`.
#[derive(Clone, Copy, Debug, PartialEq, Eq, Structural)]
pub struct ProposalVote {
    pub voter: Address,
    pub prop_id: u32,
}

/// A member's share balance.
#[derive(Clone, Copy, Debug, PartialEq, Eq, Structural)]
pub struct Holding {
    pub member: Address,
    pub shares: i32,
}

/// Why an operation was refused.
#[derive(Clone, Copy, Debug, PartialEq, Eq, Structural)]
pub enum Error {
    /// The caller lacks the role the operation needs.
    Unauthorized,
    /// Shares were to be minted after the bootstrap window closed.
    BootstrapExpired,
    /// A submitted proposal carries votes already.
    InvalidProposal,
    /// No proposal has the given identifier.
    ProposalNotFound,
    /// The proposal's expiry has been reached.
    ProposalExpired,
    /// The tally is not a strict majority of the total supply.
    QuorumNotMet,
    /// The caller has voted on this proposal already.
    DuplicateVote,
    /// A count would leave the range of its integer type.
    Overflow,
    /// A local instruction names an operation the engine does not have.
    UnknownInstruction,
    /// A local instruction's arguments are missing or of the wrong type.
    InvalidArgument,
}

} // verus!
