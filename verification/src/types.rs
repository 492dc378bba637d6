//! The values that the lockdrop rules speak about.

use vstd::prelude::*;
use vstd::array::spec_array_fill_for_copy_type;

verus! {

/// Claim id is a hash of claim parameters.
pub type ClaimId = [u8; 32];

/// Type for enumerating claim proof votes.
pub type AuthorityVote = u32;

/// Type for enumerating authorities in list (2^16 authorities is enough).
pub type AuthorityIndex = u16;

/// The public key of an authority.
pub type AuthorityId = [u8; 32];

/// The signature of an authority.
pub type AuthoritySignature = [u8; 64];

/// A compressed ECDSA public key.
pub type EcdsaPublic = [u8; 33];

/// A system level account.
pub type AccountId = [u8; 32];

/// A timestamp or a length of time, in seconds.
pub type Moment = u64;

/// Dollar rate number data type.
pub type Dollars = u128;

/// An amount of PLM units (one PLM is 10^15 units).
pub type Balance = u128;

/// Plasm Lockdrop parameters.
#[derive(Clone, Copy, Debug, PartialEq, Eq)]
pub enum Lockdrop {
    /// Bitcoin lockdrop is pretty simple: a transaction is sent with a time-locking opcode, the
    /// BTC token is locked and can be spent after some time. Duration in blocks and value in
    /// satoshi can be derived from the BTC transaction.
    Bitcoin { public: EcdsaPublic, value: u64, duration: u64, transaction_hash: [u8; 32] },
    /// Ethereum lockdrop transactions are sent to a pre-deployed lockdrop smart contract.
    Ethereum { public: EcdsaPublic, value: u64, duration: u64, transaction_hash: [u8; 32] },
}

impl Lockdrop {
    /// The public key that the locked value belongs to.
    pub open spec fn public_key(self) -> EcdsaPublic {
        match self {
            Lockdrop::Bitcoin { public, .. } => public,
            Lockdrop::Ethereum { public, .. } => public,
        }
    }

    /// The hash of the locking transaction.
    pub open spec fn hash_of_transaction(self) -> [u8; 32] {
        match self {
            Lockdrop::Bitcoin { transaction_hash, .. } => transaction_hash,
            Lockdrop::Ethereum { transaction_hash, .. } => transaction_hash,
        }
    }

    /// The parameters that stand for a claim which nobody has requested: a Bitcoin lock of
    /// nothing, with every byte zero.
    pub open spec fn blank() -> Lockdrop {
        Lockdrop::Bitcoin {
            public: spec_array_fill_for_copy_type::<u8, 33>(0),
            value: 0,
            duration: 0,
            transaction_hash: spec_array_fill_for_copy_type::<u8, 32>(0),
        }
    }
}

impl Default for Lockdrop {
    fn default() -> (params: Lockdrop)
        ensures
            params == Lockdrop::blank(),
    {
        Lockdrop::Bitcoin { public: [0u8; 33], value: 0, duration: 0, transaction_hash: [0u8; 32] }
    }
}

/// Lockdrop claim request description.
#[derive(Clone, Copy, Debug, PartialEq, Eq)]
pub struct Claim {
    /// What was locked.
    pub params: Lockdrop,
    /// Authorities that found the lock to be as claimed.
    pub approve: AuthorityVote,
    /// Authorities that found it not to be.
    pub decline: AuthorityVote,
    /// PLM units to pay.
    pub amount: u128,
    /// Whether the claim is paid.
    pub complete: bool,
}

impl Claim {
    /// What the registry answers for an id that it does not hold.
    pub open spec fn blank() -> Claim {
        Claim { params: Lockdrop::blank(), approve: 0, decline: 0, amount: 0, complete: false }
    }
}

impl Default for Claim {
    fn default() -> (claim: Claim)
        ensures
            claim == Claim::blank(),
    {
        Claim { params: Lockdrop::default(), approve: 0, decline: 0, amount: 0, complete: false }
    }
}

/// Lockdrop claim vote.
#[derive(Clone, Copy, Debug, PartialEq, Eq)]
pub struct ClaimVote {
    pub claim_id: ClaimId,
    pub approve: bool,
    pub authority: AuthorityIndex,
}

/// Oracle dollar rate ticker.
#[derive(Clone, Copy, Debug, PartialEq, Eq)]
pub struct TickerRate<DollarRate> {
    pub authority: AuthorityIndex,
    pub btc: DollarRate,
    pub eth: DollarRate,
}

/// Who sent a call.
#[derive(Clone, Copy, Debug, PartialEq, Eq)]
pub enum Origin {
    /// The system itself.
    Root,
    /// A user, by a signed transaction.
    Signed(AccountId),
    /// Nobody: an unsigned transaction.
    Unsigned,
}

/// The calls that a transaction can hold.
#[derive(Clone, Copy, Debug, PartialEq, Eq)]
pub enum Call {
    /// Request authorities to check a locking transaction.
    Request(Lockdrop),
    /// Claim tokens according to the lockdrop procedure.
    Claim(ClaimId),
    /// Vote for a claim request according to check results.
    Vote(ClaimVote, AuthoritySignature),
    /// Dollar rate oracle entry point.
    SetDollarRate(TickerRate<Dollars>, AuthoritySignature),
}

/// What a successful call tells the world.
#[derive(Clone, Debug, PartialEq, Eq)]
pub enum Event {
    /// Lockdrop token claims requested by user.
    ClaimRequest(ClaimId),
    /// Lockdrop token claims response by authority.
    ClaimResponse(ClaimId, AuthorityId, bool),
    /// Lockdrop token claim paid: the amount goes to the account of the locking public key.
    ClaimComplete(ClaimId, EcdsaPublic, Balance),
    /// Dollar rate updated by oracle: BTC, ETH.
    NewDollarRate(Dollars, Dollars),
    /// New authority list registered.
    NewAuthorities(Vec<AuthorityId>),
}

/// Why a call is refused.
#[derive(Clone, Copy, Debug, PartialEq, Eq)]
pub enum DispatchError {
    /// The call came from the wrong kind of origin.
    BadOrigin,
    /// A request for a claim that is already paid.
    RequestAlreadyPaid,
    /// A payout of a claim that is already paid.
    ClaimAlreadyPaid,
    /// Too few authorities have voted.
    NotEnoughVotes,
    /// The authorities that voted do not approve enough.
    NotApproved,
    /// A vote names an authority that is not in the list.
    UnknownVoter,
    /// A dollar rate names an authority that is not in the list.
    UnknownOracle,
}

impl DispatchError {
    /// The text of the error.
    pub open spec fn text(self) -> Seq<char> {
        match self {
            DispatchError::BadOrigin => "Bad origin"@,
            DispatchError::RequestAlreadyPaid => "claim should not be already paid"@,
            DispatchError::ClaimAlreadyPaid => "claim should be already paid"@,
            DispatchError::NotEnoughVotes => "this request don't get enough authority votes"@,
            DispatchError::NotApproved => "this request don't approved by authorities"@,
            DispatchError::UnknownVoter => "unable get authority by index"@,
            DispatchError::UnknownOracle => "unable to get authority by index"@,
        }
    }

    /// Tells the error in words.
    pub fn message(&self) -> (message: &'static str)
        ensures
            message@ == self.text(),
    {
        match self {
            DispatchError::BadOrigin => "Bad origin",
            DispatchError::RequestAlreadyPaid => "claim should not be already paid",
            DispatchError::ClaimAlreadyPaid => "claim should be already paid",
            DispatchError::NotEnoughVotes => "this request don't get enough authority votes",
            DispatchError::NotApproved => "this request don't approved by authorities",
            DispatchError::UnknownVoter => "unable get authority by index",
            DispatchError::UnknownOracle => "unable to get authority by index",
        }
    }
}

/// An unsigned transaction that may enter a block.
#[derive(Clone, Debug, PartialEq, Eq)]
pub struct ValidTransaction {
    /// How early it should be included.
    pub priority: u64,
    /// Tags that other transactions have to provide first.
    pub requires_tags: Vec<Vec<u8>>,
    /// Tags that this transaction provides; two transactions with one tag exclude each other.
    pub provides: Vec<Vec<u8>>,
    /// For how many blocks the verdict holds.
    pub longevity: u64,
    /// Whether to pass it on to other nodes.
    pub propagate: bool,
}

/// Why an unsigned transaction is refused.
#[derive(Clone, Copy, Debug, PartialEq, Eq)]
pub enum InvalidTransaction {
    /// The call is not expected.
    Call,
    /// The signature is not good.
    BadProof,
}

/// The signature schemes that authorities can use.
#[derive(Clone, Copy, Debug, PartialEq, Eq)]
pub enum Scheme {
    Sr25519,
    Ed25519,
}

} // verus!
