//! The records that a trust circle stores, and their mathematical models.
//!
//! An account or contract address is held as its canonical text form (the
//! strkey, such as `GA...` or `CA...`), so two addresses are the same exactly
//! when their texts are equal.
use vstd::prelude::*;

verus! {

/// The model of an address: its characters.
pub type AddressModel = Seq<char>;

/// The state of one savings circle.
#[derive(Debug, Clone)]
pub struct Circle {
    /// The circle's name, as the bytes it was given.
    pub name: Vec<u8>,
    pub admin: String,
    pub usdc_token: String,
    /// What each member pays per contribution.
    pub contribution_amount: i128,
    /// The payout rotation order.
    pub members: Vec<String>,
    pub current_cycle: u32,
    pub payout_index: u32,
    pub cycle_deadline: u64,
    pub cycle_length_secs: u64,
    pub is_active: bool,
}

/// The model of a [`Circle`].
pub struct CircleModel {
    pub name: Seq<u8>,
    pub admin: AddressModel,
    pub usdc_token: AddressModel,
    pub contribution_amount: i128,
    pub members: Seq<AddressModel>,
    pub current_cycle: u32,
    pub payout_index: u32,
    pub cycle_deadline: u64,
    pub cycle_length_secs: u64,
    pub is_active: bool,
}

impl View for Circle {
    type V = CircleModel;

    open spec fn view(&self) -> CircleModel {
        CircleModel {
            name: self.name@,
            admin: self.admin@,
            usdc_token: self.usdc_token@,
            contribution_amount: self.contribution_amount,
            members: self.members.deep_view(),
            current_cycle: self.current_cycle,
            payout_index: self.payout_index,
            cycle_deadline: self.cycle_deadline,
            cycle_length_secs: self.cycle_length_secs,
            is_active: self.is_active,
        }
    }
}

/// One member's contribution in one cycle.
#[derive(Debug, Clone)]
pub struct Contribution {
    pub member: String,
    pub cycle: u32,
    pub amount: i128,
    pub timestamp: u64,
}

/// The model of a [`Contribution`].
pub struct ContributionModel {
    pub member: AddressModel,
    pub cycle: u32,
    pub amount: i128,
    pub timestamp: u64,
}

impl View for Contribution {
    type V = ContributionModel;

    open spec fn view(&self) -> ContributionModel {
        ContributionModel {
            member: self.member@,
            cycle: self.cycle,
            amount: self.amount,
            timestamp: self.timestamp,
        }
    }
}

/// A rule change that members can vote on.
#[derive(Debug, Clone)]
pub enum ProposalType {
    ChangeAmount(i128),
    ChangeCycleLength(u64),
    AddMember(String),
    RemoveMember(String),
}

/// The model of a [`ProposalType`].
pub enum ProposalTypeModel {
    ChangeAmount(i128),
    ChangeCycleLength(u64),
    AddMember(AddressModel),
    RemoveMember(AddressModel),
}

impl View for ProposalType {
    type V = ProposalTypeModel;

    open spec fn view(&self) -> ProposalTypeModel {
        match self {
            ProposalType::ChangeAmount(a) => ProposalTypeModel::ChangeAmount(*a),
            ProposalType::ChangeCycleLength(l) => ProposalTypeModel::ChangeCycleLength(*l),
            ProposalType::AddMember(m) => ProposalTypeModel::AddMember(m@),
            ProposalType::RemoveMember(m) => ProposalTypeModel::RemoveMember(m@),
        }
    }
}

/// A governance proposal and its tally.
#[derive(Debug, Clone)]
pub struct Proposal {
    pub id: u32,
    pub proposer: String,
    pub proposal_type: ProposalType,
    pub votes_yes: u32,
    pub votes_no: u32,
    pub voters: Vec<String>,
    pub executed: bool,
}

/// The model of a [`Proposal`].
pub struct ProposalModel {
    pub id: u32,
    pub proposer: AddressModel,
    pub proposal_type: ProposalTypeModel,
    pub votes_yes: u32,
    pub votes_no: u32,
    pub voters: Seq<AddressModel>,
    pub executed: bool,
}

impl View for Proposal {
    type V = ProposalModel;

    open spec fn view(&self) -> ProposalModel {
        ProposalModel {
            id: self.id,
            proposer: self.proposer@,
            proposal_type: self.proposal_type@,
            votes_yes: self.votes_yes,
            votes_no: self.votes_no,
            voters: self.voters.deep_view(),
            executed: self.executed,
        }
    }
}

/// Why an operation on a circle was refused. A refused operation changes
/// nothing.
#[derive(Debug, Clone, Copy, PartialEq, Eq, Structural)]
pub enum CircleError {
    CircleExists,
    NotEnoughMembers,
    NonPositiveContribution,
    CycleTooShort,
    CircleNotFound,
    CircleNotActive,
    NotMember,
    DeadlinePassed,
    AlreadyContributed,
    DeadlineNotReached,
    NoContributions,
    RecipientMissing,
    NotAdmin,
    CircleStillActive,
    InsufficientReputation,
    AlreadyVouched,
    ProposerNotMember,
    VoterNotMember,
    ProposalNotFound,
    ProposalExecuted,
    AlreadyVoted,
    NoMajority,
    Overflow,
}

impl CircleError {
    /// The text of the message that the contract aborts with for this error.
    pub open spec fn message_text(self) -> Seq<char> {
        match self {
            CircleError::CircleExists => "Circle already exists"@,
            CircleError::NotEnoughMembers => "Need at least 2 members"@,
            CircleError::NonPositiveContribution => "Contribution must be positive"@,
            CircleError::CycleTooShort => "Cycle must be at least 1 hour"@,
            CircleError::CircleNotFound => "Circle not found"@,
            CircleError::CircleNotActive => "Circle is not active"@,
            CircleError::NotMember => "Not a circle member"@,
            CircleError::DeadlinePassed => "Cycle deadline has passed"@,
            CircleError::AlreadyContributed => "Already contributed this cycle"@,
            CircleError::DeadlineNotReached => "Deadline not reached"@,
            CircleError::NoContributions => "No contributions to pay out"@,
            CircleError::RecipientMissing => "No member at the payout index"@,
            CircleError::NotAdmin => "Only admin can restart"@,
            CircleError::CircleStillActive => "Circle is still active"@,
            CircleError::InsufficientReputation => "Need reputation >= 50 to vouch for others"@,
            CircleError::AlreadyVouched => "Already vouched for this address"@,
            CircleError::ProposerNotMember => "Only members can propose"@,
            CircleError::VoterNotMember => "Only members can vote"@,
            CircleError::ProposalNotFound => "Proposal not found"@,
            CircleError::ProposalExecuted => "Proposal already executed"@,
            CircleError::AlreadyVoted => "Already voted on this proposal"@,
            CircleError::NoMajority => "Proposal has not reached majority"@,
            CircleError::Overflow => "arithmetic overflow"@,
        }
    }

    /// The message that the contract aborts with for this error.
    pub fn message(&self) -> (r: &'static str)
        ensures
            r@ == self.message_text(),
    {
        match self {
            CircleError::CircleExists => "Circle already exists",
            CircleError::NotEnoughMembers => "Need at least 2 members",
            CircleError::NonPositiveContribution => "Contribution must be positive",
            CircleError::CycleTooShort => "Cycle must be at least 1 hour",
            CircleError::CircleNotFound => "Circle not found",
            CircleError::CircleNotActive => "Circle is not active",
            CircleError::NotMember => "Not a circle member",
            CircleError::DeadlinePassed => "Cycle deadline has passed",
            CircleError::AlreadyContributed => "Already contributed this cycle",
            CircleError::DeadlineNotReached => "Deadline not reached",
            CircleError::NoContributions => "No contributions to pay out",
            CircleError::RecipientMissing => "No member at the payout index",
            CircleError::NotAdmin => "Only admin can restart",
            CircleError::CircleStillActive => "Circle is still active",
            CircleError::InsufficientReputation => "Need reputation >= 50 to vouch for others",
            CircleError::AlreadyVouched => "Already vouched for this address",
            CircleError::ProposerNotMember => "Only members can propose",
            CircleError::VoterNotMember => "Only members can vote",
            CircleError::ProposalNotFound => "Proposal not found",
            CircleError::ProposalExecuted => "Proposal already executed",
            CircleError::AlreadyVoted => "Already voted on this proposal",
            CircleError::NoMajority => "Proposal has not reached majority",
            CircleError::Overflow => "arithmetic overflow",
        }
    }
}

/// What a released payout sends, and whether it closed the rotation.
#[derive(Debug, Clone)]
pub struct Payout {
    pub recipient: String,
    pub amount: i128,
    /// The cycle that was paid out.
    pub cycle: u32,
    /// Whether every member has now received once, so the circle closed.
    pub completed: bool,
    /// The cycle that the circle is on after the payout.
    pub next_cycle: u32,
}

/// The model of a [`Payout`].
pub struct PayoutModel {
    pub recipient: AddressModel,
    pub amount: i128,
    pub cycle: u32,
    pub completed: bool,
    pub next_cycle: u32,
}

impl View for Payout {
    type V = PayoutModel;

    open spec fn view(&self) -> PayoutModel {
        PayoutModel {
            recipient: self.recipient@,
            amount: self.amount,
            cycle: self.cycle,
            completed: self.completed,
            next_cycle: self.next_cycle,
        }
    }
}

} // verus!
