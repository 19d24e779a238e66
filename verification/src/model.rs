//! The abstract state of a trust circle and what each operation does to it.
//!
//! Every operation is a step from a state to either a new state and an output,
//! or an error that leaves the state as it was.
use vstd::prelude::*;
use crate::types::{AddressModel, CircleError, CircleModel, ContributionModel, PayoutModel, ProposalModel, ProposalTypeModel};

verus! {

/// Points a member gains for an on-time contribution.
pub const CONTRIBUTION_REWARD: u32 = 10;

/// Points a member loses for each missed contribution (never below zero).
pub const MISSED_PENALTY: u32 = 20;

/// Smallest reputation score that lets an address vouch for a newcomer.
pub const VOUCH_THRESHOLD: u32 = 50;

/// Shortest allowed cycle, in seconds.
pub const MIN_CYCLE_SECS: u64 = 3600;

/// Everything a trust circle keeps in storage.
pub struct CircleState {
    /// The circle, once created.
    pub circle: Option<CircleModel>,
    /// Every contribution recorded since the circle was last created.
    pub contributions: Seq<ContributionModel>,
    /// Reputation scores of the addresses that have one.
    pub reputation: Map<AddressModel, u32>,
    /// For each newcomer that has been vouched for, who vouched, in order.
    pub vouches: Map<AddressModel, Seq<AddressModel>>,
    /// The proposals; a proposal's id is its position.
    pub proposals: Seq<ProposalModel>,
}

/// Whether `member` has a recorded contribution for `cycle`.
pub open spec fn contributed(cs: Seq<ContributionModel>, member: AddressModel, cycle: u32) -> bool {
    exists|i: int| 0 <= i < cs.len() && #[trigger] cs[i].member == member && cs[i].cycle == cycle
}

/// At most one record per member and cycle.
pub open spec fn records_unique(cs: Seq<ContributionModel>) -> bool {
    forall|i: int, j: int|
        0 <= i < cs.len() && 0 <= j < cs.len() && i != j ==> !(#[trigger] cs[i].member
            == #[trigger] cs[j].member && cs[i].cycle == cs[j].cycle)
}

/// The sum of the amounts recorded for `cycle`: what the contract holds in
/// escrow for that cycle's pot.
pub open spec fn cycle_pot(cs: Seq<ContributionModel>, cycle: u32) -> int
    decreases cs.len(),
{
    if cs.len() == 0 {
        0
    } else {
        cycle_pot(cs.drop_last(), cycle) + if cs.last().cycle == cycle {
            cs.last().amount as int
        } else {
            0int
        }
    }
}

/// How many places of the rotation belong to `who` while `who` did not
/// contribute in `cycle`.
pub open spec fn missed_count(
    members: Seq<AddressModel>,
    cs: Seq<ContributionModel>,
    cycle: u32,
    who: AddressModel,
) -> nat
    decreases members.len(),
{
    if members.len() == 0 {
        0
    } else {
        missed_count(members.drop_last(), cs, cycle, who) + if members.last() == who && !contributed(
            cs,
            who,
            cycle,
        ) {
            1nat
        } else {
            0nat
        }
    }
}

/// A score after `missed` penalties, stopping at zero.
pub open spec fn penalized(score: u32, missed: nat) -> u32 {
    if score >= MISSED_PENALTY * missed {
        (score - MISSED_PENALTY * missed) as u32
    } else {
        0
    }
}

/// Whether adding up the amounts recorded for `cycle`, in record order,
/// leaves the `i128` range at some point.
pub open spec fn pot_overflows(cs: Seq<ContributionModel>, cycle: u32) -> bool {
    exists|i: int| 0 <= i <= cs.len() && !fits_i128(#[trigger] cycle_pot(cs.take(i), cycle))
}

/// Whether `x` fits in an `i128`.
pub open spec fn fits_i128(x: int) -> bool {
    i128::MIN <= x <= i128::MAX
}

/// The score stored for `who`, zero where none is stored.
pub open spec fn score_in(rep: Map<AddressModel, u32>, who: AddressModel) -> u32 {
    if rep.contains_key(who) {
        rep[who]
    } else {
        0
    }
}

/// Scores after every place of `members` whose holder missed `cycle` cost
/// that holder a penalty; a holder with no score gets one.
pub open spec fn penalty_map(
    rep: Map<AddressModel, u32>,
    members: Seq<AddressModel>,
    cs: Seq<ContributionModel>,
    cycle: u32,
) -> Map<AddressModel, u32> {
    Map::new(
        |a: AddressModel| rep.contains_key(a) || missed_count(members, cs, cycle, a) > 0,
        |a: AddressModel| penalized(score_in(rep, a), missed_count(members, cs, cycle, a)),
    )
}

impl ProposalModel {
    /// The tally counts exactly the recorded voters, each once.
    pub open spec fn wf(self) -> bool {
        &&& self.votes_yes + self.votes_no == self.voters.len()
        &&& self.voters.no_duplicates()
    }
}

impl CircleState {
    /// The state of a contract that holds nothing yet.
    pub open spec fn empty() -> CircleState {
        CircleState {
            circle: None,
            contributions: Seq::empty(),
            reputation: Map::empty(),
            vouches: Map::empty(),
            proposals: Seq::empty(),
        }
    }

    /// The invariant that every reachable state keeps.
    pub open spec fn wf(self) -> bool {
        &&& self.proposals.len() <= u32::MAX
        &&& forall|i: int|
            0 <= i < self.proposals.len() ==> (#[trigger] self.proposals[i]).id == i
                && self.proposals[i].wf()
        &&& forall|a: AddressModel| #[trigger]
            self.vouches.contains_key(a) ==> self.vouches[a].no_duplicates()
                && self.vouches[a].len() <= u32::MAX
        &&& self.circle matches Some(c) ==> c.members.len() <= u32::MAX
        &&& records_unique(self.contributions)
    }

    /// An address's reputation, zero where none is stored.
    pub open spec fn reputation_of(self, who: AddressModel) -> u32 {
        score_in(self.reputation, who)
    }

    /// The addresses that vouched for `who`, in order.
    pub open spec fn vouchers_of(self, who: AddressModel) -> Seq<AddressModel> {
        if self.vouches.contains_key(who) {
            self.vouches[who]
        } else {
            Seq::empty()
        }
    }

    /// Whether `who` has contributed in `cycle`.
    pub open spec fn has_contributed(self, who: AddressModel, cycle: u32) -> bool {
        contributed(self.contributions, who, cycle)
    }

    /// The reputation scores after a payout of `c`'s current cycle penalised
    /// every missed place in the rotation.
    pub open spec fn penalize_missed(self, c: CircleModel) -> Map<AddressModel, u32> {
        penalty_map(self.reputation, c.members, self.contributions, c.current_cycle)
    }
}

/// The state after a step, which is the old one where the step failed.
pub open spec fn after<T>(old_state: CircleState, step: Result<(CircleState, T), CircleError>) -> CircleState {
    match step {
        Ok((s, _)) => s,
        Err(_) => old_state,
    }
}

/// The output of a step, or its error.
pub open spec fn output<T>(step: Result<(CircleState, T), CircleError>) -> Result<T, CircleError> {
    match step {
        Ok((_, o)) => Ok(o),
        Err(e) => Err(e),
    }
}

/// A result with its success value taken by its view.
pub open spec fn outcome<T: View>(r: Result<T, CircleError>) -> Result<T::V, CircleError> {
    match r {
        Ok(t) => Ok(t@),
        Err(e) => Err(e),
    }
}

/// Creating the circle, once (a circle already stored is refused after the
/// argument checks): it starts on cycle 1, active, paying the first member
/// first.
pub open spec fn step_create_circle(
    s: CircleState,
    admin: AddressModel,
    name: Seq<u8>,
    usdc_token: AddressModel,
    members: Seq<AddressModel>,
    contribution_amount: i128,
    cycle_length_secs: u64,
    now: u64,
) -> Result<(CircleState, ()), CircleError> {
    if members.len() < 2 {
        Err(CircleError::NotEnoughMembers)
    } else if contribution_amount <= 0 {
        Err(CircleError::NonPositiveContribution)
    } else if cycle_length_secs < MIN_CYCLE_SECS {
        Err(CircleError::CycleTooShort)
    } else if s.circle is Some {
        Err(CircleError::CircleExists)
    } else if now + cycle_length_secs > u64::MAX {
        Err(CircleError::Overflow)
    } else {
        let c = CircleModel {
            name,
            admin,
            usdc_token,
            contribution_amount,
            members,
            current_cycle: 1,
            payout_index: 0,
            cycle_deadline: (now + cycle_length_secs) as u64,
            cycle_length_secs,
            is_active: true,
        };
        Ok((CircleState { circle: Some(c), contributions: Seq::empty(), ..s }, ()))
    }
}

/// A member pays the contribution amount for the current cycle: the
/// contribution is recorded and the member gains ten reputation points.
pub open spec fn step_contribute(s: CircleState, member: AddressModel, now: u64) -> Result<
    (CircleState, ContributionModel),
    CircleError,
> {
    match s.circle {
        None => Err(CircleError::CircleNotFound),
        Some(c) => {
            if !c.is_active {
                Err(CircleError::CircleNotActive)
            } else if !c.members.contains(member) {
                Err(CircleError::NotMember)
            } else if now > c.cycle_deadline {
                Err(CircleError::DeadlinePassed)
            } else if contributed(s.contributions, member, c.current_cycle) {
                Err(CircleError::AlreadyContributed)
            } else if s.reputation_of(member) + CONTRIBUTION_REWARD > u32::MAX {
                Err(CircleError::Overflow)
            } else {
                let rec = ContributionModel {
                    member,
                    cycle: c.current_cycle,
                    amount: c.contribution_amount,
                    timestamp: now,
                };
                Ok(
                    (
                        CircleState {
                            contributions: s.contributions.push(rec),
                            reputation: s.reputation.insert(
                                member,
                                (s.reputation_of(member) + CONTRIBUTION_REWARD) as u32,
                            ),
                            ..s
                        },
                        rec,
                    ),
                )
            }
        },
    }
}

/// The pot, which is every amount recorded for the current cycle, is paid to
/// the member at the payout index, members who missed the cycle are
/// penalised, and the rotation moves on to the next cycle. The admin may
/// release at any time, a
/// member once the deadline is reached. The circle closes once the rotation
/// comes back to the first member.
pub open spec fn step_release_payout(s: CircleState, caller: AddressModel, now: u64) -> Result<
    (CircleState, PayoutModel),
    CircleError,
> {
    match s.circle {
        None => Err(CircleError::CircleNotFound),
        Some(c) => {
            let total = cycle_pot(s.contributions, c.current_cycle);
            if !c.is_active {
                Err(CircleError::CircleNotActive)
            } else if caller != c.admin && now < c.cycle_deadline {
                Err(CircleError::DeadlineNotReached)
            } else if caller != c.admin && !c.members.contains(caller) {
                Err(CircleError::NotMember)
            } else if pot_overflows(s.contributions, c.current_cycle) {
                Err(CircleError::Overflow)
            } else if total <= 0 {
                Err(CircleError::NoContributions)
            } else if c.payout_index >= c.members.len() {
                Err(CircleError::RecipientMissing)
            } else if c.current_cycle == u32::MAX || now + c.cycle_length_secs > u64::MAX {
                Err(CircleError::Overflow)
            } else {
                let next_index = ((c.payout_index + 1) % (c.members.len() as int)) as u32;
                let next = CircleModel {
                    payout_index: next_index,
                    current_cycle: (c.current_cycle + 1) as u32,
                    cycle_deadline: (now + c.cycle_length_secs) as u64,
                    is_active: next_index != 0,
                    ..c
                };
                let payout = PayoutModel {
                    recipient: c.members[c.payout_index as int],
                    amount: total as i128,
                    cycle: c.current_cycle,
                    completed: next_index == 0,
                    next_cycle: (c.current_cycle + 1) as u32,
                };
                Ok(
                    (
                        CircleState {
                            circle: Some(next),
                            reputation: s.penalize_missed(c),
                            ..s
                        },
                        payout,
                    ),
                )
            }
        },
    }
}

/// The admin reopens a closed circle for another rotation, from the first
/// member, keeping the cycle count.
pub open spec fn step_restart_circle(s: CircleState, admin: AddressModel, now: u64) -> Result<
    (CircleState, u32),
    CircleError,
> {
    match s.circle {
        None => Err(CircleError::CircleNotFound),
        Some(c) => {
            if c.admin != admin {
                Err(CircleError::NotAdmin)
            } else if c.is_active {
                Err(CircleError::CircleStillActive)
            } else if now + c.cycle_length_secs > u64::MAX {
                Err(CircleError::Overflow)
            } else {
                let next = CircleModel {
                    is_active: true,
                    payout_index: 0,
                    cycle_deadline: (now + c.cycle_length_secs) as u64,
                    ..c
                };
                Ok((CircleState { circle: Some(next), ..s }, c.current_cycle))
            }
        },
    }
}

/// An address with enough reputation vouches, once, for a newcomer.
pub open spec fn step_vouch(s: CircleState, voucher: AddressModel, newcomer: AddressModel) -> Result<
    (CircleState, ()),
    CircleError,
> {
    let vs = s.vouchers_of(newcomer);
    if s.reputation_of(voucher) < VOUCH_THRESHOLD {
        Err(CircleError::InsufficientReputation)
    } else if vs.contains(voucher) {
        Err(CircleError::AlreadyVouched)
    } else if vs.len() >= u32::MAX {
        Err(CircleError::Overflow)
    } else {
        Ok((CircleState { vouches: s.vouches.insert(newcomer, vs.push(voucher)), ..s }, ()))
    }
}

/// A member opens a proposal; it gets the next id and an empty tally.
pub open spec fn step_propose(
    s: CircleState,
    proposer: AddressModel,
    proposal_type: ProposalTypeModel,
) -> Result<(CircleState, u32), CircleError> {
    match s.circle {
        None => Err(CircleError::CircleNotFound),
        Some(c) => {
            if !c.members.contains(proposer) {
                Err(CircleError::ProposerNotMember)
            } else if s.proposals.len() >= u32::MAX {
                Err(CircleError::Overflow)
            } else {
                let id = s.proposals.len() as u32;
                let p = ProposalModel {
                    id,
                    proposer,
                    proposal_type,
                    votes_yes: 0,
                    votes_no: 0,
                    voters: Seq::empty(),
                    executed: false,
                };
                Ok((CircleState { proposals: s.proposals.push(p), ..s }, id))
            }
        },
    }
}

/// A member votes once on an open proposal.
pub open spec fn step_vote(s: CircleState, voter: AddressModel, proposal_id: u32, vote_yes: bool) -> Result<
    (CircleState, ()),
    CircleError,
> {
    match s.circle {
        None => Err(CircleError::CircleNotFound),
        Some(c) => {
            if !c.members.contains(voter) {
                Err(CircleError::VoterNotMember)
            } else if proposal_id >= s.proposals.len() {
                Err(CircleError::ProposalNotFound)
            } else {
                let p = s.proposals[proposal_id as int];
                if p.executed {
                    Err(CircleError::ProposalExecuted)
                } else if p.voters.contains(voter) {
                    Err(CircleError::AlreadyVoted)
                } else if (vote_yes && p.votes_yes == u32::MAX) || (!vote_yes && p.votes_no
                    == u32::MAX) {
                    Err(CircleError::Overflow)
                } else {
                    let q = ProposalModel {
                        votes_yes: if vote_yes {
                            (p.votes_yes + 1) as u32
                        } else {
                            p.votes_yes
                        },
                        votes_no: if vote_yes {
                            p.votes_no
                        } else {
                            (p.votes_no + 1) as u32
                        },
                        voters: p.voters.push(voter),
                        ..p
                    };
                    Ok(
                        (
                            CircleState {
                                proposals: s.proposals.update(proposal_id as int, q),
                                ..s
                            },
                            (),
                        ),
                    )
                }
            }
        },
    }
}

/// Keeps every address but `who`.
pub open spec fn other_than(who: AddressModel) -> spec_fn(AddressModel) -> bool {
    |x: AddressModel| x != who
}

/// The circle after a proposal's rule change.
pub open spec fn apply_proposal(c: CircleModel, t: ProposalTypeModel) -> CircleModel {
    match t {
        ProposalTypeModel::ChangeAmount(a) => CircleModel { contribution_amount: a, ..c },
        ProposalTypeModel::ChangeCycleLength(l) => CircleModel { cycle_length_secs: l, ..c },
        ProposalTypeModel::AddMember(m) => CircleModel { members: c.members.push(m), ..c },
        ProposalTypeModel::RemoveMember(m) => CircleModel {
            members: c.members.filter(other_than(m)),
            ..c
        },
    }
}

/// A proposal with more yes votes than half the members is applied to the
/// circle at once and closed.
pub open spec fn step_execute_proposal(s: CircleState, caller: AddressModel, proposal_id: u32) -> Result<
    (CircleState, ()),
    CircleError,
> {
    match s.circle {
        None => Err(CircleError::CircleNotFound),
        Some(c) => {
            if proposal_id >= s.proposals.len() {
                Err(CircleError::ProposalNotFound)
            } else {
                let p = s.proposals[proposal_id as int];
                if p.executed {
                    Err(CircleError::ProposalExecuted)
                } else if !(p.votes_yes > c.members.len() / 2) {
                    Err(CircleError::NoMajority)
                } else if p.proposal_type is AddMember && c.members.len() >= u32::MAX {
                    Err(CircleError::Overflow)
                } else {
                    Ok(
                        (
                            CircleState {
                                circle: Some(apply_proposal(c, p.proposal_type)),
                                proposals: s.proposals.update(
                                    proposal_id as int,
                                    ProposalModel { executed: true, ..p },
                                ),
                                ..s
                            },
                            (),
                        ),
                    )
                }
            }
        },
    }
}

} // verus!
