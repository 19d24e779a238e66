//! When each operation goes through, stated over its inputs: every operation
//! succeeds as soon as its documented conditions hold, with the result they
//! describe, and succeeds only where they hold. Records of past contributions
//! are never lost.
use vstd::prelude::*;
use crate::types::{AddressModel, CircleError, ContributionModel, PayoutModel, ProposalTypeModel};
use crate::model::{
    CircleState, step_create_circle, step_contribute, step_release_payout, step_restart_circle,
    step_vouch, step_propose, step_vote, step_execute_proposal, cycle_pot, pot_overflows,
    fits_i128, missed_count, contributed,
};

verus! {

/// A circle is created whenever none exists yet, it has at least two members,
/// a positive amount, a cycle of at least an hour, and the first deadline fits
/// the clock.
pub proof fn law_create_circle_succeeds(
    s: CircleState,
    admin: AddressModel,
    name: Seq<u8>,
    usdc_token: AddressModel,
    members: Seq<AddressModel>,
    contribution_amount: i128,
    cycle_length_secs: u64,
    now: u64,
)
    requires
        s.circle is None,
        members.len() >= 2,
        contribution_amount > 0,
        cycle_length_secs >= 3600,
        now + cycle_length_secs <= u64::MAX,
    ensures
        step_create_circle(s, admin, name, usdc_token, members, contribution_amount, cycle_length_secs, now) is Ok,
        ({
            let s2 = step_create_circle(
                s,
                admin,
                name,
                usdc_token,
                members,
                contribution_amount,
                cycle_length_secs,
                now,
            )->Ok_0.0;
            let c = s2.circle->Some_0;
            &&& c.admin == admin && c.name == name && c.usdc_token == usdc_token
            &&& c.members == members && c.contribution_amount == contribution_amount
            &&& c.cycle_length_secs == cycle_length_secs
            &&& c.cycle_deadline == now + cycle_length_secs
            &&& c.current_cycle == 1 && c.payout_index == 0 && c.is_active
        }),
{
}

/// A member's contribution goes through whenever the circle is active, the
/// deadline has not passed, the member has not paid this cycle and the reward
/// fits; it appends exactly one record, at the contribution amount in force,
/// and adds ten points. It goes through only when those conditions hold.
pub proof fn law_contribute_admission(s: CircleState, member: AddressModel, now: u64)
    ensures
        ({
            let ok = s.circle matches Some(c) && c.is_active && c.members.contains(member) && now
                <= c.cycle_deadline && !s.has_contributed(member, c.current_cycle)
                && s.reputation_of(member) + 10 <= u32::MAX;
            step_contribute(s, member, now) is Ok <==> ok
        }),
        step_contribute(s, member, now) is Ok ==> ({
            let (s2, rec) = step_contribute(s, member, now)->Ok_0;
            let c = s.circle->Some_0;
            &&& rec == ContributionModel {
                member,
                cycle: c.current_cycle,
                amount: c.contribution_amount,
                timestamp: now,
            }
            &&& s2.contributions == s.contributions.push(rec)
            &&& s2.reputation_of(member) == s.reputation_of(member) + 10
            &&& s2.circle == s.circle
            &&& s2.proposals == s.proposals
            &&& s2.vouches == s.vouches
        }),
{
}

/// A payout goes through whenever the circle is active, the caller is the
/// admin or a member after the deadline (whether or not the caller paid in),
/// the cycle's pot adds up within range and is positive, there is a member at
/// the payout index, and the cycle count and next deadline fit. It pays that
/// member the whole pot. It goes through only when those conditions hold.
pub proof fn law_release_payout_admission(s: CircleState, caller: AddressModel, now: u64)
    ensures
        ({
            let ok = s.circle matches Some(c) && c.is_active && (caller == c.admin || (now
                >= c.cycle_deadline && c.members.contains(caller))) && !pot_overflows(
                s.contributions,
                c.current_cycle,
            ) && cycle_pot(s.contributions, c.current_cycle) > 0 && c.payout_index
                < c.members.len() && c.current_cycle < u32::MAX && now + c.cycle_length_secs
                <= u64::MAX;
            step_release_payout(s, caller, now) is Ok <==> ok
        }),
        step_release_payout(s, caller, now) is Ok ==> ({
            let (s2, p) = step_release_payout(s, caller, now)->Ok_0;
            let c = s.circle->Some_0;
            let c2 = s2.circle->Some_0;
            &&& p.recipient == c.members[c.payout_index as int]
            &&& p.amount == cycle_pot(s.contributions, c.current_cycle)
            &&& p.cycle == c.current_cycle
            &&& p.next_cycle == c.current_cycle + 1
            &&& c2.current_cycle == c.current_cycle + 1
            &&& c2.cycle_deadline == now + c.cycle_length_secs
            &&& s2.contributions == s.contributions
            &&& s2.proposals == s.proposals
            &&& s2.vouches == s.vouches
        }),
{
    if step_release_payout(s, caller, now) is Ok {
        let cs = s.contributions;
        let c = s.circle->Some_0;
        assert(cs.take(cs.len() as int) =~= cs);
        assert(fits_i128(cycle_pot(cs.take(cs.len() as int), c.current_cycle)));
    }
}

/// The admin reopens a closed circle whenever the next deadline fits the
/// clock, and only the admin, only a closed circle.
pub proof fn law_restart_admission(s: CircleState, admin: AddressModel, now: u64)
    ensures
        ({
            let ok = s.circle matches Some(c) && c.admin == admin && !c.is_active && now
                + c.cycle_length_secs <= u64::MAX;
            step_restart_circle(s, admin, now) is Ok <==> ok
        }),
        step_restart_circle(s, admin, now) is Ok ==> ({
            let (s2, cycle) = step_restart_circle(s, admin, now)->Ok_0;
            let c = s.circle->Some_0;
            let c2 = s2.circle->Some_0;
            &&& cycle == c.current_cycle
            &&& c2.is_active && c2.payout_index == 0
            &&& c2.cycle_deadline == now + c.cycle_length_secs
            &&& c2.members == c.members && c2.current_cycle == c.current_cycle
        }),
{
}

/// A vouch goes through whenever the voucher has at least fifty points and
/// has not vouched for the newcomer yet (and the list has room in the
/// ledger), with no circle needed and no cap on vouchers; it adds the voucher
/// at the end of the newcomer's list. It goes through only when those
/// conditions hold.
pub proof fn law_vouch_admission(s: CircleState, voucher: AddressModel, newcomer: AddressModel)
    ensures
        ({
            let ok = s.reputation_of(voucher) >= 50 && !s.vouchers_of(newcomer).contains(voucher)
                && s.vouchers_of(newcomer).len() < u32::MAX;
            step_vouch(s, voucher, newcomer) is Ok <==> ok
        }),
        step_vouch(s, voucher, newcomer) is Ok ==> ({
            let s2 = step_vouch(s, voucher, newcomer)->Ok_0.0;
            &&& s2.vouchers_of(newcomer) == s.vouchers_of(newcomer).push(voucher)
            &&& s2.vouchers_of(newcomer).len() == s.vouchers_of(newcomer).len() + 1
            &&& forall|a: AddressModel| a != newcomer ==> s2.vouchers_of(a) == s.vouchers_of(a)
        }),
{
}

/// Any member proposes whenever the proposal count has room, whether the
/// circle is open or closed; the proposal gets the next id and an empty
/// tally. Only members propose.
pub proof fn law_propose_admission(s: CircleState, proposer: AddressModel, t: ProposalTypeModel)
    ensures
        ({
            let ok = s.circle matches Some(c) && c.members.contains(proposer) && s.proposals.len()
                < u32::MAX;
            step_propose(s, proposer, t) is Ok <==> ok
        }),
        step_propose(s, proposer, t) is Ok ==> ({
            let (s2, id) = step_propose(s, proposer, t)->Ok_0;
            let p = s2.proposals[id as int];
            &&& id == s.proposals.len()
            &&& s2.proposals.len() == s.proposals.len() + 1
            &&& p.proposer == proposer && p.proposal_type == t && p.votes_yes == 0 && p.votes_no
                == 0 && p.voters.len() == 0 && !p.executed
            &&& s2.circle == s.circle
        }),
{
}

/// A member votes whenever the proposal exists, is open, the member has not
/// voted on it and the tally has room, whether the circle is open or closed;
/// the vote counts once on its side. Only members vote.
pub proof fn law_vote_admission(s: CircleState, voter: AddressModel, proposal_id: u32, vote_yes: bool)
    ensures
        ({
            let ok = s.circle matches Some(c) && c.members.contains(voter) && proposal_id
                < s.proposals.len() && !s.proposals[proposal_id as int].executed
                && !s.proposals[proposal_id as int].voters.contains(voter) && (if vote_yes {
                s.proposals[proposal_id as int].votes_yes < u32::MAX
            } else {
                s.proposals[proposal_id as int].votes_no < u32::MAX
            });
            step_vote(s, voter, proposal_id, vote_yes) is Ok <==> ok
        }),
        step_vote(s, voter, proposal_id, vote_yes) is Ok ==> ({
            let s2 = step_vote(s, voter, proposal_id, vote_yes)->Ok_0.0;
            let p = s.proposals[proposal_id as int];
            let q = s2.proposals[proposal_id as int];
            &&& q.votes_yes + q.votes_no == p.votes_yes + p.votes_no + 1
            &&& (vote_yes ==> q.votes_yes == p.votes_yes + 1)
            &&& (!vote_yes ==> q.votes_no == p.votes_no + 1)
            &&& q.voters == p.voters.push(voter)
            &&& s2.circle == s.circle
        }),
{
}

/// A proposal is executed whenever it exists, is open and has more yes votes
/// than half the members (a simple majority, whoever asks, whatever the
/// amount), with room for one more member where it adds one; the change
/// applies to the circle at once. It is executed only when those conditions
/// hold.
pub proof fn law_execute_admission(s: CircleState, caller: AddressModel, proposal_id: u32)
    ensures
        ({
            let ok = s.circle matches Some(c) && proposal_id < s.proposals.len()
                && !s.proposals[proposal_id as int].executed
                && s.proposals[proposal_id as int].votes_yes > c.members.len() / 2 && (s.proposals[proposal_id as int].proposal_type is AddMember
                ==> c.members.len() < u32::MAX);
            step_execute_proposal(s, caller, proposal_id) is Ok <==> ok
        }),
        step_execute_proposal(s, caller, proposal_id) is Ok ==> ({
            let s2 = step_execute_proposal(s, caller, proposal_id)->Ok_0.0;
            let c = s.circle->Some_0;
            let c2 = s2.circle->Some_0;
            &&& s2.proposals[proposal_id as int].executed
            &&& s2.proposals.len() == s.proposals.len()
            &&& match s.proposals[proposal_id as int].proposal_type {
                ProposalTypeModel::ChangeAmount(a) => c2.contribution_amount == a && c2.members
                    == c.members,
                ProposalTypeModel::ChangeCycleLength(l) => c2.cycle_length_secs == l
                    && c2.members == c.members && c2.contribution_amount == c.contribution_amount,
                ProposalTypeModel::AddMember(m) => c2.members == c.members.push(m)
                    && c2.contribution_amount == c.contribution_amount,
                ProposalTypeModel::RemoveMember(m) => !c2.members.contains(m)
                    && c2.contribution_amount == c.contribution_amount && (forall|x: AddressModel|
                    x != m ==> (c2.members.contains(x) <==> c.members.contains(x))),
            }
        }),
{
    broadcast use vstd::seq_lib::group_filter_ensures;

    if step_execute_proposal(s, caller, proposal_id) is Ok {
        let c = s.circle->Some_0;
        let s2 = step_execute_proposal(s, caller, proposal_id)->Ok_0.0;
        let c2 = s2.circle->Some_0;
        match s.proposals[proposal_id as int].proposal_type {
            ProposalTypeModel::AddMember(m) => {},
            ProposalTypeModel::RemoveMember(m) => {
                assert forall|x: AddressModel| x != m implies (c2.members.contains(x)
                    <==> c.members.contains(x)) by {
                    if c.members.contains(x) {
                        let i = choose|i: int| 0 <= i < c.members.len() && c.members[i] == x;
                        assert(crate::model::other_than(m)(c.members[i]));
                    }
                    if c2.members.contains(x) {
                        c.members.lemma_filter_contains_rev(crate::model::other_than(m), x);
                    }
                }
                if c2.members.contains(m) {
                    let i = choose|i: int| 0 <= i < c2.members.len() && c2.members[i] == m;
                    assert(crate::model::other_than(m)(c2.members[i]));
                }
            },
            _ => {},
        }
    }
}

/// Contribution records are only ever added: no operation but creating the
/// circle (which happens once) removes one, so whoever had paid for a cycle
/// still has, and a contribution appends its record after all earlier ones.
pub proof fn law_records_kept(
    s: CircleState,
    who: AddressModel,
    cycle: u32,
    actor: AddressModel,
    other: AddressModel,
    now: u64,
    t: ProposalTypeModel,
    proposal_id: u32,
    vote_yes: bool,
)
    requires
        s.has_contributed(who, cycle),
    ensures
        step_contribute(s, actor, now) matches Ok((s2, rec)) ==> s2.has_contributed(who, cycle)
            && s2.contributions.take(s.contributions.len() as int) == s.contributions,
        step_release_payout(s, actor, now) matches Ok((s2, _)) ==> s2.has_contributed(who, cycle),
        step_restart_circle(s, actor, now) matches Ok((s2, _)) ==> s2.has_contributed(who, cycle),
        step_vouch(s, actor, other) matches Ok((s2, _)) ==> s2.has_contributed(who, cycle),
        step_propose(s, actor, t) matches Ok((s2, _)) ==> s2.has_contributed(who, cycle),
        step_vote(s, actor, proposal_id, vote_yes) matches Ok((s2, _)) ==> s2.has_contributed(
            who,
            cycle,
        ),
        step_execute_proposal(s, actor, proposal_id) matches Ok((s2, _)) ==> s2.has_contributed(
            who,
            cycle,
        ),
{
    if let Ok((s2, rec)) = step_contribute(s, actor, now) {
        let i = choose|i: int|
            0 <= i < s.contributions.len() && #[trigger] s.contributions[i].member == who
                && s.contributions[i].cycle == cycle;
        assert(s2.contributions[i] == s.contributions[i]);
        assert(s2.contributions.take(s.contributions.len() as int) =~= s.contributions);
    }
}

/// Which refusal each failed condition of a contribution gives, in the order
/// the contract checks them.
pub proof fn law_contribute_refusals(s: CircleState, member: AddressModel, now: u64)
    ensures
        s.circle is None ==> step_contribute(s, member, now) == Err::<
            (CircleState, ContributionModel),
            CircleError,
        >(CircleError::CircleNotFound),
        s.circle matches Some(c) ==> {
            let r = step_contribute(s, member, now);
            &&& !c.is_active ==> r == Err::<(CircleState, ContributionModel), CircleError>(
                CircleError::CircleNotActive,
            )
            &&& c.is_active && !c.members.contains(member) ==> r == Err::<
                (CircleState, ContributionModel),
                CircleError,
            >(CircleError::NotMember)
            &&& c.is_active && c.members.contains(member) && now > c.cycle_deadline ==> r == Err::<
                (CircleState, ContributionModel),
                CircleError,
            >(CircleError::DeadlinePassed)
            &&& c.is_active && c.members.contains(member) && now <= c.cycle_deadline
                && s.has_contributed(member, c.current_cycle) ==> r == Err::<
                (CircleState, ContributionModel),
                CircleError,
            >(CircleError::AlreadyContributed)
        },
{
}

/// Which refusal each failed condition of a payout gives.
pub proof fn law_release_payout_refusals(s: CircleState, caller: AddressModel, now: u64)
    ensures
        s.circle is None ==> step_release_payout(s, caller, now) == Err::<
            (CircleState, PayoutModel),
            CircleError,
        >(CircleError::CircleNotFound),
        s.circle matches Some(c) ==> {
            let r = step_release_payout(s, caller, now);
            &&& !c.is_active ==> r == Err::<(CircleState, PayoutModel), CircleError>(
                CircleError::CircleNotActive,
            )
            &&& c.is_active && caller != c.admin && now < c.cycle_deadline ==> r == Err::<
                (CircleState, PayoutModel),
                CircleError,
            >(CircleError::DeadlineNotReached)
            &&& c.is_active && caller != c.admin && now >= c.cycle_deadline
                && !c.members.contains(caller) ==> r == Err::<(CircleState, PayoutModel), CircleError>(
                CircleError::NotMember,
            )
            &&& c.is_active && (caller == c.admin || (now >= c.cycle_deadline && c.members.contains(
                caller,
            ))) && !pot_overflows(s.contributions, c.current_cycle) && cycle_pot(
                s.contributions,
                c.current_cycle,
            ) <= 0 ==> r == Err::<(CircleState, PayoutModel), CircleError>(
                CircleError::NoContributions,
            )
        },
{
}

/// Which refusal each failed condition of creating the circle gives: the
/// argument checks come first, then the existing circle.
pub proof fn law_create_circle_refusals(
    s: CircleState,
    admin: AddressModel,
    name: Seq<u8>,
    usdc_token: AddressModel,
    members: Seq<AddressModel>,
    contribution_amount: i128,
    cycle_length_secs: u64,
    now: u64,
)
    ensures
        ({
            let r = step_create_circle(
                s,
                admin,
                name,
                usdc_token,
                members,
                contribution_amount,
                cycle_length_secs,
                now,
            );
            &&& members.len() < 2 ==> r == Err::<(CircleState, ()), CircleError>(
                CircleError::NotEnoughMembers,
            )
            &&& members.len() >= 2 && contribution_amount <= 0 ==> r == Err::<
                (CircleState, ()),
                CircleError,
            >(CircleError::NonPositiveContribution)
            &&& members.len() >= 2 && contribution_amount > 0 && cycle_length_secs < 3600 ==> r
                == Err::<(CircleState, ()), CircleError>(CircleError::CycleTooShort)
            &&& members.len() >= 2 && contribution_amount > 0 && cycle_length_secs >= 3600
                && s.circle is Some ==> r == Err::<(CircleState, ()), CircleError>(
                CircleError::CircleExists,
            )
        }),
{
}

/// Which refusal each failed condition of a vouch gives.
pub proof fn law_vouch_refusals(s: CircleState, voucher: AddressModel, newcomer: AddressModel)
    ensures
        s.reputation_of(voucher) < 50 ==> step_vouch(s, voucher, newcomer) == Err::<
            (CircleState, ()),
            CircleError,
        >(CircleError::InsufficientReputation),
        s.reputation_of(voucher) >= 50 && s.vouchers_of(newcomer).contains(voucher) ==> step_vouch(
            s,
            voucher,
            newcomer,
        ) == Err::<(CircleState, ()), CircleError>(CircleError::AlreadyVouched),
{
}

/// Which refusal each failed condition of proposing, voting and executing
/// gives.
pub proof fn law_governance_refusals(
    s: CircleState,
    who: AddressModel,
    t: ProposalTypeModel,
    proposal_id: u32,
    vote_yes: bool,
)
    ensures
        s.circle is None ==> step_propose(s, who, t) == Err::<(CircleState, u32), CircleError>(
            CircleError::CircleNotFound,
        ) && step_vote(s, who, proposal_id, vote_yes) == Err::<(CircleState, ()), CircleError>(
            CircleError::CircleNotFound,
        ) && step_execute_proposal(s, who, proposal_id) == Err::<(CircleState, ()), CircleError>(
            CircleError::CircleNotFound,
        ),
        s.circle matches Some(c) ==> {
            &&& !c.members.contains(who) ==> step_propose(s, who, t) == Err::<
                (CircleState, u32),
                CircleError,
            >(CircleError::ProposerNotMember)
            &&& !c.members.contains(who) ==> step_vote(s, who, proposal_id, vote_yes) == Err::<
                (CircleState, ()),
                CircleError,
            >(CircleError::VoterNotMember)
            &&& c.members.contains(who) && proposal_id >= s.proposals.len() ==> step_vote(
                s,
                who,
                proposal_id,
                vote_yes,
            ) == Err::<(CircleState, ()), CircleError>(CircleError::ProposalNotFound)
            &&& c.members.contains(who) && proposal_id < s.proposals.len()
                && s.proposals[proposal_id as int].executed ==> step_vote(
                s,
                who,
                proposal_id,
                vote_yes,
            ) == Err::<(CircleState, ()), CircleError>(CircleError::ProposalExecuted)
            &&& c.members.contains(who) && proposal_id < s.proposals.len()
                && !s.proposals[proposal_id as int].executed
                && s.proposals[proposal_id as int].voters.contains(who) ==> step_vote(
                s,
                who,
                proposal_id,
                vote_yes,
            ) == Err::<(CircleState, ()), CircleError>(CircleError::AlreadyVoted)
            &&& proposal_id >= s.proposals.len() ==> step_execute_proposal(s, who, proposal_id)
                == Err::<(CircleState, ()), CircleError>(CircleError::ProposalNotFound)
            &&& proposal_id < s.proposals.len() && s.proposals[proposal_id as int].executed
                ==> step_execute_proposal(s, who, proposal_id) == Err::<
                (CircleState, ()),
                CircleError,
            >(CircleError::ProposalExecuted)
            &&& proposal_id < s.proposals.len() && !s.proposals[proposal_id as int].executed
                && s.proposals[proposal_id as int].votes_yes <= c.members.len() / 2
                ==> step_execute_proposal(s, who, proposal_id) == Err::<
                (CircleState, ()),
                CircleError,
            >(CircleError::NoMajority)
        },
{
}

/// Which refusal each failed condition of a restart gives.
pub proof fn law_restart_refusals(s: CircleState, admin: AddressModel, now: u64)
    ensures
        s.circle is None ==> step_restart_circle(s, admin, now) == Err::<
            (CircleState, u32),
            CircleError,
        >(CircleError::CircleNotFound),
        s.circle matches Some(c) ==> {
            &&& c.admin != admin ==> step_restart_circle(s, admin, now) == Err::<
                (CircleState, u32),
                CircleError,
            >(CircleError::NotAdmin)
            &&& c.admin == admin && c.is_active ==> step_restart_circle(s, admin, now) == Err::<
                (CircleState, u32),
                CircleError,
            >(CircleError::CircleStillActive)
        },
{
}

/// At a payout a member who holds one place in the rotation and did not pay
/// in loses twenty points, stopping at zero; an address that paid in, or that
/// holds no place, keeps its score.
pub proof fn law_payout_penalty_amounts(s: CircleState, caller: AddressModel, now: u64, who: AddressModel)
    requires
        step_release_payout(s, caller, now) is Ok,
    ensures
        ({
            let s2 = step_release_payout(s, caller, now)->Ok_0.0;
            let c = s.circle->Some_0;
            let r = s.reputation_of(who);
            &&& (!c.members.contains(who) || s.has_contributed(who, c.current_cycle))
                ==> s2.reputation_of(who) == r
            &&& (c.members.filter(|x: AddressModel| x == who).len() == 1 && !s.has_contributed(
                who,
                c.current_cycle,
            )) ==> s2.reputation_of(who) == if r >= 20 {
                r - 20
            } else {
                0
            }
        }),
{
    let c = s.circle->Some_0;
    let cs = s.contributions;
    let cyc = c.current_cycle;
    lemma_missed_is_places(c.members, cs, cyc, who);
}

/// The places of the rotation counted as missed for `who` are `who`'s places,
/// or none where `who` paid in.
proof fn lemma_missed_is_places(
    members: Seq<AddressModel>,
    cs: Seq<ContributionModel>,
    cycle: u32,
    who: AddressModel,
)
    ensures
        missed_count(members, cs, cycle, who) == if contributed(cs, who, cycle) {
            0
        } else {
            members.filter(|x: AddressModel| x == who).len()
        },
        !members.contains(who) ==> members.filter(|x: AddressModel| x == who).len() == 0,
    decreases members.len(),
{
    reveal(Seq::filter);
    if members.len() > 0 {
        lemma_missed_is_places(members.drop_last(), cs, cycle, who);
        if !members.contains(who) {
            assert(!members.drop_last().contains(who)) by {
                if members.drop_last().contains(who) {
                    let i = choose|i: int| 0 <= i < members.drop_last().len() && members.drop_last()[i] == who;
                    assert(members[i] == who);
                }
            }
            assert(members.last() == members[members.len() - 1]);
        }
    }
}

} // verus!
