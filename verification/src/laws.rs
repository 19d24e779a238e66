//! Properties of the circle that span operations or hold of every state.
use vstd::prelude::*;
use crate::types::{AddressModel, CircleError, PayoutModel, ProposalTypeModel};
use crate::model::{
    CircleState, step_create_circle, step_contribute, step_release_payout, step_restart_circle,
    step_vouch, step_propose, step_vote, step_execute_proposal, cycle_pot, fits_i128, missed_count,
    penalized, contributed, other_than, CONTRIBUTION_REWARD, VOUCH_THRESHOLD,
};

verus! {

/// A successful contribution is recorded for the current cycle at the
/// contribution amount and earns the member ten reputation points; nobody else's score changes.
pub proof fn law_contribution_recorded(s: CircleState, member: AddressModel, now: u64)
    requires
        step_contribute(s, member, now) is Ok,
    ensures
        ({
            let (s2, rec) = step_contribute(s, member, now)->Ok_0;
            let c = s.circle->Some_0;
            &&& s2.has_contributed(member, c.current_cycle)
            &&& s2.reputation_of(member) == s.reputation_of(member) + CONTRIBUTION_REWARD
            &&& rec.amount == c.contribution_amount
            &&& rec.cycle == c.current_cycle
            &&& forall|a: AddressModel| a != member ==> s2.reputation_of(a) == s.reputation_of(a)
        }),
{
    let (s2, rec) = step_contribute(s, member, now)->Ok_0;
    let c = s.circle->Some_0;
    assert(s2.contributions[s2.contributions.len() - 1] == rec);
    assert(s2.contributions[s2.contributions.len() - 1].member == member);
}

/// A member cannot contribute twice in one cycle: once a contribution has gone
/// through, the same member's next contribution is refused, as already made
/// while the cycle is open.
pub proof fn law_no_double_contribution(s: CircleState, member: AddressModel, now: u64, later: u64)
    requires
        step_contribute(s, member, now) is Ok,
    ensures
        step_contribute(step_contribute(s, member, now)->Ok_0.0, member, later) is Err,
        later <= s.circle->Some_0.cycle_deadline ==> step_contribute(
            step_contribute(s, member, now)->Ok_0.0,
            member,
            later,
        ) == Err::<(CircleState, crate::types::ContributionModel), CircleError>(
            CircleError::AlreadyContributed,
        ),
{
    law_contribution_recorded(s, member, now);
}

/// A payout goes to the member at the payout index and carries exactly the
/// amounts recorded for the cycle; it moves the rotation on by one place and
/// the cycle by one, and the circle closes exactly when the rotation wraps
/// round.
pub proof fn law_payout_rotation(s: CircleState, caller: AddressModel, now: u64)
    requires
        s.wf(),
        step_release_payout(s, caller, now) is Ok,
    ensures
        ({
            let (s2, p) = step_release_payout(s, caller, now)->Ok_0;
            let c = s.circle->Some_0;
            let c2 = s2.circle->Some_0;
            &&& c.payout_index < c.members.len()
            &&& p.recipient == c.members[c.payout_index as int]
            &&& p.amount == cycle_pot(s.contributions, c.current_cycle)
            &&& p.amount > 0
            &&& p.cycle == c.current_cycle
            &&& c2.payout_index == (c.payout_index + 1) % (c.members.len() as int)
            &&& c2.current_cycle == c.current_cycle + 1
            &&& c2.cycle_deadline == now + c.cycle_length_secs
            &&& c2.is_active == (c2.payout_index != 0)
            &&& p.completed == !c2.is_active
            &&& c2.members == c.members
            &&& c2.payout_index == 0 <==> c.payout_index + 1 == c.members.len()
            &&& c.payout_index + 1 < c.members.len() ==> c2.payout_index == c.payout_index + 1
        }),
{
    let c = s.circle->Some_0;
    assert(c.payout_index + 1 <= c.members.len());
    let cs = s.contributions;
    assert(cs.take(cs.len() as int) =~= cs);
    assert(fits_i128(cycle_pot(cs.take(cs.len() as int), c.current_cycle)));
    let x = c.payout_index + 1;
    let n = c.members.len() as int;
    if x < n {
        assert(x % n == x) by (nonlinear_arith)
            requires
                0 <= x < n,
        ;
    } else {
        assert(x % n == 0) by (nonlinear_arith)
            requires
                x == n,
                n > 0,
        ;
    }
}

/// A payout goes through only for the admin, or for a member once the
/// deadline is reached.
pub proof fn law_payout_authority(s: CircleState, caller: AddressModel, now: u64)
    requires
        step_release_payout(s, caller, now) is Ok,
    ensures
        caller == s.circle->Some_0.admin || (now >= s.circle->Some_0.cycle_deadline
            && s.circle->Some_0.members.contains(caller)),
{
}

/// At a payout every place of the rotation whose holder missed the cycle costs
/// that holder twenty points, and a score never goes below zero: a holder who
/// contributed keeps their score, and nobody's score rises.
pub proof fn law_missed_contribution_penalty(
    s: CircleState,
    caller: AddressModel,
    now: u64,
    who: AddressModel,
)
    requires
        step_release_payout(s, caller, now) is Ok,
    ensures
        ({
            let s2 = step_release_payout(s, caller, now)->Ok_0.0;
            let c = s.circle->Some_0;
            let missed = missed_count(c.members, s.contributions, c.current_cycle, who);
            &&& s2.reputation_of(who) == penalized(s.reputation_of(who), missed)
            &&& s2.reputation_of(who) <= s.reputation_of(who)
            &&& contributed(s.contributions, who, c.current_cycle) ==> s2.reputation_of(who)
                == s.reputation_of(who)
            &&& (!contributed(s.contributions, who, c.current_cycle) && c.members.contains(who))
                ==> missed >= 1
        }),
{
    let c = s.circle->Some_0;
    if contributed(s.contributions, who, c.current_cycle) {
        lemma_missed_zero_when_contributed(c.members, s.contributions, c.current_cycle, who);
    }
    if !contributed(s.contributions, who, c.current_cycle) && c.members.contains(who) {
        lemma_missed_positive_when_member(c.members, s.contributions, c.current_cycle, who);
    }
}

/// A holder who contributed has no missed place.
proof fn lemma_missed_zero_when_contributed(
    members: Seq<AddressModel>,
    cs: Seq<crate::types::ContributionModel>,
    cycle: u32,
    who: AddressModel,
)
    requires
        contributed(cs, who, cycle),
    ensures
        missed_count(members, cs, cycle, who) == 0,
    decreases members.len(),
{
    if members.len() > 0 {
        lemma_missed_zero_when_contributed(members.drop_last(), cs, cycle, who);
    }
}

/// A member who did not contribute has at least one missed place.
proof fn lemma_missed_positive_when_member(
    members: Seq<AddressModel>,
    cs: Seq<crate::types::ContributionModel>,
    cycle: u32,
    who: AddressModel,
)
    requires
        !contributed(cs, who, cycle),
        members.contains(who),
    ensures
        missed_count(members, cs, cycle, who) >= 1,
    decreases members.len(),
{
    if members.last() != who {
        let i = choose|i: int| 0 <= i < members.len() && members[i] == who;
        assert(members.drop_last()[i] == who);
        lemma_missed_positive_when_member(members.drop_last(), cs, cycle, who);
    }
}

/// Vouching needs a reputation of at least fifty, adds exactly one vouch, and
/// an address can vouch for a given newcomer only once.
pub proof fn law_vouch_once(s: CircleState, voucher: AddressModel, newcomer: AddressModel)
    requires
        step_vouch(s, voucher, newcomer) is Ok,
    ensures
        s.reputation_of(voucher) >= VOUCH_THRESHOLD,
        step_vouch(s, voucher, newcomer)->Ok_0.0.vouchers_of(newcomer) == s.vouchers_of(
            newcomer,
        ).push(voucher),
        step_vouch(step_vouch(s, voucher, newcomer)->Ok_0.0, voucher, newcomer) == Err::<
            (CircleState, ()),
            CircleError,
        >(CircleError::AlreadyVouched),
{
    let s2 = step_vouch(s, voucher, newcomer)->Ok_0.0;
    assert(s2.vouchers_of(newcomer).last() == voucher);
    assert(s2.vouchers_of(newcomer).contains(voucher));
}

/// Proposal ids count up from zero: a new proposal gets the number of
/// proposals before it, the next one gets the following number, and a new
/// proposal starts open with an empty tally.
pub proof fn law_proposal_ids_sequential(
    s: CircleState,
    proposer: AddressModel,
    t: ProposalTypeModel,
    proposer2: AddressModel,
    t2: ProposalTypeModel,
)
    requires
        step_propose(s, proposer, t) is Ok,
    ensures
        ({
            let (s2, id) = step_propose(s, proposer, t)->Ok_0;
            let p = s2.proposals[id as int];
            &&& id == s.proposals.len()
            &&& p.id == id && p.proposer == proposer && p.proposal_type == t
            &&& p.votes_yes == 0 && p.votes_no == 0 && p.voters.len() == 0 && !p.executed
            &&& step_propose(s2, proposer2, t2) is Ok ==> step_propose(s2, proposer2, t2)->Ok_0.1
                == id + 1
        }),
{
}

/// Each member votes at most once on a proposal, and a vote adds one to
/// exactly one side of the tally.
pub proof fn law_one_vote_per_member(
    s: CircleState,
    voter: AddressModel,
    proposal_id: u32,
    vote_yes: bool,
    again: bool,
)
    requires
        step_vote(s, voter, proposal_id, vote_yes) is Ok,
    ensures
        ({
            let s2 = step_vote(s, voter, proposal_id, vote_yes)->Ok_0.0;
            let p = s.proposals[proposal_id as int];
            let q = s2.proposals[proposal_id as int];
            &&& q.votes_yes == p.votes_yes + if vote_yes {
                1int
            } else {
                0int
            }
            &&& q.votes_no == p.votes_no + if vote_yes {
                0int
            } else {
                1int
            }
            &&& q.voters == p.voters.push(voter)
            &&& step_vote(s2, voter, proposal_id, again) == Err::<(CircleState, ()), CircleError>(
                CircleError::AlreadyVoted,
            )
        }),
{
    let s2 = step_vote(s, voter, proposal_id, vote_yes)->Ok_0.0;
    let q = s2.proposals[proposal_id as int];
    assert(q.voters.last() == voter);
}

/// A proposal is applied at most once: it needs more yes votes than half the
/// members, and once executed it can be neither executed nor voted on again.
pub proof fn law_execute_once(
    s: CircleState,
    caller: AddressModel,
    proposal_id: u32,
    caller2: AddressModel,
    voter: AddressModel,
    vote_yes: bool,
)
    requires
        step_execute_proposal(s, caller, proposal_id) is Ok,
    ensures
        ({
            let s2 = step_execute_proposal(s, caller, proposal_id)->Ok_0.0;
            &&& s.proposals[proposal_id as int].votes_yes > s.circle->Some_0.members.len() / 2
            &&& s2.proposals[proposal_id as int].executed
            &&& step_execute_proposal(s2, caller2, proposal_id) == Err::<
                (CircleState, ()),
                CircleError,
            >(CircleError::ProposalExecuted)
            &&& s2.circle->Some_0.members.contains(voter) ==> step_vote(
                s2,
                voter,
                proposal_id,
                vote_yes,
            ) == Err::<(CircleState, ()), CircleError>(CircleError::ProposalExecuted)
        }),
{
}

/// Executing a membership proposal adds the member at the end of the rotation,
/// or removes every place of the member while keeping the others in order.
pub proof fn law_membership_changes(s: CircleState, caller: AddressModel, proposal_id: u32)
    requires
        step_execute_proposal(s, caller, proposal_id) is Ok,
    ensures
        ({
            let s2 = step_execute_proposal(s, caller, proposal_id)->Ok_0.0;
            let before = s.circle->Some_0.members;
            let after = s2.circle->Some_0.members;
            match s.proposals[proposal_id as int].proposal_type {
                ProposalTypeModel::AddMember(m) => after == before.push(m) && after.contains(m),
                ProposalTypeModel::RemoveMember(m) => after == before.filter(other_than(m))
                    && !after.contains(m),
                _ => after == before,
            }
        }),
{
    let s2 = step_execute_proposal(s, caller, proposal_id)->Ok_0.0;
    let before = s.circle->Some_0.members;
    let after = s2.circle->Some_0.members;
    match s.proposals[proposal_id as int].proposal_type {
        ProposalTypeModel::AddMember(m) => {
            assert(after[after.len() - 1] == m);
        },
        ProposalTypeModel::RemoveMember(m) => {
            broadcast use vstd::seq_lib::group_filter_ensures;

            if after.contains(m) {
                let i = choose|i: int| 0 <= i < after.len() && after[i] == m;
                assert(other_than(m)(after[i]));
            }
        },
        _ => {},
    }
}

/// A circle is created once: creation needs no circle to exist yet, starts it
/// on cycle one, active, paying the first member first and charging the given
/// amount, and any later creation is refused.
pub proof fn law_create_circle(
    s: CircleState,
    admin: AddressModel,
    name: Seq<u8>,
    usdc_token: AddressModel,
    members: Seq<AddressModel>,
    contribution_amount: i128,
    cycle_length_secs: u64,
    now: u64,
    who: AddressModel,
    cycle: u32,
)
    requires
        step_create_circle(
            s,
            admin,
            name,
            usdc_token,
            members,
            contribution_amount,
            cycle_length_secs,
            now,
        ) is Ok,
    ensures
        ({
            let s2 = step_create_circle(
                s,
                admin,
                name,
                usdc_token,
                members,
                contribution_amount,
                cycle_length_secs,
                now,
            )->Ok_0.0;
            let c = s2.circle->Some_0;
            &&& s.circle is None
            &&& members.len() >= 2 && contribution_amount > 0 && cycle_length_secs >= 3600
            &&& c.current_cycle == 1 && c.is_active && c.payout_index == 0
            &&& c.contribution_amount == contribution_amount
            &&& c.members == members && c.admin == admin
            &&& c.cycle_deadline == now + cycle_length_secs
            &&& !s2.has_contributed(who, cycle)
            &&& s2.reputation == s.reputation && s2.vouches == s.vouches && s2.proposals
                == s.proposals
            &&& step_create_circle(s2, admin, name, usdc_token, members, contribution_amount, cycle_length_secs, now)
                == Err::<(CircleState, ()), CircleError>(CircleError::CircleExists)
        }),
{
}

/// A passed change of the contribution amount applies at once: every
/// contribution from then on, in the running cycle too, is charged and
/// recorded at the new amount, while what was already paid in stays as
/// recorded.
pub proof fn law_amount_change_immediate(
    s: CircleState,
    caller: AddressModel,
    proposal_id: u32,
    member: AddressModel,
    now: u64,
)
    requires
        step_execute_proposal(s, caller, proposal_id) is Ok,
        s.proposals[proposal_id as int].proposal_type is ChangeAmount,
    ensures
        ({
            let s2 = step_execute_proposal(s, caller, proposal_id)->Ok_0.0;
            let a = s.proposals[proposal_id as int].proposal_type->ChangeAmount_0;
            let c2 = s2.circle->Some_0;
            &&& c2.contribution_amount == a
            &&& s2.contributions == s.contributions
            &&& step_contribute(s2, member, now) matches Ok((_, rec)) ==> rec.amount == a
        }),
{
}

/// Only the admin restarts a circle, only once it has closed; it reopens from
/// the first member and keeps its cycle count.
pub proof fn law_restart_circle(s: CircleState, admin: AddressModel, now: u64)
    requires
        step_restart_circle(s, admin, now) is Ok,
    ensures
        ({
            let (s2, cycle) = step_restart_circle(s, admin, now)->Ok_0;
            let c = s.circle->Some_0;
            let c2 = s2.circle->Some_0;
            &&& c.admin == admin && !c.is_active
            &&& c2.is_active && c2.payout_index == 0
            &&& c2.current_cycle == c.current_cycle && cycle == c.current_cycle
            &&& c2.members == c.members
        }),
{
}

/// Each operation touches only its own part of the storage: contributing
/// changes the records and the member's score, a payout the circle and the
/// scores, a restart the circle, a vouch the vouches, proposing and voting the
/// proposals, executing the circle and the proposals, and creating the circle
/// and the records. In particular contributions, vouches, proposals and votes
/// never move the rotation.
pub proof fn law_frames(
    s: CircleState,
    who: AddressModel,
    other: AddressModel,
    name: Seq<u8>,
    members: Seq<AddressModel>,
    amount: i128,
    length: u64,
    now: u64,
    t: ProposalTypeModel,
    proposal_id: u32,
    vote_yes: bool,
)
    ensures
        step_create_circle(s, who, name, other, members, amount, length, now) matches Ok((s2, _))
            ==> s2.reputation == s.reputation && s2.vouches == s.vouches && s2.proposals
            == s.proposals,
        step_contribute(s, who, now) matches Ok((s2, _)) ==> s2.circle == s.circle && s2.vouches
            == s.vouches && s2.proposals == s.proposals,
        step_release_payout(s, who, now) matches Ok((s2, _)) ==> s2.contributions
            == s.contributions && s2.vouches == s.vouches && s2.proposals == s.proposals,
        step_restart_circle(s, who, now) matches Ok((s2, _)) ==> s2.contributions
            == s.contributions && s2.reputation == s.reputation && s2.vouches == s.vouches
            && s2.proposals == s.proposals,
        step_vouch(s, who, other) matches Ok((s2, _)) ==> s2.circle == s.circle && s2.contributions
            == s.contributions && s2.reputation == s.reputation && s2.proposals == s.proposals,
        step_propose(s, who, t) matches Ok((s2, _)) ==> s2.circle == s.circle && s2.contributions
            == s.contributions && s2.reputation == s.reputation && s2.vouches == s.vouches,
        step_vote(s, who, proposal_id, vote_yes) matches Ok((s2, _)) ==> s2.circle == s.circle
            && s2.contributions == s.contributions && s2.reputation == s.reputation && s2.vouches
            == s.vouches,
        step_execute_proposal(s, who, proposal_id) matches Ok((s2, _)) ==> s2.contributions
            == s.contributions && s2.reputation == s.reputation && s2.vouches == s.vouches,
{
}

/// An operation that leaves the rotation order and the admin alone.
pub enum RotationOp {
    Contribute { member: AddressModel, now: u64 },
    Release { caller: AddressModel, now: u64 },
    Vouch { voucher: AddressModel, newcomer: AddressModel },
    Propose { proposer: AddressModel, proposal_type: ProposalTypeModel },
    Vote { voter: AddressModel, proposal_id: u32, vote_yes: bool },
}

/// One operation's step, with the payout it made, if any.
pub open spec fn apply_op(s: CircleState, op: RotationOp) -> Result<
    (CircleState, Option<PayoutModel>),
    CircleError,
> {
    match op {
        RotationOp::Contribute { member, now } => match step_contribute(s, member, now) {
            Ok((s2, _)) => Ok((s2, None)),
            Err(e) => Err(e),
        },
        RotationOp::Release { caller, now } => match step_release_payout(s, caller, now) {
            Ok((s2, p)) => Ok((s2, Some(p))),
            Err(e) => Err(e),
        },
        RotationOp::Vouch { voucher, newcomer } => match step_vouch(s, voucher, newcomer) {
            Ok((s2, _)) => Ok((s2, None)),
            Err(e) => Err(e),
        },
        RotationOp::Propose { proposer, proposal_type } => match step_propose(
            s,
            proposer,
            proposal_type,
        ) {
            Ok((s2, _)) => Ok((s2, None)),
            Err(e) => Err(e),
        },
        RotationOp::Vote { voter, proposal_id, vote_yes } => match step_vote(
            s,
            voter,
            proposal_id,
            vote_yes,
        ) {
            Ok((s2, _)) => Ok((s2, None)),
            Err(e) => Err(e),
        },
    }
}

/// Operations run one after another, with the payouts they made in order, or
/// the first refusal.
pub open spec fn run_ops(s: CircleState, ops: Seq<RotationOp>) -> Result<
    (CircleState, Seq<PayoutModel>),
    CircleError,
>
    decreases ops.len(),
{
    if ops.len() == 0 {
        Ok((s, Seq::empty()))
    } else {
        match apply_op(s, ops[0]) {
            Err(e) => Err(e),
            Ok((s1, p)) => match run_ops(s1, ops.drop_first()) {
                Err(e) => Err(e),
                Ok((s2, ps)) => Ok(
                    (
                        s2,
                        match p {
                            Some(x) => seq![x] + ps,
                            None => ps,
                        },
                    ),
                ),
            },
        }
    }
}

/// The rotation from position `k` on: payouts go to the members from
/// position `k`, in order, until the circle closes.
proof fn lemma_rotation_from(s: CircleState, ops: Seq<RotationOp>, k: nat)
    requires
        s.wf(),
        s.circle is Some,
        k <= s.circle->Some_0.members.len(),
        ({
            let c = s.circle->Some_0;
            (k < c.members.len() && c.is_active && c.payout_index == k) || (k
                == c.members.len() && !c.is_active && c.payout_index == 0)
        }),
        run_ops(s, ops) is Ok,
    ensures
        ({
            let (s2, ps) = run_ops(s, ops)->Ok_0;
            let c = s.circle->Some_0;
            let m = c.members;
            let c2 = s2.circle->Some_0;
            &&& k + ps.len() <= m.len()
            &&& forall|i: int|
                0 <= i < ps.len() ==> (#[trigger] ps[i]).recipient == m[k + i] && ps[i].completed
                    == (k + i + 1 == m.len()) && ps[i].cycle == c.current_cycle + i
            &&& s2.circle is Some
            &&& c2.members == m
            &&& c2.admin == c.admin
            &&& c2.current_cycle == c.current_cycle + ps.len()
            &&& c2.is_active == (k + ps.len() < m.len())
            &&& c2.payout_index == if k + ps.len() < m.len() {
                k + ps.len()
            } else {
                0
            }
        }),
    decreases ops.len(),
{
    if ops.len() > 0 {
        let c = s.circle->Some_0;
        let (s1, p) = apply_op(s, ops[0])->Ok_0;
        let empty = Seq::<AddressModel>::empty();
        law_steps_keep_invariant(
            s,
            c.admin,
            c.admin,
            Seq::empty(),
            empty,
            0,
            0,
            0,
            ProposalTypeModel::ChangeAmount(0),
            0,
            true,
        );
        let k1: nat = match ops[0] {
            RotationOp::Release { caller, now } => {
                law_payout_rotation(s, caller, now);
                (k + 1) as nat
            },
            RotationOp::Contribute { member, now } => {
                law_frames(s, member, member, Seq::empty(), empty, 0, 0, now, ProposalTypeModel::ChangeAmount(0), 0, true);
                k
            },
            RotationOp::Vouch { voucher, newcomer } => {
                law_frames(s, voucher, newcomer, Seq::empty(), empty, 0, 0, 0, ProposalTypeModel::ChangeAmount(0), 0, true);
                k
            },
            RotationOp::Propose { proposer, proposal_type } => {
                law_frames(s, proposer, proposer, Seq::empty(), empty, 0, 0, 0, proposal_type, 0, true);
                k
            },
            RotationOp::Vote { voter, proposal_id, vote_yes } => {
                law_frames(s, voter, voter, Seq::empty(), empty, 0, 0, 0, ProposalTypeModel::ChangeAmount(0), proposal_id, vote_yes);
                k
            },
        };
        lemma_rotation_from(s1, ops.drop_first(), k1);
        let (s2, ps1) = run_ops(s1, ops.drop_first())->Ok_0;
        let ps = run_ops(s, ops)->Ok_0.1;
        if let Some(x) = p {
            assert(ps == seq![x] + ps1);
            assert forall|i: int| 0 <= i < ps.len() implies (#[trigger] ps[i]).recipient == c.members[k + i]
                && ps[i].completed == (k + i + 1 == c.members.len()) && ps[i].cycle == c.current_cycle
                + i by {
                if i > 0 {
                    assert(ps[i] == ps1[i - 1]);
                }
            }
        }
    }
}

/// One full rotation pays every member once, in the rotation order, then
/// closes the circle: from an active circle with members, at the first one, whatever
/// contributions, vouches, proposals and votes come between the payouts, the
/// i-th payout goes to the i-th member and pays cycle `first + i`, the circle
/// stays open until the last member is paid, and after that payout it is
/// closed, back at the first member, `n` cycles on.
pub proof fn law_full_rotation(s: CircleState, ops: Seq<RotationOp>)
    requires
        s.wf(),
        s.circle is Some,
        s.circle->Some_0.is_active,
        s.circle->Some_0.payout_index == 0,
        s.circle->Some_0.members.len() > 0,
        run_ops(s, ops) is Ok,
    ensures
        ({
            let (s2, ps) = run_ops(s, ops)->Ok_0;
            let c = s.circle->Some_0;
            let m = c.members;
            let n = m.len();
            let c2 = s2.circle->Some_0;
            &&& ps.len() <= n
            &&& forall|i: int|
                0 <= i < ps.len() ==> (#[trigger] ps[i]).recipient == m[i] && ps[i].completed == (i
                    + 1 == n) && ps[i].cycle == c.current_cycle + i
            &&& ps.len() == n ==> ps.map_values(|p: PayoutModel| p.recipient) == m
            &&& c2.members == m
            &&& c2.is_active == (ps.len() < n)
            &&& c2.payout_index == if ps.len() < n {
                ps.len() as int
            } else {
                0
            }
            &&& c2.current_cycle == c.current_cycle + ps.len()
        }),
{
    let c = s.circle->Some_0;
    lemma_rotation_from(s, ops, 0);
    let ps = run_ops(s, ops)->Ok_0.1;
    if ps.len() == c.members.len() {
        assert(ps.map_values(|p: PayoutModel| p.recipient) =~= c.members);
    }
}

/// Every operation keeps the state invariant: proposal ids match positions,
/// each tally counts its distinct voters, vouch lists hold no address twice,
/// and the rotation fits the ledger's limits.
pub proof fn law_steps_keep_invariant(
    s: CircleState,
    who: AddressModel,
    other: AddressModel,
    name: Seq<u8>,
    members: Seq<AddressModel>,
    amount: i128,
    length: u64,
    now: u64,
    t: ProposalTypeModel,
    proposal_id: u32,
    vote_yes: bool,
)
    requires
        s.wf(),
        members.len() <= u32::MAX,
    ensures
        step_create_circle(s, who, name, other, members, amount, length, now) matches Ok((s2, _))
            ==> s2.wf(),
        step_contribute(s, who, now) matches Ok((s2, _)) ==> s2.wf(),
        step_release_payout(s, who, now) matches Ok((s2, _)) ==> s2.wf(),
        step_restart_circle(s, who, now) matches Ok((s2, _)) ==> s2.wf(),
        step_vouch(s, who, other) matches Ok((s2, _)) ==> s2.wf(),
        step_propose(s, who, t) matches Ok((s2, _)) ==> s2.wf(),
        step_vote(s, who, proposal_id, vote_yes) matches Ok((s2, _)) ==> s2.wf(),
        step_execute_proposal(s, who, proposal_id) matches Ok((s2, _)) ==> s2.wf(),
{
    broadcast use vstd::seq_lib::group_filter_ensures;

    if let Ok((s2, _)) = step_vote(s, who, proposal_id, vote_yes) {
        let p = s.proposals[proposal_id as int];
        let q = s2.proposals[proposal_id as int];
        assert(q.voters.no_duplicates()) by {
            assert forall|i: int, j: int| 0 <= i < q.voters.len() && 0 <= j < q.voters.len() && i
                != j implies q.voters[i] != q.voters[j] by {
                if i < p.voters.len() && j < p.voters.len() {
                    assert(q.voters[i] == p.voters[i]);
                    assert(q.voters[j] == p.voters[j]);
                } else if i < p.voters.len() {
                    assert(q.voters[i] == p.voters[i]);
                } else if j < p.voters.len() {
                    assert(q.voters[j] == p.voters[j]);
                }
            }
        }
    }
    if let Ok((s2, _)) = step_vouch(s, who, other) {
        let vs = s.vouchers_of(other);
        let ws = vs.push(who);
        assert(ws.no_duplicates()) by {
            assert forall|i: int, j: int| 0 <= i < ws.len() && 0 <= j < ws.len() && i != j implies ws[i]
                != ws[j] by {
                if i < vs.len() {
                    assert(ws[i] == vs[i]);
                }
                if j < vs.len() {
                    assert(ws[j] == vs[j]);
                }
            }
        }
    }
    if let Ok((s2, _)) = step_execute_proposal(s, who, proposal_id) {
        let c = s.circle->Some_0;
        if let ProposalTypeModel::RemoveMember(m) = s.proposals[proposal_id as int].proposal_type {
            assert(c.members.filter(other_than(m)).len() <= c.members.len());
        }
    }
}

} // verus!
