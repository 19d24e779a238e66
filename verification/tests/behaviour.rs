use trust_circle::circle::TrustCircle;
use trust_circle::types::{Circle, CircleError, Contribution, Proposal, ProposalType};

const DAY: u64 = 86_400;
const WEEK: u64 = 604_800;

fn a(tag: &str) -> String {
    format!("G{:A<55}", tag)
}

fn circle_of(members: &[&str], now: u64) -> TrustCircle {
    let mut t = TrustCircle::new();
    let list: Vec<String> = members.iter().map(|m| a(m)).collect();
    t.create_circle(a(members[0]), b"Circle".to_vec(), a("USDC"), list, 100, WEEK, now).unwrap();
    t
}

fn pass(t: &mut TrustCircle, voters: &[&str], p: ProposalType) -> u32 {
    let id = t.propose(&a(voters[0]), p).unwrap();
    for v in voters {
        t.vote(&a(v), id, true).unwrap();
    }
    t.execute_proposal(&a(voters[0]), id).unwrap();
    id
}

// ── Creation ──────────────────────────────────────────────────────────────────

#[test]
fn create_rejects_bad_parameters() {
    let mut t = TrustCircle::new();
    let one = vec![a("X")];
    let two = vec![a("X"), a("Y")];
    assert_eq!(
        t.create_circle(a("X"), b"c".to_vec(), a("U"), one, 100, WEEK, 0).unwrap_err(),
        CircleError::NotEnoughMembers
    );
    assert_eq!(
        t.create_circle(a("X"), b"c".to_vec(), a("U"), two.clone(), 0, WEEK, 0).unwrap_err(),
        CircleError::NonPositiveContribution
    );
    assert_eq!(
        t.create_circle(a("X"), b"c".to_vec(), a("U"), two.clone(), 5, 3599, 0).unwrap_err(),
        CircleError::CycleTooShort
    );
    assert_eq!(
        t.create_circle(a("X"), b"c".to_vec(), a("U"), two.clone(), 5, 3600, u64::MAX - 10).unwrap_err(),
        CircleError::Overflow
    );
    assert_eq!(t.get_circle().unwrap_err(), CircleError::CircleNotFound);
    assert!(t.create_circle(a("X"), b"c".to_vec(), a("U"), two.clone(), 5, 3600, 0).is_ok());
    assert_eq!(
        t.create_circle(a("Y"), b"d".to_vec(), a("V"), two.clone(), 9, 7200, 0).unwrap_err(),
        CircleError::CircleExists
    );
    // Bad arguments are reported before the existing circle.
    assert_eq!(
        t.create_circle(a("Y"), b"d".to_vec(), a("V"), vec![a("Y")], 9, 7200, 0).unwrap_err(),
        CircleError::NotEnoughMembers
    );
    assert_eq!(
        t.create_circle(a("Y"), b"d".to_vec(), a("V"), two.clone(), 0, 7200, 0).unwrap_err(),
        CircleError::NonPositiveContribution
    );
    assert_eq!(
        t.create_circle(a("Y"), b"d".to_vec(), a("V"), two, 9, 60, 0).unwrap_err(),
        CircleError::CycleTooShort
    );
    assert_eq!(t.get_circle().unwrap().admin, a("X"));
}

#[test]
fn create_sets_first_deadline() {
    let t = circle_of(&["A", "B"], 1_000);
    let c: &Circle = t.get_circle().unwrap();
    assert_eq!(c.cycle_deadline, 1_000 + WEEK);
    assert_eq!(c.name, b"Circle".to_vec());
    assert_eq!(c.admin, a("A"));
    assert_eq!(c.usdc_token, a("USDC"));
}

#[test]
fn a_circle_is_created_only_once() {
    let mut t = circle_of(&["A", "B"], 0);
    t.contribute(&a("A"), 0).unwrap();
    assert_eq!(
        t.create_circle(a("Z"), b"Again".to_vec(), a("USDC"), vec![a("Z"), a("Y")], 1, WEEK, 0)
            .unwrap_err(),
        CircleError::CircleExists
    );
    let c = t.get_circle().unwrap();
    assert_eq!(c.admin, a("A"));
    assert_eq!(c.members, vec![a("A"), a("B")]);
    assert!(t.has_contributed(&a("A"), 1));
    assert_eq!(t.get_reputation(&a("A")), 10);
}

// ── Contributions ─────────────────────────────────────────────────────────────

#[test]
fn contribute_refusals() {
    let mut empty = TrustCircle::new();
    assert_eq!(empty.contribute(&a("A"), 0).unwrap_err(), CircleError::CircleNotFound);

    let mut t = circle_of(&["A", "B"], 0);
    assert_eq!(t.contribute(&a("Z"), 0).unwrap_err(), CircleError::NotMember);
    assert_eq!(t.contribute(&a("A"), WEEK + 1).unwrap_err(), CircleError::DeadlinePassed);
    let rec = t.contribute(&a("A"), WEEK).unwrap();
    assert_eq!(rec.member, a("A"));
    assert_eq!(rec.cycle, 1);
    assert_eq!(rec.amount, 100);
    assert_eq!(rec.timestamp, WEEK);
    assert!(t.has_contributed(&a("A"), 1));
    assert!(!t.has_contributed(&a("A"), 2));
    assert!(!t.has_contributed(&a("B"), 1));
    assert_eq!(t.contribute(&a("A"), 0).unwrap_err(), CircleError::AlreadyContributed);
    // After the deadline the refusal is for the deadline.
    assert_eq!(t.contribute(&a("A"), WEEK + 1).unwrap_err(), CircleError::DeadlinePassed);
    assert_eq!(t.get_reputation(&a("A")), 10);
}

#[test]
fn contribute_refused_on_closed_circle() {
    let mut t = circle_of(&["A", "B"], 0);
    for _ in 0..2 {
        t.contribute(&a("A"), 0).unwrap();
        t.release_payout(&a("A"), 0).unwrap();
    }
    assert!(!t.get_circle().unwrap().is_active);
    assert_eq!(t.contribute(&a("A"), 0).unwrap_err(), CircleError::CircleNotActive);
    assert_eq!(t.release_payout(&a("A"), 0).unwrap_err(), CircleError::CircleNotActive);
}

#[test]
fn reputation_overflow_is_refused() {
    let circle = Circle {
        name: b"c".to_vec(),
        admin: a("A"),
        usdc_token: a("U"),
        contribution_amount: 1,
        members: vec![a("A"), a("B")],
        current_cycle: 1,
        payout_index: 0,
        cycle_deadline: WEEK,
        cycle_length_secs: WEEK,
        is_active: true,
    };
    let mut t = TrustCircle::from_parts(
        Some(circle),
        Vec::new(),
        vec![(a("A"), u32::MAX - 5)],
        Vec::new(),
        Vec::new(),
    )
    .unwrap();
    assert_eq!(t.contribute(&a("A"), 0).unwrap_err(), CircleError::Overflow);
    assert!(!t.has_contributed(&a("A"), 1));
    assert_eq!(t.get_reputation(&a("A")), u32::MAX - 5);
}

// ── Payouts ───────────────────────────────────────────────────────────────────

#[test]
fn payout_sums_contributors_and_rotates() {
    let mut t = circle_of(&["A", "B", "C"], 0);
    t.contribute(&a("A"), 0).unwrap();
    t.contribute(&a("C"), 0).unwrap();
    let p = t.release_payout(&a("A"), 0).unwrap();
    assert_eq!(p.recipient, a("A"));
    assert_eq!(p.amount, 200);
    assert_eq!(p.cycle, 1);
    assert_eq!(p.next_cycle, 2);
    assert!(!p.completed);
    let c = t.get_circle().unwrap();
    assert_eq!(c.payout_index, 1);
    assert_eq!(c.current_cycle, 2);
    assert_eq!(c.cycle_deadline, WEEK);
    assert!(c.is_active);
}

#[test]
fn full_rotation_pays_each_member_once_then_closes() {
    let mut t = circle_of(&["A", "B", "C"], 0);
    let mut recipients = Vec::new();
    for _ in 0..3 {
        t.contribute(&a("A"), 0).unwrap();
        let p = t.release_payout(&a("A"), 0).unwrap();
        recipients.push(p.recipient.clone());
        assert_eq!(p.completed, recipients.len() == 3);
    }
    assert_eq!(recipients, vec![a("A"), a("B"), a("C")]);
    let c = t.get_circle().unwrap();
    assert!(!c.is_active);
    assert_eq!(c.payout_index, 0);
    assert_eq!(c.current_cycle, 4);
}

#[test]
fn payout_refusals() {
    let mut t = circle_of(&["A", "B"], 0);
    assert_eq!(t.release_payout(&a("B"), 10).unwrap_err(), CircleError::DeadlineNotReached);
    assert_eq!(t.release_payout(&a("A"), 10).unwrap_err(), CircleError::NoContributions);
    // A refused payout penalises nobody.
    assert_eq!(t.get_reputation(&a("B")), 0);
    t.contribute(&a("B"), 0).unwrap();
    // After the deadline a member may release, an outsider may not.
    assert_eq!(t.release_payout(&a("Z"), WEEK).unwrap_err(), CircleError::NotMember);
    assert_eq!(t.release_payout(&a("Z"), 10).unwrap_err(), CircleError::DeadlineNotReached);
    let p = t.release_payout(&a("B"), WEEK).unwrap();
    assert_eq!(p.recipient, a("A"));
    assert_eq!(p.amount, 100);
}

#[test]
fn missed_places_are_penalised_with_saturation() {
    let mut t = circle_of(&["A", "B"], 0);
    // B earns 30 points over three cycles.
    for _ in 0..3 {
        t.contribute(&a("A"), 0).unwrap();
        t.contribute(&a("B"), 0).unwrap();
        t.release_payout(&a("A"), 0).unwrap();
        if !t.get_circle().unwrap().is_active {
            t.restart_circle(&a("A"), 0).unwrap();
        }
    }
    assert_eq!(t.get_reputation(&a("B")), 30);
    t.contribute(&a("A"), 0).unwrap();
    t.release_payout(&a("A"), 0).unwrap();
    assert_eq!(t.get_reputation(&a("B")), 10);
    assert_eq!(t.get_reputation(&a("A")), 40);
    if !t.get_circle().unwrap().is_active {
        t.restart_circle(&a("A"), 0).unwrap();
    }
    t.contribute(&a("A"), 0).unwrap();
    t.release_payout(&a("A"), 0).unwrap();
    assert_eq!(t.get_reputation(&a("B")), 0);
}

#[test]
fn each_missed_place_costs_a_penalty() {
    let mut t = circle_of(&["A", "B"], 0);
    for _ in 0..3 {
        t.contribute(&a("B"), 0).unwrap();
        t.contribute(&a("A"), 0).unwrap();
        t.release_payout(&a("A"), 0).unwrap();
        if !t.get_circle().unwrap().is_active {
            t.restart_circle(&a("A"), 0).unwrap();
        }
    }
    assert_eq!(t.get_reputation(&a("B")), 30);
    // B takes a second place in the rotation.
    pass(&mut t, &["A", "B"], ProposalType::AddMember(a("B")));
    t.contribute(&a("A"), 0).unwrap();
    t.release_payout(&a("A"), 0).unwrap();
    assert_eq!(t.get_reputation(&a("B")), 0);
}

#[test]
fn amount_change_applies_at_once() {
    let mut t = circle_of(&["A", "B"], 0);
    t.contribute(&a("A"), 0).unwrap();
    pass(&mut t, &["A", "B"], ProposalType::ChangeAmount(500));
    assert_eq!(t.get_circle().unwrap().contribution_amount, 500);
    // Later contributors in the running cycle pay the new amount; the pot is
    // what was paid in.
    assert_eq!(t.contribute(&a("B"), 0).unwrap().amount, 500);
    let p = t.release_payout(&a("A"), 0).unwrap();
    assert_eq!(p.amount, 600);
    assert_eq!(t.contribute(&a("A"), 0).unwrap().amount, 500);
    assert_eq!(t.release_payout(&a("A"), 0).unwrap().amount, 500);
}

#[test]
fn payout_pays_exactly_the_escrowed_amounts() {
    // A removed member's escrowed contribution still belongs to the pot.
    let mut t = circle_of(&["A", "B", "C"], 0);
    t.contribute(&a("A"), 0).unwrap();
    t.contribute(&a("C"), 0).unwrap();
    pass(&mut t, &["A", "B", "C"], ProposalType::RemoveMember(a("C")));
    assert_eq!(t.release_payout(&a("A"), 0).unwrap().amount, 200);
}

#[test]
fn payout_total_overflow_is_refused() {
    let mut t = circle_of(&["A", "B"], 0);
    pass(&mut t, &["A", "B"], ProposalType::ChangeAmount(i128::MAX));
    t.contribute(&a("A"), 0).unwrap();
    t.contribute(&a("B"), 0).unwrap();
    assert_eq!(t.release_payout(&a("A"), 0).unwrap_err(), CircleError::Overflow);
    assert_eq!(t.get_circle().unwrap().current_cycle, 1);
}

#[test]
fn non_positive_amount_change_is_applied() {
    let mut t = circle_of(&["A", "B"], 0);
    pass(&mut t, &["A", "B"], ProposalType::ChangeAmount(-5));
    assert_eq!(t.get_circle().unwrap().contribution_amount, -5);
    pass(&mut t, &["A", "B"], ProposalType::ChangeAmount(0));
    assert_eq!(t.get_circle().unwrap().contribution_amount, 0);
    // Nothing is paid in, so there is nothing to pay out.
    assert_eq!(t.contribute(&a("A"), 0).unwrap().amount, 0);
    assert_eq!(t.release_payout(&a("A"), 0).unwrap_err(), CircleError::NoContributions);
}

#[test]
fn missing_recipient_is_refused() {
    let mut t = circle_of(&["A", "B", "C"], 0);
    t.contribute(&a("A"), 0).unwrap();
    t.release_payout(&a("A"), 0).unwrap();
    assert_eq!(t.get_circle().unwrap().payout_index, 1);
    pass(&mut t, &["A", "B", "C"], ProposalType::RemoveMember(a("B")));
    pass(&mut t, &["A", "C"], ProposalType::RemoveMember(a("C")));
    t.contribute(&a("A"), 0).unwrap();
    assert_eq!(t.release_payout(&a("A"), 0).unwrap_err(), CircleError::RecipientMissing);
}

// ── Restart ───────────────────────────────────────────────────────────────────

#[test]
fn restart_rules() {
    let mut t = circle_of(&["A", "B"], 0);
    assert_eq!(t.restart_circle(&a("A"), 0).unwrap_err(), CircleError::CircleStillActive);
    for _ in 0..2 {
        t.contribute(&a("A"), 0).unwrap();
        t.release_payout(&a("A"), 0).unwrap();
    }
    assert_eq!(t.restart_circle(&a("B"), 0).unwrap_err(), CircleError::NotAdmin);
    assert_eq!(t.restart_circle(&a("A"), 5 * DAY).unwrap(), 3);
    let c = t.get_circle().unwrap();
    assert!(c.is_active);
    assert_eq!(c.payout_index, 0);
    assert_eq!(c.current_cycle, 3);
    assert_eq!(c.cycle_deadline, 5 * DAY + WEEK);
    let mut empty = TrustCircle::new();
    assert_eq!(empty.restart_circle(&a("A"), 0).unwrap_err(), CircleError::CircleNotFound);
}

// ── Vouching ──────────────────────────────────────────────────────────────────

#[test]
fn vouching_needs_no_circle_and_counts_each_voucher_once() {
    let mut t = TrustCircle::from_parts(
        None,
        Vec::new(),
        vec![(a("V"), 50), (a("W"), 49)],
        Vec::new(),
        Vec::new(),
    )
    .unwrap();
    assert_eq!(t.vouch(&a("W"), &a("N")).unwrap_err(), CircleError::InsufficientReputation);
    t.vouch(&a("V"), &a("N")).unwrap();
    assert_eq!(t.get_vouches(&a("N")), 1);
    assert_eq!(t.vouch(&a("V"), &a("N")).unwrap_err(), CircleError::AlreadyVouched);
    assert_eq!(t.get_vouches(&a("N")), 1);
    t.vouch(&a("V"), &a("V")).unwrap();
    assert_eq!(t.get_vouches(&a("V")), 1);
    assert_eq!(t.get_vouches(&a("W")), 0);
}

// ── Governance ────────────────────────────────────────────────────────────────

#[test]
fn governance_refusals() {
    let mut empty = TrustCircle::new();
    assert_eq!(empty.propose(&a("A"), ProposalType::ChangeAmount(1)).unwrap_err(), CircleError::CircleNotFound);
    assert_eq!(empty.get_proposal(0).unwrap_err(), CircleError::ProposalNotFound);

    let mut t = circle_of(&["A", "B", "C"], 0);
    assert_eq!(t.vote(&a("A"), 0, true).unwrap_err(), CircleError::ProposalNotFound);
    assert_eq!(t.execute_proposal(&a("A"), 3).unwrap_err(), CircleError::ProposalNotFound);
    let id = t.propose(&a("B"), ProposalType::ChangeCycleLength(2 * WEEK)).unwrap();
    t.vote(&a("A"), id, true).unwrap();
    t.vote(&a("B"), id, false).unwrap();
    assert_eq!(t.execute_proposal(&a("Z"), id).unwrap_err(), CircleError::NoMajority);
    t.vote(&a("C"), id, true).unwrap();
    let p: &Proposal = t.get_proposal(id).unwrap();
    assert_eq!((p.votes_yes, p.votes_no, p.voters.len()), (2, 1, 3));
    // Any caller may execute a passed proposal.
    t.execute_proposal(&a("Z"), id).unwrap();
    assert_eq!(t.get_circle().unwrap().cycle_length_secs, 2 * WEEK);
    assert_eq!(t.execute_proposal(&a("A"), id).unwrap_err(), CircleError::ProposalExecuted);
    assert_eq!(t.vote(&a("A"), id, true).unwrap_err(), CircleError::ProposalExecuted);
}

#[test]
fn remove_member_drops_every_place() {
    let mut t = circle_of(&["A", "B", "C"], 0);
    pass(&mut t, &["A", "B", "C"], ProposalType::AddMember(a("B")));
    assert_eq!(t.get_circle().unwrap().members, vec![a("A"), a("B"), a("C"), a("B")]);
    pass(&mut t, &["A", "B", "C"], ProposalType::RemoveMember(a("B")));
    assert_eq!(t.get_circle().unwrap().members, vec![a("A"), a("C")]);
}

// ── Stored parts ──────────────────────────────────────────────────────────────

#[test]
fn from_parts_checks_the_storage_invariant() {
    assert!(TrustCircle::from_parts(None, Vec::new(), vec![(a("A"), 1), (a("A"), 2)], Vec::new(), Vec::new())
        .is_none());
    assert!(TrustCircle::from_parts(None, Vec::new(), Vec::new(), vec![(a("N"), vec![a("V"), a("V")])], Vec::new())
        .is_none());
    let rec = Contribution { member: a("A"), cycle: 1, amount: 5, timestamp: 0 };
    assert!(TrustCircle::from_parts(None, vec![rec.clone(), rec.clone()], Vec::new(), Vec::new(), Vec::new())
        .is_none());
    let other = Contribution { cycle: 2, ..rec.clone() };
    assert!(TrustCircle::from_parts(None, vec![rec, other], Vec::new(), Vec::new(), Vec::new()).is_some());
    let bad_id = Proposal {
        id: 1,
        proposer: a("A"),
        proposal_type: ProposalType::ChangeAmount(1),
        votes_yes: 0,
        votes_no: 0,
        voters: Vec::new(),
        executed: false,
    };
    assert!(TrustCircle::from_parts(None, Vec::new(), Vec::new(), Vec::new(), vec![bad_id.clone()]).is_none());
    let bad_tally = Proposal { id: 0, votes_yes: 1, ..bad_id.clone() };
    assert!(TrustCircle::from_parts(None, Vec::new(), Vec::new(), Vec::new(), vec![bad_tally]).is_none());
    let good = Proposal { id: 0, ..bad_id };
    let t = TrustCircle::from_parts(None, Vec::new(), vec![(a("A"), 7)], Vec::new(), vec![good]).unwrap();
    assert_eq!(t.get_reputation(&a("A")), 7);
    assert_eq!(t.stored_proposals().len(), 1);
    assert_eq!(t.stored_reputation().len(), 1);
    assert!(t.stored_circle().is_none());
    assert!(t.stored_contributions().is_empty());
    assert!(t.stored_vouches().is_empty());
}

#[test]
fn error_messages_match_the_contract() {
    assert_eq!(CircleError::CircleExists.message(), "Circle already exists");
    assert_eq!(CircleError::NotEnoughMembers.message(), "Need at least 2 members");
    assert_eq!(CircleError::NonPositiveContribution.message(), "Contribution must be positive");
    assert_eq!(CircleError::CycleTooShort.message(), "Cycle must be at least 1 hour");
    assert_eq!(CircleError::CircleNotActive.message(), "Circle is not active");
    assert_eq!(CircleError::NotMember.message(), "Not a circle member");
    assert_eq!(CircleError::DeadlinePassed.message(), "Cycle deadline has passed");
    assert_eq!(CircleError::DeadlineNotReached.message(), "Deadline not reached");
    assert_eq!(CircleError::NoContributions.message(), "No contributions to pay out");
    assert_eq!(CircleError::NotAdmin.message(), "Only admin can restart");
    assert_eq!(CircleError::CircleStillActive.message(), "Circle is still active");
}
