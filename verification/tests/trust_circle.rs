use trust_circle::circle::TrustCircle;
use trust_circle::types::{CircleError, ProposalType};

// ── Test helpers ──────────────────────────────────────────────────────────────

const ADMIN: &str = "GBADMINXXAAAAAAAAAAAAAAAAAAAAAAAAAAAAAAAAAAAAAAAAAAAAAAA";
const MEMBER2: &str = "GBMEMBER2XAAAAAAAAAAAAAAAAAAAAAAAAAAAAAAAAAAAAAAAAAAAAAA";
const USDC: &str = "CBUSDCTOKENAAAAAAAAAAAAAAAAAAAAAAAAAAAAAAAAAAAAAAAAAAAAA";

/// The ledger time of a fresh test environment.
const START: u64 = 0;

fn addr(s: &str) -> String {
    s.to_string()
}

fn generate(tag: &str) -> String {
    format!("G{:A<55}", tag)
}

/// Aborts with the contract's message, as a failed invocation does.
fn ok<T>(r: Result<T, CircleError>) -> T {
    match r {
        Ok(v) => v,
        Err(e) => panic!("{}", e.message()),
    }
}

fn setup_env() -> (TrustCircle, String, String, String) {
    let mut client = TrustCircle::new();
    let admin = addr(ADMIN);
    let member2 = addr(MEMBER2);
    let usdc = addr(USDC);
    let members = vec![admin.clone(), member2.clone()];
    ok(client.create_circle(
        admin.clone(),
        b"Test Circle".to_vec(),
        usdc.clone(),
        members,
        100_000_000i128,
        604800u64,
        START,
    ));
    (client, admin, member2, usdc)
}

/// Build reputation for a member by contributing across N full rotations,
/// restarting the circle each time it completes.
fn build_reputation(client: &mut TrustCircle, member: &String, other: &String, contributions_needed: u32) {
    for _ in 0..contributions_needed {
        ok(client.contribute(member, START));
        ok(client.contribute(other, START));
        ok(client.release_payout(member, START));
        let circle = ok(client.get_circle());
        if !circle.is_active {
            ok(client.restart_circle(member, START));
        }
    }
}

// ── Core tests ────────────────────────────────────────────────────────────────

#[test]
fn test_create_circle() {
    let (client, _admin, _member2, _usdc) = setup_env();
    let circle = ok(client.get_circle());

    assert_eq!(circle.current_cycle, 1, "Should start on cycle 1");
    assert!(circle.is_active, "Circle should be active after creation");
    assert_eq!(circle.payout_index, 0, "Payout index should start at 0");
    assert_eq!(circle.contribution_amount, 100_000_000);
    assert_eq!(circle.members.len(), 2, "Should have 2 members");
}

#[test]
fn test_contribute() {
    let (mut client, admin, _member2, _usdc) = setup_env();

    ok(client.contribute(&admin, START));

    assert!(client.has_contributed(&admin, 1u32), "Admin should show as contributed for cycle 1");
    let rep = client.get_reputation(&admin);
    assert_eq!(rep, 10, "Reputation should increase by 10");
}

#[test]
#[should_panic(expected = "Already contributed this cycle")]
fn test_test_cannot_contribute_twice_in_same_cycle() {
    let (mut client, admin, _member2, _usdc) = setup_env();

    ok(client.contribute(&admin, START));
    ok(client.contribute(&admin, START)); // should panic
}

#[test]
fn test_test_payout_rotation() {
    let (mut client, admin, member2, _usdc) = setup_env();

    ok(client.contribute(&admin, START));
    ok(client.contribute(&member2, START));
    ok(client.release_payout(&admin, START));

    let circle = ok(client.get_circle());
    assert_eq!(circle.current_cycle, 2, "Cycle should advance to 2");
    assert_eq!(circle.payout_index, 1, "Payout index should advance to member 2");
}

#[test]
fn test_test_missed_contribution_penalises_reputation() {
    let (mut client, admin, member2, _usdc) = setup_env();

    ok(client.contribute(&admin, START));
    ok(client.release_payout(&admin, START));

    let rep = client.get_reputation(&member2);
    assert_eq!(rep, 0, "Missed member reputation should saturate at 0");

    let admin_rep = client.get_reputation(&admin);
    assert_eq!(admin_rep, 10, "Admin should have 10 reputation points");
}

// ── Vouching tests ────────────────────────────────────────────────────────────

#[test]
fn test_new_address_has_zero_vouches() {
    let (client, _admin, _member2, _usdc) = setup_env();
    let newcomer = generate("NEWCOMER");

    let count = client.get_vouches(&newcomer);
    assert_eq!(count, 0, "New address should have 0 vouches");
}

#[test]
#[should_panic(expected = "Need reputation >= 50 to vouch for others")]
fn test_vouch_with_low_reputation_fails() {
    let (mut client, admin, _member2, _usdc) = setup_env();
    let newcomer = generate("NEWCOMER");

    ok(client.vouch(&admin, &newcomer));
}

#[test]
fn test_vouch_with_sufficient_reputation_succeeds() {
    let (mut client, admin, member2, _usdc) = setup_env();
    let newcomer = generate("NEWCOMER");

    build_reputation(&mut client, &admin, &member2, 5);

    let rep = client.get_reputation(&admin);
    assert!(rep >= 50, "Admin should have at least 50 rep, got {}", rep);

    ok(client.vouch(&admin, &newcomer));

    let count = client.get_vouches(&newcomer);
    assert_eq!(count, 1, "Newcomer should have 1 vouch");
}

#[test]
#[should_panic(expected = "Already vouched for this address")]
fn test_cannot_vouch_twice() {
    let (mut client, admin, member2, _usdc) = setup_env();
    let newcomer = generate("NEWCOMER");

    build_reputation(&mut client, &admin, &member2, 5);

    ok(client.vouch(&admin, &newcomer));
    ok(client.vouch(&admin, &newcomer));
}

#[test]
fn test_multiple_vouches_accumulate() {
    let (mut client, admin, member2, _usdc) = setup_env();
    let newcomer = generate("NEWCOMER");

    build_reputation(&mut client, &admin, &member2, 5);

    let admin_rep = client.get_reputation(&admin);
    let member2_rep = client.get_reputation(&member2);
    assert!(admin_rep >= 50, "Admin should have >= 50 rep");
    assert!(member2_rep >= 50, "Member2 should have >= 50 rep");

    ok(client.vouch(&admin, &newcomer));
    ok(client.vouch(&member2, &newcomer));

    let count = client.get_vouches(&newcomer);
    assert_eq!(count, 2, "Newcomer should have 2 vouches");
}

// ── Governance tests ──────────────────────────────────────────────────────────

#[test]
fn test_propose_creates_proposal() {
    let (mut client, admin, _member2, _usdc) = setup_env();

    let new_amount = 200_000_000i128;
    let id = ok(client.propose(&admin, ProposalType::ChangeAmount(new_amount)));

    assert_eq!(id, 0, "First proposal should have ID 0");

    let proposal = ok(client.get_proposal(id));
    assert_eq!(proposal.id, 0);
    assert_eq!(proposal.proposer, admin);
    assert_eq!(proposal.votes_yes, 0);
    assert_eq!(proposal.votes_no, 0);
    assert!(!proposal.executed);
    assert_eq!(proposal.voters.len(), 0);
}

#[test]
fn test_proposal_ids_increment() {
    let (mut client, admin, _member2, _usdc) = setup_env();

    let id0 = ok(client.propose(&admin, ProposalType::ChangeAmount(200_000_000i128)));
    let id1 = ok(client.propose(&admin, ProposalType::ChangeCycleLength(1209600u64)));

    assert_eq!(id0, 0);
    assert_eq!(id1, 1);
}

#[test]
#[should_panic(expected = "Only members can propose")]
fn test_propose_rejects_non_member() {
    let (mut client, _admin, _member2, _usdc) = setup_env();
    let outsider = generate("OUTSIDER");

    ok(client.propose(&outsider, ProposalType::ChangeAmount(200_000_000i128)));
}

#[test]
fn test_vote_yes() {
    let (mut client, admin, _member2, _usdc) = setup_env();

    let id = ok(client.propose(&admin, ProposalType::ChangeAmount(200_000_000i128)));
    ok(client.vote(&admin, id, true));

    let proposal = ok(client.get_proposal(id));
    assert_eq!(proposal.votes_yes, 1, "Should have 1 yes vote");
    assert_eq!(proposal.votes_no, 0, "Should have 0 no votes");
    assert_eq!(proposal.voters.len(), 1, "Should have 1 voter");
    assert!(proposal.voters.contains(&admin));
}

#[test]
fn test_vote_no() {
    let (mut client, admin, _member2, _usdc) = setup_env();

    let id = ok(client.propose(&admin, ProposalType::ChangeAmount(200_000_000i128)));
    ok(client.vote(&admin, id, false));

    let proposal = ok(client.get_proposal(id));
    assert_eq!(proposal.votes_yes, 0);
    assert_eq!(proposal.votes_no, 1);
}

#[test]
fn test_both_members_vote_yes() {
    let (mut client, admin, member2, _usdc) = setup_env();

    let id = ok(client.propose(&admin, ProposalType::ChangeAmount(200_000_000i128)));
    ok(client.vote(&admin, id, true));
    ok(client.vote(&member2, id, true));

    let proposal = ok(client.get_proposal(id));
    assert_eq!(proposal.votes_yes, 2);
    assert_eq!(proposal.votes_no, 0);
}

#[test]
#[should_panic(expected = "Already voted on this proposal")]
fn test_cannot_double_vote() {
    let (mut client, admin, _member2, _usdc) = setup_env();

    let id = ok(client.propose(&admin, ProposalType::ChangeAmount(200_000_000i128)));
    ok(client.vote(&admin, id, true));
    ok(client.vote(&admin, id, true));
}

#[test]
#[should_panic(expected = "Only members can vote")]
fn test_vote_rejects_non_member() {
    let (mut client, admin, _member2, _usdc) = setup_env();
    let outsider = generate("OUTSIDER");

    let id = ok(client.propose(&admin, ProposalType::ChangeAmount(200_000_000i128)));
    ok(client.vote(&outsider, id, true));
}

#[test]
#[should_panic(expected = "Proposal has not reached majority")]
fn test_execute_rejects_insufficient_votes() {
    let (mut client, admin, member2, _usdc) = setup_env();

    let id = ok(client.propose(&admin, ProposalType::ChangeAmount(200_000_000i128)));
    ok(client.vote(&admin, id, true));
    ok(client.execute_proposal(&member2, id));
}

#[test]
#[should_panic(expected = "Proposal has not reached majority")]
fn test_execute_rejects_zero_votes() {
    let (mut client, admin, _member2, _usdc) = setup_env();

    let id = ok(client.propose(&admin, ProposalType::ChangeAmount(200_000_000i128)));
    ok(client.execute_proposal(&admin, id));
}

#[test]
#[should_panic(expected = "Proposal already executed")]
fn test_cannot_execute_twice() {
    let (mut client, admin, member2, _usdc) = setup_env();

    let id = ok(client.propose(&admin, ProposalType::ChangeAmount(200_000_000i128)));
    ok(client.vote(&admin, id, true));
    ok(client.vote(&member2, id, true));
    ok(client.execute_proposal(&admin, id));
    ok(client.execute_proposal(&admin, id));
}

#[test]
#[should_panic(expected = "Proposal already executed")]
fn test_cannot_vote_on_executed_proposal() {
    let (mut client, admin, member2, _usdc) = setup_env();
    let member3 = generate("MEMBER3");

    let add_id = ok(client.propose(&admin, ProposalType::AddMember(member3.clone())));
    ok(client.vote(&admin, add_id, true));
    ok(client.vote(&member2, add_id, true));
    ok(client.execute_proposal(&admin, add_id));

    let id = ok(client.propose(&admin, ProposalType::ChangeAmount(200_000_000i128)));
    ok(client.vote(&admin, id, true));
    ok(client.vote(&member2, id, true));
    ok(client.execute_proposal(&admin, id));

    ok(client.vote(&member3, id, true));
}

#[test]
fn test_execute_change_amount() {
    let (mut client, admin, member2, _usdc) = setup_env();

    let new_amount = 200_000_000i128;
    let id = ok(client.propose(&admin, ProposalType::ChangeAmount(new_amount)));
    ok(client.vote(&admin, id, true));
    ok(client.vote(&member2, id, true));
    ok(client.execute_proposal(&admin, id));

    let circle = ok(client.get_circle());
    assert_eq!(circle.contribution_amount, new_amount);
}

#[test]
fn test_execute_change_cycle_length() {
    let (mut client, admin, member2, _usdc) = setup_env();

    let new_length = 1_209_600u64;
    let id = ok(client.propose(&admin, ProposalType::ChangeCycleLength(new_length)));
    ok(client.vote(&admin, id, true));
    ok(client.vote(&member2, id, true));
    ok(client.execute_proposal(&admin, id));

    let circle = ok(client.get_circle());
    assert_eq!(circle.cycle_length_secs, new_length);
}

#[test]
fn test_execute_add_member() {
    let (mut client, admin, member2, _usdc) = setup_env();
    let new_member = generate("NEWMEMBER");

    let id = ok(client.propose(&admin, ProposalType::AddMember(new_member.clone())));
    ok(client.vote(&admin, id, true));
    ok(client.vote(&member2, id, true));
    ok(client.execute_proposal(&admin, id));

    let circle = ok(client.get_circle());
    assert_eq!(circle.members.len(), 3, "Circle should now have 3 members");
    assert!(circle.members.contains(&new_member), "New member should be in the circle");
}

#[test]
fn test_execute_remove_member() {
    let (mut client, admin, member2, _usdc) = setup_env();

    let id = ok(client.propose(&admin, ProposalType::RemoveMember(member2.clone())));
    ok(client.vote(&admin, id, true));
    ok(client.vote(&member2, id, true));
    ok(client.execute_proposal(&admin, id));

    let circle = ok(client.get_circle());
    assert_eq!(circle.members.len(), 1, "Circle should now have 1 member");
    assert!(!circle.members.contains(&member2), "Removed member should not be in the circle");
}

#[test]
fn test_execute_marks_proposal_executed() {
    let (mut client, admin, member2, _usdc) = setup_env();

    let id = ok(client.propose(&admin, ProposalType::ChangeAmount(200_000_000i128)));
    ok(client.vote(&admin, id, true));
    ok(client.vote(&member2, id, true));
    ok(client.execute_proposal(&admin, id));

    let proposal = ok(client.get_proposal(id));
    assert!(proposal.executed, "Proposal should be marked executed");
}

#[test]
fn test_multiple_proposals() {
    let (mut client, admin, member2, _usdc) = setup_env();

    let id0 = ok(client.propose(&admin, ProposalType::ChangeAmount(200_000_000i128)));
    let id1 = ok(client.propose(&member2, ProposalType::ChangeCycleLength(1_209_600u64)));

    ok(client.vote(&admin, id0, true));
    ok(client.vote(&member2, id0, true));
    ok(client.execute_proposal(&admin, id0));

    let p1 = ok(client.get_proposal(id1));
    assert!(!p1.executed, "Second proposal should not be executed yet");
    assert_eq!(p1.votes_yes, 0);

    ok(client.vote(&admin, id1, true));
    ok(client.vote(&member2, id1, true));
    ok(client.execute_proposal(&admin, id1));

    let circle = ok(client.get_circle());
    assert_eq!(circle.contribution_amount, 200_000_000);
    assert_eq!(circle.cycle_length_secs, 1_209_600);
}
