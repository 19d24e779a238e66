use trust_circle::circle::TrustCircle;
use trust_circle::types::CircleError;

const ADMIN: &str = "GBADMINXXAAAAAAAAAAAAAAAAAAAAAAAAAAAAAAAAAAAAAAAAAAAAAAA";
const MEMBER2: &str = "GBMEMBER2XAAAAAAAAAAAAAAAAAAAAAAAAAAAAAAAAAAAAAAAAAAAAAA";
const USDC: &str = "CBUSDCTOKENAAAAAAAAAAAAAAAAAAAAAAAAAAAAAAAAAAAAAAAAAAAAA";

/// The ledger time of a fresh test environment.
const START: u64 = 0;

fn ok<T>(r: Result<T, CircleError>) -> T {
    match r {
        Ok(v) => v,
        Err(e) => panic!("{}", e.message()),
    }
}

fn setup_env() -> (TrustCircle, String, String, String) {
    let mut client = TrustCircle::new();
    let admin = ADMIN.to_string();
    let member2 = MEMBER2.to_string();
    let usdc = USDC.to_string();
    ok(client.create_circle(
        admin.clone(),
        b"Test Circle".to_vec(),
        usdc.clone(),
        vec![admin.clone(), member2.clone()],
        100_000_000i128,
        604800u64,
        START,
    ));
    (client, admin, member2, usdc)
}

#[test]
#[should_panic(expected = "Already contributed this cycle")]
fn test_additions_test_cannot_contribute_twice_in_same_cycle() {
    let (mut client, admin, _member2, _usdc) = setup_env();

    ok(client.contribute(&admin, START));
    ok(client.contribute(&admin, START)); // should panic
}

#[test]
fn test_additions_test_payout_rotation() {
    let (mut client, admin, member2, _usdc) = setup_env();

    ok(client.contribute(&admin, START));
    ok(client.contribute(&member2, START));

    // Advance ledger past the cycle deadline
    let now = 1_000_000 + 604_801;
    ok(client.release_payout(&admin, now));

    let circle = ok(client.get_circle());
    assert_eq!(circle.current_cycle, 2, "Cycle should advance to 2");
    assert_eq!(circle.payout_index, 1, "Payout index should advance to member 2");
}

#[test]
fn test_additions_test_missed_contribution_penalises_reputation() {
    let (mut client, admin, member2, _usdc) = setup_env();

    ok(client.contribute(&admin, START));

    let now = 1_000_000 + 604_801;
    ok(client.release_payout(&admin, now));

    let rep = client.get_reputation(&member2);
    assert_eq!(rep, 0, "Missed member reputation should saturate at 0");

    let admin_rep = client.get_reputation(&admin);
    assert_eq!(admin_rep, 10, "Admin should have 10 reputation points");
}
