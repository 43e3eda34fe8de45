use pifp_protocol::access::AccessControl;
use pifp_protocol::access::Role;
use pifp_protocol::error::Error;
use pifp_protocol::escrow::Escrow;
use pifp_protocol::ledger::TokenBalance;
use pifp_protocol::project::same_hash;
use pifp_protocol::project::ProjectStatus;
use soroban_sdk::Env;

const ADMIN: u64 = 1;
const CREATOR: u64 = 2;
const ORACLE: u64 = 3;
const DONOR: u64 = 4;
const T: u64 = 900;
const D: u64 = 5000;

fn commitment() -> [u8; 32] {
    let mut h = [7u8; 32];
    h[31] = 1;
    h
}

fn registered(goal: i128) -> (Escrow, u64) {
    let env = Env::default();
    let mut escrow = Escrow::init(ADMIN);
    let id = escrow.register_project(&env, CREATOR, vec![T], goal, commitment(), D, 10).unwrap();
    (escrow, id)
}

#[test]
fn roles_are_granted_by_admins_only() {
    let mut roles = AccessControl::new(ADMIN);
    assert!(roles.has_role(ADMIN, Role::Admin));
    assert!(!roles.has_role(ADMIN, Role::Oracle));
    assert!(!roles.has_role(ORACLE, Role::Oracle));
    assert_eq!(roles.grant_role(ORACLE, ORACLE, Role::Oracle), Err(Error::Unauthorized));
    assert!(!roles.has_role(ORACLE, Role::Oracle));
    assert_eq!(roles.grant_role(ADMIN, ORACLE, Role::Oracle), Ok(()));
    assert!(roles.has_role(ORACLE, Role::Oracle));
    assert!(!roles.has_role(ORACLE, Role::Admin));
    assert_eq!(roles.grant_role(ORACLE, DONOR, Role::Oracle), Err(Error::Unauthorized));
    assert_eq!(roles.grant_role(ADMIN, ORACLE, Role::Oracle), Ok(()));
    assert_eq!(roles.grant_role(ADMIN, ORACLE, Role::Admin), Ok(()));
    assert!(roles.has_role(ORACLE, Role::Admin));
    assert!(roles.has_role(ORACLE, Role::Oracle));
    assert_eq!(roles.grant_role(ORACLE, DONOR, Role::Oracle), Ok(()));
}

#[test]
fn fresh_project_is_funding_with_its_fields() {
    let (escrow, id) = registered(1000);
    let p = escrow.get_project(id).unwrap();
    assert_eq!(p.id, 0);
    assert_eq!(p.creator, CREATOR);
    assert_eq!(p.accepted_tokens, vec![T]);
    assert_eq!(p.goal, 1000);
    assert_eq!(p.proof_hash, commitment());
    assert_eq!(p.deadline, D);
    assert_eq!(p.status, ProjectStatus::Funding);
    assert!(escrow.get_project(1).is_none());
    assert!(escrow.get_project_balances(1).is_none());
    assert_eq!(escrow.get_project_balances(id).unwrap(), vec![TokenBalance { token: T, balance: 0 }]);
}

#[test]
fn ids_are_assigned_in_sequence() {
    let env = Env::default();
    let mut escrow = Escrow::init(ADMIN);
    for expected in 0..3u64 {
        let id = escrow.register_project(&env, CREATOR, vec![T, T + 1], 1, commitment(), D, 0).unwrap();
        assert_eq!(id, expected);
    }
    assert_eq!(escrow.get_project(2).unwrap().id, 2);
}

#[test]
fn registration_errors_in_order() {
    let env = Env::default();
    let mut escrow = Escrow::init(ADMIN);
    let h = commitment();
    let eleven: Vec<u64> = (0..11u64).collect();
    assert_eq!(escrow.register_project(&env, CREATOR, eleven, 0, h, 0, 0), Err(Error::TooManyTokens));
    assert_eq!(escrow.register_project(&env, CREATOR, vec![1, 1], 0, h, 0, 0), Err(Error::DuplicateToken));
    assert_eq!(escrow.register_project(&env, CREATOR, vec![1], 0, h, 0, 0), Err(Error::InvalidGoal));
    assert_eq!(escrow.register_project(&env, CREATOR, vec![1], -1, h, 9, 0), Err(Error::InvalidGoal));
    assert_eq!(escrow.register_project(&env, CREATOR, vec![1], 1, h, 7, 7), Err(Error::InvalidDeadline));
    assert_eq!(escrow.register_project(&env, CREATOR, vec![1], 1, h, 6, 7), Err(Error::InvalidDeadline));
    assert!(escrow.get_project(0).is_none());
    assert_eq!(escrow.register_project(&env, CREATOR, vec![1], 1, h, 8, 7), Ok(0));
}

#[test]
fn scenario_two_deposits_by_one_donor() {
    let (mut escrow, id) = registered(1000);
    escrow.deposit(id, DONOR, T, 100).unwrap();
    assert_eq!(escrow.get_project(id).unwrap().status, ProjectStatus::Active);
    escrow.deposit(id, DONOR, T, 100).unwrap();
    assert_eq!(escrow.get_balance(id, T), 200);
    assert_eq!(escrow.get_project(id).unwrap().status, ProjectStatus::Active);
}

#[test]
fn scenario_release_after_goal_is_met() {
    let (mut escrow, id) = registered(1000);
    escrow.deposit(id, DONOR, T, 1000).unwrap();
    escrow.grant_role(ADMIN, ORACLE, Role::Oracle).unwrap();
    let plan = escrow.verify_and_release(ORACLE, id, &commitment()).unwrap();
    assert_eq!(plan, vec![TokenBalance { token: T, balance: 1000 }]);
    assert_eq!(escrow.get_project(id).unwrap().status, ProjectStatus::Completed);
    assert_eq!(escrow.get_balance(id, T), 0);
}

#[test]
fn scenario_expire_without_deposit() {
    let (mut escrow, id) = registered(1000);
    assert_eq!(escrow.expire_project(id, D + 1), Ok(()));
    assert_eq!(escrow.get_project(id).unwrap().status, ProjectStatus::Expired);
    assert!(escrow.expire_project(id, D + 2).is_err());
}

#[test]
fn scenario_expire_after_completion_fails() {
    let (mut escrow, id) = registered(1000);
    escrow.deposit(id, DONOR, T, 1000).unwrap();
    escrow.grant_role(ADMIN, ORACLE, Role::Oracle).unwrap();
    escrow.verify_and_release(ORACLE, id, &commitment()).unwrap();
    assert_eq!(escrow.get_project(id).unwrap().status, ProjectStatus::Completed);
    assert_eq!(escrow.expire_project(id, D + 1), Err(Error::InvalidStatus));
    assert_eq!(escrow.get_project(id).unwrap().status, ProjectStatus::Completed);
}

#[test]
fn deposit_errors() {
    let (mut escrow, id) = registered(1000);
    assert_eq!(escrow.deposit(9, DONOR, T, 1), Err(Error::ProjectNotFound));
    assert_eq!(escrow.deposit(id, DONOR, T + 1, 1), Err(Error::TokenNotAccepted));
    assert_eq!(escrow.deposit(id, DONOR, T, 0), Err(Error::InvalidAmount));
    assert_eq!(escrow.deposit(id, DONOR, T, -3), Err(Error::InvalidAmount));
    assert_eq!(escrow.get_project(id).unwrap().status, ProjectStatus::Funding);
    assert_eq!(escrow.deposit(id, DONOR, T, i128::MAX), Ok(()));
    assert_eq!(escrow.deposit(id, DONOR, T, 1), Err(Error::Overflow));
    assert_eq!(escrow.get_balance(id, T), i128::MAX);
    assert_eq!(escrow.expire_project(id, D + 1), Ok(()));
    assert_eq!(escrow.deposit(id, DONOR, T, 1), Err(Error::InvalidStatus));
    assert_eq!(escrow.deposit(id, DONOR, T + 1, 1), Err(Error::InvalidStatus));
}

#[test]
fn release_errors_in_order_and_nothing_changes() {
    let (mut escrow, id) = registered(1000);
    let good = commitment();
    let mut bad = commitment();
    bad[0] ^= 1;
    assert_eq!(escrow.verify_and_release(ORACLE, 4, &good), Err(Error::ProjectNotFound));
    assert_eq!(escrow.verify_and_release(ORACLE, id, &good), Err(Error::Unauthorized));
    assert_eq!(escrow.verify_and_release(ADMIN, id, &good), Err(Error::Unauthorized));
    escrow.grant_role(ADMIN, ORACLE, Role::Oracle).unwrap();
    assert_eq!(escrow.verify_and_release(ORACLE, id, &good), Err(Error::InvalidStatus));
    escrow.deposit(id, DONOR, T, 999).unwrap();
    assert_eq!(escrow.verify_and_release(ORACLE, id, &bad), Err(Error::InvalidProof));
    assert_eq!(escrow.verify_and_release(ORACLE, id, &good), Err(Error::GoalNotMet));
    assert_eq!(escrow.get_balance(id, T), 999);
    assert_eq!(escrow.get_project(id).unwrap().status, ProjectStatus::Active);
    escrow.deposit(id, DONOR, T, 1).unwrap();
    assert_eq!(escrow.verify_and_release(ORACLE, id, &bad), Err(Error::InvalidProof));
    assert_eq!(escrow.get_balance(id, T), 1000);
    assert!(escrow.verify_and_release(ORACLE, id, &good).is_ok());
    assert_eq!(escrow.verify_and_release(ORACLE, id, &good), Err(Error::InvalidStatus));
    assert_eq!(escrow.deposit(id, DONOR, T, 1), Err(Error::InvalidStatus));
}

#[test]
fn goal_is_compared_with_the_sum_over_tokens() {
    let env = Env::default();
    let mut escrow = Escrow::init(ADMIN);
    let id = escrow.register_project(&env, CREATOR, vec![1, 2, 3], 600, commitment(), D, 0).unwrap();
    escrow.grant_role(ADMIN, ORACLE, Role::Oracle).unwrap();
    escrow.deposit(id, DONOR, 3, 300).unwrap();
    escrow.deposit(id, DONOR, 1, 300).unwrap();
    let plan = escrow.verify_and_release(ORACLE, id, &commitment()).unwrap();
    assert_eq!(plan, vec![TokenBalance { token: 3, balance: 300 }, TokenBalance { token: 1, balance: 300 }]);
    let balances = escrow.get_project_balances(id).unwrap();
    assert_eq!(balances.len(), 3);
    assert!(balances.iter().all(|b| b.balance == 0));
}

#[test]
fn hashes_compare_byte_for_byte() {
    let a = commitment();
    let mut b = commitment();
    assert!(same_hash(&a, &b));
    b[31] = 2;
    assert!(!same_hash(&a, &b));
    b[31] = 1;
    b[0] = 0;
    assert!(!same_hash(&a, &b));
}

#[test]
fn plan_release_answers_like_release_and_changes_nothing() {
    let env = Env::default();
    let mut escrow = Escrow::init(ADMIN);
    let id = escrow.register_project(&env, CREATOR, vec![1, 2], 10, commitment(), D, 0).unwrap();
    assert_eq!(escrow.plan_release(ORACLE, id, &commitment()), Err(Error::Unauthorized));
    escrow.grant_role(ADMIN, ORACLE, Role::Oracle).unwrap();
    assert_eq!(escrow.plan_release(ORACLE, id, &commitment()), Err(Error::InvalidStatus));
    assert_eq!(escrow.plan_release(ORACLE, id + 1, &commitment()), Err(Error::ProjectNotFound));
    escrow.deposit(id, DONOR, 2, 6).unwrap();
    assert_eq!(escrow.plan_release(ORACLE, id, &commitment()), Err(Error::GoalNotMet));
    escrow.deposit(id, DONOR, 1, 4).unwrap();
    assert_eq!(escrow.plan_release(ORACLE, id, &[0u8; 32]), Err(Error::InvalidProof));
    let expected = vec![TokenBalance { token: 2, balance: 6 }, TokenBalance { token: 1, balance: 4 }];
    assert_eq!(escrow.plan_release(ORACLE, id, &commitment()), Ok(expected.clone()));
    assert_eq!(escrow.get_balance(id, 1), 4);
    assert_eq!(escrow.get_balance(id, 2), 6);
    assert_eq!(escrow.get_project(id).unwrap().status, ProjectStatus::Active);
    assert_eq!(escrow.verify_and_release(ORACLE, id, &commitment()), Ok(expected));
    assert_eq!(escrow.plan_release(ORACLE, id, &commitment()), Err(Error::InvalidStatus));
}
