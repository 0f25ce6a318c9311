use crowdfunding::AccountId;
use crowdfunding::Crowdfunding;
use crowdfunding::PSP22Error;

fn account(id: u128) -> AccountId {
    AccountId { id }
}

#[test]
fn threshold_strictly_below_fails_unchanged() {
    let manager = account(1);
    let x = account(2);
    let mut state = Crowdfunding::default(100, manager);
    for transferred in [0u128, 1, 50, 99] {
        let r = state.contribute(x, transferred);
        assert_eq!(r, Err(PSP22Error::InsufficientBalance));
        assert_eq!(state.approver_count(), 0);
    }
}

#[test]
fn threshold_boundary_succeeds() {
    let manager = account(1);
    let x = account(2);
    let mut state = Crowdfunding::default(100, manager);
    assert_eq!(state.contribute(x, 100), Ok(()));
    assert!(state.is_approver(x));
}

#[test]
fn contribution_is_idempotent() {
    let manager = account(1);
    let x = account(2);
    let mut state = Crowdfunding::default(100, manager);
    assert_eq!(state.contribute(x, 150), Ok(()));
    assert_eq!(state.contribute(x, 300), Ok(()));
    assert!(state.is_approver(x));
    assert_eq!(state.approver_count(), 1);
}

#[test]
fn distinct_contributors_each_counted() {
    let manager = account(1);
    let mut state = Crowdfunding::default(100, manager);
    for id in 2..7u128 {
        assert_eq!(state.contribute(account(id), 100), Ok(()));
    }
    assert_eq!(state.approver_count(), 5);
    for id in 2..7u128 {
        assert!(state.is_approver(account(id)));
    }
    assert!(!state.is_approver(manager));
}

#[test]
fn request_ids_are_sequential() {
    let manager = account(1);
    let recipient = account(9);
    let mut state = Crowdfunding::default(100, manager);
    for expected in 0u32..4 {
        let r = state.create_spending_request(manager, b"work".to_vec(), 10, recipient);
        assert_eq!(r, Ok(expected));
    }
    assert_eq!(state.request_count(), 4);
    for expected in 0u32..4 {
        let req = state.get_request(expected).expect("issued id resolves");
        assert_eq!(req.request_id, expected);
    }
}

#[test]
fn non_manager_cannot_move_the_counter() {
    let manager = account(1);
    let intruder = account(2);
    let recipient = account(9);
    let mut state = Crowdfunding::default(100, manager);
    let denied = state.create_spending_request(intruder, b"grab".to_vec(), 10, recipient);
    assert_eq!(denied, Err(PSP22Error::Unauthorized));
    assert_eq!(state.request_count(), 0);
    let granted = state.create_spending_request(manager, b"work".to_vec(), 10, recipient);
    assert_eq!(granted, Ok(0));
}

#[test]
fn manager_address_never_changes() {
    let manager = account(1);
    let x = account(2);
    let recipient = account(9);
    let mut state = Crowdfunding::default(100, manager);
    assert_eq!(state.get_manger_address(), manager);
    let _ = state.contribute(x, 50);
    assert_eq!(state.get_manger_address(), manager);
    let _ = state.contribute(x, 200);
    assert_eq!(state.get_manger_address(), manager);
    let _ = state.create_spending_request(manager, b"work".to_vec(), 10, recipient);
    assert_eq!(state.get_manger_address(), manager);
    let _ = state.create_spending_request(x, b"grab".to_vec(), 10, recipient);
    assert_eq!(state.get_manger_address(), manager);
    state.increment_request_id();
    assert_eq!(state.get_manger_address(), manager);
}

#[test]
fn manager_contribution_barred_by_default() {
    let manager = account(1);
    let mut state = Crowdfunding::default(100, manager);
    let r = state.contribute(manager, 500);
    assert_eq!(r, Err(PSP22Error::Unauthorized));
    assert!(!state.is_approver(manager));
    assert_eq!(state.approver_count(), 0);
}

#[test]
fn manager_contribution_allowed_when_configured() {
    let manager = account(1);
    let mut state = Crowdfunding::with_config(100, manager, true);
    let r = state.contribute(manager, 500);
    assert_eq!(r, Ok(()));
    assert!(state.is_approver(manager));
}

#[test]
fn zero_minimum_accepts_any_value() {
    let manager = account(1);
    let x = account(2);
    let mut state = Crowdfunding::default(0, manager);
    assert_eq!(state.contribute(x, 0), Ok(()));
    assert!(state.is_approver(x));
}

#[test]
fn extreme_balances_compared_exactly() {
    let manager = account(1);
    let x = account(2);
    let y = account(3);
    let mut state = Crowdfunding::default(u128::MAX, manager);
    assert_eq!(state.contribute(x, u128::MAX - 1), Err(PSP22Error::InsufficientBalance));
    assert_eq!(state.contribute(y, u128::MAX), Ok(()));
    assert!(!state.is_approver(x));
    assert!(state.is_approver(y));
}

#[test]
fn increment_request_id_returns_new_value() {
    let manager = account(1);
    let recipient = account(9);
    let mut state = Crowdfunding::default(100, manager);
    assert_eq!(state.increment_request_id(), 1);
    assert_eq!(state.increment_request_id(), 2);
    let r = state.create_spending_request(manager, b"work".to_vec(), 10, recipient);
    assert_eq!(r, Ok(2));
    assert!(state.get_request(0).is_none());
    assert!(state.get_request(2).is_some());
}
