use account_granter::error::ContractError;
use account_granter::execute::{grant, init, revoke};
use account_granter::msg::{
    Attribute, BlockInfo, ContractInfo, Env, Expiration, Grant, MessageInfo, Response,
};
use account_granter::state::AccountState;

const ACCOUNT: &str = "cosmos1account";
const SEND: &str = "/cosmos.bank.v1beta1.MsgSend";
const VOTE: &str = "/cosmos.gov.v1beta1.MsgVote";

fn env(height: u64, time: u64) -> Env {
    Env {
        block: BlockInfo { height, time, chain_id: "test-1".to_string() },
        contract: ContractInfo { address: ACCOUNT.to_string() },
    }
}

fn from(sender: &str) -> MessageInfo {
    MessageInfo { sender: sender.to_string() }
}

fn attr(key: &str, value: &str) -> Attribute {
    Attribute { key: key.to_string(), value: value.to_string() }
}

fn with_one_grant() -> AccountState {
    let mut state = AccountState::new();
    init(&mut state, &[2, 3, 5]).unwrap();
    grant(&mut state, env(10, 1000), from(ACCOUNT), SEND.to_string(), vec![1, 2, 3], None).unwrap();
    state
}

#[test]
fn init_sets_the_owner_key() {
    let mut state = AccountState::new();
    let r = init(&mut state, &[1, 2, 3, 4]);
    assert_eq!(r, Ok(Response { attributes: vec![attr("method", "init"), attr("pubkey", "AQIDBA==")] }));
    assert_eq!(state.credentials.load(), Ok(vec![1, 2, 3, 4]));
    assert_eq!(state.grants.len(), 0);
}

#[test]
fn init_leaves_the_ledger_alone() {
    let mut state = with_one_grant();
    let ledger = state.grants.clone();
    init(&mut state, &[9]).unwrap();
    assert_eq!(state.credentials.load(), Ok(vec![9]));
    assert_eq!(state.grants, ledger);
}

#[test]
fn grant_by_the_account_is_recorded() {
    let mut state = AccountState::new();
    let r = grant(
        &mut state,
        env(10, 1000),
        from(ACCOUNT),
        SEND.to_string(),
        vec![1, 2, 3],
        Some(Expiration::AtHeight(11)),
    );
    assert_eq!(
        r,
        Ok(Response {
            attributes: vec![
                attr("method", "grant"),
                attr("granter", ACCOUNT),
                attr("grantee", "AQID"),
                attr("type_url", SEND),
            ],
        })
    );
    assert_eq!(state.grants.get(SEND, &[1, 2, 3]), Some(Grant { expiry: Expiration::AtHeight(11) }));
    assert_eq!(state.grants.len(), 1);
}

#[test]
fn grant_new_without_expiry_is_never_void() {
    assert_eq!(Grant::new(None), Grant { expiry: Expiration::Never });
    assert_eq!(Grant::new(Some(Expiration::Never)), Grant { expiry: Expiration::Never });
    assert_eq!(Grant::new(Some(Expiration::AtHeight(3))), Grant { expiry: Expiration::AtHeight(3) });
    assert_eq!(Grant::new(Some(Expiration::AtTime(4))), Grant { expiry: Expiration::AtTime(4) });
}

#[test]
fn grant_without_expiry_is_recorded() {
    let mut state = AccountState::new();
    grant(&mut state, env(10, 1000), from(ACCOUNT), SEND.to_string(), vec![1], None).unwrap();
    grant(&mut state, env(10, 1000), from(ACCOUNT), VOTE.to_string(), vec![1], Some(Expiration::Never)).unwrap();
    assert_eq!(state.grants.get(SEND, &[1]), Some(Grant { expiry: Expiration::Never }));
    assert_eq!(state.grants.get(VOTE, &[1]), Some(Grant { expiry: Expiration::Never }));
}

#[test]
fn grant_replaces_the_grant_of_its_key() {
    let mut state = with_one_grant();
    grant(
        &mut state,
        env(10, 1000),
        from(ACCOUNT),
        SEND.to_string(),
        vec![1, 2, 3],
        Some(Expiration::AtTime(5000)),
    )
    .unwrap();
    assert_eq!(state.grants.len(), 1);
    assert_eq!(state.grants.get(SEND, &[1, 2, 3]), Some(Grant { expiry: Expiration::AtTime(5000) }));
}

#[test]
fn grant_needs_no_owner_key() {
    let mut state = AccountState::new();
    grant(&mut state, env(10, 1000), from(ACCOUNT), SEND.to_string(), vec![1], None).unwrap();
    assert_eq!(state.credentials.load(), Err(ContractError::NotInitialized));
    assert_eq!(state.grants.len(), 1);
}

#[test]
fn grant_from_another_sender_is_unauthorized() {
    let mut state = with_one_grant();
    let before = state.clone();
    let r = grant(&mut state, env(10, 1000), from("cosmos1other"), VOTE.to_string(), vec![1, 2, 3], None);
    assert_eq!(r, Err(ContractError::Unauthorized));
    assert_eq!(state, before);
}

#[test]
fn unauthorized_comes_before_new_grant_expired() {
    let mut state = with_one_grant();
    let r = grant(
        &mut state,
        env(10, 1000),
        from("cosmos1other"),
        VOTE.to_string(),
        vec![1, 2, 3],
        Some(Expiration::AtHeight(1)),
    );
    assert_eq!(r, Err(ContractError::Unauthorized));
}

#[test]
fn grant_with_past_height_is_refused_and_changes_nothing() {
    let mut state = with_one_grant();
    let before = state.clone();
    let r = grant(
        &mut state,
        env(10, 1000),
        from(ACCOUNT),
        SEND.to_string(),
        vec![1, 2, 3],
        Some(Expiration::AtHeight(9)),
    );
    assert_eq!(r, Err(ContractError::NewGrantExpired));
    assert_eq!(state, before);
    assert_eq!(state.grants.get(SEND, &[1, 2, 3]), Some(Grant { expiry: Expiration::Never }));
    let r = grant(&mut state, env(10, 1000), from(ACCOUNT), VOTE.to_string(), vec![7], Some(Expiration::AtHeight(0)));
    assert_eq!(r, Err(ContractError::NewGrantExpired));
    assert_eq!(state, before);
}

#[test]
fn grant_with_past_time_is_refused_and_changes_nothing() {
    let mut state = with_one_grant();
    let before = state.clone();
    let r = grant(
        &mut state,
        env(10, 1000),
        from(ACCOUNT),
        VOTE.to_string(),
        vec![1, 2, 3],
        Some(Expiration::AtTime(999)),
    );
    assert_eq!(r, Err(ContractError::NewGrantExpired));
    assert_eq!(state, before);
}

#[test]
fn grant_that_expires_in_the_current_block_is_refused() {
    let mut state = AccountState::new();
    let r = grant(&mut state, env(10, 1000), from(ACCOUNT), SEND.to_string(), vec![1], Some(Expiration::AtHeight(10)));
    assert_eq!(r, Err(ContractError::NewGrantExpired));
    let r = grant(&mut state, env(10, 1000), from(ACCOUNT), SEND.to_string(), vec![1], Some(Expiration::AtTime(1000)));
    assert_eq!(r, Err(ContractError::NewGrantExpired));
    assert_eq!(state, AccountState::new());
    let r = grant(&mut state, env(10, 1000), from(ACCOUNT), SEND.to_string(), vec![1], Some(Expiration::AtTime(1001)));
    assert!(r.is_ok());
}

#[test]
fn revoke_removes_the_grant() {
    let mut state = with_one_grant();
    let r = revoke(&mut state, env(10, 1000), from(ACCOUNT), SEND.to_string(), vec![1, 2, 3]);
    assert_eq!(
        r,
        Ok(Response {
            attributes: vec![
                attr("method", "revoke"),
                attr("granter", ACCOUNT),
                attr("grantee", "AQID"),
                attr("type_url", SEND),
            ],
        })
    );
    assert_eq!(state.grants.get(SEND, &[1, 2, 3]), None);
    assert_eq!(state.grants.len(), 0);
    assert_eq!(state.credentials.load(), Ok(vec![2, 3, 5]));
}

#[test]
fn revoke_of_an_absent_grant_succeeds_and_changes_nothing() {
    let mut state = with_one_grant();
    let before = state.clone();
    let r = revoke(&mut state, env(10, 1000), from(ACCOUNT), VOTE.to_string(), vec![1, 2, 3]);
    assert_eq!(
        r,
        Ok(Response {
            attributes: vec![
                attr("method", "revoke"),
                attr("granter", ACCOUNT),
                attr("grantee", "AQID"),
                attr("type_url", VOTE),
            ],
        })
    );
    assert_eq!(state, before);
    let r = revoke(&mut state, env(10, 1000), from(ACCOUNT), SEND.to_string(), vec![1, 2]);
    assert!(r.is_ok());
    assert_eq!(state, before);
    let mut empty = AccountState::new();
    assert!(revoke(&mut empty, env(10, 1000), from(ACCOUNT), SEND.to_string(), vec![1]).is_ok());
    assert_eq!(empty, AccountState::new());
}

#[test]
fn revoke_from_another_sender_is_unauthorized() {
    let mut state = with_one_grant();
    let before = state.clone();
    let r = revoke(&mut state, env(10, 1000), from("cosmos1other"), SEND.to_string(), vec![1, 2, 3]);
    assert_eq!(r, Err(ContractError::Unauthorized));
    assert_eq!(state, before);
    let r = revoke(&mut state, env(10, 1000), from(""), SEND.to_string(), vec![1, 2, 3]);
    assert_eq!(r, Err(ContractError::Unauthorized));
    assert_eq!(state, before);
}

#[test]
fn revoke_of_a_void_grant_removes_it() {
    let mut state = AccountState::new();
    grant(&mut state, env(10, 1000), from(ACCOUNT), SEND.to_string(), vec![1], Some(Expiration::AtHeight(11))).unwrap();
    revoke(&mut state, env(500, 1000), from(ACCOUNT), SEND.to_string(), vec![1]).unwrap();
    assert_eq!(state.grants.get(SEND, &[1]), None);
}
