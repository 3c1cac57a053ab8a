use account_granter::lex::{bytes_eq, bytes_lt, key_before};
use account_granter::msg::{Expiration, Grant};
use account_granter::state::{AccountState, CredentialStore, GrantLedger, GrantRecord};
use account_granter::error::ContractError;

fn never() -> Grant {
    Grant { expiry: Expiration::Never }
}

fn at_height(h: u64) -> Grant {
    Grant { expiry: Expiration::AtHeight(h) }
}

fn record(type_url: &str, grantee: &[u8], grant: Grant) -> GrantRecord {
    GrantRecord { type_url: type_url.to_string(), grantee: grantee.to_vec(), grant }
}

fn five() -> GrantLedger {
    let mut ledger = GrantLedger::new();
    // put in an order that is not the key order
    ledger.put("/bank.MsgSend".to_string(), vec![2], at_height(12));
    ledger.put("/gov.MsgVote".to_string(), vec![1], at_height(15));
    ledger.put("/bank.MsgSend".to_string(), vec![1], at_height(11));
    ledger.put("/staking.MsgDelegate".to_string(), vec![1], at_height(14));
    ledger.put("/bank.MsgSend".to_string(), vec![3], at_height(13));
    ledger
}

fn sorted_five() -> Vec<GrantRecord> {
    vec![
        record("/bank.MsgSend", &[1], at_height(11)),
        record("/bank.MsgSend", &[2], at_height(12)),
        record("/bank.MsgSend", &[3], at_height(13)),
        record("/gov.MsgVote", &[1], at_height(15)),
        record("/staking.MsgDelegate", &[1], at_height(14)),
    ]
}

#[test]
fn new_ledger_is_empty() {
    let ledger = GrantLedger::new();
    assert_eq!(ledger.len(), 0);
    assert_eq!(ledger.get("/bank.MsgSend", &[1]), None);
    assert_eq!(ledger.list(&None, 10), Vec::<GrantRecord>::new());
}

#[test]
fn get_after_put_returns_the_grant() {
    let mut ledger = GrantLedger::new();
    ledger.put("/bank.MsgSend".to_string(), vec![1, 2, 3], at_height(7));
    assert_eq!(ledger.get("/bank.MsgSend", &[1, 2, 3]), Some(at_height(7)));
    assert_eq!(ledger.len(), 1);
}

#[test]
fn get_of_another_key_is_absent() {
    let mut ledger = GrantLedger::new();
    ledger.put("/bank.MsgSend".to_string(), vec![1, 2, 3], at_height(7));
    assert_eq!(ledger.get("/bank.MsgSend", &[1, 2]), None);
    assert_eq!(ledger.get("/bank.MsgSend", &[1, 2, 3, 4]), None);
    assert_eq!(ledger.get("/bank.MsgSen", &[1, 2, 3]), None);
    assert_eq!(ledger.get("/bank.MsgSendX", &[1, 2, 3]), None);
    assert_eq!(ledger.get("", &[]), None);
}

#[test]
fn put_overwrites_the_grant_of_its_key() {
    let mut ledger = GrantLedger::new();
    ledger.put("/bank.MsgSend".to_string(), vec![1], at_height(7));
    ledger.put("/gov.MsgVote".to_string(), vec![1], at_height(8));
    ledger.put("/bank.MsgSend".to_string(), vec![1], never());
    assert_eq!(ledger.len(), 2);
    assert_eq!(ledger.get("/bank.MsgSend", &[1]), Some(never()));
    assert_eq!(ledger.get("/gov.MsgVote", &[1]), Some(at_height(8)));
}

#[test]
fn get_after_remove_is_absent() {
    let mut ledger = five();
    ledger.remove("/bank.MsgSend", &[2]);
    assert_eq!(ledger.get("/bank.MsgSend", &[2]), None);
    assert_eq!(ledger.len(), 4);
    // the other keys keep their grants
    assert_eq!(ledger.get("/bank.MsgSend", &[1]), Some(at_height(11)));
    assert_eq!(ledger.get("/bank.MsgSend", &[3]), Some(at_height(13)));
    assert_eq!(ledger.get("/gov.MsgVote", &[1]), Some(at_height(15)));
    assert_eq!(ledger.get("/staking.MsgDelegate", &[1]), Some(at_height(14)));
}

#[test]
fn remove_of_an_absent_key_changes_nothing() {
    let mut ledger = five();
    let before = ledger.clone();
    ledger.remove("/bank.MsgSend", &[9]);
    ledger.remove("/nothing", &[1]);
    assert_eq!(ledger, before);
    let mut empty = GrantLedger::new();
    empty.remove("/bank.MsgSend", &[1]);
    assert_eq!(empty, GrantLedger::new());
}

#[test]
fn remove_twice_is_remove_once() {
    let mut ledger = five();
    ledger.remove("/gov.MsgVote", &[1]);
    let once = ledger.clone();
    ledger.remove("/gov.MsgVote", &[1]);
    assert_eq!(ledger, once);
}

#[test]
fn listing_is_in_key_order_whatever_the_order_of_puts() {
    let ledger = five();
    assert_eq!(ledger.list(&None, 100), sorted_five());
    let mut other = GrantLedger::new();
    for r in sorted_five().into_iter().rev() {
        other.put(r.type_url, r.grantee, r.grant);
    }
    assert_eq!(other, ledger);
}

#[test]
fn pagination_of_five_grants_by_two() {
    let ledger = five();
    let all = sorted_five();

    let first = ledger.list(&None, 2);
    assert_eq!(first, all[0..2].to_vec());

    let cursor = Some((first[1].type_url.clone(), first[1].grantee.clone()));
    let second = ledger.list(&cursor, 2);
    assert_eq!(second, all[2..4].to_vec());

    let cursor = Some((second[1].type_url.clone(), second[1].grantee.clone()));
    let third = ledger.list(&cursor, 2);
    assert_eq!(third, all[4..5].to_vec());

    let cursor = Some((third[0].type_url.clone(), third[0].grantee.clone()));
    assert_eq!(ledger.list(&cursor, 2), Vec::<GrantRecord>::new());

    let mut joined = first;
    joined.extend(second);
    joined.extend(third);
    assert_eq!(joined, all);
}

#[test]
fn two_pages_join_to_one() {
    let ledger = five();
    let first = ledger.list(&None, 3);
    let cursor = Some((first[2].type_url.clone(), first[2].grantee.clone()));
    let mut joined = first;
    joined.extend(ledger.list(&cursor, 1));
    assert_eq!(joined, ledger.list(&None, 4));
}

#[test]
fn listing_resumes_strictly_after_the_cursor() {
    let ledger = five();
    let all = sorted_five();
    // a cursor that is a key of the ledger is not given again
    let cursor = Some(("/bank.MsgSend".to_string(), vec![3]));
    assert_eq!(ledger.list(&cursor, 10), all[3..5].to_vec());
    // a cursor that is no key of the ledger resumes where it would stand
    let cursor = Some(("/bank.MsgSend".to_string(), vec![2, 0]));
    assert_eq!(ledger.list(&cursor, 10), all[2..5].to_vec());
    let cursor = Some(("/c".to_string(), vec![]));
    assert_eq!(ledger.list(&cursor, 10), all[3..5].to_vec());
    let cursor = Some(("".to_string(), vec![]));
    assert_eq!(ledger.list(&cursor, 10), all);
    let cursor = Some(("/z".to_string(), vec![]));
    assert_eq!(ledger.list(&cursor, 10), Vec::<GrantRecord>::new());
}

#[test]
fn listing_with_limit_zero_is_empty() {
    let ledger = five();
    assert_eq!(ledger.list(&None, 0), Vec::<GrantRecord>::new());
    assert_eq!(ledger.list(&Some(("/bank.MsgSend".to_string(), vec![1])), 0), Vec::<GrantRecord>::new());
}

#[test]
fn listing_with_a_large_limit_gives_all() {
    let ledger = five();
    assert_eq!(ledger.list(&None, usize::MAX), sorted_five());
    assert_eq!(ledger.list(&None, 5), sorted_five());
}

#[test]
fn scopes_order_before_delegates() {
    let mut ledger = GrantLedger::new();
    ledger.put("b".to_string(), vec![0], never());
    ledger.put("a".to_string(), vec![9], never());
    ledger.put("ab".to_string(), vec![5], never());
    ledger.put("a".to_string(), vec![9, 0], never());
    ledger.put("a".to_string(), vec![], never());
    ledger.put("".to_string(), vec![255], never());
    let expected = vec![
        record("", &[255], never()),
        record("a", &[], never()),
        record("a", &[9], never()),
        record("a", &[9, 0], never()),
        record("ab", &[5], never()),
        record("b", &[0], never()),
    ];
    assert_eq!(ledger.list(&None, 10), expected);
}

#[test]
fn scopes_order_by_their_utf8_bytes() {
    let mut ledger = GrantLedger::new();
    ledger.put("é".to_string(), vec![1], never());
    ledger.put("z".to_string(), vec![1], never());
    ledger.put("Z".to_string(), vec![1], never());
    ledger.put("日本".to_string(), vec![1], never());
    let listed: Vec<String> = ledger.list(&None, 10).into_iter().map(|r| r.type_url).collect();
    assert_eq!(listed, vec!["Z".to_string(), "z".to_string(), "é".to_string(), "日本".to_string()]);
    assert_eq!(ledger.get("é", &[1]), Some(never()));
    assert_eq!(ledger.get("e", &[1]), None);
}

#[test]
fn bytes_lt_is_lexicographic() {
    assert!(bytes_lt(&[], &[0]));
    assert!(!bytes_lt(&[], &[]));
    assert!(!bytes_lt(&[0], &[]));
    assert!(bytes_lt(&[1, 2], &[1, 2, 0]));
    assert!(bytes_lt(&[1, 2, 255], &[1, 3]));
    assert!(!bytes_lt(&[1, 3], &[1, 2, 255]));
    assert!(!bytes_lt(&[7, 7], &[7, 7]));
    assert!(bytes_lt(&[0], &[255]));
}

#[test]
fn bytes_eq_compares_contents() {
    assert!(bytes_eq(&[], &[]));
    assert!(bytes_eq(&[1, 2, 3], &[1, 2, 3]));
    assert!(!bytes_eq(&[1, 2, 3], &[1, 2]));
    assert!(!bytes_eq(&[1, 2, 3], &[1, 2, 4]));
}

#[test]
fn key_before_orders_by_scope_then_delegate() {
    assert!(key_before("a", &[9], "b", &[0]));
    assert!(!key_before("b", &[0], "a", &[9]));
    assert!(key_before("a", &[1], "a", &[2]));
    assert!(!key_before("a", &[2], "a", &[1]));
    assert!(!key_before("a", &[1], "a", &[1]));
    assert!(key_before("a", &[255], "aa", &[]));
}

#[test]
fn credential_store_loads_what_was_set() {
    let mut store = CredentialStore::new();
    assert_eq!(store.load(), Err(ContractError::NotInitialized));
    store.init(vec![2, 3, 5]);
    assert_eq!(store.load(), Ok(vec![2, 3, 5]));
    store.init(vec![7]);
    assert_eq!(store.load(), Ok(vec![7]));
}

#[test]
fn new_account_state_holds_nothing() {
    let state = AccountState::new();
    assert_eq!(state.credentials.load(), Err(ContractError::NotInitialized));
    assert_eq!(state.grants.len(), 0);
}
