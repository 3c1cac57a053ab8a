//! The four doors of the account: setting it up, the hooks round a
//! transaction, the owner's changes, and the questions.

use vstd::prelude::*;

use crate::error::{ContractError, ErrorView};
use crate::execute;
use crate::execute::{
    after_tx_response, before_tx_result, grant_outcome, init_response, outcome_of, revoke_outcome,
};
use crate::msg::{
    granted_until, scopes_of, AccountSudoMsg, Env, ExecuteMsg, Grant, InstantiateMsg, MessageInfo, QueryMsg,
    QueryResponse, Response, ResponseView,
};
use crate::query;
use crate::query::page_limit;
use crate::state::{cursor_view, lookup, page_of, records_of, AccountState};

verus! {

/// The key that a message claims as its signer.
pub open spec fn claimed_key(pubkey: Option<Vec<u8>>) -> Option<Seq<u8>> {
    match pubkey {
        Some(k) => Some(k@),
        None => None,
    }
}

/// The outcome of `sudo`.
pub open spec fn sudo_outcome(store: AccountState, env: Env, msg: AccountSudoMsg) -> execute::Outcome {
    match msg {
        AccountSudoMsg::BeforeTx { msgs, pubkey, sign_bytes, signature } => before_tx_result(
            store.credentials@,
            store.grants@,
            env.block.height,
            env.block.time,
            scopes_of(msgs@),
            claimed_key(pubkey),
            sign_bytes@,
            signature@,
        ),
        AccountSudoMsg::AfterTx {  } => Ok(after_tx_response()),
    }
}

/// The outcome of `execute`.
pub open spec fn execute_outcome(env: Env, info: MessageInfo, msg: ExecuteMsg) -> execute::Outcome {
    match msg {
        ExecuteMsg::Grant { type_url, grantee, expiry } => grant_outcome(
            info.sender@,
            env.contract.address@,
            env.block.height,
            env.block.time,
            type_url@,
            grantee@,
            expiry,
        ),
        ExecuteMsg::Revoke { type_url, grantee } => revoke_outcome(
            info.sender@,
            env.contract.address@,
            type_url@,
            grantee@,
        ),
    }
}

/// The ledger that a successful `execute` leaves.
pub open spec fn executed(grants: Map<crate::lex::KeyView, Grant>, msg: ExecuteMsg) -> Map<crate::lex::KeyView, Grant> {
    match msg {
        ExecuteMsg::Grant { type_url, grantee, expiry } => grants.insert((type_url@, grantee@), granted_until(expiry)),
        ExecuteMsg::Revoke { type_url, grantee } => grants.remove((type_url@, grantee@)),
    }
}

/// Whether `r` answers the question `msg` for the account `store`.
pub open spec fn answers(store: AccountState, msg: QueryMsg, r: Result<QueryResponse, ContractError>) -> bool {
    match msg {
        QueryMsg::Pubkey {  } => match store.credentials@ {
            Some(k) => r matches Ok(QueryResponse::Pubkey(v)) && v@ == k,
            None => r matches Err(e) && e@ == ErrorView::NotInitialized,
        },
        QueryMsg::Grant { type_url, grantee } => r matches Ok(QueryResponse::Grant(g)) && g == lookup(
            store.grants@,
            (type_url@, grantee@),
        ),
        QueryMsg::Grants { start_after, limit } => r matches Ok(QueryResponse::Grants(page)) && records_of(page@)
            == page_of(store.grants.records(), cursor_view(start_after), page_limit(limit)),
    }
}

/// Sets the account up with the owner's key.
pub fn instantiate(store: &mut AccountState, _env: Env, _info: MessageInfo, msg: InstantiateMsg) -> (r: Result<
    Response,
    ContractError,
>)
    ensures
        final(store).credentials@ == Some(msg.pubkey@),
        final(store).grants == old(store).grants,
        outcome_of(r) == Ok::<ResponseView, ErrorView>(init_response(msg.pubkey@)),
{
    execute::init(store, msg.pubkey.as_slice())
}

/// Runs the hook that the host calls before or after a transaction.
pub fn sudo(store: &AccountState, env: Env, msg: AccountSudoMsg) -> (r: Result<Response, ContractError>)
    ensures
        outcome_of(r) == sudo_outcome(*store, env, msg),
{
    match msg {
        AccountSudoMsg::BeforeTx { msgs, pubkey, sign_bytes, signature } => execute::before_tx(
            store,
            &env.block,
            msgs.as_slice(),
            pubkey.as_ref(),
            sign_bytes.as_slice(),
            signature.as_slice(),
        ),
        AccountSudoMsg::AfterTx {  } => execute::after_tx(),
    }
}

/// Makes the change to the ledger that `msg` asks for, if `info.sender` is
/// the account itself. A refused call leaves the state as it was.
pub fn execute(store: &mut AccountState, env: Env, info: MessageInfo, msg: ExecuteMsg) -> (r: Result<
    Response,
    ContractError,
>)
    ensures
        outcome_of(r) == execute_outcome(env, info, msg),
        r is Ok ==> final(store).grants@ == executed(old(store).grants@, msg) && final(store).grants.wf()
            && final(store).credentials == old(store).credentials,
        r is Err ==> *final(store) == *old(store),
{
    match msg {
        ExecuteMsg::Grant { type_url, grantee, expiry } => execute::grant(
            store,
            env,
            info,
            type_url,
            grantee,
            expiry,
        ),
        ExecuteMsg::Revoke { type_url, grantee } => execute::revoke(store, env, info, type_url, grantee),
    }
}

/// Answers a question.
pub fn query(store: &AccountState, _env: Env, msg: QueryMsg) -> (r: Result<QueryResponse, ContractError>)
    ensures
        answers(*store, msg, r),
{
    match msg {
        QueryMsg::Pubkey {  } => match query::pubkey(store) {
            Ok(k) => Ok(QueryResponse::Pubkey(k)),
            Err(e) => Err(e),
        },
        QueryMsg::Grant { type_url, grantee } => Ok(QueryResponse::Grant(query::grant(store, type_url, grantee))),
        QueryMsg::Grants { start_after, limit } => Ok(
            QueryResponse::Grants(query::grants(store, start_after, limit)),
        ),
    }
}

} // verus!
