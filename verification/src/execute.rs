//! The calls that set the account up, change its ledger, and decide whether a
//! transaction may run.
//!
//! A transaction that the owner signed needs a valid signature and nothing
//! else. One that another key signed needs, besides, a grant that is not void
//! for the scope of each of its messages: one message without such a grant
//! refuses the whole transaction.

use cosmwasm_std::VerificationError;
use vstd::prelude::*;
use vstd::slice::slice_to_vec;

use crate::error::{ContractError, ErrorView};
use crate::host;
use crate::host::{base64_of, secp256k1_verdict, sha256_of};
use crate::lex::{bytes_eq, KeyView};
use crate::msg::{
    expiry_met, granted_until, scopes_of, BlockInfo, Env, Expiration, Grant, MessageInfo, Response,
    ResponseView, StargateMsg,
};
use crate::state::{AccountState, GrantLedger};

verus! {

/// How a call ends, as contracts see it: what it reports, or why it was
/// refused.
pub type Outcome = Result<ResponseView, ErrorView>;

/// The outcome of a call that returned `r`.
pub open spec fn outcome_of(r: Result<Response, ContractError>) -> Outcome {
    match r {
        Ok(response) => Ok(response@),
        Err(e) => Err(e@),
    }
}

/// What `init` reports.
pub open spec fn init_response(pubkey: Seq<u8>) -> ResponseView {
    seq![("method"@, "init"@), ("pubkey"@, base64_of(pubkey))]
}

/// What an accepted `before_tx` reports.
pub open spec fn before_tx_response() -> ResponseView {
    seq![("method"@, "before_tx"@)]
}

/// What `after_tx` reports.
pub open spec fn after_tx_response() -> ResponseView {
    seq![("method"@, "after_tx"@)]
}

/// What a successful `grant` reports.
pub open spec fn grant_response(account: Seq<char>, type_url: Seq<char>, grantee: Seq<u8>) -> ResponseView {
    seq![
        ("method"@, "grant"@),
        ("granter"@, account),
        ("grantee"@, base64_of(grantee)),
        ("type_url"@, type_url),
    ]
}

/// What a successful `revoke` reports.
pub open spec fn revoke_response(account: Seq<char>, type_url: Seq<char>, grantee: Seq<u8>) -> ResponseView {
    seq![
        ("method"@, "revoke"@),
        ("granter"@, account),
        ("grantee"@, base64_of(grantee)),
        ("type_url"@, type_url),
    ]
}

/// Whether the ledger lets `delegate` send a message of type `scope` in a
/// block of the given height and time: it holds a grant for the two, and the
/// grant is not void.
pub open spec fn covers(grants: Map<KeyView, Grant>, height: u64, time: u64, scope: Seq<char>, delegate: Seq<u8>) -> bool {
    grants.contains_key((scope, delegate)) && !grants[(scope, delegate)].expiry.expired_at(height, time)
}

/// Why a message of type `scope` is refused to `delegate`: the grant is
/// void, or there is none.
pub open spec fn refusal(grants: Map<KeyView, Grant>, scope: Seq<char>, delegate: Seq<u8>) -> ErrorView {
    if grants.contains_key((scope, delegate)) {
        ErrorView::GrantExpired { type_url: scope, grantee: base64_of(delegate) }
    } else {
        ErrorView::GrantNotFound { type_url: scope, grantee: base64_of(delegate) }
    }
}

/// The refusal of the first scope that the ledger does not cover, if there is
/// such a scope.
pub open spec fn first_refusal(
    grants: Map<KeyView, Grant>,
    height: u64,
    time: u64,
    scopes: Seq<Seq<char>>,
    delegate: Seq<u8>,
) -> Option<ErrorView>
    decreases scopes.len(),
{
    if scopes.len() == 0 {
        None
    } else if !covers(grants, height, time, scopes[0], delegate) {
        Some(refusal(grants, scopes[0], delegate))
    } else {
        first_refusal(grants, height, time, scopes.drop_first(), delegate)
    }
}

/// The key that a transaction is held to have been signed with: the claimed
/// one, or the owner's where none is claimed.
pub open spec fn signer_of(owner: Option<Seq<u8>>, claimed: Option<Seq<u8>>) -> Seq<u8> {
    match claimed {
        Some(k) => k,
        None => match owner {
            Some(k) => k,
            None => Seq::empty(),
        },
    }
}

/// What the check of a signature said, as contracts see it: whether the
/// signature verifies, or nothing where the check could not be made.
pub open spec fn verdict_of(verified: Result<bool, VerificationError>) -> Option<bool> {
    match verified {
        Ok(b) => Some(b),
        Err(_) => None,
    }
}

/// The outcome that a verdict on the signature leads to: only a signature
/// that verifies is accepted.
pub open spec fn signature_outcome(verdict: Option<bool>) -> Outcome {
    if verdict == Some(true) {
        Ok(before_tx_response())
    } else {
        Err(ErrorView::InvalidSignature)
    }
}

/// The outcome of `before_tx` for an account with the key `owner` and the
/// ledger `grants`, in a block of the given height and time, for messages of
/// the types `scopes`, a claimed signer and the verdict on the signature.
pub open spec fn before_tx_outcome(
    owner: Option<Seq<u8>>,
    grants: Map<KeyView, Grant>,
    height: u64,
    time: u64,
    scopes: Seq<Seq<char>>,
    claimed: Option<Seq<u8>>,
    verdict: Option<bool>,
) -> Outcome {
    if owner is None {
        Err(ErrorView::NotInitialized)
    } else {
        let signer = signer_of(owner, claimed);
        let refused = if signer == owner->0 {
            None
        } else {
            first_refusal(grants, height, time, scopes, signer)
        };
        match refused {
            Some(e) => Err(e),
            None => signature_outcome(verdict),
        }
    }
}

/// The outcome of `before_tx` for the bytes that were signed and the
/// signature: the verdict is that of secp256k1 on the SHA-256 digest of the
/// bytes, the signature and the signer's key.
pub open spec fn before_tx_result(
    owner: Option<Seq<u8>>,
    grants: Map<KeyView, Grant>,
    height: u64,
    time: u64,
    scopes: Seq<Seq<char>>,
    claimed: Option<Seq<u8>>,
    sign_bytes: Seq<u8>,
    signature: Seq<u8>,
) -> Outcome {
    before_tx_outcome(
        owner,
        grants,
        height,
        time,
        scopes,
        claimed,
        secp256k1_verdict(sha256_of(sign_bytes), signature, signer_of(owner, claimed)),
    )
}

/// The outcome of `grant`.
pub open spec fn grant_outcome(
    sender: Seq<char>,
    account: Seq<char>,
    height: u64,
    time: u64,
    type_url: Seq<char>,
    grantee: Seq<u8>,
    expiry: Option<Expiration>,
) -> Outcome {
    if sender != account {
        Err(ErrorView::Unauthorized)
    } else if expiry_met(expiry, height, time) {
        Err(ErrorView::NewGrantExpired)
    } else {
        Ok(grant_response(account, type_url, grantee))
    }
}

/// The outcome of `revoke`.
pub open spec fn revoke_outcome(sender: Seq<char>, account: Seq<char>, type_url: Seq<char>, grantee: Seq<u8>) -> Outcome {
    if sender != account {
        Err(ErrorView::Unauthorized)
    } else {
        Ok(revoke_response(account, type_url, grantee))
    }
}

/// The key that a call claims as its signer.
pub open spec fn claimed_view(pubkey: Option<&Vec<u8>>) -> Option<Seq<u8>> {
    match pubkey {
        Some(k) => Some(k@),
        None => None,
    }
}

/// A point that was reached stays reached: in no later block is a void grant
/// good again.
pub proof fn lemma_expiry_lasts(expiry: Expiration, height: u64, time: u64, later_height: u64, later_time: u64)
    requires
        expiry.expired_at(height, time),
        height <= later_height,
        time <= later_time,
    ensures
        expiry.expired_at(later_height, later_time),
{
}

/// The check of a batch passes exactly where every scope is covered.
pub proof fn lemma_all_covered(
    grants: Map<KeyView, Grant>,
    height: u64,
    time: u64,
    scopes: Seq<Seq<char>>,
    delegate: Seq<u8>,
)
    ensures
        first_refusal(grants, height, time, scopes, delegate) is None <==> forall|i: int|
            0 <= i < scopes.len() ==> covers(grants, height, time, #[trigger] scopes[i], delegate),
    decreases scopes.len(),
{
    if scopes.len() > 0 {
        let rest = scopes.drop_first();
        lemma_all_covered(grants, height, time, rest, delegate);
        if covers(grants, height, time, scopes[0], delegate) && first_refusal(
            grants,
            height,
            time,
            scopes,
            delegate,
        ) is None {
            assert forall|i: int| 0 <= i < scopes.len() implies covers(
                grants,
                height,
                time,
                #[trigger] scopes[i],
                delegate,
            ) by {
                if i > 0 {
                    assert(scopes[i] == rest[i - 1]);
                }
            }
        }
    }
}

/// The check of a batch reports the first scope that is not covered,
/// whatever comes after it.
pub proof fn lemma_first_uncovered(
    grants: Map<KeyView, Grant>,
    height: u64,
    time: u64,
    scopes: Seq<Seq<char>>,
    delegate: Seq<u8>,
    i: int,
)
    requires
        0 <= i < scopes.len(),
        !covers(grants, height, time, scopes[i], delegate),
        forall|j: int| 0 <= j < i ==> covers(grants, height, time, #[trigger] scopes[j], delegate),
    ensures
        first_refusal(grants, height, time, scopes, delegate) == Some(refusal(grants, scopes[i], delegate)),
    decreases i,
{
    if i > 0 {
        let rest = scopes.drop_first();
        lemma_first_uncovered(grants, height, time, rest, delegate, i - 1);
    }
}

/// A transaction that the owner signed, by a claim or by default, is judged
/// by its signature alone, whatever the ledger holds: accepted where the
/// signature verifies, `InvalidSignature` where it does not.
pub proof fn lemma_owner_needs_no_grant(
    owner: Seq<u8>,
    grants: Map<KeyView, Grant>,
    height: u64,
    time: u64,
    scopes: Seq<Seq<char>>,
    claimed: Option<Seq<u8>>,
    verdict: Option<bool>,
)
    requires
        claimed is None || claimed == Some(owner),
    ensures
        before_tx_outcome(Some(owner), grants, height, time, scopes, claimed, verdict) == signature_outcome(
            verdict,
        ),
        verdict == Some(true) ==> before_tx_outcome(Some(owner), grants, height, time, scopes, claimed, verdict)
            is Ok,
        verdict != Some(true) ==> before_tx_outcome(Some(owner), grants, height, time, scopes, claimed, verdict)
            == Err::<ResponseView, ErrorView>(ErrorView::InvalidSignature),
{
}

/// A delegate who holds a grant that is not void for every scope of a batch
/// is accepted exactly where the signature verifies.
pub proof fn lemma_delegate_with_grants(
    owner: Seq<u8>,
    grants: Map<KeyView, Grant>,
    height: u64,
    time: u64,
    scopes: Seq<Seq<char>>,
    delegate: Seq<u8>,
    verdict: Option<bool>,
)
    requires
        delegate != owner,
        forall|i: int| 0 <= i < scopes.len() ==> covers(grants, height, time, #[trigger] scopes[i], delegate),
    ensures
        before_tx_outcome(Some(owner), grants, height, time, scopes, Some(delegate), verdict)
            == signature_outcome(verdict),
        before_tx_outcome(Some(owner), grants, height, time, scopes, Some(delegate), verdict) is Ok <==> verdict
            == Some(true),
{
    lemma_all_covered(grants, height, time, scopes, delegate);
}

/// One scope that is not covered refuses the whole batch, whatever the
/// signature and whatever grants cover the other scopes: the delegate is
/// never accepted, and the refusal names a scope of the batch that is not
/// covered.
pub proof fn lemma_one_uncovered_refuses_all(
    owner: Seq<u8>,
    grants: Map<KeyView, Grant>,
    height: u64,
    time: u64,
    scopes: Seq<Seq<char>>,
    delegate: Seq<u8>,
    verdict: Option<bool>,
    i: int,
) -> (first: int)
    requires
        delegate != owner,
        0 <= i < scopes.len(),
        !covers(grants, height, time, scopes[i], delegate),
    ensures
        0 <= first <= i,
        !covers(grants, height, time, scopes[first], delegate),
        forall|j: int| 0 <= j < first ==> covers(grants, height, time, #[trigger] scopes[j], delegate),
        before_tx_outcome(Some(owner), grants, height, time, scopes, Some(delegate), verdict) == Err::<
            ResponseView,
            ErrorView,
        >(refusal(grants, scopes[first], delegate)),
    decreases i,
{
    if exists|j: int| 0 <= j < i && !covers(grants, height, time, #[trigger] scopes[j], delegate) {
        let j = choose|j: int| 0 <= j < i && !covers(grants, height, time, #[trigger] scopes[j], delegate);
        lemma_one_uncovered_refuses_all(owner, grants, height, time, scopes, delegate, verdict, j)
    } else {
        lemma_first_uncovered(grants, height, time, scopes, delegate, i);
        i
    }
}

/// A delegate who lacks a grant for one scope of a batch is refused with
/// `GrantNotFound`, whatever the signature and whatever grants cover the
/// other scopes, unless a void grant is met before any missing one. The
/// scope that is named is the first one without a grant.
pub proof fn lemma_missing_grant_refuses(
    owner: Seq<u8>,
    grants: Map<KeyView, Grant>,
    height: u64,
    time: u64,
    scopes: Seq<Seq<char>>,
    delegate: Seq<u8>,
    verdict: Option<bool>,
    i: int,
) -> (first: int)
    requires
        delegate != owner,
        0 <= i < scopes.len(),
        !grants.contains_key((scopes[i], delegate)),
        forall|j: int|
            0 <= j < i && grants.contains_key((#[trigger] scopes[j], delegate)) && !covers(
                grants,
                height,
                time,
                scopes[j],
                delegate,
            ) ==> exists|f: int| 0 <= f < j && !grants.contains_key((#[trigger] scopes[f], delegate)),
    ensures
        0 <= first <= i,
        !grants.contains_key((scopes[first], delegate)),
        before_tx_outcome(Some(owner), grants, height, time, scopes, Some(delegate), verdict) == Err::<
            ResponseView,
            ErrorView,
        >(ErrorView::GrantNotFound { type_url: scopes[first], grantee: base64_of(delegate) }),
{
    lemma_one_uncovered_refuses_all(owner, grants, height, time, scopes, delegate, verdict, i)
}

/// A delegate whose grant for one scope of a batch is void is refused with
/// `GrantExpired`, whatever the signature and whatever grants cover the
/// other scopes, unless a missing grant is met before any void one. The
/// scope that is named is the first one with a void grant.
pub proof fn lemma_void_grant_refuses(
    owner: Seq<u8>,
    grants: Map<KeyView, Grant>,
    height: u64,
    time: u64,
    scopes: Seq<Seq<char>>,
    delegate: Seq<u8>,
    verdict: Option<bool>,
    i: int,
) -> (first: int)
    requires
        delegate != owner,
        0 <= i < scopes.len(),
        grants.contains_key((scopes[i], delegate)),
        grants[(scopes[i], delegate)].expiry.expired_at(height, time),
        forall|j: int|
            0 <= j < i && !grants.contains_key((#[trigger] scopes[j], delegate)) ==> exists|f: int|
                0 <= f < j && grants.contains_key((#[trigger] scopes[f], delegate)) && !covers(
                    grants,
                    height,
                    time,
                    scopes[f],
                    delegate,
                ),
    ensures
        0 <= first <= i,
        grants.contains_key((scopes[first], delegate)),
        grants[(scopes[first], delegate)].expiry.expired_at(height, time),
        before_tx_outcome(Some(owner), grants, height, time, scopes, Some(delegate), verdict) == Err::<
            ResponseView,
            ErrorView,
        >(ErrorView::GrantExpired { type_url: scopes[first], grantee: base64_of(delegate) }),
{
    lemma_one_uncovered_refuses_all(owner, grants, height, time, scopes, delegate, verdict, i)
}

/// A grant that was good when it was made is refused once its expiry is
/// reached: made in a block in which `grant` accepts it, it covers its scope
/// there, and in a block that has reached the expiry a message of that scope
/// is refused with `GrantExpired`.
pub proof fn lemma_grant_lapses(
    owner: Seq<u8>,
    grants: Map<KeyView, Grant>,
    account: Seq<char>,
    scope: Seq<char>,
    delegate: Seq<u8>,
    expiry: Option<Expiration>,
    height: u64,
    time: u64,
    later_height: u64,
    later_time: u64,
    verdict: Option<bool>,
)
    requires
        delegate != owner,
        grant_outcome(account, account, height, time, scope, delegate, expiry) is Ok,
        expiry_met(expiry, later_height, later_time),
    ensures
        covers(grants.insert((scope, delegate), granted_until(expiry)), height, time, scope, delegate),
        before_tx_outcome(
            Some(owner),
            grants.insert((scope, delegate), granted_until(expiry)),
            later_height,
            later_time,
            seq![scope],
            Some(delegate),
            verdict,
        ) == Err::<ResponseView, ErrorView>(
            ErrorView::GrantExpired { type_url: scope, grantee: base64_of(delegate) },
        ),
{
}

/// No change to the ledger is open to anyone but the account itself.
pub proof fn lemma_only_the_account_changes(
    sender: Seq<char>,
    account: Seq<char>,
    height: u64,
    time: u64,
    type_url: Seq<char>,
    grantee: Seq<u8>,
    expiry: Option<Expiration>,
)
    requires
        sender != account,
    ensures
        grant_outcome(sender, account, height, time, type_url, grantee, expiry) == Err::<ResponseView, ErrorView>(
            ErrorView::Unauthorized,
        ),
        revoke_outcome(sender, account, type_url, grantee) == Err::<ResponseView, ErrorView>(
            ErrorView::Unauthorized,
        ),
{
}

/// Sets the owner's key. The ledger stays as it is.
pub fn init(store: &mut AccountState, pubkey: &[u8]) -> (r: Result<Response, ContractError>)
    ensures
        final(store).credentials@ == Some(pubkey@),
        final(store).grants == old(store).grants,
        outcome_of(r) == Ok::<ResponseView, ErrorView>(init_response(pubkey@)),
{
    store.credentials.init(slice_to_vec(pubkey));
    let r = Response::new().add_attribute("method", "init".to_owned()).add_attribute(
        "pubkey",
        host::to_base64(pubkey),
    );
    assert(r@ =~= init_response(pubkey@));
    Ok(r)
}

/// Decides whether a transaction may run.
///
/// The transaction is accepted where the owner's key is set, the signer is
/// the owner or holds a grant that is not void for the type of each message,
/// and the signature over the SHA-256 digest of `sign_bytes` verifies against
/// the signer's key. Nothing is changed either way.
pub fn before_tx(
    store: &AccountState,
    block: &BlockInfo,
    msgs: &[StargateMsg],
    pubkey: Option<&Vec<u8>>,
    sign_bytes: &[u8],
    signature: &[u8],
) -> (r: Result<Response, ContractError>)
    ensures
        outcome_of(r) == before_tx_result(
            store.credentials@,
            store.grants@,
            block.height,
            block.time,
            scopes_of(msgs@),
            claimed_view(pubkey),
            sign_bytes@,
            signature@,
        ),
{
    let sign_bytes_hash = host::sha256(sign_bytes);
    let self_pubkey = match store.credentials.load() {
        Ok(k) => k,
        Err(e) => {
            return Err(e);
        },
    };
    let pubkey = match pubkey {
        Some(k) => k,
        None => &self_pubkey,
    };
    if !bytes_eq(pubkey.as_slice(), self_pubkey.as_slice()) {
        match assert_has_grant(&store.grants, block, msgs, pubkey.as_slice()) {
            Ok(()) => {},
            Err(e) => {
                return Err(e);
            },
        }
    }
    check_signature(host::secp256k1_verify(sign_bytes_hash.as_slice(), signature, pubkey.as_slice()))
}

/// Turns the verdict on a signature into the outcome of `before_tx`: a
/// signature that verifies is accepted; one that does not, or that could not
/// be checked, is an `InvalidSignature`.
pub fn check_signature(verified: Result<bool, VerificationError>) -> (r: Result<Response, ContractError>)
    ensures
        outcome_of(r) == signature_outcome(verdict_of(verified)),
{
    match verified {
        Ok(true) => Ok(Response::new().add_attribute("method", "before_tx".to_owned())),
        _ => Err(ContractError::InvalidSignature),
    }
}

/// The hook that runs after a transaction: accepts, always.
pub fn after_tx() -> (r: Result<Response, ContractError>)
    ensures
        outcome_of(r) == Ok::<ResponseView, ErrorView>(after_tx_response()),
{
    Ok(Response::new().add_attribute("method", "after_tx".to_owned()))
}

/// Gives `grantee` the right to send messages of type `type_url`, until
/// `expiry` if there is one, for good if there is none.
///
/// Only the account itself may do so, and not with an expiry that the
/// current block has reached. A grant that the ledger holds for the same
/// scope and delegate is replaced. A refused call leaves the state as it was.
pub fn grant(
    store: &mut AccountState,
    env: Env,
    info: MessageInfo,
    type_url: String,
    grantee: Vec<u8>,
    expiry: Option<Expiration>,
) -> (r: Result<Response, ContractError>)
    ensures
        outcome_of(r) == grant_outcome(
            info.sender@,
            env.contract.address@,
            env.block.height,
            env.block.time,
            type_url@,
            grantee@,
            expiry,
        ),
        r is Ok ==> final(store).grants@ == old(store).grants@.insert((type_url@, grantee@), granted_until(expiry))
            && final(store).grants.wf() && final(store).credentials == old(store).credentials,
        r is Err ==> *final(store) == *old(store),
{
    // only the account itself can make grants
    match assert_self(&info.sender, &env.contract.address) {
        Ok(()) => {},
        Err(e) => {
            return Err(e);
        },
    }
    // the grant can't be already expired
    if let Some(e) = &expiry {
        if e.is_expired(&env.block) {
            return Err(ContractError::NewGrantExpired);
        }
    }
    let r = Response::new().add_attribute("method", "grant".to_owned()).add_attribute(
        "granter",
        env.contract.address,
    ).add_attribute("grantee", host::to_base64(grantee.as_slice())).add_attribute("type_url", type_url.clone());
    assert(r@ =~= grant_response(env.contract.address@, type_url@, grantee@));
    store.grants.put(type_url, grantee, Grant::new(expiry));
    Ok(r)
}

/// Takes from `grantee` the right to send messages of type `type_url`.
///
/// Only the account itself may do so. Where the ledger holds no such grant,
/// the call succeeds and changes nothing. A refused call leaves the state as
/// it was.
pub fn revoke(store: &mut AccountState, env: Env, info: MessageInfo, type_url: String, grantee: Vec<u8>) -> (r:
    Result<Response, ContractError>)
    ensures
        outcome_of(r) == revoke_outcome(info.sender@, env.contract.address@, type_url@, grantee@),
        r is Ok ==> final(store).grants@ == old(store).grants@.remove((type_url@, grantee@))
            && final(store).grants.wf() && final(store).credentials == old(store).credentials,
        r is Ok && !old(store).grants@.contains_key((type_url@, grantee@)) ==> final(store).grants.records() == old(
            store,
        ).grants.records(),
        r is Err ==> *final(store) == *old(store),
{
    // only the account itself can revoke grants
    match assert_self(&info.sender, &env.contract.address) {
        Ok(()) => {},
        Err(e) => {
            return Err(e);
        },
    }
    store.grants.remove(type_url.as_str(), grantee.as_slice());
    let r = Response::new().add_attribute("method", "revoke".to_owned()).add_attribute(
        "granter",
        env.contract.address,
    ).add_attribute("grantee", host::to_base64(grantee.as_slice())).add_attribute("type_url", type_url);
    assert(r@ =~= revoke_response(env.contract.address@, type_url@, grantee@));
    Ok(r)
}

/// Checks that `grantee` holds a grant that is not void in `block` for the
/// type of each message, and reports the first message for which it does
/// not: `GrantNotFound` where the ledger has no grant, `GrantExpired` where
/// the grant is void.
pub fn assert_has_grant(ledger: &GrantLedger, block: &BlockInfo, msgs: &[StargateMsg], grantee: &[u8]) -> (r:
    Result<(), ContractError>)
    ensures
        match first_refusal(ledger@, block.height, block.time, scopes_of(msgs@), grantee@) {
            Some(e) => r matches Err(x) && x@ == e,
            None => r is Ok,
        },
{
    let ghost scopes = scopes_of(msgs@);
    let ghost grants = ledger@;
    let mut i: usize = 0;
    assert(scopes.skip(0) =~= scopes);
    while i < msgs.len()
        invariant
            i <= msgs.len(),
            scopes == scopes_of(msgs@),
            grants == ledger@,
            first_refusal(grants, block.height, block.time, scopes, grantee@) == first_refusal(
                grants,
                block.height,
                block.time,
                scopes.skip(i as int),
                grantee@,
            ),
        decreases msgs.len() - i,
    {
        let msg = &msgs[i];
        let ghost rest = scopes.skip(i as int);
        assert(rest.drop_first() =~= scopes.skip(i + 1));
        match ledger.get(msg.type_url.as_str(), grantee) {
            None => {
                return Err(
                    ContractError::GrantNotFound {
                        type_url: msg.type_url.clone(),
                        grantee: host::to_base64(grantee),
                    },
                );
            },
            Some(grant) => {
                if grant.expiry.is_expired(block) {
                    return Err(
                        ContractError::GrantExpired {
                            type_url: msg.type_url.clone(),
                            grantee: host::to_base64(grantee),
                        },
                    );
                }
            },
        }
        i += 1;
    }
    Ok(())
}

/// Checks that a call comes from the account itself.
pub fn assert_self(sender: &String, contract: &String) -> (r: Result<(), ContractError>)
    ensures
        match r {
            Ok(()) => sender@ == contract@,
            Err(e) => sender@ != contract@ && e@ == ErrorView::Unauthorized,
        },
{
    if !(*sender == *contract) {
        return Err(ContractError::Unauthorized);
    }
    Ok(())
}

} // verus!
