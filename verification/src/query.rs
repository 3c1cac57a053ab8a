//! The questions that the account answers. None of them changes anything.

use vstd::prelude::*;

use crate::error::{ContractError, ErrorView};
use crate::msg::Grant;
use crate::state::{cursor_view, lookup, page_of, records_of, AccountState, GrantRecord};

verus! {

/// The length of a page where the caller names none.
pub const DEFAULT_LIMIT: u32 = 10;

/// The length that no page exceeds.
pub const MAX_LIMIT: u32 = 30;

/// The length of the page that a caller gets who asked for `limit`.
pub open spec fn page_limit(limit: Option<u32>) -> nat {
    match limit {
        Some(n) => if n < MAX_LIMIT {
            n as nat
        } else {
            MAX_LIMIT as nat
        },
        None => DEFAULT_LIMIT as nat,
    }
}

/// The owner's public key. Fails with `NotInitialized` while none is set.
pub fn pubkey(store: &AccountState) -> (r: Result<Vec<u8>, ContractError>)
    ensures
        match store.credentials@ {
            Some(k) => r matches Ok(v) && v@ == k,
            None => r matches Err(e) && e@ == ErrorView::NotInitialized,
        },
{
    store.credentials.load()
}

/// The grant of the scope `type_url` to `grantee`, if the ledger holds one.
/// A grant that is void is still given.
pub fn grant(store: &AccountState, type_url: String, grantee: Vec<u8>) -> (r: Option<Grant>)
    ensures
        r == lookup(store.grants@, (type_url@, grantee@)),
{
    store.grants.get(type_url.as_str(), grantee.as_slice())
}

/// One page of the grants in key order: those after the key `start_after`,
/// or from the first one on, and of them the first `limit`, at most
/// `MAX_LIMIT`, or `DEFAULT_LIMIT` where no limit is named.
pub fn grants(store: &AccountState, start_after: Option<(String, Vec<u8>)>, limit: Option<u32>) -> (r: Vec<
    GrantRecord,
>)
    ensures
        records_of(r@) == page_of(store.grants.records(), cursor_view(start_after), page_limit(limit)),
{
    let limit = match limit {
        Some(n) => if n < MAX_LIMIT {
            n
        } else {
            MAX_LIMIT
        },
        None => DEFAULT_LIMIT,
    };
    store.grants.list(&start_after, limit as usize)
}

} // verus!
