//! Why a call is refused.

use vstd::prelude::*;

verus! {

/// The reasons for which the account refuses a call.
#[derive(Clone, Debug, PartialEq, Eq)]
pub enum ContractError {
    /// A change to the ledger was asked for by someone other than the account.
    Unauthorized,
    /// The owner's key was asked for before it was set.
    NotInitialized,
    /// The signer holds no grant for the scope `type_url`. `grantee` is the
    /// signer's key in base64.
    GrantNotFound { type_url: String, grantee: String },
    /// The signer's grant for the scope `type_url` is void. `grantee` is the
    /// signer's key in base64.
    GrantExpired { type_url: String, grantee: String },
    /// The grant to be made is void already.
    NewGrantExpired,
    /// The signature does not verify against the signer's key.
    InvalidSignature,
}

/// A refusal as contracts see it.
pub ghost enum ErrorView {
    Unauthorized,
    NotInitialized,
    GrantNotFound { type_url: Seq<char>, grantee: Seq<char> },
    GrantExpired { type_url: Seq<char>, grantee: Seq<char> },
    NewGrantExpired,
    InvalidSignature,
}

impl View for ContractError {
    type V = ErrorView;

    open spec fn view(&self) -> ErrorView {
        match *self {
            ContractError::Unauthorized => ErrorView::Unauthorized,
            ContractError::NotInitialized => ErrorView::NotInitialized,
            ContractError::GrantNotFound { type_url, grantee } => ErrorView::GrantNotFound {
                type_url: type_url@,
                grantee: grantee@,
            },
            ContractError::GrantExpired { type_url, grantee } => ErrorView::GrantExpired {
                type_url: type_url@,
                grantee: grantee@,
            },
            ContractError::NewGrantExpired => ErrorView::NewGrantExpired,
            ContractError::InvalidSignature => ErrorView::InvalidSignature,
        }
    }
}

} // verus!
