//! The values that cross the library's boundary: blocks, expirations, grants,
//! the messages of the four entry points and what they answer.

use vstd::prelude::*;

use crate::state::GrantRecord;

verus! {

/// The block in which a call runs.
#[derive(Clone, Debug, PartialEq, Eq)]
pub struct BlockInfo {
    /// Height of the block.
    pub height: u64,
    /// Time of the block, in nanoseconds since the Unix epoch.
    pub time: u64,
    /// Name of the chain.
    pub chain_id: String,
}

/// The contract's own address, as the host reports it.
#[derive(Clone, Debug, PartialEq, Eq)]
pub struct ContractInfo {
    pub address: String,
}

/// Where and when a call runs.
#[derive(Clone, Debug, PartialEq, Eq)]
pub struct Env {
    pub block: BlockInfo,
    pub contract: ContractInfo,
}

/// Who made a call.
#[derive(Clone, Debug, PartialEq, Eq)]
pub struct MessageInfo {
    pub sender: String,
}

/// The point at which a grant becomes void.
#[derive(Clone, Copy, Debug, PartialEq, Eq, Structural)]
pub enum Expiration {
    /// Void from the block of this height on.
    AtHeight(u64),
    /// Void from this time on, in nanoseconds since the Unix epoch.
    AtTime(u64),
    /// Never void.
    Never,
}

impl Expiration {
    /// Whether the point has been reached in a block of the given height and
    /// time.
    pub open spec fn expired_at(self, height: u64, time: u64) -> bool {
        match self {
            Expiration::AtHeight(h) => height >= h,
            Expiration::AtTime(t) => time >= t,
            Expiration::Never => false,
        }
    }
}

impl Expiration {
    /// Whether the point has been reached in `block`.
    pub fn is_expired(&self, block: &BlockInfo) -> (r: bool)
        ensures
            r == self.expired_at(block.height, block.time),
    {
        crate::host::is_expired(self, block)
    }
}

/// Whether an optional expiration has been reached; an absent one never is.
pub open spec fn expiry_met(expiry: Option<Expiration>, height: u64, time: u64) -> bool {
    match expiry {
        Some(e) => e.expired_at(height, time),
        None => false,
    }
}

/// A permission that the owner gave to a delegate for one scope.
#[derive(Clone, Copy, Debug, PartialEq, Eq, Structural)]
pub struct Grant {
    /// The point from which the grant is void.
    pub expiry: Expiration,
}

/// The grant that is made with an optional expiry: without one it is never
/// void.
pub open spec fn granted_until(expiry: Option<Expiration>) -> Grant {
    match expiry {
        Some(e) => Grant { expiry: e },
        None => Grant { expiry: Expiration::Never },
    }
}

impl Grant {
    /// A grant with an optional expiry.
    pub fn new(expiry: Option<Expiration>) -> (grant: Grant)
        ensures
            grant == granted_until(expiry),
    {
        match expiry {
            Some(e) => Grant { expiry: e },
            None => Grant { expiry: Expiration::Never },
        }
    }
}

/// One message of a proposed transaction. The library reads its `type_url`,
/// the scope, and never its body.
#[derive(Clone, Debug, PartialEq, Eq)]
pub struct StargateMsg {
    pub type_url: String,
    pub value: Vec<u8>,
}

/// The scopes of a batch of messages, in order.
pub open spec fn scopes_of(msgs: Seq<StargateMsg>) -> Seq<Seq<char>> {
    Seq::new(msgs.len(), |i: int| msgs[i].type_url@)
}

/// A key and a value that a successful call reports.
#[derive(Clone, Debug, PartialEq, Eq)]
pub struct Attribute {
    pub key: String,
    pub value: String,
}

/// What a successful call reports: its attributes, in the order in which they
/// were added.
#[derive(Clone, Debug, PartialEq, Eq)]
pub struct Response {
    pub attributes: Vec<Attribute>,
}

/// A response as contracts see it: the pairs of key and value.
pub type ResponseView = Seq<(Seq<char>, Seq<char>)>;

impl View for Response {
    type V = ResponseView;

    open spec fn view(&self) -> ResponseView {
        Seq::new(self.attributes@.len(), |i: int| (self.attributes@[i].key@, self.attributes@[i].value@))
    }
}

impl Response {
    /// A response without attributes.
    pub fn new() -> (r: Response)
        ensures
            r@ == Seq::<(Seq<char>, Seq<char>)>::empty(),
    {
        Response { attributes: Vec::new() }
    }

    /// The response with one more attribute at its end.
    pub fn add_attribute(self, key: &str, value: String) -> (r: Response)
        ensures
            r@ == self@.push((key@, value@)),
    {
        let mut attributes = self.attributes;
        attributes.push(Attribute { key: key.to_owned(), value });
        Response { attributes }
    }
}

/// Sets up the account.
#[derive(Clone, Debug, PartialEq, Eq)]
pub struct InstantiateMsg {
    /// The owner's public key.
    pub pubkey: Vec<u8>,
}

/// The owner's changes to the ledger.
#[derive(Clone, Debug, PartialEq, Eq)]
pub enum ExecuteMsg {
    /// Give `grantee` the right to send messages of type `type_url`.
    Grant { type_url: String, grantee: Vec<u8>, expiry: Option<Expiration> },
    /// Take that right away.
    Revoke { type_url: String, grantee: Vec<u8> },
}

/// The hooks that the host calls around a transaction.
#[derive(Clone, Debug, PartialEq, Eq)]
pub enum AccountSudoMsg {
    /// Before the transaction runs: may it?
    BeforeTx {
        /// The messages of the transaction.
        msgs: Vec<StargateMsg>,
        /// The key that claims to have signed; the owner's if absent.
        pubkey: Option<Vec<u8>>,
        /// The bytes that were signed.
        sign_bytes: Vec<u8>,
        /// The signature over the SHA-256 digest of `sign_bytes`.
        signature: Vec<u8>,
    },
    /// After the transaction ran.
    AfterTx {},
}

/// The questions that the account answers.
#[derive(Clone, Debug, PartialEq, Eq)]
pub enum QueryMsg {
    /// The owner's public key.
    Pubkey {},
    /// The grant of one scope to one delegate.
    Grant { type_url: String, grantee: Vec<u8> },
    /// The grants in key order, a page at a time.
    Grants { start_after: Option<(String, Vec<u8>)>, limit: Option<u32> },
}

/// The answers to the questions of `QueryMsg`, one for each.
#[derive(Clone, Debug, PartialEq, Eq)]
pub enum QueryResponse {
    /// The owner's public key.
    Pubkey(Vec<u8>),
    /// The grant that was asked for, if the ledger holds it.
    Grant(Option<Grant>),
    /// One page of grants, in key order.
    Grants(Vec<GrantRecord>),
}

} // verus!
