//! What the account keeps between calls: the owner's key and the ledger of
//! grants.
//!
//! The ledger holds at most one grant for a key, the pair of a scope and a
//! delegate, and keeps its records in the order of their keys, so that a
//! listing always comes out the same way.

use vstd::prelude::*;
use vstd::slice::slice_to_vec;

use crate::error::ContractError;
use crate::lex::{
    key_before, key_lt, lemma_key_asymmetric, lemma_key_irreflexive, lemma_key_total,
    lemma_key_transitive, KeyView,
};
use crate::msg::Grant;

verus! {

/// A grant together with its key.
#[derive(Clone, Debug, PartialEq, Eq)]
pub struct GrantRecord {
    /// The scope: the type of message that the delegate may send.
    pub type_url: String,
    /// The delegate's public key.
    pub grantee: Vec<u8>,
    pub grant: Grant,
}

/// A record as contracts see it.
pub ghost struct RecordView {
    pub type_url: Seq<char>,
    pub grantee: Seq<u8>,
    pub grant: Grant,
}

impl RecordView {
    pub open spec fn key(self) -> KeyView {
        (self.type_url, self.grantee)
    }
}

impl View for GrantRecord {
    type V = RecordView;

    open spec fn view(&self) -> RecordView {
        RecordView { type_url: self.type_url@, grantee: self.grantee@, grant: self.grant }
    }
}

/// The views of a sequence of records.
pub open spec fn records_of(v: Seq<GrantRecord>) -> Seq<RecordView> {
    Seq::new(v.len(), |i: int| v[i]@)
}

/// Each record's key comes before the keys of all records after it.
pub open spec fn ascending(s: Seq<RecordView>) -> bool {
    forall|i: int, j: int| 0 <= i < j < s.len() ==> key_lt(#[trigger] s[i].key(), #[trigger] s[j].key())
}

/// Some record of `s` has the key `k`.
pub open spec fn holds(s: Seq<RecordView>, k: KeyView) -> bool {
    exists|i: int| 0 <= i < s.len() && #[trigger] s[i].key() == k
}

/// The map from the keys of `s` to their grants.
pub open spec fn records_map(s: Seq<RecordView>) -> Map<KeyView, Grant> {
    Map::new(
        |k: KeyView| holds(s, k),
        |k: KeyView| s[choose|i: int| 0 <= i < s.len() && #[trigger] s[i].key() == k].grant,
    )
}

/// What a map answers for a key: its grant, or nothing.
pub open spec fn lookup(m: Map<KeyView, Grant>, k: KeyView) -> Option<Grant> {
    if m.contains_key(k) {
        Some(m[k])
    } else {
        None
    }
}

/// The records that a listing resumes with: all of them, or those whose key
/// comes after `start_after`.
pub open spec fn records_after(s: Seq<RecordView>, start_after: Option<KeyView>) -> Seq<RecordView> {
    match start_after {
        Some(k) => s.filter(|r: RecordView| key_lt(k, r.key())),
        None => s,
    }
}

/// One page of a listing: the first `limit` of the records after
/// `start_after`, or all of them where there are fewer.
pub open spec fn page_of(s: Seq<RecordView>, start_after: Option<KeyView>, limit: nat) -> Seq<RecordView> {
    let rest = records_after(s, start_after);
    if limit < rest.len() {
        rest.take(limit as int)
    } else {
        rest
    }
}

/// The key that a cursor names.
pub open spec fn cursor_view(start_after: Option<(String, Vec<u8>)>) -> Option<KeyView> {
    match start_after {
        Some(k) => Some((k.0@, k.1@)),
        None => None,
    }
}

/// `p` parts `s` at `k`: the keys before `p` come before `k`, the keys from
/// `p` on do not.
pub open spec fn parts_at(s: Seq<RecordView>, k: KeyView, p: int) -> bool {
    &&& 0 <= p <= s.len()
    &&& forall|i: int| 0 <= i < p ==> key_lt(#[trigger] s[i].key(), k)
    &&& forall|i: int| p <= i < s.len() ==> !key_lt(#[trigger] s[i].key(), k)
}

/// In an ascending sequence every record is found under its key.
pub proof fn lemma_record_in_map(s: Seq<RecordView>, i: int)
    requires
        ascending(s),
        0 <= i < s.len(),
    ensures
        records_map(s).contains_key(s[i].key()),
        records_map(s)[s[i].key()] == s[i].grant,
{
    lemma_key_irreflexive(s[i].key());
}

/// Two ascending sequences with one map are one sequence: the map of a
/// ledger says all there is to say of it.
pub proof fn lemma_records_determined(a: Seq<RecordView>, b: Seq<RecordView>)
    requires
        ascending(a),
        ascending(b),
        records_map(a) == records_map(b),
    ensures
        a == b,
    decreases a.len(),
{
    if a.len() == 0 {
        if b.len() > 0 {
            lemma_record_in_map(b, 0);
        }
    } else if b.len() == 0 {
        lemma_record_in_map(a, 0);
    } else {
        // The first records agree: each sequence's first key is its least.
        lemma_record_in_map(a, 0);
        lemma_record_in_map(b, 0);
        let i = choose|i: int| 0 <= i < b.len() && #[trigger] b[i].key() == a[0].key();
        let j = choose|j: int| 0 <= j < a.len() && #[trigger] a[j].key() == b[0].key();
        if i > 0 && j > 0 {
            lemma_key_asymmetric(a[0].key(), b[0].key());
        }
        let a1 = a.drop_first();
        let b1 = b.drop_first();
        lemma_drop_first(a);
        lemma_drop_first(b);
        lemma_records_determined(a1, b1);
        assert(a =~= seq![a[0]] + a1);
    }
}

/// Without its first record an ascending sequence is ascending, and its map
/// lacks the first key and nothing else.
proof fn lemma_drop_first(s: Seq<RecordView>)
    requires
        ascending(s),
        s.len() > 0,
    ensures
        ascending(s.drop_first()),
        records_map(s.drop_first()) == records_map(s).remove(s[0].key()),
{
    let t = s.drop_first();
    let m = records_map(s).remove(s[0].key());
    assert forall|i: int| 0 <= i < t.len() implies m.contains_key(#[trigger] t[i].key()) && m[t[i].key()]
        == t[i].grant by {
        lemma_record_in_map(s, i + 1);
        lemma_key_irreflexive(s[0].key());
    }
    assert forall|k: KeyView| m.contains_key(k) implies holds(t, k) by {
        let i = choose|i: int| 0 <= i < s.len() && #[trigger] s[i].key() == k;
        assert(t[i - 1].key() == k);
    }
}

/// Where `p` parts an ascending sequence at `k` and the record at `p`, if
/// there is one, has another key, no record has the key `k`, and the keys
/// from `p` on come after `k`.
proof fn lemma_absent(s: Seq<RecordView>, k: KeyView, p: int)
    requires
        ascending(s),
        parts_at(s, k, p),
        p < s.len() ==> s[p].key() != k,
    ensures
        !holds(s, k),
        forall|i: int| p <= i < s.len() ==> key_lt(k, #[trigger] s[i].key()),
{
    assert forall|i: int| p <= i < s.len() implies key_lt(k, #[trigger] s[i].key()) by {
        lemma_key_total(k, s[p].key());
        if p < i {
            lemma_key_transitive(k, s[p].key(), s[i].key());
        }
    }
    lemma_key_irreflexive(k);
}

/// A record put where its key belongs, between the smaller keys and the
/// larger ones, leaves the sequence ascending and adds its key to the map.
proof fn lemma_insert(s: Seq<RecordView>, p: int, r: RecordView)
    requires
        ascending(s),
        parts_at(s, r.key(), p),
        p < s.len() ==> s[p].key() != r.key(),
    ensures
        ascending(s.insert(p, r)),
        records_map(s.insert(p, r)) == records_map(s).insert(r.key(), r.grant),
{
    let t = s.insert(p, r);
    let k = r.key();
    lemma_absent(s, k, p);
    let m = records_map(s).insert(k, r.grant);
    assert forall|i: int| 0 <= i < t.len() implies m.contains_key(#[trigger] t[i].key()) && m[t[i].key()]
        == t[i].grant by {
        if i < p {
            lemma_record_in_map(s, i);
        } else if i > p {
            lemma_record_in_map(s, i - 1);
        }
    }
    assert forall|x: KeyView| m.contains_key(x) implies holds(t, x) by {
        if x == k {
            assert(t[p].key() == x);
        } else {
            let i = choose|i: int| 0 <= i < s.len() && #[trigger] s[i].key() == x;
            if i < p {
                assert(t[i].key() == x);
            } else {
                assert(t[i + 1].key() == x);
            }
        }
    }
}

/// A record that takes the place of one with its own key leaves the sequence
/// ascending and changes the grant under that key.
proof fn lemma_replace(s: Seq<RecordView>, p: int, r: RecordView)
    requires
        ascending(s),
        0 <= p < s.len(),
        s[p].key() == r.key(),
    ensures
        ascending(s.update(p, r)),
        records_map(s.update(p, r)) == records_map(s).insert(r.key(), r.grant),
{
    let t = s.update(p, r);
    let m = records_map(s).insert(r.key(), r.grant);
    lemma_key_irreflexive(r.key());
    assert forall|i: int| 0 <= i < t.len() implies m.contains_key(#[trigger] t[i].key()) && m[t[i].key()]
        == t[i].grant by {
        lemma_record_in_map(s, i);
    }
    assert forall|x: KeyView| m.contains_key(x) implies holds(t, x) by {
        if x == r.key() {
            assert(t[p].key() == x);
        } else {
            let i = choose|i: int| 0 <= i < s.len() && #[trigger] s[i].key() == x;
            assert(t[i].key() == x);
        }
    }
}

/// Without one of its records an ascending sequence is ascending, and its
/// map lacks that record's key and nothing else.
proof fn lemma_remove(s: Seq<RecordView>, p: int)
    requires
        ascending(s),
        0 <= p < s.len(),
    ensures
        ascending(s.remove(p)),
        records_map(s.remove(p)) == records_map(s).remove(s[p].key()),
{
    let t = s.remove(p);
    let k = s[p].key();
    let m = records_map(s).remove(k);
    lemma_key_irreflexive(k);
    assert forall|i: int| 0 <= i < t.len() implies m.contains_key(#[trigger] t[i].key()) && m[t[i].key()]
        == t[i].grant by {
        let i0 = if i < p { i } else { i + 1 };
        lemma_record_in_map(s, i0);
    }
    assert forall|x: KeyView| m.contains_key(x) implies holds(t, x) by {
        let i = choose|i: int| 0 <= i < s.len() && #[trigger] s[i].key() == x;
        if i < p {
            assert(t[i].key() == x);
        } else {
            assert(t[i - 1].key() == x);
        }
    }
}

/// Where a test fails on the first `p` elements and holds from there on,
/// what passes the test is the sequence from `p` on.
proof fn lemma_filter_tail(s: Seq<RecordView>, pred: spec_fn(RecordView) -> bool, p: int)
    requires
        0 <= p <= s.len(),
        forall|i: int| 0 <= i < p ==> !pred(#[trigger] s[i]),
        forall|i: int| p <= i < s.len() ==> pred(#[trigger] s[i]),
    ensures
        s.filter(pred) == s.skip(p),
    decreases s.len(),
{
    reveal(Seq::filter);
    if s.len() > 0 {
        let q = if p == s.len() {
            p - 1
        } else {
            p
        };
        lemma_filter_tail(s.drop_last(), pred, q);
    }
}

/// In an ascending sequence no key occurs twice: the ledger holds at most one
/// grant for a key.
pub proof fn lemma_one_grant_per_key(s: Seq<RecordView>, i: int, j: int)
    requires
        ascending(s),
        0 <= i < s.len(),
        0 <= j < s.len(),
        s[i].key() == s[j].key(),
    ensures
        i == j,
{
    lemma_key_irreflexive(s[i].key());
}

/// After a grant was put under a key, the ledger answers that grant for the
/// key, and for every other key what it answered before.
pub proof fn lemma_get_after_put(m: Map<KeyView, Grant>, k: KeyView, g: Grant, other: KeyView)
    ensures
        lookup(m.insert(k, g), k) == Some(g),
        other != k ==> lookup(m.insert(k, g), other) == lookup(m, other),
{
}

/// After a key was removed, the ledger answers nothing for the key, and for
/// every other key what it answered before.
pub proof fn lemma_get_after_remove(m: Map<KeyView, Grant>, k: KeyView, other: KeyView)
    ensures
        lookup(m.remove(k), k) is None,
        other != k ==> lookup(m.remove(k), other) == lookup(m, other),
{
}

/// To remove a key that the ledger does not hold changes nothing.
pub proof fn lemma_remove_absent(m: Map<KeyView, Grant>, k: KeyView)
    requires
        !m.contains_key(k),
    ensures
        m.remove(k) == m,
{
}

/// Where an ascending sequence is parted by a key: the records up to `p`
/// have keys that do not come after `k`, and a listing that resumes after
/// `k` gives the records from `p` on.
pub proof fn lemma_resume_point(s: Seq<RecordView>, k: KeyView) -> (p: int)
    requires
        ascending(s),
    ensures
        0 <= p <= s.len(),
        forall|i: int| 0 <= i < p ==> !key_lt(k, #[trigger] s[i].key()),
        forall|i: int| p <= i < s.len() ==> key_lt(k, #[trigger] s[i].key()),
        records_after(s, Some(k)) == s.skip(p),
    decreases s.len(),
{
    let pred = |r: RecordView| key_lt(k, r.key());
    let p = if s.len() == 0 {
        0
    } else {
        let t = s.drop_last();
        let q = lemma_resume_point(t, k);
        if key_lt(k, s.last().key()) {
            assert forall|i: int| 0 <= i < q implies !key_lt(k, #[trigger] s[i].key()) by {
                assert(s[i] == t[i]);
            }
            assert forall|i: int| q <= i < s.len() implies key_lt(k, #[trigger] s[i].key()) by {
                if i < t.len() {
                    assert(s[i] == t[i]);
                }
            }
            q
        } else {
            assert forall|i: int| 0 <= i < s.len() implies !key_lt(k, #[trigger] s[i].key()) by {
                if i < s.len() - 1 && key_lt(k, s[i].key()) {
                    lemma_key_transitive(k, s[i].key(), s.last().key());
                }
            }
            s.len() as int
        }
    };
    lemma_filter_tail(s, pred, p);
    p
}

/// A page is a part of the ledger's records: it is no longer than its limit,
/// and a page that is shorter than its limit holds all that was left.
pub proof fn lemma_page_bounds(s: Seq<RecordView>, start_after: Option<KeyView>, limit: nat)
    ensures
        page_of(s, start_after, limit).len() <= limit,
        page_of(s, start_after, limit).len() < limit ==> page_of(s, start_after, limit) == records_after(
            s,
            start_after,
        ),
        start_after is None && limit >= s.len() ==> page_of(s, start_after, limit) == s,
{
}

/// Pages join without a gap and without a record given twice: a full page
/// of `n` records, followed by the page of `m` records that resumes after
/// the key of its last record, is the page of `n + m` records.
pub proof fn lemma_pages_join(s: Seq<RecordView>, start_after: Option<KeyView>, n: nat, m: nat)
    requires
        ascending(s),
        n > 0,
        page_of(s, start_after, n).len() == n,
    ensures
        page_of(s, start_after, n + m) == page_of(s, start_after, n) + page_of(
            s,
            Some(page_of(s, start_after, n).last().key()),
            m,
        ),
{
    let p = match start_after {
        Some(k) => lemma_resume_point(s, k),
        None => 0,
    };
    let first = page_of(s, start_after, n);
    let last = first.last();
    let pred = |r: RecordView| key_lt(last.key(), r.key());
    lemma_key_irreflexive(last.key());
    assert forall|i: int| 0 <= i < p + n implies !pred(#[trigger] s[i]) by {
        if i < p + n - 1 {
            lemma_key_asymmetric(s[i].key(), last.key());
        }
    }
    lemma_filter_tail(s, pred, p + n);
}

/// The ledger of grants: for each key at most one grant.
#[derive(Debug, PartialEq, Eq)]
pub struct GrantLedger {
    entries: Vec<GrantRecord>,
}

impl View for GrantLedger {
    type V = Map<KeyView, Grant>;

    /// The ledger as a map from keys to grants.
    open spec fn view(&self) -> Map<KeyView, Grant> {
        records_map(self.records())
    }
}

impl GrantLedger {
    /// The ledger's records, in the order in which a listing gives them.
    pub closed spec fn records(&self) -> Seq<RecordView> {
        records_of(self.entries@)
    }

    /// The records are in the strict order of their keys, so that no key
    /// occurs twice. This holds of every ledger.
    #[verifier::type_invariant]
    pub open spec fn wf(&self) -> bool {
        ascending(self.records())
    }

    /// A ledger without grants.
    pub fn new() -> (ledger: GrantLedger)
        ensures
            ledger.wf(),
            ledger.records() == Seq::<RecordView>::empty(),
            ledger@ == Map::<KeyView, Grant>::empty(),
    {
        GrantLedger { entries: Vec::new() }
    }

    /// The number of grants.
    pub fn len(&self) -> (n: usize)
        ensures
            n == self.records().len(),
    {
        self.entries.len()
    }

    /// Where the key belongs among the records, and whether a record there
    /// has it.
    fn position(&self, type_url: &str, grantee: &[u8]) -> (r: (usize, bool))
        ensures
            self.wf(),
            parts_at(self.records(), (type_url@, grantee@), r.0 as int),
            r.1 <==> r.0 < self.records().len() && self.records()[r.0 as int].key() == (type_url@, grantee@),
            r.1 <==> holds(self.records(), (type_url@, grantee@)),
    {
        proof {
            use_type_invariant(self);
        }
        let ghost s = self.records();
        let ghost k = (type_url@, grantee@);
        let mut lo: usize = 0;
        let mut hi: usize = self.entries.len();
        while lo < hi
            invariant
                s == records_of(self.entries@),
                ascending(s),
                k == (type_url@, grantee@),
                0 <= lo <= hi <= s.len(),
                forall|i: int| 0 <= i < lo ==> key_lt(#[trigger] s[i].key(), k),
                forall|i: int| hi <= i < s.len() ==> !key_lt(#[trigger] s[i].key(), k),
            decreases hi - lo,
        {
            let mid = lo + (hi - lo) / 2;
            let e = &self.entries[mid];
            if key_before(e.type_url.as_str(), e.grantee.as_slice(), type_url, grantee) {
                assert forall|i: int| 0 <= i < mid + 1 implies key_lt(#[trigger] s[i].key(), k) by {
                    if i < mid {
                        lemma_key_transitive(s[i].key(), s[mid as int].key(), k);
                    }
                }
                lo = mid + 1;
            } else {
                assert forall|i: int| mid <= i < s.len() implies !key_lt(#[trigger] s[i].key(), k) by {
                    if mid < i && key_lt(s[i].key(), k) {
                        lemma_key_transitive(s[mid as int].key(), s[i].key(), k);
                    }
                }
                hi = mid;
            }
        }
        let found = if lo < self.entries.len() {
            let e = &self.entries[lo];
            proof {
                lemma_key_total(k, e@.key());
            }
            !key_before(type_url, grantee, e.type_url.as_str(), e.grantee.as_slice())
        } else {
            false
        };
        proof {
            if !found {
                lemma_absent(s, k, lo as int);
            }
        }
        (lo, found)
    }

    /// The grant under a key, if there is one.
    pub fn get(&self, type_url: &str, grantee: &[u8]) -> (r: Option<Grant>)
        ensures
            r == lookup(self@, (type_url@, grantee@)),
    {
        let (p, found) = self.position(type_url, grantee);
        if found {
            Some(self.entries[p].grant)
        } else {
            None
        }
    }

    /// Puts a grant under a key, in place of the one that was there, if any.
    pub fn put(&mut self, type_url: String, grantee: Vec<u8>, grant: Grant)
        ensures
            final(self).wf(),
            final(self)@ == old(self)@.insert((type_url@, grantee@), grant),
    {
        let (p, found) = self.position(type_url.as_str(), grantee.as_slice());
        let record = GrantRecord { type_url, grantee, grant };
        let ghost s = self.records();
        let mut entries: Vec<GrantRecord> = Vec::new();
        core::mem::swap(&mut self.entries, &mut entries);
        if found {
            proof {
                lemma_replace(s, p as int, record@);
                assert(records_of(entries@.update(p as int, record)) =~= s.update(p as int, record@));
            }
            entries.set(p, record);
        } else {
            proof {
                lemma_insert(s, p as int, record@);
                assert(records_of(entries@.insert(p as int, record)) =~= s.insert(p as int, record@));
            }
            entries.insert(p, record);
        }
        self.entries = entries;
    }

    /// Takes the grant under a key away. Where there is none, the ledger
    /// stays as it is.
    pub fn remove(&mut self, type_url: &str, grantee: &[u8])
        ensures
            final(self).wf(),
            final(self)@ == old(self)@.remove((type_url@, grantee@)),
            !old(self)@.contains_key((type_url@, grantee@)) ==> final(self).records() == old(self).records(),
    {
        let (p, found) = self.position(type_url, grantee);
        let ghost s = self.records();
        if found {
            let mut entries: Vec<GrantRecord> = Vec::new();
            core::mem::swap(&mut self.entries, &mut entries);
            proof {
                lemma_remove(s, p as int);
                assert(records_of(entries@.remove(p as int)) =~= s.remove(p as int));
            }
            entries.remove(p);
            self.entries = entries;
        }
    }

    /// One page of the listing: at most `limit` records in key order, from
    /// the first one on, or from the first whose key comes after
    /// `start_after`.
    pub fn list(&self, start_after: &Option<(String, Vec<u8>)>, limit: usize) -> (page: Vec<GrantRecord>)
        ensures
            records_of(page@) == page_of(self.records(), cursor_view(*start_after), limit as nat),
    {
        let ghost s = self.records();
        let start = match start_after {
            Some(k) => {
                let (p, found) = self.position(k.0.as_str(), k.1.as_slice());
                let ghost key = (k.0@, k.1@);
                let ghost pred = |r: RecordView| key_lt(key, r.key());
                let n = self.entries.len();
                assert(found ==> p < n);
                let start = if found { p + 1 } else { p };
                proof {
                    if !found {
                        lemma_absent(s, key, p as int);
                    }
                    assert forall|i: int| 0 <= i < start implies !pred(#[trigger] s[i]) by {
                        lemma_key_asymmetric(s[i].key(), key);
                    }
                    lemma_filter_tail(s, pred, start as int);
                }
                start
            },
            None => 0,
        };
        let ghost rest = records_after(s, cursor_view(*start_after));
        let mut page: Vec<GrantRecord> = Vec::new();
        let mut i: usize = start;
        while i < self.entries.len() && page.len() < limit
            invariant
                s == records_of(self.entries@),
                rest == s.skip(start as int),
                start <= i <= s.len(),
                page.len() == i - start,
                page.len() <= limit,
                records_of(page@) =~= rest.take(i - start),
            decreases s.len() - i,
        {
            let e = &self.entries[i];
            let record = GrantRecord {
                type_url: e.type_url.clone(),
                grantee: slice_to_vec(e.grantee.as_slice()),
                grant: e.grant,
            };
            page.push(record);
            i += 1;
        }
        page
    }
}

impl Clone for GrantLedger {
    /// A ledger with the same records.
    fn clone(&self) -> (ledger: GrantLedger)
        ensures
            ledger.records() == self.records(),
    {
        proof {
            use_type_invariant(self);
        }
        let n = self.entries.len();
        let entries = self.list(&None, n);
        GrantLedger { entries }
    }
}

/// The holder of the owner's public key.
#[derive(Clone, Debug, PartialEq, Eq)]
pub struct CredentialStore {
    pubkey: Option<Vec<u8>>,
}

impl View for CredentialStore {
    type V = Option<Seq<u8>>;

    /// The owner's key, once it is set.
    closed spec fn view(&self) -> Option<Seq<u8>> {
        match self.pubkey {
            Some(k) => Some(k@),
            None => None,
        }
    }
}

impl CredentialStore {
    /// A store in which no key is set.
    pub fn new() -> (store: CredentialStore)
        ensures
            store@ is None,
    {
        CredentialStore { pubkey: None }
    }

    /// Sets the owner's key.
    pub fn init(&mut self, pubkey: Vec<u8>)
        ensures
            final(self)@ == Some(pubkey@),
    {
        self.pubkey = Some(pubkey);
    }

    /// The owner's key. Fails with `NotInitialized` while none is set.
    pub fn load(&self) -> (r: Result<Vec<u8>, ContractError>)
        ensures
            match self@ {
                Some(k) => r matches Ok(v) && v@ == k,
                None => r matches Err(e) && e@ == crate::error::ErrorView::NotInitialized,
            },
    {
        match &self.pubkey {
            Some(k) => Ok(slice_to_vec(k.as_slice())),
            None => Err(ContractError::NotInitialized),
        }
    }
}

/// All that the account keeps: the owner's key and the ledger.
#[derive(Clone, Debug, PartialEq, Eq)]
pub struct AccountState {
    pub credentials: CredentialStore,
    pub grants: GrantLedger,
}

impl AccountState {
    /// The state of an account that was not set up yet: no key, no grants.
    pub fn new() -> (state: AccountState)
        ensures
            state.credentials@ is None,
            state.grants.wf(),
            state.grants.records() == Seq::<RecordView>::empty(),
            state.grants@ == Map::<KeyView, Grant>::empty(),
    {
        AccountState { credentials: CredentialStore::new(), grants: GrantLedger::new() }
    }
}

} // verus!
