//! The order in which the ledger keeps its keys.
//!
//! Byte strings are ordered lexicographically. A key is a pair of a scope and
//! a delegate; scopes are ordered as Rust orders strings, by their UTF-8
//! bytes, and keys with one scope by their delegates.

use vstd::prelude::*;
use vstd::utf8::*;

verus! {

/// Strict lexicographic order on byte strings: a proper prefix comes before
/// the longer string, otherwise the first byte that differs decides.
pub open spec fn lex_lt(a: Seq<u8>, b: Seq<u8>) -> bool
    decreases a.len(),
{
    if b.len() == 0 {
        false
    } else if a.len() == 0 {
        true
    } else if a[0] != b[0] {
        a[0] < b[0]
    } else {
        lex_lt(a.drop_first(), b.drop_first())
    }
}

/// The key of a grant as contracts see it: the scope's characters and the
/// delegate's bytes.
pub type KeyView = (Seq<char>, Seq<u8>);

/// Strict order on keys: by scope first, by delegate among equal scopes.
pub open spec fn key_lt(a: KeyView, b: KeyView) -> bool {
    lex_lt(encode_utf8(a.0), encode_utf8(b.0)) || (a.0 == b.0 && lex_lt(a.1, b.1))
}

/// No byte string comes before itself.
pub proof fn lemma_lex_irreflexive(a: Seq<u8>)
    ensures
        !lex_lt(a, a),
    decreases a.len(),
{
    if a.len() > 0 {
        lemma_lex_irreflexive(a.drop_first());
    }
}

/// Of two byte strings at most one comes before the other.
pub proof fn lemma_lex_asymmetric(a: Seq<u8>, b: Seq<u8>)
    ensures
        !(lex_lt(a, b) && lex_lt(b, a)),
    decreases a.len(),
{
    if a.len() > 0 && b.len() > 0 && a[0] == b[0] {
        lemma_lex_asymmetric(a.drop_first(), b.drop_first());
    }
}

/// The order on byte strings is transitive.
pub proof fn lemma_lex_transitive(a: Seq<u8>, b: Seq<u8>, c: Seq<u8>)
    requires
        lex_lt(a, b),
        lex_lt(b, c),
    ensures
        lex_lt(a, c),
    decreases a.len(),
{
    if a.len() > 0 && a[0] == b[0] && b[0] == c[0] {
        lemma_lex_transitive(a.drop_first(), b.drop_first(), c.drop_first());
    }
}

/// Two different byte strings are ordered one way or the other.
pub proof fn lemma_lex_total(a: Seq<u8>, b: Seq<u8>)
    ensures
        lex_lt(a, b) || a == b || lex_lt(b, a),
    decreases a.len(),
{
    if a.len() == 0 || b.len() == 0 {
    } else if a[0] == b[0] {
        lemma_lex_total(a.drop_first(), b.drop_first());
        if a.drop_first() == b.drop_first() {
            assert(a =~= seq![a[0]] + a.drop_first());
        }
    }
}

/// Two strings share a prefix of `i` bytes: what follows it decides their
/// order.
pub proof fn lemma_lex_skip_common(a: Seq<u8>, b: Seq<u8>, i: int)
    requires
        0 <= i <= a.len(),
        i <= b.len(),
        forall|j: int| 0 <= j < i ==> a[j] == b[j],
    ensures
        lex_lt(a, b) == lex_lt(a.skip(i), b.skip(i)),
    decreases i,
{
    if i == 0 {
        assert(a.skip(0) =~= a);
        assert(b.skip(0) =~= b);
    } else {
        lemma_lex_skip_common(a, b, i - 1);
        let x = a.skip(i - 1);
        let y = b.skip(i - 1);
        assert(x.drop_first() =~= a.skip(i));
        assert(y.drop_first() =~= b.skip(i));
    }
}

/// No key comes before itself.
pub proof fn lemma_key_irreflexive(a: KeyView)
    ensures
        !key_lt(a, a),
{
    lemma_lex_irreflexive(encode_utf8(a.0));
    lemma_lex_irreflexive(a.1);
}

/// Of two keys at most one comes before the other.
pub proof fn lemma_key_asymmetric(a: KeyView, b: KeyView)
    ensures
        !(key_lt(a, b) && key_lt(b, a)),
{
    lemma_lex_asymmetric(encode_utf8(a.0), encode_utf8(b.0));
    lemma_lex_asymmetric(a.1, b.1);
}

/// The order on keys is transitive.
pub proof fn lemma_key_transitive(a: KeyView, b: KeyView, c: KeyView)
    requires
        key_lt(a, b),
        key_lt(b, c),
    ensures
        key_lt(a, c),
{
    let (x, y, z) = (encode_utf8(a.0), encode_utf8(b.0), encode_utf8(c.0));
    if lex_lt(x, y) && lex_lt(y, z) {
        lemma_lex_transitive(x, y, z);
    } else if a.0 == b.0 && b.0 == c.0 {
        lemma_lex_transitive(a.1, b.1, c.1);
    }
}

/// Two different keys are ordered one way or the other.
pub proof fn lemma_key_total(a: KeyView, b: KeyView)
    ensures
        key_lt(a, b) || a == b || key_lt(b, a),
{
    lemma_lex_total(encode_utf8(a.0), encode_utf8(b.0));
    if encode_utf8(a.0) == encode_utf8(b.0) {
        encode_utf8_decode_utf8(a.0);
        encode_utf8_decode_utf8(b.0);
        lemma_lex_total(a.1, b.1);
    }
}

/// Whether `a` and `b` hold the same bytes.
pub fn bytes_eq(a: &[u8], b: &[u8]) -> (r: bool)
    ensures
        r == (a@ == b@),
{
    if a.len() != b.len() {
        return false;
    }
    let mut i: usize = 0;
    while i < a.len()
        invariant
            i <= a.len(),
            a.len() == b.len(),
            forall|j: int| 0 <= j < i ==> a@[j] == b@[j],
        decreases a.len() - i,
    {
        if a[i] != b[i] {
            return false;
        }
        i += 1;
    }
    assert(a@ =~= b@);
    true
}

/// Whether `a` comes before `b` in lexicographic order.
pub fn bytes_lt(a: &[u8], b: &[u8]) -> (r: bool)
    ensures
        r == lex_lt(a@, b@),
{
    let mut i: usize = 0;
    while i < a.len() && i < b.len()
        invariant
            i <= a.len(),
            i <= b.len(),
            forall|j: int| 0 <= j < i ==> a@[j] == b@[j],
        decreases a.len() - i,
    {
        if a[i] != b[i] {
            proof {
                lemma_lex_skip_common(a@, b@, i as int);
            }
            return a[i] < b[i];
        }
        i += 1;
    }
    proof {
        lemma_lex_skip_common(a@, b@, i as int);
    }
    i < b.len()
}

/// Whether the key `(a_scope, a_delegate)` comes before the key
/// `(b_scope, b_delegate)`.
pub fn key_before(a_scope: &str, a_delegate: &[u8], b_scope: &str, b_delegate: &[u8]) -> (r: bool)
    ensures
        r == key_lt((a_scope@, a_delegate@), (b_scope@, b_delegate@)),
{
    let x = a_scope.as_bytes();
    let y = b_scope.as_bytes();
    if bytes_lt(x, y) {
        true
    } else if bytes_lt(y, x) {
        false
    } else {
        proof {
            lemma_lex_total(x@, y@);
            encode_utf8_decode_utf8(a_scope@);
            encode_utf8_decode_utf8(b_scope@);
        }
        bytes_lt(a_delegate, b_delegate)
    }
}

} // verus!
