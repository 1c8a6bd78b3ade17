//! The order of accounts: an absent account comes first, then accounts in
//! the order of their text, byte by byte, as strings are ordered.
use vstd::prelude::*;
use crate::address::Address;

verus! {

/// `a` comes before `b` in the lexicographic order of bytes.
pub open spec fn bytes_lt(a: Seq<u8>, b: Seq<u8>) -> bool
    decreases a.len(),
{
    if b.len() == 0 {
        false
    } else if a.len() == 0 {
        true
    } else if a[0] != b[0] {
        a[0] < b[0]
    } else {
        bytes_lt(a.skip(1), b.skip(1))
    }
}

/// The bytes of the text of an account, when there is one.
pub open spec fn account_key(a: Option<Address>) -> Option<Seq<u8>> {
    match a {
        Some(x) => Some(vstd::utf8::encode_utf8(x.text@)),
        None => None,
    }
}

/// The bytes of an account text, when there is one.
pub open spec fn text_key(a: Option<Seq<char>>) -> Option<Seq<u8>> {
    match a {
        Some(x) => Some(vstd::utf8::encode_utf8(x)),
        None => None,
    }
}

/// `a` comes before `b`: no account before any account, accounts by their
/// bytes.
pub open spec fn key_lt(a: Option<Seq<u8>>, b: Option<Seq<u8>>) -> bool {
    match (a, b) {
        (None, Some(_)) => true,
        (Some(x), Some(y)) => bytes_lt(x, y),
        _ => false,
    }
}

/// No sequence comes before itself.
pub proof fn lemma_bytes_lt_irreflexive(a: Seq<u8>)
    ensures
        !bytes_lt(a, a),
    decreases a.len(),
{
    if a.len() > 0 {
        lemma_bytes_lt_irreflexive(a.skip(1));
    }
}

/// Of two different sequences, one comes before the other, and not both.
pub proof fn lemma_bytes_lt_total(a: Seq<u8>, b: Seq<u8>)
    ensures
        a != b ==> (bytes_lt(a, b) || bytes_lt(b, a)),
        !(bytes_lt(a, b) && bytes_lt(b, a)),
    decreases a.len(),
{
    if a.len() > 0 && b.len() > 0 && a[0] == b[0] {
        lemma_bytes_lt_total(a.skip(1), b.skip(1));
        if a.skip(1) == b.skip(1) {
            assert(a =~= seq![a[0]] + a.skip(1));
            assert(b =~= seq![b[0]] + b.skip(1));
        }
    } else if a.len() == 0 && b.len() == 0 {
        assert(a =~= b);
    }
}

/// The order is transitive.
pub proof fn lemma_bytes_lt_transitive(a: Seq<u8>, b: Seq<u8>, c: Seq<u8>)
    requires
        bytes_lt(a, b),
        bytes_lt(b, c),
    ensures
        bytes_lt(a, c),
    decreases a.len(),
{
    if a.len() > 0 && b.len() > 0 && c.len() > 0 && a[0] == b[0] && b[0] == c[0] {
        lemma_bytes_lt_transitive(a.skip(1), b.skip(1), c.skip(1));
    }
}

/// The order of keys is a strict total order.
pub proof fn lemma_key_order(a: Option<Seq<u8>>, b: Option<Seq<u8>>, c: Option<Seq<u8>>)
    ensures
        !key_lt(a, a),
        a != b ==> (key_lt(a, b) || key_lt(b, a)),
        !(key_lt(a, b) && key_lt(b, a)),
        key_lt(a, b) && key_lt(b, c) ==> key_lt(a, c),
{
    match a {
        Some(x) => { lemma_bytes_lt_irreflexive(x); },
        None => {},
    }
    match (a, b) {
        (Some(x), Some(y)) => { lemma_bytes_lt_total(x, y); },
        _ => {},
    }
    match (a, b, c) {
        (Some(x), Some(y), Some(z)) => {
            if bytes_lt(x, y) && bytes_lt(y, z) {
                lemma_bytes_lt_transitive(x, y, z);
            }
        },
        _ => {},
    }
}

/// Compares two byte strings: negative when `a` comes first, zero when
/// they are equal, positive when `b` comes first.
fn compare_bytes(a: &[u8], b: &[u8]) -> (r: i8)
    ensures
        r == 0 <==> a@ == b@,
        r < 0 <==> bytes_lt(a@, b@),
        r > 0 <==> bytes_lt(b@, a@),
{
    let mut i: usize = 0;
    assert(a@.skip(0) =~= a@);
    assert(b@.skip(0) =~= b@);
    while i < a.len() && i < b.len()
        invariant
            i <= a@.len(),
            i <= b@.len(),
            a@.take(i as int) == b@.take(i as int),
            bytes_lt(a@, b@) == bytes_lt(a@.skip(i as int), b@.skip(i as int)),
            bytes_lt(b@, a@) == bytes_lt(b@.skip(i as int), a@.skip(i as int)),
        decreases a@.len() - i,
    {
        if a[i] != b[i] {
            proof {
                lemma_bytes_lt_total(a@, b@);
                assert(a@.skip(i as int)[0] == a@[i as int]);
                assert(b@.skip(i as int)[0] == b@[i as int]);
                assert(a@[i as int] != b@[i as int]);
            }
            if a[i] < b[i] {
                return -1;
            } else {
                return 1;
            }
        }
        proof {
            assert(a@.skip(i as int).skip(1) =~= a@.skip(i + 1));
            assert(b@.skip(i as int).skip(1) =~= b@.skip(i + 1));
            assert(a@.take(i + 1) =~= a@.take(i as int).push(a@[i as int]));
            assert(b@.take(i + 1) =~= b@.take(i as int).push(b@[i as int]));
        }
        i = i + 1;
    }
    proof {
        lemma_bytes_lt_total(a@, b@);
        lemma_bytes_lt_irreflexive(a@);
    }
    if i < b.len() {
        assert(a@.skip(i as int).len() == 0);
        -1
    } else if i < a.len() {
        assert(b@.skip(i as int).len() == 0);
        1
    } else {
        assert(a@ =~= a@.take(i as int));
        assert(b@ =~= b@.take(i as int));
        0
    }
}

/// Compares two accounts: negative when `a` comes first, zero when they
/// are the same, positive when `b` comes first.
pub fn compare_accounts(a: &Option<Address>, b: &Option<Address>) -> (r: i8)
    ensures
        r == 0 <==> account_key(*a) == account_key(*b),
        r < 0 <==> key_lt(account_key(*a), account_key(*b)),
        r > 0 <==> key_lt(account_key(*b), account_key(*a)),
{
    match (a, b) {
        (None, None) => 0,
        (None, Some(_)) => -1,
        (Some(_), None) => 1,
        (Some(x), Some(y)) => compare_bytes(x.text.as_str().as_bytes(), y.text.as_str().as_bytes()),
    }
}

} // verus!
