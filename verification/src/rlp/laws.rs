//! Facts about the RLP format: big-endian lengths read back what was
//! written, and decoding an encoding gives the tree back.
use vstd::prelude::*;
use crate::rlp::types::{RlpTree};
use crate::rlp::model::{
    be_bytes, be_value, decode_list, decode_tree, encodable, encode_seq, encode_tree, header,
    length_prefix, no_empty, no_empty_seq, pow256, Header,
};

verus! {

/// A big-endian byte string reads back as the number it was written from,
/// and it has at least one byte.
pub proof fn lemma_be_bytes_value(n: nat)
    ensures
        be_value(be_bytes(n)) == n,
        be_bytes(n).len() >= 1,
    decreases n,
{
    if n < 256 {
        let b = be_bytes(n);
        assert(b.subrange(0, 0) =~= Seq::<u8>::empty());
        assert(be_value(Seq::<u8>::empty()) == 0);
    } else {
        lemma_be_bytes_value(n / 256);
        let b = be_bytes(n);
        assert(b.subrange(0, b.len() - 1) =~= be_bytes(n / 256));
        assert(b[b.len() - 1] == n % 256);
        assert((n / 256) * 256 + n % 256 == n) by (nonlinear_arith);
    }
}

/// A number below `256^k` takes at most `k` bytes.
pub proof fn lemma_be_bytes_len(n: nat, k: nat)
    requires
        k >= 1,
        n < pow256(k),
    ensures
        be_bytes(n).len() <= k,
    decreases n,
{
    if n >= 256 {
        assert(k >= 2) by {
            if k == 1 {
                assert(pow256(1) == 256) by {
                    reveal_with_fuel(pow256, 2);
                }
            }
        }
        assert(n / 256 < pow256((k - 1) as nat)) by (nonlinear_arith)
            requires
                n < pow256(k),
                pow256(k) == 256 * pow256((k - 1) as nat),
        ;
        lemma_be_bytes_len(n / 256, (k - 1) as nat);
    }
}

/// `256^8` is `2^64`.
pub proof fn lemma_pow256_8()
    ensures
        pow256(8) == 0x1_0000_0000_0000_0000,
{
    reveal_with_fuel(pow256, 9);
}

/// A length that fits in 64 bits takes one to eight bytes.
pub proof fn lemma_be_bytes_u64(n: nat)
    requires
        n <= u64::MAX,
    ensures
        1 <= be_bytes(n).len() <= 8,
        be_value(be_bytes(n)) == n,
{
    lemma_pow256_8();
    lemma_be_bytes_len(n, 8);
    lemma_be_bytes_value(n);
}

/// A string of `k` big-endian bytes denotes a number below `256^k`.
pub proof fn lemma_be_value_bound(s: Seq<u8>)
    ensures
        be_value(s) < pow256(s.len()),
    decreases s.len(),
{
    if s.len() > 0 {
        let p = s.subrange(0, s.len() - 1);
        lemma_be_value_bound(p);
        assert(be_value(s) < pow256(s.len())) by (nonlinear_arith)
            requires
                be_value(s) == be_value(p) * 256 + s[s.len() - 1],
                be_value(p) < pow256(p.len()),
                s[s.len() - 1] < 256,
                pow256(s.len()) == 256 * pow256(p.len()),
        ;
    }
}

/// The header at the start of a byte string does not change when bytes are
/// appended after it.
pub proof fn lemma_header_extend(a: Seq<u8>, b: Seq<u8>)
    requires
        header(a) is Some,
    ensures
        header(a + b) == header(a),
{
    let ab = a + b;
    assert(ab[0] == a[0]);
    let p = a[0];
    if 0xb7 < p && p <= 0xbf {
        let n = (p - 0xb7) as int;
        assert(ab.subrange(1, 1 + n) =~= a.subrange(1, 1 + n));
    } else if p > 0xf7 {
        let n = (p - 0xf7) as int;
        assert(ab.subrange(1, 1 + n) =~= a.subrange(1, 1 + n));
    }
}

/// The header of a length prefix followed by its payload announces that
/// payload.
pub proof fn lemma_prefix_header(len: nat, base: int, payload: Seq<u8>)
    requires
        base == 0x80 || base == 0xc0,
        len == payload.len(),
        len <= u64::MAX,
        base == 0x80 ==> len != 1 || payload[0] > 0x7f,
    ensures
        header(length_prefix(len, base) + payload) == Some(Header {
            is_list: base == 0xc0,
            hdr_len: length_prefix(len, base).len(),
            payload_len: len,
        }),
        length_prefix(len, base).len() >= 1,
{
    let pre = length_prefix(len, base);
    let s = pre + payload;
    assert(s[0] == pre[0]);
    if len > 55 {
        lemma_be_bytes_u64(len);
        let k = be_bytes(len).len();
        assert(s.subrange(1, 1 + k as int) =~= be_bytes(len));
    }
}

/// The encoding of a sequence, read from the front: the first tree, then
/// the rest.
pub proof fn lemma_encode_seq_front(s: Seq<RlpTree>)
    requires
        s.len() > 0,
    ensures
        encode_seq(s) == encode_tree(s[0]) + encode_seq(s.subrange(1, s.len() as int)),
        no_empty_seq(s) == (no_empty(s[0]) && no_empty_seq(s.subrange(1, s.len() as int))),
    decreases s.len(),
{
    let rest = s.subrange(1, s.len() as int);
    if s.len() == 1 {
        assert(s.subrange(0, 0) =~= Seq::<RlpTree>::empty());
        assert(rest =~= Seq::<RlpTree>::empty());
        assert(encode_seq(s) =~= encode_tree(s[0]));
    } else {
        let init = s.subrange(0, s.len() - 1);
        lemma_encode_seq_front(init);
        assert(init.subrange(1, init.len() as int) =~= rest.subrange(0, rest.len() - 1));
        assert(init[0] == s[0]);
        assert(rest[rest.len() - 1] == s[s.len() - 1]);
        assert(encode_seq(s) =~= encode_tree(s[0]) + encode_seq(rest));
    }
}

/// Decoding the encoding of a tree gives the tree back.
pub proof fn lemma_decode_encode_tree(t: RlpTree)
    requires
        no_empty(t),
        encode_tree(t).len() <= u64::MAX,
    ensures
        decode_tree(encode_tree(t)) == Some(t),
        header(encode_tree(t)) is Some,
        header(encode_tree(t)).unwrap().hdr_len + header(encode_tree(t)).unwrap().payload_len
            == encode_tree(t).len(),
    decreases t,
{
    let e = encode_tree(t);
    match t {
        RlpTree::Item(b) => {
            if b.len() == 1 && b[0] <= 0x7f {
                assert(e.subrange(0, e.len() as int) =~= b);
            } else {
                lemma_prefix_header(b.len(), 0x80, b);
                let k = length_prefix(b.len(), 0x80).len();
                assert(e.subrange(k as int, e.len() as int) =~= b);
            }
        },
        RlpTree::List(s) => {
            let p = encode_seq(s);
            lemma_prefix_header(p.len(), 0xc0, p);
            let k = length_prefix(p.len(), 0xc0).len();
            assert(e.subrange(k as int, e.len() as int) =~= p);
            lemma_decode_encode_seq(s);
        },
        RlpTree::Empty => {},
    }
}

/// Decoding the encodings of a sequence of trees gives the sequence back.
pub proof fn lemma_decode_encode_seq(s: Seq<RlpTree>)
    requires
        no_empty_seq(s),
        encode_seq(s).len() <= u64::MAX,
    ensures
        decode_list(encode_seq(s)) == Some(s),
    decreases s,
{
    if s.len() == 0 {
        assert(s =~= Seq::<RlpTree>::empty());
    } else {
        lemma_encode_seq_front(s);
        let first = encode_tree(s[0]);
        let rest = s.subrange(1, s.len() as int);
        let e = encode_seq(s);
        lemma_decode_encode_tree(s[0]);
        lemma_decode_encode_seq(rest);
        lemma_header_extend(first, encode_seq(rest));
        assert(e.subrange(0, first.len() as int) =~= first);
        assert(e.subrange(first.len() as int, e.len() as int) =~= encode_seq(rest));
        assert(seq![s[0]] + rest =~= s);
    }
}

/// What the encoder writes, the decoder reads back: for every tree without
/// `Empty` whose encoding is shorter than 2^64 bytes, decoding its encoding
/// gives the same tree.
pub proof fn law_decode_after_encode(t: RlpTree)
    requires
        encodable(t),
    ensures
        decode_tree(encode_tree(t)) == Some(t),
{
    lemma_decode_encode_tree(t);
}

} // verus!
