//! The byte format of RLP as mathematics: how a tree is written, and how a
//! byte string is read back.
use vstd::prelude::*;
use crate::rlp::types::{RlpTree};

verus! {

/// `256` raised to the power `k`.
pub open spec fn pow256(k: nat) -> nat
    decreases k,
{
    if k == 0 { 1 } else { 256 * pow256((k - 1) as nat) }
}

/// The shortest big-endian byte string of `n` (one byte for `n < 256`).
pub open spec fn be_bytes(n: nat) -> Seq<u8>
    decreases n,
{
    if n < 256 {
        seq![n as u8]
    } else {
        be_bytes(n / 256).push((n % 256) as u8)
    }
}

/// The number that a big-endian byte string denotes.
pub open spec fn be_value(s: Seq<u8>) -> nat
    decreases s.len(),
{
    if s.len() == 0 {
        0
    } else {
        (be_value(s.subrange(0, s.len() - 1)) * 256 + s[s.len() - 1]) as nat
    }
}

/// The prefix that announces a payload of `len` bytes; `base` is `0x80` for
/// strings and `0xc0` for lists.
pub open spec fn length_prefix(len: nat, base: int) -> Seq<u8> {
    if len <= 55 {
        seq![(base + len) as u8]
    } else {
        seq![(base + 55 + be_bytes(len).len()) as u8] + be_bytes(len)
    }
}

/// The encoding of a byte string.
pub open spec fn encode_item(b: Seq<u8>) -> Seq<u8> {
    if b.len() == 1 && b[0] <= 0x7f {
        b
    } else {
        length_prefix(b.len(), 0x80) + b
    }
}

/// The encoding of a tree.  An `Empty` tree has no encoding.
pub open spec fn encode_tree(t: RlpTree) -> Seq<u8>
    decreases t,
{
    match t {
        RlpTree::Item(b) => encode_item(b),
        RlpTree::List(s) => length_prefix(encode_seq(s).len(), 0xc0) + encode_seq(s),
        RlpTree::Empty => Seq::empty(),
    }
}

/// The encodings of a sequence of trees, one after the other.
pub open spec fn encode_seq(s: Seq<RlpTree>) -> Seq<u8>
    decreases s,
{
    if s.len() == 0 {
        Seq::empty()
    } else {
        encode_seq(s.subrange(0, s.len() - 1)) + encode_tree(s[s.len() - 1])
    }
}

/// No `Empty` occurs in the tree.
pub open spec fn no_empty(t: RlpTree) -> bool
    decreases t,
{
    match t {
        RlpTree::Item(_) => true,
        RlpTree::List(s) => no_empty_seq(s),
        RlpTree::Empty => false,
    }
}

/// No `Empty` occurs in any of the trees.
pub open spec fn no_empty_seq(s: Seq<RlpTree>) -> bool
    decreases s,
{
    if s.len() == 0 {
        true
    } else {
        no_empty_seq(s.subrange(0, s.len() - 1)) && no_empty(s[s.len() - 1])
    }
}

/// A tree that can be written: it holds no `Empty`, and its encoding is
/// shorter than 2^64 bytes, so that every length fits in eight bytes.
pub open spec fn encodable(t: RlpTree) -> bool {
    no_empty(t) && encode_tree(t).len() <= u64::MAX
}

/// What the first bytes of an encoded element announce.
pub struct Header {
    pub is_list: bool,
    /// Bytes taken by the prefix and the length bytes.
    pub hdr_len: nat,
    /// Bytes of payload that follow.
    pub payload_len: nat,
}

/// Reads the header at the start of `s`.  A single byte below `0x80` is its
/// own payload.  Long forms give the payload length in 1 to 8 big-endian
/// bytes after the prefix.
pub open spec fn header(s: Seq<u8>) -> Option<Header> {
    if s.len() == 0 {
        None
    } else {
        let p = s[0];
        if p <= 0x7f {
            Some(Header { is_list: false, hdr_len: 0, payload_len: 1 })
        } else if p <= 0xb7 {
            Some(Header { is_list: false, hdr_len: 1, payload_len: (p - 0x80) as nat })
        } else if p <= 0xbf {
            let n = (p - 0xb7) as nat;
            if s.len() < 1 + n {
                None
            } else {
                Some(Header { is_list: false, hdr_len: 1 + n, payload_len: be_value(s.subrange(1, 1 + n as int)) })
            }
        } else if p <= 0xf7 {
            Some(Header { is_list: true, hdr_len: 1, payload_len: (p - 0xc0) as nat })
        } else {
            let n = (p - 0xf7) as nat;
            if s.len() < 1 + n {
                None
            } else {
                Some(Header { is_list: true, hdr_len: 1 + n, payload_len: be_value(s.subrange(1, 1 + n as int)) })
            }
        }
    }
}

/// Decodes `s` as exactly one element.
pub open spec fn decode_tree(s: Seq<u8>) -> Option<RlpTree>
    decreases s.len(), 0nat,
{
    match header(s) {
        None => None,
        Some(h) => {
            if s.len() != h.hdr_len + h.payload_len {
                None
            } else if h.is_list {
                if h.hdr_len >= 1 {
                    match decode_list(s.subrange(h.hdr_len as int, s.len() as int)) {
                        None => None,
                        Some(items) => Some(RlpTree::List(items)),
                    }
                } else {
                    None
                }
            } else {
                Some(RlpTree::Item(s.subrange(h.hdr_len as int, s.len() as int)))
            }
        }
    }
}

/// Decodes `s` as a sequence of whole elements, one after the other.
pub open spec fn decode_list(s: Seq<u8>) -> Option<Seq<RlpTree>>
    decreases s.len(), 1nat,
{
    if s.len() == 0 {
        Some(Seq::empty())
    } else {
        match header(s) {
            None => None,
            Some(h) => {
                let n = h.hdr_len + h.payload_len;
                if n > s.len() || n == 0 {
                    None
                } else {
                    match decode_tree(s.subrange(0, n as int)) {
                        None => None,
                        Some(t) => match decode_list(s.subrange(n as int, s.len() as int)) {
                            None => None,
                            Some(rest) => Some(seq![t] + rest),
                        },
                    }
                }
            }
        }
    }
}

} // verus!
