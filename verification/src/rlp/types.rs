use vstd::prelude::*;
use vstd::utf8::{encode_utf8, valid_utf8};
use crate::rlp::model::{be_value, pow256};

verus! {

/// Encoded bytes array
pub type EncodedRLP = Vec<u8>;

/// RLP error types
#[derive(Debug)]
pub enum RLPError {
    /// Unknown error
    RLPErrorUnknown(&'static str),
    /// Struct type doesn't match the type indicated by RLP
    RLPErrorType,
    /// Data tag doesn't match the tag indicated by RLP
    RLPErrorTagType,
    /// Unable to find the tag field in RLP
    RLPErrorTagMissing,
    /// The length of RLP doesn't match the required one
    RLPErrorWrongNumParams,
    /// Malformed UTF8 coding
    RLPErrorUTF8,
    /// Failed to encode RLP to EncodedRLP
    RLPEncodingErrorUnencodable,
    /// Failed to decode EncodedRLP to RLP
    RLPDecodingErrorMalformed,
}

/// A data structure that can be encoded to a bytes array.
#[derive(Debug, PartialEq)]
pub enum RLP {
    RLPList(Vec<RLP>),
    RLPItem(Vec<u8>),
    RLPEmpty,
}

/// The mathematical value of an [`RLP`]: byte strings and nested lists.
pub enum RlpTree {
    Item(Seq<u8>),
    List(Seq<RlpTree>),
    Empty,
}

impl RLP {
    /// The tree that this value stands for.
    pub open spec fn tree(self) -> RlpTree
        decreases self,
    {
        match self {
            RLP::RLPList(v) => RlpTree::List(Self::trees(v@)),
            RLP::RLPItem(b) => RlpTree::Item(b@),
            RLP::RLPEmpty => RlpTree::Empty,
        }
    }

    /// The trees of a sequence of values, in order.
    pub open spec fn trees(s: Seq<RLP>) -> Seq<RlpTree>
        decreases s,
    {
        if s.len() == 0 {
            Seq::empty()
        } else {
            Self::trees(s.subrange(0, s.len() - 1)).push(s[s.len() - 1].tree())
        }
    }
}

/// The number of children of a list, 1 for a byte string, 0 for `Empty`.
pub open spec fn tree_len(t: RlpTree) -> nat {
    match t {
        RlpTree::List(s) => s.len(),
        RlpTree::Item(_) => 1,
        RlpTree::Empty => 0,
    }
}

/// The last `k` bytes, most significant first, of the big-endian form of
/// `n`.
pub open spec fn fixed_be(n: nat, k: nat) -> Seq<u8>
    decreases k,
{
    if k == 0 {
        Seq::empty()
    } else {
        fixed_be(n / 256, (k - 1) as nat).push((n % 256) as u8)
    }
}

/// `Some(bytes)` when the tree is a byte string.
pub open spec fn item_bytes(t: RlpTree) -> Option<Seq<u8>> {
    match t {
        RlpTree::Item(b) => Some(b),
        _ => None,
    }
}

/// `Some(bytes)` when the tree is a byte string of exactly `k` bytes.
pub open spec fn item_of_len(t: RlpTree, k: nat) -> bool {
    match t {
        RlpTree::Item(b) => b.len() == k,
        _ => false,
    }
}

/// Trees of a sequence: one per value, in order.
pub proof fn lemma_trees(s: Seq<RLP>)
    ensures
        RLP::trees(s).len() == s.len(),
        forall|i: int| 0 <= i < s.len() ==> #[trigger] RLP::trees(s)[i] == s[i].tree(),
    decreases s.len(),
{
    if s.len() > 0 {
        lemma_trees(s.subrange(0, s.len() - 1));
    }
}

/// Reading back `k` big-endian bytes of `n` gives `n` modulo `256^k`.
pub proof fn lemma_fixed_be(n: nat, k: nat)
    ensures
        fixed_be(n, k).len() == k,
        be_value(fixed_be(n, k)) == n % pow256(k),
    decreases k,
{
    if k > 0 {
        lemma_fixed_be(n / 256, (k - 1) as nat);
        let f = fixed_be(n, k);
        assert(f.subrange(0, f.len() - 1) =~= fixed_be(n / 256, (k - 1) as nat));
        let p = pow256((k - 1) as nat);
        assert(p > 0) by {
            lemma_pow256_pos((k - 1) as nat);
        }
        vstd::arithmetic::div_mod::lemma_breakdown(n as int, 256, p as int);
        assert(pow256(k) == 256 * p);
    } else {
        assert(n % 1 == 0);
    }
}

/// `256^k` is positive.
pub proof fn lemma_pow256_pos(k: nat)
    ensures
        pow256(k) > 0,
    decreases k,
{
    if k > 0 {
        lemma_pow256_pos((k - 1) as nat);
    }
}

impl View for RLP {
    type V = RlpTree;

    open spec fn view(&self) -> RlpTree {
        self.tree()
    }
}

/// Calls `String::from_utf8`.  Its documentation says that it succeeds
/// exactly when the bytes are valid UTF-8, and that the string then holds
/// those bytes; the error is mapped to `None`.
#[verifier::external_body]
fn string_from_utf8(bytes: Vec<u8>) -> (r: Option<String>)
    ensures
        r is Some <==> valid_utf8(bytes@),
        r matches Some(s) ==> encode_utf8(s@) == bytes@,
{
    String::from_utf8(bytes).ok()
}

/// The `k` big-endian bytes of `v`.
pub(crate) fn fixed_be_bytes(v: u64, k: usize) -> (r: Vec<u8>)
    requires
        k <= 8,
    ensures
        r@ == fixed_be(v as nat, k as nat),
    decreases k,
{
    if k == 0 {
        Vec::new()
    } else {
        let mut r = fixed_be_bytes(v / 256, k - 1);
        r.push((v % 256) as u8);
        r
    }
}

/// The number that the `n` big-endian bytes at `from` denote.
pub(crate) fn read_be(input: &[u8], from: usize, n: usize) -> (r: u64)
    requires
        n <= 8,
        from + n <= input.len(),
    ensures
        r == be_value(input@.subrange(from as int, from + n)),
{
    let mut acc: u64 = 0;
    let mut i: usize = 0;
    while i < n
        invariant
            i <= n <= 8,
            from + n <= input.len(),
            acc == be_value(input@.subrange(from as int, from + i)),
        decreases n - i,
    {
        let ghost prev = input@.subrange(from as int, from + i);
        let ghost next = input@.subrange(from as int, from + i + 1);
        assert(next.subrange(0, next.len() - 1) =~= prev);
        proof {
            crate::rlp::laws::lemma_be_value_bound(next);
            crate::rlp::laws::lemma_pow256_8();
            lemma_pow256_le(next.len(), 8);
        }
        let b = input[from + i];
        acc = acc * 256 + b as u64;
        i = i + 1;
    }
    acc
}

/// The number that the big-endian bytes denote.
pub(crate) fn fixed_be_value(b: &Vec<u8>) -> (r: u64)
    requires
        b@.len() <= 8,
    ensures
        r == be_value(b@),
{
    assert(b@.subrange(0, b@.len() as int) =~= b@);
    read_be(b.as_slice(), 0, b.len())
}

/// `256^i <= 256^j` for `i <= j`.
pub proof fn lemma_pow256_le(i: nat, j: nat)
    requires
        i <= j,
    ensures
        pow256(i) <= pow256(j),
    decreases j,
{
    if i < j {
        lemma_pow256_le(i, (j - 1) as nat);
    }
}

impl RLP {
    /// Number of children of a list, 1 for a byte string, 0 for `RLPEmpty`.
    pub fn len(&self) -> (r: usize)
        ensures
            r == tree_len(self@),
    {
        match self {
            RLP::RLPList(v) => {
                proof {
                    lemma_trees(v@);
                }
                v.len()
            },
            RLP::RLPItem(_) => 1,
            RLP::RLPEmpty => 0,
        }
    }

    /// The child at `index` of a list.
    pub fn at(&self, index: usize) -> (r: &RLP)
        requires
            self@ is List,
            index < tree_len(self@),
        ensures
            self@ matches RlpTree::List(s) && r@ == s[index as int],
    {
        match self {
            RLP::RLPList(list) => {
                proof {
                    lemma_trees(list@);
                }
                &list[index]
            },
            _ => {
                proof {
                    assert(false);
                }
                self
            },
        }
    }

    /// Appends `rlp` at the end of a list.
    pub fn shl(self, rlp: RLP) -> (r: RLP)
        requires
            self@ is List,
        ensures
            self@ matches RlpTree::List(s) && r@ == RlpTree::List(s.push(rlp@)),
    {
        match self {
            RLP::RLPList(mut list) => {
                let ghost before = list@;
                list.push(rlp);
                assert(list@.subrange(0, list@.len() - 1) =~= before);
                RLP::RLPList(list)
            },
            _ => {
                proof {
                    assert(false);
                }
                self
            },
        }
    }

    /// A copy that stands for the same tree.
    pub fn deep_clone(&self) -> (r: RLP)
        ensures
            r@ == self@,
        decreases self,
    {
        match self {
            RLP::RLPList(list) => {
                let mut copy: Vec<RLP> = Vec::new();
                let mut i: usize = 0;
                proof {
                    lemma_trees(list@);
                }
                while i < list.len()
                    invariant
                        *self == RLP::RLPList(*list),
                        i <= list@.len(),
                        RLP::trees(copy@) =~= RLP::trees(list@.subrange(0, i as int)),
                    decreases list@.len() - i,
                {
                    proof {
                        assert(decreases_to!(*self => (*self)->RLPList_0));
                        assert(decreases_to!(*list => list@));
                        assert(decreases_to!(list@ => list@[i as int]));
                    }
                    let c = list[i].deep_clone();
                    let ghost before = copy@;
                    copy.push(c);
                    assert(copy@.subrange(0, copy@.len() - 1) =~= before);
                    assert(list@.subrange(0, i + 1).subrange(0, i as int) =~= list@.subrange(0, i as int));
                    i = i + 1;
                }
                assert(list@.subrange(0, i as int) =~= list@);
                RLP::RLPList(copy)
            },
            RLP::RLPItem(bytes) => RLP::RLPItem(vstd::slice::slice_to_vec(bytes.as_slice())),
            RLP::RLPEmpty => RLP::RLPEmpty,
        }
    }

    /// The byte string `[1]` for `true`, `[0]` for `false`.
    pub fn from_bool(v: bool) -> (r: RLP)
        ensures
            r@ == RlpTree::Item(if v { seq![1u8] } else { seq![0u8] }),
    {
        let b = if v { vec![1u8] } else { vec![0u8] };
        assert(b@ =~= (if v { seq![1u8] } else { seq![0u8] }));
        RLP::RLPItem(b)
    }

    /// The UTF-8 bytes of the string.
    pub fn from_string(v: String) -> (r: RLP)
        ensures
            r@ == RlpTree::Item(encode_utf8(v@)),
    {
        RLP::RLPItem(vstd::slice::slice_to_vec(v.as_str().as_bytes()))
    }

    /// The UTF-8 bytes of the string.
    pub fn from_str(v: &'static str) -> (r: RLP)
        ensures
            r@ == RlpTree::Item(encode_utf8(v@)),
    {
        RLP::RLPItem(vstd::slice::slice_to_vec(v.as_bytes()))
    }

    /// The one byte `v`.
    pub fn from_u8(v: u8) -> (r: RLP)
        ensures
            r@ == RlpTree::Item(seq![v]),
    {
        let b = vec![v];
        assert(b@ =~= seq![v]);
        RLP::RLPItem(b)
    }

    /// The two big-endian bytes of `v`.
    pub fn from_u16(v: u16) -> (r: RLP)
        ensures
            r@ == RlpTree::Item(fixed_be(v as nat, 2)),
    {
        RLP::RLPItem(fixed_be_bytes(v as u64, 2))
    }

    /// The four big-endian bytes of `v`.
    pub fn from_u32(v: u32) -> (r: RLP)
        ensures
            r@ == RlpTree::Item(fixed_be(v as nat, 4)),
    {
        RLP::RLPItem(fixed_be_bytes(v as u64, 4))
    }

    /// The four big-endian bytes of `v` in two's complement.
    pub fn from_i32(v: i32) -> (r: RLP)
        ensures
            r@ == RlpTree::Item(fixed_be(v as u32 as nat, 4)),
    {
        RLP::RLPItem(fixed_be_bytes(v as u32 as u64, 4))
    }

    /// The eight big-endian bytes of `v`.
    pub fn from_u64(v: u64) -> (r: RLP)
        ensures
            r@ == RlpTree::Item(fixed_be(v as nat, 8)),
    {
        RLP::RLPItem(fixed_be_bytes(v, 8))
    }

    /// The eight big-endian bytes of `v` in two's complement.
    pub fn from_i64(v: i64) -> (r: RLP)
        ensures
            r@ == RlpTree::Item(fixed_be(v as u64 as nat, 8)),
    {
        RLP::RLPItem(fixed_be_bytes(v as u64, 8))
    }

    /// A one-byte string read as a flag: any byte but 0 is `true`.
    pub fn into_bool(self) -> (r: bool)
        requires
            item_of_len(self@, 1),
        ensures
            r == (item_bytes(self@).unwrap()[0] != 0),
    {
        match self {
            RLP::RLPItem(value) => value[0] != 0,
            _ => {
                proof {
                    assert(false);
                }
                false
            },
        }
    }

    /// The byte of a one-byte string.
    pub fn into_u8(self) -> (r: u8)
        requires
            item_of_len(self@, 1),
        ensures
            r == item_bytes(self@).unwrap()[0],
    {
        match self {
            RLP::RLPItem(value) => value[0],
            _ => {
                proof {
                    assert(false);
                }
                0
            },
        }
    }

    /// A two-byte string read big-endian.
    pub fn into_u16(self) -> (r: u16)
        requires
            item_of_len(self@, 2),
        ensures
            r == be_value(item_bytes(self@).unwrap()),
    {
        match self {
            RLP::RLPItem(value) => {
                proof {
                    crate::rlp::laws::lemma_be_value_bound(value@);
                    assert(pow256(2) == 65536) by {
                        reveal_with_fuel(pow256, 3);
                    }
                }
                fixed_be_value(&value) as u16
            },
            _ => {
                proof {
                    assert(false);
                }
                0
            },
        }
    }

    /// A four-byte string read big-endian.
    pub fn into_u32(self) -> (r: u32)
        requires
            item_of_len(self@, 4),
        ensures
            r == be_value(item_bytes(self@).unwrap()),
    {
        match self {
            RLP::RLPItem(value) => {
                proof {
                    crate::rlp::laws::lemma_be_value_bound(value@);
                    assert(pow256(4) == 0x1_0000_0000) by {
                        reveal_with_fuel(pow256, 5);
                    }
                }
                fixed_be_value(&value) as u32
            },
            _ => {
                proof {
                    assert(false);
                }
                0
            },
        }
    }

    /// A four-byte string read big-endian in two's complement.
    pub fn into_i32(self) -> (r: i32)
        requires
            item_of_len(self@, 4),
        ensures
            r == be_value(item_bytes(self@).unwrap()) as u32 as i32,
    {
        let u = self.into_u32();
        u as i32
    }

    /// An eight-byte string read big-endian.
    pub fn into_u64(self) -> (r: u64)
        requires
            item_of_len(self@, 8),
        ensures
            r == be_value(item_bytes(self@).unwrap()),
    {
        match self {
            RLP::RLPItem(value) => fixed_be_value(&value),
            _ => {
                proof {
                    assert(false);
                }
                0
            },
        }
    }

    /// An eight-byte string read big-endian in two's complement.
    pub fn into_i64(self) -> (r: i64)
        requires
            item_of_len(self@, 8),
        ensures
            r == be_value(item_bytes(self@).unwrap()) as u64 as i64,
    {
        let u = self.into_u64();
        u as i64
    }

    /// A byte string read as UTF-8 text.
    pub fn into_string(self) -> (r: String)
        requires
            item_bytes(self@) matches Some(b) && valid_utf8(b),
        ensures
            encode_utf8(r@) == item_bytes(self@).unwrap(),
    {
        match self {
            RLP::RLPItem(value) => {
                match string_from_utf8(value) {
                    Some(s) => s,
                    None => {
                        proof {
                            assert(false);
                        }
                        String::new()
                    },
                }
            },
            _ => {
                proof {
                    assert(false);
                }
                String::new()
            },
        }
    }

    /// A byte string read as UTF-8 text, if it is one.
    pub fn to_text(&self) -> (r: Option<String>)
        ensures
            r is Some <==> (item_bytes(self@) matches Some(b) && valid_utf8(b)),
            r matches Some(s) ==> encode_utf8(s@) == item_bytes(self@).unwrap(),
    {
        match self {
            RLP::RLPItem(value) => string_from_utf8(vstd::slice::slice_to_vec(value.as_slice())),
            _ => None,
        }
    }
}

impl Clone for RLP {
    fn clone(&self) -> (r: Self)
        ensures
            r@ == self@,
    {
        self.deep_clone()
    }
}

} // verus!
