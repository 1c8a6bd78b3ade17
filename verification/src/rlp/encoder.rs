//! Encoding [`RLP`] values into bytes.
use vstd::prelude::*;
use bytebuffer::ByteBuffer;
use crate::byte_buffer::{
    byte_buffer_appends, byte_buffer_as_bytes, byte_buffer_clear, byte_buffer_data,
    byte_buffer_new, byte_buffer_resize, byte_buffer_write_bytes, byte_buffer_write_u8,
};
use crate::rlp::defines::{
    ENCODER_BUFFER_SIZE, LONG_LIST_PREFIX_BASE, LONG_STRING_PREFIX_BASE, SHORT_LIST_MAX_LEN,
    SHORT_LIST_PREFIX_BASE, SHORT_STRING_MAX_LEN, SHORT_STRING_PREFIX_BASE, SINGLE_BYTE_MAX_VALUE,
};
use crate::rlp::laws::lemma_be_bytes_u64;
use crate::rlp::model::{
    be_bytes, encode_item, encode_seq, encode_tree, length_prefix, no_empty, no_empty_seq,
};
use crate::rlp::types::{lemma_trees, EncodedRLP, RlpTree, RLP};

verus! {

/// Every prefix of a sequence of trees has a shorter encoding, and holds no
/// `Empty` when the whole does not.
proof fn lemma_encode_seq_prefix(s: Seq<RlpTree>, j: int)
    requires
        0 <= j <= s.len(),
    ensures
        encode_seq(s.subrange(0, j)).len() <= encode_seq(s).len(),
        no_empty_seq(s) ==> no_empty_seq(s.subrange(0, j)),
    decreases s.len(),
{
    if j < s.len() {
        let init = s.subrange(0, s.len() - 1);
        lemma_encode_seq_prefix(init, j);
        assert(init.subrange(0, j) =~= s.subrange(0, j));
    } else {
        assert(s.subrange(0, j) =~= s);
    }
}

/// The encoding of a prefix one tree longer.
proof fn lemma_encode_seq_step(s: Seq<RlpTree>, i: int)
    requires
        0 <= i < s.len(),
    ensures
        encode_seq(s.subrange(0, i + 1)) == encode_seq(s.subrange(0, i)) + encode_tree(s[i]),
        no_empty_seq(s.subrange(0, i + 1)) == (no_empty_seq(s.subrange(0, i)) && no_empty(s[i])),
{
    let p = s.subrange(0, i + 1);
    assert(p.subrange(0, p.len() - 1) =~= s.subrange(0, i));
}

/// The shortest big-endian form of a length, for a length that fits in 64
/// bits.
proof fn lemma_length_prefix(len: nat, base: int)
    requires
        len <= u64::MAX,
    ensures
        len <= 55 ==> length_prefix(len, base) == seq![(base + len) as u8],
        len > 55 ==> length_prefix(len, base) == seq![(base + 55 + be_bytes(len).len()) as u8]
            + be_bytes(len),
        1 <= be_bytes(len).len() <= 8,
{
    lemma_be_bytes_u64(len);
}

pub struct Encoder {
    buffer: ByteBuffer,
}

impl Encoder {
    /// The bytes written so far.
    pub closed spec fn written(&self) -> Seq<u8> {
        byte_buffer_data(self.buffer)
    }

    /// Whether the next write appends to what was written.
    pub closed spec fn appends(&self) -> bool {
        byte_buffer_appends(self.buffer)
    }

    /// An encoder whose buffer starts with `size` zero bytes.
    pub fn new_with_size(size: usize) -> (r: Self)
        ensures
            r.written() == Seq::new(size as nat, |i: int| 0u8),
    {
        let mut buffer = byte_buffer_new();
        byte_buffer_resize(&mut buffer, size);
        assert(Seq::<u8>::empty() + Seq::new(size as nat, |i: int| 0u8) =~= Seq::new(
            size as nat,
            |i: int| 0u8,
        ));
        Encoder { buffer: buffer }
    }

    /// An encoder whose buffer starts with `ENCODER_BUFFER_SIZE` zero bytes.
    pub fn new() -> (r: Self)
        ensures
            r.written() == Seq::new(ENCODER_BUFFER_SIZE as nat, |i: int| 0u8),
    {
        Self::new_with_size(ENCODER_BUFFER_SIZE)
    }

    /// The length of the encoding of a single byte below `0x80`.
    fn encode_byte_len(&self, input: u8) -> (r: usize)
        ensures
            r == 1,
            input <= 0x7f ==> r == encode_item(seq![input]).len(),
    {
        1
    }

    /// Writes a single byte below `0x80`, which is its own encoding.
    fn encode_byte(&mut self, input: u8)
        requires
            input <= SINGLE_BYTE_MAX_VALUE,
            old(self).appends(),
        ensures
            final(self).written() == old(self).written().push(input),
            final(self).appends(),
    {
        byte_buffer_write_u8(&mut self.buffer, input);
    }

    /// The length of the short encoding of `input`: prefix and bytes.
    fn encode_short_str_len(&self, input: &[u8]) -> (r: usize)
        requires
            input@.len() < usize::MAX,
        ensures
            r == 1 + input@.len(),
    {
        1 + input.len()
    }

    /// Writes the prefix `0x80 + len` and the bytes.
    fn encode_short_str(&mut self, input: &[u8])
        requires
            input@.len() <= SHORT_STRING_MAX_LEN,
            old(self).appends(),
        ensures
            final(self).written() == old(self).written() + length_prefix(input@.len(), 0x80) + input@,
            final(self).appends(),
    {
        let prefix: u8 = SHORT_STRING_PREFIX_BASE + input.len() as u8;
        byte_buffer_write_u8(&mut self.buffer, prefix);
        byte_buffer_write_bytes(&mut self.buffer, input);
        assert(old(self).written().push(prefix) + input@ =~= old(self).written() + length_prefix(
            input@.len(),
            0x80,
        ) + input@);
    }

    /// The number of bytes of the shortest big-endian form of `n`.
    fn total_bytes(n: u64) -> (r: u8)
        ensures
            r == be_bytes(n as nat).len(),
            1 <= r <= 8,
    {
        proof {
            lemma_be_bytes_u64(n as nat);
        }
        let mut count: u8 = 1;
        let mut m = n;
        while m >= 256
            invariant
                be_bytes(n as nat).len() == count - 1 + be_bytes(m as nat).len(),
                1 <= count <= be_bytes(n as nat).len() <= 8,
            decreases m,
        {
            count = count + 1;
            m = m / 256;
        }
        count
    }

    /// Writes the shortest big-endian form of `n`.
    fn write_be(&mut self, n: u64)
        requires
            old(self).appends(),
        ensures
            final(self).written() == old(self).written() + be_bytes(n as nat),
            final(self).appends(),
        decreases n,
    {
        if n < 256 {
            byte_buffer_write_u8(&mut self.buffer, n as u8);
            assert(old(self).written().push(n as u8) =~= old(self).written() + be_bytes(n as nat));
        } else {
            self.write_be(n / 256);
            byte_buffer_write_u8(&mut self.buffer, (n % 256) as u8);
            assert(old(self).written() + be_bytes(n as nat / 256) + seq![(n % 256) as u8]
                =~= old(self).written() + be_bytes(n as nat));
        }
    }

    /// Writes the prefix that announces `len` payload bytes; `base` is
    /// `0x80` for strings and `0xc0` for lists.
    fn write_length_prefix(&mut self, len: usize, base: u8)
        requires
            base == SHORT_STRING_PREFIX_BASE || base == SHORT_LIST_PREFIX_BASE,
            old(self).appends(),
        ensures
            final(self).written() == old(self).written() + length_prefix(len as nat, base as int),
            final(self).appends(),
    {
        proof {
            lemma_length_prefix(len as nat, base as int);
        }
        if len <= SHORT_LIST_MAX_LEN {
            byte_buffer_write_u8(&mut self.buffer, base + len as u8);
            assert(old(self).written().push((base + len) as u8) =~= old(self).written()
                + length_prefix(len as nat, base as int));
        } else {
            let l_total_byte = Self::total_bytes(len as u64);
            let prefix: u8 = base + 55 + l_total_byte;
            byte_buffer_write_u8(&mut self.buffer, prefix);
            let ghost mid = self.written();
            self.write_be(len as u64);
            assert(mid + be_bytes(len as nat) =~= old(self).written() + length_prefix(
                len as nat,
                base as int,
            ));
        }
    }

    /// The length of the long encoding of `input`: prefix, length bytes and
    /// bytes.
    fn encode_long_str_len(&self, input: &[u8]) -> (r: usize)
        requires
            1 + be_bytes(input@.len()).len() + input@.len() <= usize::MAX,
        ensures
            r == 1 + be_bytes(input@.len()).len() + input@.len(),
            input@.len() > 55 ==> r == length_prefix(input@.len(), 0x80).len() + input@.len(),
    {
        let l = input.len() as u64;
        let l_total_byte = Self::total_bytes(l);
        1usize + l_total_byte as usize + input.len()
    }

    /// Writes the prefix `0xb7 + n`, the `n` big-endian bytes of the length,
    /// and the bytes.
    fn encode_long_str(&mut self, input: &[u8])
        requires
            input@.len() > SHORT_STRING_MAX_LEN,
            old(self).appends(),
        ensures
            final(self).written() == old(self).written() + length_prefix(input@.len(), 0x80) + input@,
            final(self).appends(),
    {
        self.write_length_prefix(input.len(), SHORT_STRING_PREFIX_BASE);
        byte_buffer_write_bytes(&mut self.buffer, input);
    }

    /// The length of the encoding of a byte string.
    fn encode_item_len(&self, input: &[u8]) -> (r: usize)
        requires
            encode_item(input@).len() <= usize::MAX,
        ensures
            r == encode_item(input@).len(),
    {
        proof {
            lemma_length_prefix(input@.len(), 0x80);
        }
        if input.len() == 1 && input[0] <= SINGLE_BYTE_MAX_VALUE {
            self.encode_byte_len(input[0])
        } else if input.len() <= SHORT_STRING_MAX_LEN {
            self.encode_short_str_len(input)
        } else {
            self.encode_long_str_len(input)
        }
    }

    /// Writes the encoding of a byte string.
    fn encode_item(&mut self, input: &[u8])
        requires
            old(self).appends(),
        ensures
            final(self).written() == old(self).written() + encode_item(input@),
            final(self).appends(),
    {
        if input.len() == 1 && input[0] <= SINGLE_BYTE_MAX_VALUE {
            self.encode_byte(input[0]);
            assert(input@ =~= seq![input[0]]);
        } else if input.len() <= SHORT_STRING_MAX_LEN {
            self.encode_short_str(input);
        } else {
            self.encode_long_str(input);
        }
    }

    /// The length of the encoding of a value.
    fn encode_list_len(&self, input: &RLP) -> (r: usize)
        requires
            no_empty(input@),
            encode_tree(input@).len() <= usize::MAX,
        ensures
            r == encode_tree(input@).len(),
        decreases input,
    {
        match input {
            RLP::RLPItem(value) => self.encode_item_len(value.as_slice()),
            RLP::RLPList(list) => {
                let total = self.payload_len(input);
                proof {
                    lemma_length_prefix(total as nat, 0xc0);
                }
                if total <= SHORT_LIST_MAX_LEN {
                    1 + total
                } else {
                    1 + Self::total_bytes(total as u64) as usize + total
                }
            },
            RLP::RLPEmpty => 0,
        }
    }

    /// The length of the encodings of the children of a list.
    fn payload_len(&self, input: &RLP) -> (r: usize)
        requires
            input@ is List,
            no_empty(input@),
            encode_tree(input@).len() <= usize::MAX,
        ensures
            input@ matches RlpTree::List(s) && r == encode_seq(s).len(),
        decreases input, 0nat,
    {
        match input {
            RLP::RLPList(list) => {
                let ghost s = RLP::trees(list@);
                proof {
                    lemma_trees(list@);
                }
                let mut total: usize = 0;
                let mut i: usize = 0;
                assert(s.subrange(0, 0) =~= Seq::<RlpTree>::empty());
                while i < list.len()
                    invariant
                        *input == RLP::RLPList(*list),
                        s == RLP::trees(list@),
                        s.len() == list@.len(),
                        forall|k: int| 0 <= k < s.len() ==> #[trigger] s[k] == list@[k]@,
                        no_empty_seq(s),
                        encode_seq(s).len() <= usize::MAX,
                        i <= list@.len(),
                        total == encode_seq(s.subrange(0, i as int)).len(),
                    decreases list@.len() - i,
                {
                    proof {
                        lemma_encode_seq_step(s, i as int);
                        lemma_encode_seq_prefix(s, i + 1);
                        assert(decreases_to!(*input => (*input)->RLPList_0));
                        assert(decreases_to!(*list => list@));
                        assert(decreases_to!(list@ => list@[i as int]));
                    }
                    let l = self.encode_list_len(&list[i]);
                    total = total + l;
                    i = i + 1;
                }
                assert(s.subrange(0, i as int) =~= s);
                total
            },
            _ => {
                proof {
                    assert(false);
                }
                0
            },
        }
    }

    /// Writes the encoding of a value.
    fn encode_list(&mut self, input: &RLP)
        requires
            no_empty(input@),
            encode_tree(input@).len() <= usize::MAX,
            old(self).appends(),
        ensures
            final(self).written() == old(self).written() + encode_tree(input@),
            final(self).appends(),
        decreases input,
    {
        match input {
            RLP::RLPItem(value) => {
                self.encode_item(value.as_slice());
            },
            RLP::RLPList(list) => {
                let ghost s = RLP::trees(list@);
                proof {
                    lemma_trees(list@);
                }
                let l = self.payload_len(input);
                self.write_length_prefix(l, SHORT_LIST_PREFIX_BASE);
                let ghost start = self.written();
                let mut i: usize = 0;
                assert(s.subrange(0, 0) =~= Seq::<RlpTree>::empty());
                assert(start + encode_seq(s.subrange(0, 0)) =~= start);
                while i < list.len()
                    invariant
                        *input == RLP::RLPList(*list),
                        s == RLP::trees(list@),
                        s.len() == list@.len(),
                        forall|k: int| 0 <= k < s.len() ==> #[trigger] s[k] == list@[k]@,
                        no_empty_seq(s),
                        encode_seq(s).len() <= usize::MAX,
                        i <= list@.len(),
                        self.appends(),
                        self.written() == start + encode_seq(s.subrange(0, i as int)),
                    decreases list@.len() - i,
                {
                    proof {
                        lemma_encode_seq_step(s, i as int);
                        lemma_encode_seq_prefix(s, i + 1);
                        assert(decreases_to!(*input => (*input)->RLPList_0));
                        assert(decreases_to!(*list => list@));
                        assert(decreases_to!(list@ => list@[i as int]));
                    }
                    let ghost before = self.written();
                    self.encode_list(&list[i]);
                    assert(before + encode_tree(s[i as int]) =~= start + encode_seq(
                        s.subrange(0, i + 1),
                    ));
                    i = i + 1;
                }
                assert(s.subrange(0, i as int) =~= s);
                assert(old(self).written() + length_prefix(l as nat, 0xc0) + encode_seq(s)
                    =~= old(self).written() + encode_tree(input@));
            },
            RLP::RLPEmpty => {
                proof {
                    assert(false);
                }
            },
        }
    }

    /// Encodes a value into a fresh bytes array.
    ///
    /// The value must hold no `RLPEmpty`, and its encoding must fit in
    /// memory.
    pub fn encode(&mut self, obj: &RLP) -> (r: EncodedRLP)
        requires
            no_empty(obj@),
            encode_tree(obj@).len() <= usize::MAX,
        ensures
            r@ == encode_tree(obj@),
    {
        byte_buffer_clear(&mut self.buffer);
        let len = self.encode_list_len(obj);
        self.encode_list(obj);
        let bytes = byte_buffer_as_bytes(&self.buffer);
        assert(Seq::<u8>::empty() + encode_tree(obj@) =~= encode_tree(obj@));
        vstd::slice::slice_to_vec(vstd::slice::slice_subrange(bytes, 0, len))
    }
}

} // verus!
