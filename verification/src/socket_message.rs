//! The header that precedes every message on a peer socket: the size of
//! the message body, as eight big-endian bytes.
use vstd::prelude::*;
use byteorder::{BigEndian, ReadBytesExt};
use crate::rlp::model::{be_value, pow256};
use crate::rlp::types::{fixed_be, fixed_be_bytes, lemma_fixed_be};

verus! {

/// The socket message header size
pub const MSG_HEADER_LEN: usize = 8;

/// Calls `ReadBytesExt::read_u64::<BigEndian>` on the slice.  It reads the
/// first eight bytes as a big-endian number, and fails (here `None`) when
/// fewer than eight bytes are given.
#[verifier::external_body]
pub(crate) fn read_u64_big_endian(bytes: &[u8]) -> (r: Option<u64>)
    ensures
        bytes@.len() >= 8 ==> r == Some(be_value(bytes@.subrange(0, 8)) as u64),
        bytes@.len() < 8 ==> r is None,
{
    let mut reader: &[u8] = bytes;
    reader.read_u64::<BigEndian>().ok()
}

/// The body size announced by the first bytes of a buffer, if there are
/// enough of them.
pub open spec fn header_body_size(buff: Seq<u8>) -> Option<usize> {
    if buff.len() < MSG_HEADER_LEN {
        None
    } else {
        Some(be_value(buff.subrange(0, 8)) as usize)
    }
}

pub struct SocketMessageHeader {
    body_size: usize,
}

impl SocketMessageHeader {
    /// The size of the body that follows the header.
    pub closed spec fn spec_body_size(&self) -> usize {
        self.body_size
    }

    pub fn new(body_size: usize) -> (r: Self)
        ensures
            r.spec_body_size() == body_size,
    {
        SocketMessageHeader { body_size: body_size }
    }

    /// Reads a header from the first `MSG_HEADER_LEN` bytes of a buffer;
    /// `None` when the buffer is shorter.
    pub fn read_header(buff: &[u8]) -> (r: Option<Self>)
        ensures
            match header_body_size(buff@) {
                Some(n) => r matches Some(h) && h.spec_body_size() == n,
                None => r is None,
            },
    {
        let buff_size = buff.len();
        if buff_size < MSG_HEADER_LEN {
            None
        } else {
            let size_buf = vstd::slice::slice_subrange(buff, 0, MSG_HEADER_LEN);
            assert(size_buf@.subrange(0, 8) =~= buff@.subrange(0, 8));
            proof {
                crate::rlp::laws::lemma_be_value_bound(buff@.subrange(0, 8));
                crate::rlp::laws::lemma_pow256_8();
            }
            match read_u64_big_endian(size_buf) {
                Some(msg_size) => Some(SocketMessageHeader { body_size: msg_size as usize }),
                None => {
                    proof {
                        assert(false);
                    }
                    None
                },
            }
        }
    }

    /// Appends the header: the body size as eight big-endian bytes.
    pub fn write_header(&self, buff: &mut Vec<u8>)
        ensures
            final(buff)@ == old(buff)@ + fixed_be(self.spec_body_size() as nat, 8),
    {
        let mut header_bytes = fixed_be_bytes(self.body_size as u64, 8);
        buff.append(&mut header_bytes);
    }

    pub fn body_size(&self) -> (r: usize)
        ensures
            r == self.spec_body_size(),
    {
        self.body_size
    }
}

/// A header written at the end of a buffer is read back from there: the
/// written bytes, followed by anything, announce the same body size.
pub proof fn law_header_round_trip(body_size: usize, rest: Seq<u8>)
    ensures
        header_body_size(fixed_be(body_size as nat, 8) + rest) == Some(body_size),
{
    let s = fixed_be(body_size as nat, 8) + rest;
    lemma_fixed_be(body_size as nat, 8);
    crate::rlp::laws::lemma_pow256_8();
    assert(s.subrange(0, 8) =~= fixed_be(body_size as nat, 8));
    assert(body_size as nat % pow256(8) == body_size as nat);
}

} // verus!
