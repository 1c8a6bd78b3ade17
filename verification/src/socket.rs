//! The buffers of a peer socket: the bytes read and not yet cut into
//! messages, and the bytes waiting to be written.  On the wire each message
//! is its size, as eight big-endian bytes, followed by its body.  The
//! stream itself stays with the caller, which hands over what it read and
//! reports what it wrote.
use vstd::prelude::*;
use crate::rlp::model::{be_value, pow256};
use crate::rlp::types::{fixed_be, fixed_be_bytes, lemma_fixed_be};
use crate::socket_message::{read_u64_big_endian, MSG_HEADER_LEN};

verus! {

pub const MAX_LINE_CAHCE_LEN: usize = 4194304;

/// The most bytes read from the stream at a time.
pub const MIO_WINDOW_SIZE: usize = 1024;

/// The most bytes allowed to wait to be written.
pub const MAX_WRITE_BUFF_SIZE: usize = 1073741824;

/// The message bodies at the front of a buffer, each after its size, and
/// the bytes left after them: a size whose body has not fully arrived,
/// or fewer than eight bytes.
pub open spec fn split_frames(buf: Seq<u8>) -> (Seq<Seq<u8>>, Seq<u8>)
    decreases buf.len(),
{
    if buf.len() < 8 {
        (Seq::empty(), buf)
    } else {
        let n = be_value(buf.subrange(0, 8)) as int;
        if buf.len() - 8 < n {
            (Seq::empty(), buf)
        } else {
            let (bodies, rest) = split_frames(buf.skip(8 + n));
            (seq![buf.subrange(8, 8 + n)] + bodies, rest)
        }
    }
}

/// A message on the wire: the size of the body as eight big-endian bytes,
/// then the body.
pub open spec fn frame_of(body: Seq<u8>) -> Seq<u8> {
    fixed_be(body.len(), 8) + body
}

/// The value of a [`PeerSocket`].
pub struct SocketView {
    pub read_buffer: Seq<u8>,
    pub write_buffer: Seq<u8>,
    pub line_cache: Seq<u8>,
}

#[derive(Debug)]
pub struct PeerSocket {
    read_buffer: Vec<u8>,
    write_buffer: Vec<u8>,
    line_cache: Vec<u8>,
}

impl View for PeerSocket {
    type V = SocketView;

    closed spec fn view(&self) -> SocketView {
        SocketView {
            read_buffer: self.read_buffer@,
            write_buffer: self.write_buffer@,
            line_cache: self.line_cache@,
        }
    }
}

impl PeerSocket {
    /// Empty buffers.
    pub fn new() -> (r: Self)
        ensures
            r@ == (SocketView { read_buffer: Seq::empty(), write_buffer: Seq::empty(), line_cache: Seq::empty() }),
    {
        PeerSocket { read_buffer: Vec::new(), write_buffer: Vec::new(), line_cache: Vec::new() }
    }

    /// The bytes waiting to be written.
    pub fn pending(&self) -> (r: &[u8])
        ensures
            r@ == self@.write_buffer,
    {
        self.write_buffer.as_slice()
    }

    /// Queues data to be written.
    pub fn queue_data(&mut self, data: &[u8])
        ensures
            final(self)@ == (SocketView { write_buffer: old(self)@.write_buffer + data@, ..old(self)@ }),
    {
        let mut new_data = vstd::slice::slice_to_vec(data);
        self.write_buffer.append(&mut new_data);
    }

    /// Queues a message: the size of its body, then the body.
    pub fn queue_msg(&mut self, body: &[u8])
        requires
            body@.len() <= u64::MAX,
        ensures
            final(self)@ == (SocketView { write_buffer: old(self)@.write_buffer + frame_of(body@), ..old(self)@ }),
    {
        let mut size_bytes = fixed_be_bytes(body.len() as u64, 8);
        self.write_buffer.append(&mut size_bytes);
        let mut new_data = vstd::slice::slice_to_vec(body);
        self.write_buffer.append(&mut new_data);
        assert(self.write_buffer@ =~= old(self)@.write_buffer + frame_of(body@));
    }

    /// Accounts for `size` bytes written from the front of the queue:
    /// they leave it.  `false` when more than `MAX_WRITE_BUFF_SIZE` bytes
    /// are still waiting, which aborts the connection.
    pub fn sent(&mut self, size: usize) -> (r: bool)
        requires
            size <= old(self)@.write_buffer.len(),
        ensures
            final(self)@ == (SocketView { write_buffer: old(self)@.write_buffer.skip(size as int), ..old(self)@ }),
            r == (old(self)@.write_buffer.len() - size <= MAX_WRITE_BUFF_SIZE),
    {
        let rest = vstd::slice::slice_to_vec(
            vstd::slice::slice_subrange(self.write_buffer.as_slice(), size, self.write_buffer.len()));
        assert(rest@ =~= self.write_buffer@.skip(size as int));
        self.write_buffer = rest;
        self.write_buffer.len() <= MAX_WRITE_BUFF_SIZE
    }

    /// Takes the complete messages from the front of the read buffer: the
    /// bodies, in order; what is left stays for the next read.
    pub fn fetch_messages_from_buffer(&mut self) -> (r: Vec<Vec<u8>>)
        ensures
            Seq::new(r@.len(), |i: int| r@[i]@) == split_frames(old(self)@.read_buffer).0,
            final(self)@ == (SocketView { read_buffer: split_frames(old(self)@.read_buffer).1, ..old(self)@ }),
    {
        let ghost orig = self.read_buffer@;
        let mut buf: Vec<u8> = Vec::new();
        std::mem::swap(&mut buf, &mut self.read_buffer);
        let mut lines: Vec<Vec<u8>> = Vec::new();
        let mut done = false;
        while !done
            invariant
                Seq::new(lines@.len(), |i: int| lines@[i]@) + split_frames(buf@).0 == split_frames(orig).0,
                split_frames(buf@).1 == split_frames(orig).1,
                done ==> split_frames(buf@).0.len() == 0 && split_frames(buf@).1 == buf@,
            decreases buf@.len() + (if done { 0int } else { 1int }),
        {
            let ghost lv = Seq::new(lines@.len(), |i: int| lines@[i]@);
            let len = buf.len();
            if len < MSG_HEADER_LEN {
                done = true;
            } else {
                let msg_size = match read_u64_big_endian(buf.as_slice()) {
                    Some(v) => v,
                    None => {
                        done = true;
                        0
                    },
                };
                if !done {
                    proof {
                        crate::rlp::laws::lemma_be_value_bound(buf@.subrange(0, 8));
                        crate::rlp::laws::lemma_pow256_8();
                    }
                    if ((len - MSG_HEADER_LEN) as u64) < msg_size {
                        done = true;
                    } else {
                        let n = msg_size as usize;
                        let line = vstd::slice::slice_to_vec(vstd::slice::slice_subrange(buf.as_slice(), 8, 8 + n));
                        let rest = vstd::slice::slice_to_vec(vstd::slice::slice_subrange(buf.as_slice(), 8 + n, len));
                        proof {
                            assert(rest@ =~= buf@.skip(8 + n));
                            assert(line@ =~= buf@.subrange(8, 8 + n));
                        }
                        lines.push(line);
                        proof {
                            let nl = Seq::new(lines@.len(), |i: int| lines@[i]@);
                            assert(nl =~= lv.push(buf@.subrange(8, 8 + n)));
                            let (bs, _) = split_frames(buf@.skip(8 + n));
                            assert(lv.push(buf@.subrange(8, 8 + n)) + bs =~= lv + (seq![buf@.subrange(8, 8 + n)] + bs));
                        }
                        buf = rest;
                    }
                }
            }
        }
        self.read_buffer = buf;
        proof {
            let lv = Seq::new(lines@.len(), |i: int| lines@[i]@);
            assert(lv + Seq::<Seq<u8>>::empty() =~= lv);
        }
        lines
    }

    /// Appends the bytes read from the stream and takes the complete
    /// messages that are now at the front: as
    /// [`PeerSocket::fetch_messages_from_buffer`] on the longer buffer.
    pub fn receive(&mut self, chunk: &[u8]) -> (r: Vec<Vec<u8>>)
        ensures
            Seq::new(r@.len(), |i: int| r@[i]@) == split_frames(old(self)@.read_buffer + chunk@).0,
            final(self)@ == (SocketView {
                read_buffer: split_frames(old(self)@.read_buffer + chunk@).1,
                ..old(self)@
            }),
    {
        let mut data = vstd::slice::slice_to_vec(chunk);
        self.read_buffer.append(&mut data);
        self.fetch_messages_from_buffer()
    }

    /// Moves the line cache to the end of the read buffer.
    pub fn flush_line_cache(&mut self)
        ensures
            final(self)@ == (SocketView {
                read_buffer: old(self)@.read_buffer + old(self)@.line_cache,
                write_buffer: old(self)@.write_buffer,
                line_cache: Seq::empty(),
            }),
    {
        let mut cache: Vec<u8> = Vec::new();
        std::mem::swap(&mut cache, &mut self.line_cache);
        self.read_buffer.append(&mut cache);
    }

    /// Empties the line cache.
    pub fn clean_line_cache(&mut self)
        ensures
            final(self)@ == (SocketView { line_cache: Seq::empty(), ..old(self)@ }),
    {
        self.line_cache = Vec::new();
    }
}

/// What a read gives back of a write: a message queued with
/// [`PeerSocket::queue_msg`] and received, followed by anything, is cut
/// out whole, and what follows is cut as it would be alone.
pub proof fn law_frame_read_after_write(body: Seq<u8>, rest: Seq<u8>)
    requires
        body.len() <= u64::MAX,
    ensures
        split_frames(frame_of(body) + rest)
            == (seq![body] + split_frames(rest).0, split_frames(rest).1),
{
    let s = frame_of(body) + rest;
    lemma_fixed_be(body.len(), 8);
    crate::rlp::laws::lemma_pow256_8();
    assert(s.subrange(0, 8) =~= fixed_be(body.len(), 8));
    assert(body.len() % pow256(8) == body.len());
    assert(s.subrange(8, 8 + body.len() as int) =~= body);
    assert(s.skip(8 + body.len() as int) =~= rest);
}

} // verus!
