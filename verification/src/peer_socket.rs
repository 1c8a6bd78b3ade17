//! A peer socket that looks after itself: the bytes read and not yet cut
//! into messages, the bytes waiting to be written, how much went each way,
//! how many more failed attempts it puts up with, and whether it is still
//! alive.  A dead socket does nothing more.  The stream stays with the
//! caller, which hands over what a read or a write gave.
use vstd::prelude::*;
use crate::rlp::model::be_value;
use crate::rlp::types::fixed_be;
use crate::socket_message::{read_u64_big_endian, SocketMessageHeader, MSG_HEADER_LEN};
use crate::stun::PeerAddr;

verus! {

/// The most bytes allowed to wait to be written.
pub const MAX_WRITE_BUFF_SIZE: usize = 1073741824;

/// The most bytes allowed to wait to be cut into messages.
pub const MAX_READ_BUFF_SIZE: usize = 1073741824;

/// The most bytes read from the stream at a time.
pub const MIO_WINDOW_SIZE: usize = 1024;

/// The keep-alive period of the stream, in milliseconds.
pub const KEEP_ALIVE_MS: u32 = 100;

/// How many failed attempts in a row a socket puts up with.
pub const INIT_RETRY_TIMES: u32 = 255;

/// The largest body a message may announce: one that the read buffer
/// could never hold can never arrive whole.
pub const MSG_PAYLOAD_LEN: usize = 1073741824;

/// How a read from or a write to the stream failed.
#[derive(Clone, Copy, Debug, PartialEq, Eq, Structural)]
pub enum IoFailure {
    /// The stream is not ready; try again.
    WouldBlock,
    /// The call was interrupted; try again.
    Interrupted,
    /// Anything else: the stream is broken.
    Other,
}

/// Why a socket refused or failed an operation.
#[derive(Clone, Copy, Debug, PartialEq, Eq, Structural)]
pub enum SocketError {
    /// The peer has been killed.
    Killed,
    /// Not now: the stream was not ready for a read, or a buffer is full.
    WouldBlock,
    /// Not now: the stream was not ready for a write; try again.
    Interrupted,
    /// A message announced a body over the limit.
    InvalidData,
    /// The stream failed.
    Io,
}

/// How much a socket sent and received, in bytes.
#[derive(Clone, Copy, Debug)]
pub struct PeerSocketStat {
    data_send: usize,
    data_recv: usize,
}

impl PeerSocketStat {
    pub closed spec fn spec_data_send(&self) -> usize {
        self.data_send
    }

    pub closed spec fn spec_data_recv(&self) -> usize {
        self.data_recv
    }

    /// Nothing sent or received yet.
    pub fn new() -> (r: Self)
        ensures
            r.spec_data_send() == 0,
            r.spec_data_recv() == 0,
    {
        PeerSocketStat { data_send: 0, data_recv: 0 }
    }

    pub fn data_send(&self) -> (r: usize)
        ensures
            r == self.spec_data_send(),
    {
        self.data_send
    }

    pub fn data_recv(&self) -> (r: usize)
        ensures
            r == self.spec_data_recv(),
    {
        self.data_recv
    }

    /// Counts `size` more bytes sent.
    pub fn notify_send(&mut self, size: usize)
        requires
            old(self).spec_data_send() + size <= usize::MAX,
        ensures
            final(self).spec_data_send() == old(self).spec_data_send() + size,
            final(self).spec_data_recv() == old(self).spec_data_recv(),
    {
        self.data_send = self.data_send + size;
    }

    /// Counts `size` more bytes received.
    pub fn notify_recv(&mut self, size: usize)
        requires
            old(self).spec_data_recv() + size <= usize::MAX,
        ensures
            final(self).spec_data_recv() == old(self).spec_data_recv() + size,
            final(self).spec_data_send() == old(self).spec_data_send(),
    {
        self.data_recv = self.data_recv + size;
    }
}

/// The message bodies at the front of a buffer, each after its size, and
/// the bytes left after them; the flag tells whether the cutting stopped
/// at a size over `limit`, which is left in the buffer.
pub open spec fn read_frames(buf: Seq<u8>, limit: nat) -> (Seq<Seq<u8>>, Seq<u8>, bool)
    decreases buf.len(),
{
    if buf.len() < 8 {
        (Seq::empty(), buf, false)
    } else {
        let n = be_value(buf.subrange(0, 8)) as int;
        if n > limit {
            (Seq::empty(), buf, true)
        } else if buf.len() - 8 < n {
            (Seq::empty(), buf, false)
        } else {
            let (bodies, rest, over) = read_frames(buf.skip(8 + n), limit);
            (seq![buf.subrange(8, 8 + n)] + bodies, rest, over)
        }
    }
}

/// The value of a [`PeerSocket`].
pub struct PeerSocketView {
    pub token: Option<usize>,
    pub addr: PeerAddr,
    pub read_buffer: Seq<u8>,
    pub write_buffer: Seq<u8>,
    pub data_send: usize,
    pub data_recv: usize,
    pub r_prep: bool,
    pub w_prep: bool,
    pub retry_times: u32,
    pub alive: bool,
}

/// The view of a socket that was just opened to `addr`.
pub open spec fn fresh_socket(addr: PeerAddr) -> PeerSocketView {
    PeerSocketView {
        token: None,
        addr: addr,
        read_buffer: Seq::empty(),
        write_buffer: Seq::empty(),
        data_send: 0,
        data_recv: 0,
        r_prep: false,
        w_prep: false,
        retry_times: INIT_RETRY_TIMES,
        alive: true,
    }
}

/// What a failed attempt leaves: one attempt less, and the socket dies
/// when none is left.
pub open spec fn after_retry(v: PeerSocketView) -> PeerSocketView {
    let left = (v.retry_times - 1) as u32;
    PeerSocketView { retry_times: left, alive: left != 0 && v.alive, ..v }
}

/// What writing a message with `body` does to a socket, and what the
/// write answers: a dead socket refuses; the size of the body goes into
/// the write buffer as eight big-endian bytes; the body follows unless it
/// would take the buffer over `MAX_WRITE_BUFF_SIZE`, which is refused
/// with the size left written; a written body makes the buffer ready to
/// send.
pub open spec fn write_outcome(v: PeerSocketView, body: Seq<u8>) -> (PeerSocketView, Result<(), SocketError>) {
    if !v.alive {
        (v, Err(SocketError::Killed))
    } else if v.write_buffer.len() + 8 + body.len() > MAX_WRITE_BUFF_SIZE {
        (PeerSocketView { write_buffer: v.write_buffer + fixed_be(body.len(), 8), ..v }, Err(SocketError::WouldBlock))
    } else {
        (PeerSocketView { write_buffer: v.write_buffer + fixed_be(body.len(), 8) + body, w_prep: true, ..v }, Ok(()))
    }
}

/// What accounting for a write of the pending bytes does to a socket, and
/// what it answers: a dead socket refuses; when `size` bytes went out they
/// leave the buffer, are counted, and all attempts are left again, and the
/// buffer is no longer ready to send once empty; a write that the stream
/// was not ready for (it would block, or was interrupted) costs an
/// attempt, leaves the buffer as it is and answers `Interrupted`, to try
/// again; any other failure kills the socket.
pub open spec fn send_outcome(v: PeerSocketView, written: Result<usize, IoFailure>) -> (PeerSocketView, Result<(), SocketError>) {
    if !v.alive {
        (v, Err(SocketError::Killed))
    } else {
        match written {
            Ok(size) => {
                let rest = v.write_buffer.skip(size as int);
                (PeerSocketView {
                    write_buffer: rest,
                    data_send: (v.data_send + size) as usize,
                    retry_times: INIT_RETRY_TIMES,
                    w_prep: if rest.len() == 0 { false } else { v.w_prep },
                    ..v
                }, Ok(()))
            },
            Err(IoFailure::WouldBlock) => (after_retry(v), Err(SocketError::Interrupted)),
            Err(IoFailure::Interrupted) => (after_retry(v), Err(SocketError::Interrupted)),
            Err(_) => (PeerSocketView { alive: false, ..v }, Err(SocketError::Io)),
        }
    }
}

/// What accounting for a read from the stream does to a socket, and what
/// it answers: a dead socket refuses; the bytes read are counted and all
/// attempts are left again; bytes that would take the read buffer over
/// `MAX_READ_BUFF_SIZE` kill the socket and are dropped, others join the
/// buffer, which is then ready to be read; a read that would block costs an
/// attempt and asks to try again; any other failure kills the socket.
pub open spec fn store_outcome(v: PeerSocketView, read: Result<Seq<u8>, IoFailure>) -> (PeerSocketView, Result<(), SocketError>) {
    if !v.alive {
        (v, Err(SocketError::Killed))
    } else {
        match read {
            Ok(bytes) => {
                let counted = PeerSocketView {
                    data_recv: (v.data_recv + bytes.len()) as usize,
                    retry_times: INIT_RETRY_TIMES,
                    ..v
                };
                if v.read_buffer.len() + bytes.len() > MAX_READ_BUFF_SIZE {
                    (PeerSocketView { alive: false, ..counted }, Err(SocketError::WouldBlock))
                } else {
                    (PeerSocketView { read_buffer: v.read_buffer + bytes, r_prep: true, ..counted }, Ok(()))
                }
            },
            Err(IoFailure::WouldBlock) => (after_retry(v), Err(SocketError::WouldBlock)),
            Err(_) => (PeerSocketView { alive: false, ..v }, Err(SocketError::Io)),
        }
    }
}

/// What cutting messages from the read buffer does to a socket, and the
/// bodies it hands over: a dead socket refuses; the complete messages at
/// the front leave the buffer, which is no longer ready to be read; a size
/// over `MSG_PAYLOAD_LEN` kills the socket, the bodies before it being
/// dropped and the buffer keeping the rest from that size on.
pub open spec fn read_outcome(v: PeerSocketView) -> (PeerSocketView, Result<Seq<Seq<u8>>, SocketError>) {
    if !v.alive {
        (v, Err(SocketError::Killed))
    } else {
        let (bodies, rest, over) = read_frames(v.read_buffer, MSG_PAYLOAD_LEN as nat);
        if over {
            (PeerSocketView { read_buffer: rest, alive: false, ..v }, Err(SocketError::InvalidData))
        } else {
            (PeerSocketView { read_buffer: rest, r_prep: false, ..v }, Ok(bodies))
        }
    }
}

/// A non-blocking socket between this peer and another.
#[derive(Debug)]
pub struct PeerSocket {
    token: Option<usize>,
    addr: PeerAddr,
    read_buffer: Vec<u8>,
    write_buffer: Vec<u8>,
    stat: PeerSocketStat,
    r_prep: bool,
    w_prep: bool,
    retry_times: u32,
    alive: bool,
}

impl View for PeerSocket {
    type V = PeerSocketView;

    closed spec fn view(&self) -> PeerSocketView {
        PeerSocketView {
            token: self.token,
            addr: self.addr,
            read_buffer: self.read_buffer@,
            write_buffer: self.write_buffer@,
            data_send: self.stat.data_send,
            data_recv: self.stat.data_recv,
            r_prep: self.r_prep,
            w_prep: self.w_prep,
            retry_times: self.retry_times,
            alive: self.alive,
        }
    }
}

impl PeerSocket {
    /// A live socket has an attempt left.
    #[verifier::type_invariant]
    closed spec fn inv(self) -> bool {
        self.alive ==> self.retry_times >= 1
    }

    /// A socket just opened to `addr`: no token, empty buffers, all its
    /// attempts left, alive.
    pub fn new(addr: PeerAddr) -> (r: Self)
        ensures
            r@ == fresh_socket(addr),
    {
        PeerSocket {
            token: None,
            addr: addr,
            read_buffer: Vec::new(),
            write_buffer: Vec::new(),
            stat: PeerSocketStat::new(),
            r_prep: false,
            w_prep: false,
            retry_times: INIT_RETRY_TIMES,
            alive: true,
        }
    }

    /// The address of the other peer.
    pub fn addr(&self) -> (r: PeerAddr)
        ensures
            r == self@.addr,
    {
        self.addr
    }

    /// Sets the event loop token.
    pub fn set_token(&mut self, token: usize)
        ensures
            final(self)@ == (PeerSocketView { token: Some(token), ..old(self)@ }),
    {
        proof { use_type_invariant(&*self); }
        self.token = Some(token);
    }

    /// The event loop token.
    pub fn token(&self) -> (r: Option<usize>)
        ensures
            r == self@.token,
    {
        self.token
    }

    /// The statistics of the socket.
    pub fn stat(&self) -> (r: PeerSocketStat)
        ensures
            r.spec_data_send() == self@.data_send,
            r.spec_data_recv() == self@.data_recv,
    {
        self.stat
    }

    /// The bytes waiting to be written.
    pub fn pending(&self) -> (r: &[u8])
        ensures
            r@ == self@.write_buffer,
    {
        self.write_buffer.as_slice()
    }

    /// Writes a message into the write buffer: the size of its body as
    /// eight big-endian bytes, then the body, as [`write_outcome`] says.
    pub fn write_msg(&mut self, body: &[u8]) -> (r: Result<(), SocketError>)
        ensures
            (final(self)@, r) == write_outcome(old(self)@, body@),
    {
        proof { use_type_invariant(&*self); }
        if !self.alive {
            return Err(SocketError::Killed);
        }
        let header = SocketMessageHeader::new(body.len());
        let mut buf: Vec<u8> = Vec::new();
        std::mem::swap(&mut buf, &mut self.write_buffer);
        header.write_header(&mut buf);
        proof {
            crate::rlp::types::lemma_fixed_be(body@.len(), 8);
        }
        let fits = buf.len() <= MAX_WRITE_BUFF_SIZE && body.len() <= MAX_WRITE_BUFF_SIZE - buf.len();
        if !fits {
            self.write_buffer = buf;
            return Err(SocketError::WouldBlock);
        }
        let mut new_data = vstd::slice::slice_to_vec(body);
        buf.append(&mut new_data);
        self.write_buffer = buf;
        self.w_prep = true;
        Ok(())
    }

    /// Accounts for what a write of the pending bytes to the stream gave,
    /// as [`send_outcome`] says.
    pub fn send_buffer(&mut self, written: Result<usize, IoFailure>) -> (r: Result<(), SocketError>)
        requires
            written matches Ok(size) ==> size <= old(self)@.write_buffer.len()
                && old(self)@.data_send + size <= usize::MAX,
        ensures
            (final(self)@, r) == send_outcome(old(self)@, written),
    {
        proof { use_type_invariant(&*self); }
        if !self.alive {
            return Err(SocketError::Killed);
        }
        match written {
            Ok(size) => {
                let mut stat = self.stat;
                stat.notify_send(size);
                self.stat = stat;
                self.reset_retry_times();
                let rest = vstd::slice::slice_to_vec(
                    vstd::slice::slice_subrange(self.write_buffer.as_slice(), size, self.write_buffer.len()));
                assert(rest@ =~= self.write_buffer@.skip(size as int));
                self.write_buffer = rest;
                if self.write_buffer.len() == 0 {
                    self.w_prep = false;
                }
                Ok(())
            },
            Err(IoFailure::WouldBlock) | Err(IoFailure::Interrupted) => {
                self.retry();
                Err(SocketError::Interrupted)
            },
            Err(_) => {
                self.kill();
                Err(SocketError::Io)
            },
        }
    }

    /// Accounts for what a read from the stream gave, as
    /// [`store_outcome`] says.
    pub fn store_buffer(&mut self, read: Result<&[u8], IoFailure>) -> (r: Result<(), SocketError>)
        requires
            read matches Ok(bytes) ==> old(self)@.data_recv + bytes@.len() <= usize::MAX,
        ensures
            (final(self)@, r) == store_outcome(old(self)@, match read { Ok(bytes) => Ok(bytes@), Err(e) => Err(e) }),
    {
        proof { use_type_invariant(&*self); }
        if !self.alive {
            return Err(SocketError::Killed);
        }
        match read {
            Ok(bytes) => {
                let mut stat = self.stat;
                stat.notify_recv(bytes.len());
                self.stat = stat;
                self.reset_retry_times();
                let fits = self.read_buffer.len() <= MAX_READ_BUFF_SIZE
                    && bytes.len() <= MAX_READ_BUFF_SIZE - self.read_buffer.len();
                if !fits {
                    self.kill();
                    return Err(SocketError::WouldBlock);
                }
                let mut buf: Vec<u8> = Vec::new();
                std::mem::swap(&mut buf, &mut self.read_buffer);
                let mut new_data = vstd::slice::slice_to_vec(bytes);
                buf.append(&mut new_data);
                self.read_buffer = buf;
                self.r_prep = true;
                Ok(())
            },
            Err(IoFailure::WouldBlock) => {
                self.retry();
                Err(SocketError::WouldBlock)
            },
            Err(_) => {
                self.kill();
                Err(SocketError::Io)
            },
        }
    }

    /// Cuts the complete messages from the front of the read buffer and
    /// hands their bodies over, in order, as [`read_outcome`] says.
    pub fn read_msg(&mut self) -> (r: Result<Vec<Vec<u8>>, SocketError>)
        ensures
            final(self)@ == read_outcome(old(self)@).0,
            match (r, read_outcome(old(self)@).1) {
                (Ok(lines), Ok(bodies)) => Seq::new(lines@.len(), |i: int| lines@[i]@) == bodies,
                (Err(e), Err(f)) => e == f,
                _ => false,
            },
    {
        proof { use_type_invariant(&*self); }
        if !self.alive {
            return Err(SocketError::Killed);
        }
        let ghost orig = self.read_buffer@;
        let mut buf: Vec<u8> = Vec::new();
        std::mem::swap(&mut buf, &mut self.read_buffer);
        let mut lines: Vec<Vec<u8>> = Vec::new();
        let mut done = false;
        let mut over = false;
        while !done
            invariant
                !over ==> Seq::new(lines@.len(), |i: int| lines@[i]@) + read_frames(buf@, MSG_PAYLOAD_LEN as nat).0
                    == read_frames(orig, MSG_PAYLOAD_LEN as nat).0,
                read_frames(buf@, MSG_PAYLOAD_LEN as nat).1 == read_frames(orig, MSG_PAYLOAD_LEN as nat).1,
                read_frames(buf@, MSG_PAYLOAD_LEN as nat).2 == read_frames(orig, MSG_PAYLOAD_LEN as nat).2,
                done && !over ==> read_frames(buf@, MSG_PAYLOAD_LEN as nat).0.len() == 0
                    && read_frames(buf@, MSG_PAYLOAD_LEN as nat).1 == buf@
                    && !read_frames(buf@, MSG_PAYLOAD_LEN as nat).2,
                over ==> done && read_frames(buf@, MSG_PAYLOAD_LEN as nat).1 == buf@
                    && read_frames(buf@, MSG_PAYLOAD_LEN as nat).2,
            decreases buf@.len() + (if done { 0int } else { 1int }),
        {
            let ghost lv = Seq::new(lines@.len(), |i: int| lines@[i]@);
            let len = buf.len();
            if len < MSG_HEADER_LEN {
                done = true;
            } else {
                let msg_size = match read_u64_big_endian(buf.as_slice()) {
                    Some(v) => v,
                    None => {
                        proof {
                            assert(false);
                        }
                        0
                    },
                };
                proof {
                    crate::rlp::laws::lemma_be_value_bound(buf@.subrange(0, 8));
                    crate::rlp::laws::lemma_pow256_8();
                }
                if msg_size > MSG_PAYLOAD_LEN as u64 {
                    done = true;
                    over = true;
                } else if ((len - MSG_HEADER_LEN) as u64) < msg_size {
                    done = true;
                } else {
                    let n = msg_size as usize;
                    let line = vstd::slice::slice_to_vec(vstd::slice::slice_subrange(buf.as_slice(), 8, 8 + n));
                    let rest = vstd::slice::slice_to_vec(vstd::slice::slice_subrange(buf.as_slice(), 8 + n, len));
                    proof {
                        assert(rest@ =~= buf@.skip(8 + n));
                        assert(line@ =~= buf@.subrange(8, 8 + n));
                    }
                    lines.push(line);
                    proof {
                        let nl = Seq::new(lines@.len(), |i: int| lines@[i]@);
                        assert(nl =~= lv.push(buf@.subrange(8, 8 + n)));
                        let (bs, _, _) = read_frames(buf@.skip(8 + n), MSG_PAYLOAD_LEN as nat);
                        assert(lv.push(buf@.subrange(8, 8 + n)) + bs =~= lv + (seq![buf@.subrange(8, 8 + n)] + bs));
                    }
                    buf = rest;
                }
            }
        }
        self.read_buffer = buf;
        if over {
            self.kill();
            return Err(SocketError::InvalidData);
        }
        self.r_prep = false;
        proof {
            let lv = Seq::new(lines@.len(), |i: int| lines@[i]@);
            assert(lv + Seq::<Seq<u8>>::empty() =~= lv);
        }
        Ok(lines)
    }

    /// The write buffer holds bytes to send.
    pub fn prepare_to_send_data(&self) -> (r: bool)
        ensures
            r == self@.w_prep,
    {
        self.w_prep
    }

    /// The read buffer holds bytes to cut into messages.
    pub fn prepare_to_recv_msg(&self) -> (r: bool)
        ensures
            r == self@.r_prep,
    {
        self.r_prep
    }

    /// One failed attempt: one less left, and the socket dies when none is.
    fn retry(&mut self)
        requires
            old(self)@.alive,
        ensures
            final(self)@ == after_retry(old(self)@),
    {
        proof { use_type_invariant(&*self); }
        let left = self.retry_times - 1;
        if left == 0 {
            self.alive = false;
        }
        self.retry_times = left;
    }

    /// All attempts are left again.
    fn reset_retry_times(&mut self)
        ensures
            final(self)@ == (PeerSocketView { retry_times: INIT_RETRY_TIMES, ..old(self)@ }),
    {
        self.retry_times = INIT_RETRY_TIMES;
    }

    /// Kills the socket.
    pub fn kill(&mut self)
        ensures
            final(self)@ == (PeerSocketView { alive: false, ..old(self)@ }),
    {
        self.alive = false;
    }

    /// The socket is alive; a dead one does nothing.
    pub fn is_alive(&self) -> (r: bool)
        ensures
            r == self@.alive,
    {
        self.alive
    }
}

/// What a read gives back of a write: the bytes that a message with a body
/// of at most `MSG_PAYLOAD_LEN` bytes puts in the write buffer, once they
/// are at the front of a read buffer, are cut out as that body, and what
/// follows is cut as it would be alone.
pub proof fn law_read_after_write(body: Seq<u8>, rest: Seq<u8>)
    requires
        body.len() <= MSG_PAYLOAD_LEN,
    ensures
        ({
            let (bodies, left, over) = read_frames(rest, MSG_PAYLOAD_LEN as nat);
            read_frames(fixed_be(body.len(), 8) + body + rest, MSG_PAYLOAD_LEN as nat)
                == (seq![body] + bodies, left, over)
        }),
{
    let s = fixed_be(body.len(), 8) + body + rest;
    crate::rlp::types::lemma_fixed_be(body.len(), 8);
    crate::rlp::laws::lemma_pow256_8();
    assert(s.subrange(0, 8) =~= fixed_be(body.len(), 8));
    assert(body.len() % crate::rlp::model::pow256(8) == body.len());
    assert(s.subrange(8, 8 + body.len() as int) =~= body);
    assert(s.skip(8 + body.len() as int) =~= rest);
}

/// A dead socket does nothing: it refuses every operation and stays as it
/// is.
pub proof fn law_dead_socket_does_nothing(
    v: PeerSocketView,
    body: Seq<u8>,
    written: Result<usize, IoFailure>,
    read: Result<Seq<u8>, IoFailure>,
)
    requires
        !v.alive,
    ensures
        write_outcome(v, body) == (v, Err::<(), SocketError>(SocketError::Killed)),
        send_outcome(v, written) == (v, Err::<(), SocketError>(SocketError::Killed)),
        store_outcome(v, read) == (v, Err::<(), SocketError>(SocketError::Killed)),
        read_outcome(v) == (v, Err::<Seq<Seq<u8>>, SocketError>(SocketError::Killed)),
{
}

/// Nothing revives a killed socket: whatever is written, read or cut, a
/// socket alive afterwards was alive before.
pub proof fn law_nothing_revives(
    v: PeerSocketView,
    body: Seq<u8>,
    written: Result<usize, IoFailure>,
    read: Result<Seq<u8>, IoFailure>,
)
    ensures
        write_outcome(v, body).0.alive ==> v.alive,
        send_outcome(v, written).0.alive ==> v.alive,
        store_outcome(v, read).0.alive ==> v.alive,
        read_outcome(v).0.alive ==> v.alive,
{
}

} // verus!
