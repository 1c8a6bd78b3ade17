//! Frames of the peer-to-peer wire, and the window that collects their
//! bytes from a stream.
//!
//! ```text
//! 0                   1                   2                   3
//! 0 1 2 3 4 5 6 7 8 9 0 1 2 3 4 5 6 7 8 9 0 1 2 3 4 5 6 7 8 9 0 1 2
//! +-+-+-+-+-+-+-+-+-+-+-+-+-+-+-+-+-+-+-+-+-+-+-+-+-+-+-+-+-+-+-+-+
//! |0 0 0 0 0 0 0| type  |role   |c|   task      |    code         |
//! +-+-+-+-+-+-+-+-+-+-+-+-+-+-+-+-+-+-+-+-+-+-+-+-+-+-+-+-+-+-+-+-+
//! |                           SEQ (32 bits)                       |
//! +-+-+-+-+-+-+-+-+-+-+-+-+-+-+-+-+-+-+-+-+-+-+-+-+-+-+-+-+-+-+-+-+
//! |                     Address (256 bits)                        |
//! +-+-+-+-+-+-+-+-+-+-+-+-+-+-+-+-+-+-+-+-+-+-+-+-+-+-+-+-+-+-+-+-+
//! |                             ext1 (32 bits)                    |
//! +-+-+-+-+-+-+-+-+-+-+-+-+-+-+-+-+-+-+-+-+-+-+-+-+-+-+-+-+-+-+-+-+
//! |                             ext2 (32 bits)                    |
//! +-+-+-+-+-+-+-+-+-+-+-+-+-+-+-+-+-+-+-+-+-+-+-+-+-+-+-+-+-+-+-+-+
//! |                     payload size (64 bits)                    |
//! +-+-+-+-+-+-+-+-+-+-+-+-+-+-+-+-+-+-+-+-+-+-+-+-+-+-+-+-+-+-+-+-+
//! |...............................................................|
//! +-+-+-+-+-+-+-+-+-+-+-+-+-+-+-+-+-+-+-+-+-+-+-+-+-+-+-+-+-+-+-+-+
//! |1 1 1 1 1 1 1 1 1 1 1 1 1 1 1 1 1 1 1 1 1 1 1 1 1 1 1 1 1 1 1 1|
//! +-+-+-+-+-+-+-+-+-+-+-+-+-+-+-+-+-+-+-+-+-+-+-+-+-+-+-+-+-+-+-+-+
//! ```
//!
//! The payload size and the payload are present when the `c` bit is set.
//! A frame is at least `FRAME_MIN_SIZE` bytes before its payload; the
//! bytes between the fields and the stuffing are zero when a frame is
//! written.
use vstd::prelude::*;
use crate::key::PublicKey;
use crate::rlp::model::be_value;
use crate::rlp::types::{fixed_be, fixed_be_bytes, lemma_fixed_be, read_be};

verus! {

/// The four bytes that end a frame.
pub const STUFFING_BYTES: u32 = 0xffffffff;

/// Bytes the window of a [`FrameReader`] can hold.
pub const WINDOW_SIZE: usize = 16777216;

/// Largest frame, stuffing included, that a [`FrameReader`] hands out.
pub const FRAME_MAX_SIZE: usize = 16384;

/// Smallest frame, payload and its size excluded.
pub const FRAME_MIN_SIZE: usize = 388;

/// Bytes taken by the fixed fields at the start of a frame.
pub const FRAME_FIELDS_LEN: usize = 48;

#[derive(Clone, Copy, Debug, PartialEq, Eq, Structural)]
pub enum FrameType {
    Request,
    Response,
    Transmit,
}

#[derive(Clone, Copy, Debug, PartialEq, Eq, Structural)]
pub enum Task {
    SyncBlock,
    SyncChain,
    SyncTransaction,
    SyncAccount,
    SyncLog,
}

#[derive(Clone, Copy, Debug, PartialEq, Eq, Structural)]
pub enum Role {
    Producer,
    Normal,
}

#[derive(Clone, Copy, Debug, PartialEq, Eq, Structural)]
pub enum ReponseCode {
    Success,
    Failure,
}

pub type SEQ = u32;

pub struct Frame {
    frame_type: FrameType,
    task: Task,
    has_rlp_payload: bool,
    code: ReponseCode,
    payload_size: Option<u64>,
    pub_key: PublicKey,
    role: Role,
    seq: SEQ,
    ext1: u32,
    ext2: u32,
    payload: Option<Vec<u8>>,
}

/// The value of a [`Frame`], with byte arrays as sequences.
pub struct FrameView {
    pub frame_type: FrameType,
    pub task: Task,
    pub has_rlp_payload: bool,
    pub code: ReponseCode,
    pub payload_size: Option<u64>,
    pub pub_key: Seq<u8>,
    pub role: Role,
    pub seq: u32,
    pub ext1: u32,
    pub ext2: u32,
    pub payload: Option<Seq<u8>>,
}

impl View for Frame {
    type V = FrameView;

    closed spec fn view(&self) -> FrameView {
        FrameView {
            frame_type: self.frame_type,
            task: self.task,
            has_rlp_payload: self.has_rlp_payload,
            code: self.code,
            payload_size: self.payload_size,
            pub_key: self.pub_key@,
            role: self.role,
            seq: self.seq,
            ext1: self.ext1,
            ext2: self.ext2,
            payload: match self.payload {
                Some(p) => Some(p@),
                None => None,
            },
        }
    }
}

/// A frame whose flag, payload size and payload agree.
pub open spec fn frame_wf(f: FrameView) -> bool {
    &&& f.pub_key.len() == 32
    &&& f.has_rlp_payload == f.payload is Some
    &&& f.has_rlp_payload == f.payload_size is Some
    &&& f.payload matches Some(p) ==> (f.payload_size matches Some(n) && n as nat == p.len())
}

pub open spec fn frame_type_code(t: FrameType) -> nat {
    match t {
        FrameType::Request => 0,
        FrameType::Response => 1,
        FrameType::Transmit => 2,
    }
}

pub open spec fn frame_type_of(c: nat) -> Option<FrameType> {
    if c == 0 {
        Some(FrameType::Request)
    } else if c == 1 {
        Some(FrameType::Response)
    } else if c == 2 {
        Some(FrameType::Transmit)
    } else {
        None
    }
}

pub open spec fn role_code(r: Role) -> nat {
    match r {
        Role::Producer => 0,
        Role::Normal => 1,
    }
}

pub open spec fn role_of(c: nat) -> Option<Role> {
    if c == 0 {
        Some(Role::Producer)
    } else if c == 1 {
        Some(Role::Normal)
    } else {
        None
    }
}

pub open spec fn task_code(t: Task) -> nat {
    match t {
        Task::SyncBlock => 0,
        Task::SyncChain => 1,
        Task::SyncTransaction => 2,
        Task::SyncAccount => 3,
        Task::SyncLog => 4,
    }
}

pub open spec fn task_of(c: nat) -> Option<Task> {
    if c == 0 {
        Some(Task::SyncBlock)
    } else if c == 1 {
        Some(Task::SyncChain)
    } else if c == 2 {
        Some(Task::SyncTransaction)
    } else if c == 3 {
        Some(Task::SyncAccount)
    } else if c == 4 {
        Some(Task::SyncLog)
    } else {
        None
    }
}

pub open spec fn code_code(c: ReponseCode) -> nat {
    match c {
        ReponseCode::Success => 0,
        ReponseCode::Failure => 1,
    }
}

pub open spec fn code_of(c: nat) -> Option<ReponseCode> {
    if c == 0 {
        Some(ReponseCode::Success)
    } else if c == 1 {
        Some(ReponseCode::Failure)
    } else {
        None
    }
}

/// The first 32 bits of a frame, read most significant bit first: 7 zero
/// bits, 4 bits of type, 4 of role, the payload flag, 7 bits of task and 9
/// of code.
pub open spec fn header_word(f: FrameView) -> nat {
    frame_type_code(f.frame_type) * 0x200000 + role_code(f.role) * 0x20000 + (if f.has_rlp_payload {
        0x10000nat
    } else {
        0nat
    }) + task_code(f.task) * 0x200 + code_code(f.code)
}

/// The bytes of a frame: its fields, the payload size and the payload when
/// there is one, zeros up to the minimum size, then the stuffing.  The
/// size field stands only in a frame whose payload flag is set: that is
/// the only frame in which [`Frame::new`] reads it.
pub open spec fn frame_bytes(f: FrameView) -> Seq<u8> {
    fixed_be(header_word(f), 4) + fixed_be(f.seq as nat, 4) + f.pub_key + fixed_be(f.ext1 as nat, 4)
        + fixed_be(f.ext2 as nat, 4) + match f.payload {
        Some(p) => fixed_be(p.len(), 8) + p,
        None => Seq::empty(),
    } + Seq::new((FRAME_MIN_SIZE - FRAME_FIELDS_LEN) as nat, |i: int| 0u8) + seq![0xffu8, 0xff, 0xff, 0xff]
}

/// The frame that a byte string holds.  It must be at least
/// `FRAME_MIN_SIZE` bytes, and that many bytes beyond the payload and its
/// size when there is a payload.
pub open spec fn parse_frame(s: Seq<u8>) -> Option<FrameView> {
    if s.len() < FRAME_MIN_SIZE {
        None
    } else {
        let w = be_value(s.subrange(0, 4));
        let has_payload = (w / 0x10000) % 2 == 1;
        if w / 0x2000000 != 0 {
            None
        } else if frame_type_of((w / 0x200000) % 16) is None {
            None
        } else if role_of((w / 0x20000) % 16) is None {
            None
        } else if task_of((w / 0x200) % 128) is None {
            None
        } else if code_of(w % 512) is None {
            None
        } else {
            let size = be_value(s.subrange(48, 56));
            if has_payload && s.len() < size + 8 + FRAME_MIN_SIZE {
                None
            } else {
                Some(FrameView {
                    frame_type: frame_type_of((w / 0x200000) % 16).unwrap(),
                    task: task_of((w / 0x200) % 128).unwrap(),
                    has_rlp_payload: has_payload,
                    code: code_of(w % 512).unwrap(),
                    payload_size: if has_payload { Some(size as u64) } else { None },
                    pub_key: s.subrange(8, 40),
                    role: role_of((w / 0x20000) % 16).unwrap(),
                    seq: be_value(s.subrange(4, 8)) as u32,
                    ext1: be_value(s.subrange(40, 44)) as u32,
                    ext2: be_value(s.subrange(44, 48)) as u32,
                    payload: if has_payload {
                        Some(s.subrange(56, 56 + size as int))
                    } else {
                        None
                    },
                })
            }
        }
    }
}

/// The fields of the first word come back from the word.
proof fn lemma_header_word(f: FrameView)
    ensures
        header_word(f) < 0x2000000,
        frame_type_of((header_word(f) / 0x200000) % 16) == Some(f.frame_type),
        role_of((header_word(f) / 0x20000) % 16) == Some(f.role),
        ((header_word(f) / 0x10000) % 2 == 1) == f.has_rlp_payload,
        task_of((header_word(f) / 0x200) % 128) == Some(f.task),
        code_of(header_word(f) % 512) == Some(f.code),
{
    let ft = frame_type_code(f.frame_type);
    let ro = role_code(f.role);
    let hp: nat = if f.has_rlp_payload { 1 } else { 0 };
    let ta = task_code(f.task);
    let co = code_code(f.code);
    let w = header_word(f);
    assert(w == ft * 0x200000 + ro * 0x20000 + hp * 0x10000 + ta * 0x200 + co);
    assert(w / 0x200000 == ft);
    assert(w / 0x20000 == ft * 16 + ro);
    assert(w / 0x10000 == ft * 32 + ro * 2 + hp);
    assert(w / 0x200 == ft * 0x1000 + ro * 0x100 + hp * 0x80 + ta);
    assert(w % 512 == co);
}

/// Every frame is read back from its bytes.
#[verifier::rlimit(60)]
#[verifier::spinoff_prover]
pub proof fn law_frame_round_trip(f: FrameView)
    requires
        frame_wf(f),
    ensures
        parse_frame(frame_bytes(f)) == Some(f),
{
    let s = frame_bytes(f);
    let w = header_word(f);
    lemma_header_word(f);
    lemma_fixed_be(w, 4);
    lemma_fixed_be(f.seq as nat, 4);
    lemma_fixed_be(f.ext1 as nat, 4);
    lemma_fixed_be(f.ext2 as nat, 4);
    assert(crate::rlp::model::pow256(4) == 0x1_0000_0000) by {
        reveal_with_fuel(crate::rlp::model::pow256, 5);
    }
    crate::rlp::laws::lemma_pow256_8();
    assert(s.subrange(0, 4) =~= fixed_be(w, 4));
    assert(s.subrange(4, 8) =~= fixed_be(f.seq as nat, 4));
    assert(s.subrange(8, 40) =~= f.pub_key);
    assert(s.subrange(40, 44) =~= fixed_be(f.ext1 as nat, 4));
    assert(s.subrange(44, 48) =~= fixed_be(f.ext2 as nat, 4));
    match f.payload {
        Some(p) => {
            lemma_fixed_be(p.len(), 8);
            assert(s.subrange(48, 56) =~= fixed_be(p.len(), 8));
            assert(s.subrange(56, 56 + p.len() as int) =~= p);
        },
        None => {},
    }
}

impl Frame {
    #[verifier::type_invariant]
    spec fn inv(self) -> bool {
        frame_wf(self@)
    }

    /// Reads a frame from the bytes of one frame; `None` when they are too
    /// short, when a field holds a value that no variant has, or when the
    /// announced payload does not fit.
    pub fn new(buff: &[u8]) -> (r: Option<Self>)
        ensures
            match parse_frame(buff@) {
                Some(f) => r matches Some(x) && x@ == f,
                None => r is None,
            },
    {
        // check if reach the minimum size
        if buff.len() < FRAME_MIN_SIZE {
            return None;
        }
        let w = read_be(buff, 0, 4);
        proof {
            crate::rlp::laws::lemma_be_value_bound(buff@.subrange(0, 4));
            assert(crate::rlp::model::pow256(4) == 0x1_0000_0000) by {
                reveal_with_fuel(crate::rlp::model::pow256, 5);
            }
        }
        // prefix check
        if w / 0x2000000 != 0 {
            return None;
        }
        let frame_type = match (w / 0x200000) % 16 {
            0u64 => FrameType::Request,
            1u64 => FrameType::Response,
            2u64 => FrameType::Transmit,
            _ => {
                return None;
            },
        };
        let role = match (w / 0x20000) % 16 {
            0u64 => Role::Producer,
            1u64 => Role::Normal,
            _ => {
                return None;
            },
        };
        let has_rlp_payload = (w / 0x10000) % 2 == 1;
        let task = match (w / 0x200) % 128 {
            0u64 => Task::SyncBlock,
            1u64 => Task::SyncChain,
            2u64 => Task::SyncTransaction,
            3u64 => Task::SyncAccount,
            4u64 => Task::SyncLog,
            _ => {
                return None;
            },
        };
        let code = match w % 512 {
            0u64 => ReponseCode::Success,
            1u64 => ReponseCode::Failure,
            _ => {
                return None;
            },
        };
        let seq = read_be(buff, 4, 4);
        let pub_key: PublicKey = [
            buff[8], buff[9], buff[10], buff[11], buff[12], buff[13], buff[14], buff[15],
            buff[16], buff[17], buff[18], buff[19], buff[20], buff[21], buff[22], buff[23],
            buff[24], buff[25], buff[26], buff[27], buff[28], buff[29], buff[30], buff[31],
            buff[32], buff[33], buff[34], buff[35], buff[36], buff[37], buff[38], buff[39],
        ];
        assert(pub_key@ =~= buff@.subrange(8, 40));
        let ext1 = read_be(buff, 40, 4);
        let ext2 = read_be(buff, 44, 4);
        proof {
            crate::rlp::laws::lemma_be_value_bound(buff@.subrange(4, 8));
            crate::rlp::laws::lemma_be_value_bound(buff@.subrange(40, 44));
            crate::rlp::laws::lemma_be_value_bound(buff@.subrange(44, 48));
        }
        if has_rlp_payload {
            let payload_size = read_be(buff, 48, 8);
            if buff.len() < FRAME_MIN_SIZE + 8 || payload_size > (buff.len() - FRAME_MIN_SIZE - 8) as u64 {
                return None;
            }
            let payload = vstd::slice::slice_to_vec(
                vstd::slice::slice_subrange(buff, 56, 56 + payload_size as usize),
            );
            Some(
                Frame {
                    frame_type: frame_type,
                    task: task,
                    has_rlp_payload: has_rlp_payload,
                    code: code,
                    payload_size: Some(payload_size),
                    pub_key: pub_key,
                    role: role,
                    seq: seq as u32,
                    ext1: ext1 as u32,
                    ext2: ext2 as u32,
                    payload: Some(payload),
                },
            )
        } else {
            Some(
                Frame {
                    frame_type: frame_type,
                    task: task,
                    has_rlp_payload: has_rlp_payload,
                    code: code,
                    payload_size: None,
                    pub_key: pub_key,
                    role: role,
                    seq: seq as u32,
                    ext1: ext1 as u32,
                    ext2: ext2 as u32,
                    payload: None,
                },
            )
        }
    }
}

impl Frame {
    /// The bytes of the frame, as [`frame_bytes`] lays them out.
    #[verifier::rlimit(60)]
    #[verifier::spinoff_prover]
    pub fn serialize_frame(&self) -> (r: Vec<u8>)
        requires
            frame_bytes(self@).len() <= usize::MAX,
        ensures
            r@ == frame_bytes(self@),
    {
        proof {
            use_type_invariant(self);
        }
        let ft: u64 = match self.frame_type {
            FrameType::Request => 0,
            FrameType::Response => 1,
            FrameType::Transmit => 2,
        };
        let ro: u64 = match self.role {
            Role::Producer => 0,
            Role::Normal => 1,
        };
        let hp: u64 = if self.has_rlp_payload { 1 } else { 0 };
        let ta: u64 = match self.task {
            Task::SyncBlock => 0,
            Task::SyncChain => 1,
            Task::SyncTransaction => 2,
            Task::SyncAccount => 3,
            Task::SyncLog => 4,
        };
        let co: u64 = match self.code {
            ReponseCode::Success => 0,
            ReponseCode::Failure => 1,
        };
        let w = ft * 0x200000 + ro * 0x20000 + hp * 0x10000 + ta * 0x200 + co;
        assert(w as nat == header_word(self@));
        let mut out = fixed_be_bytes(w, 4);
        let mut part = fixed_be_bytes(self.seq as u64, 4);
        out.append(&mut part);
        let mut key = vstd::slice::slice_to_vec(self.pub_key.as_slice());
        out.append(&mut key);
        let mut part = fixed_be_bytes(self.ext1 as u64, 4);
        out.append(&mut part);
        let mut part = fixed_be_bytes(self.ext2 as u64, 4);
        out.append(&mut part);
        let ghost fields = out@;
        assert(fields =~= fixed_be(header_word(self@), 4) + fixed_be(self@.seq as nat, 4) + self@.pub_key
            + fixed_be(self@.ext1 as nat, 4) + fixed_be(self@.ext2 as nat, 4));
        let ghost payload_part: Seq<u8> = match self@.payload {
            Some(p) => fixed_be(p.len(), 8) + p,
            None => Seq::empty(),
        };
        match &self.payload {
            Some(p) => {
                let mut size = fixed_be_bytes(p.len() as u64, 8);
                out.append(&mut size);
                let mut body = vstd::slice::slice_to_vec(p.as_slice());
                out.append(&mut body);
            },
            None => {},
        }
        let ghost with_payload = out@;
        assert(with_payload =~= fields + payload_part);
        let mut i: usize = 0;
        while i < FRAME_MIN_SIZE - FRAME_FIELDS_LEN
            invariant
                i <= FRAME_MIN_SIZE - FRAME_FIELDS_LEN,
                out@ =~= with_payload + Seq::new(i as nat, |k: int| 0u8),
                with_payload.len() + FRAME_MIN_SIZE - FRAME_FIELDS_LEN + 4 <= usize::MAX,
            decreases FRAME_MIN_SIZE - FRAME_FIELDS_LEN - i,
        {
            out.push(0u8);
            i = i + 1;
        }
        let ghost padded = out@;
        out.push(0xffu8);
        out.push(0xffu8);
        out.push(0xffu8);
        out.push(0xffu8);
        assert(out@ =~= padded + seq![0xffu8, 0xff, 0xff, 0xff]);
        assert(out@ =~= frame_bytes(self@));
        out
    }
}

/// Why a [`FrameReader`] refused a request.
#[derive(Clone, Copy, Debug, PartialEq, Eq, Structural)]
pub enum FrameError {
    /// The current frame is over the max size and was skipped.
    OverMaxSize,
    /// The bytes of the current frame do not form a frame.
    Malformed,
    /// No complete frame is in the window yet.
    NotReady,
    /// The data would not fit in the window.
    WindowFull,
    /// Fewer bytes are in the window than were asked for.
    DataNotReady,
    /// The bytes to write would not fit in the window.
    Overflow,
}

/// The four stuffing bytes start at `i`.
pub open spec fn is_stuffing_at(s: Seq<u8>, i: int) -> bool {
    &&& s[i] == 0xff
    &&& s[i + 1] == 0xff
    &&& s[i + 2] == 0xff
    &&& s[i + 3] == 0xff
}

/// The end of the first stuffing at or after `i`.
pub open spec fn frame_end_from(s: Seq<u8>, i: nat) -> Option<nat>
    decreases s.len() - i,
{
    if i + 4 > s.len() {
        None
    } else if is_stuffing_at(s, i as int) {
        Some(i + 4)
    } else {
        frame_end_from(s, i + 1)
    }
}

/// A frame end lies within the bytes.
pub proof fn lemma_frame_end_within(s: Seq<u8>, i: nat)
    ensures
        frame_end_from(s, i) matches Some(n) ==> i + 4 <= n <= s.len(),
    decreases s.len() - i,
{
    if i + 4 <= s.len() && !is_stuffing_at(s, i as int) {
        lemma_frame_end_within(s, i + 1);
    }
}

/// The length of the first frame in `s`: up to and including its first
/// stuffing.
pub open spec fn first_frame_end(s: Seq<u8>) -> Option<nat> {
    frame_end_from(s, 0)
}

/// Two places less than a window apart fall on different cells of the ring.
proof fn lemma_mod_distinct(a: int, b: int, w: int)
    requires
        0 <= a < b < a + w,
    ensures
        a % w != b % w,
{
    vstd::arithmetic::div_mod::lemma_fundamental_div_mod(a, w);
    vstd::arithmetic::div_mod::lemma_fundamental_div_mod(b, w);
    assert(a % w != b % w) by (nonlinear_arith)
        requires
            0 <= a < b < a + w,
            a == w * (a / w) + a % w,
            b == w * (b / w) + b % w,
            0 <= a % w < w,
            0 <= b % w < w,
    ;
}

/// A frame written to an empty window is the frame read back from it: when
/// its bytes fit under `FRAME_MAX_SIZE` and hold no stuffing before their
/// last four bytes, the first frame of the window is exactly those bytes,
/// they parse to the frame, and nothing is left after it.
pub proof fn law_frame_window_round_trip(f: FrameView)
    requires
        frame_wf(f),
        frame_bytes(f).len() <= FRAME_MAX_SIZE,
        first_frame_end(frame_bytes(f)) == Some(frame_bytes(f).len()),
    ensures
        ({
            let window = Seq::<u8>::empty() + frame_bytes(f);
            &&& window.len() < WINDOW_SIZE
            &&& first_frame_end(window) == Some(window.len())
            &&& parse_frame(window.take(window.len() as int)) == Some(f)
            &&& window.skip(window.len() as int) == Seq::<u8>::empty()
        }),
{
    let window = Seq::<u8>::empty() + frame_bytes(f);
    assert(window =~= frame_bytes(f));
    assert(window.take(window.len() as int) =~= frame_bytes(f));
    assert(window.skip(window.len() as int) =~= Seq::<u8>::empty());
    law_frame_round_trip(f);
}

/// A window of `WINDOW_SIZE` bytes used as a ring: the bytes of the stream
/// that were appended and not yet read.
pub struct FrameReader {
    cache: Vec<u8>,
    r_pos: usize,
    w_pos: usize,
}

impl View for FrameReader {
    type V = Seq<u8>;

    closed spec fn view(&self) -> Seq<u8> {
        Seq::new(self.spec_data_len(), |i: int| self.cache@[(self.r_pos + i) % (WINDOW_SIZE as int)])
    }
}

impl FrameReader {
    /// The window has its full size and both cursors lie in it.
    pub closed spec fn wf(self) -> bool {
        &&& self.cache@.len() == WINDOW_SIZE
        &&& self.r_pos < WINDOW_SIZE
        &&& self.w_pos < WINDOW_SIZE
    }

    spec fn spec_data_len(self) -> nat {
        if self.w_pos >= self.r_pos {
            (self.w_pos - self.r_pos) as nat
        } else {
            (self.w_pos + WINDOW_SIZE - self.r_pos) as nat
        }
    }

    /// An empty window.
    pub fn new() -> (r: Self)
        ensures
            r@ == Seq::<u8>::empty(),
            r.wf(),
    {
        let r = FrameReader { cache: vec![0u8; WINDOW_SIZE], r_pos: 0, w_pos: 0 };
        assert(r@ =~= Seq::<u8>::empty());
        r
    }

    /// Drops every byte in the window.
    pub fn flush(&mut self)
        requires
            old(self).wf(),
        ensures
            final(self)@ == Seq::<u8>::empty(),
            final(self).wf(),
    {
        self.w_pos = 0;
        self.r_pos = 0;
        assert(self@ =~= Seq::<u8>::empty());
    }

    /// The number of bytes in the window.
    fn data_len(&self) -> (r: usize)
        requires
            self.wf(),
        ensures
            r == self@.len(),
            r < WINDOW_SIZE,
    {
        if self.w_pos >= self.r_pos {
            self.w_pos - self.r_pos
        } else {
            self.w_pos + WINDOW_SIZE - self.r_pos
        }
    }

    /// Appends the bytes at the end of the window, unless the window would
    /// then be full.
    fn write_cache(&mut self, buffer: &[u8]) -> (r: Result<usize, FrameError>)
        requires
            old(self).wf(),
        ensures
            final(self).wf(),
            if buffer@.len() + old(self)@.len() >= WINDOW_SIZE {
                r == Err::<usize, FrameError>(FrameError::Overflow) && final(self)@ == old(self)@
            } else {
                r == Ok::<usize, FrameError>(buffer@.len() as usize) && final(self)@ == old(self)@ + buffer@
            },
    {
        let len = self.data_len();
        if buffer.len() >= WINDOW_SIZE - len {
            return Err(FrameError::Overflow);
        }
        let n = buffer.len();
        let ghost w = WINDOW_SIZE as int;
        let ghost old_cache = self.cache@;
        let ghost r0 = self.r_pos as int;
        assert(self.w_pos as int == (r0 + len) % w);
        let mut i: usize = 0;
        while i < n
            invariant
                self.cache@.len() == WINDOW_SIZE,
                self.r_pos < WINDOW_SIZE,
                self.w_pos < WINDOW_SIZE,
                self.r_pos as int == r0,
                w == WINDOW_SIZE as int,
                self.w_pos as int == (r0 + len) % w,
                n == buffer@.len(),
                len + n < WINDOW_SIZE,
                i <= n,
                forall|k: int| 0 <= k < len ==> #[trigger] self.cache@[(r0 + k) % w] == old_cache[(r0 + k) % w],
                forall|j: int| 0 <= j < i ==> #[trigger] self.cache@[(r0 + len + j) % w] == buffer@[j],
            decreases n - i,
        {
            let idx = (self.w_pos + i) % WINDOW_SIZE;
            proof {
                vstd::arithmetic::div_mod::lemma_add_mod_noop(r0 + len, i as int, w);
                vstd::arithmetic::div_mod::lemma_small_mod(i as nat, w as nat);
                vstd::arithmetic::div_mod::lemma_mod_twice(r0 + len, w);
                vstd::arithmetic::div_mod::lemma_add_mod_noop(self.w_pos as int, i as int, w);
            }
            assert(idx as int == (r0 + len + i) % w);
            let ghost prev = self.cache@;
            self.cache.set(idx, buffer[i]);
            proof {
                assert forall|k: int| 0 <= k < len implies #[trigger] self.cache@[(r0 + k) % w]
                    == old_cache[(r0 + k) % w] by {
                    lemma_mod_distinct(r0 + k, r0 + len + i, w);
                    assert(prev[(r0 + k) % w] == old_cache[(r0 + k) % w]);
                }
                assert forall|j: int| 0 <= j < i + 1 implies #[trigger] self.cache@[(r0 + len + j) % w]
                    == buffer@[j] by {
                    if j < i {
                        lemma_mod_distinct(r0 + len + j, r0 + len + i, w);
                        assert(prev[(r0 + len + j) % w] == buffer@[j]);
                    }
                }
            }
            i = i + 1;
        }
        self.w_pos = (self.w_pos + n) % WINDOW_SIZE;
        proof {
            assert((self.w_pos as int) == (r0 + len + n) % w);
            assert(self.spec_data_len() == len + n) by {
                assert(0 <= r0 < w);
            }
            assert forall|k: int| 0 <= k < len + n implies #[trigger] self@[k] == (old(self)@ + buffer@)[k] by {
                if k < len {
                    assert(self.cache@[(r0 + k) % w] == old_cache[(r0 + k) % w]);
                } else {
                    let j = k - len;
                    assert(self.cache@[(r0 + len + j) % w] == buffer@[j]);
                }
            }
            assert(self@ =~= old(self)@ + buffer@);
        }
        Ok(n)
    }

    /// Moves the first `buffer.len()` bytes of the window into `buffer`,
    /// unless fewer are in the window.
    fn read_cache(&mut self, buffer: &mut Vec<u8>) -> (r: Result<usize, FrameError>)
        requires
            old(self).wf(),
        ensures
            final(self).wf(),
            final(buffer)@.len() == old(buffer)@.len(),
            if old(buffer)@.len() > old(self)@.len() {
                r == Err::<usize, FrameError>(FrameError::DataNotReady) && final(self)@ == old(self)@
                    && final(buffer)@ == old(buffer)@
            } else {
                r == Ok::<usize, FrameError>(old(buffer)@.len() as usize)
                    && final(buffer)@ == old(self)@.take(old(buffer)@.len() as int)
                    && final(self)@ == old(self)@.skip(old(buffer)@.len() as int)
            },
    {
        let len = self.data_len();
        let n = buffer.len();
        if n > len {
            return Err(FrameError::DataNotReady);
        }
        let ghost w = WINDOW_SIZE as int;
        let ghost r0 = self.r_pos as int;
        let mut i: usize = 0;
        while i < n
            invariant
                self.cache@.len() == WINDOW_SIZE,
                self.r_pos as int == r0,
                self.r_pos < WINDOW_SIZE,
                w == WINDOW_SIZE as int,
                0 <= r0 < w,
                n <= len < WINDOW_SIZE,
                n == buffer@.len(),
                self.spec_data_len() == len,
                i <= n,
                forall|j: int| 0 <= j < i ==> #[trigger] buffer@[j] == self.cache@[(r0 + j) % w],
            decreases n - i,
        {
            let idx = (self.r_pos + i) % WINDOW_SIZE;
            let b = self.cache[idx];
            buffer.set(i, b);
            i = i + 1;
        }
        let ghost before = self@;
        assert(buffer@ =~= before.take(n as int));
        self.r_pos = (self.r_pos + n) % WINDOW_SIZE;
        proof {
            assert(self.spec_data_len() == len - n) by {
                assert(0 <= r0 < w);
            }
            assert forall|k: int| 0 <= k < len - n implies #[trigger] self@[k] == before.skip(n as int)[k] by {
                assert((self.r_pos + k) % w == (r0 + (n + k)) % w);
            }
            assert(self@ =~= before.skip(n as int));
        }
        Ok(n)
    }

    /// The length of the first frame in the window: up to and including its
    /// first stuffing.
    fn find_cur_frame_len(&self) -> (r: Option<usize>)
        requires
            self.wf(),
        ensures
            match first_frame_end(self@) {
                Some(n) => r == Some(n as usize),
                None => r is None,
            },
    {
        let len = self.data_len();
        if len < 4 {
            return None;
        }
        let ghost s = self@;
        let mut i: usize = 0;
        while i + 4 <= len
            invariant
                s == self@,
                s.len() == len,
                len < WINDOW_SIZE,
                self.cache@.len() == WINDOW_SIZE,
                self.r_pos < WINDOW_SIZE,
                i + 4 <= len + 4,
                first_frame_end(s) == frame_end_from(s, i as nat),
            decreases len - i,
        {
            let p = self.r_pos;
            if self.cache[(p + i) % WINDOW_SIZE] == 0xffu8
                && self.cache[(p + i + 1) % WINDOW_SIZE] == 0xffu8
                && self.cache[(p + i + 2) % WINDOW_SIZE] == 0xffu8
                && self.cache[(p + i + 3) % WINDOW_SIZE] == 0xffu8 {
                return Some(i + 4);
            }
            i = i + 1;
        }
        None
    }

    /// Takes the first frame out of the window.  A frame over
    /// `FRAME_MAX_SIZE` is dropped from the window and refused; a frame
    /// whose bytes do not parse is taken out and refused.
    pub fn read_one_frame(&mut self) -> (r: Result<Frame, FrameError>)
        requires
            old(self).wf(),
        ensures
            final(self).wf(),
            match first_frame_end(old(self)@) {
                None => r == Err::<Frame, FrameError>(FrameError::NotReady) && final(self)@ == old(self)@,
                Some(n) => final(self)@ == old(self)@.skip(n as int) && if n > FRAME_MAX_SIZE {
                    r == Err::<Frame, FrameError>(FrameError::OverMaxSize)
                } else {
                    match parse_frame(old(self)@.take(n as int)) {
                        Some(f) => r matches Ok(x) && x@ == f,
                        None => r == Err::<Frame, FrameError>(FrameError::Malformed),
                    }
                },
            },
    {
        match self.find_cur_frame_len() {
            Some(offset) => {
                proof {
                    lemma_frame_end_within(self@, 0);
                }
                if offset > FRAME_MAX_SIZE {
                    let ghost before = self@;
                    let ghost r0 = self.r_pos as int;
                    self.r_pos = (self.r_pos + offset) % WINDOW_SIZE;
                    proof {
                        let ghost w = WINDOW_SIZE as int;
                        assert(offset <= before.len());
                        assert(self.spec_data_len() == before.len() - offset) by {
                            assert(0 <= r0 < w);
                        }
                        assert forall|k: int| 0 <= k < before.len() - offset implies #[trigger] self@[k]
                            == before.skip(offset as int)[k] by {
                            assert((self.r_pos + k) % w == (r0 + (offset + k)) % w);
                        }
                        assert(self@ =~= before.skip(offset as int));
                    }
                    Err(FrameError::OverMaxSize)
                } else {
                    let mut frame_buff: Vec<u8> = vec![0u8; offset];
                    let _ = self.read_cache(&mut frame_buff);
                    match Frame::new(frame_buff.as_slice()) {
                        Some(f) => Ok(f),
                        None => Err(FrameError::Malformed),
                    }
                }
            },
            None => Err(FrameError::NotReady),
        }
    }

    /// Appends the bytes of a frame to the window.
    pub fn write_one_frame(&mut self, frame: &Frame) -> (r: Result<usize, FrameError>)
        requires
            old(self).wf(),
            frame_bytes(frame@).len() <= usize::MAX,
        ensures
            final(self).wf(),
            if frame_bytes(frame@).len() + old(self)@.len() >= WINDOW_SIZE {
                r == Err::<usize, FrameError>(FrameError::WindowFull) && final(self)@ == old(self)@
            } else if frame_bytes(frame@).len() > FRAME_MAX_SIZE {
                r == Err::<usize, FrameError>(FrameError::OverMaxSize) && final(self)@ == old(self)@
            } else {
                r == Ok::<usize, FrameError>(frame_bytes(frame@).len() as usize)
                    && final(self)@ == old(self)@ + frame_bytes(frame@)
            },
    {
        let frame_buff = frame.serialize_frame();
        let frame_len = frame_buff.len();
        if frame_len >= WINDOW_SIZE - self.data_len() {
            Err(FrameError::WindowFull)
        } else if frame_len > FRAME_MAX_SIZE {
            Err(FrameError::OverMaxSize)
        } else {
            self.write_cache(frame_buff.as_slice())
        }
    }

    /// Appends bytes of the stream to the window.
    pub fn append_data(&mut self, data: &Vec<u8>) -> (r: Result<usize, FrameError>)
        requires
            old(self).wf(),
        ensures
            final(self).wf(),
            if data@.len() + old(self)@.len() >= WINDOW_SIZE {
                r == Err::<usize, FrameError>(FrameError::WindowFull) && final(self)@ == old(self)@
            } else {
                r == Ok::<usize, FrameError>(data@.len() as usize) && final(self)@ == old(self)@ + data@
            },
    {
        if data.len() >= WINDOW_SIZE - self.data_len() {
            Err(FrameError::WindowFull)
        } else {
            self.write_cache(data.as_slice())
        }
    }
}

} // verus!
