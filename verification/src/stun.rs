//! Definitions of the STUN protocol (RFC 5389) used to learn the public
//! address of the node, and the protocols offered for that.
use vstd::prelude::*;
use bytebuffer::ByteBuffer;
use crate::byte_buffer::{byte_buffer_data, byte_buffer_new, byte_buffer_resize};

verus! {

pub const STUN_IN_BUFFER_SIZE: usize = 1048576;

pub const STUN_OUT_BUFFER_SIZE: usize = 1048576;

/// The buffers of a STUN exchange: what comes in, and what goes out.
pub struct STUNManager {
    in_buffer: ByteBuffer,
    out_buffer: ByteBuffer,
}

impl STUNManager {
    /// The bytes of the incoming buffer.
    pub closed spec fn in_data(&self) -> Seq<u8> {
        byte_buffer_data(self.in_buffer)
    }

    /// The bytes of the outgoing buffer.
    pub closed spec fn out_data(&self) -> Seq<u8> {
        byte_buffer_data(self.out_buffer)
    }

    /// Both buffers, sized and filled with zeros.
    pub fn new() -> (r: Self)
        ensures
            r.in_data() == Seq::new(STUN_IN_BUFFER_SIZE as nat, |i: int| 0u8),
            r.out_data() == Seq::new(STUN_OUT_BUFFER_SIZE as nat, |i: int| 0u8),
    {
        let mut in_buffer = byte_buffer_new();
        byte_buffer_resize(&mut in_buffer, STUN_IN_BUFFER_SIZE);
        let mut out_buffer = byte_buffer_new();
        byte_buffer_resize(&mut out_buffer, STUN_OUT_BUFFER_SIZE);
        let r = STUNManager { in_buffer: in_buffer, out_buffer: out_buffer };
        assert(r.in_data() =~= Seq::new(STUN_IN_BUFFER_SIZE as nat, |i: int| 0u8));
        assert(r.out_data() =~= Seq::new(STUN_OUT_BUFFER_SIZE as nat, |i: int| 0u8));
        r
    }
}

/// The bits of a message type that give its class.
pub const STUN_CLASS_MASK: u16 = 0x0110;

/// An IP socket address, as the library holds it: whether the address is
/// an IPv6 one, the bits of the address (an IPv4 address in the low 32
/// bits), and the port.
#[derive(Clone, Copy, Debug, PartialEq, Eq, Structural)]
pub struct PeerAddr {
    pub v6: bool,
    pub ip: u128,
    pub port: u16,
}

impl PeerAddr {
    /// The two addresses have the same IP, whatever their ports.
    pub fn same_ip(&self, other: &PeerAddr) -> (r: bool)
        ensures
            r == (self.v6 == other.v6 && self.ip == other.ip),
    {
        self.v6 == other.v6 && self.ip == other.ip
    }
}

/// A socket address with a second port.
pub type SocketInfo = (PeerAddr, u16);

/// The ways to learn the public address of the node.
#[derive(Clone, Copy, Debug, PartialEq, Eq, Structural)]
pub enum Protocol {
    UPNP,
    STUN,
}

/// STUN Message Type
/// <https://www.3cx.com/blog/voip-howto/stun-details/>
///
/// * 0x0001 : Binding Request
/// * 0x0101 : Binding Response
/// * 0x0111 : Binding Error Response
/// * 0x0002 : Shared Secret Request
/// * 0x0102 : Shared Secret Response
/// * 0x0112 : Shared Secret Error Response
#[derive(Clone, Copy, Debug, PartialEq, Eq, Structural)]
pub enum STUNMessageType {
    BindingRequest,
    BindingResponse,
    BindingErrorResponse,
    SharedSecretRequest,
    SharedSecretResponse,
    SharedSecretErrorResponse,
}

/// The class of a STUN message, given by the bits under
/// `STUN_CLASS_MASK` of its type.
#[derive(Clone, Copy, Debug, PartialEq, Eq, Structural)]
pub enum STUNClassType {
    Request,
    Indication,
    SuccessResp,
    ErrResponse,
}

/// The number that stands for each message type.
pub open spec fn stun_raw_value(t: STUNMessageType) -> u16 {
    match t {
        STUNMessageType::BindingRequest => 0x0001,
        STUNMessageType::BindingResponse => 0x0101,
        STUNMessageType::BindingErrorResponse => 0x0111,
        STUNMessageType::SharedSecretRequest => 0x0002,
        STUNMessageType::SharedSecretResponse => 0x0102,
        STUNMessageType::SharedSecretErrorResponse => 0x0112,
    }
}

/// The message type that a number stands for, if any.
pub open spec fn stun_type_of(v: u16) -> Option<STUNMessageType> {
    if v == 0x0001 {
        Some(STUNMessageType::BindingRequest)
    } else if v == 0x0101 {
        Some(STUNMessageType::BindingResponse)
    } else if v == 0x0111 {
        Some(STUNMessageType::BindingErrorResponse)
    } else if v == 0x0002 {
        Some(STUNMessageType::SharedSecretRequest)
    } else if v == 0x0102 {
        Some(STUNMessageType::SharedSecretResponse)
    } else if v == 0x0112 {
        Some(STUNMessageType::SharedSecretErrorResponse)
    } else {
        None
    }
}

/// The class that the class bits of a type give.
pub open spec fn stun_class_of(bits: u16) -> STUNClassType {
    if bits == 0x0000 {
        STUNClassType::Request
    } else if bits == 0x0010 {
        STUNClassType::Indication
    } else if bits == 0x0100 {
        STUNClassType::SuccessResp
    } else {
        STUNClassType::ErrResponse
    }
}

/// The first two bytes of a STUN datagram hold two zero bits and the
/// fourteen bits of the message type.
pub open spec fn stun_type_bytes(t: STUNMessageType) -> Seq<u8> {
    seq![(stun_raw_value(t) / 256) as u8, (stun_raw_value(t) % 256) as u8]
}

/// STUN datagram
///
/// ```text
/// 0                   1                   2                   3
/// 0 1 2 3 4 5 6 7 8 9 0 1 2 3 4 5 6 7 8 9 0 1 2 3 4 5 6 7 8 9 0 1
/// +-+-+-+-+-+-+-+-+-+-+-+-+-+-+-+-+-+-+-+-+-+-+-+-+-+-+-+-+-+-+-+-+
/// |0 0|     STUN Message Type     |         Message Length        |
/// +-+-+-+-+-+-+-+-+-+-+-+-+-+-+-+-+-+-+-+-+-+-+-+-+-+-+-+-+-+-+-+-+
/// |                         Magic Cookie                          |
/// +-+-+-+-+-+-+-+-+-+-+-+-+-+-+-+-+-+-+-+-+-+-+-+-+-+-+-+-+-+-+-+-+
/// |                                                               |
/// |                     Transaction ID (96 bits)                  |
/// |                                                               |
/// +-+-+-+-+-+-+-+-+-+-+-+-+-+-+-+-+-+-+-+-+-+-+-+-+-+-+-+-+-+-+-+-+
/// ```
pub struct STUNHeader {
    msg_type: STUNMessageType,
    msg_len: u16,
    magic_cookie: u32,
    tx_id: [u32; 3],
}

impl STUNMessageType {
    /// The number that stands for the message type.
    pub fn raw_value(&self) -> (r: u16)
        ensures
            r == stun_raw_value(*self),
    {
        match self {
            STUNMessageType::BindingRequest => 0x0001u16,
            STUNMessageType::BindingResponse => 0x0101u16,
            STUNMessageType::BindingErrorResponse => 0x0111u16,
            STUNMessageType::SharedSecretRequest => 0x0002u16,
            STUNMessageType::SharedSecretResponse => 0x0102u16,
            STUNMessageType::SharedSecretErrorResponse => 0x0112u16,
        }
    }

    /// The class of the message: the bits of its type under
    /// `STUN_CLASS_MASK`.
    pub fn msg_class(&self) -> (r: STUNClassType)
        ensures
            r == stun_class_of(stun_raw_value(*self) & STUN_CLASS_MASK),
    {
        let bits = self.raw_value() & STUN_CLASS_MASK;
        proof {
            assert(0x0001u16 & 0x0110u16 == 0x0000u16) by (bit_vector);
            assert(0x0002u16 & 0x0110u16 == 0x0000u16) by (bit_vector);
            assert(0x0101u16 & 0x0110u16 == 0x0100u16) by (bit_vector);
            assert(0x0102u16 & 0x0110u16 == 0x0100u16) by (bit_vector);
            assert(0x0111u16 & 0x0110u16 == 0x0110u16) by (bit_vector);
            assert(0x0112u16 & 0x0110u16 == 0x0110u16) by (bit_vector);
        }
        if bits == 0x0000u16 {
            STUNClassType::Request
        } else if bits == 0x0010u16 {
            STUNClassType::Indication
        } else if bits == 0x0100u16 {
            STUNClassType::SuccessResp
        } else {
            STUNClassType::ErrResponse
        }
    }

    /// Appends the two bytes of the type: two zero bits, then its fourteen
    /// bits.
    pub fn write_msg_type(&self, out: &mut Vec<u8>)
        ensures
            final(out)@ == old(out)@ + stun_type_bytes(*self),
    {
        let v = self.raw_value();
        out.push((v / 256) as u8);
        out.push((v % 256) as u8);
        assert(final(out)@ =~= old(out)@ + stun_type_bytes(*self));
    }

    /// Reads a message type from the first two bytes of a datagram.  The two
    /// leading bits are skipped; the other fourteen must stand for a type.
    pub fn read_msg_type(input: &[u8]) -> (r: Self)
        requires
            input@.len() >= 2,
            stun_type_of(((input@[0] as int % 64) * 256 + input@[1]) as u16) is Some,
        ensures
            Some(r) == stun_type_of(((input@[0] as int % 64) * 256 + input@[1]) as u16),
    {
        let v: u16 = ((input[0] % 64) as u16) * 256 + input[1] as u16;
        if v == 0x0001 {
            STUNMessageType::BindingRequest
        } else if v == 0x0101 {
            STUNMessageType::BindingResponse
        } else if v == 0x0111 {
            STUNMessageType::BindingErrorResponse
        } else if v == 0x0002 {
            STUNMessageType::SharedSecretRequest
        } else if v == 0x0102 {
            STUNMessageType::SharedSecretResponse
        } else {
            STUNMessageType::SharedSecretErrorResponse
        }
    }
}

/// What the type bytes of a message are read as is the message type.
pub proof fn law_stun_type_round_trip(t: STUNMessageType)
    ensures
        ({
            let b = stun_type_bytes(t);
            stun_type_of(((b[0] as int % 64) * 256 + b[1]) as u16) == Some(t)
        }),
{
}

} // verus!
