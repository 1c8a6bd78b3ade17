//! Socket message components: an event name, a list of typed arguments and
//! a payload of bytes.
use vstd::prelude::*;
use vstd::utf8::encode_utf8;
use crate::address::Address;
use crate::hash::{HashView, HASH_LEN};
use crate::time::{timestamp_age_seconds, utc_timestamp_parses};

verus! {

pub const EXCEPTION_STR: &'static str = "EXCEPTION";

pub const HEARTBEAT_STR: &'static str = "HEARTBEAT";

pub const DISCOVERY_STR: &'static str = "DISCOVERY";

pub const PEER_INFO_STR: &'static str = "PEER_INFO";

/// An argument of a socket message.
#[derive(Debug)]
pub enum SocketMessageArg {
    Int { value: i64 },
    String { value: String },
    Account { value: String },
    Hash { value: crate::hash::Hash },
    Vesion { value: String },
    Timestamp { value: String },
    Unknown,
}

/// The value of a [`SocketMessageArg`].
pub enum ArgView {
    Int(i64),
    Str(Seq<char>),
    Account(Seq<char>),
    Hash(HashView),
    Version(Seq<char>),
    Timestamp(Seq<char>),
    Unknown,
}

impl View for SocketMessageArg {
    type V = ArgView;

    open spec fn view(&self) -> ArgView {
        match self {
            SocketMessageArg::Int { value } => ArgView::Int(*value),
            SocketMessageArg::String { value } => ArgView::Str(value@),
            SocketMessageArg::Account { value } => ArgView::Account(value@),
            SocketMessageArg::Hash { value } => ArgView::Hash(value@),
            SocketMessageArg::Vesion { value } => ArgView::Version(value@),
            SocketMessageArg::Timestamp { value } => ArgView::Timestamp(value@),
            SocketMessageArg::Unknown => ArgView::Unknown,
        }
    }
}

impl Clone for SocketMessageArg {
    fn clone(&self) -> (r: Self)
        ensures
            r@ == self@,
    {
        match self {
            SocketMessageArg::Int { value } => SocketMessageArg::Int { value: *value },
            SocketMessageArg::String { value } => SocketMessageArg::String { value: value.clone() },
            SocketMessageArg::Account { value } => SocketMessageArg::Account { value: value.clone() },
            SocketMessageArg::Hash { value } => SocketMessageArg::Hash { value: value.clone() },
            SocketMessageArg::Vesion { value } => SocketMessageArg::Vesion { value: value.clone() },
            SocketMessageArg::Timestamp { value } => SocketMessageArg::Timestamp { value: value.clone() },
            SocketMessageArg::Unknown => SocketMessageArg::Unknown,
        }
    }
}

impl From<Address> for SocketMessageArg {
    fn from(account: Address) -> (r: Self) {
        SocketMessageArg::Account { value: account.text }
    }
}

impl vstd::std_specs::convert::FromSpecImpl<Address> for SocketMessageArg {
    open spec fn obeys_from_spec() -> bool {
        true
    }

    open spec fn from_spec(account: Address) -> SocketMessageArg {
        SocketMessageArg::Account { value: account.text }
    }
}

/// The views of the arguments, in order.
pub open spec fn arg_views(args: Seq<SocketMessageArg>) -> Seq<ArgView> {
    Seq::new(args.len(), |i: int| args[i]@)
}

/// The value of a [`SocketMessage`].
pub struct MessageView {
    pub event: Seq<char>,
    pub args: Seq<ArgView>,
    pub payload: Seq<u8>,
}

/// Socket message.
#[derive(Debug)]
pub struct SocketMessage {
    /// Event name
    event: String,
    /// Argument list
    arg: Vec<SocketMessageArg>,
    /// External data payload
    payload: Vec<u8>,
}

impl View for SocketMessage {
    type V = MessageView;

    closed spec fn view(&self) -> MessageView {
        MessageView { event: self.event@, args: arg_views(self.arg@), payload: self.payload@ }
    }
}

/// A copy of the arguments.
fn clone_args(args: &Vec<SocketMessageArg>) -> (r: Vec<SocketMessageArg>)
    ensures
        arg_views(r@) == arg_views(args@),
{
    let mut out: Vec<SocketMessageArg> = Vec::new();
    let mut i: usize = 0;
    while i < args.len()
        invariant
            i <= args@.len(),
            out@.len() == i,
            forall|k: int| 0 <= k < i ==> #[trigger] out@[k]@ == args@[k]@,
        decreases args@.len() - i,
    {
        out.push(args[i].clone());
        i = i + 1;
    }
    assert(arg_views(out@) =~= arg_views(args@));
    out
}

impl Clone for SocketMessage {
    fn clone(&self) -> (r: Self)
        ensures
            r@ == self@,
    {
        SocketMessage {
            event: self.event.clone(),
            arg: clone_args(&self.arg),
            payload: vstd::slice::slice_to_vec(self.payload.as_slice()),
        }
    }
}

impl std::ops::Shl<SocketMessageArg> for SocketMessage {
    type Output = Self;

    /// Appends an argument.
    fn shl(self, arg: SocketMessageArg) -> (r: SocketMessage)
        ensures
            r@.event == self@.event,
            r@.args == self@.args.push(arg@),
            r@.payload == self@.payload,
    {
        let mut new_self = self;
        let ghost before = new_self.arg@;
        new_self.arg.push(arg);
        assert(arg_views(new_self.arg@) =~= arg_views(before).push(arg@));
        new_self
    }
}

impl vstd::std_specs::ops::ShlSpecImpl<SocketMessageArg> for SocketMessage {
    open spec fn obeys_shl_spec() -> bool {
        false
    }

    open spec fn shl_req(self, arg: SocketMessageArg) -> bool {
        true
    }

    open spec fn shl_spec(self, arg: SocketMessageArg) -> SocketMessage {
        self
    }
}

impl SocketMessage {
    pub fn new(event: String, arg: Vec<SocketMessageArg>, payload: Vec<u8>) -> (r: Self)
        ensures
            r@ == (MessageView { event: event@, args: arg_views(arg@), payload: payload@ }),
    {
        SocketMessage { event: event, arg: arg, payload: payload }
    }

    pub fn clone_payload(&self) -> (r: Vec<u8>)
        ensures
            r@ == self@.payload,
    {
        vstd::slice::slice_to_vec(self.payload.as_slice())
    }

    /// Set message event name.
    pub fn set_event(&mut self, event: String)
        ensures
            final(self)@ == (MessageView { event: event@, ..old(self)@ }),
    {
        self.event = event;
    }

    /// The number of arguments.
    pub fn arg_len(&self) -> (r: usize)
        ensures
            r == self@.args.len(),
    {
        self.arg.len()
    }

    /// Fetch integer argument with the index.
    /// Return `None` if type dismatch.
    pub fn int_at(&self, index: usize) -> (r: Option<i64>)
        requires
            index < self@.args.len(),
        ensures
            match self@.args[index as int] {
                ArgView::Int(v) => r == Some(v),
                _ => r is None,
            },
    {
        match &self.arg[index] {
            SocketMessageArg::Int { value } => Some(*value),
            _ => None,
        }
    }

    /// Fetch string argument with the index.
    /// Return `None` if type dismatch.
    pub fn string_at(&self, index: usize) -> (r: Option<String>)
        requires
            index < self@.args.len(),
        ensures
            match self@.args[index as int] {
                ArgView::Str(v) => r matches Some(s) && s@ == v,
                _ => r is None,
            },
    {
        match &self.arg[index] {
            SocketMessageArg::String { value } => Some(value.clone()),
            _ => None,
        }
    }

    /// Fetch account address argument with the index: its text has
    /// `HASH_LEN` bytes.
    /// Return `None` if type dismatch.
    pub fn account_at(&self, index: usize) -> (r: Option<Address>)
        requires
            index < self@.args.len(),
        ensures
            match self@.args[index as int] {
                ArgView::Account(v) => if encode_utf8(v).len() == HASH_LEN {
                    r matches Some(a) && a.text@ == v
                } else {
                    r is None
                },
                _ => r is None,
            },
    {
        match &self.arg[index] {
            SocketMessageArg::Account { value } => {
                if value.as_str().as_bytes().len() == HASH_LEN {
                    Some(Address { text: value.clone() })
                } else {
                    None
                }
            },
            _ => None,
        }
    }

    /// Fetch sha256 hash argument with the index.
    /// Return `None` if type dismatch.
    pub fn hash_at(&self, index: usize) -> (r: Option<crate::hash::Hash>)
        requires
            index < self@.args.len(),
        ensures
            match self@.args[index as int] {
                ArgView::Hash(h) => r matches Some(x) && x@ == h,
                _ => r is None,
            },
    {
        match &self.arg[index] {
            SocketMessageArg::Hash { value } => Some(value.clone()),
            _ => None,
        }
    }

    /// Fetch `Version` argument with the index.
    /// Return `None` if type dismatch.
    pub fn version_at(&self, index: usize) -> (r: Option<String>)
        requires
            index < self@.args.len(),
        ensures
            match self@.args[index as int] {
                ArgView::Version(v) => r matches Some(s) && s@ == v,
                _ => r is None,
            },
    {
        match &self.arg[index] {
            SocketMessageArg::Vesion { value } => Some(value.clone()),
            _ => None,
        }
    }

    /// Fetch the text of a timestamp argument with the index.
    /// Return `None` if type dismatch.
    pub fn timestamp_text_at(&self, index: usize) -> (r: Option<String>)
        requires
            index < self@.args.len(),
        ensures
            match self@.args[index as int] {
                ArgView::Timestamp(v) => r matches Some(s) && s@ == v,
                _ => r is None,
            },
    {
        match &self.arg[index] {
            SocketMessageArg::Timestamp { value } => Some(value.clone()),
            _ => None,
        }
    }

    /// The age in seconds of the timestamp argument with the index, read
    /// against the clock.
    /// Return `None` if type dismatch or if the text is not a timestamp.
    pub fn timestamp_age_at(&self, index: usize) -> (r: Option<i64>)
        requires
            index < self@.args.len(),
        ensures
            r is Some <==> (self@.args[index as int] matches ArgView::Timestamp(v)
                && utc_timestamp_parses(v)),
    {
        match &self.arg[index] {
            SocketMessageArg::Timestamp { value } => timestamp_age_seconds(value.as_str()),
            _ => None,
        }
    }

    /// Return socket message event name
    pub fn event(&self) -> (r: String)
        ensures
            r@ == self@.event,
    {
        self.event.clone()
    }

    /// Return list of `SocketMessageArg`
    pub fn args(&self) -> (r: Vec<SocketMessageArg>)
        ensures
            arg_views(r@) == self@.args,
    {
        clone_args(&self.arg)
    }

    /// The value of a heartbeat message.
    pub open spec fn heartbeat_view() -> MessageView {
        MessageView { event: HEARTBEAT_STR@, args: Seq::empty(), payload: Seq::empty() }
    }

    /// Build a heartbeat message.
    pub fn heartbeat() -> (r: Self)
        ensures
            r@ == Self::heartbeat_view(),
    {
        let r = SocketMessage { event: String::from_str(HEARTBEAT_STR), arg: Vec::new(), payload: Vec::new() };
        assert(arg_views(r.arg@) =~= Seq::<ArgView>::empty());
        r
    }

    /// Detect if the message is a heartbeat
    pub fn is_heartbeat(&self) -> (r: bool)
        ensures
            r == (self@.event == HEARTBEAT_STR@),
    {
        self.event == String::from_str(HEARTBEAT_STR)
    }

    /// Build a exception message.
    pub fn exception(reason: &str) -> (r: Self)
        ensures
            r@ == (MessageView {
                event: EXCEPTION_STR@,
                args: seq![ArgView::Str(reason@)],
                payload: Seq::empty(),
            }),
    {
        let mut arg: Vec<SocketMessageArg> = Vec::new();
        arg.push(SocketMessageArg::String { value: String::from_str(reason) });
        let r = SocketMessage { event: String::from_str(EXCEPTION_STR), arg: arg, payload: Vec::new() };
        assert(arg_views(r.arg@) =~= seq![ArgView::Str(reason@)]);
        r
    }

    /// Detect if the message is exception
    pub fn is_exception(&self) -> (r: bool)
        ensures
            r == (self@.event == EXCEPTION_STR@),
    {
        self.event == String::from_str(EXCEPTION_STR)
    }

    /// The reason of an exception message: its first argument, when it is a
    /// string.
    pub fn exception_msg(&self) -> (r: Option<String>)
        requires
            self@.args.len() > 0,
        ensures
            match self@.args[0] {
                ArgView::Str(v) => r matches Some(s) && s@ == v,
                _ => r is None,
            },
    {
        self.string_at(0)
    }

    /// Build a discovery message
    pub fn discovery() -> (r: Self)
        ensures
            r@ == (MessageView { event: DISCOVERY_STR@, args: Seq::empty(), payload: Seq::empty() }),
    {
        let r = SocketMessage { event: String::from_str(DISCOVERY_STR), arg: Vec::new(), payload: Vec::new() };
        assert(arg_views(r.arg@) =~= Seq::<ArgView>::empty());
        r
    }

    /// Detect if the message is discovery
    pub fn is_discovery(&self) -> (r: bool)
        ensures
            r == (self@.event == DISCOVERY_STR@),
    {
        self.event == String::from_str(DISCOVERY_STR)
    }

    /// Detect if the message carries peer addresses
    pub fn is_peer_info(&self) -> (r: bool)
        ensures
            r == (self@.event == PEER_INFO_STR@),
    {
        self.event == String::from_str(PEER_INFO_STR)
    }

    /// Build a peer info message around the serialized addresses.
    pub fn peer_info_with(payload: Vec<u8>) -> (r: Self)
        ensures
            r@ == (MessageView { event: PEER_INFO_STR@, args: Seq::empty(), payload: payload@ }),
    {
        let r = SocketMessage { event: String::from_str(PEER_INFO_STR), arg: Vec::new(), payload: payload };
        assert(arg_views(r.arg@) =~= Seq::<ArgView>::empty());
        r
    }
}

} // verus!
