//! A peer of the node: its address, its account when known, the credit it
//! has left and the session with it.
use vstd::prelude::*;
use crate::address::Address;
use crate::protocol::{account_view, table_view, PeerTable};
use crate::message::SocketMessage;
use crate::protocol::{age_of_timestamp, freshness_of};
use crate::session::{
    action_views, message_views, new_session_view, session_events, Session, SessionAction, SessionStatus,
    SessionView, CMD_ERR_PENALTY,
};
use crate::stun::{PeerAddr, SocketInfo};

verus! {

/// The credit of a new peer.
pub const INIT_CREDIT: u32 = 800;

/// The failed reads a peer is allowed in a row before its session aborts.
pub const INIT_TTL: u32 = 255;

#[derive(Clone, Copy, Debug, PartialEq, Eq, Structural)]
pub enum PeerType {
    Normal,
    Super,
    Unknown,
}

/// The value of a [`Peer`].
pub struct PeerView {
    pub ip_addr: PeerAddr,
    pub peer_type: PeerType,
    pub account: Option<Seq<char>>,
    pub credit: u32,
    pub token: Option<usize>,
    pub ttl: u32,
    pub bootstraped: bool,
    pub session: SessionView,
}

#[derive(Debug)]
pub struct Peer {
    ip_addr: PeerAddr,
    peer_type: PeerType,
    account: Option<Address>,
    credit: u32,
    token: Option<usize>,
    ttl: u32,
    bootstraped: bool,
    session: Session,
}

impl View for Peer {
    type V = PeerView;

    closed spec fn view(&self) -> PeerView {
        PeerView {
            ip_addr: self.ip_addr,
            peer_type: self.peer_type,
            account: account_view(self.account),
            credit: self.credit,
            token: self.token,
            ttl: self.ttl,
            bootstraped: self.bootstraped,
            session: self.session@,
        }
    }
}

impl Peer {
    /// A new peer at `addr`, with a new session opened at `now_ms`, the
    /// initial credit and ttl, and no account or token yet.
    pub fn new(addr: PeerAddr, now_ms: i64) -> (r: Self)
        ensures
            r@ == (PeerView {
                ip_addr: addr,
                peer_type: PeerType::Unknown,
                account: None,
                credit: INIT_CREDIT,
                token: None,
                ttl: INIT_TTL,
                bootstraped: false,
                session: new_session_view(addr, now_ms),
            }),
    {
        let session = Session::new(addr, now_ms);
        Peer {
            ip_addr: addr,
            peer_type: PeerType::Unknown,
            account: None,
            credit: INIT_CREDIT,
            token: None,
            ttl: INIT_TTL,
            bootstraped: false,
            session: session,
        }
    }

    /// The session with the peer.
    pub fn session(&self) -> (r: &Session)
        ensures
            r@ == self@.session,
    {
        &self.session
    }

    /// Aborts the session with the peer.
    pub fn disconnect(&mut self)
        ensures
            final(self)@ == (PeerView {
                session: SessionView { status: SessionStatus::Abort, ..old(self)@.session },
                ..old(self)@
            }),
    {
        self.session.disconnect();
    }

    /// Marks the session with the peer as connected.
    pub fn set_connected(&mut self)
        ensures
            final(self)@ == (PeerView {
                session: SessionView { connected: true, ..old(self)@.session },
                ..old(self)@
            }),
    {
        self.session.set_connect(true);
    }

    /// Replaces the peers that the peer told of.
    pub fn set_table(&mut self, table: PeerTable)
        ensures
            final(self)@ == (PeerView {
                session: SessionView { table: table_view(table.table@), table_limit: table.limit, ..old(self)@.session },
                ..old(self)@
            }),
    {
        self.session.set_table(table);
    }

    /// Hands the messages received at `now_ms` to the session: as
    /// [`Session::process_events`].
    pub fn process_events(&mut self, msgs: &Vec<SocketMessage>, now_ms: i64) -> (r: (u32, Vec<SessionAction>))
        requires
            msgs@.len() * CMD_ERR_PENALTY <= u32::MAX,
        ensures
            exists|ages: Seq<Option<i64>>| #![trigger freshness_of(ages)] {
                let (s, refused, acts) = session_events(
                    old(self)@.session.version, old(self)@.session.status, old(self)@.session.token,
                    message_views(msgs@), freshness_of(ages));
                &&& ages.len() == msgs@.len()
                &&& (forall|i: int| 0 <= i < ages.len() ==> age_of_timestamp(msgs@[i]@.args, #[trigger] ages[i]))
                &&& final(self)@ == (PeerView {
                    session: SessionView { status: s, updated: now_ms, ..old(self)@.session },
                    ..old(self)@
                })
                &&& r.0 == refused * CMD_ERR_PENALTY
                &&& action_views(r.1@) == acts
            },
    {
        self.session.process_events(msgs, now_ms)
    }

    /// The peers that the peer told of.
    pub fn table(&self) -> (r: PeerTable)
        ensures
            table_view(r.table@) == self@.session.table,
            r.limit == self@.session.table_limit,
    {
        self.session.table()
    }

    pub fn status(&self) -> (r: SessionStatus)
        ensures
            r == self@.session.status,
    {
        self.session.status()
    }

    /// The entries of the table of the peers that the peer told of.
    pub fn peer_table(&self) -> (r: Vec<(Option<Address>, SocketInfo)>)
        ensures
            table_view(r@) == self@.session.table,
    {
        self.table().table
    }

    pub fn account(&self) -> (r: Option<Address>)
        ensures
            account_view(r) == self@.account,
    {
        match &self.account {
            Some(a) => Some(a.clone()),
            None => None,
        }
    }

    pub fn addr(&self) -> (r: PeerAddr)
        ensures
            r == self@.ip_addr,
    {
        self.ip_addr
    }

    pub fn credit(&self) -> (r: u32)
        ensures
            r == self@.credit,
    {
        self.credit
    }

    /// Sets the token of the peer and of its session.
    pub fn set_token(&mut self, token: usize)
        ensures
            final(self)@ == (PeerView {
                token: Some(token),
                session: SessionView { token: Some(token), ..old(self)@.session },
                ..old(self)@
            }),
    {
        self.token = Some(token);
        self.session.set_token(token);
    }

    /// Whether the peer was told of the node already.
    pub fn bootstraped(&self) -> (r: bool)
        ensures
            r == self@.bootstraped,
    {
        self.bootstraped
    }

    /// Marks the peer as told of the node.
    pub fn set_bootstraped(&mut self)
        ensures
            final(self)@ == (PeerView { bootstraped: true, ..old(self)@ }),
    {
        self.bootstraped = true;
    }

    /// Accounts for one turn of the session: `Some(penalty)` when it went
    /// through, which restores the ttl and takes the penalty from the credit
    /// (down to zero); `None` when it failed, which takes one from the ttl,
    /// or aborts the session once the ttl is spent.
    pub fn process_outcome(&mut self, outcome: Option<u32>)
        ensures
            match outcome {
                Some(penalty) => final(self)@ == (PeerView {
                    ttl: INIT_TTL,
                    credit: if penalty <= old(self)@.credit { (old(self)@.credit - penalty) as u32 } else { 0 },
                    ..old(self)@
                }),
                None => if old(self)@.ttl > 0 {
                    final(self)@ == (PeerView { ttl: (old(self)@.ttl - 1) as u32, ..old(self)@ })
                } else {
                    final(self)@ == (PeerView {
                        session: SessionView { status: SessionStatus::Abort, ..old(self)@.session },
                        ..old(self)@
                    })
                },
            },
    {
        match outcome {
            Some(penalty) => {
                self.ttl = INIT_TTL;
                if penalty <= self.credit {
                    self.credit = self.credit - penalty;
                } else {
                    self.credit = 0;
                }
            },
            None => {
                if self.ttl > 0 {
                    self.ttl = self.ttl - 1;
                } else {
                    self.session.set_status(SessionStatus::Abort);
                }
            },
        }
    }
}

} // verus!
