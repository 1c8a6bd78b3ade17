//! The manager of the sockets to other peers: the peers connected, the
//! addresses waiting for a connection and the addresses banned, the
//! messages that come in and the heartbeats that go out.  Streams, the
//! event loop and the decoding of message bodies stay with the caller,
//! which performs what the manager decides.
use vstd::prelude::*;
use crate::message::{MessageView, SocketMessage, DISCOVERY_STR, EXCEPTION_STR, HEARTBEAT_STR, PEER_INFO_STR};
use crate::peer_socket::{read_outcome, send_outcome, store_outcome, write_outcome, IoFailure, PeerSocket, PeerSocketStat, PeerSocketView, SocketError};
use crate::stun::PeerAddr;
use crate::thread::{ThreadInfo, ThreadStatus};

verus! {

/// The period of the run loop of the manager, in milliseconds.
pub const TIME_SPAN: u64 = 100;

/// Every so many rounds the heartbeat goes out twice.
pub const ROUND_HEART_BEAT: usize = 50;

/// Every so many rounds the dead peers are removed.
pub const ROUND_PRUNE: usize = 50;

/// Who is told of the messages that peers send.
pub trait SocketMessageListener {
    fn notify(&mut self, msg: SocketMessage);
}

/// The value of a [`P2PConfig`].
pub struct ManagerConfigView {
    pub port: u16,
    pub peer_map_limit: usize,
    pub ban_list_limit: usize,
    pub waiting_list_limit: usize,
    pub min_peers: usize,
    pub white_list: Seq<PeerAddr>,
    pub bootstrap_peers: Seq<PeerAddr>,
}

/// The settings of a peer manager.
#[derive(Debug)]
pub struct P2PConfig {
    port: u16,
    peer_map_limit: usize,
    ban_list_limit: usize,
    waiting_list_limit: usize,
    min_peers: usize,
    white_list: Vec<PeerAddr>,
    bootstrap_peers: Vec<PeerAddr>,
}

impl View for P2PConfig {
    type V = ManagerConfigView;

    closed spec fn view(&self) -> ManagerConfigView {
        ManagerConfigView {
            port: self.port,
            peer_map_limit: self.peer_map_limit,
            ban_list_limit: self.ban_list_limit,
            waiting_list_limit: self.waiting_list_limit,
            min_peers: self.min_peers,
            white_list: self.white_list@,
            bootstrap_peers: self.bootstrap_peers@,
        }
    }
}

/// An address the white list lets in: any when the list is empty, else
/// only those on it.
pub open spec fn white_listed(white_list: Seq<PeerAddr>, addr: PeerAddr) -> bool {
    white_list.len() == 0 || white_list.contains(addr)
}

/// Whether `addr` is in `list`.
fn contains_addr(list: &Vec<PeerAddr>, addr: &PeerAddr) -> (r: bool)
    ensures
        r == list@.contains(*addr),
{
    let mut i: usize = 0;
    while i < list.len()
        invariant
            i <= list@.len(),
            forall|k: int| 0 <= k < i ==> #[trigger] list@[k] != *addr,
        decreases list@.len() - i,
    {
        if list[i] == *addr {
            return true;
        }
        i = i + 1;
    }
    false
}

/// `i` is the first index of `a` in `s`.
pub open spec fn first_position(s: Seq<PeerAddr>, a: PeerAddr, i: int) -> bool {
    &&& 0 <= i < s.len()
    &&& s[i] == a
    &&& forall|j: int| 0 <= j < i ==> s[j] != a
}

/// The first index of `addr` in `list`.
fn position_of(list: &Vec<PeerAddr>, addr: &PeerAddr) -> (r: Option<usize>)
    ensures
        r is None <==> !list@.contains(*addr),
        r matches Some(i) ==> first_position(list@, *addr, i as int),
{
    let mut i: usize = 0;
    while i < list.len()
        invariant
            i <= list@.len(),
            forall|k: int| 0 <= k < i ==> #[trigger] list@[k] != *addr,
        decreases list@.len() - i,
    {
        if list[i] == *addr {
            return Some(i);
        }
        i = i + 1;
    }
    None
}

/// A copy of a list of addresses.
fn copy_addrs(list: &Vec<PeerAddr>) -> (r: Vec<PeerAddr>)
    ensures
        r@ == list@,
{
    let mut out: Vec<PeerAddr> = Vec::new();
    let mut i: usize = 0;
    while i < list.len()
        invariant
            i <= list@.len(),
            out@ == list@.take(i as int),
        decreases list@.len() - i,
    {
        out.push(list[i]);
        i = i + 1;
        assert(out@ =~= list@.take(i as int));
    }
    assert(list@.take(list@.len() as int) =~= list@);
    out
}

impl P2PConfig {
    pub fn new(
        port: u16,
        peer_map_limit: usize,
        ban_list_limit: usize,
        waiting_list_limit: usize,
        min_peers: usize,
        white_list: Vec<PeerAddr>,
        bootstrap_peers: Vec<PeerAddr>,
    ) -> (r: Self)
        ensures
            r@ == (ManagerConfigView {
                port: port,
                peer_map_limit: peer_map_limit,
                ban_list_limit: ban_list_limit,
                waiting_list_limit: waiting_list_limit,
                min_peers: min_peers,
                white_list: white_list@,
                bootstrap_peers: bootstrap_peers@,
            }),
    {
        P2PConfig { port, peer_map_limit, ban_list_limit, waiting_list_limit, min_peers, white_list, bootstrap_peers }
    }

    pub fn port(&self) -> (r: u16)
        ensures
            r == self@.port,
    {
        self.port
    }

    pub fn peer_map_limit(&self) -> (r: usize)
        ensures
            r == self@.peer_map_limit,
    {
        self.peer_map_limit
    }

    pub fn ban_list_limit(&self) -> (r: usize)
        ensures
            r == self@.ban_list_limit,
    {
        self.ban_list_limit
    }

    pub fn waiting_list_limit(&self) -> (r: usize)
        ensures
            r == self@.waiting_list_limit,
    {
        self.waiting_list_limit
    }

    pub fn min_peers(&self) -> (r: usize)
        ensures
            r == self@.min_peers,
    {
        self.min_peers
    }

    pub fn white_list(&self) -> (r: Vec<PeerAddr>)
        ensures
            r@ == self@.white_list,
    {
        copy_addrs(&self.white_list)
    }

    pub fn set_white_list(&mut self, list: Vec<PeerAddr>)
        ensures
            final(self)@ == (ManagerConfigView { white_list: list@, ..old(self)@ }),
    {
        self.white_list = list;
    }

    /// Whether the white list lets the address in: any when the list is
    /// empty, else only those on it.
    pub fn in_white_list(&self, new_addr: &PeerAddr) -> (r: bool)
        ensures
            r == white_listed(self@.white_list, *new_addr),
    {
        if self.white_list.len() == 0 {
            true
        } else {
            contains_addr(&self.white_list, new_addr)
        }
    }

    pub fn bootstrap_peers(&self) -> (r: Vec<PeerAddr>)
        ensures
            r@ == self@.bootstrap_peers,
    {
        copy_addrs(&self.bootstrap_peers)
    }
}

/// The value of a [`P2PManager`].
pub struct ManagerView {
    pub name: Seq<char>,
    pub status: ThreadStatus,
    pub peers: Seq<(usize, PeerSocketView)>,
    pub ban_list: Seq<PeerAddr>,
    pub waiting_list: Seq<PeerAddr>,
    pub config: ManagerConfigView,
}

/// The tokens and views of the sockets, in order.
pub open spec fn socket_views(ps: Seq<(usize, PeerSocket)>) -> Seq<(usize, PeerSocketView)> {
    Seq::new(ps.len(), |i: int| (ps[i].0, ps[i].1@))
}

/// The socket at index `i` has the token `t`.
pub open spec fn token_at(ps: Seq<(usize, PeerSocketView)>, t: usize, i: int) -> bool {
    0 <= i < ps.len() && ps[i].0 == t
}

/// Some socket has the token `t`.
pub open spec fn has_token(ps: Seq<(usize, PeerSocketView)>, t: usize) -> bool {
    exists|i: int| token_at(ps, t, i)
}

/// Some socket is to the address `a`.
pub open spec fn has_addr(ps: Seq<(usize, PeerSocketView)>, a: PeerAddr) -> bool {
    exists|i: int| 0 <= i < ps.len() && ps[i].1.addr == a
}

/// No two sockets have the same token, and each socket knows its token.
pub open spec fn peers_wf(ps: Seq<(usize, PeerSocketView)>) -> bool {
    &&& forall|i: int, j: int| 0 <= i < j < ps.len() ==> ps[i].0 != ps[j].0
    &&& forall|i: int| 0 <= i < ps.len() ==> (#[trigger] ps[i]).1.token == Some(ps[i].0)
}

/// The addresses of the sockets, in order.
pub open spec fn socket_addrs(ps: Seq<(usize, PeerSocketView)>) -> Seq<PeerAddr> {
    Seq::new(ps.len(), |i: int| ps[i].1.addr)
}

/// The tokens of the sockets, in order.
pub open spec fn socket_tokens(ps: Seq<(usize, PeerSocketView)>) -> Seq<usize> {
    Seq::new(ps.len(), |i: int| ps[i].0)
}

/// An address that a connection is taken from or made to: not a peer
/// already, not banned.
pub open spec fn valid_to_accept(v: ManagerView, addr: PeerAddr) -> bool {
    !has_addr(v.peers, addr) && !v.ban_list.contains(addr)
}

/// An address that may wait for a connection: not waiting already, not
/// banned, not a peer already, let in by the white list.
pub open spec fn valid_for_waiting_list(v: ManagerView, addr: PeerAddr) -> bool {
    &&& !v.waiting_list.contains(addr)
    &&& !v.ban_list.contains(addr)
    &&& !has_addr(v.peers, addr)
    &&& white_listed(v.config.white_list, addr)
}

/// How many new addresses join a waiting list of `waiting` addresses under
/// `limit`: the room left, but no more than the addresses already waiting.
pub open spec fn append_count(waiting: nat, limit: nat) -> nat {
    let room = (limit - waiting) as nat;
    if room > waiting { waiting } else { room }
}

/// Sockets with the same tokens, each knowing the same token, in the same
/// order, keep the tokens distinct and known.
proof fn lemma_wf_same_tokens(a: Seq<(usize, PeerSocketView)>, b: Seq<(usize, PeerSocketView)>)
    requires
        peers_wf(a),
        a.len() == b.len(),
        forall|k: int| 0 <= k < a.len() ==> (#[trigger] a[k]).0 == b[k].0 && a[k].1.token == b[k].1.token,
    ensures
        peers_wf(b),
{
    assert forall|i: int, j: int| 0 <= i < j < b.len() implies b[i].0 != b[j].0 by {
        assert(a[i].0 == b[i].0);
        assert(a[j].0 == b[j].0);
    }
    assert forall|i: int| 0 <= i < b.len() implies (#[trigger] b[i]).1.token == Some(b[i].0) by {
        assert(a[i].0 == b[i].0);
    }
}

/// Each socket after writing `body` into it.
pub open spec fn all_written(ps: Seq<(usize, PeerSocketView)>, body: Seq<u8>) -> Seq<(usize, PeerSocketView)> {
    Seq::new(ps.len(), |i: int| (ps[i].0, write_outcome(ps[i].1, body).0))
}

/// What a round of heartbeats does to the sockets: the heartbeat is
/// written into each, and once more on every `ROUND_HEART_BEAT`-th round.
pub open spec fn heart_beaten(ps: Seq<(usize, PeerSocketView)>, round: usize, body: Seq<u8>) -> Seq<(usize, PeerSocketView)> {
    let once = all_written(ps, body);
    if round > 0 && round % ROUND_HEART_BEAT == 0 { all_written(once, body) } else { once }
}

/// The tokens of the sockets that hold bytes to send, in order.
pub open spec fn sending_tokens(ps: Seq<(usize, PeerSocketView)>) -> Seq<usize>
    decreases ps.len(),
{
    if ps.len() == 0 {
        Seq::empty()
    } else {
        let rest = sending_tokens(ps.drop_last());
        if ps.last().1.w_prep { rest.push(ps.last().0) } else { rest }
    }
}

/// The live sockets, in order.
pub open spec fn live_peers(ps: Seq<(usize, PeerSocketView)>) -> Seq<(usize, PeerSocketView)>
    decreases ps.len(),
{
    if ps.len() == 0 {
        Seq::empty()
    } else {
        let rest = live_peers(ps.drop_last());
        if ps.last().1.alive { rest.push(ps.last()) } else { rest }
    }
}

/// The sockets after the dead ones are removed at `round`: on every
/// `ROUND_PRUNE`-th round.
pub open spec fn pruned_peers(ps: Seq<(usize, PeerSocketView)>, round: usize) -> Seq<(usize, PeerSocketView)> {
    if round > 0 && round % ROUND_PRUNE == 0 { live_peers(ps) } else { ps }
}

/// A socket after its messages are read, when it holds bytes to read.
pub open spec fn read_step(p: PeerSocketView) -> PeerSocketView {
    if p.r_prep { read_outcome(p).0 } else { p }
}

/// Each socket after its messages are read.
pub open spec fn all_read(ps: Seq<(usize, PeerSocketView)>) -> Seq<(usize, PeerSocketView)> {
    Seq::new(ps.len(), |i: int| (ps[i].0, read_step(ps[i].1)))
}

/// The bodies read from each socket that held bytes to read and read them
/// without failing, with its token, in order.
pub open spec fn read_bodies(ps: Seq<(usize, PeerSocketView)>) -> Seq<(usize, Seq<Seq<u8>>)>
    decreases ps.len(),
{
    if ps.len() == 0 {
        Seq::empty()
    } else {
        let rest = read_bodies(ps.drop_last());
        let (t, p) = ps.last();
        if p.r_prep {
            match read_outcome(p).1 {
                Ok(bodies) => rest.push((t, bodies)),
                Err(_) => rest,
            }
        } else {
            rest
        }
    }
}

/// What becomes of a message that a peer sent.
pub enum Route {
    /// Heartbeats and discoveries are dropped.
    Drop,
    /// An exception is dropped; one that gives a reason kills the socket.
    Kill(bool),
    /// The addresses of other peers, still to be decoded.
    PeerList(Seq<u8>),
    /// Anything else goes to the listener.
    Dispatch,
}

/// The route of a message.
pub open spec fn route_of(m: MessageView) -> Route {
    if m.event == HEARTBEAT_STR@ {
        Route::Drop
    } else if m.event == DISCOVERY_STR@ {
        Route::Drop
    } else if m.event == EXCEPTION_STR@ {
        Route::Kill(m.args[0] is Str)
    } else if m.event == PEER_INFO_STR@ {
        Route::PeerList(m.payload)
    } else {
        Route::Dispatch
    }
}

/// The messages that go to the listener, in order.
pub open spec fn dispatched(ms: Seq<MessageView>) -> Seq<MessageView>
    decreases ms.len(),
{
    if ms.len() == 0 {
        Seq::empty()
    } else {
        let rest = dispatched(ms.drop_last());
        if route_of(ms.last()) is Dispatch { rest.push(ms.last()) } else { rest }
    }
}

/// The payloads of the peer lists among the messages, in order.
pub open spec fn peer_lists(ms: Seq<MessageView>) -> Seq<Seq<u8>>
    decreases ms.len(),
{
    if ms.len() == 0 {
        Seq::empty()
    } else {
        let rest = peer_lists(ms.drop_last());
        match route_of(ms.last()) {
            Route::PeerList(p) => rest.push(p),
            _ => rest,
        }
    }
}

/// Some message is an exception that gives a reason.
pub open spec fn kills(ms: Seq<MessageView>) -> bool {
    exists|i: int| 0 <= i < ms.len() && #[trigger] route_of(ms[i]) == Route::Kill(true)
}

/// Every exception among the messages has an argument.
pub open spec fn exceptions_have_args(ms: Seq<MessageView>) -> bool {
    forall|i: int| 0 <= i < ms.len() && (#[trigger] ms[i]).event == EXCEPTION_STR@ ==> ms[i].args.len() > 0
}

/// The views of the messages, in order.
pub open spec fn message_views(ms: Seq<SocketMessage>) -> Seq<MessageView> {
    Seq::new(ms.len(), |i: int| ms[i]@)
}

/// The addresses, each one equal to the one before it dropped.
pub open spec fn dedup_addrs(s: Seq<PeerAddr>) -> Seq<PeerAddr>
    decreases s.len(),
{
    if s.len() == 0 {
        Seq::empty()
    } else {
        let rest = dedup_addrs(s.drop_last());
        if s.len() >= 2 && s[s.len() - 2] == s.last() { rest } else { rest.push(s.last()) }
    }
}

/// The addresses that may wait for a connection in the state `v`, in
/// order.
pub open spec fn waiting_candidates(v: ManagerView, s: Seq<PeerAddr>) -> Seq<PeerAddr>
    decreases s.len(),
{
    if s.len() == 0 {
        Seq::empty()
    } else {
        let rest = waiting_candidates(v, s.drop_last());
        if valid_for_waiting_list(v, s.last()) { rest.push(s.last()) } else { rest }
    }
}

/// Why no peer could be taken from the waiting list.
#[derive(Clone, Copy, Debug, PartialEq, Eq, Structural)]
pub enum ObtainError {
    /// The waiting list is empty.
    WaitingListEmpty,
    /// The address taken is a peer already or banned.
    InvalidAddress,
}

/// Why a peer was not accepted.
#[derive(Clone, Copy, Debug, PartialEq, Eq, Structural)]
pub enum AcceptError {
    /// The manager holds as many peers as it may.
    PeerMapFull,
}

/// The peer-to-peer socket manager.
#[derive(Debug)]
pub struct P2PManager {
    name: String,
    thread_status: ThreadStatus,
    peer_map: Vec<(usize, PeerSocket)>,
    ban_list: Vec<PeerAddr>,
    waiting_list: Vec<PeerAddr>,
    config: P2PConfig,
}

impl View for P2PManager {
    type V = ManagerView;

    closed spec fn view(&self) -> ManagerView {
        ManagerView {
            name: self.name@,
            status: self.thread_status,
            peers: socket_views(self.peer_map@),
            ban_list: self.ban_list@,
            waiting_list: self.waiting_list@,
            config: self.config@,
        }
    }
}

impl P2PManager {
    #[verifier::type_invariant]
    closed spec fn inv(self) -> bool {
        peers_wf(socket_views(self.peer_map@))
    }

    /// A paused manager with no peer, nothing banned or waiting.
    pub fn new(name: String, config: P2PConfig) -> (r: Self)
        ensures
            r@ == (ManagerView {
                name: name@,
                status: ThreadStatus::Pause,
                peers: Seq::empty(),
                ban_list: Seq::empty(),
                waiting_list: Seq::empty(),
                config: config@,
            }),
    {
        let r = P2PManager {
            name: name,
            thread_status: ThreadStatus::Pause,
            peer_map: Vec::new(),
            ban_list: Vec::new(),
            waiting_list: Vec::new(),
            config: config,
        };
        assert(socket_views(r.peer_map@) =~= Seq::empty());
        r
    }

    /// The index of the peer with the token.
    fn index_of(&self, token: usize) -> (r: Option<usize>)
        ensures
            r is None <==> !has_token(self@.peers, token),
            r matches Some(i) ==> token_at(self@.peers, token, i as int),
    {
        let mut i: usize = 0;
        while i < self.peer_map.len()
            invariant
                i <= self.peer_map@.len(),
                forall|k: int| 0 <= k < i ==> #[trigger] self.peer_map@[k].0 != token,
            decreases self.peer_map@.len() - i,
        {
            if self.peer_map[i].0 == token {
                assert(token_at(self@.peers, token, i as int));
                return Some(i);
            }
            i = i + 1;
        }
        assert forall|k: int| !token_at(self@.peers, token, k) by {
            if 0 <= k < self@.peers.len() {
                assert(self@.peers[k].0 == self.peer_map@[k].0);
            }
        }
        None
    }

    /// Accepts the peer whose socket the event loop registered under the
    /// token: the socket learns its token and takes the place of the one
    /// that had it, if any.  Refused when the manager already holds
    /// `peer_map_limit` peers; the caller then deregisters the socket.
    pub fn accept_peer(&mut self, token: usize, peer: PeerSocket) -> (r: Result<usize, AcceptError>)
        ensures
            old(self)@.peers.len() >= old(self)@.config.peer_map_limit ==> {
                &&& r == Err::<usize, AcceptError>(AcceptError::PeerMapFull)
                &&& final(self)@ == old(self)@
            },
            old(self)@.peers.len() < old(self)@.config.peer_map_limit ==> {
                let pv = PeerSocketView { token: Some(token), ..peer@ };
                &&& r == Ok::<usize, AcceptError>(token)
                &&& forall|i: int| token_at(old(self)@.peers, token, i)
                    ==> final(self)@ == (ManagerView { peers: old(self)@.peers.update(i, (token, pv)), ..old(self)@ })
                &&& !has_token(old(self)@.peers, token)
                    ==> final(self)@ == (ManagerView { peers: old(self)@.peers.push((token, pv)), ..old(self)@ })
            },
    {
        proof { use_type_invariant(&*self); }
        if self.peer_map.len() >= self.config.peer_map_limit() {
            return Err(AcceptError::PeerMapFull);
        }
        let mut peer = peer;
        peer.set_token(token);
        let ghost pv = peer@;
        match self.index_of(token) {
            Some(i) => {
                let ghost before = self.peer_map@;
                let mut list = Vec::new();
                std::mem::swap(&mut list, &mut self.peer_map);
                list.set(i, (token, peer));
                proof {
                    assert(socket_views(list@) =~= socket_views(before).update(i as int, (token, pv)));
                    assert forall|j: int| token_at(socket_views(before), token, j) implies j == i by {}
                }
                self.peer_map = list;
            },
            None => {
                let ghost before = self.peer_map@;
                let mut list = Vec::new();
                std::mem::swap(&mut list, &mut self.peer_map);
                list.push((token, peer));
                proof {
                    assert(socket_views(list@) =~= socket_views(before).push((token, pv)));
                    assert forall|a: int, b: int| 0 <= a < b < socket_views(list@).len()
                        implies socket_views(list@)[a].0 != socket_views(list@)[b].0 by {
                        if b == before.len() {
                            assert(!token_at(socket_views(before), token, a));
                        }
                    }
                }
                self.peer_map = list;
            },
        }
        Ok(token)
    }

    /// Takes out the peer with the token, whose socket the caller then
    /// deregisters.
    pub fn drop_peer(&mut self, token: usize) -> (r: Option<PeerSocket>)
        ensures
            !has_token(old(self)@.peers, token) ==> r is None && final(self)@ == old(self)@,
            forall|i: int| token_at(old(self)@.peers, token, i) ==> {
                &&& r matches Some(p) && p@ == old(self)@.peers[i].1
                &&& final(self)@ == (ManagerView { peers: old(self)@.peers.remove(i), ..old(self)@ })
            },
    {
        proof { use_type_invariant(&*self); }
        match self.index_of(token) {
            Some(i) => {
                let ghost before = self.peer_map@;
                let mut list = Vec::new();
                std::mem::swap(&mut list, &mut self.peer_map);
                let (_, p) = list.remove(i);
                proof {
                    assert(socket_views(list@) =~= socket_views(before).remove(i as int));
                    assert forall|j: int| token_at(socket_views(before), token, j) implies j == i by {}
                    assert forall|a: int, b: int| 0 <= a < b < socket_views(list@).len()
                        implies socket_views(list@)[a].0 != socket_views(list@)[b].0 by {
                        let a0 = if a < i { a } else { a + 1 };
                        let b0 = if b < i { b } else { b + 1 };
                        assert(socket_views(list@)[a] == socket_views(before)[a0]);
                        assert(socket_views(list@)[b] == socket_views(before)[b0]);
                    }
                    assert forall|k: int| 0 <= k < socket_views(list@).len()
                        implies (#[trigger] socket_views(list@)[k]).1.token == Some(socket_views(list@)[k].0) by {
                        let k0 = if k < i { k } else { k + 1 };
                        assert(socket_views(list@)[k] == socket_views(before)[k0]);
                    }
                }
                self.peer_map = list;
                Some(p)
            },
            None => None,
        }
    }

    /// Whether the socket of the peer with the token is alive.
    pub fn peer_is_alive(&self, token: usize) -> (r: bool)
        requires
            has_token(self@.peers, token),
        ensures
            forall|i: int| token_at(self@.peers, token, i) ==> r == self@.peers[i].1.alive,
    {
        proof { use_type_invariant(self); }
        let i = self.index_of(token).unwrap();
        assert(self@.peers[i as int].1 == self.peer_map@[i as int].1@);
        assert forall|j: int| token_at(self@.peers, token, j) implies j == i by {}
        self.peer_map[i].1.is_alive()
    }

    /// The address of the peer with the token.
    pub fn peer_addr(&self, token: usize) -> (r: PeerAddr)
        requires
            has_token(self@.peers, token),
        ensures
            forall|i: int| token_at(self@.peers, token, i) ==> r == self@.peers[i].1.addr,
    {
        proof { use_type_invariant(self); }
        let i = self.index_of(token).unwrap();
        assert(self@.peers[i as int].1 == self.peer_map@[i as int].1@);
        assert forall|j: int| token_at(self@.peers, token, j) implies j == i by {}
        self.peer_map[i].1.addr()
    }

    /// Drops all peers; the caller deregisters the sockets of the tokens
    /// returned.
    pub fn clear_peer_map(&mut self) -> (r: Vec<usize>)
        ensures
            r@ == socket_tokens(old(self)@.peers),
            final(self)@ == (ManagerView { peers: Seq::empty(), ..old(self)@ }),
    {
        let r = self.tokens();
        self.peer_map = Vec::new();
        assert(socket_views(self.peer_map@) =~= Seq::empty());
        r
    }

    /// The tokens of the peers, in order.
    pub fn tokens(&self) -> (r: Vec<usize>)
        ensures
            r@ == socket_tokens(self@.peers),
    {
        let mut out: Vec<usize> = Vec::new();
        let mut i: usize = 0;
        while i < self.peer_map.len()
            invariant
                i <= self.peer_map@.len(),
                out@.len() == i,
                forall|k: int| 0 <= k < i ==> #[trigger] out@[k] == self.peer_map@[k].0,
            decreases self.peer_map@.len() - i,
        {
            out.push(self.peer_map[i].0);
            i = i + 1;
        }
        assert(out@ =~= socket_tokens(self@.peers));
        out
    }

    /// Whether some peer is at the address.
    pub fn existed_in_peer_map(&self, addr: &PeerAddr) -> (r: bool)
        ensures
            r == has_addr(self@.peers, *addr),
    {
        let mut i: usize = 0;
        while i < self.peer_map.len()
            invariant
                i <= self.peer_map@.len(),
                forall|k: int| 0 <= k < i ==> #[trigger] self.peer_map@[k].1@.addr != *addr,
            decreases self.peer_map@.len() - i,
        {
            if self.peer_map[i].1.addr() == *addr {
                assert(socket_views(self.peer_map@)[i as int].1.addr == *addr);
                return true;
            }
            i = i + 1;
        }
        assert forall|k: int| 0 <= k < self@.peers.len() implies #[trigger] self@.peers[k].1.addr != *addr by {
            assert(self@.peers[k].1 == self.peer_map@[k].1@);
        }
        false
    }

    /// Appends new addresses to the waiting list, from the front of
    /// `new_peers`, as many as [`append_count`] says: the room left under
    /// `waiting_list_limit`, but no more than the addresses already
    /// waiting; those taken leave `new_peers`, which must hold that many.
    pub fn append_waiting_list(&mut self, new_peers: &mut Vec<PeerAddr>)
        requires
            old(self)@.waiting_list.len() <= old(self)@.config.waiting_list_limit,
            append_count(old(self)@.waiting_list.len(), old(self)@.config.waiting_list_limit as nat)
                <= old(new_peers)@.len(),
        ensures
            ({
                let n = append_count(
                    old(self)@.waiting_list.len(),
                    old(self)@.config.waiting_list_limit as nat,
                ) as int;
                &&& final(self)@ == (ManagerView {
                    waiting_list: old(self)@.waiting_list + old(new_peers)@.take(n),
                    ..old(self)@
                })
                &&& final(new_peers)@ == old(new_peers)@.skip(n)
            }),
    {
        proof { use_type_invariant(&*self); }
        let remain_size = self.config.waiting_list_limit() - self.waiting_list.len();
        let end_pos = if remain_size > self.waiting_list.len() { self.waiting_list.len() } else { remain_size };
        let ghost np = new_peers@;
        let ghost w0 = self.waiting_list@;
        let mut list: Vec<PeerAddr> = Vec::new();
        std::mem::swap(&mut list, &mut self.waiting_list);
        let mut i: usize = 0;
        while i < end_pos
            invariant
                end_pos <= np.len(),
                i <= end_pos,
                new_peers@ == np,
                list@ == w0 + np.take(i as int),
            decreases end_pos - i,
        {
            list.push(new_peers[i]);
            i = i + 1;
            assert(list@ =~= w0 + np.take(i as int));
        }
        self.waiting_list = list;
        let rest = vstd::slice::slice_to_vec(
            vstd::slice::slice_subrange(new_peers.as_slice(), end_pos, new_peers.len()));
        assert(rest@ =~= np.skip(end_pos as int));
        *new_peers = rest;
    }

    /// Empties the waiting list.
    pub fn clear_waiting_list(&mut self)
        ensures
            final(self)@ == (ManagerView { waiting_list: Seq::empty(), ..old(self)@ }),
    {
        proof { use_type_invariant(&*self); }
        self.waiting_list = Vec::new();
    }

    /// Whether the address is waiting.
    pub fn existed_in_waiting_list(&self, addr: &PeerAddr) -> (r: bool)
        ensures
            r == self@.waiting_list.contains(*addr),
    {
        contains_addr(&self.waiting_list, addr)
    }

    /// Bans the address, unless it is banned already.
    pub fn ban(&mut self, addr: &PeerAddr)
        ensures
            final(self)@ == (ManagerView {
                ban_list: if old(self)@.ban_list.contains(*addr) {
                    old(self)@.ban_list
                } else {
                    old(self)@.ban_list.push(*addr)
                },
                ..old(self)@
            }),
    {
        proof { use_type_invariant(&*self); }
        if !self.existed_in_ban_list(addr) {
            let mut list: Vec<PeerAddr> = Vec::new();
            std::mem::swap(&mut list, &mut self.ban_list);
            list.push(*addr);
            self.ban_list = list;
        }
    }

    /// Lifts the ban of the address: its first entry leaves the ban list.
    pub fn unban(&mut self, addr: &PeerAddr)
        ensures
            !old(self)@.ban_list.contains(*addr) ==> final(self)@ == old(self)@,
            forall|i: int| first_position(old(self)@.ban_list, *addr, i) ==>
                final(self)@ == (ManagerView { ban_list: old(self)@.ban_list.remove(i), ..old(self)@ }),
    {
        proof { use_type_invariant(&*self); }
        match position_of(&self.ban_list, addr) {
            Some(i) => {
                let mut list: Vec<PeerAddr> = Vec::new();
                std::mem::swap(&mut list, &mut self.ban_list);
                list.remove(i);
                self.ban_list = list;
                proof {
                    assert forall|j: int| first_position(old(self)@.ban_list, *addr, j) implies j == i by {
                        if j < i {
                            assert(old(self)@.ban_list[j] != *addr);
                        }
                        if i < j {
                            assert(old(self)@.ban_list[i as int] != *addr);
                        }
                    }
                }
            },
            None => {},
        }
    }

    /// Whether the address is banned.
    pub fn existed_in_ban_list(&self, addr: &PeerAddr) -> (r: bool)
        ensures
            r == self@.ban_list.contains(*addr),
    {
        contains_addr(&self.ban_list, addr)
    }

    /// The addresses of the peers, in order.
    pub fn peer_info(&self) -> (r: Vec<PeerAddr>)
        ensures
            r@ == socket_addrs(self@.peers),
    {
        let mut out: Vec<PeerAddr> = Vec::new();
        let mut i: usize = 0;
        while i < self.peer_map.len()
            invariant
                i <= self.peer_map@.len(),
                out@.len() == i,
                forall|k: int| 0 <= k < i ==> #[trigger] out@[k] == self.peer_map@[k].1@.addr,
            decreases self.peer_map@.len() - i,
        {
            out.push(self.peer_map[i].1.addr());
            i = i + 1;
        }
        assert(out@ =~= socket_addrs(self@.peers));
        out
    }

    /// Whether a connection with the address is taken: it is not a peer
    /// already and not banned.
    pub fn addr_is_valid_to_accept(&self, peer_addr: &PeerAddr) -> (r: bool)
        ensures
            r == valid_to_accept(self@, *peer_addr),
    {
        !self.existed_in_peer_map(peer_addr) && !self.existed_in_ban_list(peer_addr)
    }

    /// Whether the address may wait for a connection: not waiting already,
    /// not banned, not a peer already, and let in by the white list.
    pub fn addr_is_valid_for_waiting_list(&self, peer_addr: &PeerAddr) -> (r: bool)
        ensures
            r == valid_for_waiting_list(self@, *peer_addr),
    {
        !self.existed_in_waiting_list(peer_addr) && !self.existed_in_ban_list(peer_addr)
            && !self.existed_in_peer_map(peer_addr) && self.config.in_white_list(peer_addr)
    }

    /// Takes the last address of the waiting list, to connect to: refused
    /// when the list is empty, or when the address is a peer already or
    /// banned (it leaves the list all the same).
    pub fn obtain_peer(&mut self) -> (r: Result<PeerAddr, ObtainError>)
        ensures
            old(self)@.waiting_list.len() == 0 ==> {
                &&& r == Err::<PeerAddr, ObtainError>(ObtainError::WaitingListEmpty)
                &&& final(self)@ == old(self)@
            },
            old(self)@.waiting_list.len() > 0 ==> {
                let a = old(self)@.waiting_list.last();
                let after = ManagerView { waiting_list: old(self)@.waiting_list.drop_last(), ..old(self)@ };
                &&& final(self)@ == after
                &&& valid_to_accept(after, a) ==> r == Ok::<PeerAddr, ObtainError>(a)
                &&& !valid_to_accept(after, a) ==> r == Err::<PeerAddr, ObtainError>(ObtainError::InvalidAddress)
            },
    {
        proof { use_type_invariant(&*self); }
        let mut list: Vec<PeerAddr> = Vec::new();
        std::mem::swap(&mut list, &mut self.waiting_list);
        let popped = list.pop();
        self.waiting_list = list;
        match popped {
            Some(addr) => {
                if !self.addr_is_valid_to_accept(&addr) {
                    Err(ObtainError::InvalidAddress)
                } else {
                    Ok(addr)
                }
            },
            None => Err(ObtainError::WaitingListEmpty),
        }
    }

    /// Writes a message with the body into the socket of the peer with
    /// the token, as [`PeerSocket::write_msg`] does.
    pub fn send_msg(&mut self, token: usize, body: &[u8]) -> (r: Result<(), SocketError>)
        requires
            has_token(old(self)@.peers, token),
        ensures
            forall|i: int| token_at(old(self)@.peers, token, i) ==> {
                let (p, res) = write_outcome(old(self)@.peers[i].1, body@);
                &&& r == res
                &&& final(self)@ == (ManagerView { peers: old(self)@.peers.update(i, (token, p)), ..old(self)@ })
            },
    {
        proof { use_type_invariant(&*self); }
        let i = self.index_of(token).unwrap();
        let ghost before = socket_views(self.peer_map@);
        let mut list = Vec::new();
        std::mem::swap(&mut list, &mut self.peer_map);
        let (t, mut p) = list.remove(i);
        let r = p.write_msg(body);
        let ghost pv = p@;
        list.insert(i, (t, p));
        proof {
            assert(socket_views(list@) =~= before.update(i as int, (token, pv)));
            lemma_wf_same_tokens(before, socket_views(list@));
            assert forall|j: int| token_at(before, token, j) implies j == i by {}
        }
        self.peer_map = list;
        r
    }

    /// Accounts for what a write to the stream of the peer with the token
    /// gave, as [`PeerSocket::send_buffer`] does.
    pub fn send_buffer(&mut self, token: usize, written: Result<usize, IoFailure>) -> (r: Result<(), SocketError>)
        requires
            has_token(old(self)@.peers, token),
            forall|i: int| token_at(old(self)@.peers, token, i) ==> (written matches Ok(size) ==>
                size <= old(self)@.peers[i].1.write_buffer.len() && old(self)@.peers[i].1.data_send + size <= usize::MAX),
        ensures
            forall|i: int| token_at(old(self)@.peers, token, i) ==> {
                let (p, res) = send_outcome(old(self)@.peers[i].1, written);
                &&& r == res
                &&& final(self)@ == (ManagerView { peers: old(self)@.peers.update(i, (token, p)), ..old(self)@ })
            },
    {
        proof { use_type_invariant(&*self); }
        let i = self.index_of(token).unwrap();
        let ghost before = socket_views(self.peer_map@);
        let mut list = Vec::new();
        std::mem::swap(&mut list, &mut self.peer_map);
        let (t, mut p) = list.remove(i);
        assert(p@ == before[i as int].1);
        let r = p.send_buffer(written);
        let ghost pv = p@;
        list.insert(i, (t, p));
        proof {
            assert(socket_views(list@) =~= before.update(i as int, (token, pv)));
            lemma_wf_same_tokens(before, socket_views(list@));
            assert forall|j: int| token_at(before, token, j) implies j == i by {}
        }
        self.peer_map = list;
        r
    }

    /// Accounts for what a read from the stream of the peer with the token
    /// gave, as [`PeerSocket::store_buffer`] does.
    pub fn store_buffer(&mut self, token: usize, read: Result<&[u8], IoFailure>) -> (r: Result<(), SocketError>)
        requires
            has_token(old(self)@.peers, token),
            forall|i: int| token_at(old(self)@.peers, token, i) ==> (read matches Ok(bytes) ==>
                old(self)@.peers[i].1.data_recv + bytes@.len() <= usize::MAX),
        ensures
            forall|i: int| token_at(old(self)@.peers, token, i) ==> {
                let (p, res) = store_outcome(old(self)@.peers[i].1, match read { Ok(bytes) => Ok(bytes@), Err(e) => Err(e) });
                &&& r == res
                &&& final(self)@ == (ManagerView { peers: old(self)@.peers.update(i, (token, p)), ..old(self)@ })
            },
    {
        proof { use_type_invariant(&*self); }
        let i = self.index_of(token).unwrap();
        let ghost before = socket_views(self.peer_map@);
        let mut list = Vec::new();
        std::mem::swap(&mut list, &mut self.peer_map);
        let (t, mut p) = list.remove(i);
        assert(p@ == before[i as int].1);
        let r = p.store_buffer(read);
        let ghost pv = p@;
        list.insert(i, (t, p));
        proof {
            assert(socket_views(list@) =~= before.update(i as int, (token, pv)));
            lemma_wf_same_tokens(before, socket_views(list@));
            assert forall|j: int| token_at(before, token, j) implies j == i by {}
        }
        self.peer_map = list;
        r
    }

    /// Kills the socket of the peer with the token.
    fn kill_peer(&mut self, token: usize)
        requires
            has_token(old(self)@.peers, token),
        ensures
            forall|i: int| token_at(old(self)@.peers, token, i) ==>
                final(self)@ == (ManagerView {
                    peers: old(self)@.peers.update(i, (token, PeerSocketView { alive: false, ..old(self)@.peers[i].1 })),
                    ..old(self)@
                }),
    {
        proof { use_type_invariant(&*self); }
        let i = self.index_of(token).unwrap();
        let ghost before = socket_views(self.peer_map@);
        let mut list = Vec::new();
        std::mem::swap(&mut list, &mut self.peer_map);
        let (t, mut p) = list.remove(i);
        p.kill();
        let ghost pv = p@;
        list.insert(i, (t, p));
        proof {
            assert(socket_views(list@) =~= before.update(i as int, (token, pv)));
            lemma_wf_same_tokens(before, socket_views(list@));
            assert forall|j: int| token_at(before, token, j) implies j == i by {}
        }
        self.peer_map = list;
    }

    /// The tokens of the peers whose sockets hold bytes to send, in order:
    /// those that a round of sending writes to their streams.
    pub fn ready_to_send(&self) -> (r: Vec<usize>)
        ensures
            r@ == sending_tokens(self@.peers),
    {
        let ghost ps = self@.peers;
        let mut out: Vec<usize> = Vec::new();
        let mut i: usize = 0;
        while i < self.peer_map.len()
            invariant
                i <= self.peer_map@.len(),
                ps == socket_views(self.peer_map@),
                out@ == sending_tokens(ps.take(i as int)),
            decreases self.peer_map@.len() - i,
        {
            assert(ps.take(i + 1).drop_last() =~= ps.take(i as int));
            if self.peer_map[i].1.prepare_to_send_data() {
                out.push(self.peer_map[i].0);
            }
            i = i + 1;
        }
        assert(ps.take(ps.len() as int) =~= ps);
        out
    }

    /// Writes the body into every socket, in order.
    fn write_all(&mut self, body: &[u8])
        ensures
            final(self)@ == (ManagerView { peers: all_written(old(self)@.peers, body@), ..old(self)@ }),
    {
        proof { use_type_invariant(&*self); }
        let ghost before = socket_views(self.peer_map@);
        let mut list = Vec::new();
        std::mem::swap(&mut list, &mut self.peer_map);
        let mut i: usize = 0;
        while i < list.len()
            invariant
                i <= list@.len(),
                list@.len() == before.len(),
                forall|k: int| 0 <= k < i ==> #[trigger] socket_views(list@)[k] == all_written(before, body@)[k],
                forall|k: int| i <= k < list@.len() ==> #[trigger] socket_views(list@)[k] == before[k],
            decreases list@.len() - i,
        {
            let ghost l0 = list@;
            assert(socket_views(l0)[i as int] == before[i as int]);
            let (t, mut p) = list.remove(i);
            assert(p@ == before[i as int].1);
            let _ = p.write_msg(body);
            list.insert(i, (t, p));
            proof {
                assert forall|k: int| 0 <= k < list@.len() && k != i
                    implies #[trigger] socket_views(list@)[k] == socket_views(l0)[k] by {
                    assert(list@[k] == l0[k]);
                }
                assert(socket_views(list@)[i as int] == all_written(before, body@)[i as int]);
            }
            i = i + 1;
        }
        proof {
            assert(socket_views(list@) =~= all_written(before, body@));
            lemma_wf_same_tokens(before, socket_views(list@));
        }
        self.peer_map = list;
    }

    /// Sends the heartbeat to every peer: its serialized form is written
    /// into each socket, and once more on every `ROUND_HEART_BEAT`-th
    /// round.  A socket that refuses it is passed over.
    pub fn send_heart_beat(&mut self, round: usize, heartbeat: &[u8])
        ensures
            final(self)@ == (ManagerView { peers: heart_beaten(old(self)@.peers, round, heartbeat@), ..old(self)@ }),
    {
        self.write_all(heartbeat);
        if round > 0 && round % ROUND_HEART_BEAT == 0 {
            self.write_all(heartbeat);
        }
    }

    /// Removes the peers whose sockets are dead, on every `ROUND_PRUNE`-th
    /// round.
    pub fn remove_dead_peers(&mut self, round: usize)
        ensures
            final(self)@ == (ManagerView { peers: pruned_peers(old(self)@.peers, round), ..old(self)@ }),
    {
        proof { use_type_invariant(&*self); }
        if !(round > 0 && round % ROUND_PRUNE == 0) {
            return;
        }
        let ghost before = socket_views(self.peer_map@);
        let mut list = Vec::new();
        std::mem::swap(&mut list, &mut self.peer_map);
        let mut keep: Vec<(usize, PeerSocket)> = Vec::new();
        let ghost mut used: int = 0;
        while list.len() > 0
            invariant
                0 <= used <= before.len(),
                socket_views(list@) == before.skip(used),
                socket_views(keep@) == live_peers(before.take(used)),
                peers_wf(before),
                peers_wf(socket_views(keep@)),
                forall|a: int, j: int| 0 <= a < keep@.len() && used <= j < before.len()
                    ==> #[trigger] keep@[a].0 != #[trigger] before[j].0,
            decreases list@.len(),
        {
            let ghost kv = socket_views(keep@);
            let ghost l0 = list@;
            proof {
                assert(socket_views(l0).len() == l0.len());
                assert(used < before.len());
                assert(socket_views(l0)[0] == before.skip(used)[0]);
            }
            let e = list.remove(0);
            proof {
                assert(before.skip(used)[0] == before[used]);
                assert forall|k: int| 0 <= k < list@.len() implies #[trigger] socket_views(list@)[k] == before.skip(used + 1)[k] by {
                    assert(list@[k] == l0[k + 1]);
                    assert(socket_views(l0)[k + 1] == before.skip(used)[k + 1]);
                }
                assert(socket_views(list@) =~= before.skip(used + 1));
                assert(before.take(used + 1).drop_last() =~= before.take(used));
            }
            if e.1.is_alive() {
                let ghost ev = (e.0, e.1@);
                keep.push(e);
                proof {
                    assert(socket_views(keep@) =~= kv.push(ev));
                    assert forall|a: int, b: int| 0 <= a < b < socket_views(keep@).len()
                        implies socket_views(keep@)[a].0 != socket_views(keep@)[b].0 by {
                        if b == kv.len() {
                            assert(keep@[a].0 != before[used].0);
                        }
                    }
                }
            }
            proof {
                used = used + 1;
                assert forall|a: int, j: int| 0 <= a < keep@.len() && used <= j < before.len()
                    implies #[trigger] keep@[a].0 != #[trigger] before[j].0 by {
                    if a == keep@.len() - 1 && keep@.len() > kv.len() {
                        assert(keep@[a].0 == before[used - 1].0);
                    }
                }
            }
        }
        proof {
            assert(before.take(before.len() as int) =~= before);
        }
        self.peer_map = keep;
    }

    /// Cuts the messages of every socket that holds bytes to read, as
    /// [`PeerSocket::read_msg`] does, and hands over the bodies of those
    /// that read them without failing, with their tokens, in order.  The
    /// caller decodes the bodies and hands the messages to
    /// [`P2PManager::route_msgs`].
    pub fn read_all(&mut self) -> (r: Vec<(usize, Vec<Vec<u8>>)>)
        ensures
            final(self)@ == (ManagerView { peers: all_read(old(self)@.peers), ..old(self)@ }),
            Seq::new(r@.len(), |i: int| (r@[i].0, Seq::new(r@[i].1@.len(), |j: int| r@[i].1@[j]@)))
                == read_bodies(old(self)@.peers),
    {
        proof { use_type_invariant(&*self); }
        let ghost before = socket_views(self.peer_map@);
        let mut list = Vec::new();
        std::mem::swap(&mut list, &mut self.peer_map);
        let mut out: Vec<(usize, Vec<Vec<u8>>)> = Vec::new();
        let mut i: usize = 0;
        while i < list.len()
            invariant
                i <= list@.len(),
                list@.len() == before.len(),
                forall|k: int| 0 <= k < i ==> #[trigger] socket_views(list@)[k] == all_read(before)[k],
                forall|k: int| i <= k < list@.len() ==> #[trigger] socket_views(list@)[k] == before[k],
                Seq::new(out@.len(), |a: int| (out@[a].0, Seq::new(out@[a].1@.len(), |j: int| out@[a].1@[j]@)))
                    == read_bodies(before.take(i as int)),
            decreases list@.len() - i,
        {
            let ghost l0 = list@;
            assert(socket_views(l0)[i as int] == before[i as int]);
            let ghost ov = Seq::new(out@.len(), |a: int| (out@[a].0, Seq::new(out@[a].1@.len(), |j: int| out@[a].1@[j]@)));
            let (t, mut p) = list.remove(i);
            assert(p@ == before[i as int].1);
            assert(before.take(i + 1).drop_last() =~= before.take(i as int));
            assert(before.take(i + 1).last() == before[i as int]);
            if p.prepare_to_recv_msg() {
                match p.read_msg() {
                    Ok(bodies) => {
                        let ghost bv = Seq::new(bodies@.len(), |j: int| bodies@[j]@);
                        out.push((t, bodies));
                        proof {
                            let nv = Seq::new(out@.len(), |a: int| (out@[a].0, Seq::new(out@[a].1@.len(), |j: int| out@[a].1@[j]@)));
                            assert(nv =~= ov.push((t, bv)));
                        }
                    },
                    Err(_) => {},
                }
            }
            list.insert(i, (t, p));
            proof {
                assert forall|k: int| 0 <= k < list@.len() && k != i
                    implies #[trigger] socket_views(list@)[k] == socket_views(l0)[k] by {
                    assert(list@[k] == l0[k]);
                }
                assert(socket_views(list@)[i as int] == all_read(before)[i as int]);
            }
            i = i + 1;
        }
        proof {
            assert(socket_views(list@) =~= all_read(before));
            lemma_wf_same_tokens(before, socket_views(list@));
            assert(before.take(before.len() as int) =~= before);
        }
        self.peer_map = list;
        out
    }

    /// Routes the messages that the peer with the token sent: heartbeats
    /// and discoveries are dropped; an exception is dropped, and one that
    /// gives a reason kills the socket; the payloads of peer lists are
    /// handed back to be decoded; the rest is handed back for the listener.
    pub fn route_msgs(&mut self, token: usize, msgs: Vec<SocketMessage>) -> (r: (Vec<SocketMessage>, Vec<Vec<u8>>))
        requires
            has_token(old(self)@.peers, token),
            exceptions_have_args(message_views(msgs@)),
        ensures
            message_views(r.0@) == dispatched(message_views(msgs@)),
            Seq::new(r.1@.len(), |i: int| r.1@[i]@) == peer_lists(message_views(msgs@)),
            !kills(message_views(msgs@)) ==> final(self)@ == old(self)@,
            kills(message_views(msgs@)) ==> forall|i: int| token_at(old(self)@.peers, token, i) ==>
                final(self)@ == (ManagerView {
                    peers: old(self)@.peers.update(i, (token, PeerSocketView { alive: false, ..old(self)@.peers[i].1 })),
                    ..old(self)@
                }),
    {
        let ghost mv = message_views(msgs@);
        let mut dispatch: Vec<SocketMessage> = Vec::new();
        let mut lists: Vec<Vec<u8>> = Vec::new();
        let mut kill = false;
        let mut i: usize = 0;
        while i < msgs.len()
            invariant
                i <= msgs@.len(),
                mv == message_views(msgs@),
                exceptions_have_args(mv),
                message_views(dispatch@) == dispatched(mv.take(i as int)),
                Seq::new(lists@.len(), |k: int| lists@[k]@) == peer_lists(mv.take(i as int)),
                kill == kills(mv.take(i as int)),
            decreases msgs@.len() - i,
        {
            let ghost dv = message_views(dispatch@);
            let ghost lv = Seq::new(lists@.len(), |k: int| lists@[k]@);
            let ghost pre = mv.take(i as int);
            let ghost cur = mv.take(i + 1);
            proof {
                assert(cur.drop_last() =~= pre);
                assert(cur.last() == mv[i as int]);
                assert(mv[i as int] == msgs@[i as int]@);
            }
            let m = &msgs[i];
            if m.is_heartbeat() {
            } else if m.is_discovery() {
            } else if m.is_exception() {
                proof {
                    assert(mv[i as int].event == EXCEPTION_STR@);
                }
                if m.exception_msg().is_some() {
                    kill = true;
                    proof {
                        assert(route_of(cur[i as int]) == Route::Kill(true));
                    }
                }
            } else if m.is_peer_info() {
                lists.push(m.clone_payload());
                proof {
                    assert(Seq::new(lists@.len(), |k: int| lists@[k]@) =~= lv.push(mv[i as int].payload));
                }
            } else {
                dispatch.push(m.clone());
                proof {
                    assert(message_views(dispatch@) =~= dv.push(mv[i as int]));
                }
            }
            proof {
                if kills(cur) && !kills(pre) {
                    let j = choose|j: int| 0 <= j < cur.len() && #[trigger] route_of(cur[j]) == Route::Kill(true);
                    if j < i {
                        assert(cur[j] == pre[j]);
                    }
                }
                if kills(pre) {
                    let j = choose|j: int| 0 <= j < pre.len() && #[trigger] route_of(pre[j]) == Route::Kill(true);
                    assert(cur[j] == pre[j]);
                }
            }
            i = i + 1;
        }
        proof {
            assert(mv.take(mv.len() as int) =~= mv);
        }
        if kill {
            self.kill_peer(token);
        }
        (dispatch, lists)
    }

    /// Adds the addresses that peers sent to the waiting list: an address
    /// equal to the one before it is dropped, those that may not wait are
    /// dropped, and of the rest the first ones join the list, as
    /// [`P2PManager::append_waiting_list`] takes them.
    pub fn absorb_waiting_peers(&mut self, new_peers: Vec<PeerAddr>)
        requires
            old(self)@.waiting_list.len() <= old(self)@.config.waiting_list_limit,
            append_count(old(self)@.waiting_list.len(), old(self)@.config.waiting_list_limit as nat)
                <= waiting_candidates(old(self)@, dedup_addrs(new_peers@)).len(),
        ensures
            ({
                let c = waiting_candidates(old(self)@, dedup_addrs(new_peers@));
                let n = append_count(
                    old(self)@.waiting_list.len(),
                    old(self)@.config.waiting_list_limit as nat,
                ) as int;
                final(self)@ == (ManagerView { waiting_list: old(self)@.waiting_list + c.take(n), ..old(self)@ })
            }),
    {
        let mut candidates = self.waiting_candidates_for(&new_peers);
        self.append_waiting_list(&mut candidates);
    }

    /// How many addresses the next append to the waiting list takes, as
    /// [`append_count`] says.
    pub fn waiting_room(&self) -> (r: usize)
        requires
            self@.waiting_list.len() <= self@.config.waiting_list_limit,
        ensures
            r == append_count(self@.waiting_list.len(), self@.config.waiting_list_limit as nat),
    {
        let remain_size = self.config.waiting_list_limit() - self.waiting_list.len();
        if remain_size > self.waiting_list.len() { self.waiting_list.len() } else { remain_size }
    }

    /// The addresses that peers sent which may wait for a connection: an
    /// address equal to the one before it is dropped, then those that may
    /// not wait.
    pub fn waiting_candidates_for(&self, new_peers: &Vec<PeerAddr>) -> (r: Vec<PeerAddr>)
        ensures
            r@ == waiting_candidates(self@, dedup_addrs(new_peers@)),
    {
        let ghost np = new_peers@;
        let mut deduped: Vec<PeerAddr> = Vec::new();
        let mut i: usize = 0;
        while i < new_peers.len()
            invariant
                i <= np.len(),
                new_peers@ == np,
                deduped@ == dedup_addrs(np.take(i as int)),
            decreases np.len() - i,
        {
            let ghost cur = np.take(i + 1);
            proof {
                assert(cur.drop_last() =~= np.take(i as int));
                assert(cur.last() == np[i as int]);
                if i >= 1 {
                    assert(cur[cur.len() - 2] == np[i - 1]);
                }
            }
            if i == 0 || new_peers[i - 1] != new_peers[i] {
                deduped.push(new_peers[i]);
            }
            i = i + 1;
        }
        proof {
            assert(np.take(np.len() as int) =~= np);
        }
        let ghost dd = deduped@;
        let mut candidates: Vec<PeerAddr> = Vec::new();
        let mut j: usize = 0;
        while j < deduped.len()
            invariant
                j <= dd.len(),
                deduped@ == dd,
                candidates@ == waiting_candidates(self@, dd.take(j as int)),
            decreases dd.len() - j,
        {
            proof {
                assert(dd.take(j + 1).drop_last() =~= dd.take(j as int));
                assert(dd.take(j + 1).last() == dd[j as int]);
            }
            if self.addr_is_valid_for_waiting_list(&deduped[j]) {
                candidates.push(deduped[j]);
            }
            j = j + 1;
        }
        proof {
            assert(dd.take(dd.len() as int) =~= dd);
        }
        candidates
    }

    /// The bytes waiting to be written to the stream of the peer with the
    /// token.
    pub fn pending(&self, token: usize) -> (r: &[u8])
        requires
            has_token(self@.peers, token),
        ensures
            forall|i: int| token_at(self@.peers, token, i) ==> r@ == self@.peers[i].1.write_buffer,
    {
        proof { use_type_invariant(self); }
        let i = self.index_of(token).unwrap();
        assert(self@.peers[i as int].1 == self.peer_map@[i as int].1@);
        assert forall|j: int| token_at(self@.peers, token, j) implies j == i by {}
        self.peer_map[i].1.pending()
    }

    /// How much the socket of the peer with the token sent and received.
    pub fn peer_stat(&self, token: usize) -> (r: PeerSocketStat)
        requires
            has_token(self@.peers, token),
        ensures
            forall|i: int| token_at(self@.peers, token, i) ==> {
                &&& r.spec_data_send() == self@.peers[i].1.data_send
                &&& r.spec_data_recv() == self@.peers[i].1.data_recv
            },
    {
        proof { use_type_invariant(self); }
        let i = self.index_of(token).unwrap();
        assert(self@.peers[i as int].1 == self.peer_map@[i as int].1@);
        assert forall|j: int| token_at(self@.peers, token, j) implies j == i by {}
        self.peer_map[i].1.stat()
    }

    /// How many addresses are waiting.
    pub fn waiting_count(&self) -> (r: usize)
        ensures
            r == self@.waiting_list.len(),
    {
        self.waiting_list.len()
    }

    /// The settings of the manager.
    pub fn config(&self) -> (r: &P2PConfig)
        ensures
            r@ == self@.config,
    {
        &self.config
    }

    /// The name of the manager.
    pub fn name(&self) -> (r: String)
        ensures
            r@ == self@.name,
    {
        self.name.clone()
    }

    /// The manager describes itself with an empty text.
    pub fn description(&self) -> (r: String)
        ensures
            r@ == Seq::<char>::empty(),
    {
        String::new()
    }

    /// The status of the thread of the manager.
    pub fn status(&self) -> (r: ThreadStatus)
        ensures
            r == self@.status,
    {
        self.thread_status
    }

    /// Sets the status of the thread of the manager.
    pub fn set_status(&mut self, status: ThreadStatus)
        ensures
            final(self)@ == (ManagerView { status: status, ..old(self)@ }),
    {
        proof { use_type_invariant(&*self); }
        self.thread_status = status;
    }

    /// Milliseconds between two rounds of the run loop.
    pub fn time_span(&self) -> (r: u64)
        ensures
            r == TIME_SPAN,
    {
        TIME_SPAN
    }

    /// Before the run loop: the bootstrap peers are the waiting list.
    pub fn pre_exec(&mut self) -> (r: bool)
        ensures
            r,
            final(self)@ == (ManagerView { waiting_list: old(self)@.config.bootstrap_peers, ..old(self)@ }),
    {
        proof { use_type_invariant(&*self); }
        self.waiting_list = self.config.bootstrap_peers();
        true
    }
}

impl ThreadInfo for P2PManager {
    open spec fn current_status(&self) -> ThreadStatus {
        self@.status
    }

    fn status(&self) -> (r: ThreadStatus) {
        self.thread_status
    }

    fn set_status(&mut self, status: ThreadStatus) {
        P2PManager::set_status(self, status);
    }

    fn thread_name(&self) -> (r: String)
        ensures
            r@ == self@.name,
    {
        self.name()
    }

    fn thread_update_time_span(&self) -> (r: u64)
        ensures
            r == TIME_SPAN,
    {
        TIME_SPAN
    }
}

/// What one call undoes: banning an address that is not banned, then
/// lifting its ban, leaves the ban list as it was.
pub proof fn law_unban_undoes_ban(list: Seq<PeerAddr>, addr: PeerAddr)
    requires
        !list.contains(addr),
    ensures
        first_position(list.push(addr), addr, list.len() as int),
        list.push(addr).remove(list.len() as int) == list,
{
    assert forall|j: int| 0 <= j < list.len() implies list.push(addr)[j] != addr by {
        assert(list.push(addr)[j] == list[j]);
    }
    assert(list.push(addr).remove(list.len() as int) =~= list);
}

/// What one call undoes: a peer accepted under a token that no peer had
/// is the one found under it, and dropping it leaves the peers as they
/// were.
pub proof fn law_drop_undoes_accept(peers: Seq<(usize, PeerSocketView)>, token: usize, p: PeerSocketView)
    requires
        !has_token(peers, token),
    ensures
        token_at(peers.push((token, p)), token, peers.len() as int),
        forall|i: int| token_at(peers.push((token, p)), token, i) ==> i == peers.len(),
        peers.push((token, p)).remove(peers.len() as int) == peers,
{
    let s = peers.push((token, p));
    assert forall|i: int| token_at(s, token, i) implies i == peers.len() by {
        if i < peers.len() {
            assert(s[i] == peers[i]);
            assert(token_at(peers, token, i));
        }
    }
    assert(s.remove(peers.len() as int) =~= peers);
}

/// The waiting list never grows beyond its limit: what joins it fits in
/// the room left.
pub proof fn law_waiting_list_bounded(waiting: nat, limit: nat)
    requires
        waiting <= limit,
    ensures
        waiting + append_count(waiting, limit) <= limit,
{
}

} // verus!
