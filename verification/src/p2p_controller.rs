//! The controller of the peer-to-peer network: the peers the node keeps a
//! session with, the addresses waiting for a connection and the addresses
//! it has banned, and the upkeep of these lists.  Sockets, the event loop
//! and the clock stay with the caller, which performs what the controller
//! decides.
use vstd::prelude::*;
use crate::account_order::{account_key, compare_accounts, key_lt, lemma_key_order, text_key};
use crate::address::Address;
use crate::peer::{Peer, PeerView};
use crate::protocol::{account_view, clone_account, table_view, P2PProtocol, PROTOCOL_VERSION};
use crate::session::{SessionStatus, SessionView};
use crate::stun::{PeerAddr, SocketInfo};

verus! {

/// Milliseconds between two rounds of upkeep.
pub const UPDATE_TIMEBASE: i64 = 3000;

/// Milliseconds a session may spend connecting.
pub const CONNECT_TIMEOUT: i64 = 3000;

/// Milliseconds a session may go without receiving anything.
pub const EXPIRE: i64 = 60000;

/// The name of the channel of the controller.
pub const CHANNEL_NAME: &'static str = "P2P_CONTROLLER";

/// The peers a controller keeps at most.
pub const MAX_ALLOWED_PEERS: usize = 512;

/// The banned addresses a controller keeps at most.
pub const MAX_BLOCKED_PEERS: usize = 1024;

/// The addresses a controller keeps waiting at most.
pub const MAX_WAITING_LIST: usize = 1024;

/// The peers a controller looks for more peers under.
pub const MIN_REQUIRED_PEERS: usize = 4;

/// The account of the peer that every node knows to begin with.
pub const BOOTSTRAP_ACCOUNT: &'static str = "local_test";

/// The address of the peer that every node knows to begin with:
/// 127.0.0.1, port 19999.
pub open spec fn bootstrap_addr() -> PeerAddr {
    PeerAddr { v6: false, ip: 0x7f00_0001, port: 19999 }
}

/// The value of a [`P2PController`].
pub struct ControllerView {
    pub account: Seq<char>,
    pub peers: Seq<(usize, PeerView)>,
    pub min_required_peers: usize,
    pub max_allowed_peers: usize,
    pub waiting_list: Seq<PeerAddr>,
    pub max_waiting_list: usize,
    pub block_list: Seq<PeerAddr>,
    pub max_blocked_peers: usize,
    pub last_updated: i64,
    pub version: Seq<char>,
}

/// The tokens and views of the peers, in order.
pub open spec fn peer_views(ps: Seq<(usize, Peer)>) -> Seq<(usize, PeerView)> {
    Seq::new(ps.len(), |i: int| (ps[i].0, ps[i].1@))
}

/// No two peers have the same token.
pub open spec fn distinct_tokens(ps: Seq<(usize, PeerView)>) -> bool {
    forall|i: int, j: int| 0 <= i < j < ps.len() ==> ps[i].0 != ps[j].0
}

/// The peer at index `i` has the token `t`.
pub open spec fn token_at(ps: Seq<(usize, PeerView)>, t: usize, i: int) -> bool {
    0 <= i < ps.len() && ps[i].0 == t
}

/// Some peer has the token `t`.
pub open spec fn has_token(ps: Seq<(usize, PeerView)>, t: usize) -> bool {
    exists|i: int| token_at(ps, t, i)
}

/// Some peer has the address `a`.
pub open spec fn has_addr(ps: Seq<(usize, PeerView)>, a: PeerAddr) -> bool {
    exists|i: int| 0 <= i < ps.len() && ps[i].1.ip_addr == a
}

/// Some banned address has the IP of `a`.
pub open spec fn ip_banned(list: Seq<PeerAddr>, a: PeerAddr) -> bool {
    exists|i: int| 0 <= i < list.len() && list[i].v6 == a.v6 && list[i].ip == a.ip
}

/// A peer that the upkeep at `now` keeps: its session is not aborted, it
/// received something less than `EXPIRE` milliseconds ago, it is connected
/// or has been connecting for less than `CONNECT_TIMEOUT` milliseconds, and
/// it has credit left.
pub open spec fn peer_keeps(p: PeerView, now: int) -> bool {
    &&& p.session.status != SessionStatus::Abort
    &&& now - p.session.updated <= EXPIRE
    &&& (p.session.connected || now - p.session.created <= CONNECT_TIMEOUT)
    &&& p.credit != 0
}

/// A peer that the upkeep at `now` bans: one that would be kept but for
/// its credit, which is spent.
pub open spec fn peer_untrusted(p: PeerView, now: int) -> bool {
    &&& p.session.status != SessionStatus::Abort
    &&& now - p.session.updated <= EXPIRE
    &&& (p.session.connected || now - p.session.created <= CONNECT_TIMEOUT)
    &&& p.credit == 0
}

/// The peers kept at `now`, in order.
pub open spec fn kept_peers(ps: Seq<(usize, PeerView)>, now: int) -> Seq<(usize, PeerView)>
    decreases ps.len(),
{
    if ps.len() == 0 {
        Seq::empty()
    } else {
        let rest = kept_peers(ps.drop_last(), now);
        if peer_keeps(ps.last().1, now) { rest.push(ps.last()) } else { rest }
    }
}

/// The tokens of the peers dropped at `now`, in order.
pub open spec fn dropped_tokens(ps: Seq<(usize, PeerView)>, now: int) -> Seq<usize>
    decreases ps.len(),
{
    if ps.len() == 0 {
        Seq::empty()
    } else {
        let rest = dropped_tokens(ps.drop_last(), now);
        if peer_keeps(ps.last().1, now) { rest } else { rest.push(ps.last().0) }
    }
}

/// The addresses of the peers banned at `now`, in order.
pub open spec fn untrusted_addrs(ps: Seq<(usize, PeerView)>, now: int) -> Seq<PeerAddr>
    decreases ps.len(),
{
    if ps.len() == 0 {
        Seq::empty()
    } else {
        let rest = untrusted_addrs(ps.drop_last(), now);
        if peer_untrusted(ps.last().1, now) { rest.push(ps.last().1.ip_addr) } else { rest }
    }
}

/// The ban list after banning `a`: the oldest entry leaves when the list
/// grows beyond `max`.
pub open spec fn block_one(list: Seq<PeerAddr>, a: PeerAddr, max: usize) -> Seq<PeerAddr> {
    let l = list.push(a);
    if l.len() > max { l.drop_first() } else { l }
}

/// The ban list after banning each address in turn.
pub open spec fn block_all(list: Seq<PeerAddr>, addrs: Seq<PeerAddr>, max: usize) -> Seq<PeerAddr>
    decreases addrs.len(),
{
    if addrs.len() == 0 {
        list
    } else {
        block_one(block_all(list, addrs.drop_last(), max), addrs.last(), max)
    }
}

/// How many waiting addresses are taken for a connection: as many as the
/// room left for peers allows.
pub open spec fn fetch_size(waiting: int, peers: int, max: int) -> int {
    if waiting + peers > max { max - peers } else { waiting }
}

/// The addresses of the peers, in order.
pub open spec fn peer_addrs(ps: Seq<(usize, PeerView)>) -> Seq<PeerAddr> {
    Seq::new(ps.len(), |i: int| ps[i].1.ip_addr)
}

/// The tokens of the peers, in order.
pub open spec fn peer_tokens(ps: Seq<(usize, PeerView)>) -> Seq<usize> {
    Seq::new(ps.len(), |i: int| ps[i].0)
}

/// An entry of a peer table, with the account taken as text.
pub type EntryView = (Option<Seq<char>>, SocketInfo);

/// The entry of the peer that every node knows to begin with.
pub open spec fn bootstrap_entry() -> EntryView {
    (Some(BOOTSTRAP_ACCOUNT@), (bootstrap_addr(), 19999))
}

/// The entries of the tables of the peers, in order of the peers.
pub open spec fn peer_tables(ps: Seq<(usize, PeerView)>) -> Seq<EntryView>
    decreases ps.len(),
{
    if ps.len() == 0 {
        Seq::empty()
    } else {
        peer_tables(ps.drop_last()) + ps.last().1.session.table
    }
}

/// The entries a search for peers starts from: those of the tables of the
/// peers, then the one of the peer that every node knows.
pub open spec fn search_raw(ps: Seq<(usize, PeerView)>) -> Seq<EntryView> {
    peer_tables(ps).push(bootstrap_entry())
}

/// The entry at `k` is the first with its account.
pub open spec fn first_at(raw: Seq<EntryView>, k: int) -> bool {
    forall|j: int| 0 <= j < k ==> text_key(#[trigger] raw[j].0) != text_key(raw[k].0)
}

/// An entry that the search keeps: not of the account of the node, not of
/// a peer already, not banned.
pub open spec fn search_keeps(v: ControllerView, e: EntryView) -> bool {
    &&& e.0 != Some(v.account)
    &&& !has_addr(v.peers, e.1.0)
    &&& !v.block_list.contains(e.1.0)
}

/// The entries are in the order of their accounts, no account twice.
pub open spec fn sorted_by_account(r: Seq<EntryView>) -> bool {
    forall|i: int, j: int| 0 <= i < j < r.len() ==> key_lt(text_key(#[trigger] r[i].0), text_key(#[trigger] r[j].0))
}

/// The entry at index `i` of `s` is `e`.
pub open spec fn entry_at(s: Seq<EntryView>, i: int, e: EntryView) -> bool {
    0 <= i < s.len() && s[i] == e
}

/// The entry at index `k` of `raw` is `e`, the first of its account.
pub open spec fn first_entry_at(raw: Seq<EntryView>, k: int, e: EntryView) -> bool {
    entry_at(raw, k, e) && first_at(raw, k)
}

/// `e` is in `s`.
pub open spec fn occurs_in(s: Seq<EntryView>, e: EntryView) -> bool {
    exists|i: int| #[trigger] entry_at(s, i, e)
}

/// `e` is in `raw`, the first of its account.
pub open spec fn first_in(raw: Seq<EntryView>, e: EntryView) -> bool {
    exists|k: int| #[trigger] first_entry_at(raw, k, e)
}

/// `dv` holds the first entry of each account of `rv`, and only those.
pub open spec fn firsts_of(rv: Seq<EntryView>, dv: Seq<EntryView>) -> bool {
    &&& forall|i: int| 0 <= i < dv.len() ==> first_in(rv, #[trigger] dv[i])
    &&& forall|k: int| 0 <= k < rv.len() && first_at(rv, k) ==> occurs_in(dv, #[trigger] rv[k])
}

/// `r` is what a search for peers gives in the state `v`: of the entries
/// that it starts from, the first one of each account, those that it
/// keeps, in the order of their accounts.
pub open spec fn is_search_result(v: ControllerView, r: Seq<EntryView>) -> bool {
    let raw = search_raw(v.peers);
    &&& sorted_by_account(r)
    &&& forall|i: int| 0 <= i < r.len() ==> first_in(raw, #[trigger] r[i]) && search_keeps(v, r[i])
    &&& forall|k: int| 0 <= k < raw.len() && first_at(raw, k) && search_keeps(v, raw[k]) ==>
        occurs_in(r, #[trigger] raw[k])
}

/// The addresses of the entries, in order.
pub open spec fn entry_addrs(r: Seq<EntryView>) -> Seq<PeerAddr> {
    Seq::new(r.len(), |i: int| r[i].1.0)
}

/// The tokens of the peers to bootstrap: those not bootstrapped yet whose
/// session is in the `Init` status, in order.
pub open spec fn bootstrap_tokens(ps: Seq<(usize, PeerView)>) -> Seq<usize>
    decreases ps.len(),
{
    if ps.len() == 0 {
        Seq::empty()
    } else {
        let rest = bootstrap_tokens(ps.drop_last());
        let p = ps.last().1;
        if !p.bootstraped && p.session.status == SessionStatus::Init { rest.push(ps.last().0) } else { rest }
    }
}

/// The peers, all marked as bootstrapped.
pub open spec fn all_bootstraped(ps: Seq<(usize, PeerView)>) -> Seq<(usize, PeerView)> {
    Seq::new(ps.len(), |i: int| (ps[i].0, PeerView { bootstraped: true, ..ps[i].1 }))
}

/// What a round of upkeep at `now` leaves of the state `v` before it looks
/// for more peers: the peers kept, the untrusted ones banned.
pub open spec fn pruned(v: ControllerView, now: int) -> ControllerView {
    ControllerView {
        peers: kept_peers(v.peers, now),
        block_list: block_all(v.block_list, untrusted_addrs(v.peers, now), v.max_blocked_peers),
        last_updated: now as i64,
        ..v
    }
}

/// What the controller owes after a round of upkeep that found too few
/// peers in the state `mid`: it refreshed the waiting list by a search
/// when that list was short too, then took the addresses to connect to
/// from its front.
pub open spec fn refilled(mid: ControllerView, after: ControllerView, connect: Seq<PeerAddr>) -> bool {
    exists|w: Seq<PeerAddr>| #[trigger] refilled_from(mid, after, connect, w)
}

/// [`refilled`], with `w` the waiting list that the addresses were taken
/// from.
pub open spec fn refilled_from(mid: ControllerView, after: ControllerView, connect: Seq<PeerAddr>, w: Seq<PeerAddr>) -> bool {
    &&& (if mid.waiting_list.len() < mid.min_required_peers {
        exists|s: Seq<EntryView>| #[trigger] is_search_result(mid, s) && w == entry_addrs(s)
    } else {
        w == mid.waiting_list
    })
    &&& ({
        let n = fetch_size(w.len() as int, mid.peers.len() as int, mid.max_allowed_peers as int);
        &&& connect == w.take(n)
        &&& after == (ControllerView { waiting_list: w.skip(n), ..mid })
    })
}

/// What one round of upkeep owes the caller.
#[derive(Debug)]
pub struct UpdatePlan {
    /// The tokens of the peers dropped, whose sockets are to be closed.
    pub removed: Vec<usize>,
    /// The addresses to connect to and add as peers.
    pub connect: Vec<PeerAddr>,
    /// Whether the controller looked for more peers; the new peers are then
    /// to be bootstrapped.
    pub refill: bool,
}

/// The peer-to-peer network controller.
#[derive(Debug)]
pub struct P2PController {
    account: Address,
    peer_list: Vec<(usize, Peer)>,
    min_required_peers: usize,
    max_allowed_peers: usize,
    waiting_list: Vec<PeerAddr>,
    max_waiting_list: usize,
    block_list: Vec<PeerAddr>,
    max_blocked_peers: usize,
    last_updated: i64,
    protocol: P2PProtocol,
}

impl View for P2PController {
    type V = ControllerView;

    closed spec fn view(&self) -> ControllerView {
        ControllerView {
            account: self.account.text@,
            peers: peer_views(self.peer_list@),
            min_required_peers: self.min_required_peers,
            max_allowed_peers: self.max_allowed_peers,
            waiting_list: self.waiting_list@,
            max_waiting_list: self.max_waiting_list,
            block_list: self.block_list@,
            max_blocked_peers: self.max_blocked_peers,
            last_updated: self.last_updated,
            version: self.protocol@,
        }
    }
}

impl P2PController {
    /// No two peers have the same token, and the controller looks for
    /// peers under a number it may hold.
    #[verifier::type_invariant]
    closed spec fn inv(self) -> bool {
        &&& distinct_tokens(peer_views(self.peer_list@))
        &&& self.min_required_peers <= self.max_allowed_peers
    }

    /// A controller for `account`, with no peer, nothing waiting or banned,
    /// last updated at `now_ms`.
    pub fn new(account: Address, now_ms: i64) -> (r: Self)
        ensures
            r@ == (ControllerView {
                account: account.text@,
                peers: Seq::empty(),
                min_required_peers: MIN_REQUIRED_PEERS,
                max_allowed_peers: MAX_ALLOWED_PEERS,
                waiting_list: Seq::empty(),
                max_waiting_list: MAX_WAITING_LIST,
                block_list: Seq::empty(),
                max_blocked_peers: MAX_BLOCKED_PEERS,
                last_updated: now_ms,
                version: PROTOCOL_VERSION@,
            }),
    {
        let r = P2PController {
            account: account,
            peer_list: Vec::new(),
            min_required_peers: MIN_REQUIRED_PEERS,
            max_allowed_peers: MAX_ALLOWED_PEERS,
            waiting_list: Vec::new(),
            max_waiting_list: MAX_WAITING_LIST,
            block_list: Vec::new(),
            max_blocked_peers: MAX_BLOCKED_PEERS,
            last_updated: now_ms,
            protocol: P2PProtocol::new(),
        };
        assert(peer_views(r.peer_list@) =~= Seq::empty());
        r
    }

    /// Forgets all peers.
    pub fn init_peers_table(&mut self)
        ensures
            final(self)@ == (ControllerView { peers: Seq::empty(), ..old(self)@ }),
    {
        proof { use_type_invariant(&*self); }
        self.peer_list = Vec::new();
        assert(peer_views(self.peer_list@) =~= Seq::empty());
    }

    /// The account of the node.
    pub fn account(&self) -> (r: Address)
        ensures
            r.text@ == self@.account,
    {
        self.account.clone()
    }

    /// The protocol the node speaks.
    pub fn protocol(&self) -> (r: P2PProtocol)
        ensures
            r@ == self@.version,
    {
        self.protocol.clone()
    }

    /// Some peer has the address.
    pub fn socket_exist(&self, addr: &PeerAddr) -> (r: bool)
        ensures
            r == has_addr(self@.peers, *addr),
    {
        let mut i: usize = 0;
        while i < self.peer_list.len()
            invariant
                i <= self.peer_list@.len(),
                forall|k: int| 0 <= k < i ==> #[trigger] self.peer_list@[k].1@.ip_addr != *addr,
            decreases self.peer_list@.len() - i,
        {
            if self.peer_list[i].1.addr() == *addr {
                assert(peer_views(self.peer_list@)[i as int].1.ip_addr == *addr);
                return true;
            }
            i = i + 1;
        }
        assert forall|k: int| 0 <= k < self@.peers.len() implies #[trigger] self@.peers[k].1.ip_addr != *addr by {
            assert(self@.peers[k].1 == self.peer_list@[k].1@);
        }
        false
    }

    /// The address is banned.
    pub fn socket_blocked(&self, addr: &PeerAddr) -> (r: bool)
        ensures
            r == self@.block_list.contains(*addr),
    {
        let mut i: usize = 0;
        while i < self.block_list.len()
            invariant
                i <= self.block_list@.len(),
                forall|k: int| 0 <= k < i ==> #[trigger] self.block_list@[k] != *addr,
            decreases self.block_list@.len() - i,
        {
            if self.block_list[i] == *addr {
                return true;
            }
            i = i + 1;
        }
        false
    }

    /// An address with the IP of `addr` is banned, whatever its port.
    pub fn has_blocked(&self, addr: &PeerAddr) -> (r: bool)
        ensures
            r == ip_banned(self@.block_list, *addr),
    {
        let mut i: usize = 0;
        while i < self.block_list.len()
            invariant
                i <= self.block_list@.len(),
                forall|k: int| 0 <= k < i ==> !(#[trigger] self.block_list@[k].v6 == addr.v6
                    && self.block_list@[k].ip == addr.ip),
            decreases self.block_list@.len() - i,
        {
            if self.block_list[i].same_ip(addr) {
                return true;
            }
            i = i + 1;
        }
        false
    }

    /// Whether a peer that connects from `addr` is taken: one that is not a
    /// peer already and whose IP is not banned.
    pub fn accepts_peer(&self, addr: &PeerAddr) -> (r: bool)
        ensures
            r == (!has_addr(self@.peers, *addr) && !ip_banned(self@.block_list, *addr)),
    {
        !self.socket_exist(addr) && !self.has_blocked(addr)
    }

    /// The index of the peer with the token.
    fn index_of(&self, token: usize) -> (r: Option<usize>)
        ensures
            r is None <==> !has_token(self@.peers, token),
            r matches Some(i) ==> token_at(self@.peers, token, i as int),
    {
        let mut i: usize = 0;
        while i < self.peer_list.len()
            invariant
                i <= self.peer_list@.len(),
                forall|k: int| 0 <= k < i ==> #[trigger] self.peer_list@[k].0 != token,
            decreases self.peer_list@.len() - i,
        {
            if self.peer_list[i].0 == token {
                assert(token_at(self@.peers, token, i as int));
                return Some(i);
            }
            i = i + 1;
        }
        assert forall|k: int| !token_at(self@.peers, token, k) by {
            if 0 <= k < self@.peers.len() {
                assert(self@.peers[k].0 == self.peer_list@[k].0);
            }
        }
        None
    }

    /// The peer with the token.
    pub fn get_peer(&self, token: usize) -> (r: Option<&Peer>)
        ensures
            r is None <==> !has_token(self@.peers, token),
            r matches Some(p) ==> exists|i: int| token_at(self@.peers, token, i) && self@.peers[i].1 == p@,
    {
        match self.index_of(token) {
            Some(i) => {
                assert(self@.peers[i as int].1 == self.peer_list@[i as int].1@);
                Some(&self.peer_list[i].1)
            },
            None => None,
        }
    }

    /// Adds the peer under the token, in place of the peer that had it.
    pub fn add_peer(&mut self, token: usize, peer: Peer)
        ensures
            forall|i: int| token_at(old(self)@.peers, token, i)
                ==> final(self)@ == (ControllerView { peers: old(self)@.peers.update(i, (token, peer@)), ..old(self)@ }),
            !has_token(old(self)@.peers, token)
                ==> final(self)@ == (ControllerView { peers: old(self)@.peers.push((token, peer@)), ..old(self)@ }),
    {
        proof { use_type_invariant(&*self); }
        let ghost pv = peer@;
        match self.index_of(token) {
            Some(i) => {
                let ghost before = self.peer_list@;
                let mut list = Vec::new();
                std::mem::swap(&mut list, &mut self.peer_list);
                list.set(i, (token, peer));
                proof {
                    assert(peer_views(list@) =~= peer_views(before).update(i as int, (token, pv)));
                    assert forall|j: int| token_at(peer_views(before), token, j) implies j == i by {}
                }
                self.peer_list = list;
            },
            None => {
                let ghost before = self.peer_list@;
                let mut list = Vec::new();
                std::mem::swap(&mut list, &mut self.peer_list);
                list.push((token, peer));
                proof {
                    assert(peer_views(list@) =~= peer_views(before).push((token, pv)));
                    assert forall|a: int, b: int| 0 <= a < b < peer_views(list@).len()
                        implies peer_views(list@)[a].0 != peer_views(list@)[b].0 by {
                        if b == before.len() {
                            assert(!token_at(peer_views(before), token, a));
                        }
                    }
                }
                self.peer_list = list;
            },
        }
    }

    /// Takes out the peer with the token, whose socket is then to be
    /// closed.
    pub fn remove_peer(&mut self, token: usize) -> (r: Option<Peer>)
        ensures
            !has_token(old(self)@.peers, token) ==> r is None && final(self)@ == old(self)@,
            forall|i: int| token_at(old(self)@.peers, token, i) ==> {
                &&& r matches Some(p) && p@ == old(self)@.peers[i].1
                &&& final(self)@ == (ControllerView { peers: old(self)@.peers.remove(i), ..old(self)@ })
            },
    {
        proof { use_type_invariant(&*self); }
        match self.index_of(token) {
            Some(i) => {
                let ghost before = self.peer_list@;
                let mut list = Vec::new();
                std::mem::swap(&mut list, &mut self.peer_list);
                let (_, p) = list.remove(i);
                proof {
                    assert(peer_views(list@) =~= peer_views(before).remove(i as int));
                    assert forall|j: int| token_at(peer_views(before), token, j) implies j == i by {}
                    assert forall|a: int, b: int| 0 <= a < b < peer_views(list@).len()
                        implies peer_views(list@)[a].0 != peer_views(list@)[b].0 by {
                        let a0 = if a < i { a } else { a + 1 };
                        let b0 = if b < i { b } else { b + 1 };
                        assert(peer_views(list@)[a] == peer_views(before)[a0]);
                        assert(peer_views(list@)[b] == peer_views(before)[b0]);
                    }
                }
                self.peer_list = list;
                Some(p)
            },
            None => None,
        }
    }

    /// Aborts the session of the peer with the token, as when a send finds
    /// its connection aborted.
    pub fn abort_peer(&mut self, token: usize)
        ensures
            !has_token(old(self)@.peers, token) ==> final(self)@ == old(self)@,
            forall|i: int| token_at(old(self)@.peers, token, i) ==>
                final(self)@ == (ControllerView {
                    peers: old(self)@.peers.update(i, (token, PeerView {
                        session: SessionView { status: SessionStatus::Abort, ..old(self)@.peers[i].1.session },
                        ..old(self)@.peers[i].1
                    })),
                    ..old(self)@
                }),
    {
        proof { use_type_invariant(&*self); }
        match self.index_of(token) {
            Some(i) => {
                let ghost before = self.peer_list@;
                let mut list = Vec::new();
                std::mem::swap(&mut list, &mut self.peer_list);
                let (t, mut p) = list.remove(i);
                p.disconnect();
                let ghost pv = p@;
                list.insert(i, (t, p));
                proof {
                    assert(peer_views(list@) =~= peer_views(before).update(i as int, (token, pv)));
                    assert forall|j: int| token_at(peer_views(before), token, j) implies j == i by {}
                }
                self.peer_list = list;
            },
            None => {},
        }
    }

    /// The tokens of the peers, in order.
    pub fn tokens(&self) -> (r: Vec<usize>)
        ensures
            r@ == peer_tokens(self@.peers),
    {
        let mut out: Vec<usize> = Vec::new();
        let mut i: usize = 0;
        while i < self.peer_list.len()
            invariant
                i <= self.peer_list@.len(),
                out@.len() == i,
                forall|k: int| 0 <= k < i ==> #[trigger] out@[k] == self.peer_list@[k].0,
            decreases self.peer_list@.len() - i,
        {
            out.push(self.peer_list[i].0);
            i = i + 1;
        }
        assert(out@ =~= peer_tokens(self@.peers));
        out
    }

    /// The addresses of the peers, in order.
    pub fn peer_addrs(&self) -> (r: Vec<PeerAddr>)
        ensures
            r@ == peer_addrs(self@.peers),
    {
        let mut out: Vec<PeerAddr> = Vec::new();
        let mut i: usize = 0;
        while i < self.peer_list.len()
            invariant
                i <= self.peer_list@.len(),
                out@.len() == i,
                forall|k: int| 0 <= k < i ==> #[trigger] out@[k] == self.peer_list@[k].1@.ip_addr,
            decreases self.peer_list@.len() - i,
        {
            out.push(self.peer_list[i].1.addr());
            i = i + 1;
        }
        assert(out@ =~= peer_addrs(self@.peers));
        out
    }

    /// What a request to gossip to the peer of the token calls for: the
    /// addresses of all peers, to send it, when the peer is known.
    pub fn gossip_hosts(&self, token: usize) -> (r: Option<Vec<PeerAddr>>)
        ensures
            r is Some <==> has_token(self@.peers, token),
            r matches Some(v) ==> v@ == peer_addrs(self@.peers),
    {
        match self.index_of(token) {
            Some(_) => Some(self.peer_addrs()),
            None => None,
        }
    }

    /// Bans the address: the oldest bans leave until at most
    /// `max_blocked_peers` are left, then the address is added.
    pub fn ban_peer(&mut self, addr: &PeerAddr, loops: usize)
        ensures
            final(self)@ == (ControllerView {
                block_list: (if old(self)@.block_list.len() > old(self)@.max_blocked_peers {
                    old(self)@.block_list.skip(old(self)@.block_list.len() - old(self)@.max_blocked_peers)
                } else {
                    old(self)@.block_list
                }).push(*addr),
                ..old(self)@
            }),
    {
        proof { use_type_invariant(&*self); }
        let ghost b0 = self.block_list@;
        let mut list: Vec<PeerAddr> = Vec::new();
        std::mem::swap(&mut list, &mut self.block_list);
        let max = self.max_blocked_peers;
        while list.len() > max
            invariant
                list@.len() <= b0.len(),
                b0.len() > max ==> list@.len() >= max,
                b0.len() > max ==> list@ == b0.skip(b0.len() - list@.len()),
                b0.len() <= max ==> list@ == b0,
            decreases list@.len(),
        {
            let ghost before = list@;
            list.remove(0);
            assert(b0.len() > max);
            assert(before == b0.skip(b0.len() - before.len()));
            assert forall|k: int| 0 <= k < list@.len() implies
                #[trigger] list@[k] == b0.skip(b0.len() - list@.len())[k] by {
                assert(list@[k] == before[k + 1]);
                assert(before[k + 1] == b0[b0.len() - before.len() + k + 1]);
            }
            assert(list@ =~= b0.skip(b0.len() - list@.len()));
        }
        list.push(*addr);
        self.block_list = list;
    }


    /// The entries of the tables of the peers, then the entry of the peer
    /// that every node knows.
    fn raw_peers_table(&self) -> (r: Vec<(Option<Address>, SocketInfo)>)
        ensures
            table_view(r@) == search_raw(self@.peers),
    {
        let mut raw: Vec<(Option<Address>, SocketInfo)> = Vec::new();
        let mut i: usize = 0;
        while i < self.peer_list.len()
            invariant
                i <= self.peer_list@.len(),
                table_view(raw@) == peer_tables(self@.peers.take(i as int)),
            decreases self.peer_list@.len() - i,
        {
            let mut t = self.peer_list[i].1.peer_table();
            proof {
                assert(self@.peers.take(i + 1).drop_last() =~= self@.peers.take(i as int));
                assert(self@.peers.take(i + 1).last() == self@.peers[i as int]);
            }
            let ghost before = raw@;
            let ghost added = t@;
            raw.append(&mut t);
            assert(table_view(raw@) =~= table_view(before) + table_view(added));
            i = i + 1;
        }
        assert(self@.peers.take(self@.peers.len() as int) =~= self@.peers);
        let ghost before = raw@;
        let boot = PeerAddr { v6: false, ip: 0x7f00_0001, port: 19999 };
        raw.push((Some(Address { text: String::from_str(BOOTSTRAP_ACCOUNT) }), (boot, 19999)));
        assert(table_view(raw@) =~= table_view(before).push(bootstrap_entry()));
        raw
    }

    /// The entries with the first of each account, in the order of their
    /// accounts.
    #[verifier::spinoff_prover]
    #[verifier::rlimit(40)]
    fn first_by_account(raw: &Vec<(Option<Address>, SocketInfo)>) -> (r: Vec<(Option<Address>, SocketInfo)>)
        ensures
            sorted_by_account(table_view(r@)),
            firsts_of(table_view(raw@), table_view(r@)),
    {
        let ghost rv = table_view(raw@);
        let mut d: Vec<(Option<Address>, SocketInfo)> = Vec::new();
        let ghost mut src: Seq<int> = Seq::empty();
        let ghost mut pos: Seq<int> = Seq::empty();
        let mut k: usize = 0;
        while k < raw.len()
            invariant
                k <= raw@.len(),
                rv == table_view(raw@),
                sorted_by_account(table_view(d@)),
                src.len() == d@.len(),
                pos.len() == k,
                forall|x: int| 0 <= x < d@.len() ==> 0 <= #[trigger] src[x] < k && first_at(rv, src[x])
                    && table_view(d@)[x] == rv[src[x]],
                forall|j: int| 0 <= j < k ==> 0 <= #[trigger] pos[j] < d@.len()
                    && text_key(table_view(d@)[pos[j]].0) == text_key(rv[j].0),
                forall|j: int| 0 <= j < k && first_at(rv, j) ==> src[#[trigger] pos[j]] == j,
            decreases raw@.len() - k,
        {
            let ghost dv = table_view(d@);
            let ghost e = rv[k as int];
            let mut j: usize = 0;
            let mut stop = false;
            let mut dup = false;
            while !stop && j < d.len()
                invariant
                    j <= d@.len(),
                    dv == table_view(d@),
                    rv == table_view(raw@),
                    k < raw@.len(),
                    e == rv[k as int],
                    forall|x: int| 0 <= x < j ==> key_lt(text_key(#[trigger] dv[x].0), text_key(e.0)),
                    stop ==> j < d@.len(),
                    stop && dup ==> text_key(dv[j as int].0) == text_key(e.0),
                    stop && !dup ==> key_lt(text_key(e.0), text_key(dv[j as int].0)),
                    !stop ==> !dup,
                decreases d@.len() - j + (if stop { 0int } else { 1int }),
            {
                let c = compare_accounts(&d[j].0, &raw[k].0);
                assert(account_key(d@[j as int].0) == text_key(dv[j as int].0));
                assert(account_key(raw@[k as int].0) == text_key(e.0));
                if c == 0 {
                    dup = true;
                    stop = true;
                } else if c > 0 {
                    stop = true;
                } else {
                    j = j + 1;
                }
            }
            if dup {
                proof {
                    assert(!first_at(rv, k as int)) by {
                        assert(text_key(rv[src[j as int]].0) == text_key(rv[k as int].0));
                    }
                    pos = pos.push(j as int);
                }
            } else {
                proof {
                    lemma_insert_sorted(dv, j as int, e);
                    assert forall|i: int| 0 <= i < k implies text_key(#[trigger] rv[i].0) != text_key(rv[k as int].0) by {
                        assert(text_key(dv[pos[i]].0) == text_key(rv[i].0));
                    }
                    assert(first_at(rv, k as int));
                }
                let entry = (clone_account(&raw[k].0), raw[k].1);
                d.insert(j, entry);
                proof {
                    let nd = table_view(d@);
                    assert(nd =~= dv.insert(j as int, e));
                    let old_src = src;
                    let old_pos = pos;
                    src = old_src.insert(j as int, k as int);
                    pos = Seq::new((k + 1) as nat, |i: int|
                        if i == k { j as int } else if old_pos[i] >= j { old_pos[i] + 1 } else { old_pos[i] });
                    assert forall|x: int| 0 <= x < nd.len() implies 0 <= #[trigger] src[x] < k + 1
                        && first_at(rv, src[x]) && nd[x] == rv[src[x]] by {
                        if x < j {
                            assert(src[x] == old_src[x]);
                        } else if x > j {
                            assert(src[x] == old_src[x - 1]);
                        }
                    }
                    assert forall|i: int| 0 <= i < k + 1 implies 0 <= #[trigger] pos[i] < nd.len()
                        && text_key(nd[pos[i]].0) == text_key(rv[i].0) by {
                        if i < k {
                            if old_pos[i] >= j {
                                assert(nd[old_pos[i] + 1] == dv[old_pos[i]]);
                            } else {
                                assert(nd[old_pos[i]] == dv[old_pos[i]]);
                            }
                        }
                    }
                    assert forall|i: int| 0 <= i < k + 1 && first_at(rv, i) implies src[#[trigger] pos[i]] == i by {
                        if i < k {
                            if old_pos[i] >= j {
                                assert(src[old_pos[i] + 1] == old_src[old_pos[i]]);
                            } else {
                                assert(src[old_pos[i]] == old_src[old_pos[i]]);
                            }
                        }
                    }
                }
            }
            k = k + 1;
        }
        proof {
            lemma_firsts(rv, table_view(d@), src, pos);
        }
        d
    }

    /// Looks for peers to connect to: of the entries of the tables of the
    /// peers and of the peer that every node knows, the first of each
    /// account, in the order of the accounts, without the node itself, the
    /// peers already connected and the banned addresses.
    #[verifier::spinoff_prover]
    #[verifier::rlimit(40)]
    pub fn search_peers(&self) -> (r: Vec<(Option<Address>, SocketInfo)>)
        ensures
            is_search_result(self@, table_view(r@)),
    {
        let raw = self.raw_peers_table();
        let d = Self::first_by_account(&raw);
        let ghost rv = table_view(raw@);
        let ghost dv = table_view(d@);
        let mut out: Vec<(Option<Address>, SocketInfo)> = Vec::new();
        let ghost mut osrc: Seq<int> = Seq::empty();
        let ghost mut opos: Seq<int> = Seq::empty();
        let mut m: usize = 0;
        while m < d.len()
            invariant
                m <= d@.len(),
                dv == table_view(d@),
                sorted_by_account(dv),
                osrc.len() == out@.len(),
                opos.len() == m,
                forall|y: int| 0 <= y < out@.len() ==> 0 <= #[trigger] osrc[y] < m
                    && search_keeps(self@, dv[osrc[y]]) && table_view(out@)[y] == dv[osrc[y]],
                forall|x: int| 0 <= x < m && search_keeps(self@, dv[x]) ==> 0 <= #[trigger] opos[x] < out@.len()
                    && table_view(out@)[opos[x]] == dv[x],
                sorted_by_account(table_view(out@)),
            decreases d@.len() - m,
        {
            let e = &d[m];
            let not_self = match &e.0 {
                Some(a) => a.text != self.account.text,
                None => true,
            };
            let keep = not_self && !self.socket_exist(&e.1.0) && !self.socket_blocked(&e.1.0);
            assert(keep == search_keeps(self@, dv[m as int]));
            let ghost ov = table_view(out@);
            if keep {
                out.push((clone_account(&e.0), e.1));
                proof {
                    let nv = table_view(out@);
                    assert(nv =~= ov.push(dv[m as int]));
                    assert forall|a: int, b: int| 0 <= a < b < nv.len() implies
                        key_lt(text_key(#[trigger] nv[a].0), text_key(#[trigger] nv[b].0)) by {
                        if b == ov.len() {
                            assert(nv[a] == dv[osrc[a]]);
                            assert(key_lt(text_key(dv[osrc[a]].0), text_key(dv[m as int].0)));
                        } else {
                            assert(nv[a] == ov[a]);
                            assert(nv[b] == ov[b]);
                        }
                    }
                    let old_osrc = osrc;
                    osrc = old_osrc.push(m as int);
                    opos = opos.push(ov.len() as int);
                    assert forall|y: int| 0 <= y < nv.len() implies 0 <= #[trigger] osrc[y] < m + 1
                        && search_keeps(self@, dv[osrc[y]]) && nv[y] == dv[osrc[y]] by {
                        if y < ov.len() {
                            assert(nv[y] == ov[y]);
                            assert(osrc[y] == old_osrc[y]);
                        }
                    }
                }
            } else {
                proof {
                    opos = opos.push(0);
                }
            }
            m = m + 1;
        }
        proof {
            lemma_kept_firsts(self@, rv, dv, table_view(out@), osrc, opos);
        }
        out
    }


    /// Refills the waiting list with the addresses that a search for peers
    /// finds.
    fn refresh_waiting_list(&mut self)
        ensures
            exists|s: Seq<EntryView>| #[trigger] is_search_result(old(self)@, s)
                && final(self)@ == (ControllerView { waiting_list: entry_addrs(s), ..old(self)@ }),
    {
        proof { use_type_invariant(&*self); }
        let found = self.search_peers();
        let ghost fv = table_view(found@);
        let mut w: Vec<PeerAddr> = Vec::new();
        let mut i: usize = 0;
        while i < found.len()
            invariant
                i <= found@.len(),
                fv == table_view(found@),
                w@.len() == i,
                forall|k: int| 0 <= k < i ==> #[trigger] w@[k] == fv[k].1.0,
            decreases found@.len() - i,
        {
            w.push(found[i].1.0);
            i = i + 1;
        }
        assert(w@ =~= entry_addrs(fv));
        self.waiting_list = w;
    }

    /// Marks every peer as bootstrapped, and gives the tokens of those that
    /// were not yet and whose session is in the `Init` status, in order: the
    /// peers to send a bootstrap message to.
    pub fn bootstrap_targets(&mut self) -> (r: Vec<usize>)
        ensures
            r@ == bootstrap_tokens(old(self)@.peers),
            final(self)@ == (ControllerView { peers: all_bootstraped(old(self)@.peers), ..old(self)@ }),
    {
        proof { use_type_invariant(&*self); }
        let ghost orig = peer_views(self.peer_list@);
        let mut rest: Vec<(usize, Peer)> = Vec::new();
        std::mem::swap(&mut rest, &mut self.peer_list);
        let n = rest.len();
        let mut done: Vec<(usize, Peer)> = Vec::new();
        let mut targets: Vec<usize> = Vec::new();
        let mut i: usize = 0;
        while i < n
            invariant
                i <= n,
                n == orig.len(),
                distinct_tokens(orig),
                peer_views(rest@) == orig.skip(i as int),
                peer_views(done@) == all_bootstraped(orig.take(i as int)),
                targets@ == bootstrap_tokens(orig.take(i as int)),
            decreases n - i,
        {
            let ghost rv = peer_views(rest@);
            let ghost old_rest = rest@;
            assert(rv.len() == rest@.len());
            assert(orig.skip(i as int).len() == n - i);
            let (t, mut p) = rest.remove(0);
            assert(peer_views(rest@) =~= orig.skip(i + 1)) by {
                assert forall|k: int| 0 <= k < rest@.len() implies #[trigger] peer_views(rest@)[k] == orig.skip(i + 1)[k] by {
                    assert(rest@[k] == old_rest[k + 1]);
                    assert(rv[k + 1] == orig.skip(i as int)[k + 1]);
                }
            }
            assert(t == orig[i as int].0 && p@ == orig[i as int].1) by {
                assert(rv[0] == orig.skip(i as int)[0]);
            }
            proof {
                assert(orig.take(i + 1).drop_last() =~= orig.take(i as int));
                assert(orig.take(i + 1).last() == orig[i as int]);
            }
            if !p.bootstraped() {
                p.set_bootstraped();
                if p.status() == SessionStatus::Init {
                    targets.push(t);
                }
            } else {
                p.set_bootstraped();
            }
            let ghost dv = peer_views(done@);
            done.push((t, p));
            assert(peer_views(done@) =~= all_bootstraped(orig.take(i + 1))) by {
                assert(peer_views(done@) =~= dv.push((t, p@)));
            }
            i = i + 1;
        }
        assert(orig.take(n as int) =~= orig);
        proof {
            let dv = peer_views(done@);
            assert forall|a: int, b: int| 0 <= a < b < dv.len() implies dv[a].0 != dv[b].0 by {
                assert(dv[a].0 == orig[a].0);
                assert(dv[b].0 == orig[b].0);
            }
        }
        self.peer_list = done;
        targets
    }

    /// Drops the peers that the upkeep at `now_ms` does not keep and bans
    /// the untrusted ones; gives the tokens of the peers dropped, in order.
    fn prune(&mut self, now_ms: i64) -> (r: Vec<usize>)
        ensures
            r@ == dropped_tokens(old(self)@.peers, now_ms as int),
            final(self)@ == (ControllerView {
                peers: kept_peers(old(self)@.peers, now_ms as int),
                block_list: block_all(old(self)@.block_list, untrusted_addrs(old(self)@.peers, now_ms as int),
                    old(self)@.max_blocked_peers),
                ..old(self)@
            }),
    {
        proof { use_type_invariant(&*self); }
        let ghost orig = peer_views(self.peer_list@);
        let ghost now = now_ms as int;
        let mut rest: Vec<(usize, Peer)> = Vec::new();
        std::mem::swap(&mut rest, &mut self.peer_list);
        let mut blocks: Vec<PeerAddr> = Vec::new();
        std::mem::swap(&mut blocks, &mut self.block_list);
        let ghost b0 = blocks@;
        let max = self.max_blocked_peers;
        let n = rest.len();
        let mut kept: Vec<(usize, Peer)> = Vec::new();
        let mut removed: Vec<usize> = Vec::new();
        let ghost mut ks: Seq<int> = Seq::empty();
        let mut i: usize = 0;
        while i < n
            invariant
                i <= n,
                n == orig.len(),
                distinct_tokens(orig),
                peer_views(rest@) == orig.skip(i as int),
                now == now_ms as int,
                max == old(self)@.max_blocked_peers,
                peer_views(kept@) == kept_peers(orig.take(i as int), now),
                removed@ == dropped_tokens(orig.take(i as int), now),
                blocks@ == block_all(b0, untrusted_addrs(orig.take(i as int), now), max),
                ks.len() == kept@.len(),
                forall|x: int| 0 <= x < ks.len() ==> 0 <= #[trigger] ks[x] < i
                    && peer_views(kept@)[x].0 == orig[ks[x]].0,
                forall|x: int, y: int| 0 <= x < y < ks.len() ==> #[trigger] ks[x] < #[trigger] ks[y],
            decreases n - i,
        {
            let ghost rv = peer_views(rest@);
            let ghost old_rest = rest@;
            assert(rv.len() == rest@.len());
            assert(orig.skip(i as int).len() == n - i);
            let (t, p) = rest.remove(0);
            assert(peer_views(rest@) =~= orig.skip(i + 1)) by {
                assert forall|k: int| 0 <= k < rest@.len() implies #[trigger] peer_views(rest@)[k] == orig.skip(i + 1)[k] by {
                    assert(rest@[k] == old_rest[k + 1]);
                    assert(rv[k + 1] == orig.skip(i as int)[k + 1]);
                }
            }
            assert(t == orig[i as int].0 && p@ == orig[i as int].1) by {
                assert(rv[0] == orig.skip(i as int)[0]);
            }
            proof {
                assert(orig.take(i + 1).drop_last() =~= orig.take(i as int));
                assert(orig.take(i + 1).last() == orig[i as int]);
            }
            let s = p.session();
            let alive = s.status() != SessionStatus::Abort;
            let fresh = (now_ms as i128) - (s.updated() as i128) <= EXPIRE as i128;
            let in_time = s.connected() || (now_ms as i128) - (s.created() as i128) <= CONNECT_TIMEOUT as i128;
            let credit = p.credit();
            assert((alive && fresh && in_time && credit != 0) == peer_keeps(orig[i as int].1, now));
            assert((alive && fresh && in_time && credit == 0) == peer_untrusted(orig[i as int].1, now));
            if alive && fresh && in_time && credit != 0 {
                let ghost kv = peer_views(kept@);
                kept.push((t, p));
                proof {
                    assert(peer_views(kept@) =~= kv.push(orig[i as int]));
                    ks = ks.push(i as int);
                }
            } else {
                if alive && fresh && in_time {
                    let ghost bb = blocks@;
                    let ghost prev = untrusted_addrs(orig.take(i as int), now);
                    blocks.push(p.addr());
                    if blocks.len() > max {
                        blocks.remove(0);
                    }
                    assert(blocks@ =~= block_one(bb, orig[i as int].1.ip_addr, max));
                    assert(prev.push(orig[i as int].1.ip_addr).drop_last() =~= prev);
                }
                removed.push(t);
            }
            i = i + 1;
        }
        assert(orig.take(n as int) =~= orig);
        proof {
            let kv = peer_views(kept@);
            assert forall|a: int, b: int| 0 <= a < b < kv.len() implies kv[a].0 != kv[b].0 by {
                assert(ks[a] < ks[b]);
            }
        }
        self.peer_list = kept;
        self.block_list = blocks;
        removed
    }

    /// One round of upkeep at `now_ms`, at most one every
    /// `UPDATE_TIMEBASE` milliseconds: drops the peers that are aborted,
    /// silent for more than `EXPIRE` milliseconds, connecting for more than
    /// `CONNECT_TIMEOUT` milliseconds or out of credit, banning the last;
    /// then, with fewer peers than `min_required_peers`, refreshes the
    /// waiting list by a search when it is short too, and takes from it the
    /// addresses to connect to.  The caller closes the sockets of the peers
    /// dropped, connects to the addresses and adds the new peers, bootstraps
    /// them after a refill, then sends a heartbeat to every peer.
    pub fn update(&mut self, now_ms: i64) -> (r: Option<UpdatePlan>)
        ensures
            now_ms - old(self)@.last_updated < UPDATE_TIMEBASE ==> r is None && final(self)@ == old(self)@,
            !(now_ms - old(self)@.last_updated < UPDATE_TIMEBASE) ==> (r matches Some(plan) && {
                let mid = pruned(old(self)@, now_ms as int);
                &&& plan.removed@ == dropped_tokens(old(self)@.peers, now_ms as int)
                &&& if mid.peers.len() < mid.min_required_peers {
                    plan.refill && refilled(mid, final(self)@, plan.connect@)
                } else {
                    !plan.refill && plan.connect@.len() == 0 && final(self)@ == mid
                }
            }),
    {
        proof { use_type_invariant(&*self); }
        if (now_ms as i128) - (self.last_updated as i128) < UPDATE_TIMEBASE as i128 {
            return None;
        }
        self.last_updated = now_ms;
        let removed = self.prune(now_ms);
        let ghost mid = self@;
        if self.peer_list.len() < self.min_required_peers {
            proof { use_type_invariant(&*self); }
            let ghost w0 = self@;
            if self.waiting_list.len() < self.min_required_peers {
                self.refresh_waiting_list();
            }
            let ghost w = self@.waiting_list;
            let connect = self.fetch_peers_from_waiting_list();
            assert(refilled_from(mid, self@, connect@, w));
            Some(UpdatePlan { removed: removed, connect: connect, refill: true })
        } else {
            Some(UpdatePlan { removed: removed, connect: Vec::new(), refill: false })
        }
    }

    /// Takes from the front of the waiting list as many addresses as the
    /// room left for peers allows.
    fn fetch_peers_from_waiting_list(&mut self) -> (r: Vec<PeerAddr>)
        requires
            old(self)@.peers.len() <= old(self)@.max_allowed_peers,
        ensures
            ({
                let n = fetch_size(old(self)@.waiting_list.len() as int, old(self)@.peers.len() as int,
                    old(self)@.max_allowed_peers as int);
                &&& r@ == old(self)@.waiting_list.take(n)
                &&& final(self)@ == (ControllerView { waiting_list: old(self)@.waiting_list.skip(n), ..old(self)@ })
            }),
    {
        proof { use_type_invariant(&*self); }
        let w_len = self.waiting_list.len();
        let p_len = self.peer_list.len();
        let size = if w_len > self.max_allowed_peers - p_len {
            self.max_allowed_peers - p_len
        } else {
            w_len
        };
        let mut taken: Vec<PeerAddr> = Vec::new();
        let mut rest: Vec<PeerAddr> = Vec::new();
        let mut i: usize = 0;
        while i < w_len
            invariant
                i <= w_len,
                w_len == self.waiting_list@.len(),
                size <= w_len,
                taken@ == self.waiting_list@.take(if i < size { i as int } else { size as int }),
                rest@ == self.waiting_list@.subrange(if i < size { i as int } else { size as int }, i as int),
            decreases w_len - i,
        {
            if i < size {
                taken.push(self.waiting_list[i]);
                assert(taken@ =~= self.waiting_list@.take(i + 1));
            } else {
                rest.push(self.waiting_list[i]);
                assert(rest@ =~= self.waiting_list@.subrange(size as int, i + 1));
            }
            i = i + 1;
        }
        assert(rest@ =~= self.waiting_list@.skip(size as int));
        self.waiting_list = rest;
        taken
    }
}

/// The entries `dv`, each the first of its account in `rv` at the index
/// `src` gives, with the first entry of each account at the index `pos`
/// gives, are the first entries of `rv`.
proof fn lemma_firsts(rv: Seq<EntryView>, dv: Seq<EntryView>, src: Seq<int>, pos: Seq<int>)
    requires
        src.len() == dv.len(),
        pos.len() == rv.len(),
        forall|x: int| 0 <= x < dv.len() ==> 0 <= #[trigger] src[x] < rv.len() && first_at(rv, src[x])
            && dv[x] == rv[src[x]],
        forall|j: int| 0 <= j < rv.len() ==> 0 <= #[trigger] pos[j] < dv.len(),
        forall|j: int| 0 <= j < rv.len() && first_at(rv, j) ==> src[#[trigger] pos[j]] == j,
    ensures
        firsts_of(rv, dv),
{
    assert forall|i: int| 0 <= i < dv.len() implies first_in(rv, #[trigger] dv[i]) by {
        assert(first_entry_at(rv, src[i], dv[i]));
    }
    assert forall|j: int| 0 <= j < rv.len() && first_at(rv, j) implies occurs_in(dv, #[trigger] rv[j]) by {
        let i = pos[j];
        assert(src[i] == j);
        assert(entry_at(dv, i, rv[j]));
    }
}

/// The entries of `dv` that the search keeps, gathered in `ov` as `osrc`
/// and `opos` tell, make a search result when `dv` holds the first entries
/// of what the search starts from.
proof fn lemma_kept_firsts(v: ControllerView, rv: Seq<EntryView>, dv: Seq<EntryView>, ov: Seq<EntryView>, osrc: Seq<int>, opos: Seq<int>)
    requires
        rv == search_raw(v.peers),
        firsts_of(rv, dv),
        osrc.len() == ov.len(),
        opos.len() == dv.len(),
        forall|y: int| 0 <= y < ov.len() ==> 0 <= #[trigger] osrc[y] < dv.len()
            && search_keeps(v, dv[osrc[y]]) && ov[y] == dv[osrc[y]],
        forall|x: int| 0 <= x < dv.len() && search_keeps(v, dv[x]) ==> 0 <= #[trigger] opos[x] < ov.len()
            && ov[opos[x]] == dv[x],
        sorted_by_account(ov),
    ensures
        is_search_result(v, ov),
{
    assert forall|i: int| 0 <= i < ov.len() implies first_in(rv, #[trigger] ov[i]) && search_keeps(v, ov[i]) by {
        let x = osrc[i];
        assert(first_in(rv, dv[x]));
    }
    assert forall|k: int| 0 <= k < rv.len() && first_at(rv, k) && search_keeps(v, rv[k]) implies
        occurs_in(ov, #[trigger] rv[k]) by {
        assert(occurs_in(dv, rv[k]));
        let x = choose|x: int| #[trigger] entry_at(dv, x, rv[k]);
        assert(entry_at(ov, opos[x], rv[k]));
    }
}

/// Inserting an entry at a place where all before come before it and the
/// one after comes after it keeps the entries sorted; its account is none
/// of theirs.
proof fn lemma_insert_sorted(dv: Seq<EntryView>, j: int, e: EntryView)
    requires
        sorted_by_account(dv),
        0 <= j <= dv.len(),
        forall|x: int| 0 <= x < j ==> key_lt(text_key(#[trigger] dv[x].0), text_key(e.0)),
        j < dv.len() ==> key_lt(text_key(e.0), text_key(dv[j].0)),
    ensures
        sorted_by_account(dv.insert(j, e)),
        forall|x: int| 0 <= x < dv.len() ==> text_key(#[trigger] dv[x].0) != text_key(e.0),
{
    let nd = dv.insert(j, e);
    assert forall|x: int| 0 <= x < dv.len() implies text_key(#[trigger] dv[x].0) != text_key(e.0) by {
        lemma_key_order(text_key(dv[x].0), text_key(e.0), text_key(e.0));
        if x > j {
            assert(key_lt(text_key(dv[j].0), text_key(dv[x].0)));
            lemma_key_order(text_key(e.0), text_key(dv[j].0), text_key(dv[x].0));
        }
        if x == j {
            lemma_key_order(text_key(e.0), text_key(dv[j].0), text_key(e.0));
        }
    }
    assert forall|a: int, b: int| 0 <= a < b < nd.len() implies
        key_lt(text_key(#[trigger] nd[a].0), text_key(#[trigger] nd[b].0)) by {
        if b == j {
            assert(nd[a] == dv[a]);
        } else if a == j {
            assert(nd[b] == dv[b - 1]);
            if b - 1 > j {
                assert(key_lt(text_key(dv[j].0), text_key(dv[b - 1].0)));
                lemma_key_order(text_key(e.0), text_key(dv[j].0), text_key(dv[b - 1].0));
            }
        } else if a < j && b > j {
            assert(nd[a] == dv[a]);
            assert(nd[b] == dv[b - 1]);
            if b - 1 > j {
                assert(key_lt(text_key(dv[j].0), text_key(dv[b - 1].0)));
                lemma_key_order(text_key(e.0), text_key(dv[j].0), text_key(dv[b - 1].0));
            }
            lemma_key_order(text_key(dv[a].0), text_key(e.0), text_key(dv[b - 1].0));
        } else if b < j {
            assert(nd[a] == dv[a]);
            assert(nd[b] == dv[b]);
        } else {
            assert(nd[a] == dv[a - 1]);
            assert(nd[b] == dv[b - 1]);
        }
    }
}

/// A peer fails the upkeep at `now` when its session was aborted, when it
/// has heard nothing for more than `EXPIRE` milliseconds (connected or
/// not), when it is still connecting after `CONNECT_TIMEOUT` milliseconds,
/// or when it has no credit left.
pub open spec fn fails_upkeep(p: PeerView, now: int) -> bool {
    ||| p.session.status == SessionStatus::Abort
    ||| now - p.session.updated > EXPIRE
    ||| (!p.session.connected && now - p.session.created > CONNECT_TIMEOUT)
    ||| p.credit == 0
}

/// A peer is banned at `now` when it fails the upkeep for its credit
/// alone: it is live, heard from in time and connected in time, but has no
/// credit left.
pub open spec fn banned_for_credit(p: PeerView, now: int) -> bool {
    &&& p.session.status != SessionStatus::Abort
    &&& now - p.session.updated <= EXPIRE
    &&& (p.session.connected || now - p.session.created <= CONNECT_TIMEOUT)
    &&& p.credit == 0
}

/// The upkeep at `now` keeps exactly the peers that do not fail it, in
/// order: no peer kept is aborted, silent for more than `EXPIRE`
/// milliseconds, still connecting after `CONNECT_TIMEOUT` milliseconds or
/// out of credit, and the token of every peer that fails is among the
/// tokens removed.  The addresses banned are those of the peers that fail
/// for their credit alone.
pub proof fn law_upkeep_drops_failing_peers(ps: Seq<(usize, PeerView)>, now: int)
    ensures
        forall|i: int| 0 <= i < kept_peers(ps, now).len() ==> !fails_upkeep(#[trigger] kept_peers(ps, now)[i].1, now),
        forall|i: int| 0 <= i < kept_peers(ps, now).len() ==> ps.contains(#[trigger] kept_peers(ps, now)[i]),
        forall|i: int| 0 <= i < ps.len() && fails_upkeep(#[trigger] ps[i].1, now) ==> dropped_tokens(ps, now).contains(ps[i].0),
        forall|i: int| 0 <= i < ps.len() && !fails_upkeep(#[trigger] ps[i].1, now) ==> kept_peers(ps, now).contains(ps[i]),
        forall|a: PeerAddr| #[trigger] untrusted_addrs(ps, now).contains(a) <==> exists|i: int|
            0 <= i < ps.len() && ps[i].1.ip_addr == a && #[trigger] banned_for_credit(ps[i].1, now),
    decreases ps.len(),
{
    if ps.len() > 0 {
        let q = ps.drop_last();
        law_upkeep_drops_failing_peers(q, now);
        let last = ps.last();
        let kq = kept_peers(q, now);
        let k = kept_peers(ps, now);
        assert forall|i: int| 0 <= i < k.len() implies !fails_upkeep(#[trigger] k[i].1, now) && ps.contains(k[i]) by {
            if i < kq.len() {
                assert(k[i] == kq[i]);
                let j = choose|j: int| 0 <= j < q.len() && q[j] == kq[i];
                assert(ps[j] == q[j]);
            } else {
                assert(k[i] == last);
                assert(ps[ps.len() - 1] == last);
            }
        }
        assert forall|i: int| 0 <= i < ps.len() && fails_upkeep(#[trigger] ps[i].1, now) implies dropped_tokens(ps, now).contains(ps[i].0) by {
            if i < q.len() {
                assert(ps[i] == q[i]);
                let dq = dropped_tokens(q, now);
                let j = choose|j: int| 0 <= j < dq.len() && dq[j] == q[i].0;
                if !peer_keeps(last.1, now) {
                    assert(dropped_tokens(ps, now)[j] == dq[j]);
                }
            } else {
                assert(dropped_tokens(ps, now).last() == last.0);
            }
        }
        assert forall|i: int| 0 <= i < ps.len() && !fails_upkeep(#[trigger] ps[i].1, now) implies k.contains(ps[i]) by {
            if i < q.len() {
                assert(ps[i] == q[i]);
                let j = choose|j: int| 0 <= j < kq.len() && kq[j] == q[i];
                if peer_keeps(last.1, now) {
                    assert(k[j] == kq[j]);
                }
            } else {
                assert(k.last() == last);
            }
        }
        let uq = untrusted_addrs(q, now);
        let u = untrusted_addrs(ps, now);
        assert forall|a: PeerAddr| #[trigger] u.contains(a) <==> exists|i: int|
            0 <= i < ps.len() && ps[i].1.ip_addr == a && #[trigger] banned_for_credit(ps[i].1, now) by {
            if u.contains(a) {
                let j = choose|j: int| 0 <= j < u.len() && u[j] == a;
                if j < uq.len() {
                    assert(u[j] == uq[j]);
                    assert(uq.contains(a));
                    let i = choose|i: int| 0 <= i < q.len() && q[i].1.ip_addr == a && #[trigger] banned_for_credit(q[i].1, now);
                    assert(ps[i] == q[i]);
                } else {
                    assert(ps[ps.len() - 1] == last);
                    assert(banned_for_credit(ps[ps.len() - 1].1, now));
                }
            }
            if exists|i: int| 0 <= i < ps.len() && ps[i].1.ip_addr == a && #[trigger] banned_for_credit(ps[i].1, now) {
                let i = choose|i: int| 0 <= i < ps.len() && ps[i].1.ip_addr == a && #[trigger] banned_for_credit(ps[i].1, now);
                if i < q.len() {
                    assert(ps[i] == q[i]);
                    assert(banned_for_credit(q[i].1, now));
                    assert(uq.contains(a));
                    let j = choose|j: int| 0 <= j < uq.len() && uq[j] == a;
                    if peer_untrusted(last.1, now) {
                        assert(u[j] == uq[j]);
                    }
                } else {
                    assert(u.last() == a);
                }
            }
        }
    }
}

} // verus!
