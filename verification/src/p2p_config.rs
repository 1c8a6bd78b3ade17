//! The settings of the peer-to-peer service.
use vstd::prelude::*;
use crate::address::Address;
use crate::protocol::{account_view, clone_account};
use crate::stun::PeerAddr;

verus! {

/// Settings made up for tests and local runs.
pub trait MockConfig: Sized {
    fn mock() -> Self;

    fn mock_peer() -> Self;
}

/// The settings of the peer-to-peer service: where the node listens, the
/// sizes of its lists, its timings in milliseconds and the peers it starts
/// from.
#[derive(Debug)]
pub struct P2PConfig {
    pub server_addr: PeerAddr,
    pub events_size: usize,
    pub max_allowed_peers: usize,
    pub max_blocklist_size: usize,
    pub max_waitinglist_size: usize,
    pub min_required_peer: usize,
    pub update_timebase: i64,
    pub connect_timeout: i64,
    pub peer_expire: i64,
    pub bootstrap_peers: Vec<(Option<Address>, PeerAddr)>,
}

/// 127.0.0.1 with the port.
pub open spec fn localhost(port: u16) -> PeerAddr {
    PeerAddr { v6: false, ip: 0x7f00_0001, port }
}

/// The address 127.0.0.1 with the port.
fn localhost_addr(port: u16) -> (r: PeerAddr)
    ensures
        r == localhost(port),
{
    PeerAddr { v6: false, ip: 0x7f00_0001, port: port }
}

/// The addresses of the bootstrap peers, in order.
pub open spec fn bootstrap_addrs(peers: Seq<(Option<Address>, PeerAddr)>) -> Seq<PeerAddr> {
    Seq::new(peers.len(), |i: int| peers[i].1)
}

impl P2PConfig {
    pub fn server_addr(&self) -> (r: PeerAddr)
        ensures
            r == self.server_addr,
    {
        self.server_addr
    }

    pub fn events_size(&self) -> (r: usize)
        ensures
            r == self.events_size,
    {
        self.events_size
    }

    pub fn max_allowed_peers(&self) -> (r: usize)
        ensures
            r == self.max_allowed_peers,
    {
        self.max_allowed_peers
    }

    pub fn max_blocklist_size(&self) -> (r: usize)
        ensures
            r == self.max_blocklist_size,
    {
        self.max_blocklist_size
    }

    pub fn max_waitinglist_size(&self) -> (r: usize)
        ensures
            r == self.max_waitinglist_size,
    {
        self.max_waitinglist_size
    }

    pub fn min_required_peer(&self) -> (r: usize)
        ensures
            r == self.min_required_peer,
    {
        self.min_required_peer
    }

    pub fn update_timebase(&self) -> (r: i64)
        ensures
            r == self.update_timebase,
    {
        self.update_timebase
    }

    /// The connection timeout, which this reads as the update time base.
    pub fn connect_timeout(&self) -> (r: i64)
        ensures
            r == self.update_timebase,
    {
        self.update_timebase
    }

    pub fn peer_expire(&self) -> (r: i64)
        ensures
            r == self.peer_expire,
    {
        self.peer_expire
    }

    /// A copy of the bootstrap peers.
    pub fn bootstrap_peers(&self) -> (r: Vec<(Option<Address>, PeerAddr)>)
        ensures
            bootstrap_addrs(r@) == bootstrap_addrs(self.bootstrap_peers@),
            forall|i: int| 0 <= i < r@.len() ==> account_view((#[trigger] r@[i]).0) == account_view(self.bootstrap_peers@[i].0),
    {
        let mut out: Vec<(Option<Address>, PeerAddr)> = Vec::new();
        let mut i: usize = 0;
        while i < self.bootstrap_peers.len()
            invariant
                i <= self.bootstrap_peers@.len(),
                out@.len() == i,
                forall|k: int| 0 <= k < i ==> (#[trigger] out@[k]).1 == self.bootstrap_peers@[k].1
                    && account_view(out@[k].0) == account_view(self.bootstrap_peers@[k].0),
            decreases self.bootstrap_peers@.len() - i,
        {
            let e = &self.bootstrap_peers[i];
            out.push((clone_account(&e.0), e.1));
            i = i + 1;
        }
        assert(bootstrap_addrs(out@) =~= bootstrap_addrs(self.bootstrap_peers@));
        out
    }

    /// A settings value for the node at `port` that starts from the peers at
    /// `peers`: the limits and timings of the mock settings.
    fn mock_at(port: u16, peers: [u16; 4]) -> (r: Self)
        ensures
            r.server_addr == localhost(port),
            r.events_size == 1024,
            r.max_allowed_peers == 512,
            r.max_blocklist_size == 1024,
            r.max_waitinglist_size == 1024,
            r.min_required_peer == 5,
            r.update_timebase == 3000,
            r.connect_timeout == 3000,
            r.peer_expire == 60000,
            bootstrap_addrs(r.bootstrap_peers@) == seq![
                localhost(peers[0]), localhost(peers[1]), localhost(peers[2]), localhost(peers[3])],
            forall|i: int| 0 <= i < r.bootstrap_peers@.len() ==> #[trigger] r.bootstrap_peers@[i].0 is None,
    {
        let mut bootstrap_peers: Vec<(Option<Address>, PeerAddr)> = Vec::new();
        bootstrap_peers.push((None, localhost_addr(peers[0])));
        bootstrap_peers.push((None, localhost_addr(peers[1])));
        bootstrap_peers.push((None, localhost_addr(peers[2])));
        bootstrap_peers.push((None, localhost_addr(peers[3])));
        let r = P2PConfig {
            server_addr: localhost_addr(port),
            events_size: 1024,
            max_allowed_peers: 512,
            max_blocklist_size: 1024,
            max_waitinglist_size: 1024,
            min_required_peer: 5,
            update_timebase: 3000,
            connect_timeout: 3000,
            peer_expire: 60000,
            bootstrap_peers: bootstrap_peers,
        };
        assert(bootstrap_addrs(r.bootstrap_peers@) =~= seq![
            localhost(peers[0]), localhost(peers[1]), localhost(peers[2]), localhost(peers[3])]);
        r
    }
}

impl MockConfig for P2PConfig {
    /// A node at 127.0.0.1:40000 that starts from the ports 40001 to 40004.
    fn mock() -> (r: Self)
        ensures
            r.server_addr == localhost(40000),
            bootstrap_addrs(r.bootstrap_peers@) == seq![
                localhost(40001), localhost(40002), localhost(40003), localhost(40004)],
            r.min_required_peer == 5,
            r.max_allowed_peers == 512,
    {
        Self::mock_at(40000, [40001, 40002, 40003, 40004])
    }

    /// A node at 127.0.0.1:40001 that starts from the ports 40000 and 40002
    /// to 40004.
    fn mock_peer() -> (r: Self)
        ensures
            r.server_addr == localhost(40001),
            bootstrap_addrs(r.bootstrap_peers@) == seq![
                localhost(40000), localhost(40002), localhost(40003), localhost(40004)],
            r.min_required_peer == 5,
            r.max_allowed_peers == 512,
    {
        Self::mock_at(40001, [40000, 40002, 40003, 40004])
    }
}

} // verus!
