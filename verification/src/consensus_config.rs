//! The settings of the consensus service, and the peers that a consensus
//! node connects to when it starts.
use vstd::prelude::*;
use crate::address::Address;
use crate::stun::{PeerAddr, SocketInfo};

verus! {

/// A validator as the settings list it: the address it listens at and its
/// account.
#[derive(Debug)]
pub struct ValidatorKey {
    pub addr: SocketInfo,
    pub account: Address,
}

/// The settings of the consensus service: where the node listens, the size
/// of its event list, its timings in milliseconds and the validators.
#[derive(Debug)]
pub struct ConsensusConfig {
    pub server_addr: PeerAddr,
    pub events_size: usize,
    pub update_timebase: i64,
    pub connect_timeout: i64,
    pub peer_expire: i64,
    pub validator_keys: Vec<ValidatorKey>,
}

/// The value of a [`ValidatorKey`]: its address and account text.
pub open spec fn key_view(v: ValidatorKey) -> (SocketInfo, Seq<char>) {
    (v.addr, v.account.text@)
}

/// The views of the validators, in order.
pub open spec fn key_views(s: Seq<ValidatorKey>) -> Seq<(SocketInfo, Seq<char>)> {
    Seq::new(s.len(), |i: int| key_view(s[i]))
}

/// 127.0.0.1 with the port, as a socket address with that port.
pub open spec fn local_info(port: u16) -> SocketInfo {
    (PeerAddr { v6: false, ip: 0x7f00_0001, port }, port)
}

/// A validator at 127.0.0.1 with the port and the account.
fn local_validator(port: u16, account: &Address) -> (r: ValidatorKey)
    ensures
        key_view(r) == (local_info(port), account.text@),
{
    ValidatorKey { addr: (PeerAddr { v6: false, ip: 0x7f00_0001, port: port }, port), account: account.clone() }
}

impl ConsensusConfig {
    pub fn server_addr(&self) -> (r: PeerAddr)
        ensures
            r == self.server_addr,
    {
        self.server_addr
    }

    pub fn events_size(&self) -> (r: usize)
        ensures
            r == self.events_size,
    {
        self.events_size
    }

    pub fn update_timebase(&self) -> (r: i64)
        ensures
            r == self.update_timebase,
    {
        self.update_timebase
    }

    /// The connect timeout; this reads the update timebase.
    pub fn connect_timeout(&self) -> (r: i64)
        ensures
            r == self.update_timebase,
    {
        self.update_timebase
    }

    pub fn peer_expire(&self) -> (r: i64)
        ensures
            r == self.peer_expire,
    {
        self.peer_expire
    }

    /// A copy of the validators.
    pub fn validator_keys(&self) -> (r: Vec<ValidatorKey>)
        ensures
            key_views(r@) == key_views(self.validator_keys@),
    {
        let mut out: Vec<ValidatorKey> = Vec::new();
        let mut i: usize = 0;
        while i < self.validator_keys.len()
            invariant
                i <= self.validator_keys@.len(),
                out@.len() == i,
                forall|k: int| 0 <= k < i ==> #[trigger] key_view(out@[k]) == key_view(self.validator_keys@[k]),
            decreases self.validator_keys@.len() - i,
        {
            let v = &self.validator_keys[i];
            out.push(ValidatorKey { addr: v.addr, account: v.account.clone() });
            i = i + 1;
        }
        assert(key_views(out@) =~= key_views(self.validator_keys@));
        out
    }

    /// Settings for a local run at port `port`, with four validators at
    /// 127.0.0.1 on the `others` ports, each with the account of the node.
    fn mock_at(port: u16, others: [u16; 4], account: &Address) -> (r: Self)
        ensures
            r.server_addr == local_info(port).0,
            r.events_size == 1024,
            r.update_timebase == 3000,
            r.connect_timeout == 3000,
            r.peer_expire == 60000,
            key_views(r.validator_keys@) == seq![
                (local_info(others[0]), account.text@),
                (local_info(others[1]), account.text@),
                (local_info(others[2]), account.text@),
                (local_info(others[3]), account.text@),
            ],
    {
        let mut keys: Vec<ValidatorKey> = Vec::new();
        keys.push(local_validator(others[0], account));
        keys.push(local_validator(others[1], account));
        keys.push(local_validator(others[2], account));
        keys.push(local_validator(others[3], account));
        let r = ConsensusConfig {
            server_addr: PeerAddr { v6: false, ip: 0x7f00_0001, port: port },
            events_size: 1024,
            update_timebase: 3000,
            connect_timeout: 3000,
            peer_expire: 60000,
            validator_keys: keys,
        };
        assert(key_views(r.validator_keys@) =~= seq![
            (local_info(others[0]), account.text@),
            (local_info(others[1]), account.text@),
            (local_info(others[2]), account.text@),
            (local_info(others[3]), account.text@),
        ]);
        r
    }

    /// Settings for a local node at port 40000, with validators at ports
    /// 40001 to 40004, each with the account of the node (which the caller
    /// loads).
    pub fn mock(account: &Address) -> (r: Self)
        ensures
            r.server_addr == local_info(40000).0,
            r.events_size == 1024,
            r.update_timebase == 3000,
            r.connect_timeout == 3000,
            r.peer_expire == 60000,
            key_views(r.validator_keys@) == seq![
                (local_info(40001), account.text@),
                (local_info(40002), account.text@),
                (local_info(40003), account.text@),
                (local_info(40004), account.text@),
            ],
    {
        Self::mock_at(40000, [40001, 40002, 40003, 40004], account)
    }

    /// Settings for a local peer at port 40001, with validators at ports
    /// 40000 and 40002 to 40004, each with the account of the node (which
    /// the caller loads).
    pub fn mock_peer(account: &Address) -> (r: Self)
        ensures
            r.server_addr == local_info(40001).0,
            r.events_size == 1024,
            r.update_timebase == 3000,
            r.connect_timeout == 3000,
            r.peer_expire == 60000,
            key_views(r.validator_keys@) == seq![
                (local_info(40000), account.text@),
                (local_info(40002), account.text@),
                (local_info(40003), account.text@),
                (local_info(40004), account.text@),
            ],
    {
        Self::mock_at(40001, [40000, 40002, 40003, 40004], account)
    }
}

impl ConsensusConfig {
    /// The account of the node as a validator: the account of the first
    /// validator of the settings with the node's account, when there is one.
    pub fn validator_of(&self, account: &Address) -> (r: Option<Address>)
        ensures
            r is None <==> forall|i: int| 0 <= i < self.validator_keys@.len()
                ==> (#[trigger] self.validator_keys@[i]).account.text@ != account.text@,
            r matches Some(a) ==> a.text@ == account.text@,
    {
        let mut i: usize = 0;
        while i < self.validator_keys.len()
            invariant
                i <= self.validator_keys@.len(),
                forall|k: int| 0 <= k < i ==> (#[trigger] self.validator_keys@[k]).account.text@ != account.text@,
            decreases self.validator_keys@.len() - i,
        {
            if self.validator_keys[i].account.text == account.text {
                return Some(Address { text: self.validator_keys[i].account.text.clone() });
            }
            i = i + 1;
        }
        None
    }
}

/// An entry of a peer table, with the account taken as text.
pub open spec fn entry_view(e: (Option<Address>, SocketInfo)) -> (Option<Seq<char>>, SocketInfo) {
    (match e.0 {
        Some(a) => Some(a.text@),
        None => None,
    }, e.1)
}

/// The addresses that a consensus node connects to when it starts: those
/// of the entries of the tables of its peers, then those of the
/// validators, leaving out the entries with the account of the node.
pub open spec fn consensus_targets(
    tables: Seq<(Option<Seq<char>>, SocketInfo)>,
    validators: Seq<(SocketInfo, Seq<char>)>,
    account: Seq<char>,
) -> Seq<SocketInfo>
    decreases tables.len() + validators.len(),
{
    if validators.len() > 0 {
        let rest = consensus_targets(tables, validators.drop_last(), account);
        if validators.last().1 == account { rest } else { rest.push(validators.last().0) }
    } else if tables.len() > 0 {
        let rest = consensus_targets(tables.drop_last(), validators, account);
        if tables.last().0 == Some(account) { rest } else { rest.push(tables.last().1) }
    } else {
        Seq::empty()
    }
}

/// The entries of the tables, one table after another.
pub open spec fn joined<E>(tables: Seq<Seq<E>>) -> Seq<E>
    decreases tables.len(),
{
    if tables.len() == 0 {
        Seq::empty()
    } else {
        joined(tables.drop_last()) + tables.last()
    }
}

/// The tables of the peers, each entry with the account taken as text.
pub open spec fn tables_view(tables: Seq<Vec<(Option<Address>, SocketInfo)>>) -> Seq<Seq<(Option<Seq<char>>, SocketInfo)>> {
    Seq::new(tables.len(), |i: int| Seq::new(tables[i]@.len(), |j: int| entry_view(tables[i]@[j])))
}

/// Initialize the table of peers of a consensus node with the account:
/// the addresses that it connects to when it starts, from the tables of
/// its peers, one after another, and the validators of its settings, as
/// [`consensus_targets`] says.  The caller connects to each and registers
/// the peers.
pub fn init_peers_table(
    peer_tables: &Vec<Vec<(Option<Address>, SocketInfo)>>,
    config: &ConsensusConfig,
    account: &Address,
) -> (r: Vec<SocketInfo>)
    ensures
        r@ == consensus_targets(joined(tables_view(peer_tables@)), key_views(config.validator_keys@), account.text@),
{
    let ghost tv = tables_view(peer_tables@);
    let ghost vv = key_views(config.validator_keys@);
    let mut out: Vec<SocketInfo> = Vec::new();
    let mut i: usize = 0;
    assert(tv.take(0) =~= Seq::<Seq<(Option<Seq<char>>, SocketInfo)>>::empty());
    while i < peer_tables.len()
        invariant
            i <= peer_tables@.len(),
            tv == tables_view(peer_tables@),
            out@ == consensus_targets(joined(tv.take(i as int)), Seq::empty(), account.text@),
        decreases peer_tables@.len() - i,
    {
        let table = &peer_tables[i];
        let ghost done = joined(tv.take(i as int));
        let ghost row = tv[i as int];
        assert(row =~= Seq::new(table@.len(), |j: int| entry_view(table@[j])));
        let mut k: usize = 0;
        assert(done + row.take(0) =~= done);
        while k < table.len()
            invariant
                k <= table@.len(),
                row == Seq::new(table@.len(), |j: int| entry_view(table@[j])),
                out@ == consensus_targets(done + row.take(k as int), Seq::empty(), account.text@),
            decreases table@.len() - k,
        {
            proof {
                assert((done + row.take(k + 1)).drop_last() =~= done + row.take(k as int));
                assert((done + row.take(k + 1)).last() == entry_view(table@[k as int]));
            }
            let keep = match &table[k].0 {
                Some(a) => a.text != account.text,
                None => true,
            };
            if keep {
                out.push(table[k].1);
            }
            k = k + 1;
        }
        proof {
            assert(row.take(row.len() as int) =~= row);
            assert(tv.take(i + 1).drop_last() =~= tv.take(i as int));
            assert(tv.take(i + 1).last() == row);
        }
        i = i + 1;
    }
    let ghost all = joined(tv);
    assert(tv.take(tv.len() as int) =~= tv);
    assert(vv.take(0) =~= Seq::<(SocketInfo, Seq<char>)>::empty());
    assert(out@ == consensus_targets(all, vv.take(0), account.text@));
    let mut j: usize = 0;
    while j < config.validator_keys.len()
        invariant
            j <= config.validator_keys@.len(),
            vv == key_views(config.validator_keys@),
            all == joined(tables_view(peer_tables@)),
            out@ == consensus_targets(all, vv.take(j as int), account.text@),
        decreases config.validator_keys@.len() - j,
    {
        proof {
            assert(vv.take(j + 1).drop_last() =~= vv.take(j as int));
            assert(vv.take(j + 1).last() == key_view(config.validator_keys@[j as int]));
        }
        let v = &config.validator_keys[j];
        if v.account.text != account.text {
            out.push(v.addr);
        }
        j = j + 1;
    }
    assert(vv.take(vv.len() as int) =~= vv);
    out
}

} // verus!
