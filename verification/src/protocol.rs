//! The peer-to-peer protocol: the messages a node sends to its peers, the
//! checks that a received message must pass, and how a session reacts to
//! one.
use vstd::prelude::*;
use vstd::utf8::encode_utf8;
use crate::address::Address;
use crate::stun::SocketInfo;
use crate::message::{ArgView, MessageView, SocketMessage, SocketMessageArg, arg_views};
use crate::time::{now_formatted, utc_timestamp_parses, DATE_FMT};

verus! {

/// Largest age, in seconds, of the timestamp of an accepted message.
pub const MAX_DELAY: i64 = 30;

/// The version of the protocol that a node speaks.
pub const PROTOCOL_VERSION: &'static str = "0.0.0";

/// The first three arguments of every protocol message: the version of the
/// sender, its account (32 bytes of text), and a timestamp that `fresh`
/// says is recent.
pub open spec fn header_valid(version: Seq<char>, args: Seq<ArgView>, fresh: bool) -> bool {
    &&& args.len() >= 3
    &&& args[0] matches ArgView::Version(v) && v == version
    &&& args[1] matches ArgView::Account(a) && encode_utf8(a).len() == 32
    &&& args[2] is Timestamp
    &&& fresh
}

/// Every argument from index `k` on is a string.
pub open spec fn strings_from(args: Seq<ArgView>, k: int) -> bool {
    forall|i: int| k <= i < args.len() ==> #[trigger] args[i] is Str
}

/// The messages that the protocol of `version` accepts, for a timestamp
/// whose freshness is `fresh`.
pub open spec fn p2p_accepts(version: Seq<char>, m: MessageView, fresh: bool) -> bool {
    let a = m.args;
    if m.event == "BOOTSTRAP"@ || m.event == "GOSSIP"@ {
        a.len() >= 4 && header_valid(version, a, fresh) && strings_from(a, 3)
    } else if m.event == "REJECT"@ {
        a.len() == 4 && header_valid(version, a, fresh) && a[3] is Str
    } else if m.event == "REQUEST_BLOCK_INFO"@ || m.event == "REQUEST_BLOCK"@ {
        a.len() == 5 && header_valid(version, a, fresh) && a[3] is Int
    } else {
        false
    }
}

/// The timestamp argument at `index` parses.
pub open spec fn timestamp_ok(args: Seq<ArgView>, index: int) -> bool {
    args[index] matches ArgView::Timestamp(t) && utc_timestamp_parses(t)
}

/// A timestamp of the age, in seconds, is fresh: it is known, and less than
/// `MAX_DELAY` seconds old.  `None` stands for a timestamp that is missing
/// or does not parse.
pub open spec fn is_fresh(age: Option<i64>) -> bool {
    age matches Some(a) && a < MAX_DELAY
}

/// The freshness of each of the ages.
pub open spec fn freshness_of(ages: Seq<Option<i64>>) -> Seq<bool> {
    Seq::new(ages.len(), |i: int| is_fresh(ages[i]))
}

/// What the clock may give for the timestamp at index 2 of the arguments:
/// an age exactly when there is a timestamp there that parses.
pub open spec fn age_of_timestamp(args: Seq<ArgView>, age: Option<i64>) -> bool {
    age is Some <==> (args.len() > 2 && timestamp_ok(args, 2))
}

/// Whether a timestamp of the age (in seconds) is fresh: less than
/// `MAX_DELAY` seconds old.
pub fn fresh_age(age: Option<i64>) -> (r: bool)
    ensures
        r == is_fresh(age),
{
    match age {
        Some(a) => a < MAX_DELAY,
        None => false,
    }
}

/// The age in seconds, by the clock, of the timestamp at index 2 of the
/// message; `None` when there is none there or it does not parse.
pub fn timestamp_age(msg: &SocketMessage) -> (r: Option<i64>)
    ensures
        age_of_timestamp(msg@.args, r),
{
    if msg.arg_len() > 2 {
        msg.timestamp_age_at(2)
    } else {
        None
    }
}

/// Information about the chain of a peer.
#[derive(Debug)]
pub struct BlockInfo {
    pub block_len: usize,
    pub last_block_num: usize,
    pub last_block_hash: crate::hash::Hash,
    pub esitmated_round: usize,
}

/// What a [`BlockInfo`] tells: the length of the chain, the number and the
/// hash of its last block, and the estimated round.
pub type BlockInfoView = (usize, usize, crate::hash::HashView, usize);

/// The view of a [`BlockInfo`].
pub open spec fn block_info_view(b: BlockInfo) -> BlockInfoView {
    (b.block_len, b.last_block_num, b.last_block_hash@, b.esitmated_round)
}

impl Clone for BlockInfo {
    fn clone(&self) -> (r: Self)
        ensures
            r.block_len == self.block_len,
            r.last_block_num == self.last_block_num,
            r.last_block_hash@ == self.last_block_hash@,
            r.esitmated_round == self.esitmated_round,
    {
        BlockInfo {
            block_len: self.block_len,
            last_block_num: self.last_block_num,
            last_block_hash: self.last_block_hash.clone(),
            esitmated_round: self.esitmated_round,
        }
    }
}

/// The number of peers a table is meant to hold.
pub const PEER_TABLE_LIMIT: usize = 512;

/// The peers that a node knows: the account of each, when known, and its
/// address.
#[derive(Debug)]
pub struct PeerTable {
    pub table: Vec<(Option<Address>, SocketInfo)>,
    pub limit: usize,
}

/// The text of an account, when there is one.
pub open spec fn account_view(a: Option<Address>) -> Option<Seq<char>> {
    match a {
        Some(x) => Some(x.text@),
        None => None,
    }
}

/// The entries of a peer table, with accounts taken as text.
pub open spec fn table_view(t: Seq<(Option<Address>, SocketInfo)>) -> Seq<(Option<Seq<char>>, SocketInfo)> {
    Seq::new(t.len(), |i: int| (account_view(t[i].0), t[i].1))
}

/// The entries for the hosts that parsed, in order, with no account.
pub open spec fn known_hosts(parsed: Seq<Option<SocketInfo>>) -> Seq<(Option<Seq<char>>, SocketInfo)>
    decreases parsed.len(),
{
    if parsed.len() == 0 {
        Seq::empty()
    } else {
        let rest = known_hosts(parsed.drop_last());
        match parsed.last() {
            Some(x) => rest.push((None, x)),
            None => rest,
        }
    }
}

/// A copy of an account.
pub(crate) fn clone_account(a: &Option<Address>) -> (r: Option<Address>)
    ensures
        account_view(r) == account_view(*a),
{
    match a {
        Some(x) => Some(x.clone()),
        None => None,
    }
}

/// A copy of the entries of a table.
pub(crate) fn clone_entries(t: &Vec<(Option<Address>, SocketInfo)>) -> (r: Vec<(Option<Address>, SocketInfo)>)
    ensures
        table_view(r@) == table_view(t@),
{
    let mut out: Vec<(Option<Address>, SocketInfo)> = Vec::new();
    let mut i: usize = 0;
    while i < t.len()
        invariant
            i <= t@.len(),
            out@.len() == i,
            forall|k: int| 0 <= k < i ==> account_view(#[trigger] out@[k].0) == account_view(t@[k].0)
                && out@[k].1 == t@[k].1,
        decreases t@.len() - i,
    {
        let e = &t[i];
        out.push((clone_account(&e.0), e.1));
        i = i + 1;
    }
    assert(table_view(out@) =~= table_view(t@));
    out
}

impl Clone for PeerTable {
    fn clone(&self) -> (r: Self)
        ensures
            table_view(r.table@) == table_view(self.table@),
            r.limit == self.limit,
    {
        PeerTable { table: clone_entries(&self.table), limit: self.limit }
    }
}

impl PeerTable {
    /// An empty table.
    pub fn new() -> (r: Self)
        ensures
            r.table@.len() == 0,
            r.limit == PEER_TABLE_LIMIT,
    {
        PeerTable { table: Vec::new(), limit: PEER_TABLE_LIMIT }
    }

    /// The table of the hosts of a message, each read as a socket address
    /// beforehand: the hosts that were read, in order, with no account.
    pub fn new_with_hosts(hosts: Vec<Option<SocketInfo>>) -> (r: Self)
        ensures
            table_view(r.table@) == known_hosts(hosts@),
            r.limit == PEER_TABLE_LIMIT,
    {
        let mut table: Vec<(Option<Address>, SocketInfo)> = Vec::new();
        let mut i: usize = 0;
        while i < hosts.len()
            invariant
                i <= hosts@.len(),
                table_view(table@) == known_hosts(hosts@.take(i as int)),
            decreases hosts@.len() - i,
        {
            assert(hosts@.take(i + 1).drop_last() =~= hosts@.take(i as int));
            let ghost before = table@;
            match hosts[i] {
                Some(info) => {
                    table.push((None, info));
                    assert(table_view(table@) =~= table_view(before).push((None, info)));
                },
                None => {},
            }
            i = i + 1;
        }
        assert(hosts@.take(hosts@.len() as int) =~= hosts@);
        PeerTable { table: table, limit: PEER_TABLE_LIMIT }
    }

    /// A copy of the entries.
    pub fn table(&self) -> (r: Vec<(Option<Address>, SocketInfo)>)
        ensures
            table_view(r@) == table_view(self.table@),
    {
        clone_entries(&self.table)
    }
}

/// basic protocols, implemented to generate [`SocketMessage`]
#[derive(Debug)]
pub struct P2PProtocol {
    vesion: String,
}

impl Clone for P2PProtocol {
    fn clone(&self) -> (r: Self)
        ensures
            r@ == self@,
    {
        P2PProtocol { vesion: self.vesion.clone() }
    }
}

impl View for P2PProtocol {
    type V = Seq<char>;

    /// The version the protocol speaks.
    closed spec fn view(&self) -> Seq<char> {
        self.vesion@
    }
}

/// The arguments of `args` from `k` on are the strings `hosts`.
pub open spec fn args_are_strings(args: Seq<ArgView>, k: int, hosts: Seq<String>) -> bool {
    &&& args.len() == k + hosts.len()
    &&& forall|i: int| 0 <= i < hosts.len() ==> #[trigger] args[k + i] == ArgView::Str(hosts[i]@)
}

/// A message built by the protocol of `version` for `account`: the event,
/// then the version, the account and a timestamp.
pub open spec fn built_with_header(m: MessageView, event: Seq<char>, version: Seq<char>, account: Seq<char>) -> bool {
    &&& m.event == event
    &&& m.args.len() >= 3
    &&& m.args[0] == ArgView::Version(version)
    &&& m.args[1] == ArgView::Account(account)
    &&& m.args[2] is Timestamp
    &&& m.payload == Seq::<u8>::empty()
}

/// A message of the event whose arguments are the version, the account,
/// the current time, then the extra arguments; its payload is empty.
pub(crate) fn message_with_header(event: &str, version: &String, account: &Address, extra: Vec<SocketMessageArg>) -> (r: SocketMessage)
    ensures
        built_with_header(r@, event@, version@, account.text@),
        r@.args.len() == 3 + extra@.len(),
        r@.args.subrange(3, r@.args.len() as int) == arg_views(extra@),
{
    let mut args: Vec<SocketMessageArg> = Vec::new();
    args.push(SocketMessageArg::Vesion { value: version.clone() });
    args.push(SocketMessageArg::Account { value: account.text.clone() });
    args.push(SocketMessageArg::Timestamp { value: now_formatted(DATE_FMT) });
    let mut i: usize = 0;
    while i < extra.len()
        invariant
            i <= extra@.len(),
            args@.len() == 3 + i,
            args@[0]@ == ArgView::Version(version@),
            args@[1]@ == ArgView::Account(account.text@),
            args@[2]@ is Timestamp,
            forall|k: int| 0 <= k < i ==> #[trigger] args@[3 + k]@ == extra@[k]@,
        decreases extra@.len() - i,
    {
        args.push(extra[i].clone());
        i = i + 1;
    }
    let r = SocketMessage::new(String::from_str(event), args, Vec::new());
    assert forall|k: int| 0 <= k < extra@.len() implies
        #[trigger] r@.args.subrange(3, r@.args.len() as int)[k] == arg_views(extra@)[k] by {
        assert(args@[3 + k]@ == extra@[k]@);
    }
    assert(r@.args.subrange(3, r@.args.len() as int) =~= arg_views(extra@));
    r
}

impl P2PProtocol {
    pub fn new() -> (r: Self)
        ensures
            r@ == PROTOCOL_VERSION@,
    {
        P2PProtocol { vesion: String::from_str(PROTOCOL_VERSION) }
    }

    /// The argument at `index` is the version of this protocol.
    fn verify_version(&self, index: usize, msg: &SocketMessage) -> (r: bool)
        requires
            index < msg@.args.len(),
        ensures
            r == (msg@.args[index as int] matches ArgView::Version(v) && v == self@),
    {
        if let Some(v) = msg.version_at(index) {
            self.vesion == v
        } else {
            false
        }
    }

    /// The argument at `index` is an account of 32 bytes of text.
    fn verify_account(index: usize, msg: &SocketMessage) -> (r: bool)
        requires
            index < msg@.args.len(),
        ensures
            r == (msg@.args[index as int] matches ArgView::Account(a) && encode_utf8(a).len() == 32),
    {
        if let Some(v) = msg.account_at(index) {
            v.text.as_str().as_bytes().len() == 32
        } else {
            false
        }
    }

    /// The checks of [`P2PProtocol::verify`], for a timestamp found to be
    /// `age` seconds old (`None`: missing or not parsed).
    pub fn verify_with_age(&self, msg: &SocketMessage, age: Option<i64>) -> (r: bool)
        ensures
            r == p2p_accepts(self@, msg@, is_fresh(age)),
    {
        let fresh = fresh_age(age);
        let event = msg.event();
        let len = msg.arg_len();
        let bootstrap = event == String::from_str("BOOTSTRAP");
        let gossip = event == String::from_str("GOSSIP");
        if bootstrap || gossip {
            if len < 4 {
                return false;
            }
            if !(self.verify_version(0, msg) && Self::verify_account(1, msg)
                && msg.timestamp_text_at(2).is_some() && fresh) {
                return false;
            }
            let mut i: usize = 3;
            while i < len
                invariant
                    3 <= i <= len,
                    len == msg@.args.len(),
                    msg@.event == "BOOTSTRAP"@ || msg@.event == "GOSSIP"@,
                    forall|k: int| 3 <= k < i ==> #[trigger] msg@.args[k] is Str,
                decreases len - i,
            {
                if msg.string_at(i).is_none() {
                    return false;
                }
                i = i + 1;
            }
            return true;
        } else if event == String::from_str("REJECT") {
            if len != 4 {
                return false;
            }
            if !(self.verify_version(0, msg) && Self::verify_account(1, msg)
                && msg.timestamp_text_at(2).is_some() && fresh) {
                return false;
            }
            match msg.string_at(3) {
                Some(_) => true,
                None => false,
            }
        } else if event == String::from_str("REQUEST_BLOCK_INFO") || event == String::from_str("REQUEST_BLOCK") {
            if len != 5 {
                return false;
            }
            if !(self.verify_version(0, msg) && Self::verify_account(1, msg)
                && msg.timestamp_text_at(2).is_some() && fresh) {
                return false;
            }
            let mut ret = match msg.int_at(3) {
                Some(_) => true,
                None => false,
            };
            ret = ret && match msg.int_at(3) {
                Some(_) => true,
                None => false,
            };
            ret
        } else {
            false
        }
    }

    /// Checks a received message: its event is one the protocol knows, it
    /// has the arguments that the event calls for, it speaks this version,
    /// comes from a 32-byte account, and its timestamp is less than
    /// `MAX_DELAY` seconds old.
    pub fn verify(&self, msg: &SocketMessage) -> (r: bool)
        ensures
            exists|age: Option<i64>| #![trigger is_fresh(age)]
                age_of_timestamp(msg@.args, age) && r == p2p_accepts(self@, msg@, is_fresh(age)),
            r ==> p2p_accepts(self@, msg@, true),
            r ==> timestamp_ok(msg@.args, 2),
    {
        let age = timestamp_age(msg);
        self.verify_with_age(msg, age)
    }

    /// A message of the event with the header and the extra arguments.
    fn build(&self, event: &str, account: &Address, extra: Vec<SocketMessageArg>) -> (r: SocketMessage)
        ensures
            built_with_header(r@, event@, self@, account.text@),
            r@.args.len() == 3 + extra@.len(),
            r@.args.subrange(3, r@.args.len() as int) == arg_views(extra@),
    {
        message_with_header(event, &self.vesion, account, extra)
    }

    /// The strings as arguments.
    fn host_args(hosts: &Vec<String>) -> (r: Vec<SocketMessageArg>)
        ensures
            r@.len() == hosts@.len(),
            forall|i: int| 0 <= i < hosts@.len() ==> #[trigger] r@[i]@ == ArgView::Str(hosts@[i]@),
    {
        let mut out: Vec<SocketMessageArg> = Vec::new();
        let mut i: usize = 0;
        while i < hosts.len()
            invariant
                i <= hosts@.len(),
                out@.len() == i,
                forall|k: int| 0 <= k < i ==> #[trigger] out@[k]@ == ArgView::Str(hosts@[k]@),
            decreases hosts@.len() - i,
        {
            out.push(SocketMessageArg::String { value: hosts[i].clone() });
            i = i + 1;
        }
        out
    }

    /// Introduces the node to a peer, with the addresses of the peers it
    /// knows.
    pub fn bootstrap(&self, account: &Address, hosts: &Vec<String>) -> (r: SocketMessage)
        ensures
            built_with_header(r@, "BOOTSTRAP"@, self@, account.text@),
            args_are_strings(r@.args, 3, hosts@),
    {
        let r = self.build("BOOTSTRAP", account, Self::host_args(hosts));
        proof {
            assert forall|i: int| 0 <= i < hosts@.len() implies #[trigger] r@.args[3 + i] == ArgView::Str(hosts@[i]@) by {
                assert(r@.args.subrange(3, r@.args.len() as int)[i] == r@.args[3 + i]);
            }
        }
        r
    }

    /// Tells a peer the addresses of the peers the node knows.
    pub fn gossip(&self, account: &Address, hosts: &Vec<String>) -> (r: SocketMessage)
        ensures
            built_with_header(r@, "GOSSIP"@, self@, account.text@),
            args_are_strings(r@.args, 3, hosts@),
    {
        let r = self.build("GOSSIP", account, Self::host_args(hosts));
        proof {
            assert forall|i: int| 0 <= i < hosts@.len() implies #[trigger] r@.args[3 + i] == ArgView::Str(hosts@[i]@) by {
                assert(r@.args.subrange(3, r@.args.len() as int)[i] == r@.args[3 + i]);
            }
        }
        r
    }

    /// Refuses a peer, with the reason.
    pub fn reject(&self, account: &Address, reason: String) -> (r: SocketMessage)
        ensures
            built_with_header(r@, "REJECT"@, self@, account.text@),
            r@.args.len() == 4,
            r@.args[3] == ArgView::Str(reason@),
    {
        let mut extra: Vec<SocketMessageArg> = Vec::new();
        extra.push(SocketMessageArg::String { value: reason });
        let r = self.build("REJECT", account, extra);
        assert(r@.args.subrange(3, 4)[0] == r@.args[3]);
        r
    }

    /// Asks a peer for its chain, with the length and last hash of the
    /// node's own.
    pub fn request_block_info(&self, account: &Address, self_block_len: usize, self_last_hash: &crate::hash::Hash) -> (r: SocketMessage)
        ensures
            built_with_header(r@, "REQUEST_BLOCK_INFO"@, self@, account.text@),
            r@.args.len() == 5,
            r@.args[3] == ArgView::Int(self_block_len as i64),
            r@.args[4] == ArgView::Hash(self_last_hash@),
    {
        let mut extra: Vec<SocketMessageArg> = Vec::new();
        extra.push(SocketMessageArg::Int { value: self_block_len as i64 });
        extra.push(SocketMessageArg::Hash { value: self_last_hash.clone() });
        let r = self.build("REQUEST_BLOCK_INFO", account, extra);
        assert(r@.args.subrange(3, 5)[0] == r@.args[3]);
        assert(r@.args.subrange(3, 5)[1] == r@.args[4]);
        r
    }

    /// Tells a peer the length and last hash of the chain.
    pub fn block_info(&self, account: &Address, block_info: &BlockInfo) -> (r: SocketMessage)
        ensures
            built_with_header(r@, "BLOCK_INFO"@, self@, account.text@),
            r@.args.len() == 5,
            r@.args[3] == ArgView::Int(block_info.block_len as i64),
            r@.args[4] == ArgView::Hash(block_info.last_block_hash@),
    {
        let mut extra: Vec<SocketMessageArg> = Vec::new();
        extra.push(SocketMessageArg::Int { value: block_info.block_len as i64 });
        extra.push(SocketMessageArg::Hash { value: block_info.last_block_hash.clone() });
        let r = self.build("BLOCK_INFO", account, extra);
        assert(r@.args.subrange(3, 5)[0] == r@.args[3]);
        assert(r@.args.subrange(3, 5)[1] == r@.args[4]);
        r
    }

    /// Asks a peer where its chain and the node's part.
    pub fn request_sync_info(&self, account: &Address, block_info: &BlockInfo) -> (r: SocketMessage)
        ensures
            built_with_header(r@, "REQUEST_SYNC_INFO"@, self@, account.text@),
            r@.args.len() == 5,
            r@.args[3] == ArgView::Int(block_info.last_block_num as i64),
            r@.args[4] == ArgView::Hash(block_info.last_block_hash@),
    {
        let mut extra: Vec<SocketMessageArg> = Vec::new();
        extra.push(SocketMessageArg::Int { value: block_info.last_block_num as i64 });
        extra.push(SocketMessageArg::Hash { value: block_info.last_block_hash.clone() });
        let r = self.build("REQUEST_SYNC_INFO", account, extra);
        assert(r@.args.subrange(3, 5)[0] == r@.args[3]);
        assert(r@.args.subrange(3, 5)[1] == r@.args[4]);
        r
    }

    /// Tells a peer the block where the chains part and the last block.
    pub fn sync_info(&self, account: &Address, forked_block_info: &BlockInfo, last_block_info: &BlockInfo) -> (r: SocketMessage)
        ensures
            built_with_header(r@, "SYNC_INFO"@, self@, account.text@),
            r@.args.len() == 7,
            r@.args[3] == ArgView::Int(forked_block_info.last_block_num as i64),
            r@.args[4] == ArgView::Hash(forked_block_info.last_block_hash@),
            r@.args[5] == ArgView::Int(last_block_info.last_block_num as i64),
            r@.args[6] == ArgView::Hash(last_block_info.last_block_hash@),
    {
        let mut extra: Vec<SocketMessageArg> = Vec::new();
        extra.push(SocketMessageArg::Int { value: forked_block_info.last_block_num as i64 });
        extra.push(SocketMessageArg::Hash { value: forked_block_info.last_block_hash.clone() });
        extra.push(SocketMessageArg::Int { value: last_block_info.last_block_num as i64 });
        extra.push(SocketMessageArg::Hash { value: last_block_info.last_block_hash.clone() });
        let r = self.build("SYNC_INFO", account, extra);
        assert(r@.args.subrange(3, 7)[0] == r@.args[3]);
        assert(r@.args.subrange(3, 7)[1] == r@.args[4]);
        assert(r@.args.subrange(3, 7)[2] == r@.args[5]);
        assert(r@.args.subrange(3, 7)[3] == r@.args[6]);
        r
    }

    /// Tells a peer that syncing from the forked block failed.
    pub fn unsuccess_sync_info(&self, account: &Address, forked_block_info: &BlockInfo) -> (r: SocketMessage)
        ensures
            built_with_header(r@, "UNSECCESS_SYNC_INFO"@, self@, account.text@),
            r@.args.len() == 5,
            r@.args[3] == ArgView::Int(forked_block_info.last_block_num as i64),
            r@.args[4] == ArgView::Hash(forked_block_info.last_block_hash@),
    {
        let mut extra: Vec<SocketMessageArg> = Vec::new();
        extra.push(SocketMessageArg::Int { value: forked_block_info.last_block_num as i64 });
        extra.push(SocketMessageArg::Hash { value: forked_block_info.last_block_hash.clone() });
        let r = self.build("UNSECCESS_SYNC_INFO", account, extra);
        assert(r@.args.subrange(3, 5)[0] == r@.args[3]);
        assert(r@.args.subrange(3, 5)[1] == r@.args[4]);
        r
    }

    /// Asks a peer for the blocks from `start_block_num` to `end_block_num`.
    pub fn request_transmission(&self, account: &Address, start_block_num: usize, end_block_num: usize) -> (r: SocketMessage)
        ensures
            built_with_header(r@, "REQUEST_TRANS"@, self@, account.text@),
            r@.args.len() == 5,
            r@.args[3] == ArgView::Int(start_block_num as i64),
            r@.args[4] == ArgView::Int(end_block_num as i64),
    {
        let mut extra: Vec<SocketMessageArg> = Vec::new();
        extra.push(SocketMessageArg::Int { value: start_block_num as i64 });
        extra.push(SocketMessageArg::Int { value: end_block_num as i64 });
        let r = self.build("REQUEST_TRANS", account, extra);
        assert(r@.args.subrange(3, 5)[0] == r@.args[3]);
        assert(r@.args.subrange(3, 5)[1] == r@.args[4]);
        r
    }

    /// Tells a peer that `size` bytes are ready to be sent.
    pub fn transmission_prepared(&self, account: &Address, size: usize) -> (r: SocketMessage)
        ensures
            built_with_header(r@, "TRANS_PREPARED"@, self@, account.text@),
            r@.args.len() == 4,
            r@.args[3] == ArgView::Int(size as i64),
    {
        let mut extra: Vec<SocketMessageArg> = Vec::new();
        extra.push(SocketMessageArg::Int { value: size as i64 });
        let r = self.build("TRANS_PREPARED", account, extra);
        assert(r@.args.subrange(3, 4)[0] == r@.args[3]);
        r
    }

    /// Tells a peer that the transmission cannot start, with the reason.
    pub fn transmission_not_ready(&self, account: &Address, reason: String) -> (r: SocketMessage)
        ensures
            built_with_header(r@, "TRANS_NOT_READY"@, self@, account.text@),
            r@.args.len() == 4,
            r@.args[3] == ArgView::Str(reason@),
    {
        let mut extra: Vec<SocketMessageArg> = Vec::new();
        extra.push(SocketMessageArg::String { value: reason });
        let r = self.build("TRANS_NOT_READY", account, extra);
        assert(r@.args.subrange(3, 4)[0] == r@.args[3]);
        r
    }

    /// Accepts a transmission.
    pub fn transmission_accept(&self, account: &Address) -> (r: SocketMessage)
        ensures
            built_with_header(r@, "TRANS_ACCEPT"@, self@, account.text@),
            r@.args.len() == 3,
    {
        self.build("TRANS_ACCEPT", account, Vec::new())
    }

    /// A heartbeat message.
    pub fn heartbeat(&self) -> (r: SocketMessage)
        ensures
            r@ == SocketMessage::heartbeat_view(),
    {
        SocketMessage::heartbeat()
    }
}

/// The messages that the protocol builds pass its own checks: a bootstrap
/// or a gossip with at least one host, a rejection, and a request for block
/// information, built by the protocol of `version` for an account of 32
/// bytes, are accepted by the protocol of the same version while their
/// timestamp is fresh, and refused once it is not.
pub proof fn law_built_messages_pass(
    version: Seq<char>,
    account: Seq<char>,
    m: MessageView,
    hosts: Seq<String>,
    reason: Seq<char>,
    len: i64,
    hash: crate::hash::HashView,
)
    requires
        encode_utf8(account).len() == 32,
    ensures
        (built_with_header(m, "BOOTSTRAP"@, version, account) && args_are_strings(m.args, 3, hosts) && hosts.len() > 0)
            ==> p2p_accepts(version, m, true) && !p2p_accepts(version, m, false),
        (built_with_header(m, "GOSSIP"@, version, account) && args_are_strings(m.args, 3, hosts) && hosts.len() > 0)
            ==> p2p_accepts(version, m, true) && !p2p_accepts(version, m, false),
        (built_with_header(m, "REJECT"@, version, account) && m.args.len() == 4 && m.args[3] == ArgView::Str(reason))
            ==> p2p_accepts(version, m, true) && !p2p_accepts(version, m, false),
        (built_with_header(m, "REQUEST_BLOCK_INFO"@, version, account) && m.args.len() == 5
            && m.args[3] == ArgView::Int(len) && m.args[4] == ArgView::Hash(hash))
            ==> p2p_accepts(version, m, true) && !p2p_accepts(version, m, false),
        (built_with_header(m, "REQUEST_BLOCK"@, version, account) && m.args.len() == 5
            && m.args[3] == ArgView::Int(len) && m.args[4] == ArgView::Hash(hash))
            ==> p2p_accepts(version, m, true) && !p2p_accepts(version, m, false),
{
    reveal_strlit("BOOTSTRAP");
    reveal_strlit("GOSSIP");
    reveal_strlit("REJECT");
    reveal_strlit("REQUEST_BLOCK_INFO");
    assert("REQUEST_BLOCK_INFO"@.len() != "BOOTSTRAP"@.len());
    assert("REQUEST_BLOCK_INFO"@.len() != "GOSSIP"@.len());
    assert("REQUEST_BLOCK_INFO"@.len() != "REJECT"@.len());
    reveal_strlit("REQUEST_BLOCK");
    assert("REQUEST_BLOCK"@.len() != "BOOTSTRAP"@.len());
    assert("REQUEST_BLOCK"@.len() != "GOSSIP"@.len());
    assert("REQUEST_BLOCK"@.len() != "REJECT"@.len());
    if built_with_header(m, "BOOTSTRAP"@, version, account) || built_with_header(m, "GOSSIP"@, version, account) {
        if args_are_strings(m.args, 3, hosts) {
            assert forall|i: int| 3 <= i < m.args.len() implies #[trigger] m.args[i] is Str by {
                assert(m.args[3 + (i - 3)] == ArgView::Str(hosts[i - 3]@));
            }
        }
    }
}

/// What the protocol refuses, whatever the timestamp: a message of an
/// event other than `BOOTSTRAP`, `GOSSIP`, `REJECT`, `REQUEST_BLOCK_INFO`
/// and `REQUEST_BLOCK`; one of fewer than three arguments, of another
/// version, or from an account that is not 32 bytes; a rejection that is
/// not four arguments with a text last; a request for blocks that is not
/// five arguments with a number at index 3; a bootstrap or gossip with no
/// host or with an argument after the header that is not a text.
pub proof fn law_verify_refuses(version: Seq<char>, m: MessageView, fresh: bool)
    ensures
        (m.event != "BOOTSTRAP"@ && m.event != "GOSSIP"@ && m.event != "REJECT"@
            && m.event != "REQUEST_BLOCK_INFO"@ && m.event != "REQUEST_BLOCK"@) ==> !p2p_accepts(version, m, fresh),
        m.args.len() < 3 ==> !p2p_accepts(version, m, fresh),
        (m.args.len() >= 1 && m.args[0] != ArgView::Version(version)) ==> !p2p_accepts(version, m, fresh),
        (m.args.len() >= 2 && !(m.args[1] matches ArgView::Account(a) && encode_utf8(a).len() == 32))
            ==> !p2p_accepts(version, m, fresh),
        (m.event == "REJECT"@ && (m.args.len() != 4 || !(m.args[3] is Str))) ==> !p2p_accepts(version, m, fresh),
        ((m.event == "REQUEST_BLOCK_INFO"@ || m.event == "REQUEST_BLOCK"@) && (m.args.len() != 5 || !(m.args[3] is Int)))
            ==> !p2p_accepts(version, m, fresh),
        ((m.event == "BOOTSTRAP"@ || m.event == "GOSSIP"@) && (m.args.len() < 4
            || exists|i: int| 3 <= i < m.args.len() && !(#[trigger] m.args[i] is Str)))
            ==> !p2p_accepts(version, m, fresh),
{
    reveal_strlit("BOOTSTRAP");
    reveal_strlit("GOSSIP");
    reveal_strlit("REJECT");
    reveal_strlit("REQUEST_BLOCK_INFO");
    reveal_strlit("REQUEST_BLOCK");
    assert("GOSSIP"@.len() != "BOOTSTRAP"@.len());
    assert("REJECT"@.len() != "BOOTSTRAP"@.len());
    assert("REJECT"@[0] != "GOSSIP"@[0]);
    assert("REQUEST_BLOCK"@.len() != "BOOTSTRAP"@.len());
    assert("REQUEST_BLOCK"@.len() != "GOSSIP"@.len());
    assert("REQUEST_BLOCK"@.len() != "REJECT"@.len());
    assert("REQUEST_BLOCK_INFO"@.len() != "BOOTSTRAP"@.len());
    assert("REQUEST_BLOCK_INFO"@.len() != "GOSSIP"@.len());
    assert("REQUEST_BLOCK_INFO"@.len() != "REJECT"@.len());
}

} // verus!
