//! Consensus messages: the proposes, prevotes and precommits of validators,
//! how they travel as socket messages, and the checks that a received one
//! must pass.
use vstd::prelude::*;
use crate::address::Address;
use crate::hash::HashView;
use crate::message::{ArgView, MessageView, SocketMessage, SocketMessageArg};
use crate::protocol::{age_of_timestamp, fresh_age, header_valid, is_fresh, message_with_header, timestamp_age, timestamp_ok, MAX_DELAY, PROTOCOL_VERSION};

verus! {

/// The number of a validator in the list of validators.
#[derive(Clone, Copy, Debug, PartialEq, Eq, Structural)]
pub struct ValidatorId(pub u16);

/// The views of a list of digests.
pub open spec fn hash_views(hs: Seq<crate::hash::Hash>) -> Seq<HashView> {
    Seq::new(hs.len(), |i: int| hs[i]@)
}

/// Current node status.
#[derive(Debug)]
pub struct Status {
    /// The sender's public key.
    pub from: Address,
    /// The height to which the message is related.
    pub height: usize,
    /// Hash of the last committed block.
    pub last_hash: crate::hash::Hash,
}

/// Proposal for a new block.
#[derive(Debug)]
pub struct Propose {
    /// The validator account.
    pub validator: ValidatorId,
    /// The height to which the message is related.
    pub height: usize,
    /// The round to which the message is related.
    pub round: usize,
    /// Hash of the previous block.
    pub prev_hash: crate::hash::Hash,
    /// The list of transactions to include in the next block.
    pub transactions: Vec<crate::hash::Hash>,
}

/// Pre-vote for a new block.
#[derive(Debug)]
pub struct Prevote {
    /// The validator account.
    pub validator: ValidatorId,
    /// The height to which the message is related.
    pub height: usize,
    /// The round to which the message is related.
    pub round: usize,
    /// Hash of the corresponding `Propose`.
    pub propose_hash: crate::hash::Hash,
    /// Locked round.
    pub locked_round: usize,
}

/// Pre-commit for a proposal.
#[derive(Debug)]
pub struct Precommit {
    /// The validator account.
    pub validator: ValidatorId,
    /// The height to which the message is related.
    pub height: usize,
    /// The round to which the message is related.
    pub round: usize,
    /// Hash of the corresponding `Propose`.
    pub propose_hash: crate::hash::Hash,
    /// Hash of the new block.
    pub block_hash: crate::hash::Hash,
    /// Time of the `Precommit`, as the text of the timestamp that carried it.
    pub time: String,
}

/// A copy of the digests.
fn clone_hashes(hs: &Vec<crate::hash::Hash>) -> (r: Vec<crate::hash::Hash>)
    ensures
        hash_views(r@) == hash_views(hs@),
{
    let mut out: Vec<crate::hash::Hash> = Vec::new();
    let mut i: usize = 0;
    while i < hs.len()
        invariant
            i <= hs@.len(),
            out@.len() == i,
            forall|k: int| 0 <= k < i ==> #[trigger] out@[k]@ == hs@[k]@,
        decreases hs@.len() - i,
    {
        out.push(hs[i].clone());
        i = i + 1;
    }
    assert(hash_views(out@) =~= hash_views(hs@));
    out
}

impl Clone for Propose {
    fn clone(&self) -> (r: Self)
        ensures
            r.validator == self.validator,
            r.height == self.height,
            r.round == self.round,
            r.prev_hash@ == self.prev_hash@,
            hash_views(r.transactions@) == hash_views(self.transactions@),
    {
        Propose {
            validator: self.validator,
            height: self.height,
            round: self.round,
            prev_hash: self.prev_hash.clone(),
            transactions: clone_hashes(&self.transactions),
        }
    }
}

impl Clone for Prevote {
    fn clone(&self) -> (r: Self)
        ensures
            r.validator == self.validator,
            r.height == self.height,
            r.round == self.round,
            r.propose_hash@ == self.propose_hash@,
            r.locked_round == self.locked_round,
    {
        Prevote {
            validator: self.validator,
            height: self.height,
            round: self.round,
            propose_hash: self.propose_hash.clone(),
            locked_round: self.locked_round,
        }
    }
}

impl Clone for Precommit {
    fn clone(&self) -> (r: Self)
        ensures
            r.validator == self.validator,
            r.height == self.height,
            r.round == self.round,
            r.propose_hash@ == self.propose_hash@,
            r.block_hash@ == self.block_hash@,
            r.time@ == self.time@,
    {
        Precommit {
            validator: self.validator,
            height: self.height,
            round: self.round,
            propose_hash: self.propose_hash.clone(),
            block_hash: self.block_hash.clone(),
            time: self.time.clone(),
        }
    }
}

/// `RequestData` represents a request for some data to other nodes. Each
/// enum variant will be translated to the corresponding request-message.
#[derive(Debug)]
pub enum RequestData {
    /// Represents `ProposeRequest` message.
    Propose(crate::hash::Hash),
    /// Represents `TransactionsRequest` message for `Propose`.
    ProposeTransactions(crate::hash::Hash),
    /// Represents `TransactionsRequest` message for `BlockResponse`.
    BlockTransactions,
    /// Represents `PrevotesRequest` message.
    Prevotes(usize, crate::hash::Hash),
    /// Represents `BlockRequest` message.
    Block(usize),
}

/// The value of a [`RequestData`].
pub enum RequestView {
    Propose(HashView),
    ProposeTransactions(HashView),
    BlockTransactions,
    Prevotes(usize, HashView),
    Block(usize),
}

impl View for RequestData {
    type V = RequestView;

    open spec fn view(&self) -> RequestView {
        match self {
            RequestData::Propose(h) => RequestView::Propose(h@),
            RequestData::ProposeTransactions(h) => RequestView::ProposeTransactions(h@),
            RequestData::BlockTransactions => RequestView::BlockTransactions,
            RequestData::Prevotes(r, h) => RequestView::Prevotes(*r, h@),
            RequestData::Block(n) => RequestView::Block(*n),
        }
    }
}

impl Clone for RequestData {
    fn clone(&self) -> (r: Self)
        ensures
            r@ == self@,
    {
        match self {
            RequestData::Propose(h) => RequestData::Propose(h.clone()),
            RequestData::ProposeTransactions(h) => RequestData::ProposeTransactions(h.clone()),
            RequestData::BlockTransactions => RequestData::BlockTransactions,
            RequestData::Prevotes(r, h) => RequestData::Prevotes(*r, h.clone()),
            RequestData::Block(n) => RequestData::Block(*n),
        }
    }
}

impl RequestData {
    /// The two requests ask for the same data.
    pub fn same_request(&self, other: &RequestData) -> (r: bool)
        ensures
            r == (self@ == other@),
    {
        match (self, other) {
            (RequestData::Propose(a), RequestData::Propose(b)) => a.same_as(b),
            (RequestData::ProposeTransactions(a), RequestData::ProposeTransactions(b)) => a.same_as(b),
            (RequestData::BlockTransactions, RequestData::BlockTransactions) => true,
            (RequestData::Prevotes(r1, a), RequestData::Prevotes(r2, b)) => *r1 == *r2 && a.same_as(b),
            (RequestData::Block(n1), RequestData::Block(n2)) => *n1 == *n2,
            _ => false,
        }
    }
}

/// The integer of an argument (meaningful when it is one).
pub open spec fn int_of(a: ArgView) -> i64 {
    match a {
        ArgView::Int(v) => v,
        _ => 0,
    }
}

/// The digest of an argument (meaningful when it is one).
pub open spec fn hash_of(a: ArgView) -> HashView {
    match a {
        ArgView::Hash(h) => h,
        _ => arbitrary(),
    }
}

/// The account text of an argument (meaningful when it is one).
pub open spec fn account_of(a: ArgView) -> Seq<char> {
    match a {
        ArgView::Account(t) => t,
        _ => Seq::empty(),
    }
}

/// The text of a timestamp argument (meaningful when it is one).
pub open spec fn timestamp_of(a: ArgView) -> Seq<char> {
    match a {
        ArgView::Timestamp(t) => t,
        _ => Seq::empty(),
    }
}

/// Every argument from index `k` on is an integer.
pub open spec fn ints_from(args: Seq<ArgView>, k: int) -> bool {
    forall|i: int| k <= i < args.len() ==> #[trigger] args[i] is Int
}

/// Every argument from index `k` on is a digest.
pub open spec fn hashes_from(args: Seq<ArgView>, k: int) -> bool {
    forall|i: int| k <= i < args.len() ==> #[trigger] args[i] is Hash
}

/// A propose message that the protocol of `version` accepts: the header,
/// three integers (validator, height, round), the previous hash, one more
/// argument, then digests.
pub open spec fn propose_accepts(version: Seq<char>, args: Seq<ArgView>, fresh: bool) -> bool {
    &&& args.len() >= 8
    &&& header_valid(version, args, fresh)
    &&& args[3] is Int
    &&& args[4] is Int
    &&& args[5] is Int
    &&& args[6] is Hash
    &&& hashes_from(args, 8)
}

/// A prevote message that the protocol of `version` accepts: the header,
/// three integers (validator, height, round), the propose hash and the
/// locked round.
pub open spec fn prevote_accepts(version: Seq<char>, args: Seq<ArgView>, fresh: bool) -> bool {
    &&& args.len() >= 8
    &&& header_valid(version, args, fresh)
    &&& args[3] is Int
    &&& args[4] is Int
    &&& args[5] is Int
    &&& args[6] is Hash
    &&& args[7] is Int
}

/// A precommit message that the protocol of `version` accepts: the header,
/// three integers (validator, height, round), the propose hash and the block
/// hash.
pub open spec fn precommit_accepts(version: Seq<char>, args: Seq<ArgView>, fresh: bool) -> bool {
    &&& args.len() >= 8
    &&& header_valid(version, args, fresh)
    &&& args[3] is Int
    &&& args[4] is Int
    &&& args[5] is Int
    &&& args[6] is Hash
    &&& args[7] is Hash
}

/// The messages that [`ConsensusProtocol::verify`] accepts: a notification
/// of one of the three kinds with its header, its digests and integers
/// after them; any other event passes.
pub open spec fn consensus_accepts(version: Seq<char>, m: MessageView, fresh: bool) -> bool {
    let a = m.args;
    if m.event == "NOTIFY_PROPOSE"@ {
        a.len() >= 7 && header_valid(version, a, fresh) && a[3] is Hash && ints_from(a, 4)
    } else if m.event == "NOTIFY_PREVOTE"@ {
        a.len() >= 8 && header_valid(version, a, fresh) && a[3] is Hash && ints_from(a, 4)
    } else if m.event == "NOTIFY_PRECOMMIT"@ {
        a.len() >= 7 && header_valid(version, a, fresh) && a[3] is Hash && a[4] is Hash
            && ints_from(a, 5)
    } else {
        true
    }
}

/// The arguments of a prevote message after the header.
pub open spec fn prevote_args(p: Prevote) -> Seq<ArgView> {
    seq![
        ArgView::Int(p.validator.0 as i64),
        ArgView::Int(p.height as i64),
        ArgView::Int(p.round as i64),
        ArgView::Hash(p.propose_hash@),
        ArgView::Int(p.locked_round as i64),
    ]
}

/// The arguments of a precommit message after the header.
pub open spec fn precommit_args(p: Precommit) -> Seq<ArgView> {
    seq![
        ArgView::Int(p.validator.0 as i64),
        ArgView::Int(p.height as i64),
        ArgView::Int(p.round as i64),
        ArgView::Hash(p.propose_hash@),
        ArgView::Hash(p.block_hash@),
    ]
}

/// The arguments of a propose message after the header.
pub open spec fn propose_args(p: Propose) -> Seq<ArgView> {
    seq![
        ArgView::Int(p.validator.0 as i64),
        ArgView::Int(p.height as i64),
        ArgView::Int(p.round as i64),
        ArgView::Hash(p.prev_hash@),
    ] + Seq::new(p.transactions@.len(), |i: int| ArgView::Hash(p.transactions@[i]@))
}

/// A message of the event sent by the protocol of `version` for `account`:
/// the version, the account, a timestamp, then `rest`; no payload.
pub open spec fn consensus_message(m: MessageView, event: Seq<char>, version: Seq<char>, account: Seq<char>, rest: Seq<ArgView>) -> bool {
    &&& m.event == event
    &&& m.args.len() == 3 + rest.len()
    &&& m.args[0] == ArgView::Version(version)
    &&& m.args[1] == ArgView::Account(account)
    &&& m.args[2] is Timestamp
    &&& m.args.subrange(3, m.args.len() as int) == rest
    &&& m.payload == Seq::<u8>::empty()
}

/// The message that [`ConsensusProtocol::request`] builds for a request.
pub open spec fn request_message(req: RequestData) -> MessageView {
    match req {
        RequestData::Propose(h) => MessageView {
            event: "REQUEST_PROPOSE"@, args: seq![ArgView::Hash(h@)], payload: Seq::empty() },
        RequestData::ProposeTransactions(h) => MessageView {
            event: "REQUEST_PROPOSE_TNXS"@, args: seq![ArgView::Hash(h@)], payload: Seq::empty() },
        RequestData::BlockTransactions => MessageView {
            event: "REQUEST_BLOCK_TNXS"@, args: Seq::empty(), payload: Seq::empty() },
        RequestData::Prevotes(round, h) => MessageView {
            event: "REQUEST_PREVOTE"@,
            args: seq![ArgView::Int(round as i64), ArgView::Hash(h@)],
            payload: Seq::empty(),
        },
        RequestData::Block(height) => MessageView {
            event: "REQUEST_BLOCK"@, args: seq![ArgView::Int(height as i64)], payload: Seq::empty() },
    }
}

/// basic protocols, implemented to generate [`SocketMessage`]
#[derive(Debug)]
pub struct ConsensusProtocol {
    vesion: String,
}

impl Clone for ConsensusProtocol {
    fn clone(&self) -> (r: Self)
        ensures
            r@ == self@,
    {
        ConsensusProtocol { vesion: self.vesion.clone() }
    }
}

impl View for ConsensusProtocol {
    type V = Seq<char>;

    /// The version the protocol speaks.
    closed spec fn view(&self) -> Seq<char> {
        self.vesion@
    }
}

impl ConsensusProtocol {
    pub fn new() -> (r: Self)
        ensures
            r@ == PROTOCOL_VERSION@,
    {
        ConsensusProtocol { vesion: String::from_str(PROTOCOL_VERSION) }
    }

    /// The argument at `index` is the version of this protocol.
    fn verify_version(&self, index: usize, msg: &SocketMessage) -> (r: bool)
        requires
            index < msg@.args.len(),
        ensures
            r == (msg@.args[index as int] matches ArgView::Version(v) && v == self@),
    {
        if let Some(v) = msg.version_at(index) {
            self.vesion == v
        } else {
            false
        }
    }

    /// The argument at `index` is an account of 32 bytes of text.
    fn verify_account(index: usize, msg: &SocketMessage) -> (r: bool)
        requires
            index < msg@.args.len(),
        ensures
            r == (msg@.args[index as int] matches ArgView::Account(a)
                && vstd::utf8::encode_utf8(a).len() == 32),
    {
        if let Some(v) = msg.account_at(index) {
            v.text.as_str().as_bytes().len() == 32
        } else {
            false
        }
    }

    /// The header checks, given the freshness of the timestamp.
    fn verify_header(&self, msg: &SocketMessage, fresh: bool) -> (r: bool)
        requires
            msg@.args.len() >= 3,
        ensures
            r == header_valid(self@, msg@.args, fresh),
    {
        self.verify_version(0, msg) && Self::verify_account(1, msg)
            && msg.timestamp_text_at(2).is_some() && fresh
    }

    /// The checks of [`ConsensusProtocol::verify_propose`], for a timestamp
    /// found to be `age` seconds old (`None`: missing or not parsed): the propose and the account
    /// of its sender.
    pub fn verify_propose_with_age(&self, msg: &SocketMessage, age: Option<i64>) -> (r: Option<(Propose, Address)>)
        ensures
            r is Some <==> propose_accepts(self@, msg@.args, is_fresh(age)),
            r matches Some((p, a)) ==> {
                &&& p.validator.0 == int_of(msg@.args[3]) as u16
                &&& p.height == int_of(msg@.args[4]) as usize
                &&& p.round == int_of(msg@.args[5]) as usize
                &&& p.prev_hash@ == hash_of(msg@.args[6])
                &&& hash_views(p.transactions@) == Seq::new(
                    (msg@.args.len() - 8) as nat, |i: int| hash_of(msg@.args[8 + i]))
                &&& a.text@ == account_of(msg@.args[1])
            },
    {
        let fresh = fresh_age(age);
        if msg.arg_len() < 8 {
            return None;
        }
        if !self.verify_header(msg, fresh) {
            return None;
        }
        let validator = match msg.int_at(3) {
            Some(v) => v,
            None => { return None; },
        };
        let height = match msg.int_at(4) {
            Some(v) => v,
            None => { return None; },
        };
        let round = match msg.int_at(5) {
            Some(v) => v,
            None => { return None; },
        };
        let prev_hash = match msg.hash_at(6) {
            Some(h) => h,
            None => { return None; },
        };
        let len = msg.arg_len();
        let mut transactions: Vec<crate::hash::Hash> = Vec::new();
        let mut i: usize = 8;
        while i < len
            invariant
                8 <= i <= len,
                len == msg@.args.len(),
                transactions@.len() == i - 8,
                forall|k: int| 8 <= k < i ==> #[trigger] msg@.args[k] is Hash,
                forall|k: int| 0 <= k < i - 8 ==> #[trigger] transactions@[k]@ == hash_of(msg@.args[8 + k]),
            decreases len - i,
        {
            match msg.hash_at(i) {
                Some(h) => { transactions.push(h); },
                None => { return None; },
            }
            i = i + 1;
        }
        let account = match msg.account_at(1) {
            Some(a) => a,
            None => { return None; },
        };
        let p = Propose {
            validator: ValidatorId(validator as u16),
            height: height as usize,
            round: round as usize,
            prev_hash: prev_hash,
            transactions: transactions,
        };
        assert(hash_views(p.transactions@) =~= Seq::new(
            (msg@.args.len() - 8) as nat, |i: int| hash_of(msg@.args[8 + i])));
        Some((p, account))
    }

    /// Reads a propose from a message that passes the checks of the
    /// protocol (its timestamp less than `MAX_DELAY` seconds old), with the
    /// account of its sender.
    pub fn verify_propose(&self, msg: &SocketMessage) -> (r: Option<(Propose, Address)>)
        ensures
            exists|age: Option<i64>| #![trigger is_fresh(age)]
                age_of_timestamp(msg@.args, age) && (r is Some <==> propose_accepts(self@, msg@.args, is_fresh(age))),
            r is Some ==> propose_accepts(self@, msg@.args, true),
            r matches Some((p, a)) ==> {
                &&& p.validator.0 == int_of(msg@.args[3]) as u16
                &&& p.height == int_of(msg@.args[4]) as usize
                &&& p.round == int_of(msg@.args[5]) as usize
                &&& p.prev_hash@ == hash_of(msg@.args[6])
                &&& hash_views(p.transactions@) == Seq::new(
                    (msg@.args.len() - 8) as nat, |i: int| hash_of(msg@.args[8 + i]))
                &&& a.text@ == account_of(msg@.args[1])
            },
    {
        let age = timestamp_age(msg);
        self.verify_propose_with_age(msg, age)
    }

    /// The checks of [`ConsensusProtocol::verify_prevote`], for a timestamp
    /// found to be `age` seconds old (`None`: missing or not parsed): the prevote and the account
    /// of its sender.
    pub fn verify_prevote_with_age(&self, msg: &SocketMessage, age: Option<i64>) -> (r: Option<(Prevote, Address)>)
        ensures
            r is Some <==> prevote_accepts(self@, msg@.args, is_fresh(age)),
            r matches Some((p, a)) ==> {
                &&& p.validator.0 == int_of(msg@.args[3]) as u16
                &&& p.height == int_of(msg@.args[4]) as usize
                &&& p.round == int_of(msg@.args[5]) as usize
                &&& p.propose_hash@ == hash_of(msg@.args[6])
                &&& p.locked_round == int_of(msg@.args[7]) as usize
                &&& a.text@ == account_of(msg@.args[1])
            },
    {
        let fresh = fresh_age(age);
        if msg.arg_len() < 8 {
            return None;
        }
        if !self.verify_header(msg, fresh) {
            return None;
        }
        match (msg.int_at(3), msg.int_at(4), msg.int_at(5), msg.hash_at(6), msg.int_at(7), msg.account_at(1)) {
            (Some(validator), Some(height), Some(round), Some(propose_hash), Some(locked_round), Some(account)) => {
                Some((Prevote {
                    validator: ValidatorId(validator as u16),
                    height: height as usize,
                    round: round as usize,
                    propose_hash: propose_hash,
                    locked_round: locked_round as usize,
                }, account))
            },
            _ => None,
        }
    }

    /// Reads a prevote from a message that passes the checks of the
    /// protocol (its timestamp less than `MAX_DELAY` seconds old), with the
    /// account of its sender.
    pub fn verify_prevote(&self, msg: &SocketMessage) -> (r: Option<(Prevote, Address)>)
        ensures
            exists|age: Option<i64>| #![trigger is_fresh(age)]
                age_of_timestamp(msg@.args, age) && (r is Some <==> prevote_accepts(self@, msg@.args, is_fresh(age))),
            r is Some ==> prevote_accepts(self@, msg@.args, true),
            r matches Some((p, a)) ==> {
                &&& p.validator.0 == int_of(msg@.args[3]) as u16
                &&& p.height == int_of(msg@.args[4]) as usize
                &&& p.round == int_of(msg@.args[5]) as usize
                &&& p.propose_hash@ == hash_of(msg@.args[6])
                &&& p.locked_round == int_of(msg@.args[7]) as usize
                &&& a.text@ == account_of(msg@.args[1])
            },
    {
        let age = timestamp_age(msg);
        self.verify_prevote_with_age(msg, age)
    }

    /// The checks of [`ConsensusProtocol::verify_precommit`], for a
    /// timestamp found to be `age` seconds old (`None`: missing or not parsed): the precommit,
    /// timed by the timestamp of the message, and the account of its sender.
    pub fn verify_precommit_with_age(&self, msg: &SocketMessage, age: Option<i64>) -> (r: Option<(Precommit, Address)>)
        ensures
            r is Some <==> precommit_accepts(self@, msg@.args, is_fresh(age)),
            r matches Some((p, a)) ==> {
                &&& p.validator.0 == int_of(msg@.args[3]) as u16
                &&& p.height == int_of(msg@.args[4]) as usize
                &&& p.round == int_of(msg@.args[5]) as usize
                &&& p.propose_hash@ == hash_of(msg@.args[6])
                &&& p.block_hash@ == hash_of(msg@.args[7])
                &&& p.time@ == timestamp_of(msg@.args[2])
                &&& a.text@ == account_of(msg@.args[1])
            },
    {
        let fresh = fresh_age(age);
        if msg.arg_len() < 8 {
            return None;
        }
        if !self.verify_header(msg, fresh) {
            return None;
        }
        match (msg.int_at(3), msg.int_at(4), msg.int_at(5), msg.hash_at(6), msg.hash_at(7)) {
            (Some(validator), Some(height), Some(round), Some(propose_hash), Some(block_hash)) => {
                match (msg.timestamp_text_at(2), msg.account_at(1)) {
                    (Some(time), Some(account)) => Some((Precommit {
                        validator: ValidatorId(validator as u16),
                        height: height as usize,
                        round: round as usize,
                        propose_hash: propose_hash,
                        block_hash: block_hash,
                        time: time,
                    }, account)),
                    _ => None,
                }
            },
            _ => None,
        }
    }

    /// Reads a precommit from a message that passes the checks of the
    /// protocol (its timestamp less than `MAX_DELAY` seconds old), with the
    /// account of its sender.
    pub fn verify_precommit(&self, msg: &SocketMessage) -> (r: Option<(Precommit, Address)>)
        ensures
            exists|age: Option<i64>| #![trigger is_fresh(age)]
                age_of_timestamp(msg@.args, age) && (r is Some <==> precommit_accepts(self@, msg@.args, is_fresh(age))),
            r is Some ==> precommit_accepts(self@, msg@.args, true),
            r matches Some((p, a)) ==> {
                &&& p.validator.0 == int_of(msg@.args[3]) as u16
                &&& p.height == int_of(msg@.args[4]) as usize
                &&& p.round == int_of(msg@.args[5]) as usize
                &&& p.propose_hash@ == hash_of(msg@.args[6])
                &&& p.block_hash@ == hash_of(msg@.args[7])
                &&& p.time@ == timestamp_of(msg@.args[2])
                &&& a.text@ == account_of(msg@.args[1])
            },
    {
        let age = timestamp_age(msg);
        self.verify_precommit_with_age(msg, age)
    }

    /// Every argument from `from` on is an integer.
    fn all_ints_from(msg: &SocketMessage, from: usize) -> (r: bool)
        requires
            from <= msg@.args.len(),
        ensures
            r == ints_from(msg@.args, from as int),
    {
        let len = msg.arg_len();
        let mut i: usize = from;
        while i < len
            invariant
                from <= i <= len,
                len == msg@.args.len(),
                forall|k: int| from <= k < i ==> #[trigger] msg@.args[k] is Int,
            decreases len - i,
        {
            if msg.int_at(i).is_none() {
                return false;
            }
            i = i + 1;
        }
        true
    }

    /// The checks of [`ConsensusProtocol::verify`], for a timestamp whose
    /// found to be `age` seconds old (`None`: missing or not parsed).
    pub fn verify_with_age(&self, msg: &SocketMessage, age: Option<i64>) -> (r: bool)
        ensures
            r == consensus_accepts(self@, msg@, is_fresh(age)),
    {
        let fresh = fresh_age(age);
        let event = msg.event();
        let len = msg.arg_len();
        if event == String::from_str("NOTIFY_PROPOSE") {
            if len < 7 {
                return false;
            }
            self.verify_header(msg, fresh) && msg.hash_at(3).is_some() && Self::all_ints_from(msg, 4)
        } else if event == String::from_str("NOTIFY_PREVOTE") {
            if len < 8 {
                return false;
            }
            self.verify_header(msg, fresh) && msg.hash_at(3).is_some() && Self::all_ints_from(msg, 4)
        } else if event == String::from_str("NOTIFY_PRECOMMIT") {
            if len < 7 {
                return false;
            }
            self.verify_header(msg, fresh) && msg.hash_at(3).is_some() && msg.hash_at(4).is_some()
                && Self::all_ints_from(msg, 5)
        } else {
            true
        }
    }

    /// Checks a received message: a notification of a propose, a prevote or
    /// a precommit has the arguments that its kind calls for, speaks this
    /// version, comes from a 32-byte account and has a timestamp less than
    /// `MAX_DELAY` seconds old; any other message passes, whatever the
    /// clock says.
    pub fn verify(&self, msg: &SocketMessage) -> (r: bool)
        ensures
            exists|age: Option<i64>| #![trigger is_fresh(age)]
                age_of_timestamp(msg@.args, age) && (r == consensus_accepts(self@, msg@, is_fresh(age))),
            r ==> consensus_accepts(self@, msg@, true),
            consensus_accepts(self@, msg@, false) ==> r,
    {
        let age = timestamp_age(msg);
        self.verify_with_age(msg, age)
    }

    /// The arguments of the digests, in order.
    fn hash_args(hs: &Vec<crate::hash::Hash>) -> (r: Vec<SocketMessageArg>)
        ensures
            r@.len() == hs@.len(),
            forall|i: int| 0 <= i < hs@.len() ==> #[trigger] r@[i]@ == ArgView::Hash(hs@[i]@),
    {
        let mut out: Vec<SocketMessageArg> = Vec::new();
        let mut i: usize = 0;
        while i < hs.len()
            invariant
                i <= hs@.len(),
                out@.len() == i,
                forall|k: int| 0 <= k < i ==> #[trigger] out@[k]@ == ArgView::Hash(hs@[k]@),
            decreases hs@.len() - i,
        {
            out.push(SocketMessageArg::Hash { value: hs[i].clone() });
            i = i + 1;
        }
        out
    }

    /// Notifies the peers of a propose, sent from `account`.
    pub fn notify_propose(&self, account: &Address, propose: &Propose) -> (r: SocketMessage)
        ensures
            consensus_message(r@, "NOTIFY_PROPOSE"@, self@, account.text@, propose_args(*propose)),
    {
        let mut extra: Vec<SocketMessageArg> = Vec::new();
        extra.push(SocketMessageArg::Int { value: propose.validator.0 as i64 });
        extra.push(SocketMessageArg::Int { value: propose.height as i64 });
        extra.push(SocketMessageArg::Int { value: propose.round as i64 });
        extra.push(SocketMessageArg::Hash { value: propose.prev_hash.clone() });
        let txs = Self::hash_args(&propose.transactions);
        let ghost head = extra@;
        let mut i: usize = 0;
        while i < txs.len()
            invariant
                i <= txs@.len(),
                txs@.len() == propose.transactions@.len(),
                extra@.len() == 4 + i,
                forall|k: int| 0 <= k < 4 ==> #[trigger] extra@[k]@ == head[k]@,
                forall|k: int| 0 <= k < i ==> #[trigger] extra@[4 + k]@ == txs@[k]@,
            decreases txs@.len() - i,
        {
            extra.push(txs[i].clone());
            i = i + 1;
        }
        let r = message_with_header("NOTIFY_PROPOSE", &self.vesion, account, extra);
        proof {
            let rest = r@.args.subrange(3, r@.args.len() as int);
            assert forall|k: int| 0 <= k < rest.len() implies #[trigger] rest[k] == propose_args(*propose)[k] by {
                assert(rest[k] == extra@[k]@);
                if k >= 4 {
                    assert(extra@[4 + (k - 4)]@ == txs@[k - 4]@);
                }
            }
            assert(rest =~= propose_args(*propose));
        }
        r
    }

    /// Notifies the peers of a prevote, sent from `account`.
    pub fn notify_prevote(&self, account: &Address, prevote: &Prevote) -> (r: SocketMessage)
        ensures
            consensus_message(r@, "NOTIFY_PROPOSE"@, self@, account.text@, prevote_args(*prevote)),
    {
        let mut extra: Vec<SocketMessageArg> = Vec::new();
        extra.push(SocketMessageArg::Int { value: prevote.validator.0 as i64 });
        extra.push(SocketMessageArg::Int { value: prevote.height as i64 });
        extra.push(SocketMessageArg::Int { value: prevote.round as i64 });
        extra.push(SocketMessageArg::Hash { value: prevote.propose_hash.clone() });
        extra.push(SocketMessageArg::Int { value: prevote.locked_round as i64 });
        let r = message_with_header("NOTIFY_PROPOSE", &self.vesion, account, extra);
        assert(r@.args.subrange(3, r@.args.len() as int) =~= prevote_args(*prevote));
        r
    }

    /// Notifies the peers of a precommit, sent from `account`.
    pub fn notify_precommit(&self, account: &Address, precommit: &Precommit) -> (r: SocketMessage)
        ensures
            consensus_message(r@, "NOTIFY_PROPOSE"@, self@, account.text@, precommit_args(*precommit)),
    {
        let mut extra: Vec<SocketMessageArg> = Vec::new();
        extra.push(SocketMessageArg::Int { value: precommit.validator.0 as i64 });
        extra.push(SocketMessageArg::Int { value: precommit.height as i64 });
        extra.push(SocketMessageArg::Int { value: precommit.round as i64 });
        extra.push(SocketMessageArg::Hash { value: precommit.propose_hash.clone() });
        extra.push(SocketMessageArg::Hash { value: precommit.block_hash.clone() });
        let r = message_with_header("NOTIFY_PROPOSE", &self.vesion, account, extra);
        assert(r@.args.subrange(3, r@.args.len() as int) =~= precommit_args(*precommit));
        r
    }

    /// The message that asks the peers for the data of a request.
    pub fn request(&self, req: RequestData) -> (r: SocketMessage)
        ensures
            r@ == request_message(req),
    {
        let mut msg = SocketMessage::new(String::from_str("REQUEST_"), Vec::new(), Vec::new());
        assert(msg@.args =~= Seq::<ArgView>::empty());
        match req {
            RequestData::Propose(hash) => {
                msg.set_event(String::from_str("REQUEST_PROPOSE"));
                msg = msg << SocketMessageArg::Hash { value: hash };
                assert(msg@.args =~= seq![ArgView::Hash(hash@)]);
                msg
            },
            RequestData::ProposeTransactions(hash) => {
                msg.set_event(String::from_str("REQUEST_PROPOSE_TNXS"));
                msg = msg << SocketMessageArg::Hash { value: hash };
                assert(msg@.args =~= seq![ArgView::Hash(hash@)]);
                msg
            },
            RequestData::BlockTransactions => {
                msg.set_event(String::from_str("REQUEST_BLOCK_TNXS"));
                msg
            },
            RequestData::Prevotes(round, hash) => {
                msg.set_event(String::from_str("REQUEST_PREVOTE"));
                let ghost h = hash@;
                msg = msg << SocketMessageArg::Int { value: round as i64 } << SocketMessageArg::Hash { value: hash };
                assert(msg@.args =~= seq![ArgView::Int(round as i64), ArgView::Hash(h)]);
                msg
            },
            RequestData::Block(height) => {
                msg.set_event(String::from_str("REQUEST_BLOCK"));
                msg = msg << SocketMessageArg::Int { value: height as i64 };
                assert(msg@.args =~= seq![ArgView::Int(height as i64)]);
                msg
            },
        }
    }
}

/// A prevote that [`ConsensusProtocol::notify_prevote`] sends from an
/// account of 32 bytes is accepted by
/// [`ConsensusProtocol::verify_prevote_with_age`] of the same version
/// while its timestamp is fresh, and reads back as the same prevote from the
/// same account, for heights and rounds that fit in an `i64`.
pub proof fn law_prevote_round_trip(m: MessageView, version: Seq<char>, account: Seq<char>, p: Prevote)
    requires
        consensus_message(m, "NOTIFY_PROPOSE"@, version, account, prevote_args(p)),
        vstd::utf8::encode_utf8(account).len() == 32,
        p.height <= i64::MAX,
        p.round <= i64::MAX,
        p.locked_round <= i64::MAX,
    ensures
        prevote_accepts(version, m.args, true),
        int_of(m.args[3]) as u16 == p.validator.0,
        int_of(m.args[4]) as usize == p.height,
        int_of(m.args[5]) as usize == p.round,
        hash_of(m.args[6]) == p.propose_hash@,
        int_of(m.args[7]) as usize == p.locked_round,
        account_of(m.args[1]) == account,
{
    let rest = m.args.subrange(3, m.args.len() as int);
    assert(m.args[3] == rest[0]);
    assert(m.args[4] == rest[1]);
    assert(m.args[5] == rest[2]);
    assert(m.args[6] == rest[3]);
    assert(m.args[7] == rest[4]);
}

/// A precommit that [`ConsensusProtocol::notify_precommit`] sends from an
/// account of 32 bytes is accepted by
/// [`ConsensusProtocol::verify_precommit_with_age`] of the same
/// version while its timestamp is fresh, and reads back as the same
/// precommit from the same account, timed by the timestamp of the message,
/// for heights and rounds that fit in an `i64`.
pub proof fn law_precommit_round_trip(m: MessageView, version: Seq<char>, account: Seq<char>, p: Precommit)
    requires
        consensus_message(m, "NOTIFY_PROPOSE"@, version, account, precommit_args(p)),
        vstd::utf8::encode_utf8(account).len() == 32,
        p.height <= i64::MAX,
        p.round <= i64::MAX,
    ensures
        precommit_accepts(version, m.args, true),
        int_of(m.args[3]) as u16 == p.validator.0,
        int_of(m.args[4]) as usize == p.height,
        int_of(m.args[5]) as usize == p.round,
        hash_of(m.args[6]) == p.propose_hash@,
        hash_of(m.args[7]) == p.block_hash@,
        account_of(m.args[1]) == account,
{
    let rest = m.args.subrange(3, m.args.len() as int);
    assert(m.args[3] == rest[0]);
    assert(m.args[4] == rest[1]);
    assert(m.args[5] == rest[2]);
    assert(m.args[6] == rest[3]);
    assert(m.args[7] == rest[4]);
}

/// A propose that [`ConsensusProtocol::notify_propose`] sends from an
/// account of 32 bytes, with at least one transaction, is accepted by
/// [`ConsensusProtocol::verify_propose_with_age`] of the same version
/// while its timestamp is fresh; it reads back with the same validator,
/// height, round and previous hash, and with the transactions after the
/// first, since the reader starts the transactions one argument after the
/// previous hash.
pub proof fn law_propose_read_back(m: MessageView, version: Seq<char>, account: Seq<char>, p: Propose)
    requires
        consensus_message(m, "NOTIFY_PROPOSE"@, version, account, propose_args(p)),
        vstd::utf8::encode_utf8(account).len() == 32,
        p.height <= i64::MAX,
        p.round <= i64::MAX,
        p.transactions@.len() >= 1,
    ensures
        propose_accepts(version, m.args, true),
        int_of(m.args[3]) as u16 == p.validator.0,
        int_of(m.args[4]) as usize == p.height,
        int_of(m.args[5]) as usize == p.round,
        hash_of(m.args[6]) == p.prev_hash@,
        Seq::new((m.args.len() - 8) as nat, |i: int| hash_of(m.args[8 + i]))
            == hash_views(p.transactions@).skip(1),
        account_of(m.args[1]) == account,
{
    let rest = m.args.subrange(3, m.args.len() as int);
    let txs = p.transactions@;
    assert(m.args[3] == rest[0]);
    assert(m.args[4] == rest[1]);
    assert(m.args[5] == rest[2]);
    assert(m.args[6] == rest[3]);
    assert forall|k: int| 8 <= k < m.args.len() implies #[trigger] m.args[k] is Hash by {
        assert(m.args[k] == rest[k - 3]);
        assert(rest[k - 3] == propose_args(p)[k - 3]);
    }
    let read = Seq::new((m.args.len() - 8) as nat, |i: int| hash_of(m.args[8 + i]));
    assert forall|i: int| 0 <= i < read.len() implies #[trigger] read[i] == hash_views(txs).skip(1)[i] by {
        assert(m.args[8 + i] == rest[5 + i]);
        assert(rest[5 + i] == propose_args(p)[5 + i]);
    }
    assert(read =~= hash_views(txs).skip(1));
}

} // verus!
