//! A session with a peer: the state machine of the peer-to-peer protocol
//! over one connection, and the bookkeeping of a transfer.  The socket
//! itself stays with the caller, which hands the session what it read and
//! performs what the session asks for.
use vstd::prelude::*;
use crate::message::{ArgView, MessageView, SocketMessage};
use crate::protocol::{
    args_are_strings, built_with_header, law_built_messages_pass,
    age_of_timestamp, freshness_of, is_fresh, p2p_accepts, table_view, timestamp_age, timestamp_ok, block_info_view, BlockInfo, BlockInfoView, PEER_TABLE_LIMIT, P2PProtocol, PeerTable, PROTOCOL_VERSION,
};
use crate::stun::{PeerAddr, SocketInfo};

verus! {

/// The credit a peer loses for each command it sends that is refused.
pub const CMD_ERR_PENALTY: u32 = 100;

/// The credit a peer loses for a failed transfer.
pub const DATA_TRANS_ERR_PENALTY: u32 = 200;

#[derive(Clone, Copy, Debug, PartialEq, Eq, Structural)]
pub enum TaskType {
    Block,
    Transaction,
    Account,
    Nothing,
}

/// The current transmission task: the data sent to and received from the
/// peer, and, in the transmission mode, the total size expected.
#[derive(Clone, Copy, Debug, PartialEq, Eq, Structural)]
pub struct TaskContext {
    pub data_send: usize,
    pub data_recv: usize,
    pub size_expected: usize,
    pub task_type: TaskType,
}

impl TaskContext {
    /// A task context that expects `expected` bytes.
    pub fn new(expected: usize, task_type: TaskType) -> (r: Self)
        ensures
            r == (TaskContext { data_send: 0, data_recv: 0, size_expected: expected, task_type }),
    {
        TaskContext { data_send: 0, data_recv: 0, size_expected: expected, task_type: task_type }
    }

    /// Resets the current context with the expected size: no data sent or
    /// received yet, `expected` bytes to come, the same kind of task.
    pub fn reset(&mut self, expected: usize)
        ensures
            *final(self) == (TaskContext {
                data_send: 0,
                data_recv: 0,
                size_expected: expected,
                task_type: old(self).task_type,
            }),
    {
        self.data_send = 0;
        self.data_recv = 0;
        self.size_expected = expected;
    }
}

/// The status of a session.
#[derive(Clone, Copy, Debug, PartialEq, Eq, Structural)]
pub enum SessionStatus {
    Init,
    Idle,
    Transmission,
    ConnectionReject,
    Abort,

    // client reserved
    WaitGosship,
    WaitBlockInfo,
    WaitSyncInfo,
    WaitTransmission,

    // server reserved
    WaitBlockInfoRequest,
    WaitTransmissionRequest,
    WaitSyncInfoRequest,
    WaitTransmissionAccept,
}

/// What a session accepts: binary data in the transmission mode, control
/// messages in the command mode.
#[derive(Clone, Copy, Debug, PartialEq, Eq, Structural)]
pub enum SessionMode {
    Transmission,
    Command,
}

/// What the caller does with the socket of a session.
#[derive(Clone, Copy, Debug, PartialEq, Eq, Structural)]
pub enum ProcessStep {
    /// The connection was aborted: nothing is read.
    Aborted,
    /// Read the messages that arrived.
    ReadEvents,
    /// Read up to this many bytes of the transfer.
    ReadData(usize),
}

/// Something the session asks the caller to do after a message.
#[derive(Debug)]
pub enum SessionAction {
    /// Replace the table of the session by the hosts, each read as a socket
    /// address, in [`PeerTable::new_with_hosts`].
    ReplaceTable { hosts: Vec<String> },
    /// Tell the controller to gossip to the peer of this token.
    NotifyGossip { token: u16 },
}

/// The value of a [`SessionAction`].
pub enum ActionView {
    ReplaceTable(Seq<Seq<char>>),
    NotifyGossip(u16),
}

impl View for SessionAction {
    type V = ActionView;

    open spec fn view(&self) -> ActionView {
        match self {
            SessionAction::ReplaceTable { hosts } => ActionView::ReplaceTable(
                Seq::new(hosts@.len(), |i: int| hosts@[i]@),
            ),
            SessionAction::NotifyGossip { token } => ActionView::NotifyGossip(*token),
        }
    }
}

/// The views of the actions, in order.
pub open spec fn action_views(acts: Seq<SessionAction>) -> Seq<ActionView> {
    Seq::new(acts.len(), |i: int| acts[i]@)
}

/// The views of the messages, in order.
pub open spec fn message_views(msgs: Seq<SocketMessage>) -> Seq<MessageView> {
    Seq::new(msgs.len(), |i: int| msgs[i]@)
}

/// The text of a string argument (meaningful when it is one).
pub open spec fn str_of(a: ArgView) -> Seq<char> {
    match a {
        ArgView::Str(s) => s,
        _ => Seq::empty(),
    }
}

/// The hosts that a bootstrap or gossip message carries: its string
/// arguments after the header.
pub open spec fn event_hosts(args: Seq<ArgView>) -> Seq<Seq<char>> {
    Seq::new((args.len() - 3) as nat, |i: int| str_of(args[3 + i]))
}

/// What one message does to a session in `status`, for the protocol of
/// `version` and a timestamp whose freshness is `fresh`: the new status,
/// whether the message was accepted, and the actions it asks for.
pub open spec fn session_event(version: Seq<char>, status: SessionStatus, token: Option<usize>, m: MessageView, fresh: bool) -> (SessionStatus, bool, Seq<ActionView>) {
    let ok = p2p_accepts(version, m, fresh);
    if m.event == "BOOTSTRAP"@ {
        if ok && status == SessionStatus::Init {
            (SessionStatus::WaitGosship, true, match token {
                Some(t) => seq![ActionView::ReplaceTable(event_hosts(m.args)), ActionView::NotifyGossip(t as u16)],
                None => seq![ActionView::ReplaceTable(event_hosts(m.args))],
            })
        } else {
            (status, false, Seq::empty())
        }
    } else if m.event == "GOSSIP"@ {
        if ok {
            (SessionStatus::WaitBlockInfoRequest, true, seq![ActionView::ReplaceTable(event_hosts(m.args))])
        } else {
            (status, false, Seq::empty())
        }
    } else if m.event == "REJECT"@ {
        if ok && (status == SessionStatus::Init || status == SessionStatus::WaitBlockInfoRequest) {
            (SessionStatus::ConnectionReject, true, Seq::empty())
        } else {
            (status, false, Seq::empty())
        }
    } else {
        (status, false, Seq::empty())
    }
}

/// What a run of messages does to a session in `status`, each with the
/// freshness of its timestamp: the final status, the number of messages
/// refused, and the actions, in order.
pub open spec fn session_events(version: Seq<char>, status: SessionStatus, token: Option<usize>, msgs: Seq<MessageView>, fresh: Seq<bool>) -> (SessionStatus, nat, Seq<ActionView>)
    decreases msgs.len(),
{
    if msgs.len() == 0 {
        (status, 0, Seq::empty())
    } else {
        let (s, refused, acts) = session_events(version, status, token, msgs.drop_last(), fresh.drop_last());
        let (s2, ok, more) = session_event(version, s, token, msgs.last(), fresh[msgs.len() - 1]);
        (s2, if ok { refused } else { refused + 1 }, acts + more)
    }
}

/// The value of a [`Session`].
pub struct SessionView {
    pub token: Option<usize>,
    pub status: SessionStatus,
    pub addr: PeerAddr,
    pub created: i64,
    pub updated: i64,
    pub context: TaskContext,
    pub connected: bool,
    pub mode: SessionMode,
    pub version: Seq<char>,
    pub table: Seq<(Option<Seq<char>>, SocketInfo)>,
    pub table_limit: usize,
    pub block_info: Option<BlockInfoView>,
}

/// A session just opened with the peer at `addr` at `now_ms`: in the
/// `Init` status and the command mode, not connected, with no task, no
/// table and nothing known of the chain of the peer.
pub open spec fn new_session_view(addr: PeerAddr, now_ms: i64) -> SessionView {
    SessionView {
        token: None,
        status: SessionStatus::Init,
        addr,
        created: now_ms,
        updated: now_ms,
        context: TaskContext { data_send: 0, data_recv: 0, size_expected: 0, task_type: TaskType::Nothing },
        connected: false,
        mode: SessionMode::Command,
        version: PROTOCOL_VERSION@,
        table: Seq::empty(),
        table_limit: PEER_TABLE_LIMIT,
        block_info: None,
    }
}

/// The protocol state machine of a connection with a peer.  Times are
/// milliseconds since the epoch, read from the clock by the caller.
#[derive(Debug)]
pub struct Session {
    token: Option<usize>,
    status: SessionStatus,
    addr: PeerAddr,
    created: i64,
    updated: i64,
    context: TaskContext,
    connected: bool,
    mode: SessionMode,
    protocol: P2PProtocol,
    table: PeerTable,
    block_info: Option<BlockInfo>,
}

impl View for Session {
    type V = SessionView;

    closed spec fn view(&self) -> SessionView {
        SessionView {
            token: self.token,
            status: self.status,
            addr: self.addr,
            created: self.created,
            updated: self.updated,
            context: self.context,
            connected: self.connected,
            mode: self.mode,
            version: self.protocol@,
            table: table_view(self.table.table@),
            table_limit: self.table.limit,
            block_info: match self.block_info {
                Some(b) => Some(block_info_view(b)),
                None => None,
            },
        }
    }
}

impl Session {
    /// A new session with the peer at `addr`, opened at `now_ms`: in the
    /// `Init` status and the command mode, not connected yet.
    pub fn new(addr: PeerAddr, now_ms: i64) -> (r: Self)
        ensures
            r@ == new_session_view(addr, now_ms),
    {
        let r = Session {
            token: None,
            status: SessionStatus::Init,
            addr: addr,
            created: now_ms,
            updated: now_ms,
            context: TaskContext::new(0, TaskType::Nothing),
            connected: false,
            mode: SessionMode::Command,
            protocol: P2PProtocol::new(),
            table: PeerTable::new(),
            block_info: None,
        };
        assert(table_view(r.table.table@) =~= Seq::empty());
        r
    }

    /// Aborts the session.
    pub fn disconnect(&mut self)
        ensures
            final(self)@ == (SessionView { status: SessionStatus::Abort, ..old(self)@ }),
    {
        self.status = SessionStatus::Abort;
    }

    pub fn status(&self) -> (r: SessionStatus)
        ensures
            r == self@.status,
    {
        self.status
    }

    pub fn set_status(&mut self, status: SessionStatus)
        ensures
            final(self)@ == (SessionView { status, ..old(self)@ }),
    {
        self.status = status;
    }

    /// A copy of what the session knows of the chain of the peer.
    pub fn block_info(&self) -> (r: Option<BlockInfo>)
        ensures
            r matches Some(b) ==> self@.block_info == Some(block_info_view(b)),
            r is None ==> self@.block_info is None,
    {
        match &self.block_info {
            Some(b) => Some(b.clone()),
            None => None,
        }
    }

    /// A copy of the peers that the peer told of.
    pub fn table(&self) -> (r: PeerTable)
        ensures
            table_view(r.table@) == self@.table,
            r.limit == self@.table_limit,
    {
        self.table.clone()
    }

    /// Replaces the peers that the peer told of.
    pub fn set_table(&mut self, table: PeerTable)
        ensures
            final(self)@ == (SessionView { table: table_view(table.table@), table_limit: table.limit, ..old(self)@ }),
    {
        self.table = table;
    }

    /// When the session last received something, in milliseconds.
    pub fn updated(&self) -> (r: i64)
        ensures
            r == self@.updated,
    {
        self.updated
    }

    /// When the session was opened, in milliseconds.
    pub fn created(&self) -> (r: i64)
        ensures
            r == self@.created,
    {
        self.created
    }

    pub fn connected(&self) -> (r: bool)
        ensures
            r == self@.connected,
    {
        self.connected
    }

    /// The milliseconds from the last message or data received to `now_ms`.
    pub fn milliseconds_from_last_update(&self, now_ms: i64) -> (r: i64)
        requires
            i64::MIN <= now_ms - self@.updated <= i64::MAX,
        ensures
            r == now_ms - self@.updated,
    {
        now_ms - self.updated
    }

    /// The milliseconds that the session has been connecting for at
    /// `now_ms`: from its opening while it is not connected, else zero.
    pub fn milliseconds_connecting(&self, now_ms: i64) -> (r: i64)
        requires
            !self@.connected ==> i64::MIN <= now_ms - self@.created <= i64::MAX,
        ensures
            r == if self@.connected { 0 } else { now_ms - self@.created },
    {
        if !self.connected {
            now_ms - self.created
        } else {
            0
        }
    }

    pub fn set_token(&mut self, token: usize)
        ensures
            final(self)@ == (SessionView { token: Some(token), ..old(self)@ }),
    {
        self.token = Some(token);
    }

    /// Marks the session as connected; the argument is not read.
    pub fn set_connect(&mut self, connected: bool)
        ensures
            final(self)@ == (SessionView { connected: true, ..old(self)@ }),
    {
        self.connected = true;
    }

    /// Switches the mode of the session.
    pub fn toggle_mode(&mut self, mode: SessionMode)
        ensures
            final(self)@ == (SessionView { mode, ..old(self)@ }),
    {
        self.mode = mode;
    }

    /// Counts `size` bytes sent to the peer.
    pub fn data_sent(&mut self, size: usize)
        requires
            old(self)@.context.data_send + size <= usize::MAX,
        ensures
            final(self)@ == (SessionView {
                context: TaskContext { data_send: (old(self)@.context.data_send + size) as usize, ..old(self)@.context },
                ..old(self)@
            }),
    {
        self.context.data_send = self.context.data_send + size;
    }

    /// What to do with the socket: nothing once the session is aborted,
    /// else read messages in the command mode and the rest of the transfer
    /// in the transmission mode.
    pub fn process_step(&self) -> (r: ProcessStep)
        requires
            self@.mode == SessionMode::Transmission && self@.status != SessionStatus::Abort
                ==> self@.context.data_recv <= self@.context.size_expected,
        ensures
            r == if self@.status == SessionStatus::Abort {
                ProcessStep::Aborted
            } else if self@.mode == SessionMode::Command {
                ProcessStep::ReadEvents
            } else {
                ProcessStep::ReadData((self@.context.size_expected - self@.context.data_recv) as usize)
            },
    {
        match self.status {
            SessionStatus::Abort => ProcessStep::Aborted,
            _ => match self.mode {
                SessionMode::Command => ProcessStep::ReadEvents,
                SessionMode::Transmission => ProcessStep::ReadData(self.context.size_expected - self.context.data_recv),
            },
        }
    }

    /// Counts `len` bytes of the transfer received at `now_ms`.  A transfer
    /// is stored once it is complete, which is not done here: the bytes
    /// must leave the transfer incomplete.
    pub fn data_received(&mut self, len: usize, now_ms: i64)
        requires
            old(self)@.context.data_recv + len < old(self)@.context.size_expected,
        ensures
            final(self)@ == (SessionView {
                updated: now_ms,
                context: TaskContext { data_recv: (old(self)@.context.data_recv + len) as usize, ..old(self)@.context },
                ..old(self)@
            }),
    {
        self.updated = now_ms;
        self.context.data_recv = self.context.data_recv + len;
    }

    /// The hosts of an accepted bootstrap or gossip message.
    fn hosts_of(msg: &SocketMessage) -> (r: Vec<String>)
        requires
            msg@.args.len() >= 3,
            forall|i: int| 3 <= i < msg@.args.len() ==> #[trigger] msg@.args[i] is Str,
        ensures
            Seq::new(r@.len(), |i: int| r@[i]@) == event_hosts(msg@.args),
    {
        let len = msg.arg_len();
        let mut hosts: Vec<String> = Vec::new();
        let mut i: usize = 3;
        while i < len
            invariant
                3 <= i <= len,
                len == msg@.args.len(),
                hosts@.len() == i - 3,
                forall|k: int| 3 <= k < len ==> #[trigger] msg@.args[k] is Str,
                forall|k: int| 0 <= k < i - 3 ==> #[trigger] hosts@[k]@ == str_of(msg@.args[3 + k]),
            decreases len - i,
        {
            match msg.string_at(i) {
                Some(h) => { hosts.push(h); },
                None => {},
            }
            i = i + 1;
        }
        assert(Seq::new(hosts@.len(), |i: int| hosts@[i]@) =~= event_hosts(msg@.args));
        hosts
    }

    /// Handles one message whose timestamp was found to be `age` seconds old
    /// (fresh when less than `MAX_DELAY`; `None`: missing or not parsed): a
    /// bootstrap in the `Init` status, a gossip, or a rejection
    /// in the `Init` or `WaitBlockInfoRequest` status, that passes the
    /// checks of the protocol, moves the session on and is accepted; any
    /// other message is refused and changes nothing.  The actions asked for
    /// are appended to `actions`.
    pub fn process_event_with_age(&mut self, msg: &SocketMessage, age: Option<i64>, actions: &mut Vec<SessionAction>) -> (r: bool)
        ensures
            ({
                let (s, ok, acts) = session_event(old(self)@.version, old(self)@.status, old(self)@.token, msg@, is_fresh(age));
                &&& final(self)@ == (SessionView { status: s, ..old(self)@ })
                &&& r == ok
                &&& action_views(final(actions)@) == action_views(old(actions)@) + acts
            }),
    {
        let ghost acts0 = actions@;
        let event = msg.event();
        let ok = self.protocol.verify_with_age(msg, age);
        if event == String::from_str("BOOTSTRAP") {
            if ok && self.status == SessionStatus::Init {
                let hosts = Self::hosts_of(msg);
                let ghost hv = Seq::new(hosts@.len(), |i: int| hosts@[i]@);
                actions.push(SessionAction::ReplaceTable { hosts: hosts });
                self.status = SessionStatus::WaitGosship;
                match self.token {
                    Some(t) => {
                        actions.push(SessionAction::NotifyGossip { token: t as u16 });
                        assert(action_views(actions@) =~= action_views(acts0) + seq![
                            ActionView::ReplaceTable(hv), ActionView::NotifyGossip(t as u16)]);
                    },
                    None => {
                        assert(action_views(actions@) =~= action_views(acts0) + seq![ActionView::ReplaceTable(hv)]);
                    },
                }
                true
            } else {
                assert(action_views(actions@) =~= action_views(acts0) + Seq::empty());
                false
            }
        } else if event == String::from_str("GOSSIP") {
            if ok {
                let hosts = Self::hosts_of(msg);
                let ghost hv = Seq::new(hosts@.len(), |i: int| hosts@[i]@);
                actions.push(SessionAction::ReplaceTable { hosts: hosts });
                self.status = SessionStatus::WaitBlockInfoRequest;
                assert(action_views(actions@) =~= action_views(acts0) + seq![ActionView::ReplaceTable(hv)]);
                true
            } else {
                assert(action_views(actions@) =~= action_views(acts0) + Seq::empty());
                false
            }
        } else if event == String::from_str("REJECT") {
            assert(action_views(actions@) =~= action_views(acts0) + Seq::empty());
            if ok && (self.status == SessionStatus::Init || self.status == SessionStatus::WaitBlockInfoRequest) {
                self.status = SessionStatus::ConnectionReject;
                true
            } else {
                false
            }
        } else {
            assert(action_views(actions@) =~= action_views(acts0) + Seq::empty());
            false
        }
    }

    /// Handles one message, its timestamp read against the clock: as
    /// [`Session::process_event_with_age`] for the age that the clock gives,
    /// which is known exactly where the timestamp parses.
    pub fn process_single_event(&mut self, msg: &SocketMessage, actions: &mut Vec<SessionAction>) -> (r: bool)
        ensures
            exists|age: Option<i64>| #![trigger is_fresh(age)] {
                let (s, ok, acts) = session_event(old(self)@.version, old(self)@.status, old(self)@.token, msg@, is_fresh(age));
                &&& age_of_timestamp(msg@.args, age)
                &&& final(self)@ == (SessionView { status: s, ..old(self)@ })
                &&& r == ok
                &&& action_views(final(actions)@) == action_views(old(actions)@) + acts
            },
    {
        let age = timestamp_age(msg);
        self.process_event_with_age(msg, age, actions)
    }

    /// Handles the messages received at `now_ms`, each with the age of its
    /// timestamp in `ages`: the session is updated at `now_ms` and
    /// moved on by each message in turn; the actions asked for are returned
    /// in order, with the penalty of `CMD_ERR_PENALTY` for each message
    /// refused.
    pub fn process_events_with_ages(&mut self, msgs: &Vec<SocketMessage>, ages: &Vec<Option<i64>>, now_ms: i64) -> (r: (u32, Vec<SessionAction>))
        requires
            ages@.len() == msgs@.len(),
            msgs@.len() * CMD_ERR_PENALTY <= u32::MAX,
        ensures
            ({
                let (s, refused, acts) = session_events(
                    old(self)@.version, old(self)@.status, old(self)@.token, message_views(msgs@), freshness_of(ages@));
                &&& final(self)@ == (SessionView { status: s, updated: now_ms, ..old(self)@ })
                &&& r.0 == refused * CMD_ERR_PENALTY
                &&& action_views(r.1@) == acts
            }),
    {
        let ghost fresh = freshness_of(ages@);
        self.updated = now_ms;
        let mut actions: Vec<SessionAction> = Vec::new();
        let mut err_count: usize = 0;
        let mut i: usize = 0;
        let ghost start = self@;
        while i < msgs.len()
            invariant
                i <= msgs@.len(),
                ages@.len() == msgs@.len(),
                fresh == freshness_of(ages@),
                msgs@.len() * CMD_ERR_PENALTY <= u32::MAX,
                err_count <= i,
                ({
                    let (s, refused, acts) = session_events(
                        start.version, start.status, start.token,
                        message_views(msgs@).take(i as int), fresh.take(i as int));
                    &&& self@ == (SessionView { status: s, ..start })
                    &&& err_count == refused
                    &&& action_views(actions@) == acts
                }),
            decreases msgs@.len() - i,
        {
            proof {
                assert(message_views(msgs@).take(i + 1).drop_last() =~= message_views(msgs@).take(i as int));
                assert(fresh.take(i + 1).drop_last() =~= fresh.take(i as int));
                assert(fresh.take(i + 1).last() == is_fresh(ages@[i as int]));
                assert(message_views(msgs@).take(i + 1).last() == msgs@[i as int]@);
            }
            let ok = self.process_event_with_age(&msgs[i], ages[i], &mut actions);
            if !ok {
                err_count = err_count + 1;
            }
            i = i + 1;
        }
        proof {
            assert(message_views(msgs@).take(msgs@.len() as int) =~= message_views(msgs@));
            assert(fresh.take(msgs@.len() as int) =~= fresh);
        }
        let penalty = (err_count as u32) * CMD_ERR_PENALTY;
        (penalty, actions)
    }

    /// Handles the messages received at `now_ms`, their timestamps read
    /// against the clock: as [`Session::process_events_with_ages`] for the
    /// ages that the clock gives, known exactly where a timestamp parses.
    pub fn process_events(&mut self, msgs: &Vec<SocketMessage>, now_ms: i64) -> (r: (u32, Vec<SessionAction>))
        requires
            msgs@.len() * CMD_ERR_PENALTY <= u32::MAX,
        ensures
            exists|ages: Seq<Option<i64>>| #![trigger freshness_of(ages)] {
                let (s, refused, acts) = session_events(
                    old(self)@.version, old(self)@.status, old(self)@.token, message_views(msgs@), freshness_of(ages));
                &&& ages.len() == msgs@.len()
                &&& (forall|i: int| 0 <= i < ages.len() ==> age_of_timestamp(msgs@[i]@.args, #[trigger] ages[i]))
                &&& final(self)@ == (SessionView { status: s, updated: now_ms, ..old(self)@ })
                &&& r.0 == refused * CMD_ERR_PENALTY
                &&& action_views(r.1@) == acts
            },
    {
        let mut ages: Vec<Option<i64>> = Vec::new();
        let mut i: usize = 0;
        while i < msgs.len()
            invariant
                i <= msgs@.len(),
                ages@.len() == i,
                forall|k: int| 0 <= k < i ==> age_of_timestamp(msgs@[k]@.args, #[trigger] ages@[k]),
            decreases msgs@.len() - i,
        {
            ages.push(timestamp_age(&msgs[i]));
            i = i + 1;
        }
        self.process_events_with_ages(msgs, &ages, now_ms)
    }
}

/// How a session answers the messages that a peer's protocol of the same
/// version builds for an account of 32 bytes, while their timestamp is
/// fresh: a rejection moves a session that is starting (`Init`) or waiting
/// for a block-info request to `ConnectionReject` and is accepted, and is
/// refused in any other status; a bootstrap with hosts is accepted only in
/// `Init`, which it leaves for `WaitGosship`, asking to replace the table
/// of peers by its hosts (and to gossip, with a token); a gossip with hosts
/// is accepted in any status and moves the session to
/// `WaitBlockInfoRequest`, asking to replace the table.  A message whose
/// timestamp is not fresh is refused and changes nothing.
pub proof fn law_session_answers(
    version: Seq<char>,
    account: Seq<char>,
    status: SessionStatus,
    token: Option<usize>,
    m: MessageView,
    hosts: Seq<String>,
    reason: Seq<char>,
)
    requires
        vstd::utf8::encode_utf8(account).len() == 32,
    ensures
        (built_with_header(m, "REJECT"@, version, account) && m.args.len() == 4 && m.args[3] == ArgView::Str(reason))
            ==> session_event(version, status, token, m, true) == (
                if status == SessionStatus::Init || status == SessionStatus::WaitBlockInfoRequest {
                    (SessionStatus::ConnectionReject, true, Seq::<ActionView>::empty())
                } else {
                    (status, false, Seq::<ActionView>::empty())
                }),
        (built_with_header(m, "BOOTSTRAP"@, version, account) && args_are_strings(m.args, 3, hosts) && hosts.len() > 0)
            ==> session_event(version, status, token, m, true) == (
                if status == SessionStatus::Init {
                    (SessionStatus::WaitGosship, true, match token {
                        Some(t) => seq![ActionView::ReplaceTable(Seq::new(hosts.len(), |i: int| hosts[i]@)), ActionView::NotifyGossip(t as u16)],
                        None => seq![ActionView::ReplaceTable(Seq::new(hosts.len(), |i: int| hosts[i]@))],
                    })
                } else {
                    (status, false, Seq::<ActionView>::empty())
                }),
        (built_with_header(m, "GOSSIP"@, version, account) && args_are_strings(m.args, 3, hosts) && hosts.len() > 0)
            ==> session_event(version, status, token, m, true) == (SessionStatus::WaitBlockInfoRequest, true,
                seq![ActionView::ReplaceTable(Seq::new(hosts.len(), |i: int| hosts[i]@))]),
        session_event(version, status, token, m, false) == (status, false, Seq::<ActionView>::empty()),
{
    reveal_strlit("BOOTSTRAP");
    reveal_strlit("GOSSIP");
    reveal_strlit("REJECT");
    assert("GOSSIP"@.len() != "BOOTSTRAP"@.len());
    assert("REJECT"@.len() != "BOOTSTRAP"@.len());
    assert("REJECT"@[0] != "GOSSIP"@[0]);
    law_built_messages_pass(version, account, m, hosts, reason, 0, crate::hash::HashView { data: Seq::empty(), len: 0, note: Seq::empty() });
    if args_are_strings(m.args, 3, hosts) {
        assert(event_hosts(m.args) =~= Seq::new(hosts.len(), |i: int| hosts[i]@)) by {
            assert forall|i: int| 0 <= i < hosts.len() implies event_hosts(m.args)[i] == hosts[i]@ by {
                assert(m.args[3 + i] == ArgView::Str(hosts[i]@));
            }
        }
    }
}

/// A run of messages is handled one message after another: no message
/// leaves the session as it is; one more message moves the session on from
/// where the run left it, counts as refused exactly when it is not
/// accepted, and appends the actions it asks for; no more messages are
/// refused than there are.
pub proof fn law_session_run(
    version: Seq<char>,
    status: SessionStatus,
    token: Option<usize>,
    msgs: Seq<MessageView>,
    fresh: Seq<bool>,
    m: MessageView,
    f: bool,
)
    requires
        fresh.len() == msgs.len(),
    ensures
        session_events(version, status, token, Seq::empty(), Seq::empty()) == (status, 0nat, Seq::<ActionView>::empty()),
        ({
            let (s, n, acts) = session_events(version, status, token, msgs, fresh);
            let (s2, ok, more) = session_event(version, s, token, m, f);
            &&& session_events(version, status, token, msgs.push(m), fresh.push(f))
                == (s2, if ok { n } else { n + 1 }, acts + more)
            &&& n <= msgs.len()
        }),
    decreases msgs.len(),
{
    assert(msgs.push(m).drop_last() =~= msgs);
    assert(fresh.push(f).drop_last() =~= fresh);
    if msgs.len() > 0 {
        law_session_run(version, status, token, msgs.drop_last(), fresh.drop_last(), msgs.last(), fresh.last());
        assert(msgs.drop_last().push(msgs.last()) =~= msgs);
        assert(fresh.drop_last().push(fresh.last()) =~= fresh);
    }
}

} // verus!
