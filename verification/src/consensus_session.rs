//! What a consensus session does with the votes that a peer sends: it
//! checks the message, counts the vote in the node state, and names the
//! requests to send back to the peer.  No propose is ever known to the
//! node state, so each vote asks for its propose.
use vstd::prelude::*;
use crate::consensus::{
    hash_of, int_of, precommit_accepts, prevote_accepts, ConsensusProtocol, Precommit, Prevote, RequestData, RequestView,
    ValidatorId,
};
use crate::hash::HashView;
use crate::message::{ArgView, SocketMessage};
use crate::protocol::{age_of_timestamp, is_fresh, timestamp_age};
use crate::node_state::{is_majority, tally_or_empty, tally_step, NodeState, NodeView, ValidatorView};

verus! {

/// `p` is the prevote that the arguments of a prevote message carry.
pub open spec fn reads_prevote(args: Seq<ArgView>, p: Prevote) -> bool {
    &&& p.validator.0 == int_of(args[3]) as u16
    &&& p.height == int_of(args[4]) as usize
    &&& p.round == int_of(args[5]) as usize
    &&& p.propose_hash@ == hash_of(args[6])
    &&& p.locked_round == int_of(args[7]) as usize
}

/// `p` is the precommit that the arguments of a precommit message carry.
pub open spec fn reads_precommit(args: Seq<ArgView>, p: Precommit) -> bool {
    &&& p.validator.0 == int_of(args[3]) as u16
    &&& p.height == int_of(args[4]) as usize
    &&& p.round == int_of(args[5]) as usize
    &&& p.propose_hash@ == hash_of(args[6])
    &&& p.block_hash@ == hash_of(args[7])
}

/// A vote from validator `id` for `hash` at `round` can be counted in the
/// state: `id` is one of its validators, and when it is the node itself,
/// the node voted for nothing else in that round (`own` gives the votes
/// of the node by round).
pub open spec fn vote_fits(
    state: NodeView,
    own: Option<Map<usize, HashView>>,
    id: u16,
    round: usize,
    hash: HashView,
) -> bool {
    &&& (id as int) < state.validators.len()
    &&& match (state.validator, own) {
        (Some(v), Some(votes)) => v.id == ValidatorId(id) && votes.contains_key(round) ==> votes[round] == hash,
        _ => true,
    }
}

/// The prevotes of the node by round, when it is a validator.
pub open spec fn own_prevotes(state: NodeView) -> Option<Map<usize, HashView>> {
    match state.validator {
        Some(v) => Some(v.prevotes),
        None => None,
    }
}

/// The precommits of the node by round, when it is a validator.
pub open spec fn own_precommits(state: NodeView) -> Option<Map<usize, HashView>> {
    match state.validator {
        Some(v) => Some(v.precommits),
        None => None,
    }
}

/// A prevote message that the protocol accepts, if its timestamp is
/// `fresh`, can be counted in the state.
pub open spec fn prevote_fits(version: Seq<char>, args: Seq<ArgView>, fresh: bool, state: NodeView) -> bool {
    prevote_accepts(version, args, fresh) ==> vote_fits(
        state, own_prevotes(state), int_of(args[3]) as u16, int_of(args[5]) as usize, hash_of(args[6]))
}

/// A precommit message that the protocol accepts, if its timestamp is
/// `fresh`, can be counted in the state.
pub open spec fn precommit_fits(version: Seq<char>, args: Seq<ArgView>, fresh: bool, state: NodeView) -> bool {
    precommit_accepts(version, args, fresh) ==> vote_fits(
        state, own_precommits(state), int_of(args[3]) as u16, int_of(args[5]) as usize, hash_of(args[6]))
}

/// The requests once validator `id` is known to have the data of `key`.
pub open spec fn request_known(reqs: Map<RequestView, Set<u16>>, key: RequestView, id: u16) -> Map<RequestView, Set<u16>> {
    reqs.insert(key, if reqs.contains_key(key) { reqs[key].insert(id) } else { set![id] })
}

/// The prevote at `round` for `hash` from validator `id` is counted in
/// `after`, which `before` becomes; `consensus` tells whether the prevotes
/// for its round and propose reached a majority.
pub open spec fn prevote_counted(before: NodeView, after: NodeView, args: Seq<ArgView>, consensus: bool) -> bool {
    let id = int_of(args[3]) as u16;
    let round = int_of(args[5]) as usize;
    let hash = hash_of(args[6]);
    let k = (round, hash);
    let n = before.validators.len();
    &&& exists|p: Prevote| #[trigger] reads_prevote(args, p)
        && tally_step(tally_or_empty(before.prevotes, k, n), p, after.prevotes[k])
    &&& after.prevotes.dom() == before.prevotes.dom().insert(k)
    &&& after.prevotes.remove(k) == before.prevotes.remove(k)
    &&& consensus == is_majority(after.prevotes[k].count, n)
    &&& after.validator == (match before.validator {
        Some(v) => Some(if v.id == ValidatorId(id) {
            ValidatorView { prevotes: v.prevotes.insert(round, hash), ..v }
        } else {
            v
        }),
        None => None,
    })
}

/// The precommit at `round` for the propose and block is counted in
/// `after`, which `before` becomes; `consensus` tells whether the
/// precommits for its round and block reached a majority.
pub open spec fn precommit_counted(before: NodeView, after: NodeView, args: Seq<ArgView>, consensus: bool) -> bool {
    let id = int_of(args[3]) as u16;
    let round = int_of(args[5]) as usize;
    let hash = hash_of(args[6]);
    let k = (round, hash_of(args[7]));
    let n = before.validators.len();
    &&& exists|p: Precommit| #[trigger] reads_precommit(args, p)
        && tally_step(tally_or_empty(before.precommits, k, n), p, after.precommits[k])
    &&& after.precommits.dom() == before.precommits.dom().insert(k)
    &&& after.precommits.remove(k) == before.precommits.remove(k)
    &&& consensus == is_majority(after.precommits[k].count, n)
    &&& after.validator == (match before.validator {
        Some(v) => Some(if v.id == ValidatorId(id) {
            ValidatorView { precommits: v.precommits.insert(round, hash), ..v }
        } else {
            v
        }),
        None => None,
    })
}

/// What handling a prevote message does, for a timestamp whose freshness
/// is `fresh`: a message that the protocol refuses is refused and changes
/// nothing.  Else the prevote is counted; the propose is asked of the
/// sender, who is known to have it from now on; the prevotes of the
/// locked round of the sender are asked too when that round is after the
/// locked round of the node; and when the prevotes reached a majority the
/// request for them is dropped.
pub open spec fn prevote_handled(
    version: Seq<char>,
    args: Seq<ArgView>,
    fresh: bool,
    before: NodeView,
    after: NodeView,
    ok: bool,
    sent: Seq<RequestView>,
) -> bool {
    if !prevote_accepts(version, args, fresh) {
        !ok && sent.len() == 0 && after == before
    } else {
        let id = int_of(args[3]) as u16;
        let round = int_of(args[5]) as usize;
        let hash = hash_of(args[6]);
        let locked = int_of(args[7]) as usize;
        exists|consensus: bool| {
            &&& #[trigger] prevote_counted(before, after, args, consensus)
            &&& ok
            &&& after.requests == ({
                let known = request_known(before.requests, RequestView::Propose(hash), id);
                if consensus { known.remove(RequestView::Prevotes(round, hash)) } else { known }
            })
            &&& sent == seq![RequestView::Propose(hash)] + (if locked > before.locked_round {
                seq![RequestView::Prevotes(locked, hash)]
            } else {
                Seq::empty()
            })
            &&& after == (NodeView {
                validator: after.validator,
                prevotes: after.prevotes,
                requests: after.requests,
                ..before
            })
        }
    }
}

/// What handling a precommit message does, for a timestamp whose
/// freshness is `fresh`: a message that the protocol refuses is refused and
/// changes nothing.  Else the precommit is counted; the propose is asked
/// of the sender; the prevotes of the round of the precommit are asked
/// when that round is after the locked round of the node; and when the
/// precommits reached a majority, the round and block wait for the
/// propose, whose transactions are asked.
pub open spec fn precommit_handled(
    version: Seq<char>,
    args: Seq<ArgView>,
    fresh: bool,
    before: NodeView,
    after: NodeView,
    ok: bool,
    sent: Seq<RequestView>,
) -> bool {
    if !precommit_accepts(version, args, fresh) {
        !ok && sent.len() == 0 && after == before
    } else {
        let round = int_of(args[5]) as usize;
        let hash = hash_of(args[6]);
        let block = hash_of(args[7]);
        let w = before.unknown_proposes_with_precommits;
        exists|consensus: bool| {
            &&& #[trigger] precommit_counted(before, after, args, consensus)
            &&& ok
            &&& after.unknown_proposes_with_precommits == (if consensus {
                w.insert(hash, (if w.contains_key(hash) { w[hash] } else { Seq::empty() }).push((round, block)))
            } else {
                w
            })
            &&& sent == seq![RequestView::Propose(hash)] + (if round > before.locked_round {
                seq![RequestView::Prevotes(round, hash)]
            } else {
                Seq::empty()
            }) + (if consensus { seq![RequestView::ProposeTransactions(hash)] } else { Seq::empty() })
            &&& after == (NodeView {
                validator: after.validator,
                precommits: after.precommits,
                unknown_proposes_with_precommits: after.unknown_proposes_with_precommits,
                ..before
            })
        }
    }
}

/// The views of the requests, in order.
pub open spec fn request_views(rs: Seq<RequestData>) -> Seq<RequestView> {
    Seq::new(rs.len(), |i: int| rs[i]@)
}

/// Handles a prevote message, for a timestamp found to be `age` seconds old
/// (`None`: missing or not parsed), as [`prevote_handled`] says: whether it was taken, and the
/// requests to send to its sender, in order.
pub fn prevote_handler_with_age(
    protocol: &ConsensusProtocol,
    state: &mut NodeState,
    msg: &SocketMessage,
    age: Option<i64>,
) -> (r: (bool, Vec<RequestData>))
    requires
        old(state).wf(),
        prevote_fits(protocol@, msg@.args, is_fresh(age), old(state)@),
    ensures
        final(state).wf(),
        prevote_handled(protocol@, msg@.args, is_fresh(age), old(state)@, final(state)@, r.0, request_views(r.1@)),
{
    let mut sent: Vec<RequestData> = Vec::new();
    match protocol.verify_prevote_with_age(msg, age) {
        Some((prevote, _account)) => {
            proof {
                assert(reads_prevote(msg@.args, prevote));
            }
            let ghost before = state@;
            let has_consensus = state.add_prevote(&prevote);
            let ghost counted = state@;
            let req = RequestData::Propose(prevote.propose_hash.clone());
            state.add_request(prevote.validator, req.clone());
            sent.push(req);
            if prevote.locked_round > state.locked_round() {
                sent.push(RequestData::Prevotes(prevote.locked_round, prevote.propose_hash.clone()));
            }
            if has_consensus {
                state.handle_majority_prevotes(prevote.round, &prevote.propose_hash);
            }
            proof {
                assert(prevote_counted(before, counted, msg@.args, has_consensus));
                assert(prevote_counted(before, state@, msg@.args, has_consensus));
                let h = hash_of(msg@.args[6]);
                let locked = int_of(msg@.args[7]) as usize;
                assert(request_views(sent@) =~= seq![RequestView::Propose(h)] + (if locked > before.locked_round {
                    seq![RequestView::Prevotes(locked, h)]
                } else {
                    Seq::empty()
                }));
            }
            (true, sent)
        },
        None => {
            assert(request_views(sent@) =~= Seq::<RequestView>::empty());
            (false, sent)
        },
    }
}

/// Handles a prevote message whose timestamp must be less than
/// `MAX_DELAY` seconds old: as
/// [`prevote_handler_with_age`], for the age that the clock gives the
/// timestamp.
pub fn prevote_handler(protocol: &ConsensusProtocol, state: &mut NodeState, msg: &SocketMessage) -> (r: (bool, Vec<RequestData>))
    requires
        old(state).wf(),
        prevote_fits(protocol@, msg@.args, true, old(state)@),
        prevote_fits(protocol@, msg@.args, false, old(state)@),
    ensures
        final(state).wf(),
        exists|age: Option<i64>| #![trigger is_fresh(age)]
            age_of_timestamp(msg@.args, age)
            && prevote_handled(protocol@, msg@.args, is_fresh(age), old(state)@, final(state)@, r.0, request_views(r.1@)),
{
    let age = timestamp_age(msg);
    prevote_handler_with_age(protocol, state, msg, age)
}

/// Handles a precommit message, for a timestamp found to be `age` seconds
/// old (`None`: missing or not parsed), as [`precommit_handled`] says: whether it was taken, and
/// the requests to send to its sender, in order.
pub fn precommit_handler_with_age(
    protocol: &ConsensusProtocol,
    state: &mut NodeState,
    msg: &SocketMessage,
    age: Option<i64>,
) -> (r: (bool, Vec<RequestData>))
    requires
        old(state).wf(),
        precommit_fits(protocol@, msg@.args, is_fresh(age), old(state)@),
    ensures
        final(state).wf(),
        precommit_handled(protocol@, msg@.args, is_fresh(age), old(state)@, final(state)@, r.0, request_views(r.1@)),
{
    let mut sent: Vec<RequestData> = Vec::new();
    match protocol.verify_precommit_with_age(msg, age) {
        Some((precommit, _account)) => {
            proof {
                assert(reads_precommit(msg@.args, precommit));
            }
            let ghost before = state@;
            let has_consensus = state.add_precommit(&precommit);
            let ghost counted = state@;
            sent.push(RequestData::Propose(precommit.propose_hash.clone()));
            if precommit.round > state.locked_round() {
                sent.push(RequestData::Prevotes(precommit.round, precommit.propose_hash.clone()));
            }
            if has_consensus {
                state.handle_majority_precommits(precommit.round, &precommit.propose_hash, &precommit.block_hash);
                sent.push(RequestData::ProposeTransactions(precommit.propose_hash.clone()));
            }
            proof {
                assert(precommit_counted(before, counted, msg@.args, has_consensus));
                assert(precommit_counted(before, state@, msg@.args, has_consensus));
                let h = hash_of(msg@.args[6]);
                let round = int_of(msg@.args[5]) as usize;
                assert(request_views(sent@) =~= seq![RequestView::Propose(h)] + (if round > before.locked_round {
                    seq![RequestView::Prevotes(round, h)]
                } else {
                    Seq::empty()
                }) + (if has_consensus { seq![RequestView::ProposeTransactions(h)] } else { Seq::empty() }));
            }
            (true, sent)
        },
        None => {
            assert(request_views(sent@) =~= Seq::<RequestView>::empty());
            (false, sent)
        },
    }
}

/// Handles a precommit message whose timestamp must be less than
/// `MAX_DELAY` seconds old: as
/// [`precommit_handler_with_age`], for the age that the clock gives the
/// timestamp.
pub fn precommit_handler(protocol: &ConsensusProtocol, state: &mut NodeState, msg: &SocketMessage) -> (r: (bool, Vec<RequestData>))
    requires
        old(state).wf(),
        precommit_fits(protocol@, msg@.args, true, old(state)@),
        precommit_fits(protocol@, msg@.args, false, old(state)@),
    ensures
        final(state).wf(),
        exists|age: Option<i64>| #![trigger is_fresh(age)]
            age_of_timestamp(msg@.args, age)
            && precommit_handled(protocol@, msg@.args, is_fresh(age), old(state)@, final(state)@, r.0, request_views(r.1@)),
{
    let age = timestamp_age(msg);
    precommit_handler_with_age(protocol, state, msg, age)
}

} // verus!
