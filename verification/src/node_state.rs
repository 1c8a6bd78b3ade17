//! The state of a node in the consensus: its height, round and lock, and
//! the prevotes and precommits of the validators.
use vstd::prelude::*;
use std::collections::{HashMap, HashSet};
use crate::address::Address;
use crate::consensus::{Precommit, Prevote, RequestData, RequestView, ValidatorId};
use crate::hash::HashView;

verus! {

broadcast use vstd::std_specs::hash::group_hash_axioms;

#[verifier::external_type_specification]
#[verifier::external_body]
#[verifier::reject_recursive_types(B)]
pub struct ExBitVec<B>(bit_vec::BitVec<B>);

/// The bits that a `BitVec` holds, in order.
pub uninterp spec fn bits_of(v: bit_vec::BitVec) -> Seq<bool>;

/// Calls `BitVec::from_elem` of `bit-vec`: `len` bits, each `bit`.
#[verifier::external_body]
fn bitvec_from_elem(len: usize, bit: bool) -> (r: bit_vec::BitVec)
    ensures
        bits_of(r) == Seq::new(len as nat, |i: int| bit),
{
    bit_vec::BitVec::from_elem(len, bit)
}

/// Calls `BitVec::get` of `bit-vec`: the bit at `i`, `None` past the end.
#[verifier::external_body]
fn bitvec_get(v: &bit_vec::BitVec, i: usize) -> (r: Option<bool>)
    ensures
        i < bits_of(*v).len() ==> r == Some(bits_of(*v)[i as int]),
        i >= bits_of(*v).len() ==> r is None,
{
    v.get(i)
}

/// Calls `BitVec::set` of `bit-vec`, which sets the bit at `i` to `x`; it
/// panics past the end, which `requires` leaves out.
#[verifier::external_body]
fn bitvec_set(v: &mut bit_vec::BitVec, i: usize, x: bool)
    requires
        i < bits_of(*old(v)).len(),
    ensures
        bits_of(*final(v)) == bits_of(*old(v)).update(i as int, x),
{
    v.set(i, x)
}

/// Calls `Clone::clone` of `BitVec`: the same bits.
#[verifier::external_body]
fn bitvec_clone(v: &bit_vec::BitVec) -> (r: bit_vec::BitVec)
    ensures
        bits_of(r) == bits_of(*v),
{
    v.clone()
}

/// The number of bits set.
pub open spec fn set_count(s: Seq<bool>) -> nat
    decreases s.len(),
{
    if s.len() == 0 {
        0
    } else {
        set_count(s.drop_last()) + if s.last() { 1nat } else { 0nat }
    }
}

/// No more bits are set than there are, and setting a bit that was clear
/// sets one more.
proof fn lemma_set_count(s: Seq<bool>, i: int)
    requires
        0 <= i < s.len(),
        !s[i],
    ensures
        set_count(s) < s.len(),
        set_count(s.update(i, true)) == set_count(s) + 1,
    decreases s.len(),
{
    let u = s.update(i, true);
    if i == s.len() - 1 {
        lemma_set_count_le(s.drop_last());
        assert(u.drop_last() =~= s.drop_last());
    } else {
        lemma_set_count(s.drop_last(), i);
        assert(u.drop_last() =~= s.drop_last().update(i, true));
    }
}

/// No more bits are set than there are.
proof fn lemma_set_count_le(s: Seq<bool>)
    ensures
        set_count(s) <= s.len(),
    decreases s.len(),
{
    if s.len() > 0 {
        lemma_set_count_le(s.drop_last());
    }
}

/// No bit is set among clear bits.
proof fn lemma_set_count_clear(n: nat)
    ensures
        set_count(Seq::new(n, |i: int| false)) == 0,
    decreases n,
{
    if n > 0 {
        lemma_set_count_clear((n - 1) as nat);
        assert(Seq::new(n, |i: int| false).drop_last() =~= Seq::new((n - 1) as nat, |i: int| false));
    }
}

/// The map of the entries, each under its key; a later entry with the same
/// key wins.
pub open spec fn entries_map<E, K, V>(s: Seq<E>, key: spec_fn(E) -> K, val: spec_fn(E) -> V) -> Map<K, V>
    decreases s.len(),
{
    if s.len() == 0 {
        Map::empty()
    } else {
        entries_map(s.drop_last(), key, val).insert(key(s.last()), val(s.last()))
    }
}

/// No two entries have the same key.
pub open spec fn keys_distinct<E, K>(s: Seq<E>, key: spec_fn(E) -> K) -> bool {
    forall|i: int, j: int| 0 <= i < j < s.len() ==> key(s[i]) != key(s[j])
}

/// The entry at `i` is in the map under its key.
pub(crate) proof fn lemma_entries_index<E, K, V>(s: Seq<E>, key: spec_fn(E) -> K, val: spec_fn(E) -> V, i: int)
    requires
        keys_distinct(s, key),
        0 <= i < s.len(),
    ensures
        entries_map(s, key, val).contains_key(key(s[i])),
        entries_map(s, key, val)[key(s[i])] == val(s[i]),
    decreases s.len(),
{
    if i < s.len() - 1 {
        lemma_entries_index(s.drop_last(), key, val, i);
        assert(key(s[i]) != key(s.last()));
    }
}

/// A key that no entry has is not in the map.
pub(crate) proof fn lemma_entries_absent<E, K, V>(s: Seq<E>, key: spec_fn(E) -> K, val: spec_fn(E) -> V, k: K)
    requires
        forall|i: int| 0 <= i < s.len() ==> key(#[trigger] s[i]) != k,
    ensures
        !entries_map(s, key, val).contains_key(k),
    decreases s.len(),
{
    if s.len() > 0 {
        lemma_entries_absent(s.drop_last(), key, val, k);
        assert(key(s[s.len() - 1]) != k);
    }
}

/// The keys of the map are those of the entries.
pub(crate) proof fn lemma_entries_keys<E, K, V>(s: Seq<E>, key: spec_fn(E) -> K, val: spec_fn(E) -> V, k: K)
    requires
        entries_map(s, key, val).contains_key(k),
    ensures
        exists|i: int| 0 <= i < s.len() && key(#[trigger] s[i]) == k,
    decreases s.len(),
{
    if key(s.last()) != k {
        lemma_entries_keys(s.drop_last(), key, val, k);
        let i = choose|i: int| 0 <= i < s.drop_last().len() && key(#[trigger] s.drop_last()[i]) == k;
        assert(s[i] == s.drop_last()[i]);
    } else {
        assert(key(s[s.len() - 1]) == k);
    }
}

/// Replacing the entry at `i` by one with the same key replaces its value
/// in the map.
pub(crate) proof fn lemma_entries_update<E, K, V>(s: Seq<E>, key: spec_fn(E) -> K, val: spec_fn(E) -> V, i: int, e: E)
    requires
        keys_distinct(s, key),
        0 <= i < s.len(),
        key(e) == key(s[i]),
    ensures
        keys_distinct(s.update(i, e), key),
        entries_map(s.update(i, e), key, val) == entries_map(s, key, val).insert(key(e), val(e)),
    decreases s.len(),
{
    let u = s.update(i, e);
    assert forall|a: int, b: int| 0 <= a < b < u.len() implies key(u[a]) != key(u[b]) by {
        assert(key(u[a]) == key(s[a]));
        assert(key(u[b]) == key(s[b]));
    }
    if i == s.len() - 1 {
        assert(u.drop_last() =~= s.drop_last());
        assert(entries_map(u, key, val) =~= entries_map(s, key, val).insert(key(e), val(e)));
    } else {
        lemma_entries_update(s.drop_last(), key, val, i, e);
        assert(u.drop_last() =~= s.drop_last().update(i, e));
        assert(key(s.last()) != key(e));
        assert(entries_map(u, key, val) =~= entries_map(s, key, val).insert(key(e), val(e)));
    }
}

/// Adding an entry with a new key adds it to the map.
pub(crate) proof fn lemma_entries_push<E, K, V>(s: Seq<E>, key: spec_fn(E) -> K, val: spec_fn(E) -> V, e: E)
    requires
        keys_distinct(s, key),
        !entries_map(s, key, val).contains_key(key(e)),
    ensures
        keys_distinct(s.push(e), key),
        entries_map(s.push(e), key, val) == entries_map(s, key, val).insert(key(e), val(e)),
{
    let u = s.push(e);
    assert(u.drop_last() =~= s);
    assert forall|a: int, b: int| 0 <= a < b < u.len() implies key(u[a]) != key(u[b]) by {
        if b == s.len() {
            lemma_entries_index(s, key, val, a);
        }
    }
}

/// Removing the entry at `i` removes its key from the map.
pub(crate) proof fn lemma_entries_remove<E, K, V>(s: Seq<E>, key: spec_fn(E) -> K, val: spec_fn(E) -> V, i: int)
    requires
        keys_distinct(s, key),
        0 <= i < s.len(),
    ensures
        keys_distinct(s.remove(i), key),
        entries_map(s.remove(i), key, val) == entries_map(s, key, val).remove(key(s[i])),
    decreases s.len(),
{
    let u = s.remove(i);
    assert forall|a: int, b: int| 0 <= a < b < u.len() implies key(u[a]) != key(u[b]) by {
        let a0 = if a < i { a } else { a + 1 };
        let b0 = if b < i { b } else { b + 1 };
        assert(u[a] == s[a0]);
        assert(u[b] == s[b0]);
    }
    if i == s.len() - 1 {
        assert(u =~= s.drop_last());
        assert forall|j: int| 0 <= j < u.len() implies key(#[trigger] u[j]) != key(s[i]) by {
            assert(u[j] == s[j]);
        }
        lemma_entries_absent(u, key, val, key(s[i]));
        assert(entries_map(u, key, val) =~= entries_map(s, key, val).remove(key(s[i])));
    } else {
        lemma_entries_remove(s.drop_last(), key, val, i);
        assert(u.drop_last() =~= s.drop_last().remove(i));
        assert(u.last() == s.last());
        assert(key(s.last()) != key(s[i]));
        assert(entries_map(u, key, val) =~= entries_map(s, key, val).remove(key(s[i])));
    }
}

/// Voting messages such as `Precommit` and `Prevote`.
pub trait VoteMessage: Sized {
    /// The validator that voted.
    spec fn voter(&self) -> ValidatorId;

    /// A copy of the vote.
    spec fn same_vote(&self, other: &Self) -> bool;

    /// Return validator if of the message.
    fn validator(&self) -> (r: ValidatorId)
        ensures
            r == self.voter();

    /// A copy of the vote.
    fn copy_vote(&self) -> (r: Self)
        ensures
            self.same_vote(&r);
}

impl VoteMessage for Prevote {
    open spec fn voter(&self) -> ValidatorId {
        self.validator
    }

    open spec fn same_vote(&self, other: &Self) -> bool {
        &&& other.validator == self.validator
        &&& other.height == self.height
        &&& other.round == self.round
        &&& other.propose_hash@ == self.propose_hash@
        &&& other.locked_round == self.locked_round
    }

    fn validator(&self) -> (r: ValidatorId) {
        self.validator
    }

    fn copy_vote(&self) -> (r: Self) {
        self.clone()
    }
}

impl VoteMessage for Precommit {
    open spec fn voter(&self) -> ValidatorId {
        self.validator
    }

    open spec fn same_vote(&self, other: &Self) -> bool {
        &&& other.validator == self.validator
        &&& other.height == self.height
        &&& other.round == self.round
        &&& other.propose_hash@ == self.propose_hash@
        &&& other.block_hash@ == self.block_hash@
        &&& other.time@ == self.time@
    }

    fn validator(&self) -> (r: ValidatorId) {
        self.validator
    }

    fn copy_vote(&self) -> (r: Self) {
        self.clone()
    }
}

/// Contains voting messages alongside with there validator ids.
#[derive(Debug)]
pub struct Votes<T> {
    messages: Vec<T>,
    validators: bit_vec::BitVec,
    count: usize,
}

impl<T: VoteMessage> Votes<T> {
    /// The count is the number of validators that voted, and there is one
    /// message for each.
    pub closed spec fn wf(&self) -> bool {
        &&& self.count == set_count(bits_of(self.validators))
        &&& self.messages@.len() == self.count
        &&& bits_of(self.validators).len() <= usize::MAX
    }

    /// Which validators voted.
    pub closed spec fn voted(&self) -> Seq<bool> {
        bits_of(self.validators)
    }

    /// The number of votes.
    pub closed spec fn vote_count(&self) -> nat {
        self.count as nat
    }

    /// The votes, in the order they came.
    pub closed spec fn votes(&self) -> Seq<T> {
        self.messages@
    }

    /// No vote yet, from any of `validators_len` validators.
    pub fn new(validators_len: usize) -> (r: Self)
        ensures
            r.wf(),
            r.voted() == Seq::new(validators_len as nat, |i: int| false),
            r.vote_count() == 0,
            r.votes().len() == 0,
    {
        let r = Votes { messages: Vec::new(), validators: bitvec_from_elem(validators_len, false), count: 0 };
        proof {
            lemma_set_count_clear(validators_len as nat);
        }
        r
    }

    /// Inserts a new message if it hasn't been inserted yet: a vote counts
    /// once for each validator.
    pub fn insert(&mut self, message: &T)
        requires
            old(self).wf(),
            (message.voter().0 as int) < old(self).voted().len(),
        ensures
            final(self).wf(),
            final(self).vote_count() == set_count(final(self).voted()),
            final(self).votes().len() == final(self).vote_count(),
            ({
                let v = message.voter().0 as int;
                if old(self).voted()[v] {
                    &&& final(self).voted() == old(self).voted()
                    &&& final(self).vote_count() == old(self).vote_count()
                    &&& final(self).votes() == old(self).votes()
                } else {
                    &&& final(self).voted() == old(self).voted().update(v, true)
                    &&& final(self).vote_count() == old(self).vote_count() + 1
                    &&& final(self).votes().len() == old(self).votes().len() + 1
                    &&& final(self).votes().drop_last() == old(self).votes()
                    &&& message.same_vote(&final(self).votes().last())
                }
            }),
    {
        let voter: usize = message.validator().0 as usize;
        match bitvec_get(&self.validators, voter) {
            Some(false) => {
                proof {
                    lemma_set_count(bits_of(self.validators), voter as int);
                    lemma_set_count_le(bits_of(self.validators));
                }
                self.count = self.count + 1;
                bitvec_set(&mut self.validators, voter, true);
                let ghost before = self.messages@;
                self.messages.push(message.copy_vote());
                assert(self.messages@.drop_last() =~= before);
            },
            _ => {},
        }
    }

    /// A tally counts each validator once: its count is the number of
    /// validators marked as voted, and it holds one message for each.
    pub proof fn law_votes_counted(&self)
        requires
            self.wf(),
        ensures
            self.vote_count() == set_count(self.voted()),
            self.votes().len() == self.vote_count(),
            self.vote_count() <= self.voted().len(),
    {
        lemma_set_count_le(bits_of(self.validators));
    }

    /// Returns validators.
    pub fn validators(&self) -> (r: &bit_vec::BitVec)
        ensures
            bits_of(*r) == self.voted(),
    {
        &self.validators
    }

    /// Returns number of contained messages.
    pub fn count(&self) -> (r: usize)
        ensures
            r == self.vote_count(),
            self.wf() ==> r == set_count(self.voted()) && r == self.votes().len(),
    {
        self.count
    }

    /// Returns messages.
    pub fn messages(&self) -> (r: &Vec<T>)
        ensures
            r@ == self.votes(),
    {
        &self.messages
    }
}

/// State of a validator-node: its id, and its own prevotes and precommits
/// by round.
#[derive(Debug)]
pub struct ValidatorState {
    validator_id: ValidatorId,
    owned_prevotes: HashMap<usize, Prevote>,
    owned_precommits: HashMap<usize, Precommit>,
}

impl ValidatorState {
    /// The id of the validator.
    pub closed spec fn id(&self) -> ValidatorId {
        self.validator_id
    }

    /// The rounds of the prevotes of the validator.
    pub closed spec fn prevote_rounds(&self) -> Set<usize> {
        self.owned_prevotes@.dom()
    }

    /// The rounds of the precommits of the validator.
    pub closed spec fn precommit_rounds(&self) -> Set<usize> {
        self.owned_precommits@.dom()
    }

    /// Creates new `ValidatorState` with given validator id.
    pub fn new(validator_id: ValidatorId) -> (r: Self)
        ensures
            r.id() == validator_id,
            r.prevote_rounds() == Set::<usize>::empty(),
            r.precommit_rounds() == Set::<usize>::empty(),
    {
        ValidatorState { validator_id: validator_id, owned_prevotes: HashMap::new(), owned_precommits: HashMap::new() }
    }

    /// Returns validator id.
    pub fn validator_id(&self) -> (r: ValidatorId)
        ensures
            r == self.id(),
    {
        self.validator_id
    }

    /// Sets new validator id.
    pub fn set_validator_id(&mut self, validator_id: ValidatorId)
        ensures
            final(self).id() == validator_id,
            final(self).prevote_rounds() == old(self).prevote_rounds(),
            final(self).precommit_rounds() == old(self).precommit_rounds(),
    {
        self.validator_id = validator_id;
    }

    /// Checks if the node has pre-vote for the specified round.
    pub fn have_prevote(&self, round: usize) -> (r: bool)
        ensures
            r == self.prevote_rounds().contains(round),
    {
        self.owned_prevotes.contains_key(&round)
    }

    /// Clears pre-commits and pre-votes.
    pub fn clear(&mut self)
        ensures
            final(self).id() == old(self).id(),
            final(self).prevote_rounds() == Set::<usize>::empty(),
            final(self).precommit_rounds() == Set::<usize>::empty(),
    {
        self.owned_precommits.clear();
        self.owned_prevotes.clear();
    }
}

/// The view of a validator state: its id, and the propose hashes of its
/// own prevotes and precommits by round.
pub struct ValidatorView {
    pub id: ValidatorId,
    pub prevotes: Map<usize, HashView>,
    pub precommits: Map<usize, HashView>,
}

impl ValidatorState {
    /// The value of the state.
    pub closed spec fn state_view(&self) -> ValidatorView {
        ValidatorView {
            id: self.validator_id,
            prevotes: self.owned_prevotes@.map_values(|p: Prevote| p.propose_hash@),
            precommits: self.owned_precommits@.map_values(|p: Precommit| p.propose_hash@),
        }
    }

    proof fn lemma_view(&self)
        ensures
            self.state_view().id == self.id(),
            self.state_view().prevotes.dom() == self.prevote_rounds(),
            self.state_view().precommits.dom() == self.precommit_rounds(),
    {
        assert(self.state_view().prevotes.dom() =~= self.prevote_rounds());
        assert(self.state_view().precommits.dom() =~= self.precommit_rounds());
    }
}

/// A validator of the chain, known by its account.
#[derive(Debug)]
pub struct Validator {
    pub account: Address,
}

impl Validator {
    /// The account of the validator.
    pub fn account_addr(&self) -> (r: Address)
        ensures
            r.text@ == self.account.text@,
    {
        self.account.clone()
    }
}

/// The validators that know the data of a request.
#[derive(Debug)]
struct RequestState {
    // Number of attempts made.
    retries: u16,
    // Nodes that have the required information.
    known_nodes: HashSet<u16>,
}

impl RequestState {
    fn new() -> (r: Self)
        ensures
            r.known_nodes@ == Set::<u16>::empty(),
    {
        RequestState { retries: 0, known_nodes: HashSet::new() }
    }

    fn insert(&mut self, peer: ValidatorId)
        ensures
            final(self).known_nodes@ == old(self).known_nodes@.insert(peer.0),
    {
        self.known_nodes.insert(peer.0);
    }
}

/// The key of the votes of a round for a propose.
pub type VoteKey = (usize, HashView);

/// The votes for a key: which validators voted, how many, and their votes
/// in the order they came.
pub struct Tally<T> {
    pub voted: Seq<bool>,
    pub count: nat,
    pub votes: Seq<T>,
}

/// No vote yet, from any of `n` validators.
pub open spec fn empty_tally<T>(n: nat) -> Tally<T> {
    Tally { voted: Seq::new(n, |i: int| false), count: 0, votes: Seq::empty() }
}

/// `after` is `before` once `vote` is counted: the first vote of a
/// validator counts and is kept, a second one changes nothing.
pub open spec fn tally_step<T: VoteMessage>(before: Tally<T>, vote: T, after: Tally<T>) -> bool {
    let v = vote.voter().0 as int;
    if before.voted[v] {
        after == before
    } else {
        &&& after.voted == before.voted.update(v, true)
        &&& after.count == before.count + 1
        &&& after.votes.len() == before.votes.len() + 1
        &&& after.votes.drop_last() == before.votes
        &&& vote.same_vote(&after.votes.last())
    }
}

/// The key of an entry of votes.
pub open spec fn vote_key<T>() -> spec_fn((usize, crate::hash::Hash, Votes<T>)) -> VoteKey {
    |e: (usize, crate::hash::Hash, Votes<T>)| (e.0, e.1@)
}

/// The tally of an entry of votes.
pub open spec fn vote_tally<T: VoteMessage>() -> spec_fn((usize, crate::hash::Hash, Votes<T>)) -> Tally<T> {
    |e: (usize, crate::hash::Hash, Votes<T>)| Tally { voted: e.2.voted(), count: e.2.vote_count(), votes: e.2.votes() }
}

/// The tallies of the entries of votes, by key.
pub open spec fn tallies<T: VoteMessage>(s: Seq<(usize, crate::hash::Hash, Votes<T>)>) -> Map<VoteKey, Tally<T>> {
    entries_map(s, vote_key(), vote_tally())
}

/// A tally that counts distinct voters among `n` validators: its count is
/// the number of validators marked as voted, with one message for each.
pub open spec fn counts_voters<T>(t: Tally<T>, n: nat) -> bool {
    &&& t.voted.len() == n
    &&& t.count == set_count(t.voted)
    &&& t.votes.len() == t.count
    &&& t.count <= n
}

/// Each tally of well-formed entries counts distinct voters.
proof fn lemma_tallies_count_voters<T: VoteMessage>(s: Seq<(usize, crate::hash::Hash, Votes<T>)>, n: nat)
    requires
        votes_wf(s, n),
    ensures
        forall|k: VoteKey| #[trigger] tallies(s).contains_key(k) ==> counts_voters(tallies(s)[k], n),
{
    assert forall|k: VoteKey| #[trigger] tallies(s).contains_key(k) implies counts_voters(tallies(s)[k], n) by {
        lemma_entries_keys(s, vote_key(), vote_tally(), k);
        let i = choose|i: int| 0 <= i < s.len() && vote_key::<T>()(#[trigger] s[i]) == k;
        lemma_entries_index(s, vote_key(), vote_tally(), i);
        s[i].2.law_votes_counted();
    }
}

/// The entries of votes have distinct keys, and each counts the votes of
/// `n` validators.
pub open spec fn votes_wf<T: VoteMessage>(s: Seq<(usize, crate::hash::Hash, Votes<T>)>, n: nat) -> bool {
    &&& keys_distinct(s, vote_key())
    &&& forall|i: int| 0 <= i < s.len() ==> (#[trigger] s[i]).2.wf() && s[i].2.voted().len() == n
}

/// The tally for a key, or no vote yet.
pub open spec fn tally_or_empty<T>(m: Map<VoteKey, Tally<T>>, k: VoteKey, n: nat) -> Tally<T> {
    if m.contains_key(k) { m[k] } else { empty_tally(n) }
}

/// The index of the entry of votes with the key, if any.
fn find_votes<T: VoteMessage>(entries: &Vec<(usize, crate::hash::Hash, Votes<T>)>, round: usize, hash: &crate::hash::Hash) -> (r: Option<usize>)
    ensures
        r is None <==> forall|i: int| 0 <= i < entries@.len() ==> vote_key()(#[trigger] entries@[i]) != (round, hash@),
        r matches Some(i) ==> i < entries@.len() && vote_key()(entries@[i as int]) == (round, hash@),
{
    let mut i: usize = 0;
    while i < entries.len()
        invariant
            i <= entries@.len(),
            forall|k: int| 0 <= k < i ==> vote_key()(#[trigger] entries@[k]) != (round, hash@),
        decreases entries@.len() - i,
    {
        if entries[i].0 == round && entries[i].1.same_as(hash) {
            return Some(i);
        }
        i = i + 1;
    }
    None
}

/// Counts a vote for the key: gives the number of votes for the key after.
fn add_vote<T: VoteMessage>(entries: &mut Vec<(usize, crate::hash::Hash, Votes<T>)>, round: usize, hash: &crate::hash::Hash, vote: &T, n: usize) -> (r: usize)
    requires
        votes_wf(old(entries)@, n as nat),
        (vote.voter().0 as int) < n,
    ensures
        votes_wf(final(entries)@, n as nat),
        tallies(final(entries)@).dom() == tallies(old(entries)@).dom().insert((round, hash@)),
        tallies(final(entries)@).remove((round, hash@)) == tallies(old(entries)@).remove((round, hash@)),
        tally_step(tally_or_empty(tallies(old(entries)@), (round, hash@), n as nat), *vote,
            tallies(final(entries)@)[(round, hash@)]),
        r == tallies(final(entries)@)[(round, hash@)].count,
{
    let ghost old_entries = entries@;
    let ghost k: VoteKey = (round, hash@);
    match find_votes(entries, round, hash) {
        Some(i) => {
            proof {
                lemma_entries_index(old_entries, vote_key(), vote_tally::<T>(), i as int);
            }
            let (r0, h0, mut votes) = entries.remove(i);
            votes.insert(vote);
            let count = votes.count();
            let ghost e = (r0, h0, votes);
            entries.insert(i, (r0, h0, votes));
            proof {
                assert(entries@ =~= old_entries.update(i as int, e));
                lemma_entries_update(old_entries, vote_key(), vote_tally::<T>(), i as int, e);
                assert(tallies(entries@) == tallies(old_entries).insert(k, vote_tally::<T>()(e)));
                assert(tallies(entries@).remove(k) =~= tallies(old_entries).remove(k));
                assert(tallies(entries@).dom() =~= tallies(old_entries).dom().insert(k));
                assert forall|j: int| 0 <= j < entries@.len() implies (#[trigger] entries@[j]).2.wf()
                    && entries@[j].2.voted().len() == n by {
                    if j != i {
                        assert(entries@[j] == old_entries[j]);
                    }
                }
            }
            count
        },
        None => {
            proof {
                lemma_entries_absent(old_entries, vote_key(), vote_tally::<T>(), k);
            }
            let mut votes: Votes<T> = Votes::new(n);
            assert(votes.votes() =~= Seq::<T>::empty());
            votes.insert(vote);
            let count = votes.count();
            entries.push((round, hash.clone(), votes));
            proof {
                assert(entries@[entries@.len() - 1].1@ == hash@);
                assert(entries@ == old_entries.push(entries@[entries@.len() - 1]));
                lemma_entries_push(old_entries, vote_key(), vote_tally::<T>(), entries@[entries@.len() - 1]);
                assert(tallies(entries@).remove(k) =~= tallies(old_entries).remove(k));
                assert(tallies(entries@).dom() =~= tallies(old_entries).dom().insert(k));
                assert forall|j: int| 0 <= j < entries@.len() implies (#[trigger] entries@[j]).2.wf()
                    && entries@[j].2.voted().len() == n by {
                    if j < old_entries.len() {
                        assert(entries@[j] == old_entries[j]);
                    }
                }
            }
            count
        },
    }
}

/// The key of a pending request.
spec fn request_key() -> spec_fn((RequestData, RequestState)) -> RequestView {
    |e: (RequestData, RequestState)| e.0@
}

/// The validators known to have the data of a pending request.
spec fn request_nodes() -> spec_fn((RequestData, RequestState)) -> Set<u16> {
    |e: (RequestData, RequestState)| e.1.known_nodes@
}

/// The propose hash of an entry of precommits waiting for their propose.
pub open spec fn waiting_key() -> spec_fn((crate::hash::Hash, Vec<(usize, crate::hash::Hash)>)) -> HashView {
    |e: (crate::hash::Hash, Vec<(usize, crate::hash::Hash)>)| e.0@
}

/// The rounds and block hashes of an entry of precommits waiting for their
/// propose.
pub open spec fn waiting_blocks() -> spec_fn((crate::hash::Hash, Vec<(usize, crate::hash::Hash)>)) -> Seq<(usize, HashView)> {
    |e: (crate::hash::Hash, Vec<(usize, crate::hash::Hash)>)| Seq::new(e.1@.len(), |i: int| (e.1@[i].0, e.1@[i].1@))
}

/// The value of a [`NodeState`].
pub struct NodeView {
    pub validators: Seq<Seq<char>>,
    pub validator: Option<ValidatorView>,
    pub height: usize,
    pub height_start_time: i64,
    pub round: usize,
    pub locked_round: usize,
    pub locked_propose: Option<HashView>,
    pub last_hash: HashView,
    pub prevotes: Map<VoteKey, Tally<Prevote>>,
    pub precommits: Map<VoteKey, Tally<Precommit>>,
    pub requests: Map<RequestView, Set<u16>>,
    pub unknown_proposes_with_precommits: Map<HashView, Seq<(usize, HashView)>>,
}

/// The hash of a digest, when there is one.
pub open spec fn hash_opt(h: Option<crate::hash::Hash>) -> Option<HashView> {
    match h {
        Some(x) => Some(x@),
        None => None,
    }
}

/// The state of a node in the consensus.  No propose is ever stored here
/// (hashing a propose is left undone), so no propose is known: the node
/// never locks on one, and the precommits it receives wait for theirs.
#[derive(Debug)]
pub struct NodeState {
    validators: Vec<Validator>,
    validator_state: Option<ValidatorState>,
    height: usize,
    height_start_time: i64,
    round: usize,
    locked_round: usize,
    locked_propose: Option<crate::hash::Hash>,
    last_hash: crate::hash::Hash,
    prevotes: Vec<(usize, crate::hash::Hash, Votes<Prevote>)>,
    precommits: Vec<(usize, crate::hash::Hash, Votes<Precommit>)>,
    requests: Vec<(RequestData, RequestState)>,
    unknown_proposes_with_precommits: Vec<(crate::hash::Hash, Vec<(usize, crate::hash::Hash)>)>,
}

impl View for NodeState {
    type V = NodeView;

    closed spec fn view(&self) -> NodeView {
        NodeView {
            validators: Seq::new(self.validators@.len(), |i: int| self.validators@[i].account.text@),
            validator: match self.validator_state {
                Some(v) => Some(v.state_view()),
                None => None,
            },
            height: self.height,
            height_start_time: self.height_start_time,
            round: self.round,
            locked_round: self.locked_round,
            locked_propose: hash_opt(self.locked_propose),
            last_hash: self.last_hash@,
            prevotes: tallies(self.prevotes@),
            precommits: tallies(self.precommits@),
            requests: entries_map(self.requests@, request_key(), request_nodes()),
            unknown_proposes_with_precommits: entries_map(
                self.unknown_proposes_with_precommits@, waiting_key(), waiting_blocks()),
        }
    }
}

/// `count` votes are a majority of `n` validators: more than two thirds.
pub open spec fn is_majority(count: nat, n: nat) -> bool {
    3 * count > 2 * n
}

/// Whether `count` votes are more than two thirds of `n` validators.
fn more_than_two_thirds(count: usize, n: usize) -> (r: bool)
    ensures
        r == is_majority(count as nat, n as nat),
{
    (count as u128) * 3 > (n as u128) * 2
}

/// The leader of the round at the height, among `n` validators.
pub open spec fn leader_of(height: usize, round: usize, n: nat) -> ValidatorId {
    ValidatorId(((height + round) % (n as int)) as u16)
}

/// A round has a majority when more than two thirds of the validators
/// voted: `count` votes of `n` validators are a majority exactly when three
/// times the count exceeds twice the number of validators (so 7 of 10 are
/// one, 6 of 10 are not, and 3 of 4 are one).  A majority stays one with
/// more votes, and a count of all the validators is one.
pub proof fn law_majority_is_more_than_two_thirds(count: nat, n: nat, more: nat)
    ensures
        is_majority(count, n) <==> 3 * count > 2 * n,
        is_majority(count, n) && count <= more ==> is_majority(more, n),
        n > 0 ==> is_majority(n, n),
        !is_majority(0, n),
{
}

/// The votes counted under a key are a majority of the `n` validators
/// exactly when there is a tally under the key and three times its count
/// exceeds twice the number of validators.
pub proof fn law_has_majority<T>(m: Map<VoteKey, Tally<T>>, k: VoteKey, n: nat)
    ensures
        has_majority(m, k, n) <==> (m.contains_key(k) && 3 * m[k].count > 2 * n),
{
}

/// Validators take turns as leaders: the leader of a round at a height is
/// the validator numbered `(height + round) % n`; the next round at the
/// same height, or the same round at the next height, has the next
/// validator (wrapping around), and round 0 at height 0 is led by
/// validator 0.
pub proof fn law_leaders_take_turns(height: usize, round: usize, n: nat)
    requires
        0 < n <= 65536,
    ensures
        leader_of(height, round, n).0 == (height + round) % (n as int),
        leader_of(height, round, n).0 < n,
        leader_of(0, 0, n).0 == 0,
        height < usize::MAX ==> leader_of((height + 1) as usize, round, n).0 == (leader_of(height, round, n).0 + 1) % (n as int),
        round < usize::MAX ==> leader_of(height, (round + 1) as usize, n).0 == (leader_of(height, round, n).0 + 1) % (n as int),
{
    let x: int = height + round;
    let m: int = n as int;
    vstd::arithmetic::div_mod::lemma_mod_pos_bound(x, m);
    vstd::arithmetic::div_mod::lemma_mod_pos_bound(x + 1, m);
    vstd::arithmetic::div_mod::lemma_add_mod_noop_right(1, x, m);
    vstd::arithmetic::div_mod::lemma_small_mod(0, n);
    assert(x % m < 65536);
    assert(((x % m) as u16) as int == x % m);
    assert(((x + 1) % m) as u16 as int == (x + 1) % m);
}

/// The node, as a validator, has no prevote from the round after its lock
/// to the current one.
pub open spec fn no_prevote_after_lock(v: NodeView) -> bool {
    match v.validator {
        Some(val) => no_prevote_in(val, v.locked_round, v.round),
        None => true,
    }
}

/// The validator has no prevote for a round after `lo` up to `hi`.
pub open spec fn no_prevote_in(val: ValidatorView, lo: usize, hi: usize) -> bool {
    forall|x: usize| lo < x <= hi ==> !#[trigger] val.prevotes.contains_key(x)
}

/// Every prevote of the node, as a validator, from the round after its
/// lock to the current one, is for the locked propose.
pub open spec fn prevotes_follow_lock(v: NodeView) -> bool {
    match v.validator {
        Some(val) => prevotes_for_lock(val, v.locked_round, v.round, v.locked_propose),
        None => true,
    }
}

/// Every prevote of the validator for a round after `lo` up to `hi` is for
/// `locked`.
pub open spec fn prevotes_for_lock(val: ValidatorView, lo: usize, hi: usize, locked: Option<HashView>) -> bool {
    forall|x: usize| lo < x <= hi && #[trigger] val.prevotes.contains_key(x) ==> Some(val.prevotes[x]) == locked
}

/// Whether the tally of the key has a majority of `n` validators.
pub open spec fn has_majority<T>(m: Map<VoteKey, Tally<T>>, k: VoteKey, n: nat) -> bool {
    m.contains_key(k) && is_majority(m[k].count, n)
}

impl NodeState {
    /// The lists of votes and requests have distinct keys, and the votes
    /// count the votes of the validators.
    pub closed spec fn wf(&self) -> bool {
        &&& votes_wf(self.prevotes@, self.validators@.len())
        &&& votes_wf(self.precommits@, self.validators@.len())
        &&& keys_distinct(self.requests@, request_key())
        &&& keys_distinct(self.unknown_proposes_with_precommits@, waiting_key())
    }

    /// Every tally of prevotes and of precommits counts distinct voters:
    /// one vote for each validator marked as voted, and no more votes than
    /// validators.
    pub proof fn law_tallies_count_voters(&self)
        requires
            self.wf(),
        ensures
            forall|k: VoteKey| #[trigger] self@.prevotes.contains_key(k)
                ==> counts_voters(self@.prevotes[k], self@.validators.len()),
            forall|k: VoteKey| #[trigger] self@.precommits.contains_key(k)
                ==> counts_voters(self@.precommits[k], self@.validators.len()),
    {
        lemma_tallies_count_voters(self.prevotes@, self.validators@.len() as nat);
        lemma_tallies_count_voters(self.precommits@, self.validators@.len() as nat);
    }

    pub fn new(
        validators: Vec<Validator>,
        validator: Option<ValidatorId>,
        last_hash: crate::hash::Hash,
        last_height: usize,
        height_start_time: i64,
    ) -> (r: Self)
        ensures
            r.wf(),
            r@.validators == Seq::new(validators@.len(), |i: int| validators@[i].account.text@),
            r@.validator == (match validator {
                Some(id) => Some(ValidatorView { id, prevotes: Map::empty(), precommits: Map::empty() }),
                None => None,
            }),
            r@.height == last_height,
            r@.height_start_time == height_start_time,
            r@.round == 0,
            r@.locked_round == 0,
            r@.locked_propose is None,
            r@.last_hash == last_hash@,
            r@.prevotes == Map::<VoteKey, Tally<Prevote>>::empty(),
            r@.precommits == Map::<VoteKey, Tally<Precommit>>::empty(),
            r@.requests == Map::<RequestView, Set<u16>>::empty(),
            r@.unknown_proposes_with_precommits == Map::<HashView, Seq<(usize, HashView)>>::empty(),
    {
        let validator_state = match validator {
            Some(id) => {
                let v = ValidatorState::new(id);
                assert(v.state_view().prevotes =~= Map::empty());
                assert(v.state_view().precommits =~= Map::empty());
                Some(v)
            },
            None => None,
        };
        NodeState {
            validators: validators,
            validator_state: validator_state,
            height: last_height,
            height_start_time: height_start_time,
            round: 0,
            locked_round: 0,
            locked_propose: None,
            last_hash: last_hash,
            prevotes: Vec::new(),
            precommits: Vec::new(),
            requests: Vec::new(),
            unknown_proposes_with_precommits: Vec::new(),
        }
    }

    /// Sends a propose and a prevote when the node leads, which is left
    /// undone: nothing changes.
    pub fn init(&mut self)
        ensures
            final(self)@ == old(self)@,
    {
        if self.locked_propose.is_some() {
            return;
        }
        if let Some(validator_id) = self.validator_id() {
            if self.have_prevote(self.round) {
                return;
            }
        }
    }

    /// Returns the current validators list.
    pub fn validators(&self) -> (r: &Vec<Validator>)
        ensures
            Seq::new(r@.len(), |i: int| r@[i].account.text@) == self@.validators,
    {
        &self.validators
    }

    /// Returns `ValidatorState` if the node is validator.
    pub fn validator_state(&self) -> (r: &Option<ValidatorState>)
        ensures
            (match *r {
                Some(v) => Some(v.state_view()),
                None => None,
            }) == self@.validator,
    {
        &self.validator_state
    }

    /// Returns propose hash on which the node makes lock.
    pub fn locked_propose(&self) -> (r: Option<crate::hash::Hash>)
        ensures
            hash_opt(r) == self@.locked_propose,
    {
        match &self.locked_propose {
            Some(h) => Some(h.clone()),
            None => None,
        }
    }

    /// Returns validator if the node is validator.
    pub fn validator_id(&self) -> (r: Option<ValidatorId>)
        ensures
            r == (match self@.validator {
                Some(v) => Some(v.id),
                None => None,
            }),
    {
        match &self.validator_state {
            Some(s) => Some(s.validator_id()),
            None => None,
        }
    }

    /// Checks if the node is a validator.
    pub fn is_validator(&self) -> (r: bool)
        ensures
            r == self@.validator is Some,
    {
        self.validator_state.is_some()
    }

    /// Returns the current height of the node.
    pub fn height(&self) -> (r: usize)
        ensures
            r == self@.height,
    {
        self.height
    }

    /// Returns the current round of the node.
    pub fn round(&self) -> (r: usize)
        ensures
            r == self@.round,
    {
        self.round
    }

    /// Returns the locked round of the node.
    pub fn locked_round(&self) -> (r: usize)
        ensures
            r == self@.locked_round,
    {
        self.locked_round
    }

    /// Locks the node to the specified round and propose hash, unless it is
    /// locked on that round or a later one already.
    pub fn inner_lock(&mut self, round: usize, hash: crate::hash::Hash)
        requires
            old(self).wf(),
        ensures
            final(self).wf(),
            final(self)@ == (if old(self)@.locked_round >= round {
                old(self)@
            } else {
                NodeView { locked_round: round, locked_propose: Some(hash@), ..old(self)@ }
            }),
    {
        if self.locked_round >= round {
            return;
        }
        self.locked_round = round;
        self.locked_propose = Some(hash);
    }

    /// Returns the hash of the last block.
    pub fn last_hash(&self) -> (r: crate::hash::Hash)
        ensures
            r@ == self@.last_hash,
    {
        self.last_hash.clone()
    }

    /// Returns start time of the current height, in milliseconds.
    pub fn height_start_time(&self) -> (r: i64)
        ensures
            r == self@.height_start_time,
    {
        self.height_start_time
    }

    /// Returns the leader id for the specified round and current height:
    /// the validators take turns.
    pub fn leader(&self, round: usize) -> (r: ValidatorId)
        requires
            self@.validators.len() > 0,
            self@.height + round <= usize::MAX,
        ensures
            r == leader_of(self@.height, round, self@.validators.len()),
    {
        ValidatorId(((self.height + round) % self.validators.len()) as u16)
    }

    /// Checks if the node is a leader for the current height and round.
    pub fn is_leader(&self) -> (r: bool)
        requires
            self@.validator is Some ==> self@.validators.len() > 0 && self@.height + self@.round <= usize::MAX,
        ensures
            r == (match self@.validator {
                Some(v) => leader_of(self@.height, self@.round, self@.validators.len()) == v.id,
                None => false,
            }),
    {
        match &self.validator_state {
            Some(v) => self.leader(self.round) == v.validator_id(),
            None => false,
        }
    }

    /// Returns the account of a validator identified by id.
    pub fn get_validator_key(&self, id: ValidatorId) -> (r: Option<Address>)
        ensures
            (id.0 as int) < self@.validators.len() ==> (r matches Some(a) && a.text@ == self@.validators[id.0 as int]),
            (id.0 as int) >= self@.validators.len() ==> r is None,
    {
        let i: usize = id.0 as usize;
        if i < self.validators.len() {
            Some(self.validators[i].account_addr())
        } else {
            None
        }
    }

    /// Returns `true` if this node has prevote for the specified round.
    pub fn have_prevote(&self, propose_round: usize) -> (r: bool)
        ensures
            r == (match self@.validator {
                Some(v) => v.prevotes.contains_key(propose_round),
                None => false,
            }),
    {
        match &self.validator_state {
            Some(v) => {
                proof { v.lemma_view(); }
                v.have_prevote(propose_round)
            },
            None => false,
        }
    }

    /// Adds prevote to the prevotes list: a prevote of the node itself is
    /// also kept by round.  Returns true if the prevotes for its round and
    /// propose are more than two thirds of the validators.  A second prevote of
    /// the node for a round must be for the same propose.
    pub fn add_prevote(&mut self, prevote: &Prevote) -> (r: bool)
        requires
            old(self).wf(),
            (prevote.validator.0 as int) < old(self)@.validators.len(),
            old(self)@.validator matches Some(v) ==> (v.id == prevote.validator
                && v.prevotes.contains_key(prevote.round) ==> v.prevotes[prevote.round] == prevote.propose_hash@),
        ensures
            final(self).wf(),
            ({
                let k = (prevote.round, prevote.propose_hash@);
                let n = old(self)@.validators.len();
                &&& final(self)@.validator == (match old(self)@.validator {
                    Some(v) => Some(if v.id == prevote.validator {
                        ValidatorView { prevotes: v.prevotes.insert(prevote.round, prevote.propose_hash@), ..v }
                    } else {
                        v
                    }),
                    None => None,
                })
                &&& final(self)@.prevotes.dom() == old(self)@.prevotes.dom().insert(k)
                &&& final(self)@.prevotes.remove(k) == old(self)@.prevotes.remove(k)
                &&& tally_step(tally_or_empty(old(self)@.prevotes, k, n), *prevote, final(self)@.prevotes[k])
                &&& r == is_majority(final(self)@.prevotes[k].count, n)
                &&& final(self)@ == (NodeView {
                    validator: final(self)@.validator,
                    prevotes: final(self)@.prevotes,
                    ..old(self)@
                })
            }),
    {
        let ghost old_vs = self.validator_state;
        match &mut self.validator_state {
            Some(vs) => {
                if vs.validator_id == prevote.validator {
                    let ghost before = vs.owned_prevotes@;
                    vs.owned_prevotes.insert(prevote.round, prevote.clone());
                    proof {
                        assert(vs.owned_prevotes@.map_values(|p: Prevote| p.propose_hash@)
                            =~= before.map_values(|p: Prevote| p.propose_hash@).insert(prevote.round, prevote.propose_hash@));
                    }
                }
            },
            None => {},
        }
        let n = self.validators.len();
        let count = add_vote(&mut self.prevotes, prevote.round, &prevote.propose_hash, prevote, n);
        more_than_two_thirds(count, n)
    }

    /// Returns `true` if there are +2/3 pre-votes for the specified round and hash.
    pub fn have_majority_prevotes(&self, round: usize, propose_hash: crate::hash::Hash) -> (r: bool)
        requires
            self.wf(),
        ensures
            r == has_majority(self@.prevotes, (round, propose_hash@), self@.validators.len()),
    {
        match find_votes(&self.prevotes, round, &propose_hash) {
            Some(i) => {
                proof {
                    lemma_entries_index(self.prevotes@, vote_key(), vote_tally::<Prevote>(), i as int);
                }
                more_than_two_thirds(self.prevotes[i].2.count(), self.validators.len())
            },
            None => {
                proof {
                    lemma_entries_absent(self.prevotes@, vote_key(), vote_tally::<Prevote>(), (round, propose_hash@));
                }
                false
            },
        }
    }

    /// Handles +2/3 pre-votes for the round and propose: the request for
    /// them is dropped; as no propose is known, the node does not lock.
    pub fn handle_majority_prevotes(&mut self, prevote_round: usize, propose_hash: &crate::hash::Hash)
        requires
            old(self).wf(),
        ensures
            final(self).wf(),
            final(self)@ == (NodeView {
                requests: old(self)@.requests.remove(RequestView::Prevotes(prevote_round, propose_hash@)),
                ..old(self)@
            }),
    {
        self.remove_request(&RequestData::Prevotes(prevote_round, propose_hash.clone()));
    }

    /// Returns ids of validators that that sent pre-votes for the specified
    /// propose.
    pub fn known_prevotes(&self, round: usize, propose_hash: &crate::hash::Hash) -> (r: bit_vec::BitVec)
        requires
            self.wf(),
        ensures
            bits_of(r) == tally_or_empty(self@.prevotes, (round, propose_hash@), self@.validators.len()).voted,
    {
        match find_votes(&self.prevotes, round, propose_hash) {
            Some(i) => {
                proof {
                    lemma_entries_index(self.prevotes@, vote_key(), vote_tally::<Prevote>(), i as int);
                }
                bitvec_clone(self.prevotes[i].2.validators())
            },
            None => {
                proof {
                    lemma_entries_absent(self.prevotes@, vote_key(), vote_tally::<Prevote>(), (round, propose_hash@));
                }
                bitvec_from_elem(self.validators.len(), false)
            },
        }
    }

    /// Adds precommit to the precommits list, by round and block hash: a
    /// precommit of the node itself is also kept by round.  Returns true if
    /// the precommits for its round and block are more than two thirds of the
    /// validators.  A second precommit of the node for a round must be for
    /// the same propose.
    pub fn add_precommit(&mut self, precommit: &Precommit) -> (r: bool)
        requires
            old(self).wf(),
            (precommit.validator.0 as int) < old(self)@.validators.len(),
            old(self)@.validator matches Some(v) ==> (v.id == precommit.validator
                && v.precommits.contains_key(precommit.round) ==> v.precommits[precommit.round] == precommit.propose_hash@),
        ensures
            final(self).wf(),
            ({
                let k = (precommit.round, precommit.block_hash@);
                let n = old(self)@.validators.len();
                &&& final(self)@.validator == (match old(self)@.validator {
                    Some(v) => Some(if v.id == precommit.validator {
                        ValidatorView { precommits: v.precommits.insert(precommit.round, precommit.propose_hash@), ..v }
                    } else {
                        v
                    }),
                    None => None,
                })
                &&& final(self)@.precommits.dom() == old(self)@.precommits.dom().insert(k)
                &&& final(self)@.precommits.remove(k) == old(self)@.precommits.remove(k)
                &&& tally_step(tally_or_empty(old(self)@.precommits, k, n), *precommit, final(self)@.precommits[k])
                &&& r == is_majority(final(self)@.precommits[k].count, n)
                &&& final(self)@ == (NodeView {
                    validator: final(self)@.validator,
                    precommits: final(self)@.precommits,
                    ..old(self)@
                })
            }),
    {
        match &mut self.validator_state {
            Some(vs) => {
                if vs.validator_id == precommit.validator {
                    let ghost before = vs.owned_precommits@;
                    vs.owned_precommits.insert(precommit.round, precommit.clone());
                    proof {
                        assert(vs.owned_precommits@.map_values(|p: Precommit| p.propose_hash@)
                            =~= before.map_values(|p: Precommit| p.propose_hash@).insert(precommit.round, precommit.propose_hash@));
                    }
                }
            },
            None => {},
        }
        let n = self.validators.len();
        let count = add_vote(&mut self.precommits, precommit.round, &precommit.block_hash, precommit, n);
        more_than_two_thirds(count, n)
    }

    /// Returns `true` if there are +2/3 votes for the specified round and
    /// hash; this reads the prevotes.
    pub fn have_majority_precommits(&self, round: usize, propose_hash: crate::hash::Hash) -> (r: bool)
        requires
            self.wf(),
        ensures
            r == has_majority(self@.prevotes, (round, propose_hash@), self@.validators.len()),
    {
        self.have_majority_prevotes(round, propose_hash)
    }

    /// Handles +2/3 pre-commits for the round, propose and block: as no
    /// propose is known, the round and block wait for the propose; returns
    /// true, the propose being unknown.
    pub fn handle_majority_precommits(&mut self, round: usize, propose_hash: &crate::hash::Hash, block_hash: &crate::hash::Hash) -> (r: bool)
        requires
            old(self).wf(),
        ensures
            final(self).wf(),
            r,
            final(self)@ == (NodeView {
                unknown_proposes_with_precommits: old(self)@.unknown_proposes_with_precommits.insert(propose_hash@,
                    (if old(self)@.unknown_proposes_with_precommits.contains_key(propose_hash@) {
                        old(self)@.unknown_proposes_with_precommits[propose_hash@]
                    } else {
                        Seq::empty()
                    }).push((round, block_hash@))),
                ..old(self)@
            }),
    {
        let ghost old_w = self.unknown_proposes_with_precommits@;
        let mut i: usize = 0;
        let mut found = false;
        while i < self.unknown_proposes_with_precommits.len() && !found
            invariant
                i <= self.unknown_proposes_with_precommits@.len(),
                self.unknown_proposes_with_precommits@ == old_w,
                found ==> i < old_w.len() && old_w[i as int].0@ == propose_hash@,
                !found ==> forall|k: int| 0 <= k < i ==> waiting_key()(#[trigger] old_w[k]) != propose_hash@,
            decreases old_w.len() - i + (if found { 0int } else { 1int }),
        {
            if self.unknown_proposes_with_precommits[i].0.same_as(propose_hash) {
                found = true;
            } else {
                i = i + 1;
            }
        }
        if found {
            proof {
                lemma_entries_index(old_w, waiting_key(), waiting_blocks(), i as int);
            }
            let (h, mut blocks) = self.unknown_proposes_with_precommits.remove(i);
            let ghost bv = waiting_blocks()((h, blocks));
            blocks.push((round, block_hash.clone()));
            let ghost e = (h, blocks);
            proof {
                assert(waiting_blocks()(e) =~= bv.push((round, block_hash@)));
            }
            self.unknown_proposes_with_precommits.insert(i, (h, blocks));
            proof {
                assert(self.unknown_proposes_with_precommits@ =~= old_w.update(i as int, e));
                lemma_entries_update(old_w, waiting_key(), waiting_blocks(), i as int, e);
            }
        } else {
            proof {
                lemma_entries_absent(old_w, waiting_key(), waiting_blocks(), propose_hash@);
            }
            let mut blocks: Vec<(usize, crate::hash::Hash)> = Vec::new();
            blocks.push((round, block_hash.clone()));
            self.unknown_proposes_with_precommits.push((propose_hash.clone(), blocks));
            proof {
                let last = self.unknown_proposes_with_precommits@[self.unknown_proposes_with_precommits@.len() - 1];
                assert(self.unknown_proposes_with_precommits@ == old_w.push(last));
                assert(waiting_blocks()(last) =~= Seq::<(usize, HashView)>::empty().push((round, block_hash@)));
                lemma_entries_push(old_w, waiting_key(), waiting_blocks(), last);
            }
        }
        true
    }

    /// Returns ids of validators that that sent pre-commits for the
    /// specified round and block.
    pub fn known_precommits(&self, round: usize, propose_hash: &crate::hash::Hash) -> (r: bit_vec::BitVec)
        requires
            self.wf(),
        ensures
            bits_of(r) == tally_or_empty(self@.precommits, (round, propose_hash@), self@.validators.len()).voted,
    {
        match find_votes(&self.precommits, round, propose_hash) {
            Some(i) => {
                proof {
                    lemma_entries_index(self.precommits@, vote_key(), vote_tally::<Precommit>(), i as int);
                }
                bitvec_clone(self.precommits[i].2.validators())
            },
            None => {
                proof {
                    lemma_entries_absent(self.precommits@, vote_key(), vote_tally::<Precommit>(), (round, propose_hash@));
                }
                bitvec_from_elem(self.validators.len(), false)
            },
        }
    }

    /// Returns pre-commits for the specified round and block.
    pub fn get_precommits(&self, round: usize, propose_hash: crate::hash::Hash) -> (r: &[Precommit])
        requires
            self.wf(),
        ensures
            r@ == tally_or_empty(self@.precommits, (round, propose_hash@), self@.validators.len()).votes,
    {
        match find_votes(&self.precommits, round, &propose_hash) {
            Some(i) => {
                proof {
                    lemma_entries_index(self.precommits@, vote_key(), vote_tally::<Precommit>(), i as int);
                }
                self.precommits[i].2.messages().as_slice()
            },
            None => {
                proof {
                    lemma_entries_absent(self.precommits@, vote_key(), vote_tally::<Precommit>(), (round, propose_hash@));
                }
                &[]
            },
        }
    }

    /// Returns `true` if the node has no prevote, from the round after its
    /// lock to the current one, for another propose than the locked one.
    pub fn have_prevote_ready(&self) -> (r: bool)
        requires
            self@.round < usize::MAX,
            self@.locked_round < usize::MAX,
            self@.locked_propose is None ==> no_prevote_after_lock(self@),
        ensures
            r == prevotes_follow_lock(self@),
    {
        let end = self.round + 1;
        let mut round = self.locked_round + 1;
        match &self.validator_state {
            Some(vs) => {
                let ghost v = vs.state_view();
                proof {
                    vs.lemma_view();
                    assert(self@.validator == Some(v));
                    if self@.locked_propose is None {
                        assert(no_prevote_after_lock(self@));
                        assert(no_prevote_in(v, self@.locked_round, self@.round));
                    }
                }
                while round < end
                    invariant
                        self.locked_round + 1 <= round || end <= round,
                        end == self.round + 1,
                        self@.validator == Some(v),
                        v == vs.state_view(),
                        self@.locked_propose is None ==> no_prevote_in(v, self@.locked_round, self@.round),
                        forall|x: usize| self@.locked_round < x < round && #[trigger] v.prevotes.contains_key(x)
                            ==> Some(v.prevotes[x]) == self@.locked_propose,
                    decreases end - round,
                {
                    match vs.owned_prevotes.get(&round) {
                        Some(msg) => {
                            assert(v.prevotes.contains_key(round));
                            assert(v.prevotes[round] == msg.propose_hash@);
                            match &self.locked_propose {
                                Some(h) => {
                                    if !msg.propose_hash.same_as(h) {
                                        assert(!prevotes_follow_lock(self@)) by {
                                            assert(Some(v.prevotes[round]) != self@.locked_propose);
                                            assert(self@.locked_round < round && round <= self@.round);
                                            assert(!prevotes_for_lock(v, self@.locked_round, self@.round, self@.locked_propose));
                                        }
                                        return false;
                                    }
                                },
                                None => {
                                    assert(self@.locked_round < round && round <= self@.round);
                                    assert(self@.locked_propose is None);
                                    assert(!v.prevotes.contains_key(round));
                                    assert(false);
                                    return false;
                                },
                            }
                        },
                        None => {},
                    }
                    round = round + 1;
                }
                true
            },
            None => true,
        }
    }

    /// Adds request data to requests list: the validator is known to have
    /// the data.
    pub fn add_request(&mut self, id: ValidatorId, req: RequestData) -> (r: Option<RequestData>)
        requires
            old(self).wf(),
        ensures
            final(self).wf(),
            r matches Some(x) && x@ == req@,
            final(self)@ == (NodeView {
                requests: old(self)@.requests.insert(req@,
                    if old(self)@.requests.contains_key(req@) {
                        old(self)@.requests[req@].insert(id.0)
                    } else {
                        set![id.0]
                    }),
                ..old(self)@
            }),
    {
        let ghost old_reqs = self.requests@;
        let mut i: usize = 0;
        let mut found = false;
        while i < self.requests.len() && !found
            invariant
                i <= self.requests@.len(),
                self.requests@ == old_reqs,
                found ==> i < self.requests@.len() && self.requests@[i as int].0@ == req@,
                !found ==> forall|k: int| 0 <= k < i ==> request_key()(#[trigger] self.requests@[k]) != req@,
            decreases self.requests@.len() - i + (if found { 0int } else { 1int }),
        {
            if self.requests[i].0.same_request(&req) {
                found = true;
            } else {
                i = i + 1;
            }
        }
        if found {
            proof {
                lemma_entries_index(old_reqs, request_key(), request_nodes(), i as int);
            }
            let (d, mut state) = self.requests.remove(i);
            state.insert(id);
            let ghost e = (d, state);
            self.requests.insert(i, (d, state));
            proof {
                assert(self.requests@ =~= old_reqs.update(i as int, e));
                lemma_entries_update(old_reqs, request_key(), request_nodes(), i as int, e);
            }
        } else {
            proof {
                lemma_entries_absent(old_reqs, request_key(), request_nodes(), req@);
            }
            let mut state = RequestState::new();
            state.insert(id);
            assert(state.known_nodes@ =~= set![id.0]);
            self.requests.push((req.clone(), state));
            proof {
                let last = self.requests@[self.requests@.len() - 1];
                assert(self.requests@ == old_reqs.push(last));
                lemma_entries_push(old_reqs, request_key(), request_nodes(), last);
            }
        }
        Some(req)
    }

    /// Removes the specified request from the pending request list.
    pub fn remove_request(&mut self, data: &RequestData)
        requires
            old(self).wf(),
        ensures
            final(self).wf(),
            final(self)@ == (NodeView { requests: old(self)@.requests.remove(data@), ..old(self)@ }),
    {
        let ghost old_reqs = self.requests@;
        let mut i: usize = 0;
        let mut found = false;
        while i < self.requests.len() && !found
            invariant
                i <= self.requests@.len(),
                self.requests@ == old_reqs,
                found ==> i < self.requests@.len() && self.requests@[i as int].0@ == data@,
                !found ==> forall|k: int| 0 <= k < i ==> request_key()(#[trigger] self.requests@[k]) != data@,
            decreases self.requests@.len() - i + (if found { 0int } else { 1int }),
        {
            if self.requests[i].0.same_request(data) {
                found = true;
            } else {
                i = i + 1;
            }
        }
        if found {
            proof {
                lemma_entries_remove(old_reqs, request_key(), request_nodes(), i as int);
            }
            self.requests.remove(i);
        } else {
            proof {
                lemma_entries_absent(old_reqs, request_key(), request_nodes(), data@);
                assert(entries_map(old_reqs, request_key(), request_nodes()).remove(data@)
                    =~= entries_map(old_reqs, request_key(), request_nodes()));
            }
        }
    }
}

/// A validator's vote counts once: after two votes of the same validator,
/// the count is that after the first.
pub proof fn law_vote_counts_once<T: VoteMessage>(t0: Tally<T>, v1: T, t1: Tally<T>, v2: T, t2: Tally<T>)
    requires
        0 <= v1.voter().0 < t0.voted.len(),
        tally_step(t0, v1, t1),
        tally_step(t1, v2, t2),
        v2.voter() == v1.voter(),
    ensures
        t2.count == t1.count,
        t2.voted == t1.voted,
        t1.voted[v1.voter().0 as int],
{
}

/// The count of a tally is the number of validators that voted: counting
/// a vote keeps it so.
pub proof fn law_count_is_voters<T: VoteMessage>(t0: Tally<T>, v: T, t1: Tally<T>)
    requires
        t0.count == set_count(t0.voted),
        0 <= v.voter().0 < t0.voted.len(),
        tally_step(t0, v, t1),
    ensures
        t1.count == set_count(t1.voted),
        t1.count <= t1.voted.len(),
{
    if !t0.voted[v.voter().0 as int] {
        lemma_set_count(t0.voted, v.voter().0 as int);
        lemma_set_count_le(t1.voted);
    } else {
        lemma_set_count_le(t1.voted);
    }
}

} // verus!
