//! Callbacks of socket messages, each under the name of its event.
use vstd::prelude::*;
use crate::message::SocketMessage;
use crate::node_state::{entries_map, keys_distinct, lemma_entries_absent, lemma_entries_index, lemma_entries_push, lemma_entries_remove, lemma_entries_update};

verus! {

/// The event name of a registered callback.
pub open spec fn handler_key<F>() -> spec_fn((String, F)) -> Seq<char> {
    |e: (String, F)| e.0@
}

/// The callback of a registered event.
pub open spec fn handler_fn<F>() -> spec_fn((String, F)) -> F {
    |e: (String, F)| e.1
}

/// A type that registers its callbacks in the handler that it owns.
pub trait EventRegister {
    fn add_handler(self) -> Self;
}

/// Add and remove callbacks, and invoke one by the name of its event.
pub struct SocketMessageHandler<F> {
    handlers: Vec<(String, F)>,
}

impl<F> View for SocketMessageHandler<F> {
    type V = Map<Seq<char>, F>;

    closed spec fn view(&self) -> Map<Seq<char>, F> {
        entries_map(self.handlers@, handler_key(), handler_fn())
    }
}

impl<F> SocketMessageHandler<F> {
    #[verifier::type_invariant]
    closed spec fn inv(self) -> bool {
        keys_distinct(self.handlers@, handler_key::<F>())
    }

    /// No callback yet.
    pub fn new() -> (r: Self)
        ensures
            r@ == Map::<Seq<char>, F>::empty(),
    {
        SocketMessageHandler { handlers: Vec::new() }
    }

    /// The position of the callback of the event.
    fn index_of(&self, event: &String) -> (r: Option<usize>)
        ensures
            r is None ==> !self@.contains_key(event@),
            r matches Some(i) ==> i < self.handlers@.len() && self.handlers@[i as int].0@ == event@,
    {
        proof { use_type_invariant(self); }
        let mut i: usize = 0;
        while i < self.handlers.len()
            invariant
                i <= self.handlers@.len(),
                forall|j: int| 0 <= j < i ==> handler_key::<F>()(#[trigger] self.handlers@[j]) != event@,
            decreases self.handlers@.len() - i,
        {
            if self.handlers[i].0 == *event {
                return Some(i);
            }
            i = i + 1;
        }
        proof { lemma_entries_absent(self.handlers@, handler_key::<F>(), handler_fn::<F>(), event@); }
        None
    }

    /// Add a callback with an `event` name; it takes the place of the one
    /// the event had.
    pub fn add_event_handler(&mut self, event: String, callback: F)
        ensures
            final(self)@ == old(self)@.insert(event@, callback),
    {
        proof { use_type_invariant(&*self); }
        let ghost key = event@;
        let ghost cb = callback;
        let found = self.index_of(&event);
        let mut list: Vec<(String, F)> = Vec::new();
        std::mem::swap(&mut list, &mut self.handlers);
        let ghost before = list@;
        match found {
            Some(i) => {
                list.set(i, (event, callback));
                proof {
                    lemma_entries_update(before, handler_key::<F>(), handler_fn::<F>(), i as int, list@[i as int]);
                    assert(list@ =~= before.update(i as int, list@[i as int]));
                }
            },
            None => {
                list.push((event, callback));
                proof {
                    lemma_entries_push(before, handler_key::<F>(), handler_fn::<F>(), list@.last());
                    assert(list@ =~= before.push(list@.last()));
                }
            },
        }
        self.handlers = list;
    }

    /// Remove the callback of the `event`.
    pub fn remove_event_handler(&mut self, event: String)
        ensures
            final(self)@ == old(self)@.remove(event@),
    {
        proof { use_type_invariant(&*self); }
        match self.index_of(&event) {
            Some(i) => {
                let mut list: Vec<(String, F)> = Vec::new();
                std::mem::swap(&mut list, &mut self.handlers);
                let ghost before = list@;
                list.remove(i);
                proof {
                    lemma_entries_remove(before, handler_key::<F>(), handler_fn::<F>(), i as int);
                }
                self.handlers = list;
            },
            None => {
                assert(self@ =~= self@.remove(event@));
            },
        }
    }

    /// Process an event: invoke the callback of the `event` on the session,
    /// the message and the event's name, and answer what it answers;
    /// `false` when the event has no callback.
    pub fn process_event<T>(&mut self, event: String, session: &mut T, msg: &SocketMessage) -> (r: bool)
        where F: Fn(&mut T, &SocketMessage, String) -> bool
        requires
            old(self)@.contains_key(event@) ==> forall|s: &mut T, n: String| call_requires(old(self)@[event@], (s, msg, n)),
        ensures
            final(self)@ == old(self)@,
            !old(self)@.contains_key(event@) ==> !r && *final(session) == *old(session),
            old(self)@.contains_key(event@) ==> exists|s: &mut T, n: String|
                #![trigger call_ensures(old(self)@[event@], (s, msg, n), r)]
                n@ == event@ && *s == *old(session) && *final(s) == *final(session)
                    && call_ensures(old(self)@[event@], (s, msg, n), r),
    {
        proof { use_type_invariant(&*self); }
        match self.index_of(&event) {
            Some(i) => {
                proof { lemma_entries_index(self.handlers@, handler_key::<F>(), handler_fn::<F>(), i as int); }
                let name = event.clone();
                let f = &self.handlers[i].1;
                f(session, msg, name)
            },
            None => false,
        }
    }
}

/// The callback that an event was last given is the one that processing
/// the event runs; once removed, the event has no callback, so processing
/// it answers `false`; the other events keep theirs.
pub proof fn law_last_callback_runs<F>(m: Map<Seq<char>, F>, event: Seq<char>, callback: F, other: Seq<char>)
    ensures
        m.insert(event, callback).contains_key(event),
        m.insert(event, callback)[event] == callback,
        !m.remove(event).contains_key(event),
        other != event ==> (m.insert(event, callback).contains_key(other) <==> m.contains_key(other)),
        other != event && m.contains_key(other) ==> m.insert(event, callback)[other] == m[other],
        other != event ==> (m.remove(event).contains_key(other) <==> m.contains_key(other)),
{
}

} // verus!
