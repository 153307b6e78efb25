//! A room: the mailboxes of the connections that are in it.
//!
//! Every connection in a room has a mailbox under its key. A message that is sent to a
//! connection is put at the back of its mailbox, and the connection takes its messages
//! from the front: each connection gets what was sent to it in the order it was sent.

use std::collections::HashMap;
use vstd::prelude::*;
use vstd::std_specs::iter::IteratorSpec;

verus! {

/// The key of a connection.
pub type ConnId = usize;

/// Whether a connection stays in the room after an event.
#[derive(Clone, Copy, Debug, PartialEq, Eq, Structural)]
pub enum Completion {
    Continue,
    Finished,
}

/// The mailboxes of the connections in a room, each under the key of its connection.
pub struct Room<PeerMessage> {
    mailboxes: HashMap<ConnId, Vec<PeerMessage>>,
}

impl<PeerMessage> View for Room<PeerMessage> {
    /// What waits in the mailbox of each connection, oldest first.
    type V = Map<ConnId, Seq<PeerMessage>>;

    closed spec fn view(&self) -> Map<ConnId, Seq<PeerMessage>> {
        Map::new(
            |key: ConnId| self.mailboxes@.contains_key(key),
            |key: ConnId| self.mailboxes@[key]@,
        )
    }
}

impl<PeerMessage> Room<PeerMessage> {
    /// A room with nobody in it.
    pub fn new() -> (room: Room<PeerMessage>)
        ensures
            room@ == Map::<ConnId, Seq<PeerMessage>>::empty(),
    {
        broadcast use vstd::std_specs::hash::group_hash_axioms;

        let room = Room { mailboxes: HashMap::new() };
        assert(room@ =~= Map::<ConnId, Seq<PeerMessage>>::empty());
        room
    }

    /// Whether the connection is in the room.
    pub fn contains(&self, key: &ConnId) -> (found: bool)
        ensures
            found == self@.dom().contains(*key),
    {
        broadcast use vstd::std_specs::hash::group_hash_axioms;

        self.mailboxes.contains_key(key)
    }

    /// The keys of the connections in the room.
    pub fn keys(&self) -> (keys: Vec<ConnId>)
        ensures
            keys@.no_duplicates(),
            forall|key: ConnId| keys@.contains(key) <==> self@.dom().contains(key),
    {
        broadcast use vstd::std_specs::hash::group_hash_axioms;

        let mut keys: Vec<ConnId> = Vec::new();
        let walk = self.mailboxes.keys();
        let ghost all = walk.remaining();
        proof {
            assert(all.unref().to_set() == self.mailboxes@.dom());
            assert(all.no_duplicates());
        }
        for key in it: walk
            invariant
                it.seq() == all,
                keys@.len() == it.index(),
                forall|i: int| 0 <= i < keys@.len() ==> keys@[i] == *all[i],
        {
            keys.push(*key);
        }
        proof {
            assert(keys@ =~= all.unref());
            assert forall|key: ConnId| keys@.contains(key) <==> self@.dom().contains(key) by {
                assert(all.unref().to_set().contains(key) <==> self.mailboxes@.dom().contains(key));
            }
            assert forall|i: int, j: int|
                0 <= i < keys@.len() && 0 <= j < keys@.len() && i != j implies keys@[i]
                != keys@[j] by {
                assert(all[i] != all[j]);
            }
        }
        keys
    }

    /// How many messages wait for the connection.
    pub fn pending(&self, key: &ConnId) -> (count: usize)
        ensures
            count == (if self@.dom().contains(*key) {
                self@[*key].len()
            } else {
                0
            }),
    {
        broadcast use vstd::std_specs::hash::group_hash_axioms;

        match self.mailboxes.get(key) {
            Some(queue) => queue.len(),
            None => 0,
        }
    }

    /// Admits a connection: it gets an empty mailbox under its key. A mailbox that was
    /// there under this key is dropped with what it held.
    pub fn enter(&mut self, key: ConnId)
        ensures
            final(self)@ == old(self)@.insert(key, Seq::empty()),
    {
        broadcast use vstd::std_specs::hash::group_hash_axioms;

        self.mailboxes.insert(key, Vec::new());
        assert(self@ =~= old(self)@.insert(key, Seq::empty()));
    }

    /// Removes a connection with its mailbox and what it holds.
    pub fn leave(&mut self, key: &ConnId)
        ensures
            final(self)@ == old(self)@.remove(*key),
    {
        broadcast use vstd::std_specs::hash::group_hash_axioms;

        self.mailboxes.remove(key);
        assert(self@ =~= old(self)@.remove(*key));
    }

    /// Takes what waits for the connection out of its mailbox, oldest first.
    pub fn take(&mut self, key: &ConnId) -> (messages: Vec<PeerMessage>)
        ensures
            old(self)@.dom().contains(*key) ==> messages@ == old(self)@[*key] && final(self)@ == old(
                self,
            )@.insert(*key, Seq::empty()),
            !old(self)@.dom().contains(*key) ==> messages@.len() == 0 && final(self)@ == old(self)@,
    {
        broadcast use vstd::std_specs::hash::group_hash_axioms;

        match self.mailboxes.remove(key) {
            Some(messages) => {
                self.mailboxes.insert(*key, Vec::new());
                assert(self@ =~= old(self)@.insert(*key, Seq::empty()));
                messages
            },
            None => {
                assert(self@ =~= old(self)@);
                Vec::new()
            },
        }
    }

    /// Puts the message into the mailbox of the connection, behind what waits there.
    /// Nothing happens where the connection is not in the room.
    pub fn send_to(&mut self, key: &ConnId, msg: PeerMessage)
        ensures
            final(self)@ == (if old(self)@.dom().contains(*key) {
                old(self)@.insert(*key, old(self)@[*key].push(msg))
            } else {
                old(self)@
            }),
    {
        broadcast use vstd::std_specs::hash::group_hash_axioms;

        match self.mailboxes.remove(key) {
            Some(mut queue) => {
                queue.push(msg);
                self.mailboxes.insert(*key, queue);
                assert(self@ =~= old(self)@.insert(*key, old(self)@[*key].push(msg)));
            },
            None => {
                assert(self@ =~= old(self)@);
            },
        }
    }

    /// Asks `message` for each connection in the room what to send it, and puts the answer,
    /// where there is one, into its mailbox, behind what waits there.
    pub fn send<F>(&mut self, message: F) where F: Fn(&ConnId) -> Option<PeerMessage>
        requires
            forall|key: ConnId| old(self)@.dom().contains(key) ==> call_requires(message, (&key,)),
        ensures
            final(self)@.dom() == old(self)@.dom(),
            forall|key: ConnId| #[trigger]
                final(self)@.dom().contains(key) ==> answered(
                    message,
                    key,
                    old(self)@[key],
                    final(self)@[key],
                ),
    {
        let keys = self.keys();
        let mut i: usize = 0;
        while i < keys.len()
            invariant
                i <= keys@.len(),
                keys@.no_duplicates(),
                self@.dom() == old(self)@.dom(),
                forall|key: ConnId| keys@.contains(key) <==> self@.dom().contains(key),
                forall|key: ConnId| self@.dom().contains(key) ==> call_requires(message, (&key,)),
                forall|j: int| i <= j < keys@.len() ==> self@[#[trigger] keys@[j]] == old(self)@[keys@[j]],
                forall|j: int|
                    0 <= j < i ==> answered(
                        message,
                        #[trigger] keys@[j],
                        old(self)@[keys@[j]],
                        self@[keys@[j]],
                    ),
            decreases keys@.len() - i,
        {
            let key = keys[i];
            let ghost before = self@;
            assert(keys@.contains(key));
            let answer = message(&key);
            if let Some(msg) = answer {
                self.send_to(&key, msg);
            }
            proof {
                assert(self@.dom() =~= before.dom());
                assert(answered(message, key, old(self)@[key], self@[key]));
                assert forall|j: int| 0 <= j < keys@.len() && j != i implies self@[#[trigger] keys@[j]]
                    == before[keys@[j]] by {
                    assert(keys@[j] != keys@[i as int]);
                }
            }
            i += 1;
        }
        proof {
            assert forall|key: ConnId| #[trigger] self@.dom().contains(key) implies answered(
                message,
                key,
                old(self)@[key],
                self@[key],
            ) by {
                assert(keys@.contains(key));
                let j = keys@.index_of(key);
                assert(keys@[j] == key);
            }
        }
    }
}

/// Whether a mailbox that held `before` holds `after` once `message` has been asked what
/// to send to `key`: the answer behind what it held, or what it held where there was none.
pub open spec fn answered<PeerMessage, F: Fn(&ConnId) -> Option<PeerMessage>>(
    message: F,
    key: ConnId,
    before: Seq<PeerMessage>,
    after: Seq<PeerMessage>,
) -> bool {
    exists|answer: Option<PeerMessage>|
        {
            &&& #[trigger] call_ensures(message, (&key,), answer)
            &&& after == match answer {
                Some(msg) => before.push(msg),
                None => before,
            }
        }
}

/// Whether a mailbox that held `before` holds `after` once a copy of `msg` has been put
/// into it.
pub open spec fn copied_into<PeerMessage: Clone>(
    msg: PeerMessage,
    before: Seq<PeerMessage>,
    after: Seq<PeerMessage>,
) -> bool {
    exists|copy: PeerMessage| #[trigger] cloned(msg, copy) && after == before.push(copy)
}

/// Whether a mailbox that held `before` holds `after` once a copy of `msg` has been put
/// into it if `filter` accepts `key`.
pub open spec fn copied_where<PeerMessage: Clone, F: Fn(&ConnId) -> bool>(
    filter: F,
    key: ConnId,
    msg: PeerMessage,
    before: Seq<PeerMessage>,
    after: Seq<PeerMessage>,
) -> bool {
    ||| call_ensures(filter, (&key,), false) && after == before
    ||| call_ensures(filter, (&key,), true) && copied_into(msg, before, after)
}

impl<PeerMessage: Clone> Room<PeerMessage> {
    /// Puts a copy of the message into the mailbox of every connection in the room.
    pub fn broadcast(&mut self, msg: PeerMessage)
        ensures
            final(self)@.dom() == old(self)@.dom(),
            forall|key: ConnId| #[trigger]
                final(self)@.dom().contains(key) ==> copied_into(
                    msg,
                    old(self)@[key],
                    final(self)@[key],
                ),
    {
        let everyone = |key: &ConnId| -> (wanted: bool)
            ensures
                wanted,
            { true };
        self.broadcast_to(everyone, msg);
    }

    /// Puts a copy of the message into the mailbox of every connection in the room that
    /// `filter` accepts.
    pub fn broadcast_to<F>(&mut self, filter: F, msg: PeerMessage) where F: Fn(&ConnId) -> bool
        requires
            forall|key: ConnId| old(self)@.dom().contains(key) ==> call_requires(filter, (&key,)),
        ensures
            final(self)@.dom() == old(self)@.dom(),
            forall|key: ConnId| #[trigger]
                final(self)@.dom().contains(key) ==> copied_where(
                    filter,
                    key,
                    msg,
                    old(self)@[key],
                    final(self)@[key],
                ),
    {
        let keys = self.keys();
        let mut i: usize = 0;
        while i < keys.len()
            invariant
                i <= keys@.len(),
                keys@.no_duplicates(),
                self@.dom() == old(self)@.dom(),
                forall|key: ConnId| keys@.contains(key) <==> self@.dom().contains(key),
                forall|key: ConnId| self@.dom().contains(key) ==> call_requires(filter, (&key,)),
                forall|j: int| i <= j < keys@.len() ==> self@[#[trigger] keys@[j]] == old(self)@[keys@[j]],
                forall|j: int|
                    0 <= j < i ==> copied_where(
                        filter,
                        #[trigger] keys@[j],
                        msg,
                        old(self)@[keys@[j]],
                        self@[keys@[j]],
                    ),
            decreases keys@.len() - i,
        {
            let key = keys[i];
            let ghost before = self@;
            assert(keys@.contains(key));
            let wanted = filter(&key);
            if wanted {
                let copy = msg.clone();
                assert(cloned(msg, copy));
                self.send_to(&key, copy);
                assert(copied_into(msg, old(self)@[key], self@[key]));
            }
            proof {
                assert(self@.dom() =~= before.dom());
                assert(copied_where(filter, key, msg, old(self)@[key], self@[key]));
                assert forall|j: int| 0 <= j < keys@.len() && j != i implies self@[#[trigger] keys@[j]]
                    == before[keys@[j]] by {
                    assert(keys@[j] != keys@[i as int]);
                }
            }
            i += 1;
        }
        proof {
            assert forall|key: ConnId| #[trigger] self@.dom().contains(key) implies copied_where(
                filter,
                key,
                msg,
                old(self)@[key],
                self@[key],
            ) by {
                assert(keys@.contains(key));
                let j = keys@.index_of(key);
                assert(keys@[j] == key);
            }
        }
    }
}

} // verus!
