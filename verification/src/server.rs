//! The connection registry: the process-wide directory of live sessions.
//! It maps each registry-assigned session id to an addressable handle that
//! can take a disconnect notification. Entries come in only through a
//! `Connect` request, whose id is drawn at random and retried until it is
//! free of every currently-live id, and leave only through a `Disconnect`
//! request; removing an absent id is a no-op. The registry neither
//! broadcasts nor enumerates: it is passive bookkeeping.

use std::collections::HashMap;
use vstd::prelude::*;
use vstd::std_specs::hash::obeys_key_model;

verus! {

broadcast use vstd::std_specs::hash::group_hash_axioms;

/// How many random draws a `Connect` makes before giving up on finding a
/// free id.
pub const MAX_ID_ATTEMPTS: u64 = 64;

/// The registry of live sessions, keyed by registry-assigned id.
pub struct WebSocketServer<H> {
    sessions: HashMap<usize, H>,
}

/// A new session asks to be registered, handing the registry the handle
/// under which it can be told to disconnect.
pub struct Connect<H> {
    pub addr: H,
}

/// A session is gone and its entry must go.
pub struct Disconnect {
    pub id: usize,
}

/// Relies on rand::random: an arbitrary machine word; nothing is promised
/// of its value.
#[verifier::external_body]
fn random_id() -> usize {
    rand::random::<u64>() as usize
}

impl<H> View for WebSocketServer<H> {
    type V = Map<usize, H>;

    /// The directory as a map from session id to handle.
    closed spec fn view(&self) -> Map<usize, H> {
        self.sessions@
    }
}

impl<H> WebSocketServer<H> {
    /// Handles a `Connect`: allocates a fresh id that no live session
    /// holds, stores the handle under it, and hands the id back. On an
    /// empty directory no draw can collide, so registration succeeds; only
    /// when every draw collides with a live id does it fail, and then the
    /// directory is untouched.
    pub fn handle_connect(&mut self, msg: Connect<H>) -> (r: Option<usize>)
        ensures
            match r {
                Option::Some(id) => !old(self)@.contains_key(id) && final(self)@ == old(
                    self,
                )@.insert(id, msg.addr),
                Option::None => final(self)@ == old(self)@,
            },
            old(self)@.dom().len() == 0 ==> r is Some,
    {
        proof {
            assert(obeys_key_model::<usize>());
        }
        let mut attempts: u64 = 0;
        while attempts < MAX_ID_ATTEMPTS
            invariant
                self@ == old(self)@,
                old(self)@.dom().len() == 0 ==> attempts == 0,
            decreases MAX_ID_ATTEMPTS - attempts,
        {
            let id = random_id();
            if !self.sessions.contains_key(&id) {
                self.sessions.insert(id, msg.addr);
                return Some(id);
            }
            proof {
                // A collision proves the directory was not empty.
                assert(self@.dom().contains(id));
                assert(self@.dom().finite());
                assert(self@.dom().remove(id).len() == self@.dom().len() - 1);
            }
            attempts = attempts + 1;
        }
        None
    }

    /// Handles a `Disconnect`: the entry of that id leaves the directory;
    /// an absent id is a no-op, not an error.
    pub fn handle_disconnect(&mut self, msg: Disconnect)
        ensures
            final(self)@ == old(self)@.remove(msg.id),
    {
        proof {
            assert(obeys_key_model::<usize>());
        }
        self.sessions.remove(&msg.id);
        proof {
            if !old(self)@.contains_key(msg.id) {
                assert(self@ =~= old(self)@.remove(msg.id));
            }
        }
    }

    /// How many sessions are registered.
    pub fn len(&self) -> (n: usize)
        ensures
            n == self@.dom().len(),
    {
        self.sessions.len()
    }

    /// Whether a session id is registered.
    pub fn contains(&self, id: usize) -> (b: bool)
        ensures
            b == self@.contains_key(id),
    {
        self.sessions.contains_key(&id)
    }
}

impl<H> Default for WebSocketServer<H> {
    /// An empty registry.
    fn default() -> (r: Self)
        ensures
            r@ == Map::<usize, H>::empty(),
    {
        WebSocketServer { sessions: HashMap::new() }
    }
}

} // verus!
