//! The session registry: the authoritative mapping from identity to the live
//! session registered under it. Registration, lookup, removal, routing into a
//! session's outbound queue, and the output adapter's draining step all act on
//! this one structure, mirroring the single guarded map they share.

use vstd::prelude::*;

use crate::message::{ChatMessage, MessageView};

verus! {

/// Spec-level image of one live session: its server-assigned id and the
/// messages routed to it and not yet drained, oldest first.
pub ghost struct SessionView {
    pub sid: u64,
    pub outbox: Seq<MessageView>,
}

/// One live session: the identity it registered under, a server-assigned id
/// that distinguishes it from every earlier session, and its outbound queue.
pub struct Session {
    pub identity: String,
    pub sid: u64,
    pub outbox: Vec<ChatMessage>,
}

impl View for Session {
    type V = SessionView;

    open spec fn view(&self) -> SessionView {
        SessionView { sid: self.sid, outbox: self.outbox@.map_values(|m: ChatMessage| m@) }
    }
}

/// What the output adapter's draining step yields: the oldest queued message,
/// nothing yet, or the end of the session's output.
#[derive(Debug)]
pub enum OutputEvent {
    Message(ChatMessage),
    Pending,
    Closed,
}

/// Outcome of routing one message.
#[derive(Debug)]
pub enum RouteOutcome {
    Delivered,
    NotFound,
}

/// The identity -> session mapping. `next_sid` grows past every id ever
/// handed out, so a fresh registration never reuses a live or stale id.
pub struct Registry {
    sessions: Vec<Session>,
    next_sid: u64,
}

impl Registry {
    /// True when some live session is registered under `id`.
    pub closed spec fn has(self, id: Seq<char>) -> bool {
        exists|i: int|
            0 <= i < self.sessions@.len() && self.sessions@[i].identity@ == id
    }

    spec fn index_of(self, id: Seq<char>) -> int {
        choose|i: int|
            0 <= i < self.sessions@.len() && self.sessions@[i].identity@ == id
    }

    /// The session currently registered under `id` (meaningful when `has(id)`).
    pub closed spec fn session_of(self, id: Seq<char>) -> SessionView {
        self.sessions@[self.index_of(id)]@
    }

    /// The id of the session currently registered under `id`.
    pub open spec fn sid_of(self, id: Seq<char>) -> u64 {
        self.session_of(id).sid
    }

    /// The outbound queue of the session currently registered under `id`.
    pub open spec fn outbox_of(self, id: Seq<char>) -> Seq<MessageView> {
        self.session_of(id).outbox
    }

    /// The id the next registration will receive.
    pub closed spec fn next_sid_spec(self) -> u64 {
        self.next_sid
    }

    /// Well-formedness: identities are pairwise distinct (at most one live
    /// session per identity) and every live id is below `next_sid`.
    pub closed spec fn wf(self) -> bool {
        &&& forall|i: int, j: int|
            0 <= i < j < self.sessions@.len() ==> self.sessions@[i].identity@
                != self.sessions@[j].identity@
        &&& forall|i: int|
            0 <= i < self.sessions@.len() ==> (#[trigger] self.sessions@[i].sid)
                < self.next_sid
    }

    /// In a well-formed registry an identity occurs at one index at most, so
    /// any witness index is the index the spec functions read from.
    proof fn lemma_index(self, id: Seq<char>, i: int)
        requires
            self.wf(),
            0 <= i < self.sessions@.len(),
            self.sessions@[i].identity@ == id,
        ensures
            self.has(id),
            self.index_of(id) == i,
            self.session_of(id) == self.sessions@[i]@,
    {
        assert(self.has(id));
        let j = self.index_of(id);
        assert(0 <= j < self.sessions@.len() && self.sessions@[j].identity@ == id);
        if i < j {
            assert(self.sessions@[i].identity@ != self.sessions@[j].identity@);
        }
        if j < i {
            assert(self.sessions@[j].identity@ != self.sessions@[i].identity@);
        }
    }

    /// An empty registry: nobody is reachable.
    pub fn new() -> (r: Registry)
        ensures
            r.wf(),
            forall|k: Seq<char>| !r.has(k),
            r.next_sid_spec() == 0,
    {
        Registry { sessions: Vec::new(), next_sid: 0 }
    }

    /// Whether a fresh session id is still available (a machine limit, not a
    /// protocol one).
    pub fn can_register(&self) -> (r: bool)
        ensures
            r == (self.next_sid_spec() < u64::MAX),
    {
        self.next_sid < u64::MAX
    }

    /// Index of the session registered under `identity`, if any.
    fn find(&self, identity: &String) -> (r: Option<usize>)
        ensures
            r matches Some(i) ==> i < self.sessions@.len()
                && self.sessions@[i as int].identity@ == identity@,
            r is None ==> !self.has(identity@),
    {
        let n = self.sessions.len();
        let mut i: usize = 0;
        while i < n
            invariant
                n == self.sessions@.len(),
                i <= n,
                forall|j: int| 0 <= j < i ==> self.sessions@[j].identity@ != identity@,
            decreases n - i,
        {
            if self.sessions[i].identity == *identity {
                return Some(i);
            }
            i = i + 1;
        }
        None
    }
}

/// How `register` changes the registry: the identity maps to a brand-new
/// session with an empty queue and the next fresh id, superseding whatever
/// was there, and every other identity's session is untouched.
pub open spec fn register_post(pre: Registry, post: Registry, id: Seq<char>, sid: u64) -> bool {
    &&& post.has(id)
    &&& post.sid_of(id) == sid
    &&& post.outbox_of(id) == Seq::<MessageView>::empty()
    &&& sid == pre.next_sid_spec()
    &&& post.next_sid_spec() == pre.next_sid_spec() + 1
    &&& forall|k: Seq<char>| k != id ==> post.has(k) == pre.has(k)
    &&& forall|k: Seq<char>|
        k != id && pre.has(k) ==> post.session_of(k) == pre.session_of(k)
}

/// How `unregister` changes the registry: the identity becomes unreachable
/// and every other identity's session is untouched. Removing an absent
/// identity changes nothing.
pub open spec fn unregister_post(pre: Registry, post: Registry, id: Seq<char>) -> bool {
    &&& !post.has(id)
    &&& post.next_sid_spec() == pre.next_sid_spec()
    &&& forall|k: Seq<char>| k != id ==> post.has(k) == pre.has(k)
    &&& forall|k: Seq<char>|
        k != id && pre.has(k) ==> post.session_of(k) == pre.session_of(k)
}

/// How routing one message changes the registry: it is delivered exactly when
/// the target is registered, in which case it is appended to the target's
/// queue and nothing else changes; an unreachable target leaves the registry
/// exactly as it was.
pub open spec fn route_post(pre: Registry, post: Registry, m: MessageView, delivered: bool) -> bool {
    &&& delivered == pre.has(m.to)
    &&& delivered ==> {
        &&& post.has(m.to)
        &&& post.sid_of(m.to) == pre.sid_of(m.to)
        &&& post.outbox_of(m.to) == pre.outbox_of(m.to).push(m)
        &&& post.next_sid_spec() == pre.next_sid_spec()
        &&& forall|k: Seq<char>| k != m.to ==> post.has(k) == pre.has(k)
        &&& forall|k: Seq<char>|
            k != m.to && pre.has(k) ==> post.session_of(k) == pre.session_of(k)
    }
    &&& !delivered ==> post == pre
}

/// How the output adapter's step changes the registry: polling a session that
/// was superseded or removed reports the stream closed; a registered session
/// with an empty queue has nothing yet; otherwise the oldest queued message
/// comes out and only that queue shrinks by its head.
pub open spec fn poll_post(
    pre: Registry,
    post: Registry,
    id: Seq<char>,
    sid: u64,
    ev: OutputEvent,
) -> bool {
    if !pre.has(id) || pre.sid_of(id) != sid {
        &&& ev is Closed
        &&& post == pre
    } else if pre.outbox_of(id).len() == 0 {
        &&& ev is Pending
        &&& post == pre
    } else {
        &&& ev matches OutputEvent::Message(m) && m@ == pre.outbox_of(id)[0]
        &&& post.has(id)
        &&& post.sid_of(id) == sid
        &&& post.outbox_of(id) == pre.outbox_of(id).drop_first()
        &&& post.next_sid_spec() == pre.next_sid_spec()
        &&& forall|k: Seq<char>| k != id ==> post.has(k) == pre.has(k)
        &&& forall|k: Seq<char>|
            k != id && pre.has(k) ==> post.session_of(k) == pre.session_of(k)
    }
}

impl Registry {
    /// Create a fresh session for `identity` with an empty outbound queue,
    /// superseding any session already registered under it (last writer
    /// wins), and return the new session's id.
    pub fn register(&mut self, identity: String) -> (sid: u64)
        requires
            old(self).wf(),
            old(self).next_sid_spec() < u64::MAX,
        ensures
            final(self).wf(),
            register_post(*old(self), *final(self), identity@, sid),
    {
        self.unregister(&identity);
        let ghost mid = *self;
        let sid = self.next_sid;
        self.next_sid = self.next_sid + 1;
        self.sessions.push(Session { identity, sid, outbox: Vec::new() });
        proof {
            self.lemma_register_frame(mid, sid);
            assert(self.outbox_of(self.sessions@.last().identity@)
                =~= Seq::<MessageView>::empty());
        }
        sid
    }

    /// The new last element carries the registered identity; everything
    /// before it is the old registry's content.
    proof fn lemma_register_frame(self, mid: Registry, sid: u64)
        requires
            mid.wf(),
            mid.next_sid < u64::MAX,
            sid == mid.next_sid,
            self.next_sid == mid.next_sid + 1,
            self.sessions@.len() == mid.sessions@.len() + 1,
            self.sessions@ == mid.sessions@.push(self.sessions@.last()),
            self.sessions@.last().sid == sid,
            self.sessions@.last().outbox@.len() == 0,
            !mid.has(self.sessions@.last().identity@),
        ensures
            self.wf(),
            self.has(self.sessions@.last().identity@),
            self.session_of(self.sessions@.last().identity@) == self.sessions@.last()@,
            forall|k: Seq<char>|
                k != self.sessions@.last().identity@ ==> self.has(k) == mid.has(k),
            forall|k: Seq<char>|
                k != self.sessions@.last().identity@ && mid.has(k) ==> self.session_of(k)
                    == mid.session_of(k),
    {
        let n = mid.sessions@.len() as int;
        let id = self.sessions@.last().identity@;
        assert forall|i: int| 0 <= i < n implies self.sessions@[i] == mid.sessions@[i] by {
            assert(mid.sessions@.push(self.sessions@.last())[i] == mid.sessions@[i]);
        }
        // uniqueness: no earlier index carries the new identity
        assert forall|i: int| 0 <= i < n implies self.sessions@[i].identity@ != id by {
            if self.sessions@[i].identity@ == id {
                assert(mid.has(id));
            }
        }
        assert(self.wf());
        self.lemma_index(id, n);
        assert forall|k: Seq<char>| k != id implies self.has(k) == mid.has(k) by {
            if mid.has(k) {
                let i = choose|i: int|
                    0 <= i < mid.sessions@.len() && mid.sessions@[i].identity@ == k;
                assert(self.sessions@[i].identity@ == k);
            }
            if self.has(k) {
                let i = choose|i: int|
                    0 <= i < self.sessions@.len() && self.sessions@[i].identity@ == k;
                assert(i < n);
                assert(mid.has(k));
            }
        }
        assert forall|k: Seq<char>| k != id && mid.has(k) implies self.session_of(k)
            == mid.session_of(k) by {
            let i = choose|i: int|
                0 <= i < mid.sessions@.len() && mid.sessions@[i].identity@ == k;
            mid.lemma_index(k, i);
            self.lemma_index(k, i);
        }
    }

    /// Resolve `identity` to its live session's id, if one is registered.
    pub fn lookup(&self, identity: &String) -> (r: Option<u64>)
        requires
            self.wf(),
        ensures
            r is Some <==> self.has(identity@),
            r matches Some(sid) ==> sid == self.sid_of(identity@),
    {
        match self.find(identity) {
            Some(i) => {
                proof {
                    self.lemma_index(identity@, i as int);
                }
                Some(self.sessions[i].sid)
            },
            None => None,
        }
    }

    /// Remove `identity`'s registration, if any; a no-op for an absent
    /// identity.
    pub fn unregister(&mut self, identity: &String)
        requires
            old(self).wf(),
        ensures
            final(self).wf(),
            unregister_post(*old(self), *final(self), identity@),
    {
        match self.find(identity) {
            Some(i) => {
                self.sessions.remove(i);
                proof {
                    old(self).lemma_remove_frame(*self, identity@, i as int);
                }
            },
            None => {},
        }
    }

    /// Removing the one index that carries `id` keeps every other session,
    /// under an index shifted down by at most one.
    proof fn lemma_remove_frame(self, post: Registry, id: Seq<char>, i: int)
        requires
            self.wf(),
            0 <= i < self.sessions@.len(),
            self.sessions@[i].identity@ == id,
            post.next_sid == self.next_sid,
            post.sessions@ == self.sessions@.remove(i),
        ensures
            post.wf(),
            unregister_post(self, post, id),
    {
        let n = self.sessions@.len() as int;
        self.sessions@.remove_ensures(i);
        assert(post.sessions@.len() == n - 1);
        // each post index maps to a pre index other than i
        assert forall|j: int| 0 <= j < n - 1 implies #[trigger] post.sessions@[j]
            == self.sessions@[if j < i { j } else { j + 1 }] by {}
        assert forall|j: int| 0 <= j < n - 1 implies #[trigger] post.sessions@[j].identity@
            != id by {
            let jj: int = if j < i { j } else { j + 1 };
            if jj != i {
                if jj < i {
                    assert(self.sessions@[jj].identity@ != self.sessions@[i].identity@);
                } else {
                    assert(self.sessions@[i].identity@ != self.sessions@[jj].identity@);
                }
            }
        }
        assert(!post.has(id));
        assert(post.wf()) by {
            assert forall|a: int, b: int| 0 <= a < b < n - 1 implies post.sessions@[a].identity@
                != post.sessions@[b].identity@ by {
                let aa: int = if a < i { a } else { a + 1 };
                let bb: int = if b < i { b } else { b + 1 };
                assert(post.sessions@[a] == self.sessions@[aa]);
                assert(post.sessions@[b] == self.sessions@[bb]);
                assert(self.sessions@[aa].identity@ != self.sessions@[bb].identity@);
            }
            assert forall|a: int| 0 <= a < n - 1 implies (#[trigger] post.sessions@[a].sid)
                < post.next_sid by {
                let aa: int = if a < i { a } else { a + 1 };
                assert(post.sessions@[a] == self.sessions@[aa]);
            }
        }
        assert forall|k: Seq<char>| k != id implies post.has(k) == self.has(k) by {
            if self.has(k) {
                let a = choose|a: int|
                    0 <= a < self.sessions@.len() && self.sessions@[a].identity@ == k;
                let b: int = if a < i { a } else { a - 1 };
                assert(a != i);
                assert(post.sessions@[b] == self.sessions@[a]);
                assert(post.has(k));
            }
            if post.has(k) {
                let b = choose|b: int|
                    0 <= b < post.sessions@.len() && post.sessions@[b].identity@ == k;
                let a: int = if b < i { b } else { b + 1 };
                assert(post.sessions@[b] == self.sessions@[a]);
                assert(self.has(k));
            }
        }
        assert forall|k: Seq<char>| k != id && self.has(k) implies post.session_of(k)
            == self.session_of(k) by {
            let a = choose|a: int|
                0 <= a < self.sessions@.len() && self.sessions@[a].identity@ == k;
            let b: int = if a < i { a } else { a - 1 };
            assert(a != i);
            assert(post.sessions@[b] == self.sessions@[a]);
            self.lemma_index(k, a);
            post.lemma_index(k, b);
        }
    }

    /// Resolve `msg.to` and append the message to that session's outbound
    /// queue; an unregistered target is reported, never an error that could
    /// disturb the caller or any other session.
    pub fn route(&mut self, msg: ChatMessage) -> (outcome: RouteOutcome)
        requires
            old(self).wf(),
        ensures
            final(self).wf(),
            route_post(*old(self), *final(self), msg@, outcome is Delivered),
    {
        let ghost m = msg@;
        match self.find(&msg.to) {
            Some(i) => {
                proof {
                    old(self).lemma_index(m.to, i as int);
                }
                self.sessions[i].outbox.push(msg);
                proof {
                    old(self).lemma_update_frame(*self, m.to, i as int);
                    assert(self.sessions@[i as int]@.outbox
                        =~= old(self).sessions@[i as int]@.outbox.push(m));
                }
                RouteOutcome::Delivered
            },
            None => RouteOutcome::NotFound,
        }
    }

    /// Replacing the session at the one index that carries `id` with another
    /// session of the same identity and id leaves every other identity's
    /// session as it was.
    proof fn lemma_update_frame(self, post: Registry, id: Seq<char>, i: int)
        requires
            self.wf(),
            0 <= i < self.sessions@.len(),
            self.sessions@[i].identity@ == id,
            post.next_sid == self.next_sid,
            post.sessions@.len() == self.sessions@.len(),
            post.sessions@ == self.sessions@.update(i, post.sessions@[i]),
            post.sessions@[i].identity@ == id,
            post.sessions@[i].sid == self.sessions@[i].sid,
        ensures
            post.wf(),
            post.has(id),
            post.session_of(id) == post.sessions@[i]@,
            self.session_of(id) == self.sessions@[i]@,
            post.sid_of(id) == self.sid_of(id),
            post.next_sid_spec() == self.next_sid_spec(),
            forall|k: Seq<char>| k != id ==> post.has(k) == self.has(k),
            forall|k: Seq<char>|
                k != id && self.has(k) ==> post.session_of(k) == self.session_of(k),
    {
        let n = self.sessions@.len() as int;
        assert forall|j: int| 0 <= j < n && j != i implies #[trigger] post.sessions@[j]
            == self.sessions@[j] by {}
        assert(post.wf()) by {
            assert forall|a: int, b: int| 0 <= a < b < n implies post.sessions@[a].identity@
                != post.sessions@[b].identity@ by {
                assert(post.sessions@[a].identity@ == self.sessions@[a].identity@);
                assert(post.sessions@[b].identity@ == self.sessions@[b].identity@);
            }
            assert forall|a: int| 0 <= a < n implies (#[trigger] post.sessions@[a].sid)
                < post.next_sid by {
                assert(post.sessions@[a].sid == self.sessions@[a].sid);
            }
        }
        self.lemma_index(id, i);
        post.lemma_index(id, i);
        assert forall|k: Seq<char>| k != id implies post.has(k) == self.has(k) by {
            if self.has(k) {
                let a = choose|a: int|
                    0 <= a < self.sessions@.len() && self.sessions@[a].identity@ == k;
                assert(post.sessions@[a].identity@ == k);
            }
            if post.has(k) {
                let a = choose|a: int|
                    0 <= a < post.sessions@.len() && post.sessions@[a].identity@ == k;
                assert(self.sessions@[a].identity@ == k);
            }
        }
        assert forall|k: Seq<char>| k != id && self.has(k) implies post.session_of(k)
            == self.session_of(k) by {
            let a = choose|a: int|
                0 <= a < self.sessions@.len() && self.sessions@[a].identity@ == k;
            self.lemma_index(k, a);
            post.lemma_index(k, a);
        }
    }

    /// The output adapter's step: yield the oldest message queued for the
    /// session registered under `identity` with id `sid`. A session that was
    /// superseded or removed sees its output closed; an empty queue means
    /// nothing yet.
    pub fn poll_output(&mut self, identity: &String, sid: u64) -> (ev: OutputEvent)
        requires
            old(self).wf(),
        ensures
            final(self).wf(),
            poll_post(*old(self), *final(self), identity@, sid, ev),
    {
        let ghost id = identity@;
        match self.find(identity) {
            Some(i) => {
                proof {
                    old(self).lemma_index(id, i as int);
                }
                if self.sessions[i].sid != sid {
                    OutputEvent::Closed
                } else if self.sessions[i].outbox.len() == 0 {
                    OutputEvent::Pending
                } else {
                    let m = self.sessions[i].outbox.remove(0);
                    proof {
                        old(self).lemma_update_frame(*self, id, i as int);
                        assert(self.sessions@[i as int]@.outbox
                            =~= old(self).sessions@[i as int]@.outbox.drop_first());
                    }
                    OutputEvent::Message(m)
                }
            },
            None => OutputEvent::Closed,
        }
    }
}

} // verus!
