//! Registry of idle sessions with exclusive checkout and checkin.
//!
//! A session is either idle (held by the registry) or attached (held by
//! the caller that checked it out); never both. `checkout` removes the
//! matching session atomically from the idle set, `checkin` returns it.

use vstd::prelude::*;

verus! {

/// Identifying data of a session, fixed when the connection is accepted.
pub struct SessionMetadata {
    /// Unique positive identifier, assigned externally.
    pub id: usize,
    /// Textual network address of the remote endpoint.
    pub remote_address: String,
}

/// An idle or attached session: its metadata plus an opaque handle to the
/// live connection. The handle is issued by the embedding I/O layer; the
/// registry never interprets or closes it.
pub struct Session {
    /// Identifying metadata, immutable for the session's lifetime.
    pub metadata: SessionMetadata,
    /// Opaque handle to the underlying bidirectional byte stream.
    pub stream: u64,
}

/// Why a registry operation failed.
pub enum RegistryError {
    /// No idle session with the requested id exists.
    NotFound,
}

/// True if some idle session in `s` carries the id.
pub open spec fn has_session_with_id(s: Seq<Session>, id: usize) -> bool {
    exists|i: int| 0 <= i < s.len() && s[i].metadata.id == id
}

/// Index of the last session in `s` whose id matches, or -1 if none does.
/// The scan keeps the last match, so with duplicate ids (unsupported
/// upstream, but not ruled out here) the most recently inserted one wins.
pub open spec fn last_index_with_id(s: Seq<Session>, id: usize) -> int
    decreases s.len(),
{
    if s.len() == 0 {
        -1
    } else if s[s.len() - 1].metadata.id == id {
        s.len() - 1
    } else {
        last_index_with_id(s.drop_last(), id)
    }
}

/// No two idle sessions share an id.
pub open spec fn unique_ids(s: Seq<Session>) -> bool {
    forall|i: int, j: int|
        0 <= i < s.len() && 0 <= j < s.len() && i != j ==> s[i].metadata.id != s[j].metadata.id
}

/// `last_index_with_id` finds a match exactly when one exists, points at a
/// matching session, and no later session matches.
pub proof fn lemma_last_index_with_id(s: Seq<Session>, id: usize)
    ensures
        last_index_with_id(s, id) >= 0 <==> has_session_with_id(s, id),
        last_index_with_id(s, id) >= 0 ==> {
            &&& last_index_with_id(s, id) < s.len()
            &&& s[last_index_with_id(s, id)].metadata.id == id
            &&& forall|j: int|
                last_index_with_id(s, id) < j < s.len() ==> s[j].metadata.id != id
        },
    decreases s.len(),
{
    if s.len() == 0 {
    } else if s[s.len() - 1].metadata.id == id {
    } else {
        lemma_last_index_with_id(s.drop_last(), id);
        assert(forall|i: int| 0 <= i < s.len() - 1 ==> s.drop_last()[i] == s[i]);
        if has_session_with_id(s, id) {
            let w = choose|i: int| 0 <= i < s.len() && s[i].metadata.id == id;
            assert(w < s.len() - 1);
            assert(s.drop_last()[w].metadata.id == id);
        }
    }
}

/// Cardinality is conserved across an attach cycle: a successful
/// checkout removes exactly one session, and checking one back in
/// restores both the count and the exact collection of sessions the
/// registry held before the attach.
pub proof fn lemma_checkout_checkin_conserves(s: Seq<Session>, id: usize)
    requires
        has_session_with_id(s, id),
    ensures
        ({
            let i = last_index_with_id(s, id);
            &&& s.remove(i).len() + 1 == s.len()
            &&& s.remove(i).push(s[i]).to_multiset() == s.to_multiset()
        }),
{
    lemma_last_index_with_id(s, id);
    let i = last_index_with_id(s, id);
    s.to_multiset_ensures();
    s.remove(i).to_multiset_ensures();
    assert(s.to_multiset().count(s[i]) > 0) by {
        assert(s.contains(s[i]));
    }
    assert(s.remove(i).push(s[i]).to_multiset() =~= s.to_multiset().remove(s[i]).insert(s[i]));
    assert(s.to_multiset().remove(s[i]).insert(s[i]) =~= s.to_multiset());
}

/// Checkout is exclusive: once a checkout for an id has succeeded, no
/// idle session with that id remains, so a second checkout of the same
/// id cannot also succeed before the session is checked back in.
pub proof fn lemma_checkout_is_exclusive(s: Seq<Session>, id: usize)
    requires
        unique_ids(s),
        has_session_with_id(s, id),
    ensures
        !has_session_with_id(s.remove(last_index_with_id(s, id)), id),
{
    lemma_last_index_with_id(s, id);
    let i = last_index_with_id(s, id);
    let r = s.remove(i);
    assert forall|j: int| 0 <= j < r.len() implies r[j].metadata.id != id by {
        if j < i {
            assert(r[j] == s[j]);
        } else {
            assert(r[j] == s[j + 1]);
        }
    }
}

/// Detach preserves metadata: when the session checked back in carries
/// the metadata of the one checked out, the registry again holds a
/// session whose id and address are identical to before the attach.
pub proof fn lemma_detach_preserves_metadata(s: Seq<Session>, id: usize, restored: Session)
    requires
        has_session_with_id(s, id),
        restored.metadata == s[last_index_with_id(s, id)].metadata,
    ensures
        ({
            let after = s.remove(last_index_with_id(s, id)).push(restored);
            &&& has_session_with_id(after, id)
            &&& exists|j: int|
                0 <= j < after.len() && (#[trigger] after[j]).metadata == s[last_index_with_id(
                    s,
                    id,
                )].metadata
        }),
{
    lemma_last_index_with_id(s, id);
    let i = last_index_with_id(s, id);
    let after = s.remove(i).push(restored);
    assert(after[after.len() - 1] == restored);
}

/// Store of the idle sessions, in insertion order.
pub struct Registry {
    sessions: Vec<Session>,
}

impl Registry {
    /// The idle sessions the registry holds, oldest first.
    pub closed spec fn view(&self) -> Seq<Session> {
        self.sessions@
    }

    /// An empty registry.
    pub fn new() -> (r: Registry)
        ensures
            r@ == Seq::<Session>::empty(),
    {
        Registry { sessions: Vec::new() }
    }

    /// Number of idle sessions.
    pub fn len(&self) -> (n: usize)
        ensures
            n == self@.len(),
    {
        self.sessions.len()
    }

    /// Returns the session back to the idle set. The caller guarantees the
    /// session is not already present; the registry appends it unchecked.
    pub fn checkin(&mut self, session: Session)
        ensures
            final(self)@ == old(self)@.push(session),
    {
        self.sessions.push(session);
    }

    /// Atomically removes and returns the idle session with the given id;
    /// with duplicate ids the last match leaves. Fails with `NotFound`,
    /// and leaves the registry unmodified, exactly when no idle session
    /// has that id.
    pub fn checkout(&mut self, id: usize) -> (r: Result<Session, RegistryError>)
        ensures
            match r {
                Ok(session) => {
                    &&& has_session_with_id(old(self)@, id)
                    &&& session == old(self)@[last_index_with_id(old(self)@, id)]
                    &&& final(self)@ == old(self)@.remove(last_index_with_id(old(self)@, id))
                },
                Err(e) => {
                    &&& e is NotFound
                    &&& !has_session_with_id(old(self)@, id)
                    &&& final(self)@ == old(self)@
                },
            },
    {
        let ghost s = self.sessions@;
        let mut index: Option<usize> = None;
        let mut i: usize = 0;
        while i < self.sessions.len()
            invariant
                self == old(self),
                i <= s.len(),
                s == self.sessions@,
                match index {
                    Some(k) => k == last_index_with_id(s.take(i as int), id),
                    None => last_index_with_id(s.take(i as int), id) == -1,
                },
            decreases s.len() - i,
        {
            proof {
                assert(s.take(i + 1).drop_last() =~= s.take(i as int));
            }
            if self.sessions[i].metadata.id == id {
                index = Some(i);
            }
            i += 1;
        }
        proof {
            assert(s.take(s.len() as int) =~= s);
            lemma_last_index_with_id(s, id);
        }
        match index {
            None => Err(RegistryError::NotFound),
            Some(k) => Ok(self.sessions.remove(k)),
        }
    }

    /// Snapshot of the metadata of every idle session, in registry order.
    pub fn list(&self) -> (r: Vec<SessionMetadata>)
        ensures
            r@.len() == self@.len(),
            forall|i: int|
                0 <= i < self@.len() ==> {
                    &&& (#[trigger] r@[i]).id == self@[i].metadata.id
                    &&& r@[i].remote_address@ == self@[i].metadata.remote_address@
                },
    {
        let mut out: Vec<SessionMetadata> = Vec::new();
        let mut i: usize = 0;
        while i < self.sessions.len()
            invariant
                i <= self.sessions@.len(),
                out@.len() == i,
                forall|j: int|
                    0 <= j < i ==> {
                        &&& (#[trigger] out@[j]).id == self.sessions@[j].metadata.id
                        &&& out@[j].remote_address@ == self.sessions@[j].metadata.remote_address@
                    },
            decreases self.sessions@.len() - i,
        {
            let m = &self.sessions[i].metadata;
            out.push(SessionMetadata { id: m.id, remote_address: m.remote_address.clone() });
            i += 1;
        }
        out
    }
}

} // verus!
