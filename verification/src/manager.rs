//! The registry of sessions: a bounded table of sessions by identifier.

use vstd::prelude::*;
use vstd::relations::injective_on;
use vstd::set_lib::lemma_map_size;
use std::collections::HashMap;
use crate::error::Error;
use crate::geometry::Dimensions;
use crate::session::SessionId;

verus! {

/// The limits and defaults of a session manager.
#[derive(Debug, Clone)]
pub struct SessionManagerConfig {
    /// How many sessions may exist at a time.
    pub max_sessions: usize,
    /// Rows of a session that names no size.
    pub default_rows: u16,
    /// Columns of a session that names no size.
    pub default_cols: u16,
}

impl Default for SessionManagerConfig {
    /// Ten sessions of 24 by 80.
    fn default() -> (c: Self)
        ensures
            c.max_sessions == 10,
            c.default_rows == 24,
            c.default_cols == 80,
    {
        SessionManagerConfig { max_sessions: 10, default_rows: 24, default_cols: 80 }
    }
}

impl SessionManagerConfig {
    /// The size of a new session: the size asked for, or the default size.
    pub fn dimensions_for(&self, asked: Option<Dimensions>) -> (d: Dimensions)
        ensures
            d == (match asked {
                Some(a) => a,
                None => Dimensions { rows: self.default_rows, cols: self.default_cols },
            }),
    {
        match asked {
            Some(a) => a,
            None => Dimensions::new(self.default_rows, self.default_cols),
        }
    }
}

/// A bounded table of sessions by identifier.
pub struct SessionRegistry<S> {
    sessions: HashMap<u128, S>,
    max_sessions: usize,
}

/// The sessions held under the bits of their identifiers, by identifier.
spec fn by_id<S>(held: Map<u128, S>) -> Map<SessionId, S> {
    Map::new(|id: SessionId| held.contains_key(id.bits()), |id: SessionId| held[id.bits()])
}

/// The table by identifier has as many entries as the table by bits.
proof fn lemma_by_id_len<S>(held: Map<u128, S>)
    requires
        held.dom().finite(),
    ensures
        by_id(held).dom().finite(),
        by_id(held).dom().len() == held.dom().len(),
{
    let f = |bits: u128| SessionId::of_bits(bits);
    assert(injective_on(f, held.dom())) by {
        assert forall|a: u128, b: u128|
            held.dom().contains(a) && held.dom().contains(b) && #[trigger] f(a) == #[trigger] f(
                b,
            ) implies a == b by {
            SessionId::lemma_bits(SessionId::of_bits(a), a);
            SessionId::lemma_bits(SessionId::of_bits(b), b);
        }
    }
    assert(held.dom().map(f) =~= by_id(held).dom()) by {
        assert forall|id: SessionId| held.dom().map(f).contains(id) <==> by_id(
            held,
        ).dom().contains(id) by {
            if held.dom().map(f).contains(id) {
                let bits = choose|bits: u128| held.dom().contains(bits) && f(bits) == id;
                SessionId::lemma_bits(id, bits);
            }
            if by_id(held).dom().contains(id) {
                SessionId::lemma_bits(id, id.bits());
                assert(held.dom().contains(id.bits()) && f(id.bits()) == id);
            }
        }
    }
    lemma_map_size(held.dom(), by_id(held).dom(), f);
}

/// Putting a session under the bits of an identifier puts it under the identifier.
proof fn lemma_by_id_insert<S>(held: Map<u128, S>, id: SessionId, session: S)
    ensures
        by_id(held.insert(id.bits(), session)) == by_id(held).insert(id, session),
{
    assert forall|other: SessionId|
        by_id(held.insert(id.bits(), session)).dom().contains(other) <==> by_id(held).insert(
            id,
            session,
        ).dom().contains(other) by {
        SessionId::lemma_bits(other, 0);
        SessionId::lemma_bits(id, 0);
    }
    assert forall|other: SessionId|
        by_id(held.insert(id.bits(), session)).dom().contains(other) implies by_id(
            held.insert(id.bits(), session),
        )[other] == by_id(held).insert(id, session)[other] by {
        SessionId::lemma_bits(other, 0);
        SessionId::lemma_bits(id, 0);
    }
    assert(by_id(held.insert(id.bits(), session)) =~= by_id(held).insert(id, session));
}

/// Taking out what stands under the bits of an identifier takes out what stands under
/// the identifier.
proof fn lemma_by_id_remove<S>(held: Map<u128, S>, id: SessionId)
    ensures
        by_id(held.remove(id.bits())) == by_id(held).remove(id),
{
    assert forall|other: SessionId|
        by_id(held.remove(id.bits())).dom().contains(other) <==> by_id(held).remove(
            id,
        ).dom().contains(other) by {
        SessionId::lemma_bits(other, 0);
        SessionId::lemma_bits(id, 0);
    }
    assert(by_id(held.remove(id.bits())) =~= by_id(held).remove(id));
}

impl<S> SessionRegistry<S> {
    /// The sessions of the registry, by identifier.
    pub closed spec fn sessions(&self) -> Map<SessionId, S> {
        by_id(self.sessions@)
    }

    /// The greatest number of sessions that the registry takes.
    pub closed spec fn limit(&self) -> nat {
        self.max_sessions as nat
    }

    /// The number of sessions.
    pub closed spec fn count(&self) -> nat {
        self.sessions@.dom().len()
    }

    /// An empty registry that takes at most `max_sessions` sessions.
    pub fn new(max_sessions: usize) -> (r: Self)
        ensures
            r.sessions() == Map::<SessionId, S>::empty(),
            r.limit() == max_sessions,
            r.count() == 0,
    {
        let r = SessionRegistry { sessions: HashMap::new(), max_sessions };
        proof {
            assert(r.sessions() =~= Map::<SessionId, S>::empty());
        }
        r
    }

    /// The number of sessions.
    pub fn session_count(&self) -> (n: usize)
        ensures
            n == self.count(),
            self.sessions().dom().finite(),
            self.sessions().dom().len() == n,
    {
        proof {
            lemma_by_id_len(self.sessions@);
        }
        self.sessions.len()
    }

    /// Whether there is room for one more session. Where there is none, the error is
    /// session-limit-reached, with the limit.
    pub fn check_room(&self) -> (r: Result<(), Error>)
        ensures
            r is Ok <==> self.count() < self.limit(),
            r matches Err(e) ==> e == Error::SessionLimitReached(self.limit() as usize),
    {
        if self.sessions.len() >= self.max_sessions {
            Err(Error::SessionLimitReached(self.max_sessions))
        } else {
            Ok(())
        }
    }

    /// Puts `session` into the registry under `id`; a session that stood under `id` gives
    /// way to it. Fails with session-limit-reached where the registry is full, and leaves
    /// it as it is.
    pub fn insert(&mut self, id: SessionId, session: S) -> (r: Result<(), Error>)
        ensures
            final(self).limit() == old(self).limit(),
            match r {
                Ok(_) => old(self).count() < old(self).limit() && final(self).sessions() == old(
                    self,
                ).sessions().insert(id, session) && final(self).count() == (if old(
                    self,
                ).sessions().dom().contains(id) {
                    old(self).count()
                } else {
                    old(self).count() + 1
                }),
                Err(e) => old(self).count() >= old(self).limit() && e
                    == Error::SessionLimitReached(old(self).limit() as usize)
                    && final(self).sessions() == old(self).sessions() && final(self).count()
                    == old(self).count(),
            },
    {
        if self.sessions.len() >= self.max_sessions {
            return Err(Error::SessionLimitReached(self.max_sessions));
        }
        proof {
            lemma_by_id_insert(self.sessions@, id, session);
        }
        self.sessions.insert(id.as_u128(), session);
        Ok(())
    }

    /// The session with identifier `id`. Fails with session-not-found exactly where there
    /// is none.
    pub fn get(&self, id: &SessionId) -> (r: Result<&S, Error>)
        ensures
            match r {
                Ok(s) => self.sessions().dom().contains(*id) && *s == self.sessions()[*id],
                Err(e) => !self.sessions().dom().contains(*id) && e == Error::SessionNotFound(
                    *id,
                ),
            },
    {
        let bits = id.as_u128();
        match self.sessions.get(&bits) {
            Some(s) => Ok(s),
            None => Err(Error::SessionNotFound(*id)),
        }
    }

    /// Takes the session with identifier `id` out of the registry. Fails with
    /// session-not-found exactly where there is none.
    pub fn remove(&mut self, id: &SessionId) -> (r: Result<S, Error>)
        ensures
            final(self).limit() == old(self).limit(),
            match r {
                Ok(s) => old(self).sessions().dom().contains(*id) && s == old(
                    self,
                ).sessions()[*id] && final(self).sessions() == old(self).sessions().remove(*id)
                    && final(self).count() == old(self).count() - 1,
                Err(e) => !old(self).sessions().dom().contains(*id) && e
                    == Error::SessionNotFound(*id) && final(self).sessions() == old(
                    self,
                ).sessions() && final(self).count() == old(self).count(),
            },
    {
        let bits = id.as_u128();
        proof {
            lemma_by_id_remove(self.sessions@, *id);
        }
        match self.sessions.remove(&bits) {
            Some(s) => Ok(s),
            None => {
                proof {
                    assert(self.sessions@ =~= old(self).sessions@);
                }
                Err(Error::SessionNotFound(*id))
            },
        }
    }

    /// The identifiers of the sessions, each once, in no particular order.
    pub fn ids(&self) -> (ids: Vec<SessionId>)
        ensures
            ids@.len() == self.count(),
            forall|k: int| 0 <= k < ids@.len() ==> self.sessions().dom().contains(#[trigger] ids@[k]),
            forall|id: SessionId|
                self.sessions().dom().contains(id) ==> exists|k: int|
                    0 <= k < ids@.len() && #[trigger] ids@[k] == id,
            forall|i: int, j: int| 0 <= i < j < ids@.len() ==> ids@[i] != ids@[j],
    {
        let mut ids: Vec<SessionId> = Vec::new();
        let ghost mut keys: Seq<u128> = Seq::empty();
        for k in it: self.sessions.keys()
            invariant
                keys == it.seq().unref().take(it.index() as int),
                ids@.len() == keys.len(),
                forall|j: int| 0 <= j < ids@.len() ==> (#[trigger] ids@[j]).bits() == keys[j],
                it.index() == it.seq().len() ==> keys == it.seq().unref(),
                it.seq().unref().to_set() == self.sessions@.dom(),
                it.seq().no_duplicates(),
                it.seq().len() == self.sessions@.dom().len(),
        {
            ids.push(SessionId::from_u128(*k));
            proof {
                keys = keys.push(*k);
                assert(keys =~= it.seq().unref().take(it.index() + 1));
                assert(it.seq().unref().take(it.seq().len() as int) =~= it.seq().unref());
            }
        }
        proof {
            assert(keys.to_set() == self.sessions@.dom());
            assert(keys.no_duplicates());
            assert forall|k: int| 0 <= k < ids@.len() implies self.sessions().dom().contains(
                #[trigger] ids@[k],
            ) by {
                assert(keys.to_set().contains(keys[k]));
            }
            assert forall|id: SessionId| self.sessions().dom().contains(id) implies exists|k: int|
                0 <= k < ids@.len() && #[trigger] ids@[k] == id by {
                assert(keys.to_set().contains(id.bits()));
                let k = choose|k: int| 0 <= k < keys.len() && keys[k] == id.bits();
                SessionId::lemma_bits(id, 0);
                SessionId::lemma_bits(ids@[k], 0);
                assert(ids@[k] == id);
            }
        }
        ids
    }
}

} // verus!
