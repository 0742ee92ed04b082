use vstd::prelude::*;
use crate::entity::{Entity, EntityKind};

verus! {

/// Index of the first entity in `s` stored under the identifier string
/// `url`, or `-1` when none is.
pub open spec fn find_idx(s: Seq<Entity>, url: Seq<char>) -> int
    decreases s.len(),
{
    if s.len() == 0 {
        -1
    } else if s[0].id.url@ == url {
        0
    } else {
        let r = find_idx(s.drop_first(), url);
        if r < 0 {
            -1
        } else {
            r + 1
        }
    }
}

/// What `find_idx` returns: `-1` exactly when no entity matches, otherwise
/// the first matching index.
pub proof fn lemma_find_idx(s: Seq<Entity>, url: Seq<char>)
    ensures
        find_idx(s, url) == -1 ==> (forall|i: int| 0 <= i < s.len() ==> s[i].id.url@ != url),
        find_idx(s, url) != -1 ==> 0 <= find_idx(s, url) < s.len()
            && s[find_idx(s, url)].id.url@ == url
            && (forall|i: int| 0 <= i < find_idx(s, url) ==> s[i].id.url@ != url),
    decreases s.len(),
{
    if s.len() != 0 && s[0].id.url@ != url {
        lemma_find_idx(s.drop_first(), url);
        let r: int = find_idx(s.drop_first(), url);
        if r == -1 {
            assert forall|i: int| 0 <= i < s.len() implies s[i].id.url@ != url by {
                if i >= 1 {
                    assert(s[i] == s.drop_first()[i - 1]);
                }
            }
        } else {
            assert(s[r + 1] == s.drop_first()[r]);
            assert forall|i: int| 0 <= i < r + 1 implies s[i].id.url@ != url by {
                if i >= 1 {
                    assert(s[i] == s.drop_first()[i - 1]);
                }
            }
        }
    }
}

/// Appending an entity under an identifier that is absent makes it the first
/// (and only) match.
pub proof fn lemma_find_idx_push(s: Seq<Entity>, e: Entity)
    requires
        find_idx(s, e.id.url@) == -1,
    ensures
        find_idx(s.push(e), e.id.url@) == s.len(),
    decreases s.len(),
{
    if s.len() == 0 {
        assert(s.push(e)[0] == e);
    } else {
        lemma_find_idx_push(s.drop_first(), e);
        assert(s.push(e).drop_first() =~= s.drop_first().push(e));
    }
}

/// In-memory model of the persistent store's federation-relevant slice: the
/// entities keyed by identifier, and the set of activity ids that have
/// already been applied (scoped to a retention window managed outside the
/// core).
pub struct Store {
    /// Stored entities; identifiers are pairwise distinct.
    pub entities: Vec<Entity>,
    /// Ids of activities already applied; pairwise distinct.
    pub seen: Vec<String>,
}

impl Store {
    /// Identifier strings of the stored entities, in storage order.
    pub open spec fn ids(&self) -> Seq<Seq<char>> {
        self.entities@.map_values(|e: Entity| e.id.url@)
    }

    /// Views of the applied activity ids.
    pub open spec fn seen_ids(&self) -> Seq<Seq<char>> {
        self.seen@.map_values(|s: String| s@)
    }

    /// At most one stored entity per identifier, and each applied activity
    /// id recorded once.
    pub open spec fn wf(&self) -> bool {
        &&& forall|i: int, j: int|
            0 <= i < j < self.ids().len() ==> self.ids()[i] != self.ids()[j]
        &&& forall|i: int, j: int|
            0 <= i < j < self.seen_ids().len() ==> self.seen_ids()[i] != self.seen_ids()[j]
    }

    /// An empty store.
    pub fn new() -> (r: Store)
        ensures
            r.wf(),
            r.entities@.len() == 0,
            r.seen@.len() == 0,
    {
        Store { entities: Vec::new(), seen: Vec::new() }
    }

    /// Number of stored entities.
    pub fn entity_count(&self) -> (r: usize)
        ensures
            r == self.entities@.len(),
    {
        self.entities.len()
    }

    /// The stored entity under the given identifier string, if any.
    pub fn lookup(&self, url: &String) -> (r: Option<&Entity>)
        ensures
            match r {
                Some(e) => find_idx(self.entities@, url@) >= 0
                    && *e == self.entities@[find_idx(self.entities@, url@)],
                None => find_idx(self.entities@, url@) == -1,
            },
    {
        let n = self.entities.len();
        let mut i: usize = 0;
        while i < n
            invariant
                n == self.entities@.len(),
                i <= n,
                forall|j: int| 0 <= j < i ==> self.entities@[j].id.url@ != url@,
            decreases n - i,
        {
            if self.entities[i].id.url == *url {
                proof {
                    lemma_find_idx(self.entities@, url@);
                }
                return Some(&self.entities[i]);
            }
            i = i + 1;
        }
        proof {
            lemma_find_idx(self.entities@, url@);
        }
        None
    }

    /// `get_by_identifier`: the stored entity under the identifier string,
    /// provided it is stored as the requested kind. `Ok` exactly when the
    /// identifier is stored with a matching kind; `NotFound` when it is
    /// absent; `KindMismatch` when it is stored as another kind.
    pub fn get_by_identifier(&self, url: &String, kind: EntityKind) -> (r: Result<
        &Entity,
        crate::errors::FedError,
    >)
        ensures
            ({
                let f = find_idx(self.entities@, url@);
                match r {
                    Ok(e) => f >= 0 && self.entities@[f].kind == kind && *e == self.entities@[f],
                    Err(err) => if f == -1 {
                        err == crate::errors::FedError::NotFound
                    } else {
                        self.entities@[f].kind != kind && err
                            == crate::errors::FedError::KindMismatch
                    },
                }
            }),
    {
        match self.lookup(url) {
            Some(e) => if e.kind == kind {
                Ok(e)
            } else {
                Err(crate::errors::FedError::KindMismatch)
            },
            None => Err(crate::errors::FedError::NotFound),
        }
    }

    /// Upsert-by-identifier: replaces the entity stored under `e`'s
    /// identifier, or appends `e` when the identifier is absent. Tolerates
    /// races between concurrent resolutions of the same identifier because
    /// re-running it with the same snapshot is a no-op on the key set.
    pub fn upsert(&mut self, e: Entity)
        requires
            old(self).wf(),
        ensures
            final(self).wf(),
            final(self).seen@ == old(self).seen@,
            ({
                let f = find_idx(old(self).entities@, e.id.url@);
                if f >= 0 {
                    final(self).entities@ == old(self).entities@.update(f, e)
                } else {
                    final(self).entities@ == old(self).entities@.push(e)
                }
            }),
    {
        proof {
            lemma_find_idx(self.entities@, e.id.url@);
        }
        let found = self.find_index(&e.id.url);
        match found {
            Some(i) => {
                self.entities.set(i, e);
                proof {
                    let ghost f = i as int;
                    assert(old(self).entities@[f].id.url@ == e.id.url@);
                    assert forall|k: int|
                        0 <= k < self.ids().len() implies self.ids()[k] == old(self).ids()[k] by {
                        assert(self.entities@[k] == if k == f {
                            e
                        } else {
                            old(self).entities@[k]
                        });
                    }
                    assert(self.ids() =~= old(self).ids());
                    assert forall|a: int, b: int|
                        0 <= a < b < self.seen_ids().len() implies self.seen_ids()[a]
                        != self.seen_ids()[b] by {
                        assert(self.seen_ids()[a] == old(self).seen_ids()[a]);
                        assert(self.seen_ids()[b] == old(self).seen_ids()[b]);
                    }
                }
            },
            None => {
                self.entities.push(e);
                proof {
                    let ghost post = self.entities@;
                    let ghost n = post.len() - 1;
                    assert forall|i: int, j: int|
                        0 <= i < j < self.ids().len() implies self.ids()[i] != self.ids()[j] by {
                        if j == n {
                            assert(old(self).ids()[i] == self.ids()[i]);
                        } else {
                            assert(old(self).ids()[i] == self.ids()[i]);
                            assert(old(self).ids()[j] == self.ids()[j]);
                        }
                    }
                    assert forall|a: int, b: int|
                        0 <= a < b < self.seen_ids().len() implies self.seen_ids()[a]
                        != self.seen_ids()[b] by {
                        assert(self.seen_ids()[a] == old(self).seen_ids()[a]);
                        assert(self.seen_ids()[b] == old(self).seen_ids()[b]);
                    }
                }
            },
        }
    }

    /// Index of the entity stored under the identifier string, if any.
    fn find_index(&self, url: &String) -> (r: Option<usize>)
        ensures
            match r {
                Some(i) => i as int == find_idx(self.entities@, url@),
                None => find_idx(self.entities@, url@) == -1,
            },
    {
        let n = self.entities.len();
        let mut i: usize = 0;
        while i < n
            invariant
                n == self.entities@.len(),
                i <= n,
                forall|j: int| 0 <= j < i ==> self.entities@[j].id.url@ != url@,
            decreases n - i,
        {
            if self.entities[i].id.url == *url {
                proof {
                    lemma_find_idx(self.entities@, url@);
                }
                return Some(i);
            }
            i = i + 1;
        }
        proof {
            lemma_find_idx(self.entities@, url@);
        }
        None
    }

    /// Whether the activity id has already been applied.
    pub fn has_seen_activity(&self, aid: &String) -> (r: bool)
        ensures
            r == self.seen_ids().contains(aid@),
    {
        let n = self.seen.len();
        let mut i: usize = 0;
        while i < n
            invariant
                n == self.seen@.len(),
                i <= n,
                forall|j: int| 0 <= j < i ==> self.seen@[j]@ != aid@,
            decreases n - i,
        {
            if self.seen[i] == *aid {
                assert(self.seen_ids()[i as int] == aid@);
                return true;
            }
            i = i + 1;
        }
        assert forall|j: int| 0 <= j < self.seen_ids().len() implies self.seen_ids()[j] != aid@ by {}
        false
    }

    /// Records an activity id as applied; a no-op when it already is.
    pub fn record_seen_activity(&mut self, aid: String)
        requires
            old(self).wf(),
        ensures
            final(self).wf(),
            final(self).entities@ == old(self).entities@,
            final(self).seen_ids() == if old(self).seen_ids().contains(aid@) {
                old(self).seen_ids()
            } else {
                old(self).seen_ids().push(aid@)
            },
    {
        let ghost aid_view = aid@;
        if !self.has_seen_activity(&aid) {
            self.seen.push(aid);
            proof {
                let ghost n = self.seen_ids().len() - 1;
                assert forall|k: int|
                    0 <= k < n implies self.seen_ids()[k] == old(self).seen_ids()[k] by {
                    assert(self.seen@[k] == old(self).seen@[k]);
                }
                assert(self.seen@[n] == old(self).seen@.push(aid).last());
                assert(self.seen_ids()[n] == aid_view);
                assert(self.seen_ids() =~= old(self).seen_ids().push(aid_view));
                assert forall|i: int, j: int|
                    0 <= i < j < self.seen_ids().len() implies self.seen_ids()[i]
                    != self.seen_ids()[j] by {
                    if j == n {
                        if old(self).seen_ids()[i] == aid_view {
                            assert(old(self).seen_ids().contains(aid_view));
                        }
                    }
                }
                assert forall|a: int, b: int|
                    0 <= a < b < self.ids().len() implies self.ids()[a] != self.ids()[b] by {
                    assert(self.ids()[a] == old(self).ids()[a]);
                    assert(self.ids()[b] == old(self).ids()[b]);
                }
            }
        }
    }

    /// Removes the entity stored under the identifier string, if present.
    pub fn remove_by_identifier(&mut self, url: &String)
        requires
            old(self).wf(),
        ensures
            final(self).wf(),
            final(self).seen@ == old(self).seen@,
            ({
                let f = find_idx(old(self).entities@, url@);
                if f >= 0 {
                    final(self).entities@ == old(self).entities@.remove(f)
                } else {
                    final(self).entities@ == old(self).entities@
                }
            }),
    {
        proof {
            lemma_find_idx(self.entities@, url@);
        }
        let found = self.find_index(url);
        match found {
            Some(i) => {
                self.entities.remove(i);
                proof {
                    let ghost pre = old(self).entities@;
                    let ghost f = i as int;
                    pre.remove_ensures(f);
                    assert forall|a: int, b: int|
                        0 <= a < b < self.ids().len() implies self.ids()[a] != self.ids()[b] by {
                        let pa: int = if a < f {
                            a
                        } else {
                            a + 1
                        };
                        let pb: int = if b < f {
                            b
                        } else {
                            b + 1
                        };
                        assert(self.entities@[a] == pre[pa]);
                        assert(self.entities@[b] == pre[pb]);
                        assert(old(self).ids()[pa] != old(self).ids()[pb]);
                    }
                    assert forall|a: int, b: int|
                        0 <= a < b < self.seen_ids().len() implies self.seen_ids()[a]
                        != self.seen_ids()[b] by {
                        assert(self.seen_ids()[a] == old(self).seen_ids()[a]);
                        assert(self.seen_ids()[b] == old(self).seen_ids()[b]);
                    }
                }
            },
            None => {},
        }
    }
}

} // verus!
