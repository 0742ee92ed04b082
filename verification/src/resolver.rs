use vstd::prelude::*;
use crate::entity::{Entity, EntityKind};
use crate::errors::FedError;
use crate::ids::Identifier;
use crate::store::{find_idx, lemma_find_idx, lemma_find_idx_push, Store};

verus! {

/// The request-scoped resolution cache: entities resolved during one inbound
/// or outbound operation, exclusively owned by that operation and discarded
/// at its end. It guarantees that one operation referencing the same
/// identifier several times performs at most one network fetch.
pub struct RequestCache {
    /// Entities resolved so far; identifiers are pairwise distinct.
    pub entries: Vec<Entity>,
}

impl RequestCache {
    /// At most one cached entity per identifier.
    pub open spec fn wf(&self) -> bool {
        forall|i: int, j: int|
            0 <= i < j < self.entries@.len() ==> self.entries@[i].id.url@ != self.entries@[j].id.url@
    }

    /// An empty cache, created at the start of an operation.
    pub fn new() -> (r: RequestCache)
        ensures
            r.wf(),
            r.entries@.len() == 0,
    {
        RequestCache { entries: Vec::new() }
    }

    /// The cached entity under the given identifier string, if any.
    fn lookup(&self, url: &String) -> (r: Option<&Entity>)
        ensures
            match r {
                Some(e) => find_idx(self.entries@, url@) >= 0
                    && *e == self.entries@[find_idx(self.entries@, url@)],
                None => find_idx(self.entries@, url@) == -1,
            },
    {
        let n = self.entries.len();
        let mut i: usize = 0;
        while i < n
            invariant
                n == self.entries@.len(),
                i <= n,
                forall|j: int| 0 <= j < i ==> self.entries@[j].id.url@ != url@,
            decreases n - i,
        {
            if self.entries[i].id.url == *url {
                proof {
                    lemma_find_idx(self.entries@, url@);
                }
                return Some(&self.entries[i]);
            }
            i = i + 1;
        }
        proof {
            lemma_find_idx(self.entries@, url@);
        }
        None
    }
}

/// The deny-list of blocked hosts: read-only shared state, reloaded outside
/// the core.
pub struct DenyList {
    /// The blocked host strings.
    pub hosts: Vec<String>,
}

impl DenyList {
    /// Views of the blocked hosts.
    pub open spec fn hosts_view(&self) -> Seq<Seq<char>> {
        self.hosts@.map_values(|h: String| h@)
    }

    /// Whether the host is blocked.
    pub fn is_blocked(&self, host: &String) -> (r: bool)
        ensures
            r == self.hosts_view().contains(host@),
    {
        let n = self.hosts.len();
        let mut i: usize = 0;
        while i < n
            invariant
                n == self.hosts@.len(),
                i <= n,
                forall|j: int| 0 <= j < i ==> self.hosts@[j]@ != host@,
            decreases n - i,
        {
            if self.hosts[i] == *host {
                assert(self.hosts_view()[i as int] == host@);
                return true;
            }
            i = i + 1;
        }
        assert forall|j: int|
            0 <= j < self.hosts_view().len() implies self.hosts_view()[j] != host@ by {}
        false
    }
}

/// The local part of resolution: a hit, or the demand for a remote fetch.
pub enum Resolution {
    /// The entity, from the request cache or the persistent store.
    Found(Entity),
    /// Absent locally: a remote fetch-and-verify round trip is required.
    NeedsFetch,
}

/// What a remote fetch of an identifier produced, as handed back by the
/// outbound HTTP collaborator after transport-level verification.
pub enum FetchOutcome {
    /// The response parsed into the canonical local shape.
    Payload(Entity),
    /// The remote reported the identifier absent.
    Missing,
    /// Network failure or timeout.
    Unreachable,
    /// The response violated the expected schema.
    MalformedPayload,
}

/// The local resolution decision: a blocked host fails hard; a cached or
/// stored entity is returned when its kind matches and rejected when it does
/// not (never coerced); an identifier absent locally demands a fetch. Local
/// entities are never re-fetched.
pub open spec fn resolve_local_spec(
    cache: Seq<Entity>,
    stored: Seq<Entity>,
    deny: Seq<Seq<char>>,
    id: Identifier,
    kind: EntityKind,
) -> Result<Resolution, FedError> {
    if deny.contains(id.host@) {
        Err(FedError::Blocked)
    } else {
        let c = find_idx(cache, id.url@);
        if c >= 0 {
            if cache[c].kind == kind {
                Ok(Resolution::Found(cache[c]))
            } else {
                Err(FedError::KindMismatch)
            }
        } else {
            let s = find_idx(stored, id.url@);
            if s >= 0 {
                if stored[s].kind == kind {
                    Ok(Resolution::Found(stored[s]))
                } else {
                    Err(FedError::KindMismatch)
                }
            } else {
                Ok(Resolution::NeedsFetch)
            }
        }
    }
}

/// Resolves an identifier against the request cache and the persistent
/// store, without touching the network.
pub fn resolve_local(
    cache: &RequestCache,
    store: &Store,
    deny: &DenyList,
    id: &Identifier,
    kind: EntityKind,
) -> (r: Result<Resolution, FedError>)
    ensures
        r == resolve_local_spec(cache.entries@, store.entities@, deny.hosts_view(), *id, kind),
{
    if deny.is_blocked(&id.host) {
        return Err(FedError::Blocked);
    }
    match cache.lookup(&id.url) {
        Some(e) => {
            if e.kind == kind {
                Ok(Resolution::Found(e.duplicate()))
            } else {
                Err(FedError::KindMismatch)
            }
        },
        None => {
            match store.lookup(&id.url) {
                Some(e) => {
                    if e.kind == kind {
                        Ok(Resolution::Found(e.duplicate()))
                    } else {
                        Err(FedError::KindMismatch)
                    }
                },
                None => Ok(Resolution::NeedsFetch),
            }
        },
    }
}

/// The effect of a completed remote fetch: transient and permanent fetch
/// failures map to the error taxonomy; a payload is rejected when it does
/// not describe the requested identifier or kind; an accepted payload is
/// written through to the store exactly once and recorded in the request
/// cache.
pub open spec fn apply_fetch_spec(
    cache: Seq<Entity>,
    stored: Seq<Entity>,
    id: Identifier,
    kind: EntityKind,
    outcome: FetchOutcome,
) -> (Seq<Entity>, Seq<Entity>, Result<Entity, FedError>) {
    match outcome {
        FetchOutcome::Missing => (cache, stored, Err(FedError::NotFound)),
        FetchOutcome::Unreachable => (cache, stored, Err(FedError::Unreachable)),
        FetchOutcome::MalformedPayload => (cache, stored, Err(FedError::Malformed)),
        FetchOutcome::Payload(e) => if e.id.url@ != id.url@ {
            (cache, stored, Err(FedError::Malformed))
        } else if e.kind != kind {
            (cache, stored, Err(FedError::KindMismatch))
        } else {
            (cache.push(e), stored.push(e), Ok(e))
        },
    }
}

/// Completes a resolution whose local part demanded a fetch, from the fetch
/// outcome the collaborator handed back.
pub fn resolve_apply_fetch(
    cache: &mut RequestCache,
    store: &mut Store,
    id: &Identifier,
    kind: EntityKind,
    outcome: FetchOutcome,
) -> (r: Result<Entity, FedError>)
    requires
        old(cache).wf(),
        old(store).wf(),
        find_idx(old(cache).entries@, id.url@) == -1,
        find_idx(old(store).entities@, id.url@) == -1,
    ensures
        final(cache).wf(),
        final(store).wf(),
        final(store).seen@ == old(store).seen@,
        ({
            let (c, s, res) = apply_fetch_spec(
                old(cache).entries@,
                old(store).entities@,
                *id,
                kind,
                outcome,
            );
            final(cache).entries@ == c && final(store).entities@ == s && r == res
        }),
{
    match outcome {
        FetchOutcome::Missing => Err(FedError::NotFound),
        FetchOutcome::Unreachable => Err(FedError::Unreachable),
        FetchOutcome::MalformedPayload => Err(FedError::Malformed),
        FetchOutcome::Payload(e) => {
            if !(e.id.url == id.url) {
                return Err(FedError::Malformed);
            }
            if !(e.kind == kind) {
                return Err(FedError::KindMismatch);
            }
            let result = e.duplicate();
            let cached = e.duplicate();
            proof {
                let ghost pre = cache.entries@;
                lemma_find_idx_push(pre, cached);
                assert forall|i: int, j: int|
                    0 <= i < j < pre.push(cached).len() implies pre.push(cached)[i].id.url@ != pre
                    .push(cached)[j].id.url@ by {
                    lemma_find_idx(pre, id.url@);
                    if j < pre.len() {
                        assert(pre.push(cached)[i] == pre[i]);
                        assert(pre.push(cached)[j] == pre[j]);
                    } else {
                        assert(pre.push(cached)[i] == pre[i]);
                        assert(pre.push(cached)[j] == cached);
                    }
                }
            }
            cache.entries.push(cached);
            store.upsert(e);
            Ok(result)
        },
    }
}

/// Law: an identifier stored under one kind never resolves under another;
/// the resolution fails with `KindMismatch` and hands back no partial or
/// coerced result.
pub proof fn lemma_kind_mismatch_rejected(
    cache: Seq<Entity>,
    stored: Seq<Entity>,
    deny: Seq<Seq<char>>,
    id: Identifier,
    kind: EntityKind,
)
    requires
        !deny.contains(id.host@),
        find_idx(cache, id.url@) == -1,
        find_idx(stored, id.url@) >= 0,
        stored[find_idx(stored, id.url@)].kind != kind,
    ensures
        resolve_local_spec(cache, stored, deny, id, kind) == Err::<Resolution, FedError>(
            FedError::KindMismatch,
        ),
{
}

/// Law: once an operation has fetched an identifier, its request cache
/// serves every further resolution of that identifier within the operation;
/// no second fetch is demanded.
pub proof fn lemma_request_cache_prevents_refetch(
    cache: Seq<Entity>,
    stored: Seq<Entity>,
    deny: Seq<Seq<char>>,
    id: Identifier,
    kind: EntityKind,
    e: Entity,
)
    requires
        !deny.contains(id.host@),
        find_idx(cache, id.url@) == -1,
        e.id.url@ == id.url@,
        e.kind == kind,
    ensures
        resolve_local_spec(cache.push(e), stored, deny, id, kind) == Ok::<Resolution, FedError>(
            Resolution::Found(e),
        ),
{
    lemma_find_idx_push(cache, e);
}

} // verus!
