use vstd::prelude::*;

verus! {

/// A memoized actor public key: created or refreshed by a fetch through the
/// resolver, expired after a TTL or on a verification failure.
pub struct KeyEntry {
    /// Identifier string of the actor the key belongs to.
    pub actor_url: String,
    /// The public key material.
    pub key: String,
    /// When the key was fetched.
    pub fetched_at: u64,
}

/// Index of the first entry in `s` for the actor identifier string `url`,
/// or `-1` when none is.
pub open spec fn find_key_idx(s: Seq<KeyEntry>, url: Seq<char>) -> int
    decreases s.len(),
{
    if s.len() == 0 {
        -1
    } else if s[0].actor_url@ == url {
        0
    } else {
        let r = find_key_idx(s.drop_first(), url);
        if r < 0 {
            -1
        } else {
            r + 1
        }
    }
}

/// What `find_key_idx` returns: `-1` exactly when no entry matches,
/// otherwise the first matching index.
pub proof fn lemma_find_key_idx(s: Seq<KeyEntry>, url: Seq<char>)
    ensures
        find_key_idx(s, url) == -1 ==> (forall|i: int|
            0 <= i < s.len() ==> s[i].actor_url@ != url),
        find_key_idx(s, url) != -1 ==> 0 <= find_key_idx(s, url) < s.len()
            && s[find_key_idx(s, url)].actor_url@ == url
            && (forall|i: int| 0 <= i < find_key_idx(s, url) ==> s[i].actor_url@ != url),
    decreases s.len(),
{
    if s.len() != 0 && s[0].actor_url@ != url {
        lemma_find_key_idx(s.drop_first(), url);
        let r: int = find_key_idx(s.drop_first(), url);
        if r == -1 {
            assert forall|i: int| 0 <= i < s.len() implies s[i].actor_url@ != url by {
                if i >= 1 {
                    assert(s[i] == s.drop_first()[i - 1]);
                }
            }
        } else {
            assert(s[r + 1] == s.drop_first()[r]);
            assert forall|i: int| 0 <= i < r + 1 implies s[i].actor_url@ != url by {
                if i >= 1 {
                    assert(s[i] == s.drop_first()[i - 1]);
                }
            }
        }
    }
}

/// Process-wide cache of actor public keys, keyed by actor identifier, with
/// TTL-based staleness.
pub struct KeyCache {
    /// The cached keys; actor identifiers are pairwise distinct.
    pub entries: Vec<KeyEntry>,
    /// How long a key stays fresh after its fetch.
    pub ttl: u64,
}

impl KeyCache {
    /// At most one entry per actor.
    pub open spec fn wf(&self) -> bool {
        forall|i: int, j: int|
            0 <= i < j < self.entries@.len() ==> self.entries@[i].actor_url@
                != self.entries@[j].actor_url@
    }

    /// An empty cache with the given TTL.
    pub fn new(ttl: u64) -> (r: KeyCache)
        ensures
            r.wf(),
            r.entries@.len() == 0,
            r.ttl == ttl,
    {
        KeyCache { entries: Vec::new(), ttl }
    }

    /// The cached entry for the actor, if any.
    pub fn get(&self, actor_url: &String) -> (r: Option<&KeyEntry>)
        ensures
            match r {
                Some(e) => find_key_idx(self.entries@, actor_url@) >= 0
                    && *e == self.entries@[find_key_idx(self.entries@, actor_url@)],
                None => find_key_idx(self.entries@, actor_url@) == -1,
            },
    {
        let n = self.entries.len();
        let mut i: usize = 0;
        while i < n
            invariant
                n == self.entries@.len(),
                i <= n,
                forall|j: int| 0 <= j < i ==> self.entries@[j].actor_url@ != actor_url@,
            decreases n - i,
        {
            if self.entries[i].actor_url == *actor_url {
                proof {
                    lemma_find_key_idx(self.entries@, actor_url@);
                }
                return Some(&self.entries[i]);
            }
            i = i + 1;
        }
        proof {
            lemma_find_key_idx(self.entries@, actor_url@);
        }
        None
    }

    /// Stores or refreshes the actor's key, stamped with the fetch time.
    pub fn put(&mut self, actor_url: String, key: String, now: u64)
        requires
            old(self).wf(),
        ensures
            final(self).wf(),
            final(self).ttl == old(self).ttl,
            ({
                let f = find_key_idx(old(self).entries@, actor_url@);
                let entry = KeyEntry { actor_url, key, fetched_at: now };
                if f >= 0 {
                    final(self).entries@ == old(self).entries@.update(f, entry)
                } else {
                    final(self).entries@ == old(self).entries@.push(entry)
                }
            }),
    {
        proof {
            lemma_find_key_idx(self.entries@, actor_url@);
        }
        let idx = self.find_index(&actor_url);
        let entry = KeyEntry { actor_url, key, fetched_at: now };
        match idx {
            Some(i) => {
                self.entries.set(i, entry);
                proof {
                    let ghost f = i as int;
                    assert(old(self).entries@[f].actor_url@ == entry.actor_url@);
                    assert forall|a: int, b: int|
                        0 <= a < b < self.entries@.len() implies self.entries@[a].actor_url@
                        != self.entries@[b].actor_url@ by {
                        assert(old(self).entries@[a].actor_url@ == self.entries@[a].actor_url@);
                        assert(old(self).entries@[b].actor_url@ == self.entries@[b].actor_url@);
                    }
                }
            },
            None => {
                self.entries.push(entry);
                proof {
                    let ghost n2 = self.entries@.len() - 1;
                    assert forall|a: int, b: int|
                        0 <= a < b < self.entries@.len() implies self.entries@[a].actor_url@
                        != self.entries@[b].actor_url@ by {
                        assert(self.entries@[a] == old(self).entries@[a]);
                        if b < n2 {
                            assert(self.entries@[b] == old(self).entries@[b]);
                        }
                    }
                }
            },
        }
    }

    /// Index of the cached entry for the actor, if any.
    fn find_index(&self, actor_url: &String) -> (r: Option<usize>)
        ensures
            match r {
                Some(i) => i as int == find_key_idx(self.entries@, actor_url@),
                None => find_key_idx(self.entries@, actor_url@) == -1,
            },
    {
        let n = self.entries.len();
        let mut i: usize = 0;
        while i < n
            invariant
                n == self.entries@.len(),
                i <= n,
                forall|j: int| 0 <= j < i ==> self.entries@[j].actor_url@ != actor_url@,
            decreases n - i,
        {
            if self.entries[i].actor_url == *actor_url {
                proof {
                    lemma_find_key_idx(self.entries@, actor_url@);
                }
                return Some(i);
            }
            i = i + 1;
        }
        proof {
            lemma_find_key_idx(self.entries@, actor_url@);
        }
        None
    }

    /// Whether a key fetched at the given time is stale now: older than the
    /// TTL allows.
    pub fn is_stale(&self, fetched_at: u64, now: u64) -> (r: bool)
        ensures
            r == (now > fetched_at + self.ttl),
    {
        if fetched_at > u64::MAX - self.ttl {
            false
        } else {
            now > fetched_at + self.ttl
        }
    }
}

/// What the signature checker reported for one comparison of the recomputed
/// signature against the cached key, together with that key's staleness.
pub enum VerifyEvent {
    /// The recomputed signature matches.
    CheckSucceeded,
    /// The recomputed signature does not match; `key_stale` says whether the
    /// key used was older than the TTL.
    CheckFailed { key_stale: bool },
}

/// What the verifier asks of its caller after an event.
#[derive(Clone, Copy, Debug, PartialEq, Eq, Structural)]
pub enum VerifyAction {
    /// The message is authentic.
    Accept,
    /// Fetch a fresh key for the actor and check once more.
    RefreshKey,
    /// The signature is invalid; fatal for this message.
    Reject,
}

/// The verification state for one inbound message: whether the single
/// permitted key refresh has been spent, and how the attempt ended.
pub struct VerifySession {
    /// Whether the one permitted refresh has been requested.
    pub refreshed: bool,
    /// Whether the attempt has ended.
    pub finished: bool,
    /// The verdict, meaningful once finished.
    pub accepted: bool,
}

impl VerifySession {
    /// The state a verification attempt starts in.
    pub open spec fn init_spec() -> VerifySession {
        VerifySession { refreshed: false, finished: false, accepted: false }
    }

    /// Starts a verification attempt.
    pub fn start() -> (r: VerifySession)
        ensures
            r == VerifySession::init_spec(),
    {
        VerifySession { refreshed: false, finished: false, accepted: false }
    }
}

/// One step of the verification state machine: a matching signature is
/// accepted; a mismatch against a stale key spends the single permitted
/// refresh; any other mismatch is rejected. A refresh is only ever requested
/// from a state that has not yet spent one, which bounds refreshes to one
/// per message and so tolerates legitimate key rotation without unbounded
/// retry.
pub open spec fn verify_step_spec(s: VerifySession, ev: VerifyEvent) -> (VerifySession,
    VerifyAction) {
    match ev {
        VerifyEvent::CheckSucceeded => (
            VerifySession { refreshed: s.refreshed, finished: true, accepted: true },
            VerifyAction::Accept,
        ),
        VerifyEvent::CheckFailed { key_stale } => if !s.refreshed && key_stale {
            (
                VerifySession { refreshed: true, finished: false, accepted: false },
                VerifyAction::RefreshKey,
            )
        } else {
            (
                VerifySession { refreshed: s.refreshed, finished: true, accepted: false },
                VerifyAction::Reject,
            )
        },
    }
}

/// Advances the verification state machine by one check event.
pub fn verify_step(s: &mut VerifySession, ev: &VerifyEvent) -> (a: VerifyAction)
    requires
        !old(s).finished,
    ensures
        (*final(s), a) == verify_step_spec(*old(s), *ev),
{
    match ev {
        VerifyEvent::CheckSucceeded => {
            s.finished = true;
            s.accepted = true;
            VerifyAction::Accept
        },
        VerifyEvent::CheckFailed { key_stale } => {
            if !s.refreshed && *key_stale {
                s.refreshed = true;
                s.accepted = false;
                VerifyAction::RefreshKey
            } else {
                s.finished = true;
                s.accepted = false;
                VerifyAction::Reject
            }
        },
    }
}

/// The actions a session emits over a sequence of check events, stopping
/// once the session has finished.
pub open spec fn verify_run_spec(s: VerifySession, evs: Seq<VerifyEvent>) -> Seq<VerifyAction>
    decreases evs.len(),
{
    if evs.len() == 0 || s.finished {
        Seq::empty()
    } else {
        let (s2, a) = verify_step_spec(s, evs[0]);
        seq![a] + verify_run_spec(s2, evs.drop_first())
    }
}

/// How many of the actions are refresh requests.
pub open spec fn count_refreshes(acts: Seq<VerifyAction>) -> nat
    decreases acts.len(),
{
    if acts.len() == 0 {
        0
    } else {
        (if acts[0] == VerifyAction::RefreshKey {
            1nat
        } else {
            0nat
        }) + count_refreshes(acts.drop_first())
    }
}

/// Helper for the refresh bound: a session that has already spent its
/// refresh, or has finished, never requests another.
proof fn lemma_refresh_budget(s: VerifySession, evs: Seq<VerifyEvent>)
    ensures
        count_refreshes(verify_run_spec(s, evs)) <= if s.refreshed || s.finished {
            0nat
        } else {
            1nat
        },
    decreases evs.len(),
{
    if evs.len() != 0 && !s.finished {
        let (s2, a) = verify_step_spec(s, evs[0]);
        lemma_refresh_budget(s2, evs.drop_first());
        let acts = verify_run_spec(s, evs);
        assert(acts[0] == a);
        assert(acts.drop_first() =~= verify_run_spec(s2, evs.drop_first()));
    }
}

/// Law: whatever sequence of check events the collaborators report, a
/// verification attempt for one message requests at most one key refresh
/// before reaching its verdict.
pub proof fn lemma_at_most_one_refresh(evs: Seq<VerifyEvent>)
    ensures
        count_refreshes(verify_run_spec(VerifySession::init_spec(), evs)) <= 1,
{
    lemma_refresh_budget(VerifySession::init_spec(), evs);
}

/// Law: a mismatch against a stale key is retried exactly once; when the
/// retried check fails as well, the attempt ends rejected with no further
/// refresh.
pub proof fn lemma_rotation_retry_exact(stale_second: bool)
    ensures
        ({
            let evs = seq![
                VerifyEvent::CheckFailed { key_stale: true },
                VerifyEvent::CheckFailed { key_stale: stale_second },
            ];
            let acts = verify_run_spec(VerifySession::init_spec(), evs);
            acts =~= seq![VerifyAction::RefreshKey, VerifyAction::Reject] && count_refreshes(acts)
                == 1
        }),
{
    let evs = seq![
        VerifyEvent::CheckFailed { key_stale: true },
        VerifyEvent::CheckFailed { key_stale: stale_second },
    ];
    let s0 = VerifySession::init_spec();
    let (s1, a1) = verify_step_spec(s0, evs[0]);
    assert(a1 == VerifyAction::RefreshKey);
    let evs1 = evs.drop_first();
    assert(evs1.len() == 1);
    assert(evs1[0] == evs[1]);
    let (s2, a2) = verify_step_spec(s1, evs1[0]);
    assert(a2 == VerifyAction::Reject);
    assert(evs1.drop_first().len() == 0);
    assert(verify_run_spec(s2, evs1.drop_first()) =~= Seq::<VerifyAction>::empty());
    assert(verify_run_spec(s1, evs1) =~= seq![a2] + verify_run_spec(s2, evs1.drop_first()));
    assert(verify_run_spec(s0, evs) =~= seq![a1] + verify_run_spec(s1, evs1));
    let acts = verify_run_spec(s0, evs);
    assert(acts =~= seq![VerifyAction::RefreshKey, VerifyAction::Reject]);
    let l2 = seq![VerifyAction::RefreshKey, VerifyAction::Reject];
    let l1 = seq![VerifyAction::Reject];
    assert(l2.drop_first() =~= l1);
    assert(l1.drop_first() =~= Seq::<VerifyAction>::empty());
    assert(count_refreshes(Seq::<VerifyAction>::empty()) == 0);
    assert(count_refreshes(l1) == 0);
    assert(count_refreshes(l2) == 1);
}

} // verus!
