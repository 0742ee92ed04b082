use vstd::prelude::*;
use crate::entity::Entity;
use crate::errors::FedError;
use crate::ids::Identifier;
use crate::store::{find_idx, lemma_find_idx, Store};

verus! {

/// The closed set of supported verb kinds. An unrecognized tag maps to
/// `Unsupported` at classification time rather than failing the parse, so a
/// future verb is rejected per message without poisoning the peer
/// relationship.
#[derive(Clone, Copy, Debug, PartialEq, Eq, Structural)]
pub enum VerbKind {
    Create,
    Update,
    Delete,
    Undo,
    Follow,
    Accept,
    Reject,
    Announce,
    Like,
    Dislike,
    Unsupported,
}

/// The verb kind a tag string classifies to.
pub open spec fn classify_spec(tag: Seq<char>) -> VerbKind {
    if tag == "Create"@ {
        VerbKind::Create
    } else if tag == "Update"@ {
        VerbKind::Update
    } else if tag == "Delete"@ {
        VerbKind::Delete
    } else if tag == "Undo"@ {
        VerbKind::Undo
    } else if tag == "Follow"@ {
        VerbKind::Follow
    } else if tag == "Accept"@ {
        VerbKind::Accept
    } else if tag == "Reject"@ {
        VerbKind::Reject
    } else if tag == "Announce"@ {
        VerbKind::Announce
    } else if tag == "Like"@ {
        VerbKind::Like
    } else if tag == "Dislike"@ {
        VerbKind::Dislike
    } else {
        VerbKind::Unsupported
    }
}

/// Classifies a verb tag into the closed kind set, resolved once at parse
/// time.
pub fn classify(tag: &String) -> (r: VerbKind)
    ensures
        r == classify_spec(tag@),
{
    if *tag == String::from_str("Create") {
        VerbKind::Create
    } else if *tag == String::from_str("Update") {
        VerbKind::Update
    } else if *tag == String::from_str("Delete") {
        VerbKind::Delete
    } else if *tag == String::from_str("Undo") {
        VerbKind::Undo
    } else if *tag == String::from_str("Follow") {
        VerbKind::Follow
    } else if *tag == String::from_str("Accept") {
        VerbKind::Accept
    } else if *tag == String::from_str("Reject") {
        VerbKind::Reject
    } else if *tag == String::from_str("Announce") {
        VerbKind::Announce
    } else if *tag == String::from_str("Like") {
        VerbKind::Like
    } else if *tag == String::from_str("Dislike") {
        VerbKind::Dislike
    } else {
        VerbKind::Unsupported
    }
}

/// The object of an activity: carried inline, or a bare reference that must
/// be resolved before the activity can be applied.
pub enum ObjectRef {
    Inline(Entity),
    Reference(Identifier),
}

impl ObjectRef {
    /// The identifier string the object is keyed by.
    pub open spec fn url_spec(&self) -> Seq<char> {
        match self {
            ObjectRef::Inline(e) => e.id.url@,
            ObjectRef::Reference(id) => id.url@,
        }
    }
}

/// A parsed inbound envelope: the known wire fields, plus the unrecognized
/// extension fields kept verbatim, in order, so the activity can be relayed
/// losslessly.
pub struct Envelope {
    /// Unique id of the activity; the deduplication key.
    pub activity_id: Identifier,
    /// The claimed actor.
    pub actor: Identifier,
    /// The classified verb kind.
    pub kind: VerbKind,
    /// The activity's object.
    pub object: ObjectRef,
    /// Intended recipients.
    pub to: Vec<Identifier>,
    /// Unrecognized fields, preserved for lossless round-tripping.
    pub extensions: Vec<(String, String)>,
}

/// Terminal verdict of the inbound pipeline for one message.
#[derive(Clone, Copy, Debug, PartialEq, Eq, Structural)]
pub enum PipelineOutcome {
    /// The activity's effect is applied (or had already been applied).
    Applied,
    /// Permanent failure; the message is not retried.
    Rejected(FedError),
    /// Object resolution was unreachable; the transport may redeliver later.
    Deferred,
}

/// One step of inbound processing: either a terminal verdict, or the demand
/// to resolve the activity's object before applying.
pub enum InboundStep {
    Done(PipelineOutcome),
    /// The object is a bare reference; it must be resolved (possibly over
    /// the network) and the envelope resubmitted with the object inline.
    NeedsObject(Identifier),
}

/// The effect of an authenticated create-or-update on the store model:
/// a replayed activity id changes nothing; otherwise an object already
/// stored under the same identifier is merged field-by-field (a Create for
/// an existing object is treated as an Update, and vice versa), and a new
/// object is inserted. The activity id is recorded as applied.
pub open spec fn apply_cu_spec(
    entities: Seq<Entity>,
    seen: Seq<Seq<char>>,
    aid: Seq<char>,
    obj: Entity,
) -> (Seq<Entity>, Seq<Seq<char>>, PipelineOutcome) {
    if seen.contains(aid) {
        (entities, seen, PipelineOutcome::Applied)
    } else {
        let f = find_idx(entities, obj.id.url@);
        if f >= 0 {
            if entities[f].kind == obj.kind {
                (
                    entities.update(f, entities[f].merged_spec(obj)),
                    seen.push(aid),
                    PipelineOutcome::Applied,
                )
            } else {
                (entities, seen, PipelineOutcome::Rejected(FedError::KindMismatch))
            }
        } else {
            (entities.push(obj), seen.push(aid), PipelineOutcome::Applied)
        }
    }
}

/// The effect of an authenticated delete: a replayed activity id changes
/// nothing; otherwise the referenced object is removed if present, and the
/// activity id is recorded either way.
pub open spec fn apply_delete_spec(
    entities: Seq<Entity>,
    seen: Seq<Seq<char>>,
    aid: Seq<char>,
    target: Seq<char>,
) -> (Seq<Entity>, Seq<Seq<char>>, PipelineOutcome) {
    if seen.contains(aid) {
        (entities, seen, PipelineOutcome::Applied)
    } else {
        let f = find_idx(entities, target);
        if f >= 0 {
            (entities.remove(f), seen.push(aid), PipelineOutcome::Applied)
        } else {
            (entities, seen.push(aid), PipelineOutcome::Applied)
        }
    }
}

/// Applies an authenticated create-or-update activity to the store.
pub fn apply_create_or_update(store: &mut Store, activity_id: &Identifier, obj: &Entity) -> (r:
    PipelineOutcome)
    requires
        old(store).wf(),
    ensures
        final(store).wf(),
        ({
            let (es, sn, out) = apply_cu_spec(
                old(store).entities@,
                old(store).seen_ids(),
                activity_id.url@,
                *obj,
            );
            final(store).entities@ == es && final(store).seen_ids() == sn && r == out
        }),
{
    if store.has_seen_activity(&activity_id.url) {
        return PipelineOutcome::Applied;
    }
    let existing = store.lookup(&obj.id.url);
    match existing {
        Some(stored) => {
            if stored.kind == obj.kind {
                let merged = stored.merged(obj);
                proof {
                    lemma_find_idx(store.entities@, obj.id.url@);
                    assert(merged.id.url@ == obj.id.url@);
                }
                store.upsert(merged);
                store.record_seen_activity(activity_id.url.clone());
                PipelineOutcome::Applied
            } else {
                PipelineOutcome::Rejected(FedError::KindMismatch)
            }
        },
        None => {
            store.upsert(obj.duplicate());
            store.record_seen_activity(activity_id.url.clone());
            PipelineOutcome::Applied
        },
    }
}

/// Applies an authenticated delete activity to the store.
pub fn apply_delete(store: &mut Store, activity_id: &Identifier, target_url: &String) -> (r:
    PipelineOutcome)
    requires
        old(store).wf(),
    ensures
        final(store).wf(),
        ({
            let (es, sn, out) = apply_delete_spec(
                old(store).entities@,
                old(store).seen_ids(),
                activity_id.url@,
                target_url@,
            );
            final(store).entities@ == es && final(store).seen_ids() == sn && r == out
        }),
{
    if store.has_seen_activity(&activity_id.url) {
        return PipelineOutcome::Applied;
    }
    store.remove_by_identifier(target_url);
    store.record_seen_activity(activity_id.url.clone());
    PipelineOutcome::Applied
}

/// Law: applying the same activity id a second time changes nothing in the
/// store and returns the same outcome: redelivered activities are
/// idempotent and add no second row.
pub proof fn lemma_apply_idempotent(
    entities: Seq<Entity>,
    seen: Seq<Seq<char>>,
    aid: Seq<char>,
    obj: Entity,
)
    ensures
        ({
            let (e1, s1, o1) = apply_cu_spec(entities, seen, aid, obj);
            let (e2, s2, o2) = apply_cu_spec(e1, s1, aid, obj);
            e2 == e1 && s2 == s1 && o2 == o1
        }),
{
    if !seen.contains(aid) {
        let f = find_idx(entities, obj.id.url@);
        if f >= 0 && entities[f].kind != obj.kind {
        } else {
            let (e1, s1, o1) = apply_cu_spec(entities, seen, aid, obj);
            assert(s1 == seen.push(aid));
            assert(s1[s1.len() - 1] == aid);
            assert(s1.contains(aid));
        }
    }
}

/// Law: a create (or update) for an object already stored under the same
/// identifier and kind merges fields into the stored row; the number of
/// stored entities does not change and no duplicate row appears.
pub proof fn lemma_create_merges_existing(
    entities: Seq<Entity>,
    seen: Seq<Seq<char>>,
    aid: Seq<char>,
    obj: Entity,
)
    requires
        !seen.contains(aid),
        find_idx(entities, obj.id.url@) >= 0,
        entities[find_idx(entities, obj.id.url@)].kind == obj.kind,
    ensures
        ({
            let f = find_idx(entities, obj.id.url@);
            let (e1, s1, o1) = apply_cu_spec(entities, seen, aid, obj);
            e1.len() == entities.len() && e1 == entities.update(f, entities[f].merged_spec(obj))
                && o1 == PipelineOutcome::Applied
        }),
{
    lemma_find_idx(entities, obj.id.url@);
}

/// How authentication of an inbound message concluded: the signature verdict
/// reached through the verifier, or the failure to resolve the claimed
/// actor.
pub enum AuthOutcome {
    /// The signature matches the resolved actor's key.
    Verified,
    /// The signature does not match, after any permitted key refresh.
    SignatureFailed,
    /// The claimed actor could not be resolved; carries the resolver's
    /// error.
    ActorFailed(FedError),
}

/// The effect of an authenticated envelope on the store model, dispatched on
/// its verb kind. Unknown kinds are rejected without side effects; create
/// and update share the create-or-update merge; delete removes; the
/// remaining supported kinds record the activity id, their domain effects
/// living in collaborators outside this core.
pub open spec fn process_spec(entities: Seq<Entity>, seen: Seq<Seq<char>>, env: Envelope) -> (
    Seq<Entity>,
    Seq<Seq<char>>,
    InboundStep,
) {
    let aid = env.activity_id.url@;
    match env.kind {
        VerbKind::Unsupported => (
            entities,
            seen,
            InboundStep::Done(PipelineOutcome::Rejected(FedError::UnsupportedKind)),
        ),
        VerbKind::Create | VerbKind::Update => match env.object {
            ObjectRef::Inline(obj) => {
                let (es, sn, out) = apply_cu_spec(entities, seen, aid, obj);
                (es, sn, InboundStep::Done(out))
            },
            ObjectRef::Reference(id) => if seen.contains(aid) {
                (entities, seen, InboundStep::Done(PipelineOutcome::Applied))
            } else {
                (entities, seen, InboundStep::NeedsObject(id))
            },
        },
        VerbKind::Delete => {
            let (es, sn, out) = apply_delete_spec(entities, seen, aid, env.object.url_spec());
            (es, sn, InboundStep::Done(out))
        },
        _ => if seen.contains(aid) {
            (entities, seen, InboundStep::Done(PipelineOutcome::Applied))
        } else {
            (entities, seen.push(aid), InboundStep::Done(PipelineOutcome::Applied))
        },
    }
}

/// Applies an authenticated envelope to the store. For a create or update
/// whose object is a bare reference, the returned step demands resolution;
/// the caller resolves it and resubmits the envelope with the object inline.
pub fn process_authenticated(store: &mut Store, env: &Envelope) -> (r: InboundStep)
    requires
        old(store).wf(),
    ensures
        final(store).wf(),
        ({
            let (es, sn, st) = process_spec(old(store).entities@, old(store).seen_ids(), *env);
            final(store).entities@ == es && final(store).seen_ids() == sn && r == st
        }),
{
    match env.kind {
        VerbKind::Unsupported => InboundStep::Done(
            PipelineOutcome::Rejected(FedError::UnsupportedKind),
        ),
        VerbKind::Create | VerbKind::Update => match &env.object {
            ObjectRef::Inline(obj) => InboundStep::Done(
                apply_create_or_update(store, &env.activity_id, obj),
            ),
            ObjectRef::Reference(id) => if store.has_seen_activity(&env.activity_id.url) {
                InboundStep::Done(PipelineOutcome::Applied)
            } else {
                InboundStep::NeedsObject(id.duplicate())
            },
        },
        VerbKind::Delete => {
            let target = match &env.object {
                ObjectRef::Inline(obj) => &obj.id.url,
                ObjectRef::Reference(id) => &id.url,
            };
            InboundStep::Done(apply_delete(store, &env.activity_id, target))
        },
        _ => {
            if !store.has_seen_activity(&env.activity_id.url) {
                store.record_seen_activity(env.activity_id.url.clone());
            }
            InboundStep::Done(PipelineOutcome::Applied)
        },
    }
}

/// The inbound pipeline for one message, once the transport has parsed the
/// envelope and the authentication verdict is in hand: a failed signature or
/// an unresolvable actor rejects the message without side effects, an
/// unreachable actor defers it for transport-level redelivery, and a
/// verified message is dispatched on its kind.
pub fn handle_inbound(store: &mut Store, env: &Envelope, auth: &AuthOutcome) -> (r: InboundStep)
    requires
        old(store).wf(),
    ensures
        final(store).wf(),
        match *auth {
            AuthOutcome::Verified => ({
                let (es, sn, st) = process_spec(old(store).entities@, old(store).seen_ids(), *env);
                final(store).entities@ == es && final(store).seen_ids() == sn && r == st
            }),
            AuthOutcome::SignatureFailed => *final(store) == *old(store) && r == (
            InboundStep::Done(PipelineOutcome::Rejected(FedError::SignatureInvalid))),
            AuthOutcome::ActorFailed(e) => *final(store) == *old(store) && r == (
            if e == FedError::Unreachable {
                InboundStep::Done(PipelineOutcome::Deferred)
            } else {
                InboundStep::Done(PipelineOutcome::Rejected(FedError::ActorUnresolvable))
            }),
        },
{
    match auth {
        AuthOutcome::Verified => process_authenticated(store, env),
        AuthOutcome::SignatureFailed => InboundStep::Done(
            PipelineOutcome::Rejected(FedError::SignatureInvalid),
        ),
        AuthOutcome::ActorFailed(e) => if e.is_transient() {
            InboundStep::Done(PipelineOutcome::Deferred)
        } else {
            InboundStep::Done(PipelineOutcome::Rejected(FedError::ActorUnresolvable))
        },
    }
}

} // verus!
