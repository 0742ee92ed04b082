use federation_core::auth::{KeyCache, VerifyAction, VerifyEvent, VerifySession, verify_step};
use federation_core::delivery::{
    backoff_delay, classify_outcome, expand_inboxes, job_step, BackoffConfig, DeliveryQueue,
    DeliveryStatus, HttpOutcome, OutcomeClass, Recipient,
};
use federation_core::entity::{Entity, EntityKind};
use federation_core::errors::FedError;
use federation_core::ids::Identifier;
use federation_core::inbound::{
    apply_create_or_update, apply_delete, classify, handle_inbound, process_authenticated,
    AuthOutcome, Envelope, InboundStep, ObjectRef, PipelineOutcome, VerbKind,
};
use federation_core::resolver::{
    resolve_apply_fetch, resolve_local, DenyList, FetchOutcome, RequestCache, Resolution,
};
use federation_core::store::Store;

fn ident(url: &str, host: &str) -> Identifier {
    Identifier { url: String::from(url), host: String::from(host) }
}

fn post(url: &str, host: &str, title: &str) -> Entity {
    Entity {
        id: ident(url, host),
        kind: EntityKind::Post,
        title: String::from(title),
        body: String::new(),
        public_key: String::new(),
        inbox: String::new(),
        shared_inbox: None,
    }
}

fn actor(url: &str, host: &str, key: &str, inbox: &str, shared: Option<&str>) -> Entity {
    Entity {
        id: ident(url, host),
        kind: EntityKind::Actor,
        title: String::new(),
        body: String::new(),
        public_key: String::from(key),
        inbox: String::from(inbox),
        shared_inbox: shared.map(String::from),
    }
}

fn create_envelope(aid: &str, obj: Entity) -> Envelope {
    Envelope {
        activity_id: ident(aid, "remote.example"),
        actor: ident("https://remote.example/u/alice", "remote.example"),
        kind: VerbKind::Create,
        object: ObjectRef::Inline(obj),
        to: vec![],
        extensions: vec![],
    }
}

#[test]
fn identifier_parse_extracts_host() {
    let s = String::from("https://example.org/u/alice");
    let id = Identifier::parse(&s).expect("well-formed reference must parse");
    assert_eq!(id.url, "https://example.org/u/alice");
    assert_eq!(id.host, "example.org");
}

#[test]
fn identifier_parse_drops_port_from_host() {
    let s = String::from("https://example.org:8443/u/alice");
    let id = Identifier::parse(&s).expect("well-formed reference must parse");
    assert_eq!(id.host, "example.org");
}

#[test]
fn store_get_by_identifier_checks_kind() {
    let mut store = Store::new();
    store.upsert(actor("https://remote.example/u/eve", "remote.example", "k", "i", None));
    let url = String::from("https://remote.example/u/eve");
    let e = store.get_by_identifier(&url, EntityKind::Actor).unwrap();
    assert_eq!(e.public_key, "k");
    assert!(matches!(
        store.get_by_identifier(&url, EntityKind::Comment),
        Err(FedError::KindMismatch)
    ));
    assert!(matches!(
        store.get_by_identifier(&String::from("https://remote.example/u/none"), EntityKind::Actor),
        Err(FedError::NotFound)
    ));
}

#[test]
fn identifier_parse_rejects_hostless_or_garbage() {
    assert!(Identifier::parse(&String::from("mailto:alice@example.org")).is_none());
    assert!(Identifier::parse(&String::from("not a reference")).is_none());
}

#[test]
fn scenario_create_redeliver_then_edit() {
    let mut store = Store::new();

    let outcome = apply_create_or_update(
        &mut store,
        &ident("https://remote.example/a/a1", "remote.example"),
        &post("https://remote.example/p/p1", "remote.example", "Hello"),
    );
    assert_eq!(outcome, PipelineOutcome::Applied);
    assert_eq!(store.entity_count(), 1);
    let stored = store.lookup(&String::from("https://remote.example/p/p1")).unwrap();
    assert_eq!(stored.title, "Hello");

    // Redelivery of the identical activity id: no change, no duplicate row.
    let outcome = apply_create_or_update(
        &mut store,
        &ident("https://remote.example/a/a1", "remote.example"),
        &post("https://remote.example/p/p1", "remote.example", "Hello"),
    );
    assert_eq!(outcome, PipelineOutcome::Applied);
    assert_eq!(store.entity_count(), 1);
    let stored = store.lookup(&String::from("https://remote.example/p/p1")).unwrap();
    assert_eq!(stored.title, "Hello");

    // A later Create carrying the same object id merges as an update.
    let outcome = apply_create_or_update(
        &mut store,
        &ident("https://remote.example/a/a2", "remote.example"),
        &post("https://remote.example/p/p1", "remote.example", "Hello (edited)"),
    );
    assert_eq!(outcome, PipelineOutcome::Applied);
    assert_eq!(store.entity_count(), 1);
    let stored = store.lookup(&String::from("https://remote.example/p/p1")).unwrap();
    assert_eq!(stored.title, "Hello (edited)");
}

#[test]
fn create_for_existing_id_merges_fields() {
    let mut store = Store::new();
    store.upsert(post("https://remote.example/p/p9", "remote.example", "old title"));
    let outcome = apply_create_or_update(
        &mut store,
        &ident("https://remote.example/a/a7", "remote.example"),
        &post("https://remote.example/p/p9", "remote.example", "new title"),
    );
    assert_eq!(outcome, PipelineOutcome::Applied);
    assert_eq!(store.entity_count(), 1);
    let stored = store.lookup(&String::from("https://remote.example/p/p9")).unwrap();
    assert_eq!(stored.title, "new title");
}

#[test]
fn create_for_existing_id_of_other_kind_is_rejected() {
    let mut store = Store::new();
    store.upsert(actor("https://remote.example/u/bob", "remote.example", "k", "i", None));
    let outcome = apply_create_or_update(
        &mut store,
        &ident("https://remote.example/a/a8", "remote.example"),
        &post("https://remote.example/u/bob", "remote.example", "title"),
    );
    assert_eq!(outcome, PipelineOutcome::Rejected(FedError::KindMismatch));
    assert_eq!(store.entity_count(), 1);
}

#[test]
fn delete_removes_and_is_idempotent() {
    let mut store = Store::new();
    store.upsert(post("https://remote.example/p/p2", "remote.example", "bye"));
    let target = String::from("https://remote.example/p/p2");
    let outcome = apply_delete(
        &mut store,
        &ident("https://remote.example/a/d1", "remote.example"),
        &target,
    );
    assert_eq!(outcome, PipelineOutcome::Applied);
    assert_eq!(store.entity_count(), 0);
    let outcome = apply_delete(
        &mut store,
        &ident("https://remote.example/a/d1", "remote.example"),
        &target,
    );
    assert_eq!(outcome, PipelineOutcome::Applied);
    assert_eq!(store.entity_count(), 0);
}

#[test]
fn kind_mismatch_on_resolution() {
    let mut store = Store::new();
    store.upsert(actor("https://remote.example/u/alice", "remote.example", "k", "i", None));
    let cache = RequestCache::new();
    let deny = DenyList { hosts: vec![] };
    let r = resolve_local(
        &cache,
        &store,
        &deny,
        &ident("https://remote.example/u/alice", "remote.example"),
        EntityKind::Post,
    );
    assert!(matches!(r, Err(FedError::KindMismatch)));
}

#[test]
fn blocked_host_fails_resolution() {
    let store = Store::new();
    let cache = RequestCache::new();
    let deny = DenyList { hosts: vec![String::from("evil.example")] };
    let r = resolve_local(
        &cache,
        &store,
        &deny,
        &ident("https://evil.example/p/x", "evil.example"),
        EntityKind::Post,
    );
    assert!(matches!(r, Err(FedError::Blocked)));
}

#[test]
fn resolution_fetches_once_per_operation() {
    let mut store = Store::new();
    let mut cache = RequestCache::new();
    let deny = DenyList { hosts: vec![] };
    let id = ident("https://remote.example/p/p3", "remote.example");

    let r = resolve_local(&cache, &store, &deny, &id, EntityKind::Post);
    assert!(matches!(r, Ok(Resolution::NeedsFetch)));

    let fetched = post("https://remote.example/p/p3", "remote.example", "fetched");
    let r = resolve_apply_fetch(
        &mut cache,
        &mut store,
        &id,
        EntityKind::Post,
        FetchOutcome::Payload(fetched),
    );
    assert!(r.is_ok());
    assert_eq!(store.entity_count(), 1);

    // The same operation resolving the same identifier again is served from
    // the request cache: no further fetch is demanded.
    let r = resolve_local(&cache, &store, &deny, &id, EntityKind::Post);
    match r {
        Ok(Resolution::Found(e)) => assert_eq!(e.title, "fetched"),
        _ => panic!("expected a cache hit"),
    }
}

#[test]
fn fetch_failures_map_to_error_taxonomy() {
    let deny = DenyList { hosts: vec![] };
    let id = ident("https://remote.example/p/p4", "remote.example");

    let mut store = Store::new();
    let mut cache = RequestCache::new();
    let r = resolve_apply_fetch(&mut cache, &mut store, &id, EntityKind::Post, FetchOutcome::Missing);
    assert!(matches!(r, Err(FedError::NotFound)));

    let r = resolve_apply_fetch(
        &mut cache,
        &mut store,
        &id,
        EntityKind::Post,
        FetchOutcome::Unreachable,
    );
    assert!(matches!(r, Err(FedError::Unreachable)));
    assert!(FedError::Unreachable.is_transient());

    let r = resolve_apply_fetch(
        &mut cache,
        &mut store,
        &id,
        EntityKind::Post,
        FetchOutcome::MalformedPayload,
    );
    assert!(matches!(r, Err(FedError::Malformed)));
    assert!(!FedError::Malformed.is_transient());

    // A payload describing another identifier is malformed.
    let wrong_id = post("https://remote.example/p/other", "remote.example", "t");
    let r = resolve_apply_fetch(
        &mut cache,
        &mut store,
        &id,
        EntityKind::Post,
        FetchOutcome::Payload(wrong_id),
    );
    assert!(matches!(r, Err(FedError::Malformed)));

    // A payload of the wrong kind is a kind mismatch, never coerced.
    let wrong_kind = actor("https://remote.example/p/p4", "remote.example", "k", "i", None);
    let r = resolve_apply_fetch(
        &mut cache,
        &mut store,
        &id,
        EntityKind::Post,
        FetchOutcome::Payload(wrong_kind),
    );
    assert!(matches!(r, Err(FedError::KindMismatch)));
    assert_eq!(store.entity_count(), 0);
    let r = resolve_local(&cache, &store, &deny, &id, EntityKind::Post);
    assert!(matches!(r, Ok(Resolution::NeedsFetch)));
}

#[test]
fn stale_key_mismatch_refreshes_exactly_once() {
    let mut session = VerifySession::start();
    let a1 = verify_step(&mut session, &VerifyEvent::CheckFailed { key_stale: true });
    assert_eq!(a1, VerifyAction::RefreshKey);
    // The retried check fails as well: rejected, no second refresh.
    let a2 = verify_step(&mut session, &VerifyEvent::CheckFailed { key_stale: true });
    assert_eq!(a2, VerifyAction::Reject);
    assert!(session.finished);
    assert!(!session.accepted);
}

#[test]
fn rotation_retry_succeeds_after_refresh() {
    let mut session = VerifySession::start();
    assert_eq!(
        verify_step(&mut session, &VerifyEvent::CheckFailed { key_stale: true }),
        VerifyAction::RefreshKey
    );
    assert_eq!(verify_step(&mut session, &VerifyEvent::CheckSucceeded), VerifyAction::Accept);
    assert!(session.finished);
    assert!(session.accepted);
}

#[test]
fn fresh_key_mismatch_rejects_without_refresh() {
    let mut session = VerifySession::start();
    let a = verify_step(&mut session, &VerifyEvent::CheckFailed { key_stale: false });
    assert_eq!(a, VerifyAction::Reject);
    assert!(!session.refreshed);
}

#[test]
fn key_cache_put_get_and_staleness() {
    let mut cache = KeyCache::new(600);
    cache.put(String::from("https://remote.example/u/alice"), String::from("pk1"), 1000);
    let e = cache.get(&String::from("https://remote.example/u/alice")).unwrap();
    assert_eq!(e.key, "pk1");
    assert_eq!(e.fetched_at, 1000);
    assert!(!cache.is_stale(1000, 1600));
    assert!(cache.is_stale(1000, 1601));
    // Refresh replaces, never duplicates.
    cache.put(String::from("https://remote.example/u/alice"), String::from("pk2"), 2000);
    let e = cache.get(&String::from("https://remote.example/u/alice")).unwrap();
    assert_eq!(e.key, "pk2");
    assert_eq!(cache.entries.len(), 1);
}

#[test]
fn backoff_doubles_then_caps() {
    let cfg = BackoffConfig { base_delay: 2, cap: 100, max_attempts: 10 };
    let expected: [u64; 8] = [2, 4, 8, 16, 32, 64, 100, 100];
    let mut prev: u64 = 0;
    for (n, want) in expected.iter().enumerate() {
        let d = backoff_delay(&cfg, n as u32);
        assert_eq!(d, *want);
        assert!(d >= prev, "delays must never decrease");
        prev = d;
    }
}

#[test]
fn job_retries_then_exhausts() {
    let cfg = BackoffConfig { base_delay: 2, cap: 100, max_attempts: 3 };
    let mut job = federation_core::delivery::DeliveryJob {
        inbox: String::from("https://remote.example/inbox"),
        activity_seq: 1,
        attempts: 0,
        next_attempt_at: 0,
        status: DeliveryStatus::Pending,
    };
    job_step(&mut job, &HttpOutcome::Status(500), 1000, 1, &cfg);
    assert_eq!(job.status, DeliveryStatus::Pending);
    assert_eq!(job.attempts, 1);
    assert_eq!(job.next_attempt_at, 1000 + 2 + 1);
    job_step(&mut job, &HttpOutcome::NetworkError, 2000, 0, &cfg);
    assert_eq!(job.status, DeliveryStatus::Pending);
    assert_eq!(job.attempts, 2);
    assert_eq!(job.next_attempt_at, 2000 + 4);
    job_step(&mut job, &HttpOutcome::Status(503), 3000, 0, &cfg);
    assert_eq!(job.status, DeliveryStatus::Exhausted);
    assert_eq!(job.attempts, 3);
}

#[test]
fn permanent_rejection_is_terminal() {
    let cfg = BackoffConfig { base_delay: 2, cap: 100, max_attempts: 3 };
    let mut job = federation_core::delivery::DeliveryJob {
        inbox: String::from("https://remote.example/inbox"),
        activity_seq: 1,
        attempts: 0,
        next_attempt_at: 0,
        status: DeliveryStatus::Pending,
    };
    job_step(&mut job, &HttpOutcome::Status(410), 1000, 0, &cfg);
    assert_eq!(job.status, DeliveryStatus::RejectedByRemote);
}

#[test]
fn delivery_outcome_classification() {
    assert_eq!(classify_outcome(&HttpOutcome::Status(200)), OutcomeClass::Success);
    assert_eq!(classify_outcome(&HttpOutcome::Status(204)), OutcomeClass::Success);
    assert_eq!(classify_outcome(&HttpOutcome::Status(404)), OutcomeClass::Permanent);
    assert_eq!(classify_outcome(&HttpOutcome::Status(401)), OutcomeClass::Permanent);
    assert_eq!(classify_outcome(&HttpOutcome::Status(429)), OutcomeClass::Retryable);
    assert_eq!(classify_outcome(&HttpOutcome::Status(500)), OutcomeClass::Retryable);
    assert_eq!(classify_outcome(&HttpOutcome::Status(503)), OutcomeClass::Retryable);
    assert_eq!(classify_outcome(&HttpOutcome::NetworkError), OutcomeClass::Retryable);
}

#[test]
fn shared_inbox_collapses_to_one_delivery() {
    let shared = Some("https://remote.example/inbox");
    let recipients = vec![
        Recipient {
            id: ident("https://remote.example/u/a", "remote.example"),
            inbox: String::from("https://remote.example/u/a/inbox"),
            shared_inbox: shared.map(String::from),
        },
        Recipient {
            id: ident("https://remote.example/u/b", "remote.example"),
            inbox: String::from("https://remote.example/u/b/inbox"),
            shared_inbox: shared.map(String::from),
        },
        Recipient {
            id: ident("https://remote.example/u/c", "remote.example"),
            inbox: String::from("https://remote.example/u/c/inbox"),
            shared_inbox: shared.map(String::from),
        },
    ];
    let targets = expand_inboxes(&recipients);
    assert_eq!(targets.len(), 1);
    assert_eq!(targets[0], "https://remote.example/inbox");
}

#[test]
fn distinct_inboxes_are_kept_in_first_occurrence_order() {
    let recipients = vec![
        Recipient {
            id: ident("https://one.example/u/a", "one.example"),
            inbox: String::from("https://one.example/u/a/inbox"),
            shared_inbox: None,
        },
        Recipient {
            id: ident("https://two.example/u/b", "two.example"),
            inbox: String::from("https://two.example/u/b/inbox"),
            shared_inbox: Some(String::from("https://two.example/inbox")),
        },
        Recipient {
            id: ident("https://one.example/u/c", "one.example"),
            inbox: String::from("https://one.example/u/a/inbox"),
            shared_inbox: None,
        },
    ];
    let targets = expand_inboxes(&recipients);
    assert_eq!(targets.len(), 2);
    assert_eq!(targets[0], "https://one.example/u/a/inbox");
    assert_eq!(targets[1], "https://two.example/inbox");
}

#[test]
fn queue_keeps_per_inbox_order() {
    let mut q = DeliveryQueue::new();
    let inbox = String::from("https://remote.example/inbox");
    q.enqueue_fanout(1, vec![inbox.clone()], 100);
    q.enqueue_fanout(2, vec![inbox.clone()], 200);
    let first = q.next_pending_for_inbox(&inbox).unwrap();
    assert_eq!(q.jobs[first].activity_seq, 1);
    q.jobs[first].status = DeliveryStatus::Succeeded;
    let second = q.next_pending_for_inbox(&inbox).unwrap();
    assert_eq!(q.jobs[second].activity_seq, 2);
    q.jobs[second].status = DeliveryStatus::Succeeded;
    assert!(q.next_pending_for_inbox(&inbox).is_none());
}

#[test]
fn classify_maps_known_tags_and_rejects_unknown() {
    assert_eq!(classify(&String::from("Create")), VerbKind::Create);
    assert_eq!(classify(&String::from("Update")), VerbKind::Update);
    assert_eq!(classify(&String::from("Delete")), VerbKind::Delete);
    assert_eq!(classify(&String::from("Undo")), VerbKind::Undo);
    assert_eq!(classify(&String::from("Follow")), VerbKind::Follow);
    assert_eq!(classify(&String::from("Accept")), VerbKind::Accept);
    assert_eq!(classify(&String::from("Reject")), VerbKind::Reject);
    assert_eq!(classify(&String::from("Announce")), VerbKind::Announce);
    assert_eq!(classify(&String::from("Like")), VerbKind::Like);
    assert_eq!(classify(&String::from("Dislike")), VerbKind::Dislike);
    assert_eq!(classify(&String::from("FancyNewVerb")), VerbKind::Unsupported);
}

#[test]
fn unsupported_kind_is_rejected_without_side_effects() {
    let mut store = Store::new();
    let mut env = create_envelope(
        "https://remote.example/a/u1",
        post("https://remote.example/p/px", "remote.example", "t"),
    );
    env.kind = VerbKind::Unsupported;
    let step = process_authenticated(&mut store, &env);
    assert!(matches!(
        step,
        InboundStep::Done(PipelineOutcome::Rejected(FedError::UnsupportedKind))
    ));
    assert_eq!(store.entity_count(), 0);
}

#[test]
fn signature_failure_rejects_and_unreachable_actor_defers() {
    let mut store = Store::new();
    let env = create_envelope(
        "https://remote.example/a/s1",
        post("https://remote.example/p/py", "remote.example", "t"),
    );
    let step = handle_inbound(&mut store, &env, &AuthOutcome::SignatureFailed);
    assert!(matches!(
        step,
        InboundStep::Done(PipelineOutcome::Rejected(FedError::SignatureInvalid))
    ));
    assert_eq!(store.entity_count(), 0);

    let step = handle_inbound(&mut store, &env, &AuthOutcome::ActorFailed(FedError::Unreachable));
    assert!(matches!(step, InboundStep::Done(PipelineOutcome::Deferred)));

    let step = handle_inbound(&mut store, &env, &AuthOutcome::ActorFailed(FedError::NotFound));
    assert!(matches!(
        step,
        InboundStep::Done(PipelineOutcome::Rejected(FedError::ActorUnresolvable))
    ));
    assert_eq!(store.entity_count(), 0);

    let step = handle_inbound(&mut store, &env, &AuthOutcome::Verified);
    assert!(matches!(step, InboundStep::Done(PipelineOutcome::Applied)));
    assert_eq!(store.entity_count(), 1);
}

#[test]
fn referenced_object_demands_resolution() {
    let mut store = Store::new();
    let env = Envelope {
        activity_id: ident("https://remote.example/a/r1", "remote.example"),
        actor: ident("https://remote.example/u/alice", "remote.example"),
        kind: VerbKind::Create,
        object: ObjectRef::Reference(ident("https://remote.example/p/pz", "remote.example")),
        to: vec![],
        extensions: vec![],
    };
    let step = process_authenticated(&mut store, &env);
    match step {
        InboundStep::NeedsObject(id) => assert_eq!(id.url, "https://remote.example/p/pz"),
        _ => panic!("a bare reference must demand resolution"),
    }
    assert_eq!(store.entity_count(), 0);
}

#[test]
fn other_supported_kinds_record_the_activity_once() {
    let mut store = Store::new();
    let mut env = create_envelope(
        "https://remote.example/a/l1",
        post("https://remote.example/p/pq", "remote.example", "t"),
    );
    env.kind = VerbKind::Like;
    let step = process_authenticated(&mut store, &env);
    assert!(matches!(step, InboundStep::Done(PipelineOutcome::Applied)));
    assert_eq!(store.entity_count(), 0);
    let step = process_authenticated(&mut store, &env);
    assert!(matches!(step, InboundStep::Done(PipelineOutcome::Applied)));
}

#[test]
fn envelope_extensions_survive_processing() {
    let mut store = Store::new();
    let mut env = create_envelope(
        "https://remote.example/a/e1",
        post("https://remote.example/p/pe", "remote.example", "t"),
    );
    env.extensions = vec![
        (String::from("ostatus:conversation"), String::from("tag:remote.example,2024:c1")),
        (String::from("litepub:directMessage"), String::from("false")),
    ];
    let _ = process_authenticated(&mut store, &env);
    assert_eq!(env.extensions.len(), 2);
    assert_eq!(env.extensions[0].0, "ostatus:conversation");
    assert_eq!(env.extensions[0].1, "tag:remote.example,2024:c1");
    assert_eq!(env.extensions[1].0, "litepub:directMessage");
    assert_eq!(env.extensions[1].1, "false");
}
