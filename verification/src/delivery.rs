use vstd::prelude::*;
use vstd::arithmetic::power2::{lemma_pow2_pos, lemma_pow2_strictly_increases, lemma_pow2_unfold, pow2};
use crate::ids::Identifier;

verus! {

/// Retry policy of the delivery engine: exponential backoff from
/// `base_delay`, capped at `cap`, with at most `max_attempts` attempts per
/// job.
pub struct BackoffConfig {
    /// First retry delay; also bounds the jitter added to each delay.
    pub base_delay: u64,
    /// Upper bound every delay is clamped to.
    pub cap: u64,
    /// Attempts after which a still-failing job is terminally exhausted.
    pub max_attempts: u32,
}

/// A usable retry policy: a positive base no larger than the cap, and at
/// least one attempt.
pub open spec fn cfg_wf(c: BackoffConfig) -> bool {
    1 <= c.base_delay <= c.cap && c.max_attempts >= 1
}

/// The delay scheduled before retry number `attempt` (counting from zero):
/// the base delay doubled `attempt` times, clamped to the cap.
pub open spec fn delay_spec(c: BackoffConfig, attempt: nat) -> int {
    let raw = c.base_delay * pow2(attempt);
    if raw > c.cap {
        c.cap as int
    } else {
        raw as int
    }
}

/// Law: scheduled delays never decrease as the attempt count grows.
pub proof fn lemma_backoff_monotone(c: BackoffConfig, a1: nat, a2: nat)
    requires
        cfg_wf(c),
        a1 <= a2,
    ensures
        delay_spec(c, a1) <= delay_spec(c, a2),
{
    if a1 < a2 {
        lemma_pow2_strictly_increases(a1, a2);
        assert(c.base_delay * pow2(a1) <= c.base_delay * pow2(a2)) by (nonlinear_arith)
            requires
                pow2(a1) <= pow2(a2),
                c.base_delay >= 1,
        ;
    }
}

/// Law: below the cap, each successive scheduled delay strictly exceeds the
/// previous one.
pub proof fn lemma_backoff_strict(c: BackoffConfig, a: nat)
    requires
        cfg_wf(c),
        delay_spec(c, a + 1) < c.cap,
    ensures
        delay_spec(c, a) < delay_spec(c, a + 1),
{
    lemma_pow2_pos(a);
    lemma_pow2_strictly_increases(a, a + 1);
    assert(c.base_delay * pow2(a) < c.base_delay * pow2(a + 1)) by (nonlinear_arith)
        requires
            pow2(a) < pow2(a + 1),
            c.base_delay >= 1,
    ;
}

/// Law: jitter does not break monotonicity. As long as the next delay is
/// still below the cap, a scheduled time built from the delay plus any
/// jitter bounded by the base never decreases from one retry to the next,
/// whatever jitter either retry drew.
pub proof fn lemma_backoff_jitter_monotone(c: BackoffConfig, a: nat, j1: u64, j2: u64)
    requires
        cfg_wf(c),
        j1 <= c.base_delay,
        c.base_delay * pow2(a + 1) <= c.cap,
    ensures
        delay_spec(c, a) + j1 <= delay_spec(c, a + 1) + j2,
{
    lemma_pow2_pos(a);
    lemma_pow2_unfold(a + 1);
    assert(c.base_delay * pow2(a) >= c.base_delay) by (nonlinear_arith)
        requires
            pow2(a) >= 1,
            c.base_delay >= 1,
    ;
    assert(c.base_delay * pow2(a + 1) == 2 * (c.base_delay * pow2(a))) by (nonlinear_arith)
        requires
            pow2(a + 1) == 2 * pow2(a),
    ;
}

/// Computes the delay scheduled before retry number `attempt`.
pub fn backoff_delay(c: &BackoffConfig, attempt: u32) -> (r: u64)
    requires
        cfg_wf(*c),
    ensures
        r as int == delay_spec(*c, attempt as nat),
{
    proof {
        vstd::arithmetic::power2::lemma2_to64();
        assert(pow2(0) == 1);
    }
    let mut d: u64 = c.base_delay;
    let mut i: u32 = 0;
    while i < attempt
        invariant
            cfg_wf(*c),
            i <= attempt,
            d as int == delay_spec(*c, i as nat),
            d <= c.cap,
        decreases attempt - i,
    {
        proof {
            lemma_pow2_unfold(i as nat + 1);
            lemma_pow2_pos(i as nat);
            assert(c.base_delay * pow2(i as nat + 1) == 2 * (c.base_delay * pow2(i as nat)))
                by (nonlinear_arith)
                requires
                    pow2(i as nat + 1) == 2 * pow2(i as nat),
            ;
        }
        if d > c.cap / 2 {
            d = c.cap;
        } else {
            d = d * 2;
        }
        i = i + 1;
    }
    d
}

/// Saturating addition on timestamps.
pub fn sat_add(a: u64, b: u64) -> (r: u64)
    ensures
        r as int == if a + b > u64::MAX {
            u64::MAX as int
        } else {
            a + b
        },
{
    if a > u64::MAX - b {
        u64::MAX
    } else {
        a + b
    }
}

/// What one delivery attempt produced at the transport: an HTTP status, or
/// no response at all.
pub enum HttpOutcome {
    /// The remote answered with this status code.
    Status(u16),
    /// Network error or timeout; no response.
    NetworkError,
}

/// How a delivery outcome is acted on.
#[derive(Clone, Copy, Debug, PartialEq, Eq, Structural)]
pub enum OutcomeClass {
    /// Terminal success.
    Success,
    /// Terminal failure: the remote rejected the delivery permanently.
    Permanent,
    /// Worth retrying with backoff.
    Retryable,
}

/// The classification of a delivery outcome: a 2xx status succeeds; a 4xx
/// status other than 429 is a permanent rejection; everything else —
/// including 429, 5xx, and the absence of a response — is retryable.
pub open spec fn classify_outcome_spec(o: HttpOutcome) -> OutcomeClass {
    match o {
        HttpOutcome::NetworkError => OutcomeClass::Retryable,
        HttpOutcome::Status(s) => if 200 <= s < 300 {
            OutcomeClass::Success
        } else if 400 <= s < 500 && s != 429 {
            OutcomeClass::Permanent
        } else {
            OutcomeClass::Retryable
        },
    }
}

/// Classifies the outcome of one delivery attempt.
pub fn classify_outcome(o: &HttpOutcome) -> (r: OutcomeClass)
    ensures
        r == classify_outcome_spec(*o),
{
    match o {
        HttpOutcome::NetworkError => OutcomeClass::Retryable,
        HttpOutcome::Status(s) => {
            let code = *s;
            if 200 <= code && code < 300 {
                OutcomeClass::Success
            } else if 400 <= code && code < 500 && code != 429 {
                OutcomeClass::Permanent
            } else {
                OutcomeClass::Retryable
            }
        },
    }
}

/// Where a delivery job stands.
#[derive(Clone, Copy, Debug, PartialEq, Eq, Structural)]
pub enum DeliveryStatus {
    /// Waiting for its (next) attempt.
    Pending,
    /// Terminal: delivered.
    Succeeded,
    /// Terminal: rejected permanently by the remote.
    RejectedByRemote,
    /// Terminal: the attempt cap was reached without success.
    Exhausted,
}

/// One scheduled delivery of one activity to one inbox.
pub struct DeliveryJob {
    /// Target inbox endpoint.
    pub inbox: String,
    /// Creation-order number of the activity being delivered; deliveries to
    /// one inbox happen in this order.
    pub activity_seq: u64,
    /// Attempts made so far.
    pub attempts: u32,
    /// Earliest time of the next attempt.
    pub next_attempt_at: u64,
    /// Where the job stands.
    pub status: DeliveryStatus,
}

/// Applies the outcome of one attempt to a job: success and permanent
/// rejection are terminal; a retryable outcome increments the attempt count,
/// exhausts the job once the cap is reached, and otherwise schedules the
/// next attempt after the backoff delay plus the caller's jitter.
pub fn job_step(job: &mut DeliveryJob, outcome: &HttpOutcome, now: u64, jitter: u64, c:
    &BackoffConfig)
    requires
        old(job).status == DeliveryStatus::Pending,
        old(job).attempts < c.max_attempts,
        cfg_wf(*c),
        jitter <= c.base_delay,
    ensures
        final(job).inbox == old(job).inbox,
        final(job).activity_seq == old(job).activity_seq,
        match classify_outcome_spec(*outcome) {
            OutcomeClass::Success => final(job).status == DeliveryStatus::Succeeded
                && final(job).attempts == old(job).attempts + 1,
            OutcomeClass::Permanent => final(job).status == DeliveryStatus::RejectedByRemote
                && final(job).attempts == old(job).attempts + 1,
            OutcomeClass::Retryable => final(job).attempts == old(job).attempts + 1 && if old(
                job,
            ).attempts + 1 == c.max_attempts {
                final(job).status == DeliveryStatus::Exhausted
            } else {
                final(job).status == DeliveryStatus::Pending && final(job).next_attempt_at as int
                    == if now + delay_spec(*c, old(job).attempts as nat) + jitter > u64::MAX {
                    u64::MAX as int
                } else {
                    now + delay_spec(*c, old(job).attempts as nat) + jitter
                }
            },
        },
{
    let class = classify_outcome(outcome);
    job.attempts = job.attempts + 1;
    match class {
        OutcomeClass::Success => {
            job.status = DeliveryStatus::Succeeded;
        },
        OutcomeClass::Permanent => {
            job.status = DeliveryStatus::RejectedByRemote;
        },
        OutcomeClass::Retryable => {
            if job.attempts == c.max_attempts {
                job.status = DeliveryStatus::Exhausted;
            } else {
                let delay = backoff_delay(c, job.attempts - 1);
                let with_jitter = sat_add(delay, jitter);
                job.next_attempt_at = sat_add(now, with_jitter);
            }
        },
    }
}

/// A recipient of an outbound activity: its identifier and its delivery
/// endpoints.
pub struct Recipient {
    /// The recipient actor.
    pub id: Identifier,
    /// Personal inbox endpoint.
    pub inbox: String,
    /// Shared per-instance inbox endpoint, when the instance offers one.
    pub shared_inbox: Option<String>,
}

/// The endpoint an activity for this recipient is delivered to: the shared
/// inbox when the instance offers one, else the personal inbox.
pub open spec fn target_of(r: Recipient) -> Seq<char> {
    match r.shared_inbox {
        Some(s) => s@,
        None => r.inbox@,
    }
}

/// The distinct delivery endpoints of a recipient set, in order of first
/// occurrence: recipients sharing one inbox endpoint collapse to one target.
pub open spec fn dedup_targets(rs: Seq<Recipient>) -> Seq<Seq<char>>
    decreases rs.len(),
{
    if rs.len() == 0 {
        Seq::empty()
    } else {
        let prev = dedup_targets(rs.drop_last());
        if prev.contains(target_of(rs.last())) {
            prev
        } else {
            prev.push(target_of(rs.last()))
        }
    }
}

/// Law: the expansion of a recipient set contains the target of every
/// recipient, contains nothing else, and contains no endpoint twice.
pub proof fn lemma_dedup_targets(rs: Seq<Recipient>)
    ensures
        forall|i: int| 0 <= i < rs.len() ==> dedup_targets(rs).contains(#[trigger] target_of(rs[i])),
        forall|t: Seq<char>| #[trigger] dedup_targets(rs).contains(t) ==> exists|i: int|
            0 <= i < rs.len() && target_of(rs[i]) == t,
        forall|i: int, j: int|
            0 <= i < j < dedup_targets(rs).len() ==> dedup_targets(rs)[i] != dedup_targets(rs)[j],
    decreases rs.len(),
{
    if rs.len() != 0 {
        lemma_dedup_targets(rs.drop_last());
        let prev = dedup_targets(rs.drop_last());
        let t = target_of(rs.last());
        assert forall|i: int|
            0 <= i < rs.len() implies dedup_targets(rs).contains(#[trigger] target_of(rs[i])) by {
            if i < rs.len() - 1 {
                assert(rs.drop_last()[i] == rs[i]);
                assert(prev.contains(target_of(rs[i])));
                if !prev.contains(t) {
                    let k = choose|k: int| 0 <= k < prev.len() && prev[k] == target_of(rs[i]);
                    assert(prev.push(t)[k] == target_of(rs[i]));
                }
            } else {
                assert(rs[i] == rs.last());
                if prev.contains(t) {
                } else {
                    assert(prev.push(t).last() == t);
                }
            }
        }
        assert forall|u: Seq<char>| #[trigger] dedup_targets(rs).contains(u) implies exists|i: int|
            0 <= i < rs.len() && target_of(rs[i]) == u by {
            if prev.contains(u) {
                let i = choose|i: int| 0 <= i < rs.drop_last().len() && target_of(
                    rs.drop_last()[i],
                ) == u;
                assert(rs[i] == rs.drop_last()[i]);
                assert(target_of(rs[i]) == u);
            } else {
                assert(u == t);
                assert(target_of(rs[rs.len() - 1]) == u);
            }
        }
        if !prev.contains(t) {
            assert forall|i: int, j: int|
                0 <= i < j < dedup_targets(rs).len() implies dedup_targets(rs)[i] != dedup_targets(
                rs,
            )[j] by {
                if j == dedup_targets(rs).len() - 1 {
                    assert(dedup_targets(rs)[i] == prev[i]);
                    if prev[i] == t {
                        assert(prev.contains(t));
                    }
                } else {
                    assert(dedup_targets(rs)[i] == prev[i]);
                    assert(dedup_targets(rs)[j] == prev[j]);
                }
            }
        }
    }
}

/// Law: when every recipient in a non-empty set shares one inbox endpoint,
/// the expansion is that single endpoint: one outbound request, not one per
/// recipient.
pub proof fn lemma_shared_inbox_single(rs: Seq<Recipient>, t: Seq<char>)
    requires
        rs.len() > 0,
        forall|i: int| 0 <= i < rs.len() ==> target_of(#[trigger] rs[i]) == t,
    ensures
        dedup_targets(rs) =~= seq![t],
    decreases rs.len(),
{
    if rs.len() == 1 {
        assert(dedup_targets(rs.drop_last()).len() == 0);
        assert(dedup_targets(rs) =~= Seq::<Seq<char>>::empty().push(t));
    } else {
        lemma_shared_inbox_single(rs.drop_last(), t);
        assert(rs.last() == rs[rs.len() - 1]);
        assert(dedup_targets(rs.drop_last()).contains(t)) by {
            assert(dedup_targets(rs.drop_last())[0] == t);
        }
    }
}

/// Whether the vector contains the string.
fn vec_contains_str(v: &Vec<String>, s: &String) -> (r: bool)
    ensures
        r == v@.map_values(|x: String| x@).contains(s@),
{
    let n = v.len();
    let mut i: usize = 0;
    while i < n
        invariant
            n == v@.len(),
            i <= n,
            forall|j: int| 0 <= j < i ==> v@[j]@ != s@,
        decreases n - i,
    {
        if v[i] == *s {
            assert(v@.map_values(|x: String| x@)[i as int] == s@);
            return true;
        }
        i = i + 1;
    }
    proof {
        let ghost m = v@.map_values(|x: String| x@);
        assert forall|j: int| 0 <= j < m.len() implies m[j] != s@ by {
            assert(m[j] == v@[j]@);
        }
    }
    false
}

/// Expands a recipient set into the distinct inbox endpoints to deliver to,
/// collapsing recipients that share an endpoint into one delivery.
pub fn expand_inboxes(rs: &Vec<Recipient>) -> (r: Vec<String>)
    ensures
        r@.map_values(|s: String| s@) == dedup_targets(rs@),
{
    let mut out: Vec<String> = Vec::new();
    let n = rs.len();
    let mut i: usize = 0;
    proof {
        assert(out@.map_values(|s: String| s@) =~= dedup_targets(rs@.take(0)));
    }
    while i < n
        invariant
            n == rs@.len(),
            i <= n,
            out@.map_values(|s: String| s@) == dedup_targets(rs@.take(i as int)),
        decreases n - i,
    {
        let target = match &rs[i].shared_inbox {
            Some(s) => s.clone(),
            None => rs[i].inbox.clone(),
        };
        proof {
            assert(target@ == target_of(rs@[i as int]));
            assert(rs@.take(i as int + 1).drop_last() =~= rs@.take(i as int));
            assert(rs@.take(i as int + 1).last() == rs@[i as int]);
        }
        if !vec_contains_str(&out, &target) {
            out.push(target);
            proof {
                assert(out@.map_values(|s: String| s@) =~= dedup_targets(
                    rs@.take(i as int + 1),
                ));
            }
        } else {
            proof {
                assert(out@.map_values(|s: String| s@) =~= dedup_targets(
                    rs@.take(i as int + 1),
                ));
            }
        }
        i = i + 1;
    }
    proof {
        assert(rs@.take(n as int) =~= rs@);
    }
    out
}

/// The outbound delivery queue. Jobs for different inboxes may run in
/// parallel under a bounded worker pool; jobs for one inbox are kept in
/// activity-creation order, so a Create is visible remotely before a later
/// Update of the same object.
pub struct DeliveryQueue {
    /// The jobs, appended in fan-out order.
    pub jobs: Vec<DeliveryJob>,
    /// The highest activity number enqueued so far.
    pub last_seq: u64,
}

impl DeliveryQueue {
    /// Jobs targeting one inbox stand in activity-creation order, and no
    /// job is newer than the high-water mark.
    pub open spec fn wf(&self) -> bool {
        &&& forall|i: int, j: int|
            0 <= i < j < self.jobs@.len() && self.jobs@[i].inbox@ == self.jobs@[j].inbox@
                ==> self.jobs@[i].activity_seq <= self.jobs@[j].activity_seq
        &&& forall|i: int| 0 <= i < self.jobs@.len() ==> #[trigger] self.jobs@[i].activity_seq
            <= self.last_seq
    }

    /// An empty queue.
    pub fn new() -> (r: DeliveryQueue)
        ensures
            r.wf(),
            r.jobs@.len() == 0,
            r.last_seq == 0,
    {
        DeliveryQueue { jobs: Vec::new(), last_seq: 0 }
    }

    /// Fans one activity out to its (already deduplicated) inbox endpoints:
    /// one pending job per endpoint, ready at `now`. Activities must be
    /// enqueued in creation order.
    pub fn enqueue_fanout(&mut self, activity_seq: u64, inboxes: Vec<String>, now: u64)
        requires
            old(self).wf(),
            activity_seq >= old(self).last_seq,
        ensures
            final(self).wf(),
            final(self).last_seq == activity_seq,
            final(self).jobs@.len() == old(self).jobs@.len() + inboxes@.len(),
            forall|k: int|
                0 <= k < old(self).jobs@.len() ==> final(self).jobs@[k] == old(self).jobs@[k],
            forall|k: int|
                0 <= k < inboxes@.len() ==> {
                    let j = #[trigger] final(self).jobs@[old(self).jobs@.len() + k];
                    j.inbox@ == inboxes@[k]@ && j.activity_seq == activity_seq && j.attempts == 0
                        && j.next_attempt_at == now && j.status == DeliveryStatus::Pending
                },
    {
        self.last_seq = activity_seq;
        let n = inboxes.len();
        let ghost base = self.jobs@.len() as int;
        for k in 0..n
            invariant
                old(self).wf(),
                activity_seq >= old(self).last_seq,
                self.wf(),
                self.last_seq == activity_seq,
                n == inboxes@.len(),
                base == old(self).jobs@.len(),
                self.jobs@.len() == base + k,
                forall|m: int| 0 <= m < base ==> self.jobs@[m] == old(self).jobs@[m],
                forall|m: int|
                    0 <= m < k ==> {
                        let j = #[trigger] self.jobs@[base + m];
                        j.inbox@ == inboxes@[m]@ && j.activity_seq == activity_seq && j.attempts
                            == 0 && j.next_attempt_at == now && j.status
                            == DeliveryStatus::Pending
                    },
        {
            let job = DeliveryJob {
                inbox: inboxes[k].clone(),
                activity_seq,
                attempts: 0,
                next_attempt_at: now,
                status: DeliveryStatus::Pending,
            };
            self.jobs.push(job);
            proof {
                let ghost last = self.jobs@.len() - 1;
                assert forall|i: int, j: int|
                    0 <= i < j < self.jobs@.len() && self.jobs@[i].inbox@
                        == self.jobs@[j].inbox@ implies self.jobs@[i].activity_seq
                    <= self.jobs@[j].activity_seq by {
                    if j == last {
                        if i < base {
                            assert(self.jobs@[i] == old(self).jobs@[i]);
                            assert(old(self).jobs@[i].activity_seq <= old(self).last_seq);
                        }
                    }
                }
            }
        }
    }

    /// The next job to run for an inbox: the first pending job targeting
    /// it, which — by the queue's ordering — carries the smallest activity
    /// number among its pending jobs.
    pub fn next_pending_for_inbox(&self, inbox: &String) -> (r: Option<usize>)
        requires
            self.wf(),
        ensures
            match r {
                Some(i) => i < self.jobs@.len() && self.jobs@[i as int].inbox@ == inbox@
                    && self.jobs@[i as int].status == DeliveryStatus::Pending && forall|j: int|
                    0 <= j < self.jobs@.len() && #[trigger] self.jobs@[j].inbox@ == inbox@
                        && self.jobs@[j].status == DeliveryStatus::Pending ==> self.jobs@[
                    i as int].activity_seq <= self.jobs@[j].activity_seq,
                None => forall|j: int|
                    0 <= j < self.jobs@.len() && #[trigger] self.jobs@[j].inbox@ == inbox@
                        ==> self.jobs@[j].status != DeliveryStatus::Pending,
            },
    {
        let n = self.jobs.len();
        let mut i: usize = 0;
        while i < n
            invariant
                self.wf(),
                n == self.jobs@.len(),
                i <= n,
                forall|j: int|
                    0 <= j < i && #[trigger] self.jobs@[j].inbox@ == inbox@ ==> self.jobs@[j].status
                        != DeliveryStatus::Pending,
            decreases n - i,
        {
            let is_match = self.jobs[i].inbox == *inbox;
            let is_pending = match self.jobs[i].status {
                DeliveryStatus::Pending => true,
                _ => false,
            };
            if is_match && is_pending {
                return Some(i);
            }
            i = i + 1;
        }
        None
    }
}

} // verus!
