//! Publishing of events over HTTP: what is sent, and what happens when it fails.
use crate::counters;
use vstd::prelude::*;
use vstd::string::*;

verus! {

/// An event of the `scry_protocol` crate. Nothing is known of what it holds.
#[verifier::external_type_specification]
#[verifier::external_body]
pub struct ExQueryEvent(scry_protocol::QueryEvent);

/// What `scry_protocol::FlatBuffersSerializer::serialize_batch` makes of a batch.
pub uninterp spec fn batch_bytes(
    events: Seq<scry_protocol::QueryEvent>,
    proxy_id: Seq<char>,
    batch_seq: u64,
) -> Seq<u8>;

/// `scry_protocol::FlatBuffersSerializer::serialize_batch` writes a batch as
/// bytes. The bytes depend on the events, the proxy's id and the batch's
/// number alone.
#[verifier::external_body]
fn serialize_batch(
    events: &Vec<scry_protocol::QueryEvent>,
    proxy_id: &str,
    batch_seq: u64,
) -> (r: Vec<u8>)
    ensures
        r@ == batch_bytes(events@, proxy_id@, batch_seq),
{
    scry_protocol::FlatBuffersSerializer::serialize_batch(events.as_slice(), proxy_id, batch_seq)
}

/// Whether `s` is written like a UUID: 32 hexadecimal digits in lower case, in
/// groups of 8, 4, 4, 4 and 12 with hyphens between them.
pub open spec fn is_uuid_text(s: Seq<char>) -> bool {
    &&& s.len() == 36
    &&& forall|i: int|
        0 <= i < 36 ==> if i == 8 || i == 13 || i == 18 || i == 23 {
            #[trigger] s[i] == '-'
        } else {
            ('0' <= s[i] && s[i] <= '9') || ('a' <= s[i] && s[i] <= 'f')
        }
}

/// `uuid::Uuid::new_v4` draws a random UUID, and its `to_string` writes it in
/// lower case with hyphens. Which UUID it is is left to chance.
#[verifier::external_body]
fn random_uuid() -> (r: String)
    ensures
        is_uuid_text(r@),
{
    uuid::Uuid::new_v4().to_string()
}

/// Counts of a publisher.
#[derive(Debug, Clone, Copy, PartialEq, Eq, Structural)]
pub struct PublisherMetrics {
    pub total_events: u64,
    pub total_batches: u64,
    pub total_bytes: u64,
    /// The number of the next batch.
    pub batch_seq: u64,
    pub successful_publishes: u64,
    pub failed_publishes: u64,
}

impl PublisherMetrics {
    /// The counts after a batch of `events` events in `bytes` bytes.
    pub open spec fn after_batch(self, events: u64, bytes: u64) -> PublisherMetrics {
        PublisherMetrics {
            total_events: counters::advanced64(self.total_events, events),
            total_batches: counters::next64(self.total_batches),
            total_bytes: counters::advanced64(self.total_bytes, bytes),
            batch_seq: counters::next64(self.batch_seq),
            ..self
        }
    }
}

/// A batch that is being sent.
#[derive(Debug, Clone, Copy, PartialEq, Eq, Structural)]
pub struct PublishState {
    /// How often it has failed.
    pub attempts: u32,
    /// The next pause.
    pub backoff_ms: u64,
}

/// What is to be done about a failure.
#[derive(Debug, Clone, Copy, PartialEq, Eq, Structural)]
pub enum PublishStep {
    /// The batch is given up.
    GiveUp,
    /// It is sent again after so many milliseconds.
    RetryAfter { delay_ms: u64, next: PublishState },
}

/// A batch that has not been sent yet.
pub open spec fn first_attempt() -> PublishState {
    PublishState { attempts: 0, backoff_ms: 50 }
}

/// The pause after a pause: twice as long, up to 5 seconds.
pub open spec fn longer(backoff_ms: u64) -> u64 {
    if 2 * backoff_ms < 5000 {
        (2 * backoff_ms) as u64
    } else {
        5000
    }
}

/// What is to be done about a failure.
pub open spec fn publish_step(max_retries: u32, state: PublishState) -> PublishStep {
    if state.attempts + 1 > max_retries {
        PublishStep::GiveUp
    } else {
        PublishStep::RetryAfter {
            delay_ms: state.backoff_ms,
            next: PublishState {
                attempts: (state.attempts + 1) as u32,
                backoff_ms: longer(state.backoff_ms),
            },
        }
    }
}

/// Publishes events over HTTP.
#[derive(Debug)]
pub struct HttpPublisher {
    max_retries: u32,
    proxy_id: String,
    metrics: PublisherMetrics,
}

impl HttpPublisher {
    /// What has been published.
    pub closed spec fn view(&self) -> PublisherMetrics {
        self.metrics
    }

    /// How often a batch is sent again at most.
    pub closed spec fn retries(&self) -> u32 {
        self.max_retries
    }

    /// By what this proxy is known.
    pub closed spec fn id(&self) -> Seq<char> {
        self.proxy_id@
    }

    /// Whether the settings are those of `other`.
    pub open spec fn same_settings(&self, other: &Self) -> bool {
        self.retries() == other.retries() && self.id() == other.id()
    }

    /// A publisher that is known by `proxy_id`.
    pub fn with_id(proxy_id: String, max_retries: u32) -> (r: Self)
        ensures
            r.retries() == max_retries,
            r.id() == proxy_id@,
            r@ == (PublisherMetrics {
                total_events: 0,
                total_batches: 0,
                total_bytes: 0,
                batch_seq: 0,
                successful_publishes: 0,
                failed_publishes: 0,
            }),
    {
        HttpPublisher {
            max_retries,
            proxy_id,
            metrics: PublisherMetrics {
                total_events: 0,
                total_batches: 0,
                total_bytes: 0,
                batch_seq: 0,
                successful_publishes: 0,
                failed_publishes: 0,
            },
        }
    }

    /// A publisher that is known by a name of its own.
    pub fn new(max_retries: u32) -> (r: Self)
        ensures
            r.retries() == max_retries,
            r.id().len() == 41,
            r.id().take(5) == "scry-"@,
            is_uuid_text(r.id().skip(5)),
            r@.total_events == 0,
            r@.total_batches == 0,
            r@.total_bytes == 0,
            r@.batch_seq == 0,
            r@.successful_publishes == 0,
            r@.failed_publishes == 0,
    {
        let uuid = random_uuid();
        let mut proxy_id = "scry-".to_owned();
        proxy_id.append(uuid.as_str());
        proof {
            reveal_strlit("scry-");
            assert(proxy_id@.take(5) =~= "scry-"@);
            assert(proxy_id@.skip(5) =~= uuid@);
        }
        HttpPublisher::with_id(proxy_id, max_retries)
    }

    /// By what this proxy is known.
    pub fn proxy_id(&self) -> (r: &str)
        ensures
            r@ == self.id(),
    {
        self.proxy_id.as_str()
    }

    /// What is sent for a batch; nothing for an empty one.
    pub fn publish_batch(&mut self, events: &Vec<scry_protocol::QueryEvent>) -> (r: Option<
        Vec<u8>,
    >)
        ensures
            final(self).same_settings(old(self)),
            if events@.len() == 0 {
                r is None && final(self)@ == old(self)@
            } else {
                &&& r matches Some(payload)
                &&& payload@ == batch_bytes(events@, old(self).id(), old(self)@.batch_seq)
                &&& final(self)@ == old(self)@.after_batch(
                    events@.len() as u64,
                    payload@.len() as u64,
                )
            },
    {
        if events.len() == 0 {
            return None;
        }
        let batch_seq = self.metrics.batch_seq;
        let payload = serialize_batch(events, self.proxy_id.as_str(), batch_seq);
        self.count_batch(events.len() as u64, payload.len() as u64);
        Some(payload)
    }

    /// Count a batch of `events` events in `byte_size` bytes.
    pub fn count_batch(&mut self, events: u64, byte_size: u64)
        ensures
            final(self).same_settings(old(self)),
            final(self)@ == old(self)@.after_batch(events, byte_size),
    {
        self.metrics.batch_seq = self.metrics.batch_seq.wrapping_add(1);
        self.metrics.total_events = self.metrics.total_events.wrapping_add(events);
        self.metrics.total_batches = self.metrics.total_batches.wrapping_add(1);
        self.metrics.total_bytes = self.metrics.total_bytes.wrapping_add(byte_size);
    }

    /// A batch that has not been sent yet.
    pub fn begin_publish(&self) -> (r: PublishState)
        ensures
            r == first_attempt(),
    {
        PublishState { attempts: 0, backoff_ms: 50 }
    }

    /// Whether a response with this status takes the batch.
    pub fn is_success(status: u16) -> (r: bool)
        ensures
            r == (200 <= status < 300),
    {
        200 <= status && status < 300
    }

    /// A batch was taken.
    pub fn published(&mut self)
        ensures
            final(self).same_settings(old(self)),
            final(self)@ == (PublisherMetrics {
                successful_publishes: counters::next64(old(self)@.successful_publishes),
                ..old(self)@
            }),
    {
        self.metrics.successful_publishes = self.metrics.successful_publishes.wrapping_add(1);
    }

    /// Sending a batch has failed. Returns what is to be done about it.
    pub fn publish_failed(&mut self, state: PublishState) -> (r: PublishStep)
        requires
            state.attempts < u32::MAX,
            state.backoff_ms <= 5000,
        ensures
            final(self).same_settings(old(self)),
            r == publish_step(old(self).retries(), state),
            final(self)@ == match r {
                PublishStep::GiveUp => PublisherMetrics {
                    failed_publishes: counters::next64(old(self)@.failed_publishes),
                    ..old(self)@
                },
                PublishStep::RetryAfter { .. } => old(self)@,
            },
    {
        let attempts: u32 = state.attempts + 1;
        if attempts > self.max_retries {
            self.metrics.failed_publishes = self.metrics.failed_publishes.wrapping_add(1);
            return PublishStep::GiveUp;
        }
        let doubled: u64 = state.backoff_ms * 2;
        PublishStep::RetryAfter {
            delay_ms: state.backoff_ms,
            next: PublishState {
                attempts,
                backoff_ms: if doubled < 5000 {
                    doubled
                } else {
                    5000
                },
            },
        }
    }

    /// What has been published.
    pub fn get_metrics(&self) -> (r: PublisherMetrics)
        ensures
            r == self@,
    {
        self.metrics
    }
}

/// A batch that has failed `n` times.
pub open spec fn after_failures(max_retries: u32, n: nat) -> Option<PublishState>
    decreases n,
{
    if n == 0 {
        Some(first_attempt())
    } else {
        match after_failures(max_retries, (n - 1) as nat) {
            Some(s) => match publish_step(max_retries, s) {
                PublishStep::GiveUp => None,
                PublishStep::RetryAfter { delay_ms, next } => Some(next),
            },
            None => None,
        }
    }
}

/// A batch is sent once and then as often again as the settings say, with
/// pauses of 5 seconds at most.
pub proof fn law_retries_are_bounded(max_retries: u32, n: nat)
    requires
        max_retries < u32::MAX,
    ensures
        after_failures(max_retries, n) is Some <==> n <= max_retries,
        after_failures(max_retries, n) matches Some(s) ==> s.attempts == n && 50 <= s.backoff_ms
            <= 5000,
    decreases n,
{
    if n > 0 {
        law_retries_are_bounded(max_retries, (n - 1) as nat);
    }
}

/// A pause of so many milliseconds, doubled `n` times.
pub open spec fn doubled(ms: nat, n: nat) -> nat
    decreases n,
{
    if n == 0 {
        ms
    } else {
        2 * doubled(ms, (n - 1) as nat)
    }
}

/// The pauses double from 50 milliseconds on, until they reach 5 seconds; each
/// failure is followed by the pause that its state says.
pub proof fn law_pauses_double(max_retries: u32, n: nat)
    requires
        n <= max_retries < u32::MAX,
    ensures
        after_failures(max_retries, n) matches Some(s) && s.backoff_ms == if doubled(50, n) < 5000 {
            doubled(50, n)
        } else {
            5000
        },
        n < max_retries ==> (publish_step(max_retries, after_failures(max_retries, n)->0)
            matches PublishStep::RetryAfter { delay_ms, next } && delay_ms == after_failures(
            max_retries,
            n,
        )->0.backoff_ms && Some(next) == after_failures(max_retries, n + 1)),
        n == max_retries ==> publish_step(max_retries, after_failures(max_retries, n)->0) is GiveUp,
    decreases n,
{
    law_retries_are_bounded(max_retries, n);
    if n > 0 {
        law_pauses_double(max_retries, (n - 1) as nat);
    }
}

/// Each batch counts as one with its events and bytes, and takes the next
/// number; whether it is taken is counted apart.
pub proof fn law_batches_are_counted(m: PublisherMetrics, events: u64, bytes: u64)
    requires
        m.total_events + events <= u64::MAX,
        m.total_bytes + bytes <= u64::MAX,
        m.total_batches < u64::MAX,
        m.batch_seq < u64::MAX,
    ensures
        m.after_batch(events, bytes).total_events == m.total_events + events,
        m.after_batch(events, bytes).total_bytes == m.total_bytes + bytes,
        m.after_batch(events, bytes).total_batches == m.total_batches + 1,
        m.after_batch(events, bytes).batch_seq == m.batch_seq + 1,
        m.after_batch(events, bytes).successful_publishes == m.successful_publishes,
        m.after_batch(events, bytes).failed_publishes == m.failed_publishes,
{
}

/// A batch that fails is sent again or counted as failed, once, and never as
/// taken; one that is taken is counted as that alone. A batch without events is
/// not sent, and one with events takes the next number.
pub proof fn law_outcomes_are_counted_once(
    p: &mut HttpPublisher,
    state: PublishState,
    step: PublishStep,
    q: &mut HttpPublisher,
)
    requires
        call_ensures(HttpPublisher::publish_failed, (p, state), step),
        call_ensures(HttpPublisher::published, (q,), ()),
        old(p)@.failed_publishes < u64::MAX,
        old(q)@.successful_publishes < u64::MAX,
    ensures
        step is GiveUp <==> final(p)@.failed_publishes == old(p)@.failed_publishes + 1,
        step is RetryAfter ==> final(p)@ == old(p)@,
        step is GiveUp <==> state.attempts >= old(p).retries(),
        final(p)@.successful_publishes == old(p)@.successful_publishes,
        final(p)@.batch_seq == old(p)@.batch_seq,
        final(q)@.successful_publishes == old(q)@.successful_publishes + 1,
        final(q)@.failed_publishes == old(q)@.failed_publishes,
        final(q)@.batch_seq == old(q)@.batch_seq,
{
}

} // verus!
