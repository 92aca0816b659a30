//! Collects events into batches.
//!
//! Events go through a bounded queue, so that a slow publisher cannot make
//! memory grow: where the queue is full, the oldest event in it is dropped and
//! makes room for the new one. A batch is published when it is full, when the
//! timer runs out, and at the end.
use crate::counters;
use std::collections::VecDeque;
use vstd::prelude::*;

verus! {

/// Counts of a batcher.
#[derive(Debug, Clone, Copy, PartialEq, Eq, Structural)]
pub struct BatcherMetrics {
    /// Events that found room in the queue.
    pub events_sent: u64,
    /// Events that were dropped because the queue was full.
    pub events_dropped: u64,
}

impl Default for BatcherMetrics {
    fn default() -> (r: Self)
        ensures
            r.events_sent == 0,
            r.events_dropped == 0,
    {
        BatcherMetrics { events_sent: 0, events_dropped: 0 }
    }
}

/// What a batcher holds.
#[verifier::ext_equal]
#[verifier::reject_recursive_types(T)]
pub struct BatcherState<T> {
    /// Events that wait, the oldest first.
    pub queue: Seq<T>,
    /// Events that have been collected for the next batch.
    pub batch: Seq<T>,
    /// Whether no more events are let in.
    pub closed: bool,
    pub sent: u64,
    pub dropped: u64,
}

impl<T> BatcherState<T> {
    /// Events that have been let in and not been published, the oldest first.
    pub open spec fn pending(self) -> Seq<T> {
        self.batch + self.queue
    }

    /// The batcher after `event` is sent, when the queue holds `capacity`. In a
    /// full queue the oldest event makes room; a queue that holds none drops
    /// the event itself.
    pub open spec fn after_send(self, event: T, capacity: nat) -> BatcherState<T> {
        if self.closed {
            self
        } else if self.queue.len() < capacity {
            BatcherState {
                queue: self.queue.push(event),
                sent: counters::next64(self.sent),
                ..self
            }
        } else if capacity == 0 {
            BatcherState { dropped: counters::next64(self.dropped), ..self }
        } else {
            BatcherState {
                queue: self.queue.skip(1).push(event),
                dropped: counters::next64(self.dropped),
                ..self
            }
        }
    }
}

impl<T> BatcherState<T> {
    /// The events that are published when the oldest one that waits is
    /// collected, where `full` make a batch.
    pub open spec fn handed_out(self, full: nat) -> Seq<T> {
        if self.queue.len() > 0 && self.batch.len() + 1 >= full {
            self.batch.push(self.queue[0])
        } else {
            Seq::empty()
        }
    }

    /// The batcher after the oldest event that waits is collected.
    pub open spec fn after_receive(self, full: nat) -> BatcherState<T> {
        if self.queue.len() == 0 {
            self
        } else if self.batch.len() + 1 >= full {
            BatcherState { queue: self.queue.skip(1), batch: Seq::empty(), ..self }
        } else {
            BatcherState {
                queue: self.queue.skip(1),
                batch: self.batch.push(self.queue[0]),
                ..self
            }
        }
    }

    /// The batcher after the timer has run out.
    pub open spec fn after_tick(self) -> BatcherState<T> {
        BatcherState { batch: Seq::empty(), ..self }
    }
}

/// Collects events into batches.
#[derive(Debug)]
#[verifier::reject_recursive_types(T)]
pub struct EventBatcher<T> {
    queue: VecDeque<T>,
    batch: Vec<T>,
    batch_size: usize,
    max_queue_size: usize,
    closed: bool,
    metrics: BatcherMetrics,
}

impl<T> EventBatcher<T> {
    /// What the batcher holds.
    pub closed spec fn view(&self) -> BatcherState<T> {
        BatcherState {
            queue: self.queue@,
            batch: self.batch@,
            closed: self.closed,
            sent: self.metrics.events_sent,
            dropped: self.metrics.events_dropped,
        }
    }

    /// How many events make a batch full.
    pub closed spec fn full_batch(&self) -> nat {
        self.batch_size as nat
    }

    /// How many events can wait.
    pub closed spec fn capacity(&self) -> nat {
        self.max_queue_size as nat
    }

    /// No more events wait than can, and the batch is not full.
    pub open spec fn wf(&self) -> bool {
        &&& self@.queue.len() <= self.capacity()
        &&& self.capacity() > 0
        &&& self@.batch.len() == 0 || self@.batch.len() < self.full_batch()
    }

    /// Whether the settings are those of `other`.
    pub open spec fn same_settings(&self, other: &Self) -> bool {
        self.full_batch() == other.full_batch() && self.capacity() == other.capacity()
    }

    /// A batcher without events.
    pub fn new(batch_size: usize, max_queue_size: usize) -> (r: Self)
        requires
            max_queue_size > 0,
        ensures
            r.wf(),
            r.full_batch() == batch_size,
            r.capacity() == max_queue_size,
            r@ == (BatcherState {
                queue: Seq::<T>::empty(),
                batch: Seq::<T>::empty(),
                closed: false,
                sent: 0,
                dropped: 0,
            }),
    {
        EventBatcher {
            queue: VecDeque::new(),
            batch: Vec::new(),
            batch_size,
            max_queue_size,
            closed: false,
            metrics: BatcherMetrics::default(),
        }
    }

    /// Send an event. Returns whether there was room for it; where the queue is
    /// full, the oldest event in it is dropped. A batcher that is closed takes
    /// no event.
    pub fn send_event(&mut self, event: T) -> (r: Result<bool, String>)
        requires
            old(self).wf(),
        ensures
            final(self).wf(),
            final(self).same_settings(old(self)),
            final(self)@ == old(self)@.after_send(event, old(self).capacity()),
            match r {
                Ok(queued) => !old(self)@.closed && queued == (old(self)@.queue.len()
                    < old(self).capacity()),
                Err(e) => old(self)@.closed && e@ == "Event batcher channel closed"@,
            },
    {
        if self.closed {
            return Err("Event batcher channel closed".to_owned());
        }
        if self.queue.len() < self.max_queue_size {
            self.queue.push_back(event);
            self.metrics.events_sent = self.metrics.events_sent.wrapping_add(1);
            Ok(true)
        } else {
            let _ = self.queue.pop_front();
            self.queue.push_back(event);
            self.metrics.events_dropped = self.metrics.events_dropped.wrapping_add(1);
            assert(self@.queue =~= old(self)@.queue.skip(1).push(event));
            Ok(false)
        }
    }

    /// Whether the loss of events is to be reported, after one was dropped:
    /// it is every hundred times.
    pub fn should_warn(&self) -> (r: bool)
        ensures
            r == (self@.dropped % 100 == 0),
    {
        self.metrics.events_dropped % 100 == 0
    }

    /// Counts of the batcher: events that found room, and events dropped.
    pub fn get_metrics(&self) -> (r: (u64, u64))
        ensures
            r == (self@.sent, self@.dropped),
    {
        (self.metrics.events_sent, self.metrics.events_dropped)
    }

    /// No more events are let in.
    pub fn close(&mut self)
        requires
            old(self).wf(),
        ensures
            final(self).wf(),
            final(self).same_settings(old(self)),
            final(self)@ == (BatcherState { closed: true, ..old(self)@ }),
    {
        self.closed = true;
    }

    /// Whether an event waits.
    pub fn has_waiting(&self) -> (r: bool)
        ensures
            r == (self@.queue.len() > 0),
    {
        self.queue.len() > 0
    }

    /// Whether no event waits and none can come: what is left in the batch is
    /// published then, and the batcher stops.
    pub fn is_finished(&self) -> (r: bool)
        ensures
            r == (self@.closed && self@.queue.len() == 0),
    {
        self.closed && self.queue.len() == 0
    }

    /// Take the batch out.
    fn take_batch(&mut self) -> (r: Vec<T>)
        ensures
            r@ == old(self)@.batch,
            final(self).same_settings(old(self)),
            final(self)@ == (BatcherState { batch: Seq::empty(), ..old(self)@ }),
    {
        let mut batch: Vec<T> = Vec::new();
        std::mem::swap(&mut batch, &mut self.batch);
        batch
    }

    /// Collect the oldest event that waits. Returns the batch to publish, if
    /// that makes it full.
    pub fn receive(&mut self) -> (r: Option<Vec<T>>)
        requires
            old(self).wf(),
        ensures
            final(self).wf(),
            final(self).same_settings(old(self)),
            final(self)@.closed == old(self)@.closed,
            final(self)@.sent == old(self)@.sent,
            final(self)@.dropped == old(self)@.dropped,
            if old(self)@.queue.len() == 0 {
                r is None && final(self)@ == old(self)@
            } else {
                let grown = old(self)@.batch.push(old(self)@.queue[0]);
                &&& final(self)@.queue == old(self)@.queue.skip(1)
                &&& if grown.len() >= old(self).full_batch() {
                    r matches Some(b) && b@ == grown && final(self)@.batch == Seq::<T>::empty()
                } else {
                    r is None && final(self)@.batch == grown
                }
            },
            final(self)@ == old(self)@.after_receive(old(self).full_batch()),
            (match r {
                Some(b) => b@,
                None => Seq::empty(),
            }) == old(self)@.handed_out(old(self).full_batch()),
    {
        match self.queue.pop_front() {
            Some(event) => {
                assert(self.queue@ =~= old(self)@.queue.skip(1));
                self.batch.push(event);
                if self.batch.len() >= self.batch_size {
                    Some(self.take_batch())
                } else {
                    None
                }
            },
            None => None,
        }
    }

    /// The timer has run out. Returns the batch to publish, unless it is empty.
    pub fn tick(&mut self) -> (r: Option<Vec<T>>)
        requires
            old(self).wf(),
        ensures
            final(self).wf(),
            final(self).same_settings(old(self)),
            final(self)@ == (BatcherState { batch: Seq::empty(), ..old(self)@ }),
            r is Some <==> old(self)@.batch.len() > 0,
            r matches Some(b) ==> b@ == old(self)@.batch,
            final(self)@ == old(self)@.after_tick(),
    {
        if self.batch.len() > 0 {
            Some(self.take_batch())
        } else {
            assert(self.batch@ =~= Seq::empty());
            None
        }
    }
}

/// Each event that is sent to an open batcher is counted once: it found room,
/// or one was dropped. No more events wait than can, and the event that was
/// sent is the newest of them.
pub proof fn law_events_are_accounted_for<T>(s: BatcherState<T>, event: T, capacity: nat)
    requires
        !s.closed,
        0 < capacity,
        s.queue.len() <= capacity,
        s.sent < u64::MAX,
        s.dropped < u64::MAX,
    ensures
        s.after_send(event, capacity).sent + s.after_send(event, capacity).dropped == s.sent
            + s.dropped + 1,
        s.after_send(event, capacity).queue.len() <= capacity,
        s.after_send(event, capacity).queue.last() == event,
        s.after_send(event, capacity).batch == s.batch,
        s.after_send(event, capacity).sent > s.sent <==> s.after_send(event, capacity).pending()
            == s.pending().push(event),
{
    let t = s.after_send(event, capacity);
    if s.queue.len() < capacity {
        assert(t.pending() =~= s.pending().push(event));
    } else {
        assert(t.pending().len() != s.pending().push(event).len());
    }
}

/// In a full queue it is the oldest event that makes room, and no other.
pub proof fn law_oldest_event_makes_room<T>(s: BatcherState<T>, event: T, capacity: nat)
    requires
        !s.closed,
        0 < capacity,
        s.queue.len() == capacity,
        s.dropped < u64::MAX,
    ensures
        s.after_send(event, capacity).dropped == s.dropped + 1,
        s.after_send(event, capacity).sent == s.sent,
        s.after_send(event, capacity).queue.drop_last() == s.queue.drop_first(),
        s.after_send(event, capacity).queue.last() == event,
{
    assert(s.after_send(event, capacity).queue.drop_last() =~= s.queue.drop_first());
}

/// Events are published in the order in which they were let in, none is lost
/// and none is published twice: what a step hands out, followed by what is
/// left, is what was there before.
pub proof fn law_batches_keep_order<T>(s: BatcherState<T>)
    ensures
        s.batch + (BatcherState { batch: Seq::empty(), ..s }).pending() == s.pending(),
        s.queue.len() > 0 ==> s.batch.push(s.queue[0]) + s.queue.skip(1) == s.pending(),
{
    assert(s.batch + (Seq::<T>::empty() + s.queue) =~= s.pending());
    if s.queue.len() > 0 {
        assert(s.batch.push(s.queue[0]) + s.queue.skip(1) =~= s.pending());
    }
}

/// Collecting an event loses none, adds none and keeps their order: what is
/// published, followed by what is left, is what was there before. A batch is
/// published as soon as it is full and not before, and counts stay as they are.
pub proof fn law_collecting_keeps_events<T>(s: BatcherState<T>, full: nat)
    requires
        s.batch.len() == 0 || s.batch.len() < full,
    ensures
        s.handed_out(full) + s.after_receive(full).pending() == s.pending(),
        s.queue.len() > 0 ==> s.after_receive(full).queue.len() == s.queue.len() - 1,
        s.queue.len() == 0 ==> s.after_receive(full) == s,
        s.handed_out(full).len() > 0 ==> s.handed_out(full).len() == if full == 0 {
            1
        } else {
            full
        },
        s.after_receive(full).batch.len() == 0 || s.after_receive(full).batch.len() < full,
        s.after_receive(full).closed == s.closed,
        s.after_receive(full).sent == s.sent,
        s.after_receive(full).dropped == s.dropped,
{
    assert(s.handed_out(full) + s.after_receive(full).pending() =~= s.pending());
}

/// When the timer runs out, the whole batch is published, and what waits goes on
/// waiting.
pub proof fn law_timer_empties_the_batch<T>(s: BatcherState<T>)
    ensures
        s.batch + s.after_tick().pending() == s.pending(),
        s.after_tick().batch.len() == 0,
        s.after_tick().queue == s.queue,
        s.after_tick().closed == s.closed,
        s.after_tick().sent == s.sent,
        s.after_tick().dropped == s.dropped,
{
    assert(s.batch + s.after_tick().pending() =~= s.pending());
}

/// A batcher that is closed takes no event and counts none.
pub proof fn law_closed_batcher_takes_nothing<T>(s: BatcherState<T>, event: T, capacity: nat)
    requires
        s.closed,
    ensures
        s.after_send(event, capacity) == s,
{
}

/// An event that is sent to an open batcher waits behind all others, and is told
/// to have found room exactly where none had to make room for it.
pub proof fn law_sent_event_waits<T>(b: &mut EventBatcher<T>, event: T, r: Result<bool, String>)
    requires
        old(b).wf(),
        call_ensures(EventBatcher::<T>::send_event, (b, event), r),
    ensures
        r is Err <==> old(b)@.closed,
        r is Err ==> final(b)@ == old(b)@,
        r is Ok ==> final(b)@.queue.len() > 0 && final(b)@.queue.last() == event,
        r matches Ok(room) ==> (room <==> final(b)@.queue.len() == old(b)@.queue.len() + 1),
        r matches Ok(room) ==> (!room ==> final(b)@.queue.drop_last()
            == old(b)@.queue.drop_first()),
        final(b)@.batch == old(b)@.batch,
{
    if r == Ok::<bool, String>(false) {
        assert(final(b)@.queue.drop_last() =~= old(b)@.queue.drop_first());
    }
}

/// What a step publishes, followed by what is left, is what was there before it.
pub proof fn law_steps_publish_in_order<T>(
    a: &mut EventBatcher<T>,
    received: Option<Vec<T>>,
    b: &mut EventBatcher<T>,
    ticked: Option<Vec<T>>,
)
    requires
        call_ensures(EventBatcher::<T>::receive, (a,), received),
        call_ensures(EventBatcher::<T>::tick, (b,), ticked),
    ensures
        (match received {
            Some(v) => v@,
            None => Seq::empty(),
        }) + final(a)@.pending() == old(a)@.pending(),
        (match ticked {
            Some(v) => v@,
            None => Seq::empty(),
        }) + final(b)@.pending() == old(b)@.pending(),
        final(b)@.batch.len() == 0,
        received matches Some(v) ==> v@.len() >= old(a).full_batch() && v@.len() > 0,
        ticked matches Some(v) ==> v@.len() > 0,
{
    let out: Seq<T> = match received {
        Some(v) => v@,
        None => Seq::empty(),
    };
    assert(out + final(a)@.pending() =~= old(a)@.pending());
    let out: Seq<T> = match ticked {
        Some(v) => v@,
        None => Seq::empty(),
    };
    assert(out + final(b)@.pending() =~= old(b)@.pending());
}

} // verus!
